//! State shared by all request handlers.

use vstd::prelude::*;

use crate::config::AppConfig;
use crate::project::ProjectManager;

verus! {

/// The configuration and the project manager.
#[derive(Debug)]
pub struct AppState {
    config: AppConfig,
    project_manager: ProjectManager,
}

impl AppState {
    /// The shared state.
    pub fn new(config: AppConfig, project_manager: ProjectManager) -> (s: AppState)
        ensures
            s.config_spec() == config,
            s.project_manager_spec() == project_manager,
    {
        AppState { config, project_manager }
    }

    /// The configuration held.
    pub closed spec fn config_spec(&self) -> AppConfig {
        self.config
    }

    /// The project manager held.
    pub closed spec fn project_manager_spec(&self) -> ProjectManager {
        self.project_manager
    }

    /// The configuration.
    pub fn config(&self) -> (c: &AppConfig)
        ensures
            *c == self.config_spec(),
    {
        &self.config
    }

    /// The project manager.
    pub fn project_manager(&self) -> (pm: &ProjectManager)
        ensures
            *pm == self.project_manager_spec(),
    {
        &self.project_manager
    }
}

} // verus!
