//! The library's error type.

use vstd::prelude::*;

use crate::text::{contains_spec, str_contains};

verus! {

/// Errors of the pipeline, each carrying a human-readable message.
#[derive(Debug, Clone)]
pub enum StoryorError {
    Io(String),
    Llm(String),
    Json(String),
    Regex(String),
    Base64(String),
    Http(String),
    Checkpoint(String),
    Config(String),
    Parse(String),
    Prompt(String),
    Project(String),
    /// A project that does not exist (or whose metadata cannot be read);
    /// shown like any other project error.
    ProjectNotFound(String),
    Server(String),
}

/// Whether an error reports a missing project: a project-not-found error,
/// or a project error whose message says that the project was not found.
pub open spec fn is_not_found_spec(e: StoryorError) -> bool {
    match e {
        StoryorError::ProjectNotFound(_) => true,
        StoryorError::Project(msg) => contains_spec(msg@, "未找到"@),
        _ => false,
    }
}

/// The HTTP status that answers an error: 404 for a missing project, 500
/// for everything else.
pub open spec fn status_spec(e: StoryorError) -> u16 {
    if is_not_found_spec(e) {
        404
    } else {
        500
    }
}

impl StoryorError {
    /// The HTTP status that answers this error (see [`status_spec`]).
    pub fn status_code(&self) -> (code: u16)
        ensures
            code == status_spec(*self),
    {
        match self {
            StoryorError::ProjectNotFound(_) => 404,
            StoryorError::Project(msg) => {
                if str_contains(msg.as_str(), "未找到") {
                    404
                } else {
                    500
                }
            },
            _ => 500,
        }
    }
}

} // verus!
