//! Data shared by the web server: shared state, API responses and progress
//! events.

pub mod events;
pub mod state;
pub mod types;
