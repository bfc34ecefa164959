//! storyor: the verified core of a pipeline that turns a novel into a
//! storyteller-style audio play.

pub mod audio;
pub mod character;
pub mod checkpoint;
pub mod config;
pub mod error;
pub mod llm;
pub mod novel;
pub mod pipeline;
pub mod project;
pub mod prompts;
pub mod script;
pub mod server;
pub mod text;
pub mod tts;
