//! The OpenAI-compatible chat interface: message and response data, the
//! request URL, error messages, and the reading of server-sent event lines
//! of a streamed answer.

pub mod client;
pub mod types;

pub use types::{
    AudioConfig, AudioData, ChatMessage, ChatResponse, Choice, OpenAiErrorBody,
    OpenAiErrorDetail, ResponseMessage, Role, Usage,
};
