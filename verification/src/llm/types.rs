//! Request and response data of `/v1/chat/completions`.

use vstd::prelude::*;

verus! {

/// Role of a chat message.
#[derive(Debug, Clone, Copy, PartialEq, Eq, Structural)]
pub enum Role {
    System,
    User,
    Assistant,
    Tool,
}

/// One chat message.
#[derive(Debug, Clone)]
pub struct ChatMessage {
    pub role: Role,
    pub content: String,
}

impl ChatMessage {
    /// A system message.
    pub fn system(content: String) -> (m: ChatMessage)
        ensures
            m.role == Role::System,
            m.content@ == content@,
    {
        ChatMessage { role: Role::System, content }
    }

    /// A user message.
    pub fn user(content: String) -> (m: ChatMessage)
        ensures
            m.role == Role::User,
            m.content@ == content@,
    {
        ChatMessage { role: Role::User, content }
    }

    /// An assistant message.
    pub fn assistant(content: String) -> (m: ChatMessage)
        ensures
            m.role == Role::Assistant,
            m.content@ == content@,
    {
        ChatMessage { role: Role::Assistant, content }
    }

    /// Whether this is a user message.
    pub fn is_user(&self) -> (b: bool)
        ensures
            b == (self.role == Role::User),
    {
        self.role == Role::User
    }
}

/// The `audio` field of a request (speech synthesis).
#[derive(Debug, Clone)]
pub struct AudioConfig {
    /// Audio format, such as `mp3`, `wav` or `pcm`.
    pub format: String,
    /// Voice, where the service takes one.
    pub voice: Option<String>,
}

/// Audio returned in a response: base64 text in `data`.
#[derive(Debug, Clone)]
pub struct AudioData {
    pub data: String,
}

/// The assistant message of a choice.
#[derive(Debug, Clone)]
pub struct ResponseMessage {
    pub role: String,
    pub content: Option<String>,
    pub audio: Option<AudioData>,
}

/// One choice of a response.
#[derive(Debug, Clone)]
pub struct Choice {
    pub index: u32,
    pub message: ResponseMessage,
    pub finish_reason: Option<String>,
}

/// Token usage.
#[derive(Debug, Clone, Copy)]
pub struct Usage {
    pub prompt_tokens: u32,
    pub completion_tokens: u32,
    pub total_tokens: u32,
}

/// The `json_schema` object of a `response_format`: a named JSON schema,
/// held as JSON text, that the answer must follow (strictly, when `strict`).
#[derive(Debug, Clone)]
pub struct JsonSchemaFormat {
    pub name: String,
    pub description: Option<String>,
    pub schema: String,
    pub strict: bool,
}

/// The `response_format` of a request.
#[derive(Debug, Clone)]
pub enum ResponseFormat {
    /// Plain text (the default).
    Text,
    /// Loose JSON.
    JsonObject,
    /// Strict structured output following a schema.
    JsonSchema { json_schema: JsonSchemaFormat },
}

/// A complete (non-streamed) response.
#[derive(Debug, Clone)]
pub struct ChatResponse {
    pub id: String,
    pub model: String,
    pub choices: Vec<Choice>,
    pub usage: Option<Usage>,
}

/// The text of a response: the content of its first choice.
pub open spec fn response_text_spec(r: ChatResponse) -> Option<Seq<char>> {
    if r.choices@.len() > 0 {
        match r.choices@[0].message.content {
            Some(c) => Some(c@),
            None => None,
        }
    } else {
        None
    }
}

impl ChatResponse {
    /// The content of the first choice, if any.
    pub fn text(&self) -> (t: Option<String>)
        ensures
            match t {
                Some(s) => response_text_spec(*self) == Some(s@),
                None => response_text_spec(*self) is None,
            },
    {
        if self.choices.len() == 0 {
            return None;
        }
        match &self.choices[0].message.content {
            Some(c) => Some(c.clone()),
            None => None,
        }
    }
}

/// The error body of a failed request (HTTP 4xx/5xx).
#[derive(Debug, Clone)]
pub struct OpenAiErrorBody {
    pub error: OpenAiErrorDetail,
}

/// The detail of an error body; `error_type` is the body's `type` field.
#[derive(Debug, Clone)]
pub struct OpenAiErrorDetail {
    pub message: String,
    pub error_type: Option<String>,
    pub param: Option<String>,
    pub code: Option<String>,
}

} // verus!
