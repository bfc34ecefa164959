//! Speech synthesis through the chat interface: the messages of one line of
//! dialogue, and the audio taken back out of the response.
//!
//! Each line is sent as one user/assistant pair: the user message is the
//! director-mode description, followed by the speaker's voice setting from
//! the character library when there is one; the assistant message is the
//! line itself. The audio comes back base64-encoded in
//! `choices[0].message.audio.data`.

use base64::Engine;
use vstd::prelude::*;

use crate::character::CharacterLibrary;
use crate::error::StoryorError;
use crate::llm::types::{ChatMessage, ChatResponse, Role};

verus! {

/// The user prompt of a line: the description alone when the voice setting is
/// empty, else the description, a newline, `音色设定：` and the setting.
pub open spec fn tts_user_prompt_spec(description: Seq<char>, guidance: Seq<char>) -> Seq<char> {
    if guidance.len() == 0 {
        description
    } else {
        description + "\n音色设定："@ + guidance
    }
}

/// The voice setting of `speaker` in a library: the profile's guidance, or
/// nothing when the speaker has no profile.
pub open spec fn speaker_guidance_spec(library: Map<Seq<char>, crate::script::ProfileView>, speaker: Seq<char>) -> Seq<char> {
    if library.dom().contains(speaker) {
        library[speaker].guidance
    } else {
        Seq::empty()
    }
}

/// The voice setting that the library holds for `speaker`.
pub fn speaker_guidance(library: &CharacterLibrary, speaker: &str) -> (g: String)
    ensures
        g@ == speaker_guidance_spec(library@, speaker@),
{
    match library.get(speaker) {
        Some(p) => p.guidance.clone(),
        None => String::new(),
    }
}

/// The user prompt of a line (see [`tts_user_prompt_spec`]).
pub fn tts_user_prompt(description: &str, guidance: &str) -> (s: String)
    ensures
        s@ == tts_user_prompt_spec(description@, guidance@),
{
    let mut s = description.to_string();
    if guidance.unicode_len() > 0 {
        s.append("\n音色设定：");
        s.append(guidance);
    }
    s
}

/// The two messages that synthesise one line: the user prompt built from the
/// description and the speaker's voice setting, then the line as the
/// assistant's message.
pub fn tts_messages(speaker: &str, content: &str, description: &str, library: &CharacterLibrary) -> (msgs: Vec<ChatMessage>)
    ensures
        msgs@.len() == 2,
        msgs@[0].role == Role::User,
        msgs@[0].content@ == tts_user_prompt_spec(description@, speaker_guidance_spec(library@, speaker@)),
        msgs@[1].role == Role::Assistant,
        msgs@[1].content@ == content@,
{
    let guidance = speaker_guidance(library, speaker);
    let prompt = tts_user_prompt(description, guidance.as_str());
    let mut msgs: Vec<ChatMessage> = Vec::new();
    msgs.push(ChatMessage::user(prompt));
    msgs.push(ChatMessage::assistant(content.to_string()));
    msgs
}

/// The base64 text of the audio in a response: that of the first choice's
/// message, if it carries audio.
pub open spec fn response_audio_spec(r: ChatResponse) -> Option<Seq<char>> {
    if r.choices@.len() > 0 {
        match r.choices@[0].message.audio {
            Some(a) => Some(a.data@),
            None => None,
        }
    } else {
        None
    }
}

/// The message of the error for a response that carries no audio.
pub open spec fn missing_audio_message() -> Seq<char> {
    "TTS 响应中未找到 audio.data 字段"@
}

/// Declares `base64::DecodeError`, the error of decoding base64 text.
#[verifier::external_type_specification]
#[verifier::external_body]
pub struct ExBase64DecodeError(base64::DecodeError);

/// What the standard base64 engine (RFC 4648 alphabet, padding required)
/// decodes the text's UTF-8 bytes to, or `None` where it rejects them.
pub uninterp spec fn standard_base64_decode(text: Seq<char>) -> Option<Seq<u8>>;

/// Wraps `base64::engine::general_purpose::STANDARD.decode`: decodes base64
/// text. The result is named, not spelled out: the bytes are those that the
/// engine gives for the text, and it fails exactly where the engine does.
#[verifier::external_body]
fn decode_standard_base64(text: &str) -> (r: Result<Vec<u8>, base64::DecodeError>)
    ensures
        match r {
            Ok(v) => standard_base64_decode(text@) == Some(v@),
            Err(_) => standard_base64_decode(text@) is None,
        },
{
    base64::engine::general_purpose::STANDARD.decode(text)
}

/// Wraps the `Display` of `base64::DecodeError`: the error's message. Nothing
/// is said of its text.
#[verifier::external_body]
fn base64_error_message(e: &base64::DecodeError) -> String {
    format!("{e}")
}

/// The decoded audio of a response: a `Llm` error when the first choice
/// carries no audio, a `Base64` error when its data is not valid base64, and
/// the decoded bytes otherwise.
pub fn extract_audio(resp: &ChatResponse) -> (r: Result<Vec<u8>, StoryorError>)
    ensures
        match response_audio_spec(*resp) {
            None => r matches Err(StoryorError::Llm(m)) && m@ == missing_audio_message(),
            Some(d) => match standard_base64_decode(d) {
                Some(bytes) => r matches Ok(v) && v@ == bytes,
                None => r matches Err(e) && e is Base64,
            },
        },
{
    if resp.choices.len() == 0 {
        return Err(StoryorError::Llm("TTS 响应中未找到 audio.data 字段".to_string()));
    }
    match &resp.choices[0].message.audio {
        None => Err(StoryorError::Llm("TTS 响应中未找到 audio.data 字段".to_string())),
        Some(a) => match decode_standard_base64(a.data.as_str()) {
            Ok(v) => Ok(v),
            Err(e) => Err(StoryorError::Base64(base64_error_message(&e))),
        },
    }
}

} // verus!
