use storyor::character::CharacterLibrary;
use storyor::error::StoryorError;
use storyor::llm::types::{AudioData, ChatResponse, Choice, ResponseMessage, Role};
use storyor::script::CharacterProfile;
use storyor::tts::{extract_audio, speaker_guidance, tts_messages, tts_user_prompt};

fn response_with(audio: Option<&str>) -> ChatResponse {
    ChatResponse {
        id: "r1".to_string(),
        model: "tts".to_string(),
        choices: vec![Choice {
            index: 0,
            message: ResponseMessage {
                role: "assistant".to_string(),
                content: None,
                audio: audio.map(|d| AudioData { data: d.to_string() }),
            },
            finish_reason: None,
        }],
        usage: None,
    }
}

fn library() -> CharacterLibrary {
    let mut lib = CharacterLibrary::new();
    lib.merge(&[CharacterProfile {
        name: "林风".to_string(),
        profile: "少年剑客".to_string(),
        scene: "山道".to_string(),
        guidance: "青年男声".to_string(),
    }]);
    lib
}

#[test]
fn extract_audio_decodes_base64() {
    let bytes = extract_audio(&response_with(Some("aGVsbG8="))).unwrap();
    assert_eq!(bytes, b"hello".to_vec());
}

#[test]
fn extract_audio_missing_audio_is_llm_error() {
    match extract_audio(&response_with(None)) {
        Err(StoryorError::Llm(m)) => assert_eq!(m, "TTS 响应中未找到 audio.data 字段"),
        other => panic!("unexpected: {other:?}"),
    }
    let empty = ChatResponse { id: String::new(), model: String::new(), choices: vec![], usage: None };
    assert!(matches!(extract_audio(&empty), Err(StoryorError::Llm(_))));
}

#[test]
fn extract_audio_bad_base64_is_base64_error() {
    assert!(matches!(extract_audio(&response_with(Some("不是base64!"))), Err(StoryorError::Base64(_))));
}

#[test]
fn user_prompt_appends_voice_setting() {
    assert_eq!(tts_user_prompt("说书人语气", ""), "说书人语气");
    assert_eq!(tts_user_prompt("说书人语气", "青年男声"), "说书人语气\n音色设定：青年男声");
}

#[test]
fn guidance_comes_from_library() {
    let lib = library();
    assert_eq!(speaker_guidance(&lib, "林风"), "青年男声");
    assert_eq!(speaker_guidance(&lib, "旁白"), "");
}

#[test]
fn messages_are_user_then_assistant() {
    let lib = library();
    let msgs = tts_messages("林风", "在下林风。", "沉稳", &lib);
    assert_eq!(msgs.len(), 2);
    assert_eq!(msgs[0].role, Role::User);
    assert_eq!(msgs[0].content, "沉稳\n音色设定：青年男声");
    assert_eq!(msgs[1].role, Role::Assistant);
    assert_eq!(msgs[1].content, "在下林风。");
    let narr = tts_messages("旁白", "话说……", "平缓", &lib);
    assert_eq!(narr[0].content, "平缓");
}
