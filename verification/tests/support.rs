use storyor::llm::client::{sse_step, SseStep};
use storyor::config::{
    default_audio_format, default_chapter_regex, default_concurrency, default_max_paragraph_lines,
    default_output_dir, default_server_host, default_server_port, default_sounds_dir,
    default_tts_timeout, default_tts_voice, default_workspace_dir, pause_kind, AppConfig, Cli,
    ModelConfig, PauseKind, ServerConfig, SoundsConfig, WorkspaceConfig,
};
use storyor::error::StoryorError;
use storyor::llm::client::{
    chat_url, classify_sse_line, failure_message, openai_default_base_url, resolve_base_url,
    truncate_chars, SseBuffer, SseLine,
};
use storyor::llm::types::{ChatMessage, ChatResponse, Choice, OpenAiErrorBody, OpenAiErrorDetail, ResponseMessage, Role};
use storyor::project::{
    check_create_request, sort_newest_first, ProjectListItem, ProjectManager, ProjectMeta,
    ProjectPhase, Timestamp,
};
use storyor::prompts::{builtin_or_missing, default_template, prompts_dir, template_names};
use storyor::server::events::{ProgressEvent, Stage};
use storyor::server::state::AppState;
use storyor::server::types::{ErrorResponse, HealthResponse};
use storyor::text::{format_decimal_padded, join_path, replace_all, str_contains, trim_str};

fn model(name: &str) -> ModelConfig {
    ModelConfig { backend: "OpenAI".to_string(), api_key: None, base_url: None, model: name.to_string(), max_tokens: None }
}

fn config() -> AppConfig {
    AppConfig {
        small_model: model("s"),
        large_model: model("l"),
        tts_model: model("t"),
        voice_design_model: None,
        voice_clone_model: None,
        chapter_regex: default_chapter_regex(),
        max_concurrency: default_concurrency(),
        output_dir: default_output_dir(),
        max_paragraph_lines: default_max_paragraph_lines(),
        audio_format: default_audio_format(),
        tts_voice: default_tts_voice(),
        tts_timeout_secs: default_tts_timeout(),
        server: ServerConfig::default(),
        workspace: WorkspaceConfig::default(),
        sounds: SoundsConfig::default(),
    }
}

fn item(id: &str, secs: i64) -> ProjectListItem {
    ProjectListItem {
        id: id.to_string(),
        name: id.to_string(),
        created_at: Timestamp { secs, nanos: 0 },
        current_phase: ProjectPhase::Created,
        novel_chars: 1,
    }
}

#[test]
fn server_defaults() {
    assert_eq!(default_server_host(), "127.0.0.1");
    assert_eq!(default_server_port(), 3001);
    let s = ServerConfig::default();
    assert_eq!(s.host, "127.0.0.1");
    assert_eq!(s.port, 3001);
    assert_eq!(WorkspaceConfig::default().dir, default_workspace_dir());
    assert_eq!(SoundsConfig::default().dir, default_sounds_dir());
}

#[test]
fn pause_labels() {
    assert_eq!(pause_kind("short"), PauseKind::Short);
    assert_eq!(pause_kind("medium"), PauseKind::Medium);
    assert_eq!(pause_kind("long"), PauseKind::Long);
    assert_eq!(pause_kind("forever"), PauseKind::Medium);
}

#[test]
fn cli_overrides_only_given_options() {
    let mut c = config();
    let before_ws = c.workspace.dir.clone();
    let cli = Cli { config: "storyor.toml".to_string(), host: Some("0.0.0.0".to_string()), port: None, workspace: None };
    cli.apply_overrides(&mut c);
    assert_eq!(c.server.host, "0.0.0.0");
    assert_eq!(c.server.port, 3001);
    assert_eq!(c.workspace.dir, before_ws);
    let cli = Cli { config: String::new(), host: None, port: Some(8080), workspace: Some("/ws".to_string()) };
    cli.apply_overrides(&mut c);
    assert_eq!(c.server.host, "0.0.0.0");
    assert_eq!(c.server.port, 8080);
    assert_eq!(c.workspace.dir, "/ws");
}

#[test]
fn error_status_codes() {
    assert_eq!(StoryorError::Project("项目 x 未找到".to_string()).status_code(), 404);
    assert_eq!(StoryorError::Project("项目名称不能为空".to_string()).status_code(), 500);
    assert_eq!(StoryorError::Io("未找到".to_string()).status_code(), 500);
}

#[test]
fn create_request_checks() {
    assert_eq!(check_create_request("测试项目", "正文内容").unwrap(), 4);
    match check_create_request("  ", "正文") {
        Err(StoryorError::Project(m)) => assert_eq!(m, "项目名称不能为空"),
        other => panic!("unexpected: {other:?}"),
    }
    match check_create_request("名", " \n") {
        Err(StoryorError::Project(m)) => assert_eq!(m, "小说文本不能为空"),
        other => panic!("unexpected: {other:?}"),
    }
}

#[test]
fn prepare_create_makes_fresh_meta() {
    let pm = ProjectManager::with_workspace("/nonexistent-storyor-workspace");
    let meta = pm.prepare_create("测试项目", "正文内容").unwrap();
    assert_eq!(meta.name, "测试项目");
    assert_eq!(meta.novel_chars, 4);
    assert_eq!(meta.novel_path, "novel.txt");
    assert_eq!(meta.current_phase, ProjectPhase::Created);
    assert_eq!(meta.id.len(), 36);
    assert!(meta.id.chars().enumerate().all(|(i, c)| if [8, 13, 18, 23].contains(&i) {
        c == '-'
    } else {
        c.is_ascii_digit() || ('a'..='f').contains(&c)
    }));
    assert_eq!(pm.project_dir(&meta.id), format!("/nonexistent-storyor-workspace/{}", meta.id));
    let other = ProjectMeta::new("测试项目", 4);
    assert_ne!(meta.id, other.id);
    assert!(matches!(pm.prepare_create("", "x"), Err(StoryorError::Project(_))));
}

#[test]
fn project_paths() {
    let pm = ProjectManager::with_workspace("/ws");
    assert_eq!(pm.workspace_dir(), "/ws");
    assert_eq!(pm.project_dir("abc"), "/ws/abc");
    assert_eq!(pm.project_meta_path("abc"), "/ws/abc/project.json");
    assert!(!pm.project_exists("abc"));
    let from_cfg = ProjectManager::from_config(&config());
    assert_eq!(from_cfg.workspace_dir(), default_workspace_dir());
}

#[test]
fn project_list_sorts_newest_first() {
    let sorted = sort_newest_first(vec![item("a", 10), item("b", 30), item("c", 20), item("d", 30)]);
    let ids: Vec<&str> = sorted.iter().map(|i| i.id.as_str()).collect();
    assert_eq!(ids, vec!["b", "d", "c", "a"]);
}

#[test]
fn default_phase_is_created() {
    assert_eq!(ProjectPhase::default(), ProjectPhase::Created);
}

#[test]
fn prompt_templates() {
    assert_eq!(prompts_dir(), "prompts");
    assert_eq!(template_names(), vec!["story_teller.md", "summary.md", "segment.md", "script.md"]);
    assert!(default_template("summary.md").unwrap().contains("{{content}}"));
    assert!(default_template("segment.md").unwrap().contains("{{summaries}}"));
    assert!(default_template("nope.md").is_none());
    match builtin_or_missing("nope.md") {
        Err(StoryorError::Prompt(m)) => assert_eq!(m, "提示词模板缺失: nope.md"),
        other => panic!("unexpected: {other:?}"),
    }
    assert_eq!(builtin_or_missing("script.md").unwrap(), default_template("script.md").unwrap());
}

#[test]
fn chat_endpoint() {
    assert_eq!(openai_default_base_url(), "https://api.openai.com/v1");
    assert_eq!(chat_url("https://api.openai.com/v1"), "https://api.openai.com/v1/chat/completions");
    assert_eq!(chat_url("http://localhost:8000/v1//"), "http://localhost:8000/v1/chat/completions");
    assert_eq!(resolve_base_url(&None), "https://api.openai.com/v1");
    assert_eq!(resolve_base_url(&Some("http://x".to_string())), "http://x");
}

#[test]
fn failure_messages() {
    let body = OpenAiErrorBody {
        error: OpenAiErrorDetail { message: "quota".to_string(), error_type: None, param: None, code: None },
    };
    assert_eq!(failure_message(Some(body), "{...}"), "quota");
    let long: String = "字".repeat(600);
    assert_eq!(failure_message(None, &long).chars().count(), 500);
    assert_eq!(truncate_chars("abc", 2), "ab");
    assert_eq!(truncate_chars("abc", 5), "abc");
}

#[test]
fn sse_lines() {
    assert!(matches!(classify_sse_line("data: [DONE]"), SseLine::Done));
    match classify_sse_line("data: {\"x\":1} ") {
        SseLine::Data(d) => assert_eq!(d, "{\"x\":1}"),
        other => panic!("unexpected: {other:?}"),
    }
    assert!(matches!(classify_sse_line(": keep-alive"), SseLine::Skip));
    assert!(matches!(classify_sse_line(""), SseLine::Skip));
}

#[test]
fn sse_buffer_splits_lines() {
    let mut b = SseBuffer::new();
    b.push_str("data: a\ndata: ");
    assert_eq!(b.next_line().as_deref(), Some("data: a"));
    assert_eq!(b.next_line(), None);
    b.push_str("b\r\n\n");
    assert_eq!(b.next_line().as_deref(), Some("data: b"));
    assert_eq!(b.next_line().as_deref(), Some(""));
    assert_eq!(b.next_line(), None);
}

#[test]
fn chat_messages_and_text() {
    let m = ChatMessage::system("sys".to_string());
    assert_eq!(m.role, Role::System);
    assert!(!m.is_user());
    assert!(ChatMessage::user("u".to_string()).is_user());
    let resp = ChatResponse {
        id: String::new(),
        model: String::new(),
        choices: vec![Choice {
            index: 0,
            message: ResponseMessage { role: "assistant".to_string(), content: Some("你好".to_string()), audio: None },
            finish_reason: Some("stop".to_string()),
        }],
        usage: None,
    };
    assert_eq!(resp.text().as_deref(), Some("你好"));
    let empty = ChatResponse { id: String::new(), model: String::new(), choices: vec![], usage: None };
    assert_eq!(empty.text(), None);
}

#[test]
fn server_bodies_and_events() {
    assert_eq!(ErrorResponse::new("坏了".to_string()).error, "坏了");
    let h = HealthResponse::for_service("0.1.0".to_string(), "/ws".to_string());
    assert_eq!(h.service, "storyor");
    assert_eq!(h.workspace, "/ws");
    let e = ProgressEvent::StageProgress { stage: Stage::Audio, completed: 1, total: Some(3), message: None };
    assert_eq!(e.stage(), Stage::Audio);
    assert_eq!(ProgressEvent::StageCompleted { stage: Stage::Scripts }.stage(), Stage::Scripts);
    let state = AppState::new(config(), ProjectManager::with_workspace("/ws"));
    assert_eq!(state.config().server.port, 3001);
    assert_eq!(state.project_manager().workspace_dir(), "/ws");
}

#[test]
fn text_helpers() {
    assert_eq!(format_decimal_padded(7, 4), "0007");
    assert_eq!(format_decimal_padded(0, 0), "0");
    assert_eq!(format_decimal_padded(123, 0), "123");
    assert_eq!(join_path("a", "b"), "a/b");
    assert_eq!(join_path("a/", "b"), "a/b");
    assert_eq!(join_path("a", "/b"), "/b");
    assert_eq!(join_path("", "b"), "b");
    assert_eq!(replace_all("{{x}}+{{x}}", "{{x}}", "1"), "1+1");
    assert_eq!(trim_str("  天地\u{3000}"), "天地");
    assert!(str_contains("项目 1 未找到", "未找到"));
    assert!(!str_contains("项目", "未找到"));
}

#[test]
fn missing_project_is_answered_404() {
    let e = storyor::project::unreadable_project_error("abc", "No such file or directory");
    assert_eq!(e.status_code(), 404);
    match e {
        StoryorError::ProjectNotFound(m) => assert_eq!(m, "项目 abc 不存在或无法读取: No such file or directory"),
        other => panic!("unexpected: {other:?}"),
    }
    let e = storyor::project::missing_project_error("abc");
    assert_eq!(e.status_code(), 404);
    assert!(matches!(e, StoryorError::ProjectNotFound(ref m) if m == "项目 abc 不存在"));
}

#[test]
fn sse_steps() {
    match sse_step("data: {\"choices\":[{\"delta\":{\"content\":\"你好\"}}]}") {
        SseStep::Yield(t) => assert_eq!(t, "你好"),
        other => panic!("unexpected: {other:?}"),
    }
    assert!(matches!(sse_step("data: {\"choices\":[{\"delta\":{\"content\":\"\"}}]}"), SseStep::Skip));
    assert!(matches!(sse_step("data: {\"choices\":[{\"delta\":{}}]}"), SseStep::Skip));
    assert!(matches!(sse_step("data: {\"choices\":{\"0\":{\"delta\":{\"content\":\"x\"}}}}"), SseStep::Skip));
    assert!(matches!(sse_step("data: {not json"), SseStep::Fail(_)));
    assert!(matches!(sse_step("data: [DONE]"), SseStep::Done));
    assert!(matches!(sse_step("event: ping"), SseStep::Skip));
}

#[test]
fn white_space_table() {
    for c in ['\t', '\n', '\u{b}', '\u{c}', '\r', ' ', '\u{85}', '\u{a0}', '\u{1680}', '\u{2000}', '\u{200a}', '\u{2028}', '\u{2029}', '\u{202f}', '\u{205f}', '\u{3000}'] {
        assert!(storyor::text::is_whitespace(c), "{c:?}");
        assert!(c.is_whitespace());
    }
    for c in ['a', '\u{200b}', '\u{180e}', '\u{feff}', '0'] {
        assert!(!storyor::text::is_whitespace(c), "{c:?}");
        assert!(!c.is_whitespace());
    }
    assert_eq!(trim_str(" a"), "a");
}
