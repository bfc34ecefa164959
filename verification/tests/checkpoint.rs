use storyor::checkpoint::{
    config_hash, sha256_hex, to_hex_lower, Checkpoint, CheckpointManager, SegmentStage, StageStatus,
};
use storyor::config::{AppConfig, ModelConfig, ServerConfig, SoundsConfig, WorkspaceConfig};

fn model(name: &str) -> ModelConfig {
    ModelConfig {
        backend: "OpenAI".to_string(),
        api_key: Some("test".to_string()),
        base_url: Some("http://localhost".to_string()),
        model: name.to_string(),
        max_tokens: None,
    }
}

fn test_config(output_dir: &str) -> AppConfig {
    AppConfig {
        small_model: model("test-small"),
        large_model: model("test-large"),
        tts_model: model("test-tts"),
        voice_design_model: None,
        voice_clone_model: None,
        chapter_regex: r"第[零一二三四五六七八九十百千0-9]{1,6}[章节回]".to_string(),
        max_concurrency: 2,
        output_dir: output_dir.to_string(),
        max_paragraph_lines: 20,
        audio_format: "mp3".to_string(),
        tts_voice: String::new(),
        tts_timeout_secs: 10,
        server: ServerConfig::default(),
        workspace: WorkspaceConfig::default(),
        sounds: SoundsConfig::default(),
    }
}

fn sample_novel() -> String {
    "第1章 初遇\n少年林风初入江湖，于山道偶遇白衣女子，二人结伴同行。\n\
     第2章 风波\n客栈中突遇黑衣人袭击，林风拔剑相护，女子展露惊人武功。\n\
     第3章 真相\n女子自陈身份乃前朝公主，林风决意护送其入京。"
        .to_string()
}

/// Saving and loading again, in memory: the state that would be written is
/// handed to a fresh load.
fn reload(ckpt: &CheckpointManager, dir: &str, force: bool) -> CheckpointManager {
    CheckpointManager::load(dir, Some(ckpt.state().clone()), force)
}

#[test]
fn segment_stage_mark_done() {
    let mut s = SegmentStage { completed: vec![], total: 3 };
    s.mark_done(1);
    s.mark_done(0);
    assert_eq!(s.completed, vec![0, 1]);
    assert!(!s.is_done());
    s.mark_done(2);
    assert!(s.is_done());
}

#[test]
fn sha256_stable() {
    let h1 = sha256_hex("hello");
    let h2 = sha256_hex("hello");
    assert_eq!(h1, h2);
    assert_eq!(h1.len(), 64);
    assert_ne!(h1, sha256_hex("world"));
}

#[test]
fn checkpoint_marks_stages_done() {
    let dir = "/tmp/storyor-out";
    let config = test_config(dir);
    let novel_hash = sha256_hex(&sample_novel());
    let cfg_hash = config_hash(&config);

    let mut ckpt = CheckpointManager::load(dir, None, false);
    ckpt.validate(&novel_hash, &cfg_hash).unwrap();
    ckpt.mark_chapters_done();
    ckpt.mark_summaries_done();
    ckpt.mark_segments_done();
    ckpt.set_scripts_total(2);
    ckpt.set_audio_total(2);

    let reloaded = reload(&ckpt, dir, false);
    assert!(reloaded.chapters_done());
    assert!(reloaded.summaries_done());
    assert!(reloaded.segments_done());
    assert_eq!(reloaded.scripts_total(), 2);
    assert_eq!(reloaded.audio_total(), 2);
}

#[test]
fn checkpoint_segment_granularity_resume() {
    let dir = "/tmp/storyor-out";
    let config = test_config(dir);
    let novel_hash = sha256_hex(&sample_novel());
    let cfg_hash = config_hash(&config);

    let mut ckpt = CheckpointManager::load(dir, None, false);
    ckpt.validate(&novel_hash, &cfg_hash).unwrap();
    ckpt.set_scripts_total(2);
    ckpt.mark_script_done(0);

    let reloaded = reload(&ckpt, dir, false);
    let completed = reloaded.scripts_completed();
    assert!(completed.contains(&0), "段 0 应标记为已完成");
    assert!(!completed.contains(&1), "段 1 应未完成");
}

#[test]
fn checkpoint_resets_on_hash_change() {
    let dir = "/tmp/storyor-out";
    let config = test_config(dir);
    let novel_hash = sha256_hex(&sample_novel());
    let cfg_hash = config_hash(&config);

    let mut ckpt = CheckpointManager::load(dir, None, false);
    ckpt.validate(&novel_hash, &cfg_hash).unwrap();
    ckpt.mark_chapters_done();
    ckpt.mark_summaries_done();

    let mut ckpt2 = reload(&ckpt, dir, false);
    let consistent = ckpt2.validate(&sha256_hex("完全不同的小说"), &cfg_hash).unwrap();
    assert!(!consistent, "hash 变更应返回 false");
    assert!(!ckpt2.chapters_done());
    assert!(!ckpt2.summaries_done());
}

#[test]
fn checkpoint_force_ignores_existing() {
    let dir = "/tmp/storyor-out";
    let config = test_config(dir);
    let novel_hash = sha256_hex(&sample_novel());
    let cfg_hash = config_hash(&config);

    let mut ckpt = CheckpointManager::load(dir, None, false);
    ckpt.validate(&novel_hash, &cfg_hash).unwrap();
    ckpt.mark_chapters_done();

    let forced = reload(&ckpt, dir, true);
    assert!(!forced.chapters_done(), "force 模式应忽略已有 checkpoint");
}

#[test]
fn validate_same_hashes_resumes() {
    let dir = "/tmp/storyor-out";
    let mut ckpt = CheckpointManager::load(dir, None, false);
    assert!(!ckpt.validate("n", "c").unwrap());
    ckpt.mark_chapters_done();
    let mut again = reload(&ckpt, dir, false);
    assert!(again.validate("n", "c").unwrap());
    assert!(again.chapters_done());
}

#[test]
fn validate_changed_config_resets() {
    let dir = "/tmp/storyor-out";
    let mut ckpt = CheckpointManager::load(dir, None, false);
    ckpt.validate("n", "c").unwrap();
    ckpt.mark_segments_done();
    ckpt.set_audio_total(4);
    ckpt.mark_audio_done(1);
    assert!(!ckpt.validate("n", "other").unwrap());
    assert!(!ckpt.segments_done());
    assert_eq!(ckpt.audio_total(), 0);
    assert!(ckpt.audio_completed().is_empty());
    assert_eq!(ckpt.state().config_hash, "other");
}

#[test]
fn forced_run_records_hashes_and_never_resumes() {
    let dir = "/tmp/storyor-out";
    let mut ckpt = CheckpointManager::load(dir, None, true);
    assert!(!ckpt.validate("n", "c").unwrap());
    assert!(!ckpt.validate("n", "c").unwrap());
    assert_eq!(ckpt.state().novel_hash, "n");
}

#[test]
fn checkpoint_path_is_in_output_dir() {
    let ckpt = CheckpointManager::load("/data/out", None, false);
    assert_eq!(ckpt.path(), "/data/out/checkpoint.json");
    let ckpt = CheckpointManager::load("/data/out/", None, false);
    assert_eq!(ckpt.path(), "/data/out/checkpoint.json");
}

#[test]
fn mark_done_twice_keeps_one_entry() {
    let mut s = SegmentStage { completed: vec![2], total: 3 };
    s.mark_done(2);
    assert_eq!(s.completed, vec![2]);
    s.mark_done(0);
    assert_eq!(s.completed, vec![0, 2]);
    assert!(!s.is_done());
    let empty = SegmentStage { completed: vec![], total: 0 };
    assert!(!empty.is_done());
}

#[test]
fn sha256_hex_known_value() {
    assert_eq!(
        sha256_hex("hello"),
        "2cf24dba5fb0a30e26e83b2ac5b9e29e1b161e5c1fa7425e73043362938b9824"
    );
    assert_eq!(
        sha256_hex(""),
        "e3b0c44298fc1c149afbf4c8996fb92427ae41e4649b934ca495991b7852b855"
    );
}

#[test]
fn hex_is_lower_case_two_digits_per_byte() {
    assert_eq!(to_hex_lower(&[0x00, 0x0f, 0xa5, 0xff]), "000fa5ff");
    assert_eq!(to_hex_lower(&[]), "");
}

#[test]
fn config_hash_depends_on_models_and_pattern() {
    let a = test_config("/tmp/a");
    let mut b = test_config("/tmp/b");
    assert_eq!(config_hash(&a), config_hash(&b));
    b.large_model.model = "other".to_string();
    assert_ne!(config_hash(&a), config_hash(&b));
    assert_eq!(
        config_hash(&a),
        sha256_hex(&format!(
            "OpenAI|test-small|OpenAI|test-large|OpenAI|test-tts|{}",
            a.chapter_regex
        ))
    );
}

#[test]
fn default_checkpoint_is_pending() {
    let c = Checkpoint::default();
    assert_eq!(c.stages.chapters, StageStatus::Pending);
    assert!(c.novel_hash.is_empty());
}

#[test]
fn config_hash_is_64_lower_hex() {
    let h = config_hash(&test_config("/tmp/x"));
    assert_eq!(h.len(), 64);
    assert!(h.chars().all(|c| c.is_ascii_digit() || ('a'..='f').contains(&c)));
}
