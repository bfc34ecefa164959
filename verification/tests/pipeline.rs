use storyor::pipeline::{reuse_saved_segments, reuse_saved_summaries};
use std::collections::HashSet;

use storyor::character::CharacterLibrary;
use storyor::checkpoint::CheckpointManager;
use storyor::error::StoryorError;
use storyor::llm::types::{ChatResponse, Choice, ResponseMessage, Role};
use storyor::pipeline::{
    answer_text, characters_path, clamp_segments, effective_concurrency, handoff_path, output_file,
    record_audio_done, record_scripts_done, record_segmentation, script_json_path, script_messages,
    segment_messages, segment_text, sort_by_chapter, split_chapters, summaries_text,
    summary_from_answer, summary_from_response, summary_messages, ScriptRun,
};
use storyor::prompts::default_template;
use storyor::script::{
    Chapter, ChapterSummary, CharacterProfile, Paragraph, PlotSegment, Script, ScriptBody,
    ScriptLine,
};
use storyor::text::strip_code_fence;

fn sample_novel() -> String {
    "第1章 初遇\n少年林风初入江湖，于山道偶遇白衣女子，二人结伴同行。\n\
     第2章 风波\n客栈中突遇黑衣人袭击，林风拔剑相护，女子展露惊人武功。\n\
     第3章 真相\n女子自陈身份乃前朝公主，林风决意护送其入京。"
        .to_string()
}

const PATTERN: &str = r"第[零一二三四五六七八九十百千0-9]{1,6}[章节回]";

fn chapters() -> Vec<Chapter> {
    split_chapters(PATTERN, &sample_novel()).unwrap()
}

fn profile(name: &str, text: &str, guidance: &str) -> CharacterProfile {
    CharacterProfile {
        name: name.to_string(),
        profile: text.to_string(),
        scene: "山道".to_string(),
        guidance: guidance.to_string(),
    }
}

fn text_response(text: Option<&str>) -> ChatResponse {
    ChatResponse {
        id: "r".to_string(),
        model: "m".to_string(),
        choices: vec![Choice {
            index: 0,
            message: ResponseMessage {
                role: "assistant".to_string(),
                content: text.map(|t| t.to_string()),
                audio: None,
            },
            finish_reason: None,
        }],
        usage: None,
    }
}

fn segment(index: usize, start: usize, end: usize, summary: &str) -> PlotSegment {
    PlotSegment { index, chapter_start: start, chapter_end: end, summary: summary.to_string() }
}

#[test]
fn split_chapters_of_sample_novel() {
    let cs = chapters();
    assert_eq!(cs.len(), 3);
    assert_eq!(cs[0].title, "第1章 初遇");
    assert_eq!(cs[2].index, 2);
    assert!(cs[1].content.contains("黑衣人"));
}

#[test]
fn split_chapters_rejects_bad_pattern() {
    assert!(matches!(split_chapters("第[", "正文"), Err(StoryorError::Regex(_))));
}

#[test]
fn artifact_paths() {
    assert_eq!(output_file("/out", "chapters.json"), "/out/chapters.json");
    assert_eq!(script_json_path("/out", 0), "/out/scripts/segment_0000.json");
    assert_eq!(script_json_path("/out", 12), "/out/scripts/segment_0012.json");
    assert_eq!(handoff_path("/out", 1), "/out/scripts/segment_0001.handoff.txt");
    assert_eq!(characters_path("/out/"), "/out/characters/final.json");
}

#[test]
fn concurrency_is_at_least_one() {
    assert_eq!(effective_concurrency(0), 1);
    assert_eq!(effective_concurrency(1), 1);
    assert_eq!(effective_concurrency(8), 8);
}

#[test]
fn summary_request_fills_template() {
    let cs = chapters();
    let m = summary_messages("标题：{{title}}\n正文：{{content}}", &cs[0]);
    assert_eq!(m.len(), 2);
    assert_eq!(m[0].role, Role::Assistant);
    assert_eq!(m[0].content, "你是小说摘要助手，请用 1-2 句话概括章节核心剧情。");
    assert_eq!(m[1].role, Role::User);
    assert_eq!(
        m[1].content,
        "标题：第1章 初遇\n正文：少年林风初入江湖，于山道偶遇白衣女子，二人结伴同行。"
    );
}

#[test]
fn summary_is_trimmed_answer() {
    let s = summary_from_answer(3, "  林风初入江湖。\n");
    assert_eq!(s.chapter_index, 3);
    assert_eq!(s.summary, "林风初入江湖。");
    let s = summary_from_response(1, &text_response(Some(" 客栈遇袭。 "))).unwrap();
    assert_eq!(s.summary, "客栈遇袭。");
    match summary_from_response(1, &text_response(None)) {
        Err(StoryorError::Llm(m)) => assert_eq!(m, "摘要响应无文本"),
        other => panic!("unexpected: {other:?}"),
    }
}

#[test]
fn answer_text_reports_missing_text() {
    assert_eq!(answer_text(&text_response(Some("{}")), "无文本").unwrap(), "{}");
    match answer_text(&text_response(None), "剧本生成响应无文本") {
        Err(StoryorError::Llm(m)) => assert_eq!(m, "剧本生成响应无文本"),
        other => panic!("unexpected: {other:?}"),
    }
}

#[test]
fn summaries_sorted_by_chapter_stably() {
    let items = vec![
        ChapterSummary { chapter_index: 2, summary: "c".to_string() },
        ChapterSummary { chapter_index: 0, summary: "a".to_string() },
        ChapterSummary { chapter_index: 2, summary: "d".to_string() },
        ChapterSummary { chapter_index: 1, summary: "b".to_string() },
    ];
    let sorted = sort_by_chapter(items);
    let got: Vec<(usize, &str)> = sorted.iter().map(|s| (s.chapter_index, s.summary.as_str())).collect();
    assert_eq!(got, vec![(0, "a"), (1, "b"), (2, "c"), (2, "d")]);
}

#[test]
fn segmentation_request_lists_summaries() {
    let summaries = vec![
        ChapterSummary { chapter_index: 0, summary: "摘要0".to_string() },
        ChapterSummary { chapter_index: 1, summary: "摘要1".to_string() },
    ];
    assert_eq!(summaries_text(&summaries), "第1章：摘要0\n第2章：摘要1");
    assert_eq!(summaries_text(&[]), "");
    let m = segment_messages("摘要如下：\n{{summaries}}", &summaries);
    assert_eq!(m[0].content, "你是剧情结构分析师，请将章节摘要按剧情弧线切分为若干剧情段。");
    assert_eq!(m[1].content, "摘要如下：\n第1章：摘要0\n第2章：摘要1");
}

#[test]
fn segment_clamps_invalid_chapter_range() {
    let segs = clamp_segments(vec![segment(0, 0, 5, "越界段")], 2);
    assert_eq!(segs.len(), 1);
    assert_eq!(segs[0].chapter_end, 1);
    let segs = clamp_segments(vec![segment(0, 4, 6, "起点越界"), segment(1, 0, 1, "正常")], 2);
    assert_eq!((segs[0].chapter_start, segs[0].chapter_end), (1, 1));
    assert_eq!((segs[1].chapter_start, segs[1].chapter_end), (0, 1));
    let segs = clamp_segments(vec![segment(0, 3, 3, "无章节")], 0);
    assert_eq!((segs[0].chapter_start, segs[0].chapter_end), (0, 0));
}

#[test]
fn segment_answer_in_code_block_is_unwrapped() {
    assert_eq!(strip_code_fence("```json\n{}\n```"), "{}");
    assert_eq!(strip_code_fence("```\n{\"a\":1}\n```"), "{\"a\":1}");
    assert_eq!(strip_code_fence("  {\"a\":1}  "), "{\"a\":1}");
}

#[test]
fn segment_text_joins_chapters_in_range() {
    let cs = chapters();
    let t = segment_text(&cs, &segment(0, 0, 1, "s"));
    assert_eq!(
        t,
        "## 第1章 初遇 \n少年林风初入江湖，于山道偶遇白衣女子，二人结伴同行。\n\n## 第2章 风波 \n客栈中突遇黑衣人袭击，林风拔剑相护，女子展露惊人武功。"
    );
    assert_eq!(segment_text(&cs, &segment(0, 5, 6, "s")), "");
}

#[test]
fn script_prompt_includes_handoff_and_library() {
    let cs = chapters();
    let mut library = CharacterLibrary::new();
    library.merge(&[profile("林风", "已有角色", "青年男声")]);
    let template = default_template("script.md").unwrap();
    let m = script_messages("说书人", &template, &segment(0, 0, 0, "测试段"), &cs, &library, "上段衔接话XYZ", 20);
    assert_eq!(m.len(), 2);
    assert_eq!(m[0].role, Role::Assistant);
    assert_eq!(m[0].content, "说书人");
    let prompt = &m[1].content;
    assert!(prompt.contains("上段衔接话XYZ"), "prompt 应包含 prev_handoff");
    assert!(prompt.contains("林风"), "prompt 应包含角色库");
    assert!(prompt.contains("初遇"), "prompt 应包含章节原文");
    assert!(prompt.contains("测试段"));
}

#[test]
fn script_prompt_fills_every_placeholder() {
    let cs = chapters();
    let library = CharacterLibrary::new();
    let template = "{{segment_summary}}|{{prev_handoff}}|{{characters}}|{{chapter_text}}|{{max_paragraph_lines}}";
    let m = script_messages("s", template, &segment(0, 2, 2, "概要"), &cs, &library, "", 7);
    assert_eq!(
        m[1].content,
        "概要||（暂无角色）|## 第3章 真相 \n女子自陈身份乃前朝公主，林风决意护送其入京。|7"
    );
}

fn script(index: usize, library: &CharacterLibrary, handoff: &str) -> Script {
    let body = ScriptBody {
        characters: vec![],
        paragraphs: vec![Paragraph {
            index: 0,
            lines: vec![ScriptLine {
                speaker: "旁白".to_string(),
                content: "话说".to_string(),
                description: "平缓".to_string(),
            }],
        }],
        handoff: handoff.to_string(),
    };
    let mut lib = library.duplicate();
    body.into_script(index, &mut lib)
}

#[test]
fn script_run_carries_library_and_handoff() {
    let mut run = ScriptRun::start(CharacterLibrary::new());
    assert!(run.prev_handoff.is_empty());

    let mut saved_lib = CharacterLibrary::new();
    saved_lib.merge(&[profile("白衣女子", "神秘女子", "清冷女声")]);
    let saved = script(0, &saved_lib, "预置handoff");
    run.resume_with(saved);
    assert_eq!(run.prev_handoff, "预置handoff");
    assert_eq!(run.library.len(), 1);

    let body = ScriptBody {
        characters: vec![profile("白衣女子", "前朝公主", "清冷女声"), profile("林风", "少年", "青年男声")],
        paragraphs: vec![],
        handoff: "二人踏上入京之路，前路未卜。".to_string(),
    };
    let s = body.into_script(1, &mut run.library);
    assert_eq!(s.characters.len(), 2);
    assert_eq!(s.characters.get("白衣女子").unwrap().profile, "前朝公主");
    run.record_generated(s);
    assert_eq!(run.scripts.len(), 2);
    assert_eq!(run.prev_handoff, "二人踏上入京之路，前路未卜。");
    assert_eq!(run.library.get("白衣女子").unwrap().profile, "前朝公主");
}

#[test]
fn completed_segments_are_not_regenerated() {
    let completed: HashSet<usize> = [0usize].into_iter().collect();
    assert!(!ScriptRun::needs_generation(&completed, 0));
    assert!(ScriptRun::needs_generation(&completed, 1));
}

#[test]
fn stage_records_update_checkpoint() {
    let mut ckpt = CheckpointManager::load("/tmp/out", None, false);
    ckpt.validate("n", "c").unwrap();
    record_segmentation(&mut ckpt, 2);
    assert!(ckpt.segments_done());
    assert_eq!(ckpt.scripts_total(), 2);
    assert_eq!(ckpt.audio_total(), 2);

    record_scripts_done(&mut ckpt, &[segment(0, 0, 0, "a"), segment(1, 1, 2, "b")]);
    let done = ckpt.scripts_completed();
    assert!(done.contains(&0) && done.contains(&1));
    assert!(ckpt.audio_completed().is_empty());

    let lib = CharacterLibrary::new();
    record_audio_done(&mut ckpt, &[script(1, &lib, "h")]);
    let audio = ckpt.audio_completed();
    assert!(audio.contains(&1) && !audio.contains(&0));
}

#[test]
fn clamping_twice_is_clamping_once() {
    let once = clamp_segments(vec![segment(0, 7, 9, "a"), segment(1, 1, 0, "b")], 3);
    assert!(once.iter().all(|s| s.chapter_start <= s.chapter_end && s.chapter_end < 3));
    let twice = clamp_segments(once.clone(), 3);
    for (a, b) in once.iter().zip(twice.iter()) {
        assert_eq!((a.index, a.chapter_start, a.chapter_end), (b.index, b.chapter_start, b.chapter_end));
    }
}

#[test]
fn saved_artifacts_reused_when_complete() {
    let cs = chapters();
    let three: Vec<ChapterSummary> = (0..3).map(|i| ChapterSummary { chapter_index: i, summary: format!("预置摘要{i}") }).collect();
    assert!(reuse_saved_summaries(&three, &cs));
    assert!(!reuse_saved_summaries(&three[..2], &cs));
    assert!(reuse_saved_segments(&[segment(0, 0, 1, "a")]));
    assert!(!reuse_saved_segments(&[]));
}
