use std::collections::HashSet;
use storyor::audio::{audio_line_step, audio_segment_pending};
use storyor::audio::{
    clip_name, clip_path, clip_rel_path, script_clip_keys, segment_dir_name, upsert_clip, ClipKey,
    ClipRecord,
};
use storyor::character::CharacterLibrary;
use storyor::script::{Paragraph, Script, ScriptLine};

fn key(s: usize, p: usize, l: usize) -> ClipKey {
    ClipKey { segment_index: s, paragraph_index: p, line_index: l }
}

fn line(text: &str) -> ScriptLine {
    ScriptLine { speaker: "旁白".to_string(), content: text.to_string(), description: String::new() }
}

#[test]
fn clip_names_are_zero_padded() {
    assert_eq!(segment_dir_name(3), "segment_0003");
    assert_eq!(segment_dir_name(12345), "segment_12345");
    assert_eq!(clip_name(1, 12, "mp3"), "p0001_l0012.mp3");
}

#[test]
fn clip_path_layout() {
    assert_eq!(clip_path("/out", 2, 0, 7, "wav"), "/out/audio/segment_0002/p0000_l0007.wav");
    assert_eq!(clip_path("out/", 0, 1, 0, "mp3"), "out/audio/segment_0000/p0001_l0000.mp3");
    assert_eq!(clip_rel_path(2, "p0000_l0007.wav"), "audio/segment_0002/p0000_l0007.wav");
}

#[test]
fn clip_keys_follow_reading_order() {
    let script = Script {
        segment_index: 4,
        characters: CharacterLibrary::new(),
        paragraphs: vec![
            Paragraph { index: 0, lines: vec![line("a"), line("b")] },
            Paragraph { index: 3, lines: vec![] },
            Paragraph { index: 1, lines: vec![line("c")] },
        ],
        handoff: String::new(),
    };
    assert_eq!(script_clip_keys(&script), vec![key(4, 0, 0), key(4, 0, 1), key(4, 1, 0)]);
}

#[test]
fn upsert_updates_existing_and_appends_new() {
    let mut clips = vec![
        ClipRecord { key: key(0, 0, 0), audio_path: "old0".to_string() },
        ClipRecord { key: key(0, 0, 1), audio_path: "old1".to_string() },
    ];
    upsert_clip(&mut clips, key(0, 0, 1), "new1".to_string());
    assert_eq!(clips.len(), 2);
    assert_eq!(clips[1].audio_path, "new1");
    assert_eq!(clips[0].audio_path, "old0");
    upsert_clip(&mut clips, key(1, 0, 0), "seg1".to_string());
    assert_eq!(clips.len(), 3);
    assert_eq!(clips[2].key, key(1, 0, 0));
    assert_eq!(clips[2].audio_path, "seg1");
}

#[test]
fn audio_resume_decisions() {
    let done: HashSet<usize> = [1usize].into_iter().collect();
    assert!(!audio_segment_pending(&done, 1));
    assert!(audio_segment_pending(&done, 0));

    let mut clips = vec![ClipRecord { key: key(0, 0, 0), audio_path: "a".to_string() }];
    assert!(audio_line_step(&mut clips, key(0, 0, 1), "b".to_string(), false));
    assert_eq!(clips.len(), 1);
    assert!(!audio_line_step(&mut clips, key(0, 0, 1), "b".to_string(), true));
    assert_eq!(clips.len(), 2);
    assert_eq!(clips[1].audio_path, "b");
}
