//! Where the audio of each script line is stored, and the bookkeeping of the
//! manifest of synthesised clips.

use std::collections::HashSet;

use vstd::prelude::*;

use crate::script::{Paragraph, Script};
use crate::text::{decimal_padded, format_decimal_padded, join_path, join_path_spec};

verus! {

/// `segment_NNNN`: the directory name of a segment's audio.
pub open spec fn segment_dir_spec(segment_index: nat) -> Seq<char> {
    "segment_"@ + decimal_padded(segment_index, 4)
}

/// `pNNNN_lNNNN.<format>`: the file name of one line's audio.
pub open spec fn clip_name_spec(paragraph_index: nat, line_index: nat, format: Seq<char>) -> Seq<char> {
    "p"@ + decimal_padded(paragraph_index, 4) + "_l"@ + decimal_padded(line_index, 4) + "."@ + format
}

/// The directory name of a segment's audio.
pub fn segment_dir_name(segment_index: usize) -> (s: String)
    ensures
        s@ == segment_dir_spec(segment_index as nat),
{
    let mut s = "segment_".to_owned();
    let d = format_decimal_padded(segment_index, 4);
    s.append(d.as_str());
    s
}

/// The file name of one line's audio.
pub fn clip_name(paragraph_index: usize, line_index: usize, format: &str) -> (s: String)
    ensures
        s@ == clip_name_spec(paragraph_index as nat, line_index as nat, format@),
{
    let mut s = "p".to_owned();
    s.append(format_decimal_padded(paragraph_index, 4).as_str());
    s.append("_l");
    s.append(format_decimal_padded(line_index, 4).as_str());
    s.append(".");
    s.append(format);
    s
}

/// The path of a line's audio under the output directory:
/// `<output>/audio/segment_NNNN/pNNNN_lNNNN.<format>`.
pub open spec fn clip_path_spec(
    output_dir: Seq<char>,
    segment_index: nat,
    paragraph_index: nat,
    line_index: nat,
    format: Seq<char>,
) -> Seq<char> {
    join_path_spec(
        join_path_spec(join_path_spec(output_dir, "audio"@), segment_dir_spec(segment_index)),
        clip_name_spec(paragraph_index, line_index, format),
    )
}

/// The path of a line's audio file (see [`clip_path_spec`]).
pub fn clip_path(
    output_dir: &str,
    segment_index: usize,
    paragraph_index: usize,
    line_index: usize,
    format: &str,
) -> (p: String)
    ensures
        p@ == clip_path_spec(
            output_dir@,
            segment_index as nat,
            paragraph_index as nat,
            line_index as nat,
            format@,
        ),
{
    let audio = join_path(output_dir, "audio");
    let seg = join_path(audio.as_str(), segment_dir_name(segment_index).as_str());
    join_path(seg.as_str(), clip_name(paragraph_index, line_index, format).as_str())
}

/// The manifest path of a line's audio, relative to the output directory:
/// `audio/segment_NNNN/<clip name>`.
pub open spec fn clip_rel_path_spec(segment_index: nat, clip_name: Seq<char>) -> Seq<char> {
    "audio/"@ + segment_dir_spec(segment_index) + "/"@ + clip_name
}

/// The manifest path of a line's audio.
pub fn clip_rel_path(segment_index: usize, clip_name: &str) -> (s: String)
    ensures
        s@ == clip_rel_path_spec(segment_index as nat, clip_name@),
{
    let mut s = "audio/".to_owned();
    s.append(segment_dir_name(segment_index).as_str());
    s.append("/");
    s.append(clip_name);
    s
}

/// The key of a manifest entry: segment, paragraph and line.
#[derive(Debug, Clone, Copy, PartialEq, Eq, Structural)]
pub struct ClipKey {
    pub segment_index: usize,
    pub paragraph_index: usize,
    pub line_index: usize,
}

/// The keys of a script's lines in reading order: paragraph by paragraph,
/// line by line, each with the paragraph's index and the line's position.
pub open spec fn script_clip_keys_spec(segment_index: usize, paragraphs: Seq<Paragraph>) -> Seq<ClipKey>
    decreases paragraphs.len(),
{
    if paragraphs.len() == 0 {
        Seq::empty()
    } else {
        let last = paragraphs.last();
        script_clip_keys_spec(segment_index, paragraphs.drop_last()) + Seq::new(
            last.lines@.len(),
            |l: int|
                ClipKey {
                    segment_index,
                    paragraph_index: last.index,
                    line_index: l as usize,
                },
        )
    }
}

/// The keys of a script's lines in reading order (the order in which the
/// segment's audio is synthesised and concatenated).
pub fn script_clip_keys(script: &Script) -> (keys: Vec<ClipKey>)
    ensures
        keys@ == script_clip_keys_spec(script.segment_index, script.paragraphs@),
{
    let mut keys: Vec<ClipKey> = Vec::new();
    let mut p: usize = 0;
    assert(script.paragraphs@.take(0) =~= Seq::<Paragraph>::empty());
    while p < script.paragraphs.len()
        invariant
            p <= script.paragraphs@.len(),
            keys@ == script_clip_keys_spec(script.segment_index, script.paragraphs@.take(p as int)),
        decreases script.paragraphs@.len() - p,
    {
        let para = &script.paragraphs[p];
        let ghost before = keys@;
        let mut l: usize = 0;
        while l < para.lines.len()
            invariant
                l <= para.lines@.len(),
                keys@ == before + Seq::new(
                    l as nat,
                    |k: int|
                        ClipKey {
                            segment_index: script.segment_index,
                            paragraph_index: para.index,
                            line_index: k as usize,
                        },
                ),
            decreases para.lines@.len() - l,
        {
            keys.push(ClipKey { segment_index: script.segment_index, paragraph_index: para.index, line_index: l });
            l = l + 1;
            assert(keys@ =~= before + Seq::new(
                l as nat,
                |k: int|
                    ClipKey {
                        segment_index: script.segment_index,
                        paragraph_index: para.index,
                        line_index: k as usize,
                    },
            ));
        }
        assert(script.paragraphs@.take(p + 1).drop_last() =~= script.paragraphs@.take(p as int));
        p = p + 1;
    }
    assert(script.paragraphs@.take(p as int) =~= script.paragraphs@);
    keys
}


/// One clip of the manifest, without its duration: which line it is and
/// where its audio is, relative to the output directory.
#[derive(Debug, Clone)]
pub struct ClipRecord {
    pub key: ClipKey,
    pub audio_path: String,
}

/// The values of clip records: key and path.
pub open spec fn records_view(s: Seq<ClipRecord>) -> Seq<(ClipKey, Seq<char>)> {
    s.map_values(|r: ClipRecord| (r.key, r.audio_path@))
}

/// The manifest after recording `path` for `key`: the first clip with that
/// key gets the new path; when there is none, a clip is appended.
pub open spec fn upsert_spec(s: Seq<(ClipKey, Seq<char>)>, key: ClipKey, path: Seq<char>) -> Seq<(ClipKey, Seq<char>)>
    decreases s.len(),
{
    if s.len() == 0 {
        seq![(key, path)]
    } else if s[0].0 == key {
        s.update(0, (key, path))
    } else {
        seq![s[0]] + upsert_spec(s.drop_first(), key, path)
    }
}

proof fn lemma_upsert_at(s: Seq<(ClipKey, Seq<char>)>, key: ClipKey, path: Seq<char>, i: int)
    requires
        0 <= i <= s.len(),
        forall|j: int| 0 <= j < i ==> (#[trigger] s[j]).0 != key,
        i < s.len() ==> s[i].0 == key,
    ensures
        upsert_spec(s, key, path) == (if i < s.len() {
            s.update(i, (key, path))
        } else {
            s.push((key, path))
        }),
    decreases s.len(),
{
    if s.len() == 0 {
        assert(seq![(key, path)] =~= s.push((key, path)));
    } else if i == 0 {
    } else {
        let t = s.drop_first();
        assert forall|j: int| 0 <= j < i - 1 implies (#[trigger] t[j]).0 != key by {
            assert(t[j] == s[j + 1]);
        }
        lemma_upsert_at(t, key, path, i - 1);
        if i < s.len() {
            assert(seq![s[0]] + t.update(i - 1, (key, path)) =~= s.update(i, (key, path)));
        } else {
            assert(seq![s[0]] + t.push((key, path)) =~= s.push((key, path)));
        }
    }
}

/// Records the audio path of a line in the manifest (see [`upsert_spec`]);
/// a clip that is already listed keeps its place.
pub fn upsert_clip(clips: &mut Vec<ClipRecord>, key: ClipKey, audio_path: String)
    ensures
        records_view(final(clips)@) == upsert_spec(records_view(old(clips)@), key, audio_path@),
{
    let ghost s = records_view(clips@);
    let mut i: usize = 0;
    while i < clips.len()
        invariant
            i <= clips@.len(),
            s == records_view(clips@),
            clips@ == old(clips)@,
            forall|j: int| 0 <= j < i ==> (#[trigger] clips@[j]).key != key,
        ensures
            i <= clips@.len(),
            s == records_view(clips@),
            clips@ == old(clips)@,
            forall|j: int| 0 <= j < i ==> (#[trigger] clips@[j]).key != key,
            i < clips@.len() ==> clips@[i as int].key == key,
        decreases clips@.len() - i,
    {
        if clips[i].key == key {
            break;
        }
        i = i + 1;
    }
    proof {
        assert forall|j: int| 0 <= j < i implies (#[trigger] s[j]).0 != key by {
            assert(s[j].0 == clips@[j].key);
        }
        lemma_upsert_at(s, key, audio_path@, i as int);
    }
    if i < clips.len() {
        let ghost p = audio_path@;
        clips.set(i, ClipRecord { key, audio_path });
        assert(records_view(clips@) =~= s.update(i as int, (key, p)));
    } else {
        let ghost p = audio_path@;
        clips.push(ClipRecord { key, audio_path });
        assert(records_view(clips@) =~= s.push((key, p)));
    }
}


/// Whether a segment's audio must still be made: it is not among the
/// segments recorded as done.
pub fn audio_segment_pending(completed: &HashSet<usize>, segment_index: usize) -> (b: bool)
    ensures
        b == !completed@.contains(segment_index),
{
    broadcast use vstd::std_specs::hash::group_hash_axioms;

    !completed.contains(&segment_index)
}

/// One line of a pending segment: when its clip file already exists, the
/// clip is recorded in the manifest and nothing is synthesised; otherwise
/// the line must be synthesised (and is recorded once its file is written).
pub fn audio_line_step(manifest: &mut Vec<ClipRecord>, key: ClipKey, rel_path: String, clip_exists: bool) -> (synthesize: bool)
    ensures
        synthesize == !clip_exists,
        clip_exists ==> records_view(final(manifest)@) == upsert_spec(records_view(old(manifest)@), key, rel_path@),
        !clip_exists ==> final(manifest)@ == old(manifest)@,
{
    if clip_exists {
        upsert_clip(manifest, key, rel_path);
        false
    } else {
        true
    }
}

} // verus!
