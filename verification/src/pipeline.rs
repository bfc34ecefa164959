//! The computations of the pipeline stages: the prompts sent to the models,
//! the repairs applied to their answers, the artifact layout, and the state
//! carried from segment to segment while scripts are written.
//!
//! The model calls and the file writes are made by the application, which
//! hands the answers to these functions.

use std::collections::HashSet;

use vstd::prelude::*;

use crate::character::merge_spec;
use crate::checkpoint::{
    law_mark_done_records, with_stages, CheckpointManager, SegmentStageView, StageStatus, StagesView,
};
use crate::error::StoryorError;
use crate::llm::types::{response_text_spec, ChatMessage, ChatResponse};
use crate::novel::chapter::{law_split_numbers_chapters, regex_find_spans, regex_pattern_valid, split_spec};
use crate::novel::ChapterSplitter;
use crate::script::{
    chapters_view, Chapter, ChapterSummary, ChapterView, CharacterLibrary, PlotSegment,
    ProfileView, Script,
};
use crate::text::{
    contains_spec, decimal_padded, format_decimal_padded, join_path, join_path_spec, join_spec,
    occurs_at, replace_all, replace_spec, trim_spec, trim_str,
};

verus! {

/// The artifact file `name` directly under the output directory (such as
/// `chapters.json`, `summaries.json`, `segments.json`).
pub fn output_file(output_dir: &str, name: &str) -> (p: String)
    ensures
        p@ == join_path_spec(output_dir@, name@),
{
    join_path(output_dir, name)
}

/// `segment_NNNN<suffix>`.
pub open spec fn segment_file_spec(index: nat, suffix: Seq<char>) -> Seq<char> {
    "segment_"@ + decimal_padded(index, 4) + suffix
}

fn segment_file_name(index: usize, suffix: &str) -> (s: String)
    ensures
        s@ == segment_file_spec(index as nat, suffix@),
{
    let mut s = "segment_".to_owned();
    s.append(format_decimal_padded(index, 4).as_str());
    s.append(suffix);
    s
}

/// The script of segment `index`: `<output>/scripts/segment_NNNN.json`.
pub fn script_json_path(output_dir: &str, index: usize) -> (p: String)
    ensures
        p@ == join_path_spec(join_path_spec(output_dir@, "scripts"@), segment_file_spec(index as nat, ".json"@)),
{
    let dir = join_path(output_dir, "scripts");
    join_path(dir.as_str(), segment_file_name(index, ".json").as_str())
}

/// The hand-off note of segment `index`:
/// `<output>/scripts/segment_NNNN.handoff.txt`.
pub fn handoff_path(output_dir: &str, index: usize) -> (p: String)
    ensures
        p@ == join_path_spec(
            join_path_spec(output_dir@, "scripts"@),
            segment_file_spec(index as nat, ".handoff.txt"@),
        ),
{
    let dir = join_path(output_dir, "scripts");
    join_path(dir.as_str(), segment_file_name(index, ".handoff.txt").as_str())
}

/// The accumulated character library: `<output>/characters/final.json`.
pub fn characters_path(output_dir: &str) -> (p: String)
    ensures
        p@ == join_path_spec(join_path_spec(output_dir@, "characters"@), "final.json"@),
{
    let dir = join_path(output_dir, "characters");
    join_path(dir.as_str(), "final.json")
}

/// The number of concurrent summary requests: the configured number, but at
/// least one.
pub fn effective_concurrency(max_concurrency: usize) -> (n: usize)
    ensures
        n == (if max_concurrency >= 1 { max_concurrency } else { 1 }),
{
    if max_concurrency >= 1 {
        max_concurrency
    } else {
        1
    }
}

/// The instruction that precedes a summary request.
pub open spec fn summary_role_spec() -> Seq<char> {
    "你是小说摘要助手，请用 1-2 句话概括章节核心剧情。"@
}

/// The instruction that precedes a segmentation request.
pub open spec fn segment_role_spec() -> Seq<char> {
    "你是剧情结构分析师，请将章节摘要按剧情弧线切分为若干剧情段。"@
}

/// The summary prompt of a chapter: the template with the chapter's title
/// and body filled in.
pub open spec fn summary_prompt_spec(template: Seq<char>, c: ChapterView) -> Seq<char> {
    replace_spec(replace_spec(template, "{{title}}"@, c.title), "{{content}}"@, c.content)
}

/// The messages that ask for a chapter's summary: the summariser's
/// instruction, then the filled-in template.
pub fn summary_messages(template: &str, chapter: &Chapter) -> (m: Vec<ChatMessage>)
    ensures
        m@.len() == 2,
        m@[0].role == crate::llm::types::Role::Assistant,
        m@[0].content@ == summary_role_spec(),
        m@[1].role == crate::llm::types::Role::User,
        m@[1].content@ == summary_prompt_spec(template@, chapter@),
{
    proof {
        reveal_strlit("{{title}}");
        reveal_strlit("{{content}}");
    }
    let p1 = replace_all(template, "{{title}}", chapter.title.as_str());
    let prompt = replace_all(p1.as_str(), "{{content}}", chapter.content.as_str());
    let mut m = Vec::new();
    m.push(ChatMessage::assistant("你是小说摘要助手，请用 1-2 句话概括章节核心剧情。".to_owned()));
    m.push(ChatMessage::user(prompt));
    m
}

/// A chapter's summary from the model's answer: the answer, trimmed.
pub fn summary_from_answer(chapter_index: usize, answer: &str) -> (s: ChapterSummary)
    ensures
        s.chapter_index == chapter_index,
        s.summary@ == trim_spec(answer@),
{
    ChapterSummary { chapter_index, summary: trim_str(answer) }
}

/// Inserting a summary into a list ordered by chapter, after the summaries
/// of the same or earlier chapters.
pub open spec fn insert_by_chapter(s: Seq<ChapterSummary>, x: ChapterSummary) -> Seq<ChapterSummary>
    decreases s.len(),
{
    if s.len() == 0 {
        seq![x]
    } else if x.chapter_index < s[0].chapter_index {
        seq![x] + s
    } else {
        seq![s[0]] + insert_by_chapter(s.drop_first(), x)
    }
}

/// Summaries ordered by chapter index (a stable sort by key).
pub open spec fn by_chapter(s: Seq<ChapterSummary>) -> Seq<ChapterSummary>
    decreases s.len(),
{
    if s.len() == 0 {
        s
    } else {
        insert_by_chapter(by_chapter(s.drop_last()), s.last())
    }
}

/// Summaries in non-decreasing chapter order.
pub open spec fn sorted_by_chapter(s: Seq<ChapterSummary>) -> bool {
    forall|i: int, j: int| 0 <= i < j < s.len() ==> (#[trigger] s[i]).chapter_index <= (#[trigger] s[j]).chapter_index
}

proof fn lemma_insert_by_chapter_bound(s: Seq<ChapterSummary>, x: ChapterSummary, b: int)
    requires
        b <= x.chapter_index,
        forall|m: int| 0 <= m < s.len() ==> b <= (#[trigger] s[m]).chapter_index,
    ensures
        forall|k: int| 0 <= k < insert_by_chapter(s, x).len() ==> b <= (#[trigger] insert_by_chapter(s, x)[k]).chapter_index,
    decreases s.len(),
{
    if s.len() > 0 && !(x.chapter_index < s[0].chapter_index) {
        let t = s.drop_first();
        assert forall|m: int| 0 <= m < t.len() implies b <= (#[trigger] t[m]).chapter_index by {
            assert(t[m] == s[m + 1]);
        }
        lemma_insert_by_chapter_bound(t, x, b);
        let r = insert_by_chapter(t, x);
        assert forall|k: int| 0 <= k < insert_by_chapter(s, x).len() implies b <= (#[trigger] insert_by_chapter(s, x)[k]).chapter_index by {
            if k > 0 {
                assert(insert_by_chapter(s, x)[k] == r[k - 1]);
            }
        }
    }
}

proof fn lemma_insert_by_chapter(s: Seq<ChapterSummary>, x: ChapterSummary)
    requires
        sorted_by_chapter(s),
    ensures
        sorted_by_chapter(insert_by_chapter(s, x)),
        insert_by_chapter(s, x).to_multiset() == s.to_multiset().insert(x),
    decreases s.len(),
{
    broadcast use vstd::seq_lib::group_to_multiset_ensures;
    broadcast use vstd::multiset::group_multiset_axioms;

    if s.len() == 0 {
        assert(seq![x] =~= Seq::<ChapterSummary>::empty().push(x));
    } else if x.chapter_index < s[0].chapter_index {
        let r = seq![x] + s;
        assert forall|i: int, j: int| 0 <= i < j < r.len() implies (#[trigger] r[i]).chapter_index <= (#[trigger] r[j]).chapter_index by {
            if i == 0 {
                assert(r[j] == s[j - 1]);
                if j > 1 {
                    assert(s[0].chapter_index <= s[j - 1].chapter_index);
                }
            } else {
                assert(r[i] == s[i - 1] && r[j] == s[j - 1]);
            }
        }
        assert(r =~= s.insert(0, x));
        vstd::seq_lib::to_multiset_insert(s, 0, x);
    } else {
        let t = s.drop_first();
        assert(sorted_by_chapter(t)) by {
            assert forall|i: int, j: int| 0 <= i < j < t.len() implies (#[trigger] t[i]).chapter_index <= (#[trigger] t[j]).chapter_index by {
                assert(t[i] == s[i + 1] && t[j] == s[j + 1]);
            }
        }
        lemma_insert_by_chapter(t, x);
        assert forall|m: int| 0 <= m < t.len() implies s[0].chapter_index <= (#[trigger] t[m]).chapter_index by {
            assert(t[m] == s[m + 1]);
        }
        lemma_insert_by_chapter_bound(t, x, s[0].chapter_index as int);
        let r = insert_by_chapter(t, x);
        let whole = seq![s[0]] + r;
        assert forall|i: int, j: int| 0 <= i < j < whole.len() implies (#[trigger] whole[i]).chapter_index <= (#[trigger] whole[j]).chapter_index by {
            assert(whole[j] == r[j - 1]);
            if i > 0 {
                assert(whole[i] == r[i - 1]);
            }
        }
        assert(whole =~= r.insert(0, s[0]));
        vstd::seq_lib::to_multiset_insert(r, 0, s[0]);
        assert(s =~= t.insert(0, s[0]));
        vstd::seq_lib::to_multiset_insert(t, 0, s[0]);
        assert(whole.to_multiset() =~= s.to_multiset().insert(x));
    }
}

/// Ordering summaries by chapter yields them sorted by chapter index, each
/// summary kept exactly as often as it was given.
pub proof fn law_by_chapter_sorts(s: Seq<ChapterSummary>)
    ensures
        sorted_by_chapter(by_chapter(s)),
        by_chapter(s).to_multiset() == s.to_multiset(),
    decreases s.len(),
{
    broadcast use vstd::seq_lib::group_to_multiset_ensures;

    if s.len() > 0 {
        law_by_chapter_sorts(s.drop_last());
        lemma_insert_by_chapter(by_chapter(s.drop_last()), s.last());
        assert(s =~= s.drop_last().push(s.last()));
    }
}

fn insert_summary(v: &mut Vec<ChapterSummary>, x: ChapterSummary)
    ensures
        final(v)@ == insert_by_chapter(old(v)@, x),
{
    let mut i: usize = 0;
    assert(v@.skip(0) =~= v@);
    assert(v@.take(0) + insert_by_chapter(v@, x) =~= insert_by_chapter(v@, x));
    while i < v.len() && !(x.chapter_index < v[i].chapter_index)
        invariant
            i <= v@.len(),
            v@ == old(v)@,
            insert_by_chapter(v@, x) == v@.take(i as int) + insert_by_chapter(v@.skip(i as int), x),
        decreases v@.len() - i,
    {
        proof {
            let rest = v@.skip(i as int);
            assert(rest.drop_first() =~= v@.skip(i + 1));
            assert(v@.take(i + 1) =~= v@.take(i as int) + seq![rest[0]]);
        }
        i = i + 1;
    }
    let ghost before = v@;
    v.insert(i, x);
    proof {
        let rest = before.skip(i as int);
        assert(v@ =~= before.take(i as int) + insert_by_chapter(rest, x));
    }
}

/// Orders summaries by chapter index, keeping the order of summaries of the
/// same chapter (see [`by_chapter`]).
pub fn sort_by_chapter(items: Vec<ChapterSummary>) -> (r: Vec<ChapterSummary>)
    ensures
        r@ == by_chapter(items@),
{
    let mut out: Vec<ChapterSummary> = Vec::new();
    let mut items = items;
    let ghost all = items@;
    let n = items.len();
    let mut i: usize = 0;
    assert(all.take(0) =~= Seq::<ChapterSummary>::empty());
    while i < n
        invariant
            n == all.len(),
            i <= n,
            items@ == all.skip(i as int),
            out@ == by_chapter(all.take(i as int)),
        decreases n - i,
    {
        let x = items.remove(0);
        assert(all.take(i + 1).drop_last() =~= all.take(i as int));
        insert_summary(&mut out, x);
        assert(items@ =~= all.skip(i + 1));
        i = i + 1;
    }
    assert(all.take(n as int) =~= all);
    out
}

/// One line of the summary list: `第<chapter number>章：<summary>`, chapters
/// numbered from one.
pub open spec fn summary_line_spec(s: ChapterSummary) -> Seq<char> {
    "第"@ + decimal_padded((s.chapter_index + 1) as nat, 0) + "章："@ + s.summary@
}

/// The summary list given to the segmentation model: one line per summary.
pub open spec fn summaries_text_spec(s: Seq<ChapterSummary>) -> Seq<char> {
    join_spec(Seq::new(s.len(), |i: int| summary_line_spec(s[i])), "\n"@)
}

/// The summary list of the segmentation prompt (see
/// [`summaries_text_spec`]).
pub fn summaries_text(summaries: &[ChapterSummary]) -> (t: String)
    requires
        forall|i: int| 0 <= i < summaries@.len() ==> (#[trigger] summaries@[i]).chapter_index < usize::MAX,
    ensures
        t@ == summaries_text_spec(summaries@),
{
    let ghost lines = Seq::new(summaries@.len(), |i: int| summary_line_spec(summaries@[i]));
    let mut out = String::new();
    let mut i: usize = 0;
    assert(join_spec(lines.take(0), "\n"@) =~= Seq::<char>::empty());
    while i < summaries.len()
        invariant
            i <= summaries@.len(),
            lines == Seq::new(summaries@.len(), |i: int| summary_line_spec(summaries@[i])),
            forall|i: int| 0 <= i < summaries@.len() ==> (#[trigger] summaries@[i]).chapter_index < usize::MAX,
            out@ == join_spec(lines.take(i as int), "\n"@),
        decreases summaries@.len() - i,
    {
        let s = &summaries[i];
        assert(summaries@[i as int].chapter_index < usize::MAX);
        let mut line = "第".to_owned();
        line.append(format_decimal_padded(s.chapter_index + 1, 0).as_str());
        line.append("章：");
        line.append(s.summary.as_str());
        if i > 0 {
            out.append("\n");
        }
        out.append(line.as_str());
        proof {
            assert(lines.take(i + 1).drop_last() =~= lines.take(i as int));
            if i == 0 {
                assert(out@ =~= join_spec(lines.take(1), "\n"@));
            }
        }
        i = i + 1;
    }
    assert(lines.take(i as int) =~= lines);
    out
}

/// The messages that ask for plot segments: the analyst's instruction, then
/// the template with the summary list filled in.
pub fn segment_messages(template: &str, summaries: &[ChapterSummary]) -> (m: Vec<ChatMessage>)
    requires
        forall|i: int| 0 <= i < summaries@.len() ==> (#[trigger] summaries@[i]).chapter_index < usize::MAX,
    ensures
        m@.len() == 2,
        m@[0].role == crate::llm::types::Role::Assistant,
        m@[0].content@ == segment_role_spec(),
        m@[1].role == crate::llm::types::Role::User,
        m@[1].content@ == replace_spec(template@, "{{summaries}}"@, summaries_text_spec(summaries@)),
{
    proof {
        reveal_strlit("{{summaries}}");
    }
    let text = summaries_text(summaries);
    let prompt = replace_all(template, "{{summaries}}", text.as_str());
    let mut m = Vec::new();
    m.push(ChatMessage::assistant("你是剧情结构分析师，请将章节摘要按剧情弧线切分为若干剧情段。".to_owned()));
    m.push(ChatMessage::user(prompt));
    m
}

/// A segment with its chapter range brought within `max_chapter` chapters:
/// an end past the last chapter becomes the last chapter (0 when there are
/// none), and a start past the end becomes the end.
pub open spec fn clamp_segment_spec(seg: PlotSegment, max_chapter: usize) -> PlotSegment {
    let end = if seg.chapter_end >= max_chapter {
        if max_chapter > 0 {
            (max_chapter - 1) as usize
        } else {
            0usize
        }
    } else {
        seg.chapter_end
    };
    let start = if seg.chapter_start > end {
        end
    } else {
        seg.chapter_start
    };
    PlotSegment { chapter_start: start, chapter_end: end, ..seg }
}

/// A clamped segment has a well-formed chapter range inside the chapters
/// (when there are any), keeps its index and summary, and a segment whose
/// range was already valid is left as it was; clamping twice is clamping
/// once.
pub proof fn law_clamp_segment(seg: PlotSegment, max_chapter: usize)
    ensures
        clamp_segment_spec(seg, max_chapter).chapter_start <= clamp_segment_spec(seg, max_chapter).chapter_end,
        max_chapter > 0 ==> clamp_segment_spec(seg, max_chapter).chapter_end < max_chapter,
        clamp_segment_spec(seg, max_chapter).index == seg.index,
        clamp_segment_spec(seg, max_chapter).summary == seg.summary,
        seg.chapter_start <= seg.chapter_end < max_chapter ==> clamp_segment_spec(seg, max_chapter) == seg,
        clamp_segment_spec(clamp_segment_spec(seg, max_chapter), max_chapter) == clamp_segment_spec(seg, max_chapter),
{
}

/// Brings every segment's chapter range within `max_chapter` chapters (see
/// [`clamp_segment_spec`]).
pub fn clamp_segments(segments: Vec<PlotSegment>, max_chapter: usize) -> (r: Vec<PlotSegment>)
    ensures
        r@.len() == segments@.len(),
        forall|i: int| 0 <= i < r@.len() ==> #[trigger] r@[i] == clamp_segment_spec(segments@[i], max_chapter),
{
    let mut out: Vec<PlotSegment> = Vec::new();
    let mut rest = segments;
    let ghost all = rest@;
    let n = rest.len();
    let mut i: usize = 0;
    while i < n
        invariant
            n == all.len(),
            i <= n,
            rest@ == all.skip(i as int),
            out@.len() == i,
            forall|k: int| 0 <= k < i ==> #[trigger] out@[k] == clamp_segment_spec(all[k], max_chapter),
        decreases n - i,
    {
        let mut seg = rest.remove(0);
        assert(seg == all[i as int]);
        if seg.chapter_end >= max_chapter {
            seg.chapter_end = if max_chapter > 0 {
                max_chapter - 1
            } else {
                0
            };
        }
        if seg.chapter_start > seg.chapter_end {
            seg.chapter_start = seg.chapter_end;
        }
        out.push(seg);
        assert(rest@ =~= all.skip(i + 1));
        i = i + 1;
    }
    out
}

/// The text of one chapter in a script prompt: `## <title> ` on one line,
/// then the body.
pub open spec fn chapter_block_spec(c: ChapterView) -> Seq<char> {
    "## "@ + c.title + " \n"@ + c.content
}

/// The chapters of `cs` within the range of a segment.
pub open spec fn chapters_in_range(cs: Seq<ChapterView>, start: nat, end: nat) -> Seq<ChapterView> {
    cs.filter(|c: ChapterView| start <= c.index && c.index <= end)
}

/// The source text of a segment: the blocks of its chapters, separated by
/// blank lines.
pub open spec fn segment_text_spec(cs: Seq<ChapterView>, seg: PlotSegment) -> Seq<char> {
    let inr = chapters_in_range(cs, seg.chapter_start as nat, seg.chapter_end as nat);
    join_spec(Seq::new(inr.len(), |i: int| chapter_block_spec(inr[i])), "\n\n"@)
}

proof fn lemma_join_contains(parts: Seq<Seq<char>>, sep: Seq<char>, k: int)
    requires
        0 <= k < parts.len(),
    ensures
        contains_spec(join_spec(parts, sep), parts[k]),
    decreases parts.len(),
{
    let j = join_spec(parts, sep);
    if parts.len() == 1 {
        assert(j.subrange(0, parts[0].len() as int) =~= parts[0]);
        assert(occurs_at(j, parts[k], 0));
    } else {
        let init = join_spec(parts.drop_last(), sep);
        if k == parts.len() - 1 {
            let i: int = (init.len() + sep.len()) as int;
            assert(j.subrange(i, i + parts[k].len()) =~= parts[k]);
            assert(occurs_at(j, parts[k], i));
        } else {
            lemma_join_contains(parts.drop_last(), sep, k);
            assert(parts.drop_last()[k] == parts[k]);
            let i = choose|i: int| occurs_at(init, parts[k], i);
            assert(j.subrange(i, i + parts[k].len()) =~= init.subrange(i, i + parts[k].len()));
            assert(occurs_at(j, parts[k], i));
        }
    }
}

/// The chapters of a segment are exactly the chapters whose index lies in
/// the segment's range, and the segment's source text holds the block
/// (`## <title> ` and the content) of every one of them.
pub proof fn law_segment_covers_its_chapters(cs: Seq<ChapterView>, seg: PlotSegment)
    ensures
        forall|k: int|
            0 <= k < cs.len() && seg.chapter_start <= #[trigger] cs[k].index <= seg.chapter_end ==> {
                &&& chapters_in_range(cs, seg.chapter_start as nat, seg.chapter_end as nat).contains(cs[k])
                &&& contains_spec(segment_text_spec(cs, seg), chapter_block_spec(cs[k]))
            },
        forall|c: ChapterView|
            #[trigger] chapters_in_range(cs, seg.chapter_start as nat, seg.chapter_end as nat).contains(c) ==> {
                &&& cs.contains(c)
                &&& seg.chapter_start <= c.index <= seg.chapter_end
            },
{
    let pred = |c: ChapterView| seg.chapter_start as nat <= c.index && c.index <= seg.chapter_end as nat;
    let inr = chapters_in_range(cs, seg.chapter_start as nat, seg.chapter_end as nat);
    assert(inr == cs.filter(pred));
    let blocks = Seq::new(inr.len(), |i: int| chapter_block_spec(inr[i]));
    assert forall|k: int|
        0 <= k < cs.len() && seg.chapter_start <= #[trigger] cs[k].index <= seg.chapter_end implies {
            &&& inr.contains(cs[k])
            &&& contains_spec(segment_text_spec(cs, seg), chapter_block_spec(cs[k]))
        } by {
        cs.lemma_filter_contains(pred, k);
        let m = choose|m: int| 0 <= m < inr.len() && inr[m] == cs[k];
        assert(blocks[m] == chapter_block_spec(cs[k]));
        lemma_join_contains(blocks, "\n\n"@, m);
    }
    assert forall|c: ChapterView| #[trigger] inr.contains(c) implies {
        &&& cs.contains(c)
        &&& seg.chapter_start <= c.index <= seg.chapter_end
    } by {
        cs.lemma_filter_contains_rev(pred, c);
        let m = choose|m: int| 0 <= m < inr.len() && inr[m] == c;
        cs.lemma_filter_pred(pred, m);
    }
}

/// The source text of a segment (see [`segment_text_spec`]).
pub fn segment_text(chapters: &[Chapter], seg: &PlotSegment) -> (t: String)
    ensures
        t@ == segment_text_spec(chapters_view(chapters@), *seg),
{
    let ghost cs = chapters_view(chapters@);
    let ghost pred = |c: ChapterView| seg.chapter_start as nat <= c.index && c.index <= seg.chapter_end as nat;
    let mut out = String::new();
    let mut count: usize = 0;
    let mut i: usize = 0;
    assert(cs.take(0).filter(pred) =~= Seq::<ChapterView>::empty());
    while i < chapters.len()
        invariant
            i <= chapters@.len(),
            cs == chapters_view(chapters@),
            pred == (|c: ChapterView| seg.chapter_start as nat <= c.index && c.index <= seg.chapter_end as nat),
            count == cs.take(i as int).filter(pred).len(),
            out@ == join_spec(
                Seq::new(
                    cs.take(i as int).filter(pred).len(),
                    |k: int| chapter_block_spec(cs.take(i as int).filter(pred)[k]),
                ),
                "\n\n"@,
            ),
        decreases chapters@.len() - i,
    {
        let c = &chapters[i];
        let ghost before = cs.take(i as int).filter(pred);
        proof {
            reveal_with_fuel(Seq::<ChapterView>::filter, 1);
            assert(cs.take(i + 1).drop_last() =~= cs.take(i as int));
            assert(cs.take(i + 1).last() == c@);
        }
        if seg.chapter_start <= c.index && c.index <= seg.chapter_end {
            if count > 0 {
                out.append("\n\n");
            }
            out.append("## ");
            out.append(c.title.as_str());
            out.append(" \n");
            out.append(c.content.as_str());
            proof {
                let after = cs.take(i + 1).filter(pred);
                assert(after =~= before.push(c@));
                let ls = Seq::new(after.len(), |k: int| chapter_block_spec(after[k]));
                assert(ls.drop_last() =~= Seq::new(before.len(), |k: int| chapter_block_spec(before[k])));
                if count == 0 {
                    assert(out@ =~= chapter_block_spec(c@));
                }
            }
            count = count + 1;
        } else {
            proof {
                assert(cs.take(i + 1).filter(pred) =~= before);
            }
        }
        i = i + 1;
    }
    assert(cs.take(i as int) =~= cs);
    out
}

/// The script prompt: the template with the segment outline, the previous
/// hand-off, the character library, the source text and the line limit
/// filled in.
pub open spec fn script_prompt_spec(
    template: Seq<char>,
    summary: Seq<char>,
    prev_handoff: Seq<char>,
    characters: Seq<char>,
    chapter_text: Seq<char>,
    max_lines: nat,
) -> Seq<char> {
    replace_spec(
        replace_spec(
            replace_spec(
                replace_spec(replace_spec(template, "{{segment_summary}}"@, summary), "{{prev_handoff}}"@, prev_handoff),
                "{{characters}}"@,
                characters,
            ),
            "{{chapter_text}}"@,
            chapter_text,
        ),
        "{{max_paragraph_lines}}"@,
        decimal_padded(max_lines, 0),
    )
}

/// The messages that ask for a segment's script: the storyteller's prompt,
/// then the filled-in script template (see [`script_prompt_spec`]); the
/// library is rendered as in [`CharacterLibrary::render_for_prompt`].
pub fn script_messages(
    story_teller: &str,
    template: &str,
    seg: &PlotSegment,
    chapters: &[Chapter],
    library: &CharacterLibrary,
    prev_handoff: &str,
    max_paragraph_lines: usize,
) -> (m: Vec<ChatMessage>)
    ensures
        m@.len() == 2,
        m@[0].role == crate::llm::types::Role::Assistant,
        m@[0].content@ == story_teller@,
        m@[1].role == crate::llm::types::Role::User,
        m@[1].content@ == script_prompt_spec(
            template@,
            seg.summary@,
            prev_handoff@,
            crate::character::render_spec(library.entries()),
            segment_text_spec(chapters_view(chapters@), *seg),
            max_paragraph_lines as nat,
        ),
{
    proof {
        reveal_strlit("{{segment_summary}}");
        reveal_strlit("{{prev_handoff}}");
        reveal_strlit("{{characters}}");
        reveal_strlit("{{chapter_text}}");
        reveal_strlit("{{max_paragraph_lines}}");
    }
    let text = segment_text(chapters, seg);
    let rendered = library.render_for_prompt();
    let p1 = replace_all(template, "{{segment_summary}}", seg.summary.as_str());
    let p2 = replace_all(p1.as_str(), "{{prev_handoff}}", prev_handoff);
    let p3 = replace_all(p2.as_str(), "{{characters}}", rendered.as_str());
    let p4 = replace_all(p3.as_str(), "{{chapter_text}}", text.as_str());
    let lines = format_decimal_padded(max_paragraph_lines, 0);
    let prompt = replace_all(p4.as_str(), "{{max_paragraph_lines}}", lines.as_str());
    let mut m = Vec::new();
    m.push(ChatMessage::assistant(story_teller.to_owned()));
    m.push(ChatMessage::user(prompt));
    m
}

/// What the script stage carries from segment to segment: the character
/// library, the previous segment's hand-off note, and the scripts so far.
pub struct ScriptRun {
    pub library: CharacterLibrary,
    pub prev_handoff: String,
    pub scripts: Vec<Script>,
}

impl ScriptRun {
    /// The state before the first segment, starting from `library` (the
    /// saved library, or an empty one).
    pub fn start(library: CharacterLibrary) -> (r: ScriptRun)
        ensures
            r.library@ == library@,
            r.prev_handoff@ == Seq::<char>::empty(),
            r.scripts@.len() == 0,
    {
        ScriptRun { library, prev_handoff: String::new(), scripts: Vec::new() }
    }

    /// Whether segment `index` must be written, rather than loaded from its
    /// saved script.
    pub fn needs_generation(completed: &HashSet<usize>, index: usize) -> (b: bool)
        ensures
            b == !completed@.contains(index),
    {
        broadcast use vstd::std_specs::hash::group_hash_axioms;

        !completed.contains(&index)
    }

    /// Takes in the saved script of a completed segment: its characters are
    /// merged into the library, its hand-off note becomes the previous one,
    /// and it joins the scripts.
    pub fn resume_with(&mut self, script: Script)
        ensures
            final(self).library@ == old(self).library@.union_prefer_right(script.characters@),
            final(self).prev_handoff@ == script.handoff@,
            final(self).scripts@ == old(self).scripts@.push(script),
    {
        self.library.merge_library(&script.characters);
        self.prev_handoff = script.handoff.clone();
        self.scripts.push(script);
    }

    /// Takes in a newly written script (whose characters are already merged
    /// into the library): its hand-off note becomes the previous one, and it
    /// joins the scripts.
    pub fn record_generated(&mut self, script: Script)
        ensures
            final(self).library@ == old(self).library@,
            final(self).prev_handoff@ == script.handoff@,
            final(self).scripts@ == old(self).scripts@.push(script),
    {
        self.prev_handoff = script.handoff.clone();
        self.scripts.push(script);
    }
}


/// Whether saved summaries are reused: there is one for every chapter.
pub fn reuse_saved_summaries(saved: &[ChapterSummary], chapters: &[Chapter]) -> (b: bool)
    ensures
        b == (saved@.len() == chapters@.len()),
{
    saved.len() == chapters.len()
}

/// Whether a saved segmentation is reused: it holds at least one segment.
pub fn reuse_saved_segments(saved: &[PlotSegment]) -> (b: bool)
    ensures
        b == (saved@.len() > 0),
{
    saved.len() > 0
}

/// The text of a model's answer, or a `Llm` error carrying `missing` when
/// the answer has none.
pub fn answer_text(resp: &ChatResponse, missing: &str) -> (r: Result<String, StoryorError>)
    ensures
        match response_text_spec(*resp) {
            Some(t) => r matches Ok(s) && s@ == t,
            None => r matches Err(StoryorError::Llm(m)) && m@ == missing@,
        },
{
    match resp.text() {
        Some(t) => Ok(t),
        None => Err(StoryorError::Llm(missing.to_string())),
    }
}

/// A chapter's summary from the summariser's response: its text, trimmed,
/// or a `Llm` error when the response has no text.
pub fn summary_from_response(chapter_index: usize, resp: &ChatResponse) -> (r: Result<ChapterSummary, StoryorError>)
    ensures
        match response_text_spec(*resp) {
            Some(t) => r matches Ok(s) && s.chapter_index == chapter_index && s.summary@ == trim_spec(t),
            None => r matches Err(StoryorError::Llm(m)) && m@ == "摘要响应无文本"@,
        },
{
    let text = answer_text(resp, "摘要响应无文本")?;
    Ok(summary_from_answer(chapter_index, text.as_str()))
}

/// The chapter stage: the novel split with the configured pattern. It fails
/// only when the pattern does not compile; the split is never empty, so
/// the stage's check for an empty split never fires.
pub fn split_chapters(pattern: &str, text: &str) -> (r: Result<Vec<Chapter>, StoryorError>)
    ensures
        r is Ok <==> regex_pattern_valid(pattern@),
        r matches Err(e) ==> e is Regex,
        r matches Ok(chapters) ==> chapters@.len() >= 1 && chapters_view(chapters@) == split_spec(
            text@,
            regex_find_spans(pattern@, text@),
        ),
{
    let splitter = match ChapterSplitter::new(pattern) {
        Ok(s) => s,
        Err(e) => return Err(e),
    };
    let chapters = splitter.split(text);
    proof {
        law_split_numbers_chapters(text@, regex_find_spans(pattern@, text@));
        assert(chapters_view(chapters@).len() == chapters@.len());
    }
    if chapters.len() == 0 {
        return Err(StoryorError::Parse("章节切分结果为空".to_string()));
    }
    Ok(chapters)
}

/// After plot segmentation: the stage is recorded as done, and both
/// per-segment stages count `count` segments.
pub fn record_segmentation(ckpt: &mut CheckpointManager, count: usize)
    ensures
        final(ckpt)@ == with_stages(
            old(ckpt)@,
            StagesView {
                segments: StageStatus::Done,
                scripts: SegmentStageView { total: count as nat, ..old(ckpt)@.state.stages.scripts },
                audio: SegmentStageView { total: count as nat, ..old(ckpt)@.state.stages.audio },
                ..old(ckpt)@.state.stages
            },
        ),
{
    ckpt.mark_segments_done();
    ckpt.set_scripts_total(count);
    ckpt.set_audio_total(count);
}

/// The indices of some plot segments.
pub open spec fn segment_indices(segments: Seq<PlotSegment>) -> Set<usize> {
    Set::new(|i: usize| exists|j: int| 0 <= j < segments.len() && (#[trigger] segments[j]).index == i)
}

/// The segment indices of some scripts.
pub open spec fn script_indices(scripts: Seq<Script>) -> Set<usize> {
    Set::new(|i: usize| exists|j: int| 0 <= j < scripts.len() && (#[trigger] scripts[j]).segment_index == i)
}

/// After the script stage: every segment is recorded as scripted; the rest
/// of the progress is unchanged.
pub fn record_scripts_done(ckpt: &mut CheckpointManager, segments: &[PlotSegment])
    ensures
        final(ckpt)@.path == old(ckpt)@.path,
        final(ckpt)@.force == old(ckpt)@.force,
        final(ckpt)@.state.novel_hash == old(ckpt)@.state.novel_hash,
        final(ckpt)@.state.config_hash == old(ckpt)@.state.config_hash,
        final(ckpt)@.state.stages.chapters == old(ckpt)@.state.stages.chapters,
        final(ckpt)@.state.stages.summaries == old(ckpt)@.state.stages.summaries,
        final(ckpt)@.state.stages.segments == old(ckpt)@.state.stages.segments,
        final(ckpt)@.state.stages.audio == old(ckpt)@.state.stages.audio,
        final(ckpt)@.state.stages.scripts.total == old(ckpt)@.state.stages.scripts.total,
        final(ckpt)@.state.stages.scripts.completed.to_set() == old(ckpt)@.state.stages.scripts.completed.to_set().union(
            segment_indices(segments@),
        ),
{
    let ghost start = ckpt@;
    let mut i: usize = 0;
    while i < segments.len()
        invariant
            i <= segments@.len(),
            ckpt@.path == start.path,
            ckpt@.force == start.force,
            ckpt@.state.novel_hash == start.state.novel_hash,
            ckpt@.state.config_hash == start.state.config_hash,
            ckpt@.state.stages.chapters == start.state.stages.chapters,
            ckpt@.state.stages.summaries == start.state.stages.summaries,
            ckpt@.state.stages.segments == start.state.stages.segments,
            ckpt@.state.stages.audio == start.state.stages.audio,
            ckpt@.state.stages.scripts.total == start.state.stages.scripts.total,
            ckpt@.state.stages.scripts.completed.to_set() == start.state.stages.scripts.completed.to_set().union(
                segment_indices(segments@.take(i as int)),
            ),
        decreases segments@.len() - i,
    {
        let ghost before = ckpt@.state.stages.scripts;
        ckpt.mark_script_done(segments[i].index);
        proof {
            law_mark_done_records(before, ckpt@.state.stages.scripts, segments@[i as int].index);
            let prev = segment_indices(segments@.take(i as int));
            let next = segment_indices(segments@.take(i + 1));
            assert forall|x: usize| #[trigger] next.contains(x) <==> prev.insert(segments@[i as int].index).contains(x) by {
                if next.contains(x) {
                    let j = choose|j: int| 0 <= j < i + 1 && (#[trigger] segments@.take(i + 1)[j]).index == x;
                    if j < i {
                        assert(segments@.take(i as int)[j] == segments@.take(i + 1)[j]);
                    }
                }
                if prev.contains(x) {
                    let j = choose|j: int| 0 <= j < i && (#[trigger] segments@.take(i as int)[j]).index == x;
                    assert(segments@.take(i + 1)[j] == segments@.take(i as int)[j]);
                }
                if x == segments@[i as int].index {
                    assert(segments@.take(i + 1)[i as int] == segments@[i as int]);
                }
            }
            assert(next =~= prev.insert(segments@[i as int].index));
            assert(ckpt@.state.stages.scripts.completed.to_set() =~= start.state.stages.scripts.completed.to_set().union(next));
        }
        i = i + 1;
    }
    assert(segments@.take(i as int) =~= segments@);
}

/// After the audio stage: every script's segment is recorded as
/// synthesised; the rest of the progress is unchanged.
pub fn record_audio_done(ckpt: &mut CheckpointManager, scripts: &[Script])
    ensures
        final(ckpt)@.path == old(ckpt)@.path,
        final(ckpt)@.force == old(ckpt)@.force,
        final(ckpt)@.state.novel_hash == old(ckpt)@.state.novel_hash,
        final(ckpt)@.state.config_hash == old(ckpt)@.state.config_hash,
        final(ckpt)@.state.stages.chapters == old(ckpt)@.state.stages.chapters,
        final(ckpt)@.state.stages.summaries == old(ckpt)@.state.stages.summaries,
        final(ckpt)@.state.stages.segments == old(ckpt)@.state.stages.segments,
        final(ckpt)@.state.stages.scripts == old(ckpt)@.state.stages.scripts,
        final(ckpt)@.state.stages.audio.total == old(ckpt)@.state.stages.audio.total,
        final(ckpt)@.state.stages.audio.completed.to_set() == old(ckpt)@.state.stages.audio.completed.to_set().union(
            script_indices(scripts@),
        ),
{
    let ghost start = ckpt@;
    let mut i: usize = 0;
    while i < scripts.len()
        invariant
            i <= scripts@.len(),
            ckpt@.path == start.path,
            ckpt@.force == start.force,
            ckpt@.state.novel_hash == start.state.novel_hash,
            ckpt@.state.config_hash == start.state.config_hash,
            ckpt@.state.stages.chapters == start.state.stages.chapters,
            ckpt@.state.stages.summaries == start.state.stages.summaries,
            ckpt@.state.stages.segments == start.state.stages.segments,
            ckpt@.state.stages.scripts == start.state.stages.scripts,
            ckpt@.state.stages.audio.total == start.state.stages.audio.total,
            ckpt@.state.stages.audio.completed.to_set() == start.state.stages.audio.completed.to_set().union(
                script_indices(scripts@.take(i as int)),
            ),
        decreases scripts@.len() - i,
    {
        let ghost before = ckpt@.state.stages.audio;
        ckpt.mark_audio_done(scripts[i].segment_index);
        proof {
            law_mark_done_records(before, ckpt@.state.stages.audio, scripts@[i as int].segment_index);
            let prev = script_indices(scripts@.take(i as int));
            let next = script_indices(scripts@.take(i + 1));
            assert forall|x: usize| #[trigger] next.contains(x) <==> prev.insert(scripts@[i as int].segment_index).contains(x) by {
                if next.contains(x) {
                    let j = choose|j: int| 0 <= j < i + 1 && (#[trigger] scripts@.take(i + 1)[j]).segment_index == x;
                    if j < i {
                        assert(scripts@.take(i as int)[j] == scripts@.take(i + 1)[j]);
                    }
                }
                if prev.contains(x) {
                    let j = choose|j: int| 0 <= j < i && (#[trigger] scripts@.take(i as int)[j]).segment_index == x;
                    assert(scripts@.take(i + 1)[j] == scripts@.take(i as int)[j]);
                }
                if x == scripts@[i as int].segment_index {
                    assert(scripts@.take(i + 1)[i as int] == scripts@[i as int]);
                }
            }
            assert(next =~= prev.insert(scripts@[i as int].segment_index));
            assert(ckpt@.state.stages.audio.completed.to_set() =~= start.state.stages.audio.completed.to_set().union(next));
        }
        i = i + 1;
    }
    assert(scripts@.take(i as int) =~= scripts@);
}

} // verus!
