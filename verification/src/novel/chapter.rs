//! Splitting a novel into chapters at the lines that hold chapter titles.
//!
//! A configurable regular expression marks the chapter titles. The text
//! between two titles becomes the body of the first; text before the first
//! title, if any remains after trimming, becomes a preface chapter; a text
//! without any title becomes one chapter holding all of it.

use vstd::prelude::*;
use vstd::string::StringSliceAdditionalSpecFns;

use crate::error::StoryorError;
use crate::script::{chapters_view, Chapter, ChapterView};
use crate::text::{
    boundary, chars_in_bytes, lemma_ascii_boundaries, lemma_trim_keeps_core, slice_str, trim_spec,
    trim_str, trimmed_from, utf8_of,
};

verus! {

/// Byte offset of the last newline strictly before `p`, or -1.
pub open spec fn last_newline_before(b: Seq<u8>, p: int) -> int
    decreases p,
{
    if p <= 0 {
        -1
    } else if b[p - 1] == 10 {
        p - 1
    } else {
        last_newline_before(b, p - 1)
    }
}

/// Byte offset of the first newline at or after `p`, or -1.
pub open spec fn first_newline_from(b: Seq<u8>, p: int) -> int
    decreases b.len() - p,
{
    if p < 0 || p >= b.len() {
        -1
    } else if b[p] == 10 {
        p
    } else {
        first_newline_from(b, p + 1)
    }
}

/// Match spans (byte offsets) as the regex crate reports them for a
/// haystack: each within the text and on character boundaries, in order and
/// not overlapping.
pub open spec fn spans_wf(cs: Seq<char>, sp: Seq<(usize, usize)>) -> bool {
    &&& forall|i: int|
        0 <= i < sp.len() ==> {
            &&& (#[trigger] sp[i]).0 <= sp[i].1 <= utf8_of(cs).len()
            &&& boundary(cs, sp[i].0 as int)
            &&& boundary(cs, sp[i].1 as int)
        }
    &&& forall|i: int| 0 <= i < sp.len() - 1 ==> (#[trigger] sp[i]).1 <= sp[i + 1].0
}

/// End of the body of the `i`th titled chapter: the next title's start, or
/// the end of the text.
pub open spec fn body_end(cs: Seq<char>, sp: Seq<(usize, usize)>, i: int) -> int {
    if i + 1 < sp.len() {
        sp[i + 1].0 as int
    } else {
        utf8_of(cs).len() as int
    }
}

/// End of the line that holds the `i`th title: the first newline after the
/// match, or else the body end.
pub open spec fn line_end(cs: Seq<char>, sp: Seq<(usize, usize)>, i: int) -> int {
    let nl = first_newline_from(utf8_of(cs), sp[i].1 as int);
    if nl >= 0 {
        nl
    } else {
        body_end(cs, sp, i)
    }
}

/// Start of the line that holds the `i`th title.
pub open spec fn line_start(cs: Seq<char>, sp: Seq<(usize, usize)>, i: int) -> int {
    last_newline_before(utf8_of(cs), sp[i].0 as int) + 1
}

/// Start of the body of the `i`th titled chapter: just after the title line,
/// but never past the body end.
pub open spec fn body_start(cs: Seq<char>, sp: Seq<(usize, usize)>, i: int) -> int {
    let le = line_end(cs, sp, i);
    let after = if le < utf8_of(cs).len() {
        le + 1
    } else {
        le
    };
    if after <= body_end(cs, sp, i) {
        after
    } else {
        body_end(cs, sp, i)
    }
}

/// Title of the `i`th titled chapter: its whole line, trimmed.
pub open spec fn title_of(cs: Seq<char>, sp: Seq<(usize, usize)>, i: int) -> Seq<char> {
    trim_spec(chars_in_bytes(cs, line_start(cs, sp, i), line_end(cs, sp, i)))
}

/// Body of the `i`th titled chapter, trimmed.
pub open spec fn content_of(cs: Seq<char>, sp: Seq<(usize, usize)>, i: int) -> Seq<char> {
    trim_spec(chars_in_bytes(cs, body_start(cs, sp, i), body_end(cs, sp, i)))
}

/// The preface chapter, present when the text before the first title is not
/// blank.
pub open spec fn preface_of(cs: Seq<char>, sp: Seq<(usize, usize)>) -> Seq<ChapterView> {
    let p = trim_spec(chars_in_bytes(cs, 0, sp[0].0 as int));
    if sp[0].0 > 0 && p.len() > 0 {
        seq![ChapterView { index: 0, title: "序言"@, content: p }]
    } else {
        seq![]
    }
}

/// The chapters of a text, given the spans of its chapter titles.
pub open spec fn split_spec(cs: Seq<char>, sp: Seq<(usize, usize)>) -> Seq<ChapterView> {
    if sp.len() == 0 {
        seq![ChapterView { index: 0, title: "全文"@, content: trim_spec(cs) }]
    } else {
        let pre = preface_of(cs, sp);
        pre + Seq::new(
            sp.len(),
            |i: int|
                ChapterView {
                    index: (pre.len() + i) as nat,
                    title: title_of(cs, sp, i),
                    content: content_of(cs, sp, i),
                },
        )
    }
}

/// Splitting always yields at least one chapter, numbered 0, 1, 2, ... in
/// order: one per title, after the preface when there is one, or a single
/// chapter holding the whole text when there is no title.
pub proof fn law_split_numbers_chapters(cs: Seq<char>, sp: Seq<(usize, usize)>)
    ensures
        split_spec(cs, sp).len() >= 1,
        sp.len() > 0 ==> split_spec(cs, sp).len() == preface_of(cs, sp).len() + sp.len(),
        preface_of(cs, sp).len() <= 1,
        forall|i: int| 0 <= i < split_spec(cs, sp).len() ==> (#[trigger] split_spec(cs, sp)[i]).index == i,
{
}

/// A text in which no chapter title is found is one chapter, numbered 0
/// and titled 全文, holding the whole text with only the white space at its
/// ends removed.
pub proof fn law_untitled_text_is_one_chapter(cs: Seq<char>)
    ensures
        split_spec(cs, Seq::empty()).len() == 1,
        split_spec(cs, Seq::empty())[0].index == 0,
        split_spec(cs, Seq::empty())[0].title == "全文"@,
        trimmed_from(split_spec(cs, Seq::empty())[0].content, cs),
{
    lemma_trim_keeps_core(cs);
}

/// The body of each titled chapter is the whole text from the line after
/// its title line up to the next title (or the end of the text), with only
/// the white space at its ends removed. When the title line runs into the
/// next title, the body is empty.
pub proof fn law_titled_chapter_keeps_its_body(cs: Seq<char>, sp: Seq<(usize, usize)>, i: int)
    requires
        spans_wf(cs, sp),
        0 <= i < sp.len(),
    ensures
        ({
            let b = utf8_of(cs);
            let next = if i + 1 < sp.len() {
                sp[i + 1].0 as int
            } else {
                b.len() as int
            };
            let nl = first_newline_from(b, sp[i].1 as int);
            let start = if 0 <= nl < next {
                nl + 1
            } else {
                next
            };
            trimmed_from(split_spec(cs, sp)[preface_of(cs, sp).len() + i].content, chars_in_bytes(cs, start, next))
        }),
{
    let b = utf8_of(cs);
    lemma_first_newline(b, sp[i].1 as int);
    lemma_trim_keeps_core(chars_in_bytes(cs, body_start(cs, sp, i), body_end(cs, sp, i)));
    assert(split_spec(cs, sp)[preface_of(cs, sp).len() + i].content == content_of(cs, sp, i));
}

/// The preface, when there is one, is the whole text before the first
/// title with only the white space at its ends removed.
pub proof fn law_preface_keeps_text_before_first_title(cs: Seq<char>, sp: Seq<(usize, usize)>)
    requires
        sp.len() > 0,
        preface_of(cs, sp).len() > 0,
    ensures
        split_spec(cs, sp)[0].title == "序言"@,
        trimmed_from(split_spec(cs, sp)[0].content, chars_in_bytes(cs, 0, sp[0].0 as int)),
{
    lemma_trim_keeps_core(chars_in_bytes(cs, 0, sp[0].0 as int));
}

proof fn lemma_last_newline(b: Seq<u8>, p: int)
    requires
        0 <= p <= b.len(),
    ensures
        -1 <= last_newline_before(b, p) < p,
        last_newline_before(b, p) >= 0 ==> b[last_newline_before(b, p)] == 10,
    decreases p,
{
    if p > 0 && b[p - 1] != 10 {
        lemma_last_newline(b, p - 1);
    }
}

proof fn lemma_first_newline(b: Seq<u8>, p: int)
    requires
        0 <= p,
    ensures
        first_newline_from(b, p) == -1 || (p <= first_newline_from(b, p) < b.len() && b[first_newline_from(b, p)] == 10),
    decreases b.len() - p,
{
    if p < b.len() && b[p] != 10 {
        lemma_first_newline(b, p + 1);
    }
}

fn find_last_newline_before(bytes: &[u8], p: usize) -> (r: Option<usize>)
    requires
        p <= bytes@.len(),
    ensures
        match r {
            Some(k) => last_newline_before(bytes@, p as int) == k && k < p && bytes@[k as int] == 10,
            None => last_newline_before(bytes@, p as int) == -1,
        },
{
    proof {
        lemma_last_newline(bytes@, p as int);
    }
    let mut k = p;
    while k > 0 && bytes[k - 1] != 10
        invariant
            k <= p <= bytes@.len(),
            last_newline_before(bytes@, p as int) == last_newline_before(bytes@, k as int),
        decreases k,
    {
        k = k - 1;
    }
    if k == 0 {
        None
    } else {
        Some(k - 1)
    }
}

fn find_first_newline_from(bytes: &[u8], p: usize) -> (r: Option<usize>)
    requires
        p <= bytes@.len(),
    ensures
        match r {
            Some(k) => first_newline_from(bytes@, p as int) == k && p <= k < bytes@.len()
                && bytes@[k as int] == 10,
            None => first_newline_from(bytes@, p as int) == -1,
        },
{
    proof {
        lemma_first_newline(bytes@, p as int);
    }
    let mut k = p;
    while k < bytes.len() && bytes[k] != 10
        invariant
            p <= k <= bytes@.len(),
            first_newline_from(bytes@, p as int) == first_newline_from(bytes@, k as int),
        decreases bytes@.len() - k,
    {
        k = k + 1;
    }
    if k == bytes.len() {
        None
    } else {
        Some(k)
    }
}


/// The chapter for the `i`th title span, numbered `index`.
fn titled_chapter(text: &str, bytes: &[u8], spans: &Vec<(usize, usize)>, i: usize, index: usize) -> (c: Chapter)
    requires
        bytes@ == utf8_of(text@),
        spans_wf(text@, spans@),
        i < spans@.len(),
    ensures
        c@ == (ChapterView {
            index: index as nat,
            title: title_of(text@, spans@, i as int),
            content: content_of(text@, spans@, i as int),
        }),
{
    let ghost cs = text@;
    let ghost sp = spans@;
    let len = bytes.len();
    let n = spans.len();
    let (s, e) = spans[i];
    let be = if i + 1 < n {
        spans[i + 1].0
    } else {
        len
    };
    let ls = match find_last_newline_before(bytes, s) {
        Some(k) => k + 1,
        None => 0,
    };
    let le = match find_first_newline_from(bytes, e) {
        Some(k) => k,
        None => be,
    };
    let mut bs = if le < len {
        le + 1
    } else {
        le
    };
    if bs > be {
        bs = be;
    }
    proof {
        let b = utf8_of(cs);
        vstd::utf8::encode_utf8_valid_utf8(cs);
        assert(sp[i as int] == (s, e));
        lemma_last_newline(b, s as int);
        lemma_first_newline(b, e as int);
        vstd::utf8::is_char_boundary_start_end_of_seq(b);
        if i + 1 < n {
            assert(sp[i as int].1 <= sp[i + 1].0);
            assert(boundary(cs, sp[i + 1].0 as int));
        }
        if last_newline_before(b, s as int) >= 0 {
            lemma_ascii_boundaries(b, last_newline_before(b, s as int));
        }
        if first_newline_from(b, e as int) >= 0 {
            lemma_ascii_boundaries(b, first_newline_from(b, e as int));
        }
        assert(ls == line_start(cs, sp, i as int));
        assert(le == line_end(cs, sp, i as int));
        assert(be == body_end(cs, sp, i as int));
        assert(bs == body_start(cs, sp, i as int));
    }
    let title = trim_str(slice_str(text, ls, le));
    let content = trim_str(slice_str(text, bs, be));
    Chapter { index, title, content }
}

/// The preface chapter, if the text before the first title is not blank.
fn preface_chapters(text: &str, spans: &Vec<(usize, usize)>) -> (chapters: Vec<Chapter>)
    requires
        spans_wf(text@, spans@),
        spans@.len() > 0,
    ensures
        chapters_view(chapters@) == preface_of(text@, spans@),
{
    let ghost cs = text@;
    let mut chapters: Vec<Chapter> = Vec::new();
    let first_start = spans[0].0;
    assert(spans@[0].0 <= spans@[0].1 <= utf8_of(cs).len() && boundary(cs, spans@[0].0 as int));
    if first_start > 0 {
        proof {
            vstd::utf8::encode_utf8_valid_utf8(cs);
            vstd::utf8::is_char_boundary_start_end_of_seq(utf8_of(cs));
        }
        let preface = trim_str(slice_str(text, 0, first_start));
        if preface.unicode_len() > 0 {
            chapters.push(Chapter { index: 0, title: "序言".to_owned(), content: preface });
        }
    }
    assert(chapters_view(chapters@) =~= preface_of(cs, spans@));
    chapters
}

/// Splits `text` into chapters, given the byte spans where chapter titles
/// were found (in the order and form that a regex search reports them).
pub fn split_at_spans(text: &str, spans: &Vec<(usize, usize)>) -> (chapters: Vec<Chapter>)
    requires
        spans_wf(text@, spans@),
    ensures
        chapters_view(chapters@) == split_spec(text@, spans@),
{
    let ghost cs = text@;
    let ghost sp = spans@;
    let bytes = text.as_bytes();
    assert(bytes@ == utf8_of(cs));
    let len = bytes.len();
    let n = spans.len();
    if n == 0 {
        let content = trim_str(text);
        let whole = vec![Chapter { index: 0, title: "全文".to_owned(), content }];
        assert(chapters_view(whole@) =~= split_spec(cs, sp));
        return whole;
    }
    let mut chapters = preface_chapters(text, spans);
    let ghost pre = preface_of(cs, sp);
    assert(chapters_view(chapters@) =~= pre);
    let mut i: usize = 0;
    while i < n
        invariant
            i <= n == sp.len(),
            sp == spans@,
            cs == text@,
            bytes@ == utf8_of(cs),
            len == bytes@.len(),
            spans_wf(cs, sp),
            pre == preface_of(cs, sp),
            chapters_view(chapters@) =~= split_spec(cs, sp).take(pre.len() + i),
            n > 0,
        decreases n - i,
    {
        let index = chapters.len();
        let ghost before = chapters_view(chapters@);
        assert(before.len() == pre.len() + i);
        let c = titled_chapter(text, bytes, spans, i, index);
        chapters.push(c);
        assert(chapters_view(chapters@) =~= before.push(c@));
        proof {
            let whole = split_spec(cs, sp);
            assert(whole.take(pre.len() + i + 1) =~= whole.take(pre.len() + i).push(whole[pre.len() + i]));
            assert(whole[pre.len() + i] == ChapterView {
                index: (pre.len() + i) as nat,
                title: title_of(cs, sp, i as int),
                content: content_of(cs, sp, i as int),
            });
        }
        i = i + 1;
        assert(chapters_view(chapters@) =~= split_spec(cs, sp).take(pre.len() + i));
    }
    assert(split_spec(cs, sp).take(pre.len() + n) =~= split_spec(cs, sp));
    chapters
}

} // verus!

verus! {

/// Declares `regex::Error`, the error of compiling a pattern.
#[verifier::external_type_specification]
#[verifier::external_body]
pub struct ExRegexError(regex::Error);

/// Whether `regex::Regex::new` accepts a pattern (it is valid syntax and
/// within the default size limits).
pub uninterp spec fn regex_pattern_valid(pattern: Seq<char>) -> bool;

/// The byte spans of the successive non-overlapping leftmost-first matches
/// of a pattern in a text, as `regex::Regex::find_iter` reports them.
pub uninterp spec fn regex_find_spans(pattern: Seq<char>, text: Seq<char>) -> Seq<(usize, usize)>;

/// Wraps `regex::Regex::new`, keeping only whether it succeeds: that
/// depends on the pattern alone, and that is all the contract says.
#[verifier::external_body]
fn check_pattern(pattern: &str) -> (r: Result<(), regex::Error>)
    ensures
        r is Ok <==> regex_pattern_valid(pattern@),
{
    regex::Regex::new(pattern).map(|_| ())
}

/// Wraps the `Display` of `regex::Error`: the error's message. Nothing is
/// said of its text.
#[verifier::external_body]
fn regex_error_message(e: &regex::Error) -> String {
    format!("{e}")
}

/// Wraps `regex::Regex::find_iter` on the pattern compiled by
/// `regex::Regex::new` (which accepts it, by the precondition), mapping each
/// match to its byte offsets. The spans are named; beside the name the
/// contract states what the regex crate documents of them: they come in
/// order, do not overlap, have `start <= end`, and fall on character
/// boundaries of the text.
#[verifier::external_body]
fn find_spans(pattern: &str, text: &str) -> (spans: Vec<(usize, usize)>)
    requires
        regex_pattern_valid(pattern@),
    ensures
        spans@ == regex_find_spans(pattern@, text@),
        spans_wf(text@, spans@),
{
    let re = regex::Regex::new(pattern).expect("pattern accepted by Regex::new");
    re.find_iter(text).map(|m| (m.start(), m.end())).collect()
}

/// Splits a novel at the chapter titles that a regular expression finds.
pub struct ChapterSplitter {
    pattern: String,
}

impl ChapterSplitter {
    /// The pattern of the chapter titles.
    pub closed spec fn pattern_spec(self) -> Seq<char> {
        self.pattern@
    }

    #[verifier::type_invariant]
    spec fn valid_pattern(self) -> bool {
        regex_pattern_valid(self.pattern@)
    }

    /// Accepts the chapter-title pattern; fails exactly when the regex crate
    /// rejects it.
    pub fn new(pattern: &str) -> (r: Result<ChapterSplitter, StoryorError>)
        ensures
            r is Ok <==> regex_pattern_valid(pattern@),
            r matches Ok(s) ==> s.pattern_spec() == pattern@,
            r matches Err(e) ==> e is Regex,
    {
        match check_pattern(pattern) {
            Ok(()) => Ok(ChapterSplitter { pattern: pattern.to_string() }),
            Err(e) => Err(StoryorError::Regex(regex_error_message(&e))),
        }
    }

    /// Splits `text` into chapters at the matches of the pattern (see
    /// [`split_at_spans`]).
    pub fn split(&self, text: &str) -> (chapters: Vec<Chapter>)
        ensures
            chapters_view(chapters@) == split_spec(text@, regex_find_spans(self.pattern_spec(), text@)),
    {
        proof {
            use_type_invariant(self);
        }
        let spans = find_spans(self.pattern.as_str(), text);
        split_at_spans(text, &spans)
    }
}

/// Splits a novel with the default chapter-title pattern (a line holding
/// 第, up to six numerals, and one of 章, 节, 回).
pub fn split_default(text: &str) -> (r: Result<Vec<Chapter>, StoryorError>)
    ensures
        r is Ok <==> regex_pattern_valid(crate::config::default_chapter_regex_spec()),
        r matches Ok(chapters) ==> chapters_view(chapters@) == split_spec(
            text@,
            regex_find_spans(crate::config::default_chapter_regex_spec(), text@),
        ),
{
    let pattern = crate::config::default_chapter_regex();
    let splitter = ChapterSplitter::new(pattern.as_str())?;
    Ok(splitter.split(text))
}

} // verus!
