//! The request URL, the messages of failed requests, and reading the lines
//! of a server-sent event stream.

use vstd::prelude::*;

use crate::llm::types::OpenAiErrorBody;
use crate::text::{push_char, str_chars, trim_spec, trim_str};

verus! {

/// The default API base URL.
pub open spec fn openai_default_base_url_spec() -> Seq<char> {
    "https://api.openai.com/v1"@
}

/// The default API base URL.
pub fn openai_default_base_url() -> (s: String)
    ensures
        s@ == openai_default_base_url_spec(),
{
    "https://api.openai.com/v1".to_owned()
}

/// The base URL a client talks to: the configured one, or the default.
pub fn resolve_base_url(base_url: &Option<String>) -> (u: String)
    ensures
        u@ == (match base_url {
            Some(b) => b@,
            None => openai_default_base_url_spec(),
        }),
{
    match base_url {
        Some(b) => b.clone(),
        None => openai_default_base_url(),
    }
}

/// `cs` without its trailing `/` characters.
pub open spec fn trim_trailing_slashes(cs: Seq<char>) -> Seq<char>
    decreases cs.len(),
{
    if cs.len() > 0 && cs.last() == '/' {
        trim_trailing_slashes(cs.drop_last())
    } else {
        cs
    }
}

/// The chat-completions endpoint under a base URL.
pub open spec fn chat_url_spec(base_url: Seq<char>) -> Seq<char> {
    trim_trailing_slashes(base_url) + "/chat/completions"@
}

/// The chat-completions endpoint under `base_url`: the base without
/// trailing slashes, then `/chat/completions`.
pub fn chat_url(base_url: &str) -> (u: String)
    ensures
        u@ == chat_url_spec(base_url@),
{
    let cs = str_chars(base_url);
    let mut n = cs.len();
    assert(cs@.take(n as int) =~= cs@);
    while n > 0 && cs[n - 1] == '/'
        invariant
            n <= cs@.len(),
            trim_trailing_slashes(cs@) == trim_trailing_slashes(cs@.take(n as int)),
        decreases n,
    {
        assert(cs@.take(n as int).drop_last() =~= cs@.take(n - 1));
        n = n - 1;
    }
    let mut u = crate::text::string_from_chars(&cs, 0, n);
    assert(cs@.subrange(0, n as int) =~= cs@.take(n as int));
    u.append("/chat/completions");
    u
}

/// At most the first `n` characters of `cs`.
pub open spec fn take_chars(cs: Seq<char>, n: nat) -> Seq<char> {
    if cs.len() <= n {
        cs
    } else {
        cs.take(n as int)
    }
}

/// At most the first `n` characters of `text`.
pub fn truncate_chars(text: &str, n: usize) -> (r: String)
    ensures
        r@ == take_chars(text@, n as nat),
{
    let cs = str_chars(text);
    let end = if cs.len() <= n {
        cs.len()
    } else {
        n
    };
    let r = crate::text::string_from_chars(&cs, 0, end);
    assert(cs@.subrange(0, end as int) =~= take_chars(text@, n as nat));
    r
}

/// The message that reports a failed request: the `error.message` of the
/// body when the body is an error body, else the body's first 500
/// characters.
pub open spec fn failure_message_spec(parsed: Option<OpenAiErrorBody>, body: Seq<char>) -> Seq<char> {
    match parsed {
        Some(b) => b.error.message@,
        None => take_chars(body, 500),
    }
}

/// The message that reports a failed request (see
/// [`failure_message_spec`]); `parsed` is the body read as an error body.
pub fn failure_message(parsed: Option<OpenAiErrorBody>, body: &str) -> (m: String)
    ensures
        m@ == failure_message_spec(parsed, body@),
{
    match parsed {
        Some(b) => b.error.message,
        None => truncate_chars(body, 500),
    }
}

/// What one line of an event stream means.
#[derive(Debug, Clone)]
pub enum SseLine {
    /// A blank line or one that is not a data line.
    Skip,
    /// The end of the stream (`data: [DONE]`).
    Done,
    /// A data line's payload, trimmed.
    Data(String),
}

/// Whether `cs` starts with `p`.
pub open spec fn starts_with(cs: Seq<char>, p: Seq<char>) -> bool {
    p.len() <= cs.len() && cs.take(p.len() as int) == p
}

/// The meaning of a (trimmed) event-stream line.
pub open spec fn sse_line_spec(line: Seq<char>) -> SseLineView {
    if starts_with(line, "data: "@) {
        let data = trim_spec(line.skip(6));
        if data == "[DONE]"@ {
            SseLineView::Done
        } else {
            SseLineView::Data(data)
        }
    } else {
        SseLineView::Skip
    }
}

/// The value of an [`SseLine`].
pub enum SseLineView {
    Skip,
    Done,
    Data(Seq<char>),
}

impl View for SseLine {
    type V = SseLineView;

    open spec fn view(&self) -> SseLineView {
        match self {
            SseLine::Skip => SseLineView::Skip,
            SseLine::Done => SseLineView::Done,
            SseLine::Data(s) => SseLineView::Data(s@),
        }
    }
}

/// Classifies a trimmed event-stream line (see [`sse_line_spec`]).
pub fn classify_sse_line(line: &str) -> (r: SseLine)
    ensures
        r@ == sse_line_spec(line@),
{
    proof {
        reveal_strlit("data: ");
    }
    let cs = str_chars(line);
    let prefix = str_chars("data: ");
    if !crate::text::chars_occur_at(&cs, &prefix, 0) {
        assert(!starts_with(line@, "data: "@)) by {
            if starts_with(line@, "data: "@) {
                assert(line@.subrange(0, 6) =~= line@.take(6));
            }
        }
        return SseLine::Skip;
    }
    assert(line@.subrange(0, 6) =~= line@.take(6));
    let rest = crate::text::string_from_chars(&cs, 6, cs.len());
    assert(cs@.subrange(6, cs@.len() as int) =~= line@.skip(6));
    let data = trim_str(rest.as_str());
    if crate::text::str_eq(data.as_str(), "[DONE]") {
        SseLine::Done
    } else {
        SseLine::Data(data)
    }
}

/// What the JSON payload of a streamed event holds at
/// `choices[0].delta.content`: `None` when the payload is not JSON,
/// `Some(None)` when it is JSON without a string there, `Some(Some(text))`
/// otherwise.
pub uninterp spec fn json_delta_content(data: Seq<char>) -> Option<Option<Seq<char>>>;

/// Wraps `serde_json::from_str::<serde_json::Value>` and the lookup of
/// `choices[0].delta.content` (`Value::get`, then `Value::as_str`) in the
/// parsed value. The result is named; a parse error carries the parser's
/// message, whose text is not stated.
#[verifier::external_body]
fn parse_delta_content(data: &str) -> (r: Result<Option<String>, String>)
    ensures
        match r {
            Ok(Some(t)) => json_delta_content(data@) == Some(Some(t@)),
            Ok(None) => json_delta_content(data@) == Some(None::<Seq<char>>),
            Err(_) => json_delta_content(data@) is None,
        },
{
    match serde_json::from_str::<serde_json::Value>(data) {
        Ok(v) => Ok(v.get("choices").and_then(|c| c.get(0)).and_then(|c| c.get("delta")).and_then(
            |d| d.get("content"),
        ).and_then(|c| c.as_str()).map(|t| t.to_string())),
        Err(e) => Err(e.to_string()),
    }
}

/// What a streamed answer does with one (trimmed) event line.
#[derive(Debug, Clone)]
pub enum SseStep {
    /// Nothing to hand on: not a data line, or no (or an empty) delta.
    Skip,
    /// The stream is over.
    Done,
    /// A piece of the answer.
    Yield(String),
    /// The payload is not JSON; the parser's message.
    Fail(String),
}

/// One event line of a streamed answer: data lines are parsed, their
/// non-empty `choices[0].delta.content` handed on, a payload that is not
/// JSON ends the stream with an error, and `[DONE]` ends it.
pub fn sse_step(line: &str) -> (s: SseStep)
    ensures
        match sse_line_spec(line@) {
            SseLineView::Skip => s is Skip,
            SseLineView::Done => s is Done,
            SseLineView::Data(d) => match json_delta_content(d) {
                None => s is Fail,
                Some(None) => s is Skip,
                Some(Some(c)) => if c.len() == 0 {
                    s is Skip
                } else {
                    s matches SseStep::Yield(t) && t@ == c
                },
            },
        },
{
    match classify_sse_line(line) {
        SseLine::Skip => SseStep::Skip,
        SseLine::Done => SseStep::Done,
        SseLine::Data(d) => match parse_delta_content(d.as_str()) {
            Err(msg) => SseStep::Fail(msg),
            Ok(None) => SseStep::Skip,
            Ok(Some(t)) => {
                if t.unicode_len() == 0 {
                    SseStep::Skip
                } else {
                    SseStep::Yield(t)
                }
            },
        },
    }
}

/// The text received from an event stream that does not yet form a whole
/// line.
pub struct SseBuffer {
    buf: Vec<char>,
}

/// The position of the first newline of `cs`, if any.
pub open spec fn first_newline(cs: Seq<char>) -> Option<int> {
    if exists|i: int| 0 <= i < cs.len() && cs[i] == '\n' {
        Some(choose|i: int| 0 <= i < cs.len() && cs[i] == '\n' && forall|j: int| 0 <= j < i ==> cs[j] != '\n')
    } else {
        None
    }
}

impl View for SseBuffer {
    type V = Seq<char>;

    closed spec fn view(&self) -> Seq<char> {
        self.buf@
    }
}

impl SseBuffer {
    /// An empty buffer.
    pub fn new() -> (b: SseBuffer)
        ensures
            b@ == Seq::<char>::empty(),
    {
        SseBuffer { buf: Vec::new() }
    }

    /// Appends received text.
    pub fn push_str(&mut self, chunk: &str)
        ensures
            final(self)@ == old(self)@ + chunk@,
    {
        let cs = str_chars(chunk);
        let mut i: usize = 0;
        let ghost start = self.buf@;
        while i < cs.len()
            invariant
                i <= cs@.len(),
                self.buf@ == start + cs@.take(i as int),
            decreases cs@.len() - i,
        {
            self.buf.push(cs[i]);
            assert(start + cs@.take(i + 1) =~= (start + cs@.take(i as int)).push(cs@[i as int]));
            i = i + 1;
        }
        assert(cs@.take(i as int) =~= chunk@);
    }

    /// Takes the first whole line out of the buffer, trimmed; `None` while
    /// no newline has arrived.
    pub fn next_line(&mut self) -> (r: Option<String>)
        ensures
            match first_newline(old(self)@) {
                Some(p) => {
                    &&& r matches Some(line) && line@ == trim_spec(old(self)@.take(p + 1))
                    &&& final(self)@ == old(self)@.skip(p + 1)
                },
                None => r is None && final(self)@ == old(self)@,
            },
    {
        let mut p: usize = 0;
        while p < self.buf.len() && self.buf[p] != '\n'
            invariant
                p <= self.buf@.len(),
                forall|j: int| 0 <= j < p ==> self.buf@[j] != '\n',
            decreases self.buf@.len() - p,
        {
            p = p + 1;
        }
        if p == self.buf.len() {
            return None;
        }
        let ghost cs = self.buf@;
        assert(first_newline(cs) == Some(p as int)) by {
            let q = choose|i: int| 0 <= i < cs.len() && cs[i] == '\n' && forall|j: int| 0 <= j < i ==> cs[j] != '\n';
            assert(cs[p as int] == '\n');
            assert(!(q < p) && !(q > p));
        }
        let line = crate::text::string_from_chars(&self.buf, 0, p + 1);
        let trimmed = trim_str(line.as_str());
        let rest_str = crate::text::string_from_chars(&self.buf, p + 1, self.buf.len());
        self.buf = str_chars(rest_str.as_str());
        assert(cs.subrange(0, p + 1) =~= cs.take(p + 1));
        assert(cs.subrange(p + 1, cs.len() as int) =~= cs.skip(p + 1));
        Some(trimmed)
    }
}

} // verus!
