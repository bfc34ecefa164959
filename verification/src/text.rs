//! Text utilities over `str` and `String` with specifications in terms of
//! their character views.

use vstd::prelude::*;
use vstd::string::StringSliceAdditionalSpecFns;

verus! {

/// Appends one character to a string.
///
/// Wraps `String::push`, which its documentation describes as appending the
/// given `char` to the end of the `String`.
#[verifier::external_body]
pub(crate) fn push_char(s: &mut String, c: char)
    ensures
        final(s)@ == old(s)@.push(c),
{
    s.push(c);
}

/// The decimal digit character for a value below ten.
pub open spec fn digit_char(d: nat) -> char {
    (('0' as u32) + d) as char
}

/// Decimal digits of `n`, most significant first, at least `width` of them
/// (padded with leading zeros).
pub open spec fn decimal_padded(n: nat, width: nat) -> Seq<char>
    decreases n, width,
{
    if n < 10 && width <= 1 {
        seq![digit_char(n)]
    } else {
        decimal_padded(n / 10, if width > 0 { (width - 1) as nat } else { 0 }).push(digit_char(n % 10))
    }
}

/// Formats `n` in decimal with at least `width` digits, padding with zeros
/// (the `{:0width$}` format of the standard library for unsigned numbers).
pub fn format_decimal_padded(n: usize, width: usize) -> (res: String)
    ensures
        res@ == decimal_padded(n as nat, width as nat),
    decreases n, width,
{
    if n < 10 && width <= 1 {
        let mut s = String::new();
        push_char(&mut s, char_of_digit(n as u32));
        s
    } else {
        let w = if width > 0 { width - 1 } else { 0 };
        let mut s = format_decimal_padded(n / 10, w);
        push_char(&mut s, char_of_digit((n % 10) as u32));
        s
    }
}

fn char_of_digit(d: u32) -> (c: char)
    requires
        d < 10,
    ensures
        c == digit_char(d as nat),
{
    match d {
        0 => '0',
        1 => '1',
        2 => '2',
        3 => '3',
        4 => '4',
        5 => '5',
        6 => '6',
        7 => '7',
        8 => '8',
        _ => '9',
    }
}

} // verus!

verus! {

/// The characters of a string slice, in order.
pub fn str_chars(s: &str) -> (v: Vec<char>)
    ensures
        v@ == s@,
{
    broadcast use vstd::string::group_string_axioms;
    let mut v: Vec<char> = Vec::new();
    for c in it: s.chars()
        invariant
            it.seq() == s@,
            v@ == it.seq().take(it.index() as int),
    {
        v.push(c);
    }
    v
}

} // verus!

verus! {

/// Whether a character has the Unicode `White_Space` property (the
/// characters for which `char::is_whitespace` holds): U+0009 to U+000D,
/// U+0020, U+0085, U+00A0, U+1680, U+2000 to U+200A, U+2028, U+2029, U+202F,
/// U+205F and U+3000.
pub open spec fn unicode_white_space(c: char) -> bool {
    let u = c as u32;
    ||| 0x09 <= u <= 0x0d
    ||| u == 0x20
    ||| u == 0x85
    ||| u == 0xa0
    ||| u == 0x1680
    ||| 0x2000 <= u <= 0x200a
    ||| u == 0x2028
    ||| u == 0x2029
    ||| u == 0x202f
    ||| u == 0x205f
    ||| u == 0x3000
}

/// Whether a character is white space (see [`unicode_white_space`]).
pub fn is_whitespace(c: char) -> (b: bool)
    ensures
        b == unicode_white_space(c),
{
    let u = c as u32;
    (0x09 <= u && u <= 0x0d) || u == 0x20 || u == 0x85 || u == 0xa0 || u == 0x1680 || (0x2000 <= u
        && u <= 0x200a) || u == 0x2028 || u == 0x2029 || u == 0x202f || u == 0x205f || u == 0x3000
}

/// Removes leading white space.
pub open spec fn trim_start_spec(cs: Seq<char>) -> Seq<char>
    decreases cs.len(),
{
    if cs.len() > 0 && unicode_white_space(cs[0]) {
        trim_start_spec(cs.drop_first())
    } else {
        cs
    }
}

/// Removes trailing white space.
pub open spec fn trim_end_spec(cs: Seq<char>) -> Seq<char>
    decreases cs.len(),
{
    if cs.len() > 0 && unicode_white_space(cs.last()) {
        trim_end_spec(cs.drop_last())
    } else {
        cs
    }
}

/// Removes leading and trailing white space (the behaviour of `str::trim`).
pub open spec fn trim_spec(cs: Seq<char>) -> Seq<char> {
    trim_end_spec(trim_start_spec(cs))
}

/// `t` is `s` with only white space removed at its two ends: a contiguous
/// part of `s` outside of which every character is white space.
pub open spec fn trimmed_from(t: Seq<char>, s: Seq<char>) -> bool {
    exists|a: int, b: int|
        #![trigger s.subrange(a, b)]
        0 <= a <= b <= s.len() && t == s.subrange(a, b) && (forall|j: int|
            0 <= j < a ==> unicode_white_space(#[trigger] s[j])) && (forall|j: int|
            b <= j < s.len() ==> unicode_white_space(#[trigger] s[j]))
}

proof fn lemma_trim_start_bound(s: Seq<char>) -> (a: int)
    ensures
        0 <= a <= s.len(),
        trim_start_spec(s) == s.skip(a),
        forall|j: int| 0 <= j < a ==> unicode_white_space(#[trigger] s[j]),
    decreases s.len(),
{
    if s.len() > 0 && unicode_white_space(s[0]) {
        let a0 = lemma_trim_start_bound(s.drop_first());
        assert(s.drop_first().skip(a0) =~= s.skip(a0 + 1));
        assert forall|j: int| 0 <= j < a0 + 1 implies unicode_white_space(#[trigger] s[j]) by {
            if j > 0 {
                assert(s[j] == s.drop_first()[j - 1]);
            }
        }
        a0 + 1
    } else {
        assert(s.skip(0) =~= s);
        0
    }
}

proof fn lemma_trim_end_bound(s: Seq<char>) -> (b: int)
    ensures
        0 <= b <= s.len(),
        trim_end_spec(s) == s.take(b),
        forall|j: int| b <= j < s.len() ==> unicode_white_space(#[trigger] s[j]),
    decreases s.len(),
{
    if s.len() > 0 && unicode_white_space(s.last()) {
        let b0 = lemma_trim_end_bound(s.drop_last());
        assert(s.drop_last().take(b0) =~= s.take(b0));
        assert forall|j: int| b0 <= j < s.len() implies unicode_white_space(#[trigger] s[j]) by {
            if j < s.len() - 1 {
                assert(s[j] == s.drop_last()[j]);
            }
        }
        b0
    } else {
        assert(s.take(s.len() as int) =~= s);
        s.len() as int
    }
}

/// Trimming removes white space at the two ends and nothing else.
pub proof fn lemma_trim_keeps_core(s: Seq<char>)
    ensures
        trimmed_from(trim_spec(s), s),
{
    let a = lemma_trim_start_bound(s);
    let t = s.skip(a);
    let b = lemma_trim_end_bound(t);
    assert(t.take(b) =~= s.subrange(a, a + b));
    assert forall|j: int| a + b <= j < s.len() implies unicode_white_space(#[trigger] s[j]) by {
        assert(s[j] == t[j - a]);
    }
    assert(trim_spec(s) == s.subrange(a, a + b));
}

/// Builds a `String` from a range of characters.
pub fn string_from_chars(cs: &Vec<char>, from: usize, to: usize) -> (s: String)
    requires
        from <= to <= cs@.len(),
    ensures
        s@ == cs@.subrange(from as int, to as int),
{
    let mut s = String::new();
    let mut i = from;
    while i < to
        invariant
            from <= i <= to <= cs@.len(),
            s@ == cs@.subrange(from as int, i as int),
        decreases to - i,
    {
        push_char(&mut s, cs[i]);
        i = i + 1;
        assert(s@ =~= cs@.subrange(from as int, i as int));
    }
    s
}

/// Finds the bounds `[a, b)` of the trimmed part of `cs`.
fn trim_bounds(cs: &Vec<char>) -> (r: (usize, usize))
    ensures
        r.0 <= r.1 <= cs@.len(),
        trim_spec(cs@) == cs@.subrange(r.0 as int, r.1 as int),
{
    let n = cs.len();
    let mut a: usize = 0;
    assert(cs@.subrange(0, n as int) =~= cs@);
    while a < n && is_whitespace(cs[a])
        invariant
            a <= n == cs@.len(),
            trim_start_spec(cs@) == trim_start_spec(cs@.subrange(a as int, n as int)),
        decreases n - a,
    {
        let ghost sub = cs@.subrange(a as int, n as int);
        assert(sub.drop_first() =~= cs@.subrange(a + 1, n as int));
        a = a + 1;
    }
    assert(trim_start_spec(cs@.subrange(a as int, n as int)) == cs@.subrange(a as int, n as int));
    let mut b: usize = n;
    while b > a && is_whitespace(cs[b - 1])
        invariant
            a <= b <= n == cs@.len(),
            trim_end_spec(cs@.subrange(a as int, n as int)) == trim_end_spec(
                cs@.subrange(a as int, b as int),
            ),
        decreases b - a,
    {
        let ghost sub = cs@.subrange(a as int, b as int);
        assert(sub.drop_last() =~= cs@.subrange(a as int, b - 1));
        b = b - 1;
    }
    (a, b)
}

/// `str::trim`, returned as an owned string.
pub fn trim_str(s: &str) -> (r: String)
    ensures
        r@ == trim_spec(s@),
{
    let cs = str_chars(s);
    let (a, b) = trim_bounds(&cs);
    string_from_chars(&cs, a, b)
}

} // verus!

verus! {

/// The UTF-8 bytes of a character sequence.
pub open spec fn utf8_of(cs: Seq<char>) -> Seq<u8> {
    vstd::utf8::encode_utf8(cs)
}

/// The characters encoded by a byte range of the UTF-8 encoding of `cs`.
pub open spec fn chars_in_bytes(cs: Seq<char>, a: int, b: int) -> Seq<char> {
    vstd::utf8::decode_utf8(utf8_of(cs).subrange(a, b))
}

/// Whether `i` is a character boundary of the UTF-8 encoding of `cs`.
pub open spec fn boundary(cs: Seq<char>, i: int) -> bool {
    vstd::utf8::is_char_boundary(utf8_of(cs), i)
}

/// A character boundary of a suffix, shifted.
proof fn lemma_boundary_in_suffix(bytes: Seq<u8>, a: int, b: int)
    requires
        vstd::utf8::valid_utf8(bytes),
        0 <= a <= b <= bytes.len(),
        vstd::utf8::is_char_boundary(bytes, a),
        vstd::utf8::is_char_boundary(bytes, b),
    ensures
        vstd::utf8::valid_utf8(bytes.subrange(a, bytes.len() as int)),
        vstd::utf8::is_char_boundary(bytes.subrange(a, bytes.len() as int), b - a),
{
    broadcast use vstd::utf8::group_utf8_lib;

    let s = bytes.subrange(a, bytes.len() as int);
    assert(vstd::utf8::valid_utf8(s));
    if b == bytes.len() {
        assert(s.len() == b - a);
        vstd::utf8::is_char_boundary_start_end_of_seq(s);
    } else if b == a {
    } else {
        assert(s[b - a] == bytes[b]);
        vstd::utf8::is_char_boundary_iff_not_is_continuation_byte(s, b - a);
        vstd::utf8::is_char_boundary_iff_not_is_continuation_byte(bytes, b);
    }
}

/// Every position of an ASCII byte is a character boundary, and so is the
/// position right after it.
pub proof fn lemma_ascii_boundaries(bytes: Seq<u8>, k: int)
    requires
        vstd::utf8::valid_utf8(bytes),
        0 <= k < bytes.len(),
        bytes[k] <= 0x7f,
    ensures
        vstd::utf8::is_char_boundary(bytes, k),
        vstd::utf8::is_char_boundary(bytes, k + 1),
{
    broadcast use vstd::utf8::group_utf8_lib;

    vstd::utf8::is_char_boundary_iff_not_is_continuation_byte(bytes, k);
    if k + 1 == bytes.len() {
        vstd::utf8::is_char_boundary_start_end_of_seq(bytes);
    } else {
        let s = bytes.subrange(k, bytes.len() as int);
        assert(vstd::utf8::valid_utf8(s));
        assert(s[0] == bytes[k]);
        let rest = vstd::utf8::pop_first_scalar(s);
        assert(rest =~= bytes.subrange(k + 1, bytes.len() as int));
        assert(vstd::utf8::valid_utf8(rest));
        assert(rest.len() > 0);
        assert(vstd::utf8::valid_first_scalar(rest));
        assert(rest[0] == bytes[k + 1]);
        vstd::utf8::is_char_boundary_iff_not_is_continuation_byte(bytes, k + 1);
    }
}

/// The sub-slice of `text` between two byte offsets that are character
/// boundaries.
pub fn slice_str(text: &str, a: usize, b: usize) -> (r: &str)
    requires
        a <= b <= utf8_of(text@).len(),
        boundary(text@, a as int),
        boundary(text@, b as int),
    ensures
        r@ == chars_in_bytes(text@, a as int, b as int),
{
    broadcast use vstd::utf8::group_utf8_lib;

    let ghost bytes = utf8_of(text@);
    proof {
        lemma_boundary_in_suffix(bytes, a as int, b as int);
    }
    let (_, rest) = text.split_at(a);
    assert(rest.spec_bytes() =~= bytes.subrange(a as int, bytes.len() as int));
    let (mid, _) = rest.split_at(b - a);
    assert(mid.spec_bytes() =~= bytes.subrange(a as int, b as int));
    proof {
        vstd::utf8::encode_utf8_decode_utf8(mid@);
    }
    mid
}

} // verus!

verus! {

/// Whether `needle` occurs in `hay` starting at position `i`.
pub open spec fn occurs_at(hay: Seq<char>, needle: Seq<char>, i: int) -> bool {
    0 <= i && i + needle.len() <= hay.len() && hay.subrange(i, i + needle.len()) == needle
}

/// Whether `needle` occurs somewhere in `hay`.
pub open spec fn contains_spec(hay: Seq<char>, needle: Seq<char>) -> bool {
    exists|i: int| occurs_at(hay, needle, i)
}

/// Whether `needle` occurs in `hay` at position `i` (executable).
pub fn chars_occur_at(hay: &Vec<char>, needle: &Vec<char>, i: usize) -> (b: bool)
    ensures
        b == occurs_at(hay@, needle@, i as int),
{
    if i > hay.len() || needle.len() > hay.len() - i {
        return false;
    }
    let mut k: usize = 0;
    while k < needle.len()
        invariant
            i + needle@.len() <= hay@.len(),
            hay@.len() <= usize::MAX,
            k <= needle@.len(),
            forall|j: int| 0 <= j < k ==> hay@[i + j] == needle@[j],
        decreases needle@.len() - k,
    {
        if hay[i + k] != needle[k] {
            assert(hay@.subrange(i as int, i + needle@.len())[k as int] != needle@[k as int]);
            return false;
        }
        k = k + 1;
    }
    assert(hay@.subrange(i as int, i + needle@.len()) =~= needle@);
    true
}

/// The first position at or after `from` where `needle` occurs in `hay`.
pub fn find_chars_from(hay: &Vec<char>, needle: &Vec<char>, from: usize) -> (r: Option<usize>)
    ensures
        match r {
            Some(i) => from <= i && occurs_at(hay@, needle@, i as int) && forall|j: int|
                from <= j < i ==> !occurs_at(hay@, needle@, j),
            None => forall|j: int| from <= j ==> !occurs_at(hay@, needle@, j),
        },
{
    if from > hay.len() {
        return None;
    }
    let mut i = from;
    loop
        invariant
            from <= i <= hay@.len(),
            forall|j: int| from <= j < i ==> !occurs_at(hay@, needle@, j),
        decreases hay@.len() - i,
    {
        if chars_occur_at(hay, needle, i) {
            return Some(i);
        }
        if i == hay.len() {
            return None;
        }
        i = i + 1;
    }
}

/// Whether `needle` occurs in `hay` (the behaviour of `str::contains`).
pub fn str_contains(hay: &str, needle: &str) -> (b: bool)
    ensures
        b == contains_spec(hay@, needle@),
{
    let h = str_chars(hay);
    let n = str_chars(needle);
    match find_chars_from(&h, &n, 0) {
        Some(_) => true,
        None => false,
    }
}

} // verus!

verus! {

/// Lexicographic order of character sequences by code point (which is the
/// order of `String`'s `Ord`, as UTF-8 preserves code-point order).
pub open spec fn seq_lt(a: Seq<char>, b: Seq<char>) -> bool
    decreases a.len(),
{
    if a.len() == 0 {
        b.len() > 0
    } else if b.len() == 0 {
        false
    } else if a[0] != b[0] {
        (a[0] as u32) < (b[0] as u32)
    } else {
        seq_lt(a.drop_first(), b.drop_first())
    }
}

/// `seq_lt` is irreflexive.
pub proof fn lemma_seq_lt_irreflexive(a: Seq<char>)
    ensures
        !seq_lt(a, a),
    decreases a.len(),
{
    if a.len() > 0 {
        lemma_seq_lt_irreflexive(a.drop_first());
    }
}

/// `seq_lt` is transitive.
pub proof fn lemma_seq_lt_transitive(a: Seq<char>, b: Seq<char>, c: Seq<char>)
    requires
        seq_lt(a, b),
        seq_lt(b, c),
    ensures
        seq_lt(a, c),
    decreases a.len(),
{
    vstd::utf8::char_u32_cast(a.first(), a.first() as u32);
    if a.len() > 0 && b.len() > 0 && c.len() > 0 && a[0] == b[0] && b[0] == c[0] {
        lemma_seq_lt_transitive(a.drop_first(), b.drop_first(), c.drop_first());
    } else if a.len() > 0 && b.len() > 0 && c.len() > 0 {
        if a[0] == c[0] {
            vstd::utf8::char_u32_cast(a[0], a[0] as u32);
            vstd::utf8::char_u32_cast(b[0], b[0] as u32);
            vstd::utf8::char_u32_cast(c[0], c[0] as u32);
        }
    }
}

/// Two different sequences are ordered one way or the other.
pub proof fn lemma_seq_lt_total(a: Seq<char>, b: Seq<char>)
    ensures
        a == b || seq_lt(a, b) || seq_lt(b, a),
    decreases a.len(),
{
    if a.len() > 0 && b.len() > 0 {
        if a[0] == b[0] {
            lemma_seq_lt_total(a.drop_first(), b.drop_first());
            if a.drop_first() == b.drop_first() {
                assert(a =~= seq![a[0]] + a.drop_first());
                assert(b =~= seq![b[0]] + b.drop_first());
            }
        } else {
            vstd::utf8::char_u32_cast(a[0], a[0] as u32);
            vstd::utf8::char_u32_cast(b[0], b[0] as u32);
        }
    } else if a.len() == 0 && b.len() == 0 {
        assert(a =~= b);
    }
}

/// Whether `a` comes strictly before `b` in code-point order.
pub fn chars_lt(a: &Vec<char>, b: &Vec<char>) -> (r: bool)
    ensures
        r == seq_lt(a@, b@),
{
    let mut k: usize = 0;
    assert(a@.skip(0) =~= a@);
    assert(b@.skip(0) =~= b@);
    while k < a.len() && k < b.len() && a[k] == b[k]
        invariant
            k <= a@.len(),
            k <= b@.len(),
            seq_lt(a@, b@) == seq_lt(a@.skip(k as int), b@.skip(k as int)),
        decreases a@.len() - k,
    {
        proof {
            let sa = a@.skip(k as int);
            let sb = b@.skip(k as int);
            assert(sa.drop_first() =~= a@.skip(k + 1));
            assert(sb.drop_first() =~= b@.skip(k + 1));
        }
        k = k + 1;
    }
    if k == a.len() {
        k < b.len()
    } else if k == b.len() {
        false
    } else {
        (a[k] as u32) < (b[k] as u32)
    }
}

} // verus!

verus! {

/// Whether two string slices hold the same characters.
pub fn str_eq(a: &str, b: &str) -> (r: bool)
    ensures
        r == (a@ == b@),
{
    a.to_owned() == b.to_owned()
}

} // verus!

verus! {

/// Joining a path segment onto a path, as `Path::join` does with `/` as the
/// separator: an absolute segment replaces the path; otherwise a separator
/// is put between them unless the path is empty or already ends in one.
pub open spec fn join_path_spec(base: Seq<char>, seg: Seq<char>) -> Seq<char> {
    if seg.len() > 0 && seg[0] == '/' {
        seg
    } else if base.len() == 0 {
        seg
    } else if base.last() == '/' {
        base + seg
    } else {
        base + "/"@ + seg
    }
}

/// Joins a path segment onto a path (see [`join_path_spec`]).
pub fn join_path(base: &str, seg: &str) -> (r: String)
    ensures
        r@ == join_path_spec(base@, seg@),
{
    proof {
        reveal_strlit("/");
    }
    let b = str_chars(base);
    let s = str_chars(seg);
    if s.len() > 0 && s[0] == '/' {
        return seg.to_owned();
    }
    if b.len() == 0 {
        return seg.to_owned();
    }
    let mut r = base.to_owned();
    if b[b.len() - 1] != '/' {
        r.append("/");
    }
    r.append(seg);
    r
}

} // verus!

verus! {

/// `s` with every occurrence of `pat` replaced by `rep`, scanning from the
/// left and not reusing replaced text (the behaviour of `str::replace` for a
/// non-empty pattern).
pub open spec fn replace_spec(s: Seq<char>, pat: Seq<char>, rep: Seq<char>) -> Seq<char>
    decreases s.len(),
{
    if pat.len() == 0 || s.len() < pat.len() {
        s
    } else if s.take(pat.len() as int) == pat {
        rep + replace_spec(s.skip(pat.len() as int), pat, rep)
    } else {
        seq![s[0]] + replace_spec(s.drop_first(), pat, rep)
    }
}

/// Replaces every occurrence of a non-empty pattern (see [`replace_spec`]).
pub fn replace_all(s: &str, pat: &str, rep: &str) -> (r: String)
    requires
        pat@.len() > 0,
    ensures
        r@ == replace_spec(s@, pat@, rep@),
{
    let cs = str_chars(s);
    let p = str_chars(pat);
    let n = cs.len();
    let mut out = String::new();
    let mut i: usize = 0;
    assert(cs@.skip(0) =~= cs@);
    while i < n
        invariant
            n == cs@.len(),
            cs@ == s@,
            p@ == pat@,
            p@.len() > 0,
            i <= n,
            out@ + replace_spec(cs@.skip(i as int), p@, rep@) == replace_spec(cs@, p@, rep@),
        decreases n - i,
    {
        let ghost rest = cs@.skip(i as int);
        if chars_occur_at(&cs, &p, i) {
            proof {
                assert(rest.take(p@.len() as int) =~= cs@.subrange(i as int, i + p@.len()));
                assert(rest.skip(p@.len() as int) =~= cs@.skip(i + p@.len()));
                assert((out@ + rep@) + replace_spec(cs@.skip(i + p@.len()), p@, rep@) =~= out@
                    + (rep@ + replace_spec(rest.skip(p@.len() as int), p@, rep@)));
            }
            out.append(rep);
            i = i + p.len();
        } else {
            proof {
                if rest.len() >= p@.len() {
                    assert(rest.take(p@.len() as int) =~= cs@.subrange(i as int, i + p@.len()));
                } else {
                    assert(rest.drop_first().len() < p@.len());
                    assert(replace_spec(rest.drop_first(), p@, rep@) == rest.drop_first());
                    assert(seq![rest[0]] + rest.drop_first() =~= rest);
                }
                assert(rest.drop_first() =~= cs@.skip(i + 1));
                assert(out@.push(cs@[i as int]) + replace_spec(cs@.skip(i + 1), p@, rep@) =~= out@
                    + (seq![rest[0]] + replace_spec(rest.drop_first(), p@, rep@)));
            }
            push_char(&mut out, cs[i]);
            i = i + 1;
        }
    }
    assert(cs@.skip(n as int) =~= Seq::<char>::empty());
    assert(out@ + Seq::<char>::empty() =~= out@);
    out
}

/// `s` without repeated trailing copies of a non-empty `p` (the behaviour
/// of `str::trim_end_matches` for a string pattern).
pub open spec fn trim_end_matches_spec(s: Seq<char>, p: Seq<char>) -> Seq<char>
    decreases s.len(),
{
    if p.len() > 0 && s.len() >= p.len() && s.skip(s.len() - p.len()) == p {
        trim_end_matches_spec(s.take(s.len() - p.len()), p)
    } else {
        s
    }
}

/// Whether `s` starts with `p`.
pub open spec fn starts_with_spec(s: Seq<char>, p: Seq<char>) -> bool {
    p.len() <= s.len() && s.take(p.len() as int) == p
}

/// Removes repeated trailing copies of a non-empty pattern from a range of
/// characters; returns the end of what remains.
fn trim_end_matches_end(cs: &Vec<char>, from: usize, p: &Vec<char>) -> (end: usize)
    requires
        from <= cs@.len(),
        p@.len() > 0,
    ensures
        from <= end <= cs@.len(),
        cs@.subrange(from as int, end as int) == trim_end_matches_spec(
            cs@.subrange(from as int, cs@.len() as int),
            p@,
        ),
{
    let mut end = cs.len();
    loop
        invariant
            from <= end <= cs@.len(),
            p@.len() > 0,
            trim_end_matches_spec(cs@.subrange(from as int, cs@.len() as int), p@)
                == trim_end_matches_spec(cs@.subrange(from as int, end as int), p@),
        decreases end,
    {
        let ghost t = cs@.subrange(from as int, end as int);
        if end - from >= p.len() && chars_occur_at(cs, p, end - p.len()) {
            assert(t.skip(t.len() - p@.len()) =~= cs@.subrange(end - p@.len(), end as int));
            assert(t.take(t.len() - p@.len()) =~= cs@.subrange(from as int, end - p@.len()));
            end = end - p.len();
        } else {
            proof {
                if t.len() >= p@.len() {
                    assert(t.skip(t.len() - p@.len()) =~= cs@.subrange(end - p@.len(), end as int));
                }
            }
            return end;
        }
    }
}

/// The text inside a Markdown code fence, if the (trimmed) text is fenced as
/// ```` ```json ```` or ```` ``` ````: the rest after the opening fence,
/// without trailing fences, trimmed. Other text is only trimmed.
pub open spec fn strip_code_fence_spec(text: Seq<char>) -> Seq<char> {
    let t = trim_spec(text);
    if starts_with_spec(t, "```json"@) {
        trim_spec(trim_end_matches_spec(t.skip(7), "```"@))
    } else if starts_with_spec(t, "```"@) {
        trim_spec(trim_end_matches_spec(t.skip(3), "```"@))
    } else {
        t
    }
}

/// Strips a Markdown code fence from a model's JSON answer (see
/// [`strip_code_fence_spec`]).
pub fn strip_code_fence(text: &str) -> (r: String)
    ensures
        r@ == strip_code_fence_spec(text@),
{
    proof {
        reveal_strlit("```json");
        reveal_strlit("```");
    }
    let t = trim_str(text);
    let cs = str_chars(t.as_str());
    let fence_json = str_chars("```json");
    let fence = str_chars("```");
    let start: usize = if chars_occur_at(&cs, &fence_json, 0) {
        assert(cs@.subrange(0, 7) =~= cs@.take(7));
        7
    } else if chars_occur_at(&cs, &fence, 0) {
        assert(cs@.subrange(0, 3) =~= cs@.take(3));
        proof {
            if starts_with_spec(cs@, "```json"@) {
                assert(cs@.subrange(0, 7) =~= cs@.take(7));
            }
        }
        3
    } else {
        proof {
            if starts_with_spec(cs@, "```json"@) {
                assert(cs@.subrange(0, 7) =~= cs@.take(7));
            }
            if starts_with_spec(cs@, "```"@) {
                assert(cs@.subrange(0, 3) =~= cs@.take(3));
            }
        }
        return t;
    };
    let end = trim_end_matches_end(&cs, start, &fence);
    assert(cs@.subrange(start as int, cs@.len() as int) =~= cs@.skip(start as int));
    let inner = string_from_chars(&cs, start, end);
    trim_str(inner.as_str())
}

/// Joins strings with a separator.
pub open spec fn join_spec(parts: Seq<Seq<char>>, sep: Seq<char>) -> Seq<char>
    decreases parts.len(),
{
    if parts.len() == 0 {
        Seq::empty()
    } else if parts.len() == 1 {
        parts[0]
    } else {
        join_spec(parts.drop_last(), sep) + sep + parts.last()
    }
}

} // verus!
