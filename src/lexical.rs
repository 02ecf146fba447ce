//! Lexical atoms of the filter grammar: character classes, maximal runs of a
//! class, fixed keywords and decimal numbers, over a text held as characters.
//! Each recognizer starts at a position and either yields the position where
//! it stopped or fails without having consumed anything.

use vstd::prelude::*;
use vstd::string::StrSliceExecFns;

verus! {

/// What `char::is_alphabetic` answers: whether the character has Unicode's
/// Alphabetic property.
pub uninterp spec fn alphabetic(c: char) -> bool;

/// Relies on `char::is_alphabetic`, whose answer depends on the character alone.
#[verifier::external_body]
fn is_alphabetic(c: char) -> (r: bool)
    ensures
        r == alphabetic(c),
{
    c.is_alphabetic()
}

/// The classes of characters that the grammar reads in runs.
#[derive(Debug, Clone, Copy, PartialEq, Eq, Structural)]
pub enum CharClass {
    /// Unicode letters.
    Alpha,
    /// ASCII digits.
    Digit,
    /// Spaces and tabs.
    Space,
    /// Spaces, tabs, carriage returns and line feeds.
    MultiSpace,
    /// ASCII digits and dots.
    DigitOrDot,
    /// ASCII digits and dashes.
    DigitOrDash,
}

pub open spec fn is_digit(c: char) -> bool {
    '0' <= c <= '9'
}

pub open spec fn is_space(c: char) -> bool {
    c == ' ' || c == '\t'
}

pub open spec fn is_multispace(c: char) -> bool {
    c == ' ' || c == '\t' || c == '\r' || c == '\n'
}

pub open spec fn in_class(cls: CharClass, c: char) -> bool {
    match cls {
        CharClass::Alpha => alphabetic(c),
        CharClass::Digit => is_digit(c),
        CharClass::Space => is_space(c),
        CharClass::MultiSpace => is_multispace(c),
        CharClass::DigitOrDot => is_digit(c) || c == '.',
        CharClass::DigitOrDash => is_digit(c) || c == '-',
    }
}

/// The end of the longest run of `cls` characters in `s` that starts at `p`.
pub open spec fn span_end(s: Seq<char>, p: int, cls: CharClass) -> int
    decreases s.len() - p,
{
    if 0 <= p < s.len() && in_class(cls, s[p]) {
        span_end(s, p + 1, cls)
    } else {
        p
    }
}

/// Where the keyword `t` ends when `s` holds it at `p`.
pub open spec fn tag_end(s: Seq<char>, p: int, t: Seq<char>) -> Option<int> {
    if 0 <= p && p + t.len() <= s.len() && s.subrange(p, p + t.len()) == t {
        Some(p + t.len())
    } else {
        None
    }
}

pub open spec fn digit_value(c: char) -> int {
    c as int - '0' as int
}

/// The value of a string of decimal digits.
pub open spec fn digits_value(ds: Seq<char>) -> int
    decreases ds.len(),
{
    if ds.len() == 0 {
        0
    } else {
        digits_value(ds.drop_last()) * 10 + digit_value(ds.last())
    }
}

/// A decimal number at `p`: the longest run of digits there, when there is
/// at least one and its value fits in a `u32`; with the position after it.
pub open spec fn number_at(s: Seq<char>, p: int) -> Option<(u32, int)> {
    let q = span_end(s, p, CharClass::Digit);
    if q == p || digits_value(s.subrange(p, q)) > u32::MAX {
        None
    } else {
        Some((digits_value(s.subrange(p, q)) as u32, q))
    }
}

/// A result with its end position widened to a mathematical integer.
pub open spec fn at_int<T>(r: Option<(T, usize)>) -> Option<(T, int)> {
    match r {
        Some((v, e)) => Some((v, e as int)),
        None => None,
    }
}

/// A position widened to a mathematical integer.
pub open spec fn pos_int(r: Option<usize>) -> Option<int> {
    match r {
        Some(e) => Some(e as int),
        None => None,
    }
}

pub proof fn lemma_span_end_bounds(s: Seq<char>, p: int, cls: CharClass)
    requires
        0 <= p <= s.len(),
    ensures
        p <= span_end(s, p, cls) <= s.len(),
    decreases s.len() - p,
{
    if p < s.len() && in_class(cls, s[p]) {
        lemma_span_end_bounds(s, p + 1, cls);
    }
}

/// A run ends where its class stops.
pub proof fn lemma_span_end_exact(s: Seq<char>, p: int, q: int, cls: CharClass)
    requires
        0 <= p <= q <= s.len(),
        forall|k: int| p <= k < q ==> in_class(cls, #[trigger] s[k]),
        q == s.len() || !in_class(cls, s[q]),
    ensures
        span_end(s, p, cls) == q,
    decreases q - p,
{
    if p < q {
        lemma_span_end_exact(s, p + 1, q, cls);
    }
}

/// A run that reaches the end of the text covers all of it.
pub proof fn lemma_span_whole(s: Seq<char>, p: int, cls: CharClass)
    requires
        0 <= p <= s.len(),
        forall|k: int| p <= k < s.len() ==> in_class(cls, #[trigger] s[k]),
    ensures
        span_end(s, p, cls) == s.len(),
    decreases s.len() - p,
{
    if p < s.len() {
        lemma_span_whole(s, p + 1, cls);
    }
}

/// Whether `c` belongs to `cls`.
pub fn char_in_class(c: char, cls: CharClass) -> (r: bool)
    ensures
        r == in_class(cls, c),
{
    match cls {
        CharClass::Alpha => is_alphabetic(c),
        CharClass::Digit => '0' <= c && c <= '9',
        CharClass::Space => c == ' ' || c == '\t',
        CharClass::MultiSpace => c == ' ' || c == '\t' || c == '\r' || c == '\n',
        CharClass::DigitOrDot => ('0' <= c && c <= '9') || c == '.',
        CharClass::DigitOrDash => ('0' <= c && c <= '9') || c == '-',
    }
}

/// The end of the longest run of `cls` characters starting at `p`.
pub fn span(s: &Vec<char>, p: usize, cls: CharClass) -> (r: usize)
    requires
        p <= s.len(),
    ensures
        r == span_end(s@, p as int, cls),
        p <= r <= s.len(),
{
    let mut i = p;
    while i < s.len() && char_in_class(s[i], cls)
        invariant
            p <= i <= s.len(),
            span_end(s@, p as int, cls) == span_end(s@, i as int, cls),
        decreases s.len() - i,
    {
        i = i + 1;
    }
    i
}

/// Where the keyword `t` ends, when `s` holds it at `p`.
pub fn tag(s: &Vec<char>, p: usize, t: &str) -> (r: Option<usize>)
    requires
        p <= s.len(),
    ensures
        pos_int(r) == tag_end(s@, p as int, t@),
        r matches Some(e) ==> p <= e <= s.len(),
{
    let n = t.unicode_len();
    if n > s.len() - p {
        return None;
    }
    let mut i: usize = 0;
    while i < n
        invariant
            n == t@.len(),
            p + n <= s.len(),
            i <= n,
            forall|k: int| 0 <= k < i ==> s@[p + k] == t@[k],
        decreases n - i,
    {
        if s[p + i] != t.get_char(i) {
            assert(s@.subrange(p as int, p + n)[i as int] != t@[i as int]);
            return None;
        }
        i = i + 1;
    }
    assert(s@.subrange(p as int, p + n) =~= t@);
    Some(p + n)
}

/// Whether the characters from `p` to `q` spell `w`.
pub fn word_is(s: &Vec<char>, p: usize, q: usize, w: &str) -> (r: bool)
    requires
        p <= q <= s.len(),
    ensures
        r == (s@.subrange(p as int, q as int) == w@),
{
    let n = w.unicode_len();
    if n != q - p {
        return false;
    }
    let mut i: usize = 0;
    while i < n
        invariant
            n == w@.len(),
            p + n == q <= s.len(),
            i <= n,
            forall|k: int| 0 <= k < i ==> s@[p + k] == w@[k],
        decreases n - i,
    {
        if s[p + i] != w.get_char(i) {
            assert(s@.subrange(p as int, q as int)[i as int] != w@[i as int]);
            return false;
        }
        i = i + 1;
    }
    assert(s@.subrange(p as int, q as int) =~= w@);
    true
}

proof fn lemma_digits_value_step(s: Seq<char>, p: int, i: int)
    requires
        0 <= p <= i < s.len(),
    ensures
        digits_value(s.subrange(p, i + 1)) == digits_value(s.subrange(p, i)) * 10 + digit_value(
            s[i],
        ),
{
    assert(s.subrange(p, i + 1).drop_last() =~= s.subrange(p, i));
}

/// Appending digits never makes a number smaller.
proof fn lemma_digits_value_grows(s: Seq<char>, p: int, i: int, j: int)
    requires
        0 <= p <= i <= j <= s.len(),
        forall|k: int| p <= k < j ==> is_digit(#[trigger] s[k]),
    ensures
        digits_value(s.subrange(p, i)) <= digits_value(s.subrange(p, j)),
    decreases j - i,
{
    if i < j {
        lemma_digits_value_grows(s, p, i, j - 1);
        lemma_digits_value_step(s, p, j - 1);
        assert(digits_value(s.subrange(p, j - 1)) >= 0) by {
            lemma_digits_value_nonneg(s.subrange(p, j - 1));
        }
    }
}

pub proof fn lemma_digits_value_nonneg(ds: Seq<char>)
    requires
        forall|k: int| 0 <= k < ds.len() ==> is_digit(#[trigger] ds[k]),
    ensures
        digits_value(ds) >= 0,
    decreases ds.len(),
{
    if ds.len() > 0 {
        lemma_digits_value_nonneg(ds.drop_last());
    }
}

proof fn lemma_span_all_in_class(s: Seq<char>, p: int, k: int, cls: CharClass)
    requires
        0 <= p <= k < span_end(s, p, cls),
    ensures
        in_class(cls, s[k]),
    decreases s.len() - p,
{
    if p < k {
        lemma_span_all_in_class(s, p + 1, k, cls);
    }
}

/// A decimal number at `p` that fits in a `u32`, with the position after it.
pub fn number(s: &Vec<char>, p: usize) -> (r: Option<(u32, usize)>)
    requires
        p <= s.len(),
    ensures
        at_int(r) == number_at(s@, p as int),
        r matches Some((_, e)) ==> p <= e <= s.len(),
{
    let q = span(s, p, CharClass::Digit);
    if q == p {
        return None;
    }
    proof {
        assert forall|k: int| p <= k < q implies is_digit(#[trigger] s@[k]) by {
            lemma_span_all_in_class(s@, p as int, k, CharClass::Digit);
        }
    }
    let mut acc: u64 = 0;
    let mut i = p;
    while i < q
        invariant
            p <= i <= q <= s.len(),
            q == span_end(s@, p as int, CharClass::Digit),
            forall|k: int| p <= k < q ==> is_digit(#[trigger] s@[k]),
            acc == digits_value(s@.subrange(p as int, i as int)),
            acc <= u32::MAX,
        decreases q - i,
    {
        proof {
            lemma_digits_value_step(s@, p as int, i as int);
        }
        let d = (s[i] as u32 - '0' as u32) as u64;
        acc = acc * 10 + d;
        i = i + 1;
        if acc > u32::MAX as u64 {
            proof {
                lemma_digits_value_grows(s@, p as int, i as int, q as int);
            }
            return None;
        }
    }
    Some((acc as u32, q))
}

/// The characters of `t`, in order.
pub fn chars_of(t: &str) -> (v: Vec<char>)
    ensures
        v@ == t@,
{
    let mut v: Vec<char> = Vec::new();
    for c in it: t.chars()
        invariant
            v@ == it.seq().take(it.index() as int),
    {
        v.push(c);
    }
    v
}

} // verus!
