//! Laws of the filter grammar: what "last N units" phrases evaluate to, and
//! the facts about its keyword tables that those proofs rest on.

use crate::calendar::Date;
use crate::filter_parser::{
    attr_of, boundary_of, date_at, date_range_at, filter_at, last_en_at, last_ru_at,
    last_word_ru_at, offset_date, unit_of, word_at, Attr, TimeUnit,
};
use crate::lexical::{
    alphabetic, digits_value, is_digit, is_multispace, is_space, lemma_digits_value_nonneg,
    lemma_span_end_bounds, lemma_span_end_exact, span_end, tag_end, CharClass,
};
use vstd::prelude::*;

verus! {

/// Every spelling of a unit of time begins with a letter: neither a space nor
/// a digit.
pub proof fn lemma_unit_word_starts_with_letter(w: Seq<char>)
    requires
        unit_of(w) is Some,
    ensures
        w.len() > 0,
        !is_space(w[0]),
        !is_digit(w[0]),
        w[0] != 'l',
{
    reveal_strlit("days");
    reveal_strlit("day");
    reveal_strlit("день");
    reveal_strlit("дней");
    reveal_strlit("дня");
    reveal_strlit("weeks");
    reveal_strlit("week");
    reveal_strlit("неделя");
    reveal_strlit("недели");
    reveal_strlit("недель");
    reveal_strlit("неделю");
    reveal_strlit("months");
    reveal_strlit("month");
    reveal_strlit("месяцев");
    reveal_strlit("месяца");
    reveal_strlit("месяц");
    reveal_strlit("years");
    reveal_strlit("year");
    reveal_strlit("года");
    reveal_strlit("год");
    reveal_strlit("лет");
}

/// A phrase `last N <unit>` spans from `today` less N units (in calendar days
/// for days and weeks, in clamped months for months and years) up to `today`
/// itself; without N it spans one unit. Here `last` stands at `p`, spaces run
/// to `b`, the digits of N to `c`, spaces again to `d`, and the unit's word
/// to `e`.
pub proof fn lemma_last_phrase_en(
    s: Seq<char>,
    p: int,
    b: int,
    c: int,
    d: int,
    e: int,
    today: Date,
    u: TimeUnit,
)
    requires
        0 <= p && p + 4 <= b <= c <= d < e <= s.len(),
        s.subrange(p, p + 4) == "last"@,
        forall|k: int| p + 4 <= k < b ==> is_space(#[trigger] s[k]),
        forall|k: int| b <= k < c ==> is_digit(#[trigger] s[k]),
        forall|k: int| c <= k < d ==> is_space(#[trigger] s[k]),
        b == c ==> c == d,
        digits_value(s.subrange(b, c)) <= u32::MAX,
        forall|k: int| d <= k < e ==> alphabetic(#[trigger] s[k]),
        e == s.len() || !alphabetic(s[e]),
        unit_of(s.subrange(d, e)) == Some(u),
    ensures
        ({
            let n = if b == c {
                1
            } else {
                digits_value(s.subrange(b, c))
            };
            last_en_at(s, p, today) == match offset_date(today, n as nat, u) {
                Some(lo) => Some(((Some(lo), Some(today)), e)),
                None => None,
            }
        }),
{
    reveal_strlit("last");
    let w = s.subrange(d, e);
    lemma_unit_word_starts_with_letter(w);
    assert(w[0] == s[d]);
    assert(tag_end(s, p, "last"@) == Some(p + 4));
    lemma_span_end_exact(s, p + 4, b, CharClass::Space);
    lemma_span_end_exact(s, d, e, CharClass::Alpha);
    if b < c {
        lemma_span_end_exact(s, b, c, CharClass::Digit);
        lemma_span_end_exact(s, c, d, CharClass::Space);
        lemma_digits_value_nonneg(s.subrange(b, c));
    } else {
        lemma_span_end_exact(s, b, b, CharClass::Digit);
        lemma_span_end_exact(s, b, b, CharClass::Space);
    }
}

/// Every Russian word for "last" begins with the letter `п`.
pub proof fn lemma_last_word_ru_starts(s: Seq<char>, d: int, f: int)
    requires
        last_word_ru_at(s, d) == Some(f),
    ensures
        0 <= d < f <= s.len(),
        s[d] == 'п',
{
    reveal_strlit("прошлый");
    reveal_strlit("прошлых");
    reveal_strlit("прошлая");
    reveal_strlit("прошлую");
    reveal_strlit("последних");
    reveal_strlit("последний");
    reveal_strlit("последнюю");
    let t = s.subrange(d, f);
    assert(t[0] == s[d]);
}

/// A phrase `[за] [N] последних <unit>` spans from `today` less N units up to
/// `today` itself, one unit where N is left out, whichever form of "last" it
/// uses. Here the phrase stands at `p`, with `за` before `a` when `za` holds;
/// spaces run to `b`, the digits of N to `c`, spaces to `d`, the word for
/// "last" to `f`, spaces to `g` and the unit's word to `e`.
pub proof fn lemma_last_phrase_ru(
    s: Seq<char>,
    p: int,
    za: bool,
    a: int,
    b: int,
    c: int,
    d: int,
    f: int,
    g: int,
    e: int,
    today: Date,
    u: TimeUnit,
)
    requires
        0 <= p <= a <= b <= c <= d && f < g < e <= s.len(),
        za ==> a == p + 2 && s.subrange(p, a) == "за"@,
        !za ==> a == p && tag_end(s, p, "за"@) is None,
        forall|k: int| a <= k < b ==> is_space(#[trigger] s[k]),
        forall|k: int| b <= k < c ==> is_digit(#[trigger] s[k]),
        forall|k: int| c <= k < d ==> is_space(#[trigger] s[k]),
        b == c ==> c == d,
        digits_value(s.subrange(b, c)) <= u32::MAX,
        last_word_ru_at(s, d) == Some(f),
        forall|k: int| f <= k < g ==> is_space(#[trigger] s[k]),
        forall|k: int| g <= k < e ==> alphabetic(#[trigger] s[k]),
        e == s.len() || !alphabetic(s[e]),
        unit_of(s.subrange(g, e)) == Some(u),
    ensures
        ({
            let n = if b == c {
                1
            } else {
                digits_value(s.subrange(b, c))
            };
            last_ru_at(s, p, today) == match offset_date(today, n as nat, u) {
                Some(lo) => Some(((Some(lo), Some(today)), e)),
                None => None,
            }
        }),
{
    reveal_strlit("за");
    lemma_last_word_ru_starts(s, d, f);
    let w = s.subrange(g, e);
    lemma_unit_word_starts_with_letter(w);
    assert(w[0] == s[g]);
    if za {
        assert(tag_end(s, p, "за"@) == Some(p + 2));
    }
    lemma_span_end_exact(s, a, b, CharClass::Space);
    lemma_span_end_exact(s, f, g, CharClass::Space);
    lemma_span_end_exact(s, g, e, CharClass::Alpha);
    if b < c {
        lemma_span_end_exact(s, b, c, CharClass::Digit);
        lemma_span_end_exact(s, c, d, CharClass::Space);
        lemma_digits_value_nonneg(s.subrange(b, c));
    } else {
        lemma_span_end_exact(s, b, b, CharClass::Digit);
        lemma_span_end_exact(s, b, b, CharClass::Space);
    }
}

/// A keyword found at `p` begins with the character at `p`.
proof fn lemma_tag_first(s: Seq<char>, p: int, t: Seq<char>)
    requires
        tag_end(s, p, t) is Some,
        t.len() > 0,
    ensures
        s[p] == t[0],
{
    assert(s.subrange(p, p + t.len())[0] == s[p]);
}

/// The word at `p` is empty or begins with the character at `p`.
proof fn lemma_word_first(s: Seq<char>, p: int)
    requires
        0 <= p < s.len(),
    ensures
        word_at(s, p).len() == 0 || word_at(s, p)[0] == s[p],
{
    let q = span_end(s, p, CharClass::Alpha);
    lemma_span_end_bounds(s, p, CharClass::Alpha);
    if q > p {
        assert(word_at(s, p)[0] == s[p]);
    }
}

/// No boundary word begins with a Latin `l`.
proof fn lemma_boundary_word_not_l(w: Seq<char>, d: Date)
    requires
        boundary_of(w, d) is Some,
    ensures
        w.len() > 0 && w[0] != 'l',
{
    reveal_strlit("from");
    reveal_strlit("after");
    reveal_strlit("со");
    reveal_strlit("с");
    reveal_strlit("от");
    reveal_strlit("после");
    reveal_strlit("позже");
    reveal_strlit("to");
    reveal_strlit("until");
    reveal_strlit("till");
    reveal_strlit("before");
    reveal_strlit("до");
    reveal_strlit("по");
    reveal_strlit("раньше");
    reveal_strlit("ранее");
}

/// No date of the grammar starts at a Latin `l`.
proof fn lemma_no_date_at_l(s: Seq<char>, p: int, today: Date)
    requires
        0 <= p < s.len(),
        s[p] == 'l',
    ensures
        date_at(s, p, today) is None,
{
    reveal_strlit("today");
    reveal_strlit("now");
    reveal_strlit("сегодня");
    reveal_strlit("сейчас");
    reveal_strlit("yesterday");
    reveal_strlit("вчера");
    reveal_strlit("позавчера");
    if tag_end(s, p, "today"@) is Some {
        lemma_tag_first(s, p, "today"@);
    }
    if tag_end(s, p, "now"@) is Some {
        lemma_tag_first(s, p, "now"@);
    }
    if tag_end(s, p, "сегодня"@) is Some {
        lemma_tag_first(s, p, "сегодня"@);
    }
    if tag_end(s, p, "сейчас"@) is Some {
        lemma_tag_first(s, p, "сейчас"@);
    }
    if tag_end(s, p, "yesterday"@) is Some {
        lemma_tag_first(s, p, "yesterday"@);
    }
    if tag_end(s, p, "вчера"@) is Some {
        lemma_tag_first(s, p, "вчера"@);
    }
    if tag_end(s, p, "позавчера"@) is Some {
        lemma_tag_first(s, p, "позавчера"@);
    }
    lemma_span_end_exact(s, p, p, CharClass::Digit);
    lemma_span_end_exact(s, p, p, CharClass::DigitOrDash);
    lemma_word_first(s, p);
    if unit_of(word_at(s, p)) is Some {
        lemma_unit_word_starts_with_letter(word_at(s, p));
    }
}

/// No Russian "last" phrase starts at a Latin `l`.
proof fn lemma_no_last_ru_at_l(s: Seq<char>, p: int, today: Date)
    requires
        0 <= p < s.len(),
        s[p] == 'l',
    ensures
        last_ru_at(s, p, today) is None,
{
    reveal_strlit("за");
    if tag_end(s, p, "за"@) is Some {
        lemma_tag_first(s, p, "за"@);
    }
    lemma_span_end_exact(s, p, p, CharClass::Space);
    lemma_span_end_exact(s, p, p, CharClass::Digit);
    if last_word_ru_at(s, p) is Some {
        lemma_last_word_ru_starts(s, p, last_word_ru_at(s, p)->0);
    }
}

/// A whole filter `<attribute> last N <unit>` gives that attribute and the
/// range from `today` less N units up to `today`; one unit where N is left
/// out. Here leading whitespace runs to `a`, the attribute's word to `q`,
/// whitespace to `b`, where `last` stands; spaces run to `bb`, the digits of N
/// to `c`, spaces to `d`, and the unit's word to `e`.
pub proof fn lemma_filter_last_phrase_en(
    s: Seq<char>,
    a: int,
    q: int,
    b: int,
    bb: int,
    c: int,
    d: int,
    e: int,
    today: Date,
    at: Attr,
    u: TimeUnit,
)
    requires
        0 <= a < q < b && b + 4 <= bb <= c <= d < e <= s.len(),
        forall|k: int| 0 <= k < a ==> is_multispace(#[trigger] s[k]),
        forall|k: int| a <= k < q ==> alphabetic(#[trigger] s[k]),
        !alphabetic(s[q]),
        attr_of(s.subrange(a, q)) == Some(at),
        forall|k: int| q <= k < b ==> is_multispace(#[trigger] s[k]),
        s.subrange(b, b + 4) == "last"@,
        forall|k: int| b + 4 <= k < bb ==> is_space(#[trigger] s[k]),
        forall|k: int| bb <= k < c ==> is_digit(#[trigger] s[k]),
        forall|k: int| c <= k < d ==> is_space(#[trigger] s[k]),
        bb == c ==> c == d,
        digits_value(s.subrange(bb, c)) <= u32::MAX,
        forall|k: int| d <= k < e ==> alphabetic(#[trigger] s[k]),
        e == s.len() || !alphabetic(s[e]),
        unit_of(s.subrange(d, e)) == Some(u),
    ensures
        ({
            let n = if bb == c {
                1
            } else {
                digits_value(s.subrange(bb, c))
            };
            filter_at(s, today) == match offset_date(today, n as nat, u) {
                Some(lo) => Some((at, lo, today, e)),
                None => None,
            }
        }),
{
    reveal_strlit("last");
    reveal_strlit("updated");
    reveal_strlit("обновлено");
    reveal_strlit("created");
    reveal_strlit("создано");
    let w = s.subrange(a, q);
    assert(w[0] == s[a]);
    lemma_span_end_exact(s, 0, a, CharClass::MultiSpace);
    lemma_span_end_exact(s, a, q, CharClass::Alpha);
    assert(s.subrange(b, b + 4)[0] == s[b]);
    lemma_span_end_exact(s, q, b, CharClass::MultiSpace);
    lemma_span_end_exact(s, b, b, CharClass::MultiSpace);
    lemma_word_first(s, b);
    let qq = span_end(s, b, CharClass::Alpha);
    let rr = span_end(s, qq, CharClass::MultiSpace);
    if rr != qq {
        lemma_span_end_bounds(s, b, CharClass::Alpha);
        lemma_span_end_bounds(s, qq, CharClass::MultiSpace);
        match date_at(s, rr, today) {
            Some((dt, _)) => {
                if boundary_of(s.subrange(b, qq), dt) is Some {
                    lemma_boundary_word_not_l(s.subrange(b, qq), dt);
                }
            },
            None => {},
        }
    }
    assert(date_range_at(s, b, today) is None);
    lemma_no_date_at_l(s, b, today);
    lemma_no_last_ru_at_l(s, b, today);
    lemma_last_phrase_en(s, b, bb, c, d, e, today, u);
}

} // verus!
