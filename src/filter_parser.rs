//! The date-range filter grammar. A phrase such as `updated last week` or
//! `обновлено с 02.03.2022 по 31.08` names a task attribute and an inclusive
//! range of dates, relative to a given "today".
//!
//! Each part of the grammar is a spec function from a text and a start
//! position to the value read and the position after it, or to `None`; the
//! executable parsers compute exactly these functions. A parser that fails
//! consumes nothing, so alternatives are tried one after another from the same
//! position.

use crate::calendar::{
    date_of, days_before, iso_parsed, iso_text, lemma_iso_text_digits_dashes, months_before,
    parse_iso_text, Date,
};
use crate::lexical::{
    at_int, chars_of, lemma_span_whole, number, number_at, pos_int, span, span_end, tag, tag_end,
    word_is, CharClass,
};
use std::ops::RangeInclusive;
use vstd::prelude::*;
use vstd::string::StrSliceExecFns;

verus! {

/// A unit of time that an offset counts in.
#[derive(Debug, Clone, Copy, PartialEq, Eq, Structural)]
pub enum TimeUnit {
    Days,
    Weeks,
    Months,
    Years,
}

/// An amount of units of time before today.
#[derive(Debug, Clone, Copy, PartialEq, Eq, Structural)]
pub struct TimeOffset {
    pub amount: u32,
    pub unit: TimeUnit,
}

/// The task timestamp that a range filters on.
#[derive(Debug, Clone, Copy, PartialEq, Eq, Structural)]
pub enum Attr {
    Updated,
    Created,
}

/// One end of a range: a lower (`From`) or an upper (`To`) bound.
#[derive(Debug, Clone, Copy, PartialEq, Eq, Structural)]
pub enum Boundary {
    From(Date),
    To(Date),
}

/// The signal that a text does not match the grammar.
#[derive(Debug, Clone, Copy, PartialEq, Eq, Structural)]
pub struct NoMatch;

/// The bounds that a range phrase gives; an absent one is open.
pub type Bounds = (Option<Date>, Option<Date>);

/// The spellings of each unit of time, in English and in Russian.
pub open spec fn unit_of(w: Seq<char>) -> Option<TimeUnit> {
    if w == "days"@ || w == "day"@ || w == "день"@ || w == "дней"@ || w == "дня"@ {
        Some(TimeUnit::Days)
    } else if w == "weeks"@ || w == "week"@ || w == "неделя"@ || w == "недели"@ || w
        == "недель"@ || w == "неделю"@ {
        Some(TimeUnit::Weeks)
    } else if w == "months"@ || w == "month"@ || w == "месяцев"@ || w == "месяца"@ || w
        == "месяц"@ {
        Some(TimeUnit::Months)
    } else if w == "years"@ || w == "year"@ || w == "года"@ || w == "год"@ || w == "лет"@ {
        Some(TimeUnit::Years)
    } else {
        None
    }
}

/// The spellings of each attribute, in English and in Russian.
pub open spec fn attr_of(w: Seq<char>) -> Option<Attr> {
    if w == "updated"@ || w == "обновлено"@ {
        Some(Attr::Updated)
    } else if w == "created"@ || w == "создано"@ {
        Some(Attr::Created)
    } else {
        None
    }
}

/// The boundary that the word `w` makes of the date `d`.
pub open spec fn boundary_of(w: Seq<char>, d: Date) -> Option<Boundary> {
    if w == "from"@ || w == "after"@ || w == "со"@ || w == "с"@ || w == "от"@ || w == "после"@
        || w == "позже"@ {
        Some(Boundary::From(d))
    } else if w == "to"@ || w == "until"@ || w == "till"@ || w == "before"@ || w == "до"@ || w
        == "по"@ || w == "раньше"@ || w == "ранее"@ {
        Some(Boundary::To(d))
    } else {
        None
    }
}

/// The date `amount` units before `today`: days and weeks count calendar
/// days, months and years count months with the day clamped to the month.
pub open spec fn offset_date(today: Date, amount: nat, unit: TimeUnit) -> Option<Date> {
    match unit {
        TimeUnit::Days => days_before(today, amount),
        TimeUnit::Weeks => days_before(today, 7 * amount),
        TimeUnit::Months => months_before(today, amount),
        TimeUnit::Years => months_before(today, 12 * amount),
    }
}

/// The first of two alternatives that succeeds.
pub open spec fn or_else<T>(a: Option<T>, b: Option<T>) -> Option<T> {
    match a {
        Some(x) => Some(x),
        None => b,
    }
}

/// The word (the run of letters) that starts at `p`.
pub open spec fn word_at(s: Seq<char>, p: int) -> Seq<char> {
    s.subrange(p, span_end(s, p, CharClass::Alpha))
}

/// The word that a phrase begins with, after any leading whitespace.
pub open spec fn leading_word(s: Seq<char>) -> Seq<char> {
    word_at(s, span_end(s, 0, CharClass::MultiSpace))
}

pub open spec fn time_unit_at(s: Seq<char>, p: int) -> Option<(TimeUnit, int)> {
    match unit_of(word_at(s, p)) {
        Some(u) => Some((u, span_end(s, p, CharClass::Alpha))),
        None => None,
    }
}

/// At least one space, then `ago`, `before` or `назад`.
pub open spec fn suffix_at(s: Seq<char>, p: int) -> Option<int> {
    let q = span_end(s, p, CharClass::Space);
    if q == p {
        None
    } else {
        or_else(
            tag_end(s, q, "ago"@),
            or_else(tag_end(s, q, "before"@), tag_end(s, q, "назад"@)),
        )
    }
}

/// `<number> <unit>`, with an optional suffix.
pub open spec fn offset_with_number_at(s: Seq<char>, p: int) -> Option<(TimeOffset, int)> {
    match number_at(s, p) {
        None => None,
        Some((n, a)) => {
            let b = span_end(s, a, CharClass::Space);
            if b == a {
                None
            } else {
                match time_unit_at(s, b) {
                    None => None,
                    Some((u, c)) => Some(
                        (
                            TimeOffset { amount: n, unit: u },
                            match suffix_at(s, c) {
                                Some(e) => e,
                                None => c,
                            },
                        ),
                    ),
                }
            }
        },
    }
}

/// `<unit>` followed by a suffix that it cannot do without; the amount is one.
pub open spec fn offset_without_number_at(s: Seq<char>, p: int) -> Option<(TimeOffset, int)> {
    match time_unit_at(s, p) {
        None => None,
        Some((u, c)) => match suffix_at(s, c) {
            Some(e) => Some((TimeOffset { amount: 1, unit: u }, e)),
            None => None,
        },
    }
}

pub open spec fn offset_at(s: Seq<char>, p: int) -> Option<(TimeOffset, int)> {
    or_else(offset_with_number_at(s, p), offset_without_number_at(s, p))
}

/// A relative offset, as the date it names.
pub open spec fn offset_date_at(s: Seq<char>, p: int, today: Date) -> Option<(Date, int)> {
    match offset_at(s, p) {
        Some((o, e)) => match offset_date(today, o.amount as nat, o.unit) {
            Some(d) => Some((d, e)),
            None => None,
        },
        None => None,
    }
}

/// `today`, `now`, `сегодня` or `сейчас`.
pub open spec fn today_at(s: Seq<char>, p: int, today: Date) -> Option<(Date, int)> {
    match or_else(
        or_else(tag_end(s, p, "today"@), tag_end(s, p, "now"@)),
        or_else(tag_end(s, p, "сегодня"@), tag_end(s, p, "сейчас"@)),
    ) {
        Some(e) => Some((today, e)),
        None => None,
    }
}

/// `yesterday` or `вчера`: the day before today.
pub open spec fn yesterday_at(s: Seq<char>, p: int, today: Date) -> Option<(Date, int)> {
    match or_else(tag_end(s, p, "yesterday"@), tag_end(s, p, "вчера"@)) {
        Some(e) => match days_before(today, 1) {
            Some(d) => Some((d, e)),
            None => None,
        },
        None => None,
    }
}

/// `позавчера`: two days before today.
pub open spec fn tdby_at(s: Seq<char>, p: int, today: Date) -> Option<(Date, int)> {
    match tag_end(s, p, "позавчера"@) {
        Some(e) => match days_before(today, 2) {
            Some(d) => Some((d, e)),
            None => None,
        },
        None => None,
    }
}

/// `day.month` (in the year of today) or `day.month.year`: the longest run
/// of digits and dots at `p`, split at its dots into two or three numbers.
pub open spec fn cis_at(s: Seq<char>, p: int, today: Date) -> Option<(Date, int)> {
    let q = span_end(s, p, CharClass::DigitOrDot);
    match number_at(s, p) {
        None => None,
        Some((d, e1)) => if e1 >= q {
            None
        } else {
            match number_at(s, e1 + 1) {
                None => None,
                Some((m, e2)) => if e2 >= q {
                    match date_of(today.year as int, m as int, d as int) {
                        Some(x) => Some((x, q)),
                        None => None,
                    }
                } else {
                    match number_at(s, e2 + 1) {
                        None => None,
                        Some((y, e3)) => if e3 < q {
                            None
                        } else {
                            match date_of(y as int, m as int, d as int) {
                                Some(x) => Some((x, q)),
                                None => None,
                            }
                        },
                    }
                },
            }
        },
    }
}

/// `YYYY-MM-DD`: the longest run of digits and dashes at `p`, read whole as
/// an ISO date.
pub open spec fn iso_at(s: Seq<char>, p: int) -> Option<(Date, int)> {
    let q = span_end(s, p, CharClass::DigitOrDash);
    if q == p {
        None
    } else {
        match iso_parsed(s.subrange(p, q)) {
            Some(d) => Some((d, q)),
            None => None,
        }
    }
}

/// A date: a named day, a `day.month[.year]` date, an ISO date or a
/// relative offset, tried in that order.
pub open spec fn date_at(s: Seq<char>, p: int, today: Date) -> Option<(Date, int)> {
    or_else(
        or_else(today_at(s, p, today), or_else(yesterday_at(s, p, today), tdby_at(s, p, today))),
        or_else(
            cis_at(s, p, today),
            or_else(iso_at(s, p), offset_date_at(s, p, today)),
        ),
    )
}

/// A boundary word, whitespace, and a date.
pub open spec fn boundary_at(s: Seq<char>, p: int, today: Date) -> Option<(Boundary, int)> {
    let q = span_end(s, p, CharClass::Alpha);
    let r = span_end(s, q, CharClass::MultiSpace);
    if r == q {
        None
    } else {
        match date_at(s, r, today) {
            None => None,
            Some((d, e)) => match boundary_of(s.subrange(p, q), d) {
                Some(b) => Some((b, e)),
                None => None,
            },
        }
    }
}

/// One or two boundaries, each after optional whitespace: a lone one, or a
/// lower and an upper bound in either order.
pub open spec fn date_range_at(s: Seq<char>, p: int, today: Date) -> Option<(Bounds, int)> {
    match boundary_at(s, span_end(s, p, CharClass::MultiSpace), today) {
        None => None,
        Some((b1, e1)) => match boundary_at(s, span_end(s, e1, CharClass::MultiSpace), today) {
            None => match b1 {
                Boundary::From(a) => Some(((Some(a), None), e1)),
                Boundary::To(b) => Some(((None, Some(b)), e1)),
            },
            Some((b2, e2)) => match (b1, b2) {
                (Boundary::From(a), Boundary::To(b)) => Some(((Some(a), Some(b)), e2)),
                (Boundary::To(b), Boundary::From(a)) => Some(((Some(a), Some(b)), e2)),
                _ => None,
            },
        },
    }
}

/// A lone date: that one day.
pub open spec fn one_day_at(s: Seq<char>, p: int, today: Date) -> Option<(Bounds, int)> {
    match date_at(s, p, today) {
        Some((d, e)) => Some(((Some(d), Some(d)), e)),
        None => None,
    }
}

/// The range from `amount` units before today up to today.
pub open spec fn last_range(today: Date, amount: nat, unit: TimeUnit, e: int) -> Option<
    (Bounds, int),
> {
    match offset_date(today, amount, unit) {
        Some(lo) => Some(((Some(lo), Some(today)), e)),
        None => None,
    }
}

/// An optional number after optional spaces; one where there is none.
pub open spec fn amount_at(s: Seq<char>, p: int) -> (u32, int) {
    let b = span_end(s, p, CharClass::Space);
    match number_at(s, b) {
        Some((n, c)) => (n, span_end(s, c, CharClass::Space)),
        None => (1, span_end(s, b, CharClass::Space)),
    }
}

/// `last [N] <unit>`.
pub open spec fn last_en_at(s: Seq<char>, p: int, today: Date) -> Option<(Bounds, int)> {
    match tag_end(s, p, "last"@) {
        None => None,
        Some(a) => {
            let (n, d) = amount_at(s, a);
            match time_unit_at(s, d) {
                None => None,
                Some((u, e)) => last_range(today, n as nat, u, e),
            }
        },
    }
}

/// One of the Russian words for "last" or "past".
pub open spec fn last_word_ru_at(s: Seq<char>, p: int) -> Option<int> {
    or_else(
        or_else(
            or_else(tag_end(s, p, "прошлый"@), tag_end(s, p, "прошлых"@)),
            or_else(tag_end(s, p, "прошлая"@), tag_end(s, p, "прошлую"@)),
        ),
        or_else(
            tag_end(s, p, "последних"@),
            or_else(tag_end(s, p, "последний"@), tag_end(s, p, "последнюю"@)),
        ),
    )
}

/// `[за] [N] <последний> <unit>`.
pub open spec fn last_ru_at(s: Seq<char>, p: int, today: Date) -> Option<(Bounds, int)> {
    let a = match tag_end(s, p, "за"@) {
        Some(a) => a,
        None => p,
    };
    let (n, d) = amount_at(s, a);
    match last_word_ru_at(s, d) {
        None => None,
        Some(f) => {
            let g = span_end(s, f, CharClass::Space);
            if g == f {
                None
            } else {
                match time_unit_at(s, g) {
                    None => None,
                    Some((u, e)) => last_range(today, n as nat, u, e),
                }
            }
        },
    }
}

/// A range phrase: boundaries, a lone date, or a Russian or English "last"
/// phrase, tried in that order.
pub open spec fn range_at(s: Seq<char>, p: int, today: Date) -> Option<(Bounds, int)> {
    or_else(
        or_else(date_range_at(s, p, today), one_day_at(s, p, today)),
        or_else(last_ru_at(s, p, today), last_en_at(s, p, today)),
    )
}

/// Every bound that is present is a well-formed date.
pub open spec fn bounds_wf(b: Bounds) -> bool {
    (b.0 matches Some(x) ==> x.wf()) && (b.1 matches Some(y) ==> y.wf())
}

pub open spec fn boundary_wf(b: Boundary) -> bool {
    match b {
        Boundary::From(d) => d.wf(),
        Boundary::To(d) => d.wf(),
    }
}

pub open spec fn bound_or(b: Option<Date>, dflt: Date) -> Date {
    match b {
        Some(d) => d,
        None => dflt,
    }
}

/// A whole filter at the start of `s`: optional whitespace, an attribute
/// word, whitespace and a range phrase. An open lower bound becomes the
/// earliest representable day, an open upper bound the latest.
pub open spec fn filter_at(s: Seq<char>, today: Date) -> Option<(Attr, Date, Date, int)> {
    let a = span_end(s, 0, CharClass::MultiSpace);
    let q = span_end(s, a, CharClass::Alpha);
    match attr_of(s.subrange(a, q)) {
        None => None,
        Some(at) => {
            let b = span_end(s, q, CharClass::MultiSpace);
            if b == q {
                None
            } else {
                match range_at(s, b, today) {
                    None => None,
                    Some(((lo, hi), e)) => Some(
                        (at, bound_or(lo, Date::spec_min()), bound_or(hi, Date::spec_max()), e),
                    ),
                }
            }
        },
    }
}

/// The first of two alternative end positions that is present.
fn or_else_pos(a: Option<usize>, b: Option<usize>) -> (r: Option<usize>)
    ensures
        pos_int(r) == or_else(pos_int(a), pos_int(b)),
        r == a || r == b,
{
    match a {
        Some(x) => Some(x),
        None => b,
    }
}

/// The unit of time that the characters from `p` to `q` spell.
fn unit_word(s: &Vec<char>, p: usize, q: usize) -> (r: Option<TimeUnit>)
    requires
        p <= q <= s.len(),
    ensures
        r == unit_of(s@.subrange(p as int, q as int)),
{
    if word_is(s, p, q, "days") || word_is(s, p, q, "day") || word_is(s, p, q, "день")
        || word_is(s, p, q, "дней") || word_is(s, p, q, "дня") {
        Some(TimeUnit::Days)
    } else if word_is(s, p, q, "weeks") || word_is(s, p, q, "week") || word_is(s, p, q, "неделя")
        || word_is(s, p, q, "недели") || word_is(s, p, q, "недель") || word_is(
        s,
        p,
        q,
        "неделю",
    ) {
        Some(TimeUnit::Weeks)
    } else if word_is(s, p, q, "months") || word_is(s, p, q, "month") || word_is(
        s,
        p,
        q,
        "месяцев",
    ) || word_is(s, p, q, "месяца") || word_is(s, p, q, "месяц") {
        Some(TimeUnit::Months)
    } else if word_is(s, p, q, "years") || word_is(s, p, q, "year") || word_is(s, p, q, "года")
        || word_is(s, p, q, "год") || word_is(s, p, q, "лет") {
        Some(TimeUnit::Years)
    } else {
        None
    }
}

/// The attribute that the characters from `p` to `q` spell.
fn attr_word(s: &Vec<char>, p: usize, q: usize) -> (r: Option<Attr>)
    requires
        p <= q <= s.len(),
    ensures
        r == attr_of(s@.subrange(p as int, q as int)),
{
    if word_is(s, p, q, "updated") || word_is(s, p, q, "обновлено") {
        Some(Attr::Updated)
    } else if word_is(s, p, q, "created") || word_is(s, p, q, "создано") {
        Some(Attr::Created)
    } else {
        None
    }
}

/// The boundary that the characters from `p` to `q` make of `d`.
fn boundary_word(s: &Vec<char>, p: usize, q: usize, d: Date) -> (r: Option<Boundary>)
    requires
        p <= q <= s.len(),
    ensures
        r == boundary_of(s@.subrange(p as int, q as int), d),
{
    if word_is(s, p, q, "from") || word_is(s, p, q, "after") || word_is(s, p, q, "со")
        || word_is(s, p, q, "с") || word_is(s, p, q, "от") || word_is(s, p, q, "после")
        || word_is(s, p, q, "позже") {
        Some(Boundary::From(d))
    } else if word_is(s, p, q, "to") || word_is(s, p, q, "until") || word_is(s, p, q, "till")
        || word_is(s, p, q, "before") || word_is(s, p, q, "до") || word_is(s, p, q, "по")
        || word_is(s, p, q, "раньше") || word_is(s, p, q, "ранее") {
        Some(Boundary::To(d))
    } else {
        None
    }
}

impl TimeUnit {
    /// The unit that a lowercase word spells, in English or in Russian.
    pub fn parse(word: &str) -> (r: Option<TimeUnit>)
        ensures
            r == unit_of(word@),
    {
        let v = chars_of(word);
        assert(v@.subrange(0, v@.len() as int) =~= word@);
        unit_word(&v, 0, v.len())
    }
}

impl Attr {
    /// The attribute that a lowercase word spells, in English or in Russian.
    pub fn parse(word: &str) -> (r: Option<Attr>)
        ensures
            r == attr_of(word@),
    {
        let v = chars_of(word);
        assert(v@.subrange(0, v@.len() as int) =~= word@);
        attr_word(&v, 0, v.len())
    }
}

impl TimeOffset {
    /// The date this offset names, counted back from `today`; `None` where it
    /// falls before the earliest representable day.
    pub fn into_date(self, today: Date) -> (r: Option<Date>)
        requires
            today.wf(),
        ensures
            r == offset_date(today, self.amount as nat, self.unit),
            r matches Some(x) ==> x.wf(),
    {
        match self.unit {
            TimeUnit::Days => today.sub_days(self.amount as u64),
            TimeUnit::Weeks => today.sub_days(self.amount as u64 * 7),
            TimeUnit::Months => today.sub_months(self.amount),
            TimeUnit::Years => {
                if self.amount <= u32::MAX / 12 {
                    today.sub_months(self.amount * 12)
                } else {
                    proof {
                        lemma_months_before_far(today, 12 * self.amount as nat);
                    }
                    None
                }
            },
        }
    }
}

/// No date lies more than `u32::MAX` months before a representable day.
proof fn lemma_months_before_far(d: Date, n: nat)
    requires
        d.wf(),
        n > u32::MAX,
    ensures
        months_before(d, n) is None,
{
    let t = d.year * 12 + (d.month - 1) - n;
    assert(t < -262143 * 12);
    assert(t / 12 < -262143) by (nonlinear_arith)
        requires
            t < -262143 * 12,
    ;
}

fn time_unit(s: &Vec<char>, p: usize) -> (r: Option<(TimeUnit, usize)>)
    requires
        p <= s.len(),
    ensures
        at_int(r) == time_unit_at(s@, p as int),
        r matches Some((_, e)) ==> p <= e <= s.len(),
{
    let q = span(s, p, CharClass::Alpha);
    match unit_word(s, p, q) {
        Some(u) => Some((u, q)),
        None => None,
    }
}

fn suffix(s: &Vec<char>, p: usize) -> (r: Option<usize>)
    requires
        p <= s.len(),
    ensures
        pos_int(r) == suffix_at(s@, p as int),
        r matches Some(e) ==> p <= e <= s.len(),
{
    let q = span(s, p, CharClass::Space);
    if q == p {
        None
    } else {
        or_else_pos(tag(s, q, "ago"), or_else_pos(tag(s, q, "before"), tag(s, q, "назад")))
    }
}

fn offset_with_number(s: &Vec<char>, p: usize) -> (r: Option<(TimeOffset, usize)>)
    requires
        p <= s.len(),
    ensures
        at_int(r) == offset_with_number_at(s@, p as int),
        r matches Some((_, e)) ==> p <= e <= s.len(),
{
    match number(s, p) {
        None => None,
        Some((n, a)) => {
            let b = span(s, a, CharClass::Space);
            if b == a {
                None
            } else {
                match time_unit(s, b) {
                    None => None,
                    Some((u, c)) => {
                        let e = match suffix(s, c) {
                            Some(e) => e,
                            None => c,
                        };
                        Some((TimeOffset { amount: n, unit: u }, e))
                    },
                }
            }
        },
    }
}

fn offset_without_number(s: &Vec<char>, p: usize) -> (r: Option<(TimeOffset, usize)>)
    requires
        p <= s.len(),
    ensures
        at_int(r) == offset_without_number_at(s@, p as int),
        r matches Some((_, e)) ==> p <= e <= s.len(),
{
    match time_unit(s, p) {
        None => None,
        Some((u, c)) => match suffix(s, c) {
            Some(e) => Some((TimeOffset { amount: 1, unit: u }, e)),
            None => None,
        },
    }
}

fn offset(s: &Vec<char>, p: usize, today: Date) -> (r: Option<(Date, usize)>)
    requires
        p <= s.len(),
        today.wf(),
    ensures
        at_int(r) == offset_date_at(s@, p as int, today),
        r matches Some((x, e)) ==> p <= e <= s.len() && x.wf(),
{
    let o = match offset_with_number(s, p) {
        Some(x) => Some(x),
        None => offset_without_number(s, p),
    };
    match o {
        Some((o, e)) => match o.into_date(today) {
            Some(d) => Some((d, e)),
            None => None,
        },
        None => None,
    }
}

fn named_today(s: &Vec<char>, p: usize, today: Date) -> (r: Option<(Date, usize)>)
    requires
        p <= s.len(),
    ensures
        at_int(r) == today_at(s@, p as int, today),
        r matches Some((x, e)) ==> p <= e <= s.len() && x == today,
{
    let t = or_else_pos(
        or_else_pos(tag(s, p, "today"), tag(s, p, "now")),
        or_else_pos(tag(s, p, "сегодня"), tag(s, p, "сейчас")),
    );
    match t {
        Some(e) => Some((today, e)),
        None => None,
    }
}

fn named_yesterday(s: &Vec<char>, p: usize, today: Date) -> (r: Option<(Date, usize)>)
    requires
        p <= s.len(),
        today.wf(),
    ensures
        at_int(r) == yesterday_at(s@, p as int, today),
        r matches Some((x, e)) ==> p <= e <= s.len() && x.wf(),
{
    match or_else_pos(tag(s, p, "yesterday"), tag(s, p, "вчера")) {
        Some(e) => match today.sub_days(1) {
            Some(d) => Some((d, e)),
            None => None,
        },
        None => None,
    }
}

fn named_tdby(s: &Vec<char>, p: usize, today: Date) -> (r: Option<(Date, usize)>)
    requires
        p <= s.len(),
        today.wf(),
    ensures
        at_int(r) == tdby_at(s@, p as int, today),
        r matches Some((x, e)) ==> p <= e <= s.len() && x.wf(),
{
    match tag(s, p, "позавчера") {
        Some(e) => match today.sub_days(2) {
            Some(d) => Some((d, e)),
            None => None,
        },
        None => None,
    }
}

fn cis(s: &Vec<char>, p: usize, today: Date) -> (r: Option<(Date, usize)>)
    requires
        p <= s.len(),
    ensures
        at_int(r) == cis_at(s@, p as int, today),
        r matches Some((x, e)) ==> p <= e <= s.len() && x.wf(),
{
    let q = span(s, p, CharClass::DigitOrDot);
    match number(s, p) {
        None => None,
        Some((d, e1)) => if e1 >= q {
            None
        } else {
            match number(s, e1 + 1) {
                None => None,
                Some((m, e2)) => if e2 >= q {
                    match Date::from_ymd(today.year, m, d) {
                        Some(x) => Some((x, q)),
                        None => None,
                    }
                } else {
                    match number(s, e2 + 1) {
                        None => None,
                        Some((y, e3)) => if e3 < q {
                            None
                        } else if y > crate::calendar::MAX_YEAR as u32 {
                            None
                        } else {
                            match Date::from_ymd(y as i32, m, d) {
                                Some(x) => Some((x, q)),
                                None => None,
                            }
                        },
                    }
                },
            }
        },
    }
}

fn iso(s: &Vec<char>, p: usize) -> (r: Option<(Date, usize)>)
    requires
        p <= s.len(),
    ensures
        at_int(r) == iso_at(s@, p as int),
        r matches Some((x, e)) ==> p <= e <= s.len() && x.wf(),
        forall|d: Date|
            d.wf() && 0 <= d.year <= 9999 && s@.subrange(
                p as int,
                span_end(s@, p as int, CharClass::DigitOrDash),
            ) == iso_text(d) ==> at_int(r) == Some((d, span_end(s@, p as int, CharClass::DigitOrDash))),
{
    let q = span(s, p, CharClass::DigitOrDash);
    if q == p {
        assert forall|d: Date| #[trigger] iso_text(d).len() > 0 by {}
        assert(s@.subrange(p as int, q as int).len() == 0);
        None
    } else {
        match parse_iso_text(s, p, q) {
            Some(d) => Some((d, q)),
            None => None,
        }
    }
}

fn date(s: &Vec<char>, p: usize, today: Date) -> (r: Option<(Date, usize)>)
    requires
        p <= s.len(),
        today.wf(),
    ensures
        at_int(r) == date_at(s@, p as int, today),
        r matches Some((x, e)) ==> p <= e <= s.len() && x.wf(),
{
    if let Some(x) = named_today(s, p, today) {
        return Some(x);
    }
    if let Some(x) = named_yesterday(s, p, today) {
        return Some(x);
    }
    if let Some(x) = named_tdby(s, p, today) {
        return Some(x);
    }
    if let Some(x) = cis(s, p, today) {
        return Some(x);
    }
    if let Some(x) = iso(s, p) {
        return Some(x);
    }
    offset(s, p, today)
}

fn boundary(s: &Vec<char>, p: usize, today: Date) -> (r: Option<(Boundary, usize)>)
    requires
        p <= s.len(),
        today.wf(),
    ensures
        at_int(r) == boundary_at(s@, p as int, today),
        r matches Some((b, e)) ==> p <= e <= s.len() && boundary_wf(b),
{
    let q = span(s, p, CharClass::Alpha);
    let r = span(s, q, CharClass::MultiSpace);
    if r == q {
        None
    } else {
        match date(s, r, today) {
            None => None,
            Some((d, e)) => match boundary_word(s, p, q, d) {
                Some(b) => Some((b, e)),
                None => None,
            },
        }
    }
}

fn date_range(s: &Vec<char>, p: usize, today: Date) -> (r: Option<(Bounds, usize)>)
    requires
        p <= s.len(),
        today.wf(),
    ensures
        at_int(r) == date_range_at(s@, p as int, today),
        r matches Some((b, e)) ==> p <= e <= s.len() && bounds_wf(b),
{
    let p1 = span(s, p, CharClass::MultiSpace);
    match boundary(s, p1, today) {
        None => None,
        Some((b1, e1)) => {
            let p2 = span(s, e1, CharClass::MultiSpace);
            match boundary(s, p2, today) {
                None => match b1 {
                    Boundary::From(a) => Some(((Some(a), None), e1)),
                    Boundary::To(b) => Some(((None, Some(b)), e1)),
                },
                Some((b2, e2)) => match (b1, b2) {
                    (Boundary::From(a), Boundary::To(b)) => Some(((Some(a), Some(b)), e2)),
                    (Boundary::To(b), Boundary::From(a)) => Some(((Some(a), Some(b)), e2)),
                    _ => None,
                },
            }
        },
    }
}

fn one_day(s: &Vec<char>, p: usize, today: Date) -> (r: Option<(Bounds, usize)>)
    requires
        p <= s.len(),
        today.wf(),
    ensures
        at_int(r) == one_day_at(s@, p as int, today),
        r matches Some((b, e)) ==> p <= e <= s.len() && bounds_wf(b),
{
    match date(s, p, today) {
        Some((d, e)) => Some(((Some(d), Some(d)), e)),
        None => None,
    }
}

fn amount(s: &Vec<char>, p: usize) -> (r: (u32, usize))
    requires
        p <= s.len(),
    ensures
        (r.0, r.1 as int) == amount_at(s@, p as int),
        p <= r.1 <= s.len(),
{
    let b = span(s, p, CharClass::Space);
    match number(s, b) {
        Some((n, c)) => (n, span(s, c, CharClass::Space)),
        None => (1, span(s, b, CharClass::Space)),
    }
}

fn last_range_of(today: Date, n: u32, u: TimeUnit, e: usize) -> (r: Option<(Bounds, usize)>)
    requires
        today.wf(),
    ensures
        at_int(r) == last_range(today, n as nat, u, e as int),
        r matches Some((b, _)) ==> bounds_wf(b),
{
    match (TimeOffset { amount: n, unit: u }).into_date(today) {
        Some(lo) => Some(((Some(lo), Some(today)), e)),
        None => None,
    }
}

fn last_en(s: &Vec<char>, p: usize, today: Date) -> (r: Option<(Bounds, usize)>)
    requires
        p <= s.len(),
        today.wf(),
    ensures
        at_int(r) == last_en_at(s@, p as int, today),
        r matches Some((b, e)) ==> p <= e <= s.len() && bounds_wf(b),
{
    match tag(s, p, "last") {
        None => None,
        Some(a) => {
            let (n, d) = amount(s, a);
            match time_unit(s, d) {
                None => None,
                Some((u, e)) => last_range_of(today, n, u, e),
            }
        },
    }
}

fn last_word_ru(s: &Vec<char>, p: usize) -> (r: Option<usize>)
    requires
        p <= s.len(),
    ensures
        pos_int(r) == last_word_ru_at(s@, p as int),
        r matches Some(e) ==> p <= e <= s.len(),
{
    or_else_pos(
        or_else_pos(
            or_else_pos(tag(s, p, "прошлый"), tag(s, p, "прошлых")),
            or_else_pos(tag(s, p, "прошлая"), tag(s, p, "прошлую")),
        ),
        or_else_pos(
            tag(s, p, "последних"),
            or_else_pos(tag(s, p, "последний"), tag(s, p, "последнюю")),
        ),
    )
}

fn last_ru(s: &Vec<char>, p: usize, today: Date) -> (r: Option<(Bounds, usize)>)
    requires
        p <= s.len(),
        today.wf(),
    ensures
        at_int(r) == last_ru_at(s@, p as int, today),
        r matches Some((b, e)) ==> p <= e <= s.len() && bounds_wf(b),
{
    let a = match tag(s, p, "за") {
        Some(a) => a,
        None => p,
    };
    let (n, d) = amount(s, a);
    match last_word_ru(s, d) {
        None => None,
        Some(f) => {
            let g = span(s, f, CharClass::Space);
            if g == f {
                None
            } else {
                match time_unit(s, g) {
                    None => None,
                    Some((u, e)) => last_range_of(today, n, u, e),
                }
            }
        },
    }
}

fn range(s: &Vec<char>, p: usize, today: Date) -> (r: Option<(Bounds, usize)>)
    requires
        p <= s.len(),
        today.wf(),
    ensures
        at_int(r) == range_at(s@, p as int, today),
        r matches Some((b, e)) ==> p <= e <= s.len() && bounds_wf(b),
{
    if let Some(x) = date_range(s, p, today) {
        return Some(x);
    }
    if let Some(x) = one_day(s, p, today) {
        return Some(x);
    }
    if let Some(x) = last_ru(s, p, today) {
        return Some(x);
    }
    last_en(s, p, today)
}

/// What a parser that reads the start of `input` owes: on `expected`'s value
/// and end position, that value and the text after it; on `None`, `NoMatch`.
pub open spec fn reads_as<'a, T>(
    r: Result<(&'a str, T), NoMatch>,
    input: Seq<char>,
    expected: Option<(T, int)>,
) -> bool {
    match expected {
        Some((v, e)) => match r {
            Ok((rest, x)) => x == v && rest@ == input.subrange(e, input.len() as int),
            Err(_) => false,
        },
        None => r is Err,
    }
}

/// The text after the first `e` characters of `input`.
fn rest_of<'a>(input: &'a str, v: &Vec<char>, e: usize) -> (r: &'a str)
    requires
        v@ == input@,
        e <= v.len(),
    ensures
        r@ == input@.subrange(e as int, input@.len() as int),
{
    input.substring_char(e, v.len())
}

/// Reads a relative offset (`3 weeks ago`, `year before`, `2 дня`) at the
/// start of `input` as the date it names before `today`, and returns the text
/// after it.
pub fn parse_offset<'a>(input: &'a str, today: Date) -> (r: Result<(&'a str, Date), NoMatch>)
    requires
        today.wf(),
    ensures
        reads_as(r, input@, offset_date_at(input@, 0, today)),
{
    let v = chars_of(input);
    match offset(&v, 0, today) {
        Some((d, e)) => Ok((rest_of(input, &v, e), d)),
        None => Err(NoMatch),
    }
}

/// Reads any date of the grammar at the start of `input` and returns the text
/// after it.
pub fn parse_date<'a>(input: &'a str, today: Date) -> (r: Result<(&'a str, Date), NoMatch>)
    requires
        today.wf(),
    ensures
        reads_as(r, input@, date_at(input@, 0, today)),
        r matches Ok((_, d)) ==> d.wf(),
{
    let v = chars_of(input);
    match date(&v, 0, today) {
        Some((d, e)) => Ok((rest_of(input, &v, e), d)),
        None => Err(NoMatch),
    }
}

/// Reads a `day.month[.year]` date at the start of `input`; without a year it
/// falls in the year of `today`.
pub fn cis_date<'a>(input: &'a str, today: Date) -> (r: Result<(&'a str, Date), NoMatch>)
    ensures
        reads_as(r, input@, cis_at(input@, 0, today)),
        r matches Ok((_, d)) ==> d.wf(),
{
    let v = chars_of(input);
    match cis(&v, 0, today) {
        Some((d, e)) => Ok((rest_of(input, &v, e), d)),
        None => Err(NoMatch),
    }
}

/// Reads a `YYYY-MM-DD` date at the start of `input`. The ISO text of a date
/// with a four-digit year reads back, whole, as that same date.
pub fn iso_date<'a>(input: &'a str) -> (r: Result<(&'a str, Date), NoMatch>)
    ensures
        reads_as(r, input@, iso_at(input@, 0)),
        r matches Ok((_, d)) ==> d.wf(),
        forall|d: Date|
            d.wf() && 0 <= d.year <= 9999 && input@ == iso_text(d) ==> (r matches Ok((rest, x))
                && x == d && rest@.len() == 0),
{
    let v = chars_of(input);
    proof {
        assert forall|d: Date| d.wf() && 0 <= d.year <= 9999 && input@ == iso_text(d) implies span_end(
            v@,
            0,
            CharClass::DigitOrDash,
        ) == v@.len() by {
            lemma_iso_text_digits_dashes(d);
            lemma_span_whole(v@, 0, CharClass::DigitOrDash);
        }
    }
    assert(v@.subrange(0, v@.len() as int) =~= v@);
    match iso(&v, 0) {
        Some((d, e)) => Ok((rest_of(input, &v, e), d)),
        None => Err(NoMatch),
    }
}

/// Reads a date filter at the start of `input`: optional whitespace, an
/// attribute word, whitespace and a range phrase. Returns the text after the
/// filter with the attribute and the inclusive range; an open lower bound is
/// the earliest representable day and an open upper bound the latest. A
/// phrase whose first word is no attribute is no filter at all.
pub fn attr_and_range<'a>(input: &'a str, today: Date) -> (r: Result<
    (&'a str, (Attr, RangeInclusive<Date>)),
    NoMatch,
>)
    requires
        today.wf(),
    ensures
        match filter_at(input@, today) {
            Some((a, lo, hi, e)) => match r {
                Ok((rest, (x, rng))) => x == a && rng@.start == lo && rng@.end == hi && rest@
                    == input@.subrange(e, input@.len() as int),
                Err(_) => false,
            },
            None => r is Err,
        },
        attr_of(leading_word(input@)) is None ==> r is Err,
        r matches Ok((_, (_, rng))) ==> rng@.start.wf() && rng@.end.wf(),
{
    let v = chars_of(input);
    let a = span(&v, 0, CharClass::MultiSpace);
    let q = span(&v, a, CharClass::Alpha);
    match attr_word(&v, a, q) {
        None => Err(NoMatch),
        Some(at) => {
            let b = span(&v, q, CharClass::MultiSpace);
            if b == q {
                Err(NoMatch)
            } else {
                match range(&v, b, today) {
                    None => Err(NoMatch),
                    Some(((lo, hi), e)) => {
                        let lower = match lo {
                            Some(d) => d,
                            None => Date::min(),
                        };
                        let upper = match hi {
                            Some(d) => d,
                            None => Date::max(),
                        };
                        Ok((rest_of(input, &v, e), (at, RangeInclusive::new(lower, upper))))
                    },
                }
            }
        },
    }
}

} // verus!
