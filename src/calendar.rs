//! Calendar dates in the proleptic Gregorian calendar, as chrono's `NaiveDate`
//! represents them, held as plain year, month and day.

use chrono::Datelike;
use vstd::prelude::*;
use vstd::string::StringExecFns;

verus! {

/// The earliest year that a `Date` can hold.
pub const MIN_YEAR: i32 = -262143;

/// The latest year that a `Date` can hold.
pub const MAX_YEAR: i32 = 262142;

/// A calendar date. It is well formed (`wf`) when it names a real day between
/// `Date::min()` (January 1 of `MIN_YEAR`) and `Date::max()` (December 31 of
/// `MAX_YEAR`).
#[derive(Debug, Clone, Copy, PartialEq, Eq, Structural)]
pub struct Date {
    pub year: i32,
    pub month: u32,
    pub day: u32,
}

pub open spec fn is_leap_year(y: int) -> bool {
    (y % 4 == 0 && y % 100 != 0) || y % 400 == 0
}

pub open spec fn days_in_month(y: int, m: int) -> int {
    if m == 2 {
        if is_leap_year(y) { 29 } else { 28 }
    } else if m == 4 || m == 6 || m == 9 || m == 11 {
        30
    } else {
        31
    }
}

/// Whether year, month and day name a real day within the representable years.
pub open spec fn valid_ymd(y: int, m: int, d: int) -> bool {
    &&& MIN_YEAR <= y <= MAX_YEAR
    &&& 1 <= m <= 12
    &&& 1 <= d <= days_in_month(y, m)
}

/// The date of the given year, month and day, when there is one.
pub open spec fn date_of(y: int, m: int, d: int) -> Option<Date> {
    if valid_ymd(y, m, d) {
        Some(Date { year: y as i32, month: m as u32, day: d as u32 })
    } else {
        None
    }
}

/// The day before `d`, unless `d` is the earliest representable day.
pub open spec fn prev_day(d: Date) -> Option<Date> {
    if d.day > 1 {
        Some(Date { year: d.year, month: d.month, day: (d.day - 1) as u32 })
    } else if d.month > 1 {
        Some(
            Date {
                year: d.year,
                month: (d.month - 1) as u32,
                day: days_in_month(d.year as int, d.month - 1) as u32,
            },
        )
    } else if d.year > MIN_YEAR {
        Some(Date { year: (d.year - 1) as i32, month: 12, day: 31 })
    } else {
        None
    }
}

/// The date `n` calendar days before `d`, unless it falls before the earliest
/// representable day.
pub open spec fn days_before(d: Date, n: nat) -> Option<Date>
    decreases n,
{
    if n == 0 {
        Some(d)
    } else {
        match days_before(d, (n - 1) as nat) {
            Some(x) => prev_day(x),
            None => None,
        }
    }
}

pub open spec fn min_int(a: int, b: int) -> int {
    if a <= b { a } else { b }
}

/// The date `n` months before `d`, keeping the day of the month where the
/// target month has it and taking the target month's last day where it does
/// not; none when the target year is before `MIN_YEAR`.
pub open spec fn months_before(d: Date, n: nat) -> Option<Date> {
    let t = d.year * 12 + (d.month - 1) - n;
    let y = t / 12;
    let m = t % 12 + 1;
    if y < MIN_YEAR {
        None
    } else {
        Some(Date { year: y as i32, month: m as u32, day: min_int(d.day as int, days_in_month(y, m)) as u32 })
    }
}

/// The decimal digit character for `k` in `0..10`.
pub open spec fn digit_char(k: int) -> char {
    if k == 0 {
        '0'
    } else if k == 1 {
        '1'
    } else if k == 2 {
        '2'
    } else if k == 3 {
        '3'
    } else if k == 4 {
        '4'
    } else if k == 5 {
        '5'
    } else if k == 6 {
        '6'
    } else if k == 7 {
        '7'
    } else if k == 8 {
        '8'
    } else {
        '9'
    }
}

/// The decimal digits of `n`, zero-padded on the left to at least `width`.
pub open spec fn decimal(n: nat, width: nat) -> Seq<char>
    decreases n + width,
{
    if n == 0 && width == 0 {
        Seq::empty()
    } else {
        decimal(n / 10, if width > 0 { (width - 1) as nat } else { 0 }).push(digit_char(n as int % 10))
    }
}

/// The ISO 8601 text of a date, `YYYY-MM-DD`: the year takes four digits,
/// with a sign and more digits where it lies outside `0..=9999`.
pub open spec fn iso_text(d: Date) -> Seq<char> {
    let y = d.year as int;
    let year_text = if 0 <= y <= 9999 {
        decimal(y as nat, 4)
    } else if y < 0 {
        seq!['-'] + decimal((-y) as nat, 4)
    } else {
        seq!['+'] + decimal(y as nat, 4)
    };
    year_text + seq!['-'] + decimal(d.month as nat, 2) + seq!['-'] + decimal(d.day as nat, 2)
}

proof fn lemma_decimal_digits(n: nat, width: nat)
    ensures
        forall|k: int|
            0 <= k < decimal(n, width).len() ==> '0' <= #[trigger] decimal(n, width)[k] <= '9',
    decreases n + width,
{
    if !(n == 0 && width == 0) {
        let w = if width > 0 { (width - 1) as nat } else { 0 };
        lemma_decimal_digits(n / 10, w);
        let c = digit_char(n as int % 10);
        assert('0' <= c <= '9');
        assert(decimal(n, width) == decimal(n / 10, w).push(c));
        assert forall|k: int| 0 <= k < decimal(n, width).len() implies '0' <= #[trigger] decimal(
            n,
            width,
        )[k] <= '9' by {
            if k < decimal(n / 10, w).len() {
                assert(decimal(n, width)[k] == decimal(n / 10, w)[k]);
            }
        }
    }
}

/// The ISO text of a date with a four-digit year holds only digits and dashes.
pub proof fn lemma_iso_text_digits_dashes(d: Date)
    requires
        0 <= d.year <= 9999,
    ensures
        forall|k: int|
            0 <= k < iso_text(d).len() ==> ('0' <= #[trigger] iso_text(d)[k] <= '9' || iso_text(d)[k]
                == '-'),
{
    lemma_decimal_digits(d.year as nat, 4);
    lemma_decimal_digits(d.month as nat, 2);
    lemma_decimal_digits(d.day as nat, 2);
}

/// What chrono's `NaiveDate::parse_from_str(text, "%Y-%m-%d")` reads from a text.
pub uninterp spec fn iso_parsed(text: Seq<char>) -> Option<Date>;

/// Relies on chrono's `NaiveDate::parse_from_str` with the format `%Y-%m-%d`,
/// applied to the characters from `p` to `q`: its answer depends on the text
/// alone, a date it returns is a real day within chrono's range, and the text
/// of a date with a four-digit year reads back as that date.
#[verifier::external_body]
pub(crate) fn parse_iso_text(s: &Vec<char>, p: usize, q: usize) -> (r: Option<Date>)
    requires
        p <= q <= s.len(),
    ensures
        r == iso_parsed(s@.subrange(p as int, q as int)),
        r matches Some(x) ==> x.wf(),
        forall|d: Date|
            d.wf() && 0 <= d.year <= 9999 && s@.subrange(p as int, q as int) == iso_text(d)
                ==> r == Some(d),
{
    let text: String = s[p..q].iter().collect();
    chrono::NaiveDate::parse_from_str(&text, "%Y-%m-%d").ok().map(
        |x| Date { year: x.year(), month: x.month(), day: x.day() },
    )
}

/// The order of dates in time: by year, then month, then day.
pub open spec fn date_cmp(a: Date, b: Date) -> core::cmp::Ordering {
    if a.year < b.year || (a.year == b.year && (a.month < b.month || (a.month == b.month && a.day
        < b.day))) {
        core::cmp::Ordering::Less
    } else if a == b {
        core::cmp::Ordering::Equal
    } else {
        core::cmp::Ordering::Greater
    }
}

impl PartialOrd for Date {
    fn partial_cmp(&self, other: &Date) -> (r: Option<core::cmp::Ordering>)
        ensures
            r == Some(date_cmp(*self, *other)),
    {
        if self.year < other.year || (self.year == other.year && (self.month < other.month || (
        self.month == other.month && self.day < other.day))) {
            Some(core::cmp::Ordering::Less)
        } else if self.year == other.year && self.month == other.month && self.day == other.day {
            Some(core::cmp::Ordering::Equal)
        } else {
            Some(core::cmp::Ordering::Greater)
        }
    }
}

impl vstd::std_specs::cmp::PartialOrdSpecImpl for Date {
    open spec fn obeys_partial_cmp_spec() -> bool {
        true
    }

    open spec fn partial_cmp_spec(&self, other: &Date) -> Option<core::cmp::Ordering> {
        Some(date_cmp(*self, *other))
    }
}

/// The one-character text of the digit `k`.
fn digit_str(k: u32) -> (r: &'static str)
    requires
        k < 10,
    ensures
        r@ == seq![digit_char(k as int)],
{
    proof {
        reveal_strlit("0");
        reveal_strlit("1");
        reveal_strlit("2");
        reveal_strlit("3");
        reveal_strlit("4");
        reveal_strlit("5");
        reveal_strlit("6");
        reveal_strlit("7");
        reveal_strlit("8");
        reveal_strlit("9");
    }
    if k == 0 {
        "0"
    } else if k == 1 {
        "1"
    } else if k == 2 {
        "2"
    } else if k == 3 {
        "3"
    } else if k == 4 {
        "4"
    } else if k == 5 {
        "5"
    } else if k == 6 {
        "6"
    } else if k == 7 {
        "7"
    } else if k == 8 {
        "8"
    } else {
        "9"
    }
}

/// Appends the decimal digits of `n`, zero-padded to at least `width`.
fn push_decimal(out: &mut String, n: u32, width: u32)
    ensures
        final(out)@ == old(out)@ + decimal(n as nat, width as nat),
    decreases n + width,
{
    if n == 0 && width == 0 {
        assert(old(out)@ + decimal(0, 0) =~= old(out)@);
        return;
    }
    let w = if width > 0 { width - 1 } else { 0 };
    push_decimal(out, n / 10, w);
    out.append(digit_str(n % 10));
    assert(decimal(n as nat, width as nat) == decimal((n / 10) as nat, w as nat).push(
        digit_char(n as int % 10),
    ));
    assert(final(out)@ =~= old(out)@ + decimal(n as nat, width as nat));
}

impl Date {
    /// The ISO 8601 text of this date, such as `2025-05-04`.
    pub fn to_iso_string(&self) -> (r: String)
        ensures
            r@ == iso_text(*self),
    {
        let mut out = String::new();
        let y = self.year;
        proof {
            reveal_strlit("-");
            reveal_strlit("+");
        }
        if 0 <= y && y <= 9999 {
            push_decimal(&mut out, y as u32, 4);
        } else if y < 0 {
            out.append("-");
            push_decimal(&mut out, (-(y as i64)) as u32, 4);
        } else {
            out.append("+");
            push_decimal(&mut out, y as u32, 4);
        }
        let ghost year_text = out@;
        out.append("-");
        push_decimal(&mut out, self.month, 2);
        out.append("-");
        push_decimal(&mut out, self.day, 2);
        assert(out@ =~= year_text + seq!['-'] + decimal(self.month as nat, 2) + seq!['-']
            + decimal(self.day as nat, 2));
        out
    }
}

impl Date {
    pub open spec fn wf(self) -> bool {
        valid_ymd(self.year as int, self.month as int, self.day as int)
    }

    pub open spec fn spec_min() -> Date {
        Date { year: MIN_YEAR, month: 1, day: 1 }
    }

    pub open spec fn spec_max() -> Date {
        Date { year: MAX_YEAR, month: 12, day: 31 }
    }

    /// The earliest representable day.
    pub fn min() -> (r: Date)
        ensures
            r == Date::spec_min(),
            r.wf(),
    {
        Date { year: MIN_YEAR, month: 1, day: 1 }
    }

    /// The latest representable day.
    pub fn max() -> (r: Date)
        ensures
            r == Date::spec_max(),
            r.wf(),
    {
        Date { year: MAX_YEAR, month: 12, day: 31 }
    }

    /// The date of the given year, month and day, or `None` where there is no
    /// such day.
    pub fn from_ymd(year: i32, month: u32, day: u32) -> (r: Option<Date>)
        ensures
            r == date_of(year as int, month as int, day as int),
    {
        ymd(year, month, day)
    }

    /// The date `n` calendar days earlier, or `None` where it is out of range.
    pub fn sub_days(self, n: u64) -> (r: Option<Date>)
        requires
            self.wf(),
        ensures
            r == days_before(self, n as nat),
            r matches Some(x) ==> x.wf(),
    {
        proof {
            lemma_days_before_wf(self, n as nat);
        }
        checked_sub_days(self, n)
    }

    /// The date `n` months earlier, with the day clamped to the end of the
    /// target month, or `None` where it is out of range.
    pub fn sub_months(self, n: u32) -> (r: Option<Date>)
        requires
            self.wf(),
        ensures
            r == months_before(self, n as nat),
            r matches Some(x) ==> x.wf(),
    {
        proof {
            lemma_months_before_wf(self, n as nat);
        }
        checked_sub_months(self, n)
    }
}

/// Every day that lies some days before a well-formed date is well formed.
pub proof fn lemma_days_before_wf(d: Date, n: nat)
    requires
        d.wf(),
    ensures
        days_before(d, n) matches Some(x) ==> x.wf(),
    decreases n,
{
    if n > 0 {
        lemma_days_before_wf(d, (n - 1) as nat);
    }
}

/// Every day that lies some months before a well-formed date is well formed.
pub proof fn lemma_months_before_wf(d: Date, n: nat)
    requires
        d.wf(),
    ensures
        months_before(d, n) matches Some(x) ==> x.wf(),
{
    let t = d.year * 12 + (d.month - 1) - n;
    assert(t / 12 <= d.year) by (nonlinear_arith)
        requires
            t <= d.year * 12 + 11,
    ;
}

/// Relies on chrono's `NaiveDate::from_ymd_opt`: a date exactly when year,
/// month and day name a real day within chrono's range of years.
#[verifier::external_body]
fn ymd(year: i32, month: u32, day: u32) -> (r: Option<Date>)
    ensures
        r == date_of(year as int, month as int, day as int),
{
    chrono::NaiveDate::from_ymd_opt(year, month, day).map(
        |x| Date { year: x.year(), month: x.month(), day: x.day() },
    )
}

/// Relies on chrono's `NaiveDate::checked_sub_days`: the date that many days
/// earlier, or `None` when it would fall before `NaiveDate::MIN`.
#[verifier::external_body]
fn checked_sub_days(d: Date, n: u64) -> (r: Option<Date>)
    requires
        d.wf(),
    ensures
        r == days_before(d, n as nat),
{
    let nd = chrono::NaiveDate::from_ymd_opt(d.year, d.month, d.day).unwrap();
    nd.checked_sub_days(chrono::Days::new(n)).map(
        |x| Date { year: x.year(), month: x.month(), day: x.day() },
    )
}

/// Relies on chrono's `NaiveDate::checked_sub_months`: the same day that many
/// months earlier, clamped to the last day of a shorter month, or `None` when
/// the target year is out of range.
#[verifier::external_body]
fn checked_sub_months(d: Date, n: u32) -> (r: Option<Date>)
    requires
        d.wf(),
    ensures
        r == months_before(d, n as nat),
{
    let nd = chrono::NaiveDate::from_ymd_opt(d.year, d.month, d.day).unwrap();
    nd.checked_sub_months(chrono::Months::new(n)).map(
        |x| Date { year: x.year(), month: x.month(), day: x.day() },
    )
}

} // verus!
