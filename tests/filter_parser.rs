use chrono::Datelike;
use std::ops::RangeInclusive;
use std::str::FromStr;
use tasktrack::calendar::Date;
use tasktrack::filter_parser::{
    attr_and_range, cis_date, iso_date, parse_date, parse_offset, Attr, NoMatch, TimeOffset,
    TimeUnit,
};

fn today() -> Date {
    Date::from_ymd(2025, 5, 4).unwrap()
}

fn ymd(y: i32, m: u32, d: u32) -> Date {
    Date::from_ymd(y, m, d).unwrap()
}

fn date_from_text(v: &str) -> Date {
    let d = chrono::NaiveDate::from_str(v).unwrap();
    Date::from_ymd(d.year(), d.month(), d.day()).unwrap()
}

fn filter(input: &str) -> Result<(&str, (Attr, RangeInclusive<Date>)), NoMatch> {
    attr_and_range(input, today())
}

#[test]
fn test_ok_parse_attr_range() {
    let cases = [
        ("updated today", (Attr::Updated, ("2025-05-04", "2025-05-04"))),
        ("updated last week", (Attr::Updated, ("2025-04-27", "2025-05-04"))),
        ("updated last 7 days", (Attr::Updated, ("2025-04-27", "2025-05-04"))),
        ("updated last 17 years", (Attr::Updated, ("2008-05-04", "2025-05-04"))),
        ("обновлено за последнюю неделю", (Attr::Updated, ("2025-04-27", "2025-05-04"))),
        ("обновлено за 3 последних недели", (Attr::Updated, ("2025-04-13", "2025-05-04"))),
        ("обновлено за последний год", (Attr::Updated, ("2024-05-04", "2025-05-04"))),
        ("updated after 1 year ago before now", (Attr::Updated, ("2024-05-04", "2025-05-04"))),
        ("created  before yesterday", (Attr::Created, ("MIN", "2025-05-03"))),
        ("created  after 3 weeks ago", (Attr::Created, ("2025-04-13", "MAX"))),
        ("created from 2023-06-07 to 2023-07-08", (Attr::Created, ("2023-06-07", "2023-07-08"))),
        (
            "created after 3 months before before yesterday",
            (Attr::Created, ("2025-02-04", "2025-05-03")),
        ),
        ("обновлено со вчера до сегодня", (Attr::Updated, ("2025-05-03", "2025-05-04"))),
        ("обновлено с 3 дня назад до позавчера", (Attr::Updated, ("2025-05-01", "2025-05-02"))),
        ("обновлено с 02.03.2022 по 31.08", (Attr::Updated, ("2022-03-02", "2025-08-31"))),
    ];

    for (input, (expected_attr, (from, to))) in cases {
        let from_dt = match from {
            "MIN" => Date::min(),
            v => date_from_text(v),
        };
        let to_dt = match to {
            "MAX" => Date::max(),
            v => date_from_text(v),
        };
        let expected_range = from_dt..=to_dt;

        let result = filter(input);
        assert!(result.is_ok(), "case '{input}' failed: {:?}", result.err());
        let (tail, (attr, range)) = result.unwrap();
        assert!(tail.is_empty(), "case '{input}' failed");
        assert_eq!(attr, expected_attr, "case '{input}' failed");
        assert_eq!(range, expected_range, "case '{input}' failed");
    }
}

#[test]
fn test_parse_ru_date() {
    assert_eq!(
        cis_date("02.03", today()).map(|(x, y)| (x, y.to_iso_string())),
        Ok(("", "2025-03-02".to_string()))
    );

    assert_eq!(
        cis_date("31.03.2021", today()).map(|(x, y)| (x, y.to_iso_string())),
        Ok(("", "2021-03-31".to_string()))
    );
}

#[test]
fn updated_today_is_one_day() {
    let (_, (attr, range)) = filter("updated today").unwrap();
    assert_eq!(attr, Attr::Updated);
    assert_eq!(range, ymd(2025, 5, 4)..=ymd(2025, 5, 4));
}

#[test]
fn last_week_equals_last_seven_days() {
    let a = filter("updated last week").unwrap();
    let b = filter("updated last 7 days").unwrap();
    assert_eq!(a, b);
    assert_eq!(a.1 .1, ymd(2025, 4, 27)..=ymd(2025, 5, 4));
}

#[test]
fn before_yesterday_is_open_below() {
    let (_, (attr, range)) = filter("created before yesterday").unwrap();
    assert_eq!(attr, Attr::Created);
    assert_eq!(range, Date::min()..=ymd(2025, 5, 3));
}

#[test]
fn after_weeks_ago_is_open_above() {
    let (_, (attr, range)) = filter("created after 3 weeks ago").unwrap();
    assert_eq!(attr, Attr::Created);
    assert_eq!(range, ymd(2025, 4, 13)..=Date::max());
}

#[test]
fn boundary_order_is_irrelevant() {
    let a = filter("created from 2023-06-07 to 2023-07-08").unwrap();
    let b = filter("created to 2023-07-08 from 2023-06-07").unwrap();
    assert_eq!(a.1 .1, ymd(2023, 6, 7)..=ymd(2023, 7, 8));
    assert_eq!(a, b);
}

#[test]
fn russian_yesterday_to_today() {
    let (_, (attr, range)) = filter("обновлено со вчера до сегодня").unwrap();
    assert_eq!(attr, Attr::Updated);
    assert_eq!(range, ymd(2025, 5, 3)..=ymd(2025, 5, 4));
}

#[test]
fn day_month_takes_current_year() {
    let (_, (attr, range)) = filter("обновлено с 02.03.2022 по 31.08").unwrap();
    assert_eq!(attr, Attr::Updated);
    assert_eq!(range, ymd(2022, 3, 2)..=ymd(2025, 8, 31));
}

#[test]
fn iso_rendering_reads_back() {
    for d in [ymd(2025, 5, 4), ymd(2008, 5, 4), ymd(2024, 2, 29), ymd(1, 1, 1), ymd(9999, 12, 31)] {
        let text = d.to_iso_string();
        assert_eq!(iso_date(&text), Ok(("", d)));
    }
    let (_, (_, range)) = filter("created from 2023-06-07 to 2023-07-08").unwrap();
    for d in [*range.start(), *range.end()] {
        let text = d.to_iso_string();
        assert_eq!(iso_date(&text), Ok(("", d)));
    }
}

#[test]
fn iso_rendering_of_extremes() {
    assert_eq!(Date::min().to_iso_string(), "-262143-01-01");
    assert_eq!(Date::max().to_iso_string(), "+262142-12-31");
    assert_eq!(ymd(12, 3, 4).to_iso_string(), "0012-03-04");
}

#[test]
fn unknown_attribute_fails_whole() {
    assert_eq!(filter("modified today"), Err(NoMatch));
    assert_eq!(filter("изменено сегодня"), Err(NoMatch));
    assert_eq!(filter("today"), Err(NoMatch));
    assert_eq!(filter(""), Err(NoMatch));
}

#[test]
fn last_units_bounds() {
    let cases = [
        ("updated last 3 days", ymd(2025, 5, 1)),
        ("updated last 2 weeks", ymd(2025, 4, 20)),
        ("updated last 5 months", ymd(2024, 12, 4)),
        ("updated last 2 years", ymd(2023, 5, 4)),
        ("updated last month", ymd(2025, 4, 4)),
        ("updated last10days", ymd(2025, 4, 24)),
        ("обновлено 2 прошлых месяца", ymd(2025, 3, 4)),
        ("обновлено за прошлую неделю", ymd(2025, 4, 27)),
    ];
    for (input, lower) in cases {
        let (tail, (_, range)) = filter(input).unwrap();
        assert!(tail.is_empty(), "case '{input}'");
        assert_eq!(range, lower..=today(), "case '{input}'");
    }
}

#[test]
fn months_clamp_to_month_end() {
    let t = ymd(2025, 3, 31);
    let (_, (_, range)) = attr_and_range("updated last month", t).unwrap();
    assert_eq!(*range.start(), ymd(2025, 2, 28));
    let leap = ymd(2024, 2, 29);
    let (_, (_, range)) = attr_and_range("created last year", leap).unwrap();
    assert_eq!(*range.start(), ymd(2023, 2, 28));
}

#[test]
fn huge_amounts_fail_without_panic() {
    assert_eq!(filter("updated last 99999999999 days"), Err(NoMatch));
    assert_eq!(filter("updated last 4000000000 years"), Err(NoMatch));
    assert_eq!(filter("updated after 4000000000 days ago"), Err(NoMatch));
}

#[test]
fn repeated_boundary_kind_fails() {
    assert_eq!(filter("created from today from yesterday"), Err(NoMatch));
    assert_eq!(filter("created to today to yesterday"), Err(NoMatch));
}

#[test]
fn reversed_bounds_are_kept() {
    let (_, (_, range)) = filter("created from 2024-01-01 to 2023-01-01").unwrap();
    assert_eq!(range, ymd(2024, 1, 1)..=ymd(2023, 1, 1));
    assert!(range.is_empty());
}

#[test]
fn remainder_is_returned() {
    let (tail, (attr, range)) = filter("  created yesterday buy milk").unwrap();
    assert_eq!(tail, " buy milk");
    assert_eq!(attr, Attr::Created);
    assert_eq!(range, ymd(2025, 5, 3)..=ymd(2025, 5, 3));
}

#[test]
fn invalid_calendar_dates_fail() {
    assert_eq!(cis_date("31.02", today()), Err(NoMatch));
    assert_eq!(cis_date("1.2.3.4", today()), Err(NoMatch));
    assert_eq!(cis_date("12", today()), Err(NoMatch));
    assert_eq!(cis_date("1..2", today()), Err(NoMatch));
    assert_eq!(cis_date("1.13", today()), Err(NoMatch));
    assert_eq!(cis_date("1.1.4294967295", today()), Err(NoMatch));
    assert_eq!(iso_date("2023-02-30"), Err(NoMatch));
    assert_eq!(iso_date("2023-02"), Err(NoMatch));
    assert_eq!(filter("created 2023-13-01"), Err(NoMatch));
}

#[test]
fn dates_of_each_kind() {
    assert_eq!(parse_date("позавчера", today()), Ok(("", ymd(2025, 5, 2))));
    assert_eq!(parse_date("вчера!", today()), Ok(("!", ymd(2025, 5, 3))));
    assert_eq!(parse_date("now", today()), Ok(("", today())));
    assert_eq!(parse_date("сейчас", today()), Ok(("", today())));
    assert_eq!(parse_date("1.1.2020 x", today()), Ok((" x", ymd(2020, 1, 1))));
    assert_eq!(parse_date("2020-01-02", today()), Ok(("", ymd(2020, 1, 2))));
    assert_eq!(parse_date("week", today()), Err(NoMatch));
}

#[test]
fn offsets() {
    assert_eq!(parse_offset("3 weeks ago", today()), Ok(("", ymd(2025, 4, 13))));
    assert_eq!(parse_offset("week ago", today()), Ok(("", ymd(2025, 4, 27))));
    assert_eq!(parse_offset("2 дня назад", today()), Ok(("", ymd(2025, 5, 2))));
    assert_eq!(parse_offset("2 days", today()), Ok(("", ymd(2025, 5, 2))));
    assert_eq!(parse_offset("2 days later", today()), Ok((" later", ymd(2025, 5, 2))));
    assert_eq!(parse_offset("month before", today()), Ok(("", ymd(2025, 4, 4))));
    assert_eq!(parse_offset("week", today()), Err(NoMatch));
    assert_eq!(parse_offset("3weeks", today()), Err(NoMatch));
}

#[test]
fn word_tables() {
    assert_eq!(TimeUnit::parse("недель"), Some(TimeUnit::Weeks));
    assert_eq!(TimeUnit::parse("лет"), Some(TimeUnit::Years));
    assert_eq!(TimeUnit::parse("Days"), None);
    assert_eq!(Attr::parse("создано"), Some(Attr::Created));
    assert_eq!(Attr::parse("updated"), Some(Attr::Updated));
    assert_eq!(Attr::parse("update"), None);
}

#[test]
fn offset_into_date() {
    let off = TimeOffset { amount: 3, unit: TimeUnit::Months };
    assert_eq!(off.into_date(today()), Some(ymd(2025, 2, 4)));
    let off = TimeOffset { amount: 1, unit: TimeUnit::Days };
    assert_eq!(off.into_date(Date::min()), None);
}

#[test]
fn date_arithmetic_and_order() {
    assert_eq!(ymd(2025, 1, 1).sub_days(1), Some(ymd(2024, 12, 31)));
    assert_eq!(ymd(2024, 3, 1).sub_days(1), Some(ymd(2024, 2, 29)));
    assert_eq!(ymd(2025, 5, 31).sub_months(1), Some(ymd(2025, 4, 30)));
    assert_eq!(Date::min().sub_months(1), None);
    assert_eq!(Date::from_ymd(2023, 2, 29), None);
    assert!(ymd(2024, 12, 31) < ymd(2025, 1, 1));
    assert!(ymd(2025, 1, 2) > ymd(2025, 1, 1));
    assert!((ymd(2025, 1, 1)..=ymd(2025, 1, 31)).contains(&ymd(2025, 1, 15)));
}
