use chrono::naive::NaiveDateTime;
use chrono::{Datelike, Timelike};
use job_scheduler::models::run_at::{DateTime, RunAt};

const FORMAT: &str = "%Y-%m-%d %H:%M:%S";

fn parse_datetime(value: &str) -> DateTime {
    let dt = NaiveDateTime::parse_from_str(value, FORMAT).unwrap();
    DateTime::new(
        dt.date().year() as u16,
        dt.date().month() as u8,
        dt.date().day() as u8,
        dt.time().hour() as u8,
        dt.time().minute() as u8,
        (dt.date().weekday().num_days_from_sunday() % 7) as u8,
    )
}

#[test]
fn match_datetime_minutes() {
    // this should always return a match for 10, 20, 30, 40, 50 minutes past the hour
    let runat = RunAt::with_minutes(&vec![10u8, 20u8, 30u8, 40u8, 50u8]);

    let dt = parse_datetime("2022-01-01 10:00:00");
    assert_eq!(runat.match_datetime(&dt), false);

    let dt = parse_datetime("2022-01-01 20:10:00");
    assert_eq!(runat.match_datetime(&dt), true);

    let dt = parse_datetime("2022-01-01 00:20:00");
    assert_eq!(runat.match_datetime(&dt), true);

    let dt = parse_datetime("2022-01-01 01:30:00");
    assert_eq!(runat.match_datetime(&dt), true);
}

#[test]
fn match_datetime_hours_and_minutes() {
    // this should always return a match for 10, 20, 30, 40, 50 minutes past the hour
    let mut runat = RunAt::with_minutes(&vec![10u8, 20u8, 30u8]);
    runat.hours = vec![10u8, 20u8, 0u8, 1u8];

    let dt = parse_datetime("2022-01-01 20:00:00");
    assert_eq!(runat.match_datetime(&dt), false);

    let dt = parse_datetime("2022-01-01 10:10:00");
    assert_eq!(runat.match_datetime(&dt), true);

    let dt = parse_datetime("2022-01-01 00:20:00");
    assert_eq!(runat.match_datetime(&dt), true);

    let dt = parse_datetime("2022-01-01 01:30:00");
    assert_eq!(runat.match_datetime(&dt), true);

    runat.years = vec![1950u16];
    let dt = parse_datetime("2022-01-01 01:30:00");
    assert_eq!(runat.match_datetime(&dt), false);

    runat.years = vec![2022u16];
    runat.months = vec![1u8, 3u8, 12u8];
    let dt = parse_datetime("2022-03-01 01:30:00");
    assert_eq!(runat.match_datetime(&dt), true);
}

#[test]
fn run_at_new() {
    let runat = RunAt::new();

    assert!(runat.minutes.is_empty());
    assert!(runat.hours.is_empty());
    assert!(runat.days_of_month.is_empty());
    assert!(runat.days_of_week.is_empty());
    assert!(runat.months.is_empty());
    assert!(runat.years.is_empty());

    assert!(runat.is_valid())
}

#[test]
fn with_minutes() {
    let minutes = vec![20u8, 30u8, 40u8];
    let runat = RunAt::with_minutes(&minutes);

    assert_eq!(runat.minutes, minutes);

    assert!(runat.hours.is_empty());
    assert!(runat.days_of_month.is_empty());
    assert!(runat.days_of_week.is_empty());
    assert!(runat.months.is_empty());
    assert!(runat.years.is_empty());

    assert!(runat.is_valid())
}

#[test]
fn with_minutes_ignore() {
    let minutes = vec![20u8, 100u8];
    let runat = RunAt::with_minutes(&minutes);

    assert_ne!(runat.minutes, minutes);
    assert_eq!(runat.minutes, vec![20u8]);

    assert!(runat.hours.is_empty());
    assert!(runat.days_of_month.is_empty());
    assert!(runat.days_of_week.is_empty());
    assert!(runat.months.is_empty());
    assert!(runat.years.is_empty());

    assert!(runat.is_valid())
}

#[test]
fn empty_spec_is_a_wildcard() {
    let runat = RunAt::new();
    // with no constraints at all, every timestamp matches
    assert!(runat.match_datetime(&parse_datetime("2022-01-01 10:00:00")));
    assert!(runat.match_datetime(&parse_datetime("1999-12-31 23:59:00")));
}

#[test]
fn day_of_week_is_checked() {
    // 2022-01-01 is a Saturday, so day_of_week is 6
    let dt = parse_datetime("2022-01-01 12:00:00");
    assert_eq!(dt.day_of_week, 6u8);

    let mut runat = RunAt::new();
    runat.days_of_week = vec![6u8];
    assert!(runat.match_datetime(&dt));

    runat.days_of_week = vec![0u8];
    assert!(!runat.match_datetime(&dt));
}

#[test]
fn is_valid_rejects_out_of_range_values() {
    let mut runat = RunAt::new();
    assert!(runat.is_valid());

    runat.hours = vec![10u8, 99u8];
    assert!(!runat.is_valid());

    runat.hours = vec![10u8, 23u8];
    runat.months = vec![1u8, 12u8];
    runat.years = vec![2022u16];
    assert!(runat.is_valid());

    runat.years = vec![3000u16];
    assert!(!runat.is_valid());
}

#[test]
fn valid_minute_and_hour_bounds() {
    let runat = RunAt::new();
    assert!(runat.valid_minute(0u8));
    assert!(runat.valid_minute(59u8));
    assert!(!runat.valid_minute(60u8));
    assert!(runat.valid_hour(0u8));
    assert!(runat.valid_hour(23u8));
    assert!(!runat.valid_hour(24u8));
}
