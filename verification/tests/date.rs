use take_note::date::{
    date_for_header, date_from_daily_when, date_from_when, date_supported, get_batch_dates,
    iso_date, month_name, name_from_date, weekday_full_name, DailyWhen, Date, When,
};

fn ymd(y: i32, m: u32, d: u32) -> Date {
    Date::from_ymd_opt(y, m, d).unwrap()
}

#[test]
fn test_date_from_when_this_week() {
    let wed = ymd(2025, 7, 30); // Wednesday
    let mon = date_from_when(wed, When::ThisWeek);
    assert_eq!(mon, ymd(2025, 7, 28));
}

#[test]
fn test_date_from_when_last_week() {
    let wed = ymd(2025, 7, 30);
    let mon = date_from_when(wed, When::LastWeek);
    assert_eq!(mon, ymd(2025, 7, 21));
}

#[test]
fn test_date_from_when_next_week() {
    let wed = ymd(2025, 7, 30);
    let mon = date_from_when(wed, When::NextWeek);
    assert_eq!(mon, ymd(2025, 8, 4));
}

#[test]
fn test_date_from_when_monday() {
    let mon = ymd(2025, 7, 28);
    let result = date_from_when(mon, When::ThisWeek);
    assert_eq!(result, mon);
}

#[test]
fn test_date_from_daily_when() {
    let today = ymd(2025, 7, 28);
    assert_eq!(date_from_daily_when(today, DailyWhen::Today), today);
    assert_eq!(date_from_daily_when(today, DailyWhen::Yesterday), ymd(2025, 7, 27));
    assert_eq!(date_from_daily_when(today, DailyWhen::Tomorrow), ymd(2025, 7, 29));
}

#[test]
fn test_name_from_date() {
    let date = ymd(2025, 7, 28);
    let (path, name) = name_from_date(date, "Weekly-log", "md");
    assert_eq!(path, "2025/07");
    assert_eq!(name, "2025-07-28-Weekly-log.md");
}

#[test]
fn test_date_for_header() {
    let date = ymd(2025, 7, 28);
    assert_eq!(date_for_header(date), "Monday 28 July 2025");
}

#[test]
fn test_get_batch_dates() {
    let start = ymd(2025, 7, 28);
    let dates = get_batch_dates(start, 3);
    assert_eq!(dates.len(), 3);
    assert_eq!(dates[0], start);
    assert_eq!(dates[1], ymd(2025, 8, 4));
    assert_eq!(dates[2], ymd(2025, 8, 11));
}

#[test]
fn test_when_from_str() {
    assert_eq!(When::from_str("thisWeek").unwrap(), When::ThisWeek);
    assert_eq!(When::from_str("lastWeek").unwrap(), When::LastWeek);
    assert_eq!(When::from_str("nextWeek").unwrap(), When::NextWeek);
    assert!(When::from_str("invalid").is_err());
}

#[test]
fn test_daily_when_from_str() {
    assert_eq!(DailyWhen::from_str("today").unwrap(), DailyWhen::Today);
    assert_eq!(DailyWhen::from_str("yesterday").unwrap(), DailyWhen::Yesterday);
    assert_eq!(DailyWhen::from_str("tomorrow").unwrap(), DailyWhen::Tomorrow);
    assert!(DailyWhen::from_str("invalid").is_err());
}

#[test]
fn when_error_messages_name_the_options() {
    let e = When::from_str("someday").unwrap_err();
    assert_eq!(e.message(), "invalid When option, must be one of |thisWeek|nextWeek|lastWeek|");
    let e = DailyWhen::from_str("someday").unwrap_err();
    assert!(e.message().contains("invalid when option"));
}

#[test]
fn from_ymd_rejects_impossible_dates() {
    assert!(Date::from_ymd_opt(2015, 3, 14).is_some());
    assert!(Date::from_ymd_opt(2015, 0, 14).is_none());
    assert!(Date::from_ymd_opt(2015, 2, 29).is_none());
    assert!(Date::from_ymd_opt(2024, 2, 29).is_some());
    assert!(Date::from_ymd_opt(1900, 2, 29).is_none());
    assert!(Date::from_ymd_opt(2000, 2, 29).is_some());
    assert!(Date::from_ymd_opt(-4, 2, 29).is_some());
    assert!(Date::from_ymd_opt(400000, 1, 1).is_none());
}

#[test]
fn date_from_when_crosses_year_boundary() {
    // Thursday 1 January 2026 belongs to the week of Monday 29 December 2025.
    assert_eq!(date_from_when(ymd(2026, 1, 1), When::ThisWeek), ymd(2025, 12, 29));
    assert_eq!(date_from_when(ymd(2026, 1, 4), When::LastWeek), ymd(2025, 12, 22));
    // A Sunday belongs to the week that started six days earlier.
    assert_eq!(date_from_when(ymd(2025, 8, 3), When::ThisWeek), ymd(2025, 7, 28));
}

#[test]
fn daily_when_crosses_month_and_leap_day() {
    assert_eq!(date_from_daily_when(ymd(2024, 3, 1), DailyWhen::Yesterday), ymd(2024, 2, 29));
    assert_eq!(date_from_daily_when(ymd(2025, 12, 31), DailyWhen::Tomorrow), ymd(2026, 1, 1));
}

#[test]
fn batch_of_weekly_dates_are_all_mondays_a_week_apart() {
    let dates = get_batch_dates(ymd(2025, 12, 15), 4);
    assert_eq!(
        dates,
        vec![ymd(2025, 12, 15), ymd(2025, 12, 22), ymd(2025, 12, 29), ymd(2026, 1, 5)]
    );
    for d in &dates {
        assert!(date_for_header(*d).starts_with("Monday "));
    }
    assert!(get_batch_dates(ymd(2025, 12, 15), 0).is_empty());
}

#[test]
fn header_pads_day_and_year() {
    assert_eq!(date_for_header(ymd(2026, 1, 5)), "Monday 05 January 2026");
    assert_eq!(date_for_header(ymd(999, 2, 1)), "Friday 01 February 0999");
    assert_eq!(date_for_header(ymd(2025, 8, 3)), "Sunday 03 August 2025");
}

#[test]
fn names_pad_and_sign_years() {
    let (path, name) = name_from_date(ymd(-5, 3, 9), "Daily-log", "md");
    assert_eq!(path, "-005/03");
    assert_eq!(name, "-005-03-09-Daily-log.md");
    let (path, _) = name_from_date(ymd(12345, 11, 30), "x", "txt");
    assert_eq!(path, "12345/11");
}

#[test]
fn iso_date_counts_common_era_years() {
    assert_eq!(iso_date(ymd(2025, 7, 28)), "2025-07-28");
    assert_eq!(iso_date(ymd(0, 1, 1)), "0001-01-01");
}

#[test]
fn month_and_weekday_names() {
    assert_eq!(month_name(1), "January");
    assert_eq!(month_name(12), "December");
    assert_eq!(month_name(13), "Unknown");
    assert_eq!(weekday_full_name(0), "Monday");
    assert_eq!(weekday_full_name(6), "Sunday");
}

#[test]
fn supported_days_are_ordinary_dates() {
    assert!(date_supported(ymd(2025, 7, 28)));
    assert!(!date_supported(Date { year: 2025, month: 2, day: 30 }));
    assert!(!date_supported(ymd(262142, 12, 31)));
    assert!(ymd(1970, 1, 1).day_number() == 0);
    assert!(ymd(2025, 7, 28).day_number() == 20297);
    assert!(ymd(-1, 12, 31).day_number() == -719529);
}
