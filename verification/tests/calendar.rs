use chrono::Datelike;
use untis_telegram_bot::calendar::{Date, Time, MAX_DAYS, MIN_DAYS};
use untis_telegram_bot::utils::next_friday;
use untis_telegram_bot::work::timetable_horizon;

#[test]
fn next_friday_test() {
    let date = Date::from_ymd(2025, 5, 27).unwrap(); // Tuesday
    let next_friday_date = next_friday(date);
    assert_eq!(
        next_friday_date,
        Date::from_ymd(2025, 5, 30).unwrap() // Friday
    );
}

#[test]
fn next_friday_of_a_friday_is_the_same_day() {
    let friday = Date::from_ymd(2025, 5, 30).unwrap();
    assert_eq!(next_friday(friday), friday);
    let saturday = Date::from_ymd(2025, 5, 31).unwrap();
    assert_eq!(next_friday(saturday), Date::from_ymd(2025, 6, 6).unwrap());
    for d in 0..7u32 {
        let day = Date::from_ymd(2025, 6, 1 + d).unwrap();
        let f = next_friday(day);
        assert_eq!(f.weekday_from_monday(), 4);
        let gap = f.days_from_ce() - day.days_from_ce();
        assert!((0..7).contains(&gap));
    }
}

#[test]
fn weekday_counts_from_monday() {
    assert_eq!(Date::from_ymd(2025, 5, 26).unwrap().weekday_from_monday(), 0);
    assert_eq!(Date::from_ymd(2025, 5, 27).unwrap().weekday_from_monday(), 1);
    assert_eq!(Date::from_ymd(1, 1, 1).unwrap().days_from_ce(), 1);
    assert_eq!(Date::from_ymd(1, 1, 1).unwrap().weekday_from_monday(), 0);
}

#[test]
fn day_number_bounds_are_those_of_chrono() {
    assert_eq!(chrono::NaiveDate::MIN.num_days_from_ce(), MIN_DAYS);
    assert_eq!(chrono::NaiveDate::MAX.num_days_from_ce(), MAX_DAYS);
    assert!(Date::from_days(MIN_DAYS).is_some());
    assert!(Date::from_days(MIN_DAYS - 1).is_none());
    assert!(Date::from_days(MAX_DAYS + 1).is_none());
}

#[test]
fn invalid_calendar_dates_are_refused() {
    assert!(Date::from_ymd(2025, 2, 30).is_none());
    assert!(Date::from_ymd(2025, 13, 1).is_none());
    assert!(Date::from_ymd(2024, 2, 29).is_some());
}

#[test]
fn dates_and_times_are_written_as_chrono_writes_them() {
    let d = Date::from_ymd(2025, 5, 27).unwrap();
    assert_eq!(d.to_iso_string(), "2025-05-27");
    assert_eq!(d.format("%A"), "Tuesday");
    assert_eq!(d.format("%a %d/%m/%y"), "Tue 27/05/25");
    let t = Time::from_hms(8, 5, 9).unwrap();
    assert_eq!(t.seconds_from_midnight(), 8 * 3600 + 5 * 60 + 9);
    assert_eq!(t.to_hms_string(), "08:05:09");
    assert_eq!(t.to_hm_string(), "08:05");
    assert!(Time::from_hms(24, 0, 0).is_none());
    assert!(Time::from_hms(23, 60, 0).is_none());
}

#[test]
fn timetable_reaches_two_weeks_past_next_friday() {
    let today = Date::from_ymd(2025, 5, 27).unwrap();
    assert_eq!(timetable_horizon(today), Date::from_ymd(2025, 6, 13).unwrap());
}

#[test]
fn day_numbers_follow_the_proleptic_gregorian_calendar() {
    assert_eq!(Date::from_ymd(1, 1, 1).unwrap().days_from_ce(), 1);
    assert_eq!(Date::from_ymd(1, 3, 1).unwrap().days_from_ce(), 60);
    assert_eq!(Date::from_ymd(0, 12, 31).unwrap().days_from_ce(), 0);
    assert_eq!(Date::from_ymd(0, 1, 1).unwrap().days_from_ce(), -365);
    assert_eq!(Date::from_ymd(-262143, 1, 1).unwrap().days_from_ce(), MIN_DAYS);
    assert_eq!(Date::from_ymd(262142, 12, 31).unwrap().days_from_ce(), MAX_DAYS);
    assert!(Date::from_ymd(262143, 1, 1).is_none());
    assert!(Date::from_ymd(-262144, 12, 31).is_none());
    assert!(Date::from_ymd(1900, 2, 29).is_none());
    assert!(Date::from_ymd(2000, 2, 29).is_some());
}

#[test]
fn years_outside_four_digits_carry_a_sign() {
    assert_eq!(Date::from_ymd(5, 6, 7).unwrap().to_iso_string(), "0005-06-07");
    assert_eq!(Date::from_days(MIN_DAYS).unwrap().to_iso_string(), "-262143-01-01");
    assert_eq!(Date::from_days(MAX_DAYS).unwrap().to_iso_string(), "+262142-12-31");
    assert_eq!(Date::from_ymd(-1, 1, 1).unwrap().to_iso_string(), "-0001-01-01");
    assert_eq!(Date::from_ymd(10000, 1, 1).unwrap().to_iso_string(), "+10000-01-01");
    assert_eq!(Date::from_ymd(-1, 1, 1).unwrap().format("%a %d/%m/%y"), "Fri 01/01/99");
}
