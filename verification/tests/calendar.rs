use bookshelf::dates::{Date, days_in_month, is_leap_year};

#[test]
fn leap_years_follow_the_gregorian_rule() {
    assert!(is_leap_year(2024));
    assert!(is_leap_year(2000));
    assert!(!is_leap_year(1900));
    assert!(!is_leap_year(2023));
}

#[test]
fn month_lengths() {
    assert_eq!(days_in_month(2024, 2), 29);
    assert_eq!(days_in_month(1900, 2), 28);
    assert_eq!(days_in_month(2023, 1), 31);
    assert_eq!(days_in_month(2023, 4), 30);
    assert_eq!(days_in_month(2023, 12), 31);
}

#[test]
fn dates_that_name_no_calendar_day_are_rejected() {
    assert_eq!(Date::new(2023, 2, 29), None);
    assert_eq!(Date::new(2023, 4, 31), None);
    assert_eq!(Date::new(2023, 13, 1), None);
    assert_eq!(Date::new(2023, 0, 10), None);
    assert_eq!(Date::new(2023, 1, 0), None);
    assert_eq!(Date::new(-1, 1, 1), None);
    assert_eq!(Date::new(10000, 1, 1), None);
}

#[test]
fn real_calendar_days_are_accepted() {
    let d = Date::new(2024, 2, 29).unwrap();
    assert!(d.is_valid());
    assert_eq!((d.year, d.month, d.day), (2024, 2, 29));
    assert!(Date::new(0, 1, 1).is_some());
    assert!(Date::new(9999, 12, 31).is_some());
}
