use apod_wallpaper::date::CalendarDate;

fn day(year: i32, month: u32, day: u32) -> CalendarDate {
    CalendarDate::new(year, month, day).unwrap()
}

#[test]
fn new_accepts_ordinary_days() {
    let d = day(2023, 2, 15);
    assert_eq!(d.year(), 2023);
    assert_eq!(d.month(), 2);
    assert_eq!(d.day(), 15);
}

#[test]
fn new_rejects_months_and_days_out_of_range() {
    assert!(CalendarDate::new(2023, 0, 1).is_none());
    assert!(CalendarDate::new(2023, 13, 1).is_none());
    assert!(CalendarDate::new(2023, 1, 0).is_none());
    assert!(CalendarDate::new(2023, 1, 32).is_none());
    assert!(CalendarDate::new(2023, 4, 31).is_none());
    assert!(CalendarDate::new(2023, 4, 30).is_some());
    assert!(CalendarDate::new(2023, 12, 31).is_some());
}

#[test]
fn new_knows_leap_years() {
    assert!(CalendarDate::new(2024, 2, 29).is_some());
    assert!(CalendarDate::new(2023, 2, 29).is_none());
    assert!(CalendarDate::new(1900, 2, 29).is_none());
    assert!(CalendarDate::new(2000, 2, 29).is_some());
    assert!(CalendarDate::new(0, 2, 29).is_some());
    assert!(CalendarDate::new(-4, 2, 29).is_some());
    assert!(CalendarDate::new(-1, 2, 29).is_none());
    assert!(CalendarDate::new(-100, 2, 29).is_none());
    assert!(CalendarDate::new(-400, 2, 29).is_some());
}

#[test]
fn new_keeps_to_the_years_of_the_calendar() {
    assert!(CalendarDate::new(262142, 12, 31).is_some());
    assert!(CalendarDate::new(262143, 1, 1).is_none());
    assert!(CalendarDate::new(-262143, 1, 1).is_some());
    assert!(CalendarDate::new(-262144, 12, 31).is_none());
    assert!(CalendarDate::new(i32::MAX, 1, 1).is_none());
    assert!(CalendarDate::new(i32::MIN, 1, 1).is_none());
}

#[test]
fn stamp_is_year_month_day_padded_with_zeros() {
    assert_eq!(day(2023, 1, 1).stamp(), "20230101");
    assert_eq!(day(2023, 2, 15).stamp(), "20230215");
    assert_eq!(day(2024, 12, 31).stamp(), "20241231");
    assert_eq!(day(987, 6, 5).stamp(), "09870605");
    assert_eq!(day(5, 10, 9).stamp(), "00051009");
    assert_eq!(day(0, 1, 1).stamp(), "00000101");
    assert_eq!(day(9999, 12, 31).stamp(), "99991231");
    assert_eq!(day(1000, 1, 1).stamp(), "10000101");
    assert_eq!(day(999, 1, 1).stamp(), "09990101");
}

#[test]
fn stamp_signs_years_beyond_four_digits() {
    assert_eq!(day(10000, 1, 1).stamp(), "+100000101");
    assert_eq!(day(12345, 6, 7).stamp(), "+123450607");
    assert_eq!(day(99999, 12, 31).stamp(), "+999991231");
    assert_eq!(day(100000, 1, 1).stamp(), "+1000000101");
    assert_eq!(day(262142, 12, 31).stamp(), "+2621421231");
}

#[test]
fn stamp_signs_years_before_zero() {
    assert_eq!(day(-1, 1, 1).stamp(), "-00010101");
    assert_eq!(day(-5, 3, 4).stamp(), "-00050304");
    assert_eq!(day(-9999, 12, 31).stamp(), "-99991231");
    assert_eq!(day(-10000, 1, 1).stamp(), "-100000101");
    assert_eq!(day(-262143, 1, 1).stamp(), "-2621430101");
}

#[test]
fn stamps_of_distinct_days_differ() {
    let days = [
        day(2023, 1, 1),
        day(2023, 1, 2),
        day(2023, 1, 11),
        day(2023, 11, 1),
        day(2023, 2, 15),
        day(2022, 1, 1),
        day(202, 3, 1),
        day(2023, 10, 1),
        day(-2023, 1, 1),
        day(20230, 1, 1),
    ];
    for (i, a) in days.iter().enumerate() {
        for (j, b) in days.iter().enumerate() {
            assert_eq!(a.stamp() == b.stamp(), i == j);
        }
    }
}

#[test]
fn stamp_is_the_same_each_time() {
    let d = day(2024, 2, 29);
    assert_eq!(d.stamp(), d.stamp());
    assert_eq!(d.stamp(), day(2024, 2, 29).stamp());
}
