use campsite_tracker::dates::{days_between, days_in_month, is_leap_year};
use campsite_tracker::upstream::{month_anchors, month_start_param};
use campsite_tracker::Date;

fn d(year: u32, month: u32, day: u32) -> Date {
    Date { year, month, day }
}

#[test]
fn leap_years_follow_gregorian_rule() {
    assert!(is_leap_year(2024));
    assert!(!is_leap_year(2025));
    assert!(!is_leap_year(1900));
    assert!(is_leap_year(2000));
    assert_eq!(days_in_month(2024, 2), 29);
    assert_eq!(days_in_month(2025, 2), 28);
    assert_eq!(days_in_month(2025, 6), 30);
    assert_eq!(days_in_month(2025, 7), 31);
}

#[test]
fn day_arithmetic_crosses_months_and_years() {
    assert_eq!(days_between(&d(2025, 6, 10), &d(2025, 6, 11)), 1);
    assert_eq!(days_between(&d(2025, 6, 10), &d(2025, 6, 12)), 2);
    assert_eq!(days_between(&d(2025, 6, 30), &d(2025, 7, 1)), 1);
    assert_eq!(days_between(&d(2024, 12, 31), &d(2025, 1, 1)), 1);
    assert_eq!(days_between(&d(2024, 2, 28), &d(2024, 3, 1)), 2);
    assert_eq!(days_between(&d(2025, 2, 28), &d(2025, 3, 1)), 1);
    assert_eq!(days_between(&d(2025, 6, 12), &d(2025, 6, 10)), -2);
}

#[test]
fn date_order_matches_the_calendar() {
    assert!(d(2025, 6, 10).le(&d(2025, 6, 10)));
    assert!(d(2025, 6, 10).lt(&d(2025, 6, 11)));
    assert!(d(2025, 5, 31).lt(&d(2025, 6, 1)));
    assert!(!d(2025, 6, 11).le(&d(2025, 6, 10)));
}

#[test]
fn anchors_cover_a_window_inside_one_month() {
    let anchors = month_anchors(&d(2025, 6, 10), &d(2025, 6, 12));
    assert_eq!(anchors.len(), 1);
    assert_eq!(anchors[0], d(2025, 6, 1));
}

#[test]
fn anchors_cover_a_window_straddling_months() {
    let anchors = month_anchors(&d(2025, 6, 28), &d(2025, 7, 3));
    assert_eq!(anchors, vec![d(2025, 6, 1), d(2025, 7, 1)]);

    let year_end = month_anchors(&d(2024, 12, 30), &d(2025, 2, 1));
    assert_eq!(year_end, vec![d(2024, 12, 1), d(2025, 1, 1), d(2025, 2, 1)]);
}

#[test]
fn month_start_parameter_is_midnight_utc() {
    assert_eq!(month_start_param(&d(2025, 6, 1)), "2025-06-01T00:00:00.000Z");
}
