use clockery::time::{days_in_month_of, time_to_new_year, DateTimeParts, Span};

fn at(year: i32, month: u32, day: u32, hour: u32, minute: u32, second: u32, nanosecond: u32, offset_seconds: i32) -> DateTimeParts {
    DateTimeParts { year, month, day, hour, minute, second, nanosecond, offset_seconds }
}

#[test]
fn month_lengths() {
    assert_eq!(days_in_month_of(2024, 2), 29);
    assert_eq!(days_in_month_of(2023, 2), 28);
    assert_eq!(days_in_month_of(1900, 2), 28);
    assert_eq!(days_in_month_of(2000, 2), 29);
    assert_eq!(days_in_month_of(-4, 2), 29);
    assert_eq!(days_in_month_of(2023, 4), 30);
    assert_eq!(days_in_month_of(2023, 12), 31);
}

#[test]
fn validity_of_parts() {
    assert!(at(2023, 12, 31, 23, 59, 59, 999_999_999, 25200).is_valid());
    assert!(!at(2023, 2, 29, 0, 0, 0, 0, 0).is_valid());
    assert!(at(2024, 2, 29, 0, 0, 0, 0, 0).is_valid());
    assert!(!at(2023, 13, 1, 0, 0, 0, 0, 0).is_valid());
    assert!(!at(2023, 1, 1, 24, 0, 0, 0, 0).is_valid());
    assert!(!at(2023, 1, 1, 0, 0, 0, 1_000_000_000, 0).is_valid());
    assert!(!at(2023, 1, 1, 0, 0, 0, 0, 86400).is_valid());
    assert!(at(2023, 1, 1, 0, 0, 0, 0, -86399).is_valid());
    assert!(!at(262142, 1, 1, 0, 0, 0, 0, 0).is_valid());
    assert!(at(262141, 1, 1, 0, 0, 0, 0, 0).is_valid());
    assert!(!at(-262143, 1, 1, 0, 0, 0, 0, 0).is_valid());
}

#[test]
fn time_left_in_the_year() {
    assert_eq!(time_to_new_year(&at(2023, 12, 31, 23, 59, 59, 500_000_000, 0)), Span { seconds: 0, nanos: 500_000_000 });
    assert_eq!(time_to_new_year(&at(2024, 1, 1, 0, 0, 0, 0, 3600)), Span { seconds: 366 * 86400, nanos: 0 });
    assert_eq!(time_to_new_year(&at(2023, 6, 15, 12, 0, 0, 0, -3600)), Span { seconds: 17236800, nanos: 0 });
    assert_eq!(time_to_new_year(&at(1999, 12, 31, 0, 0, 1, 1, 0)), Span { seconds: 86398, nanos: 999_999_999 });
}
