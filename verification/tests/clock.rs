use chrono_tz::Tz;
use clockery::clock::{Clock, FaceFont};
use clockery::geometry::white;
use clockery::snow::SnowParticles;
use clockery::time::{DateTimeParts, Span};

fn at(year: i32, month: u32, day: u32, hour: u32, minute: u32, second: u32, nanosecond: u32, offset_seconds: i32) -> DateTimeParts {
    DateTimeParts { year, month, day, hour, minute, second, nanosecond, offset_seconds }
}

#[test]
fn clock_names() {
    let c = Clock::new(None, false, false);
    assert_eq!(c.name(), "Local");
    assert_eq!(c.timezone(), None);
    let c = Clock::new(Some(Tz::Asia__Bangkok), true, true);
    assert_eq!(c.name(), "Asia/Bangkok");
    assert_eq!(c.timezone(), Some(Tz::Asia__Bangkok));
    assert!(c.am_pm());
    assert!(c.revert());
    assert_eq!(Clock::new(Some(Tz::America__Argentina__Buenos_Aires), false, false).name(), "America/Argentina/Buenos_Aires");
}

#[test]
fn countdown_in_the_last_hours() {
    let c = Clock::new(None, false, false);
    assert_eq!(
        c.formatter(Span { seconds: 3661, nanos: 5_000_000 }),
        "New years: 1 hours, 1 minutes, 1 seconds, 5 miliseconds"
    );
    assert_eq!(
        c.formatter(Span { seconds: 12 * 3600 + 59 * 60 + 59, nanos: 999_999_999 }),
        "New years: 12 hours, 59 minutes, 59 seconds, 999 miliseconds"
    );
    assert_eq!(c.formatter(Span { seconds: 0, nanos: 0 }), "New years: 0 hours, 0 minutes, 0 seconds, 0 miliseconds");
}

#[test]
fn countdown_hidden_earlier() {
    let c = Clock::new(None, false, false);
    assert_eq!(c.formatter(Span { seconds: 13 * 3600, nanos: 0 }), "");
    assert_eq!(c.formatter(Span { seconds: 200 * 86400, nanos: 1 }), "");
}

#[test]
fn face_of_a_zone_ahead_of_utc() {
    let c = Clock::new(Some(Tz::Asia__Bangkok), false, false);
    let mut snow = SnowParticles::new(10, (400, 600));
    let frame = c.render(&at(2023, 12, 31, 23, 0, 0, 0, 7 * 3600), (400, 600), &mut snow);
    let texts: Vec<(&str, FaceFont, i32)> = frame.texts.iter().map(|t| (t.text.as_str(), t.font, t.y)).collect();
    assert_eq!(
        texts,
        vec![
            ("23:00:00", FaceFont::Date, 200),
            ("Currently Asia/Bangkok", FaceFont::Normal, 320),
            ("The date is Sunday 31/December/2023 +07:00 07:00 hours forward", FaceFont::Normal, 370),
            ("New years: 1 hours, 0 minutes, 0 seconds, 0 miliseconds", FaceFont::Normal, 420),
        ]
    );
    assert_eq!(frame.snow.len(), 10);
    assert!(frame.snow.iter().all(|f| f.color == white() && f.w == 5 && f.h == 5));
}

#[test]
fn face_of_a_zone_behind_utc_on_twelve_hours() {
    let c = Clock::new(None, true, true);
    let mut snow = SnowParticles::new(0, (400, 100));
    let frame = c.render(&at(2024, 7, 4, 15, 5, 9, 0, -(5 * 3600 + 30 * 60)), (400, 101), &mut snow);
    let texts: Vec<&str> = frame.texts.iter().map(|t| t.text.as_str()).collect();
    assert_eq!(
        texts,
        vec![
            "03:05:09 PM",
            "Currently Local time",
            "The date is Thursday 04/July/2024 -05:30 05:30 hours behind",
            "",
        ]
    );
    assert_eq!(frame.texts[0].y, -50);
    assert_eq!(frame.texts[3].y, 170);
    assert!(frame.snow.is_empty());
}

#[test]
fn offset_with_seconds() {
    let c = Clock::new(None, false, false);
    let mut snow = SnowParticles::new(0, (1, 1));
    let frame = c.render(&at(1900, 1, 1, 0, 0, 0, 0, -(17 * 60 + 30)), (10, 10), &mut snow);
    assert_eq!(frame.texts[2].text, "The date is Monday 01/January/1900 -00:17:30 00:18 hours behind");
}

#[test]
fn current_time_reads_are_calendar_times() {
    for tz in [None, Some(Tz::UTC), Some(Tz::Asia__Kolkata), Some(Tz::Pacific__Kiritimati)] {
        let t = Clock::new(tz, false, false).current_datetime_in_timezone();
        assert!(t.is_valid());
        assert!(t.year >= 1969);
    }
    let t = Clock::new(Some(Tz::UTC), false, false).current_datetime_in_timezone();
    assert_eq!(t.offset_seconds, 0);
    let t = Clock::new(Some(Tz::Asia__Kolkata), false, false).current_datetime_in_timezone();
    assert_eq!(t.offset_seconds, 5 * 3600 + 30 * 60);
    let t = Clock::new(Some(Tz::Pacific__Kiritimati), false, false).current_datetime_in_timezone();
    assert_eq!(t.offset_seconds, 14 * 3600);
}

#[test]
fn twelve_hour_dial_at_midnight_and_noon() {
    let c = Clock::new(None, true, false);
    let mut snow = SnowParticles::new(0, (1, 1));
    let frame = c.render(&at(2024, 3, 1, 0, 7, 0, 0, 0), (10, 10), &mut snow);
    assert_eq!(frame.texts[0].text, "12:07:00 AM");
    let frame = c.render(&at(2024, 3, 1, 12, 0, 59, 0, 0), (10, 10), &mut snow);
    assert_eq!(frame.texts[0].text, "12:00:59 PM");
    let c = Clock::new(None, false, false);
    let frame = c.render(&at(2024, 3, 1, 9, 5, 3, 0, 0), (10, 10), &mut snow);
    assert_eq!(frame.texts[0].text, "09:05:03");
}
