//! Dates and times, as the clocks read them from `chrono` and `chrono-tz`.
use chrono::{Datelike, TimeZone, Timelike};
use crate::text::ascii_lower_seq;
use vstd::prelude::*;

verus! {

/// A date and time as the clock shows it: the local calendar date and time
/// of day, and the offset of the local time from UTC in seconds.
#[derive(Clone, Copy, PartialEq, Eq, Structural, Debug)]
pub struct DateTimeParts {
    pub year: i32,
    pub month: u32,
    pub day: u32,
    pub hour: u32,
    pub minute: u32,
    pub second: u32,
    pub nanosecond: u32,
    pub offset_seconds: i32,
}

/// A signed span of time as `chrono::TimeDelta` reports it: whole seconds
/// and the nanoseconds beyond them, both of the sign of the span.
#[derive(Clone, Copy, PartialEq, Eq, Structural, Debug)]
pub struct Span {
    pub seconds: i64,
    pub nanos: i32,
}

/// The time zones of the tz database, as `chrono-tz` names them.
#[verifier::external_type_specification]
#[verifier::external_body]
pub struct ExTz(chrono_tz::Tz);

/// The first and the last year of `chrono`'s dates.
pub open spec fn min_year() -> int {
    -262143
}

pub open spec fn max_year() -> int {
    262142
}

pub open spec fn is_leap_year(y: int) -> bool {
    y % 4 == 0 && (y % 100 != 0 || y % 400 == 0)
}

/// The number of days of month `m` of year `y` (proleptic Gregorian).
pub open spec fn days_in_month(y: int, m: int) -> int {
    if m == 2 {
        if is_leap_year(y) { 29 } else { 28 }
    } else if m == 4 || m == 6 || m == 9 || m == 11 {
        30
    } else {
        31
    }
}

/// The day number of a calendar date, counted from 1970-01-01.
pub open spec fn days_from_civil(y: int, m: int, d: int) -> int {
    let yy = if m <= 2 { y - 1 } else { y };
    let era = yy / 400;
    let yoe = yy - era * 400;
    let mp = (m + 9) % 12;
    let doy = (153 * mp + 2) / 5 + d - 1;
    let doe = yoe * 365 + yoe / 4 - yoe / 100 + doy;
    era * 146097 + doe - 719468
}

impl DateTimeParts {
    /// A calendar date and a time of day that `chrono` can represent, with
    /// no leap second.
    pub open spec fn date_time_ok(self) -> bool {
        &&& min_year() <= self.year <= max_year()
        &&& 1 <= self.month <= 12
        &&& 1 <= self.day <= days_in_month(self.year as int, self.month as int)
        &&& self.hour < 24
        &&& self.minute < 60
        &&& self.second < 60
        &&& self.nanosecond < 1_000_000_000
    }

    /// An offset that `chrono` accepts: less than a day either way.
    pub open spec fn offset_ok(self) -> bool {
        -86400 < self.offset_seconds < 86400
    }

    /// A local date and time, away from the ends of `chrono`'s range, with an
    /// offset: the next year is a date, and the instant in UTC is one too.
    pub open spec fn valid(self) -> bool {
        &&& self.date_time_ok()
        &&& self.offset_ok()
        &&& min_year() < self.year < max_year()
    }

    /// The local date and time in nanoseconds from 1970-01-01 00:00.
    pub open spec fn local_nanos(self) -> int {
        ((days_from_civil(self.year as int, self.month as int, self.day as int) * 86400 + self.hour * 3600
            + self.minute * 60 + self.second) * 1_000_000_000 + self.nanosecond)
    }

    /// What holds of every time the clock reads from the system: a calendar
    /// date and time of day without leap second, an offset of less than a
    /// day, and a year no earlier than 1969.
    pub open spec fn is_clock_reading(self) -> bool {
        &&& 1 <= self.month <= 12
        &&& 1 <= self.day <= days_in_month(self.year as int, self.month as int)
        &&& self.hour < 24
        &&& self.minute < 60
        &&& self.second < 60
        &&& self.nanosecond < 1_000_000_000
        &&& self.offset_ok()
        &&& self.year >= 1969
    }

    /// Whether the parts are `valid`.
    pub fn is_valid(&self) -> (r: bool)
        ensures
            r == self.valid(),
    {
        if self.year <= -262143 || self.year >= 262142 {
            return false;
        }
        if self.month < 1 || self.month > 12 || self.day < 1 {
            return false;
        }
        if self.day > days_in_month_of(self.year, self.month) {
            return false;
        }
        self.hour < 24 && self.minute < 60 && self.second < 60 && self.nanosecond < 1_000_000_000
            && -86400 < self.offset_seconds && self.offset_seconds < 86400
    }
}

/// The number of days of a month.
pub fn days_in_month_of(y: i32, m: u32) -> (r: u32)
    requires
        1 <= m <= 12,
    ensures
        r == days_in_month(y as int, m as int),
{
    if m == 2 {
        if y % 4 == 0 && (y % 100 != 0 || y % 400 == 0) {
            29
        } else {
            28
        }
    } else if m == 4 || m == 6 || m == 9 || m == 11 {
        30
    } else {
        31
    }
}

/// An instant read from the UTC clock.  Its field is private to this
/// module: outside it, a reading can only come from `utc_now`, and can only
/// be used by converting it to a zone's time with `in_zone`, so no other
/// date and time can be passed off as the current UTC time.
pub struct UtcReading {
    parts: DateTimeParts,
}

impl View for UtcReading {
    type V = DateTimeParts;

    closed spec fn view(&self) -> DateTimeParts {
        self.parts
    }
}

/// Calls `chrono::Utc::now` and reads its calendar fields.  As the source
/// shows, the time comes from the system clock counted from 1970 (so the
/// year is 1970 or later) and has no leap second; it is a date `chrono`
/// represents.  Which instant it is depends on the clock and is not stated.
#[verifier::external_body]
pub(crate) fn utc_now() -> (r: UtcReading)
    ensures
        r@.date_time_ok(),
        r@.offset_seconds == 0,
        r@.year >= 1970,
{
    let now = chrono::Utc::now().naive_utc();
    UtcReading { parts: DateTimeParts { year: now.year(), month: now.month(), day: now.day(), hour: now.hour(), minute: now.minute(), second: now.second(), nanosecond: now.nanosecond(), offset_seconds: 0 } }
}

/// Calls `chrono::Local::now` and reads the fields of its local time and
/// its offset.  The claim is what holds of every outcome: a calendar date
/// and time of day without leap second, an offset of less than a day, and a
/// year no earlier than 1969 (the clock counts from 1970 in UTC).  The year
/// is not claimed to stay below `chrono`'s last year, and which instant and
/// offset come out depends on the clock and the system's time zone.
#[verifier::external_body]
pub(crate) fn local_now() -> (r: DateTimeParts)
    ensures
        1 <= r.month <= 12,
        1 <= r.day <= days_in_month(r.year as int, r.month as int),
        r.hour < 24,
        r.minute < 60,
        r.second < 60,
        r.nanosecond < 1_000_000_000,
        r.offset_ok(),
        r.year >= 1969,
{
    let dt = chrono::Local::now().fixed_offset();
    DateTimeParts { year: dt.year(), month: dt.month(), day: dt.day(), hour: dt.hour(), minute: dt.minute(), second: dt.second(), nanosecond: dt.nanosecond(), offset_seconds: dt.offset().local_minus_utc() }
}

/// The local date and time, and offset, in zone `tz` at the UTC instant
/// `utc` (`TimeZone::from_utc_datetime` then `DateTime::fixed_offset`).
pub uninterp spec fn zone_time(tz: chrono_tz::Tz, utc: DateTimeParts) -> DateTimeParts;

/// Calls `TimeZone::from_utc_datetime` of `chrono-tz` and converts the
/// result to a fixed offset.  The result is named `zone_time`; the claim
/// besides is what holds of every zone: a calendar date and time of day,
/// the nanoseconds unchanged, an offset of less than a day, hence a year at
/// most one away from the UTC year.
#[verifier::external_body]
pub(crate) fn in_zone(tz: chrono_tz::Tz, reading: &UtcReading) -> (r: DateTimeParts)
    requires
        reading@.date_time_ok(),
        reading@.offset_seconds == 0,
    ensures
        r == zone_time(tz, reading@),
        1 <= r.month <= 12,
        1 <= r.day <= days_in_month(r.year as int, r.month as int),
        r.hour < 24,
        r.minute < 60,
        r.second < 60,
        r.nanosecond == reading@.nanosecond,
        r.offset_ok(),
        reading@.year - 1 <= r.year <= reading@.year + 1,
{
    let utc = &reading.parts;
    let date = chrono::NaiveDate::from_ymd_opt(utc.year, utc.month, utc.day).unwrap();
    let naive = date.and_hms_nano_opt(utc.hour, utc.minute, utc.second, utc.nanosecond).unwrap();
    let dt = tz.from_utc_datetime(&naive).fixed_offset();
    DateTimeParts { year: dt.year(), month: dt.month(), day: dt.day(), hour: dt.hour(), minute: dt.minute(), second: dt.second(), nanosecond: dt.nanosecond(), offset_seconds: dt.offset().local_minus_utc() }
}

/// The formats the clock faces use.
pub open spec fn is_clock_format(f: Seq<char>) -> bool {
    ||| f == "%H:%M:%S"@
    ||| f == "%I:%M:%S %p"@
    ||| f == "%z"@
    ||| f == "%Z"@
    ||| f == "%A %d/%B/%Y UTC%Z"@
    ||| f == "%A %d/%B/%Y %Z"@
}

/// `n` (below 100) on two digits.
pub open spec fn two_digits(n: int) -> Seq<char> {
    seq![crate::text::digit_char(n / 10), crate::text::digit_char(n % 10)]
}

pub open spec fn sign_char(off: int) -> char {
    if off < 0 { '-' } else { '+' }
}

pub open spec fn abs(off: int) -> int {
    if off < 0 { -off } else { off }
}

/// The offset as `%z` writes it: a sign, then hours and minutes on two
/// digits each, the seconds rounded to the nearest minute.
pub open spec fn offset_hhmm(off: int) -> Seq<char> {
    let minutes = (abs(off) + 30) / 60;
    seq![sign_char(off)] + two_digits(minutes / 60) + two_digits(minutes % 60)
}

/// The offset as `%Z` writes it for a fixed offset: a sign, hours and
/// minutes separated by a colon, and the seconds after another colon when
/// there are any.
pub open spec fn offset_colon(off: int) -> Seq<char> {
    let a = abs(off);
    let sec = a % 60;
    let mins = a / 60;
    seq![sign_char(off)] + two_digits(mins / 60) + seq![':'] + two_digits(mins % 60) + if sec == 0 {
        Seq::empty()
    } else {
        seq![':'] + two_digits(sec)
    }
}

/// The time of day as `%H:%M:%S` writes it: hours, minutes and seconds on
/// two digits each.
pub open spec fn clock_24(t: DateTimeParts) -> Seq<char> {
    two_digits(t.hour as int) + seq![':'] + two_digits(t.minute as int) + seq![':'] + two_digits(t.second as int)
}

/// The hour on a 12-hour dial: 12 for noon and midnight.
pub open spec fn hour12(h: int) -> int {
    if h % 12 == 0 { 12 } else { h % 12 }
}

/// The time of day as `%I:%M:%S %p` writes it: the hour on a 12-hour dial,
/// minutes and seconds on two digits each, then `AM` or `PM`.
pub open spec fn clock_12(t: DateTimeParts) -> Seq<char> {
    two_digits(hour12(t.hour as int)) + seq![':'] + two_digits(t.minute as int) + seq![':'] + two_digits(
        t.second as int,
    ) + seq![' '] + if t.hour >= 12 { "PM"@ } else { "AM"@ }
}

/// What `chrono`'s `format` writes of the date and time `t` with the format
/// `f`.
pub uninterp spec fn chrono_format(t: DateTimeParts, f: Seq<char>) -> Seq<char>;

/// Calls `DateTime::format` of `chrono` on the time `t` and writes it out.
/// The result is named `chrono_format`; for the two times of day, `%z` and
/// `%Z` it is stated as the source writes it (the parts hold no leap
/// second).  The long dates, with the names of weekdays and months, are not
/// spelled out.  The formats are those of the clock faces (a
/// format `chrono` cannot write makes the writing panic).
#[verifier::external_body]
pub(crate) fn format_time(t: &DateTimeParts, f: &str) -> (r: String)
    requires
        t.valid(),
        is_clock_format(f@),
    ensures
        r@ == chrono_format(*t, f@),
        f@ == "%H:%M:%S"@ ==> r@ == clock_24(*t),
        f@ == "%I:%M:%S %p"@ ==> r@ == clock_12(*t),
        f@ == "%z"@ ==> r@ == offset_hhmm(t.offset_seconds as int),
        f@ == "%Z"@ ==> r@ == offset_colon(t.offset_seconds as int),
{
    let offset = chrono::FixedOffset::east_opt(t.offset_seconds).unwrap();
    let date = chrono::NaiveDate::from_ymd_opt(t.year, t.month, t.day).unwrap();
    let naive = date.and_hms_nano_opt(t.hour, t.minute, t.second, t.nanosecond).unwrap();
    offset.from_local_datetime(&naive).unwrap().format(f).to_string()
}

/// Calls the subtraction of two `chrono::NaiveDateTime`s (the local dates
/// and times; the offsets are not used).  The claim is the documented one:
/// the span between the two, here without leap seconds, reported in whole
/// seconds and nanoseconds of the span's sign.
#[verifier::external_body]
pub(crate) fn naive_difference(later: &DateTimeParts, earlier: &DateTimeParts) -> (r: Span)
    requires
        later.date_time_ok(),
        earlier.date_time_ok(),
    ensures
        r.seconds * 1_000_000_000 + r.nanos == later.local_nanos() - earlier.local_nanos(),
        -1_000_000_000 < r.nanos < 1_000_000_000,
        r.seconds > 0 ==> r.nanos >= 0,
        r.seconds < 0 ==> r.nanos <= 0,
{
    let a = chrono::NaiveDate::from_ymd_opt(later.year, later.month, later.day).unwrap()
        .and_hms_nano_opt(later.hour, later.minute, later.second, later.nanosecond).unwrap();
    let b = chrono::NaiveDate::from_ymd_opt(earlier.year, earlier.month, earlier.day).unwrap()
        .and_hms_nano_opt(earlier.hour, earlier.minute, earlier.second, earlier.nanosecond).unwrap();
    let d = a - b;
    Span { seconds: d.num_seconds(), nanos: d.subsec_nanos() }
}

/// The first instant of the year after the one of `t`, in the same zone.
pub open spec fn next_new_year(t: DateTimeParts) -> DateTimeParts {
    DateTimeParts { year: (t.year + 1) as i32, month: 1, day: 1, hour: 0, minute: 0, second: 0, nanosecond: 0, offset_seconds: t.offset_seconds }
}

proof fn lemma_new_year_is_later_day(y: int, m: int, d: int)
    requires
        1 <= m <= 12,
        1 <= d <= 31,
    ensures
        days_from_civil(y + 1, 1, 1) > days_from_civil(y, m, d),
{
    let a = y / 400;
    let ya = y - a * 400;
    let b = (y - 1) / 400;
    let yb = (y - 1) - b * 400;
    assert(0 <= ya < 400);
    assert(0 <= yb < 400);
    if m <= 2 {
        if ya == 0 {
            assert(b == a - 1);
            assert(yb == 399);
        } else {
            assert(b == a);
            assert(yb == ya - 1);
        }
    }
}

/// The span from `t` to the first instant of the next year, both read as
/// local times.
pub fn time_to_new_year(t: &DateTimeParts) -> (left: Span)
    requires
        t.valid(),
    ensures
        left.seconds * 1_000_000_000 + left.nanos == next_new_year(*t).local_nanos() - t.local_nanos(),
        left.seconds >= 0,
        0 <= left.nanos < 1_000_000_000,
        left.seconds > 0 || left.nanos > 0,
{
    let target = DateTimeParts { year: t.year + 1, month: 1, day: 1, hour: 0, minute: 0, second: 0, nanosecond: 0, offset_seconds: t.offset_seconds };
    let left = naive_difference(&target, t);
    proof {
        lemma_new_year_is_later_day(t.year as int, t.month as int, t.day as int);
        let dt = days_from_civil(t.year + 1, 1, 1);
        let dn = days_from_civil(t.year as int, t.month as int, t.day as int);
        assert(target.local_nanos() == dt * 86400 * 1_000_000_000);
        assert(t.local_nanos() - target.local_nanos() < 0) by (nonlinear_arith)
            requires
                t.local_nanos() == (dn * 86400 + t.hour * 3600 + t.minute * 60 + t.second) * 1_000_000_000 + t.nanosecond,
                target.local_nanos() == dt * 86400 * 1_000_000_000,
                dt >= dn + 1,
                t.hour < 24,
                t.minute < 60,
                t.second < 60,
                t.nanosecond < 1_000_000_000,
                t.hour >= 0,
                t.minute >= 0,
                t.second >= 0,
        ;
    }
    left
}

/// The name of a zone in the tz database (`Tz::name`).
pub uninterp spec fn tz_name_of(tz: chrono_tz::Tz) -> Seq<char>;

/// The zone that `Tz::from_str` finds for a name, if any.
pub uninterp spec fn tz_lookup(s: Seq<char>) -> Option<chrono_tz::Tz>;

/// `s` written in lower case is `local`.
pub open spec fn spells_local(s: Seq<char>) -> bool {
    ascii_lower_seq(s) == "local"@
}

/// Calls `Tz::name` of `chrono-tz`.  The result is named `tz_name_of`; as the
/// generated table of names shows, every name is a non-empty ASCII string
/// that does not spell `local` in any case, and looking the name up finds
/// the zone again.
#[verifier::external_body]
pub(crate) fn tz_name(tz: chrono_tz::Tz) -> (r: String)
    ensures
        r@ == tz_name_of(tz),
        r@.len() > 0,
        vstd::utf8::is_ascii_chars(r@),
        !spells_local(r@),
        tz_lookup(r@) == Some(tz),
{
    tz.name().to_owned()
}

/// Calls `Tz::from_str` of `chrono-tz` and keeps the zone it finds.  The
/// result is named `tz_lookup`; as the source shows, it looks the string up
/// among the names of the zones: it finds the zone of that name, and nothing
/// when no zone has it.
#[verifier::external_body]
pub(crate) fn tz_from_str(s: &str) -> (r: Option<chrono_tz::Tz>)
    ensures
        r == tz_lookup(s@),
        r matches Some(tz) ==> tz_name_of(tz) == s@,
        forall|tz: chrono_tz::Tz| #[trigger] tz_name_of(tz) == s@ ==> r == Some(tz),
{
    <chrono_tz::Tz as std::str::FromStr>::from_str(s).ok()
}

} // verus!
