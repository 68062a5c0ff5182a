//! One clock face: its zone, the texts it shows and how they are placed.
use crate::geometry::FillRect;
use crate::snow::{all_can_fall, all_wf, SnowParticles};
use crate::text::{chars_in_byte_range, decimal, is_text, parses_as_i32, parses_i32, push_decimal, slice};
use crate::text::{digit_char, utf8_width};
use crate::time::{
    abs, chrono_format, clock_12, clock_24, format_time, in_zone, local_now, next_new_year, offset_colon, offset_hhmm,
    sign_char, time_to_new_year, two_digits, tz_name, tz_name_of, utc_now, zone_time, DateTimeParts, Span,
};
use vstd::prelude::*;

verus! {

/// A clock for one zone of the tz database, or for the system's local time
/// when it has no zone.
pub struct Clock {
    timezone: Option<chrono_tz::Tz>,
    am_pm: bool,
    name: String,
    revert: bool,
}

pub ghost struct ClockView {
    pub timezone: Option<chrono_tz::Tz>,
    pub am_pm: bool,
    pub name: Seq<char>,
    pub revert: bool,
}

impl View for Clock {
    type V = ClockView;

    closed spec fn view(&self) -> ClockView {
        ClockView { timezone: self.timezone, am_pm: self.am_pm, name: self.name@, revert: self.revert }
    }
}

/// The font a text of the face is written with.
#[derive(Clone, Copy, PartialEq, Eq, Structural, Debug)]
pub enum FaceFont {
    /// The large digital font of the time.
    Date,
    /// The font of every other line.
    Normal,
}

/// A text to write on the face, centered horizontally around the row `y`.
pub struct FaceText {
    pub text: String,
    pub font: FaceFont,
    pub y: i32,
}

/// What to draw on a face for one frame: its texts, then its snow.
pub struct ClockFrame {
    pub texts: Vec<FaceText>,
    pub snow: Vec<FillRect>,
}

/// The name a clock shows: `Local` without zone, else the zone's name.
pub open spec fn clock_name(timezone: Option<chrono_tz::Tz>) -> Seq<char> {
    match timezone {
        None => "Local"@,
        Some(tz) => tz_name_of(tz),
    }
}

/// The time of day: on 24 hours, or on 12 with AM or PM.
pub open spec fn timer_text(am_pm: bool, t: DateTimeParts) -> Seq<char> {
    if !am_pm {
        chrono_format(t, "%H:%M:%S"@)
    } else {
        chrono_format(t, "%I:%M:%S %p"@)
    }
}

/// How far the zone is from UTC, read from the `%z` writing of the offset:
/// its sign, then its hours and minutes.
pub open spec fn zone_text(z: Seq<char>) -> Seq<char> {
    let sign = chars_in_byte_range(z, 0, 0, 1);
    let hours = chars_in_byte_range(z, 0, 1, 3);
    let minutes = chars_in_byte_range(z, 0, 3, 5);
    if sign == "-"@ {
        hours + ":"@ + minutes + " hours behind"@
    } else if sign == "+"@ {
        hours + ":"@ + minutes + " hours forward"@
    } else {
        "Local time"@
    }
}

/// The date line: the long date with the zone, written `UTC` and offset when
/// the zone's abbreviation is a number.
pub open spec fn date_text(t: DateTimeParts) -> Seq<char> {
    let zone = zone_text(chrono_format(t, "%z"@));
    if parses_as_i32(chrono_format(t, "%Z"@)) {
        chrono_format(t, "%A %d/%B/%Y UTC%Z"@) + " ("@ + zone + ")"@
    } else {
        chrono_format(t, "%A %d/%B/%Y %Z"@) + " "@ + zone
    }
}

/// The seconds of the countdown's units: a year of 365 days, a month of 30
/// days, a week and a day.
pub open spec fn seconds_per_year() -> int {
    31536000
}

pub open spec fn seconds_per_month() -> int {
    2592000
}

pub open spec fn seconds_per_week() -> int {
    604800
}

pub open spec fn seconds_per_day() -> int {
    86400
}

/// A count followed by its unit, left out when the count is zero.
pub open spec fn unit_part(count: int, unit: Seq<char>) -> Seq<char> {
    if count != 0 {
        decimal(count as nat) + unit
    } else {
        Seq::empty()
    }
}

/// The countdown to the new year, from the whole seconds and milliseconds
/// left: shown only in the last twelve hours (more exactly, while fewer than
/// thirteen whole hours are left), as years of 365 days, months of 30 days,
/// weeks, days (each only when not zero), hours, minutes, seconds and
/// milliseconds; otherwise empty.
pub open spec fn countdown_text(seconds: int, millis: int) -> Seq<char> {
    if seconds / 3600 <= 12 {
        let years = seconds / seconds_per_year();
        let r1 = seconds % seconds_per_year();
        let months = r1 / seconds_per_month();
        let r2 = r1 % seconds_per_month();
        let weeks = r2 / seconds_per_week();
        let r3 = r2 % seconds_per_week();
        let days = r3 / seconds_per_day();
        let r4 = r3 % seconds_per_day();
        let hours = r4 / 3600;
        let r5 = r4 % 3600;
        let minutes = r5 / 60;
        let secs = r5 % 60;
        "New years: "@ + unit_part(years, " years, "@) + unit_part(months, " months, "@) + unit_part(
            weeks,
            " weeks, "@,
        ) + unit_part(days, " days, "@) + decimal(hours as nat) + " hours, "@ + decimal(minutes as nat)
            + " minutes, "@ + decimal(secs as nat) + " seconds, "@ + decimal(millis as nat)
            + " miliseconds"@
    } else {
        Seq::empty()
    }
}

/// The countdown shown for a span of time left.
pub open spec fn span_countdown(left: Span) -> Seq<char> {
    countdown_text(left.seconds as int, left.nanos / 1_000_000)
}

/// The seconds and nanoseconds from `t` to the next new year.
pub open spec fn new_year_span(t: DateTimeParts) -> Span {
    let v = next_new_year(t).local_nanos() - t.local_nanos();
    Span { seconds: (v / 1_000_000_000) as i64, nanos: (v % 1_000_000_000) as i32 }
}

/// How the faces describe an offset from UTC: hours and minutes on two
/// digits, behind UTC for a negative offset, forward otherwise.
pub open spec fn offset_description(off: int) -> Seq<char> {
    let minutes = (abs(off) + 30) / 60;
    two_digits(minutes / 60) + ":"@ + two_digits(minutes % 60) + if off < 0 {
        " hours behind"@
    } else {
        " hours forward"@
    }
}

/// The number written by two decimal digits.
pub open spec fn two_digit_value(a: char, b: char) -> int {
    (a as int - 48) * 10 + (b as int - 48)
}

/// The zone description of a face gives the offset's own hours and
/// minutes: it starts with two digits, a colon and two more digits, and
/// read back as hours and minutes they are the size of the offset rounded to
/// the nearest minute (with fewer than sixty minutes); it then says behind
/// for a negative offset and forward otherwise.
pub proof fn lemma_zone_description_reads_back(off: int)
    requires
        -86400 < off < 86400,
    ensures
        ({
            let d = zone_text(offset_hhmm(off));
            let hours = two_digit_value(d[0], d[1]);
            let minutes = two_digit_value(d[3], d[4]);
            &&& d.len() > 5
            &&& forall|i: int| 0 <= i < 5 && i != 2 ==> '0' <= #[trigger] d[i] <= '9'
            &&& d[2] == ':'
            &&& 0 <= minutes < 60
            &&& (hours * 60 + minutes) * 60 <= abs(off) + 30 < (hours * 60 + minutes) * 60 + 60
            &&& d.subrange(5, d.len() as int) == if off < 0 { " hours behind"@ } else { " hours forward"@ }
        }),
{
    lemma_zone_text_of_offset(off);
    let d = offset_description(off);
    let m = (abs(off) + 30) / 60;
    let h = m / 60;
    let mm = m % 60;
    assert(0 <= h < 100 && 0 <= mm < 60);
    reveal_strlit(":");
    let tail = if off < 0 { " hours behind"@ } else { " hours forward"@ };
    assert(d =~= seq![digit_char(h / 10), digit_char(h % 10), ':', digit_char(mm / 10), digit_char(mm % 10)] + tail);
    assert(d[0] as int == 48 + h / 10);
    assert(d[1] as int == 48 + h % 10);
    assert(d[3] as int == 48 + mm / 10);
    assert(d[4] as int == 48 + mm % 10);
    assert(two_digit_value(d[0], d[1]) == h);
    assert(two_digit_value(d[3], d[4]) == mm);
    if off < 0 {
        reveal_strlit(" hours behind");
    } else {
        reveal_strlit(" hours forward");
    }
    assert(d.subrange(5, d.len() as int) =~= tail);
}

/// The zone line of a face reads the offset written by `%z` back as hours
/// and minutes behind or forward; it never falls back to `Local time`.
pub proof fn lemma_zone_text_of_offset(off: int)
    requires
        -86400 < off < 86400,
    ensures
        zone_text(offset_hhmm(off)) == offset_description(off),
{
    let minutes = (abs(off) + 30) / 60;
    let h = minutes / 60;
    let m = minutes % 60;
    assert(0 <= h < 100 && 0 <= m < 60);
    let z = offset_hhmm(off);
    let c0 = sign_char(off);
    let c1 = digit_char(h / 10);
    let c2 = digit_char(h % 10);
    let c3 = digit_char(m / 10);
    let c4 = digit_char(m % 10);
    assert(z =~= seq![c0, c1, c2, c3, c4]);
    assert(utf8_width(c0) == 1);
    assert(utf8_width(c1) == 1);
    assert(utf8_width(c2) == 1);
    assert(utf8_width(c3) == 1);
    assert(utf8_width(c4) == 1);
    reveal_with_fuel(chars_in_byte_range, 6);
    assert(z.drop_first() =~= seq![c1, c2, c3, c4]);
    assert(z.drop_first().drop_first() =~= seq![c2, c3, c4]);
    assert(z.drop_first().drop_first().drop_first() =~= seq![c3, c4]);
    assert(z.drop_first().drop_first().drop_first().drop_first() =~= seq![c4]);
    assert(z.drop_first().drop_first().drop_first().drop_first().drop_first() =~= Seq::<char>::empty());
    assert(chars_in_byte_range(z, 0, 0, 1) =~= seq![c0]);
    assert(chars_in_byte_range(z, 0, 1, 3) =~= seq![c1, c2]);
    assert(chars_in_byte_range(z, 0, 3, 5) =~= seq![c3, c4]);
    reveal_strlit("-");
    reveal_strlit("+");
    assert(seq![c1, c2] =~= two_digits(h));
    assert(seq![c3, c4] =~= two_digits(m));
    if off < 0 {
        assert(seq![c0] =~= "-"@);
    } else {
        assert(seq![c0] =~= "+"@);
        assert(seq![c0] != "-"@);
    }
}

/// The offset written by `%Z` for a fixed offset (a sign, then hours, a
/// colon and minutes) never reads as a number, so the date line always
/// takes the form without `UTC`.
pub proof fn lemma_offset_name_is_not_a_number(off: int)
    requires
        -86400 < off < 86400,
    ensures
        !parses_as_i32(offset_colon(off)),
{
    let s = offset_colon(off);
    let a = abs(off);
    let mins = a / 60;
    assert(0 <= mins / 60 < 100 && 0 <= mins % 60 < 60);
    assert(s[0] == sign_char(off));
    assert(s[3] == ':');
    let d = s.drop_first();
    assert(d[2] == ':');
}

/// While at most twelve whole hours are left, the countdown holds no years,
/// months, weeks nor days, and its hours, minutes and seconds add up to the
/// time left.
pub proof fn lemma_countdown_in_last_hours(seconds: int, millis: int)
    requires
        0 <= seconds,
        seconds / 3600 <= 12,
    ensures
        countdown_text(seconds, millis) == "New years: "@ + decimal((seconds / 3600) as nat) + " hours, "@
            + decimal(((seconds % 3600) / 60) as nat) + " minutes, "@ + decimal((seconds % 60) as nat)
            + " seconds, "@ + decimal(millis as nat) + " miliseconds"@,
        (seconds / 3600) * 3600 + ((seconds % 3600) / 60) * 60 + seconds % 60 == seconds,
{
    assert(seconds < 46800);
    let r1 = seconds % seconds_per_year();
    let r2 = r1 % seconds_per_month();
    let r3 = r2 % seconds_per_week();
    let r4 = r3 % seconds_per_day();
    assert(seconds / seconds_per_year() == 0 && r1 == seconds);
    assert(r1 / seconds_per_month() == 0 && r2 == seconds);
    assert(r2 / seconds_per_week() == 0 && r3 == seconds);
    assert(r3 / seconds_per_day() == 0 && r4 == seconds);
    let head = "New years: "@ + unit_part(seconds / seconds_per_year(), " years, "@) + unit_part(
        r1 / seconds_per_month(),
        " months, "@,
    ) + unit_part(r2 / seconds_per_week(), " weeks, "@) + unit_part(r3 / seconds_per_day(), " days, "@);
    assert(head =~= "New years: "@);
    assert((seconds / 3600) * 3600 + ((seconds % 3600) / 60) * 60 + seconds % 60 == seconds);
}

/// With more than twelve whole hours left, no countdown is shown.
pub proof fn lemma_countdown_hidden_before_last_hours(seconds: int, millis: int)
    requires
        seconds / 3600 > 12,
    ensures
        countdown_text(seconds, millis) == Seq::<char>::empty(),
{
}

/// Appends `count` and `unit` when `count` is not zero.
fn push_unit(s: &mut String, count: i64, unit: &str)
    requires
        count >= 0,
    ensures
        final(s)@ == old(s)@ + unit_part(count as int, unit@),
{
    if count != 0 {
        push_decimal(s, count as u64);
        s.append(unit);
    }
    assert(final(s)@ =~= old(s)@ + unit_part(count as int, unit@));
}

impl Clock {
    /// A clock for `timezone` (the local time when there is none), named
    /// `Local` or after its zone.
    pub fn new(timezone: Option<chrono_tz::Tz>, am_pm: bool, revert: bool) -> (c: Clock)
        ensures
            c@ == (ClockView { timezone, am_pm, name: clock_name(timezone), revert }),
    {
        let name = match timezone {
            None => String::from_str("Local"),
            Some(tz) => tz_name(tz),
        };
        Clock { timezone, am_pm, name, revert }
    }

    /// The current date and time in the clock's zone, or the system's local
    /// time.  Which instant it is depends on the system clock; what holds of
    /// every reading is stated, and for a zone, that the time is the zone's
    /// local time at an instant read from the UTC clock (only `utc_now` makes
    /// the `UtcReading` that `in_zone` converts).
    pub fn current_datetime_in_timezone(&self) -> (t: DateTimeParts)
        ensures
            t.is_clock_reading(),
            self@.timezone matches Some(tz) ==> exists|u: DateTimeParts|
                #![trigger zone_time(tz, u)]
                u.date_time_ok() && u.offset_seconds == 0 && u.year >= 1970 && t == zone_time(tz, u),
    {
        match self.timezone {
            Some(tz) => {
                let utc = utc_now();
                in_zone(tz, &utc)
            },
            None => local_now(),
        }
    }

    /// The countdown to the new year for `left` time left (never negative).
    pub fn formatter(&self, left: Span) -> (s: String)
        requires
            left.seconds >= 0,
            0 <= left.nanos < 1_000_000_000,
        ensures
            s@ == span_countdown(left),
    {
        let seconds = left.seconds;
        let milliseconds = left.nanos / 1_000_000;
        let years = seconds / (365 * 24 * 60 * 60);
        let remaining_seconds = seconds % (365 * 24 * 60 * 60);
        let months = remaining_seconds / (30 * 24 * 60 * 60);
        let remaining_seconds = remaining_seconds % (30 * 24 * 60 * 60);
        let weeks = remaining_seconds / (7 * 24 * 60 * 60);
        let remaining_seconds = remaining_seconds % (7 * 24 * 60 * 60);
        let days = remaining_seconds / (24 * 60 * 60);
        let remaining_seconds = remaining_seconds % (24 * 60 * 60);
        let hours = remaining_seconds / 3600;
        let remaining_seconds = remaining_seconds % 3600;
        let minutes = remaining_seconds / 60;
        let remaining_seconds = remaining_seconds % 60;
        if seconds / 3600 <= 12 {
            let mut build = String::from_str("New years: ");
            push_unit(&mut build, years, " years, ");
            push_unit(&mut build, months, " months, ");
            push_unit(&mut build, weeks, " weeks, ");
            push_unit(&mut build, days, " days, ");
            push_decimal(&mut build, hours as u64);
            build.append(" hours, ");
            push_decimal(&mut build, minutes as u64);
            build.append(" minutes, ");
            push_decimal(&mut build, remaining_seconds as u64);
            build.append(" seconds, ");
            push_decimal(&mut build, milliseconds as u64);
            build.append(" miliseconds");
            return build;
        }
        String::new()
    }

    /// How far the clock's zone is from UTC at `time`.
    fn zone(&self, time: &DateTimeParts) -> (s: String)
        requires
            time.valid(),
        ensures
            s@ == zone_text(chrono_format(*time, "%z"@)),
            s@ == offset_description(time.offset_seconds as int),
    {
        let zt = format_time(time, "%z");
        proof {
            lemma_zone_text_of_offset(time.offset_seconds as int);
        }
        let z_n_or_p = slice(zt.as_str(), 0, 1);
        let zh = slice(zt.as_str(), 1, 3);
        let zm = slice(zt.as_str(), 3, 5);
        if is_text(&z_n_or_p, "-") {
            let mut s = zh;
            s.append(":");
            s.append(zm.as_str());
            s.append(" hours behind");
            s
        } else if is_text(&z_n_or_p, "+") {
            let mut s = zh;
            s.append(":");
            s.append(zm.as_str());
            s.append(" hours forward");
            s
        } else {
            String::from_str("Local time")
        }
    }

    /// The texts of the face at `time` on a face of the given size, and the
    /// squares of its snow after one more frame of falling.
    pub fn render(&self, time: &DateTimeParts, surface: (u32, u32), snow_particle: &mut SnowParticles) -> (frame: ClockFrame)
        requires
            time.valid(),
            surface.1 / 2 + 120 <= i32::MAX,
            all_can_fall(old(snow_particle)@),
        ensures
            frame.texts@.len() == 4,
            frame.texts@[0].text@ == timer_text(self@.am_pm, *time),
            frame.texts@[0].text@ == if self@.am_pm { clock_12(*time) } else { clock_24(*time) },
            frame.texts@[0].font == FaceFont::Date,
            frame.texts@[0].y == surface.1 / 2 - 100,
            frame.texts@[1].text@ == "Currently "@ + (if self@.timezone is Some { self@.name } else { "Local time"@ }),
            frame.texts@[1].font == FaceFont::Normal,
            frame.texts@[1].y == surface.1 / 2 + 20,
            frame.texts@[2].text@ == "The date is "@ + date_text(*time),
            frame.texts@[2].text@ == "The date is "@ + chrono_format(*time, "%A %d/%B/%Y %Z"@) + " "@
                + offset_description(time.offset_seconds as int),
            frame.texts@[2].font == FaceFont::Normal,
            frame.texts@[2].y == surface.1 / 2 + 70,
            frame.texts@[3].text@ == span_countdown(new_year_span(*time)),
            frame.texts@[3].font == FaceFont::Normal,
            frame.texts@[3].y == surface.1 / 2 + 120,
            final(snow_particle)@.len() == old(snow_particle)@.len(),
            all_wf(final(snow_particle)@),
            forall|i: int| 0 <= i < old(snow_particle)@.len() ==> old(snow_particle)@[i].falls_to(#[trigger] final(snow_particle)@[i]),
            frame.snow@.len() == final(snow_particle)@.len(),
            forall|i: int| 0 <= i < frame.snow@.len() ==> #[trigger] frame.snow@[i] == final(snow_particle)@[i].fill(self@.revert),
    {
        let timer = if !self.am_pm {
            format_time(time, "%H:%M:%S")
        } else {
            format_time(time, "%I:%M:%S %p")
        };
        let middle_y = (surface.1 / 2) as i32;
        let mut texts: Vec<FaceText> = Vec::new();
        texts.push(FaceText { text: timer, font: FaceFont::Date, y: middle_y - 100 });
        let mut currently = String::from_str("Currently ");
        if self.timezone.is_some() {
            currently.append(self.name.as_str());
        } else {
            currently.append("Local time");
        }
        let zone = self.zone(time);
        let zone_name = format_time(time, "%Z");
        proof {
            lemma_offset_name_is_not_a_number(time.offset_seconds as int);
        }
        let d_thing = if parses_i32(zone_name.as_str()) {
            let mut d = format_time(time, "%A %d/%B/%Y UTC%Z");
            d.append(" (");
            d.append(zone.as_str());
            d.append(")");
            d
        } else {
            let mut d = format_time(time, "%A %d/%B/%Y %Z");
            d.append(" ");
            d.append(zone.as_str());
            d
        };
        texts.push(FaceText { text: currently, font: FaceFont::Normal, y: middle_y + 20 });
        let mut date_line = String::from_str("The date is ");
        date_line.append(d_thing.as_str());
        texts.push(FaceText { text: date_line, font: FaceFont::Normal, y: middle_y + 70 });
        let left = time_to_new_year(time);
        proof {
            let v = next_new_year(*time).local_nanos() - time.local_nanos();
            assert(left.seconds == v / 1_000_000_000 && left.nanos == v % 1_000_000_000) by (nonlinear_arith)
                requires
                    left.seconds * 1_000_000_000 + left.nanos == v,
                    0 <= left.nanos < 1_000_000_000,
            ;
            assert(left == new_year_span(*time));
        }
        let formatted = self.formatter(left);
        texts.push(FaceText { text: formatted, font: FaceFont::Normal, y: middle_y + 120 });
        let snow = snow_particle.render(self.revert);
        ClockFrame { texts, snow }
    }

    pub fn timezone(&self) -> (r: Option<chrono_tz::Tz>)
        ensures r == self@.timezone,
    {
        self.timezone
    }

    pub fn am_pm(&self) -> (r: bool)
        ensures r == self@.am_pm,
    {
        self.am_pm
    }

    pub fn name(&self) -> (r: &str)
        ensures r@ == self@.name,
    {
        self.name.as_str()
    }

    pub fn revert(&self) -> (r: bool)
        ensures r == self@.revert,
    {
        self.revert
    }
}

} // verus!
