//! Points in time, their order and their texts.

use vstd::prelude::*;

use crate::text::text_option;

verus! {

/// A point in time: whole seconds since 1970-01-01T00:00:00Z, and nanoseconds after them.
#[derive(Clone, Copy, Debug, PartialEq, Eq, Structural)]
pub struct Moment {
    pub seconds: i64,
    pub nanos: u32,
}

/// How far Beijing time is ahead of UTC, in seconds.
pub const BEIJING_OFFSET: i32 = 28800;

/// The number of seconds in a day.
pub const SECONDS_PER_DAY: i64 = 86400;

/// `a` is later than `b`.
pub open spec fn later(a: Moment, b: Moment) -> bool {
    a.seconds > b.seconds || (a.seconds == b.seconds && a.nanos > b.nanos)
}

/// The later of two moments.
pub open spec fn latest_of(a: Moment, b: Moment) -> Moment {
    if later(b, a) {
        b
    } else {
        a
    }
}

/// The number of days from 1970-01-01 to the first day of the year, in the proleptic Gregorian
/// calendar: 365 for each year, and one more for each leap year that lies between.
pub open spec fn days_before_year(year: int) -> int {
    365 * (year - 1970) + (year - 1969) / 4 - (year - 1901) / 100 + (year - 1601) / 400
}

/// The moment lies in the year.
pub open spec fn in_year(at: Moment, year: int) -> bool {
    days_before_year(year) * SECONDS_PER_DAY <= at.seconds < days_before_year(year + 1)
        * SECONDS_PER_DAY
}

/// The moment is one that the calendar covers: its year is from -262143 to 262142, and its
/// nanoseconds stay below a second, or below two seconds within the last second of a minute.
pub open spec fn in_calendar(at: Moment) -> bool {
    &&& days_before_year(-262143) * SECONDS_PER_DAY <= at.seconds
    &&& at.seconds < days_before_year(262143) * SECONDS_PER_DAY
    &&& at.nanos < 2000000000
    &&& at.nanos >= 1000000000 ==> at.seconds % 60 == 59
}

/// The format shows a date, or a date and a time of day.
pub open spec fn is_plain_format(format: Seq<char>) -> bool {
    format == "%Y-%m-%d"@ || format == "%Y-%m-%d %H:%M:%S"@
}

/// What `chrono` writes for a UTC time under a format, or `None` where it cannot.
pub uninterp spec fn utc_time_text(seconds: i64, nanos: u32, format: Seq<char>) -> Option<Seq<char>>;

/// What `chrono` writes for a time at an offset from UTC, or `None` where it cannot.
pub uninterp spec fn offset_time_text(
    seconds: i64,
    nanos: u32,
    offset: i32,
    format: Seq<char>,
) -> Option<Seq<char>>;

/// The text of a moment in UTC.
pub open spec fn utc_text(at: Moment, format: Seq<char>) -> Option<Seq<char>> {
    utc_time_text(at.seconds, at.nanos, format)
}

/// The text of a moment at an offset from UTC.
pub open spec fn offset_text(at: Moment, offset: i32, format: Seq<char>) -> Option<Seq<char>> {
    offset_time_text(at.seconds, at.nanos, offset, format)
}

/// Calls `chrono::DateTime::<Utc>::format` and `DelayedFormat::write_to`.
///
/// The text is a function of the moment and the format. It is there for every moment of the
/// calendar where the format is one of the two plain ones; it is `None` where the moment lies
/// outside the calendar, and where the format holds a specifier that `chrono` does not know. A format
/// may also ask for the zone, since the time is one with a zone: `%z` gives `+0000`. A `chrono` time
/// without a zone has no text under such a format.
#[verifier::external_body]
pub(crate) fn format_utc(at: Moment, format: &str) -> (text: Option<String>)
    ensures
        text_option(text) == utc_time_text(at.seconds, at.nanos, format@),
        !in_calendar(at) ==> text is None,
        in_calendar(at) && is_plain_format(format@) ==> text is Some,
{
    let time = chrono::DateTime::from_timestamp(at.seconds, at.nanos)?;
    let mut text = String::new();
    match time.format(format).write_to(&mut text) {
        Ok(()) => Some(text),
        Err(_) => None,
    }
}

/// Calls `chrono::DateTime::with_timezone`, `DateTime::<FixedOffset>::format` and
/// `DelayedFormat::write_to`.
///
/// The text is a function of the moment, the offset and the format. It is there for every moment
/// of the calendar where the offset is shorter than a day and the format is one of the two plain
/// ones; it is `None` where the moment lies outside the calendar, where the offset is a day or
/// more, and where the format holds a specifier that `chrono` does not know.
#[verifier::external_body]
pub(crate) fn format_at_offset(at: Moment, offset: i32, format: &str) -> (text: Option<String>)
    ensures
        text_option(text) == offset_time_text(at.seconds, at.nanos, offset, format@),
        !in_calendar(at) ==> text is None,
        in_calendar(at) && -86400 < offset < 86400 && is_plain_format(format@) ==> text is Some,
{
    let time = chrono::DateTime::from_timestamp(at.seconds, at.nanos)?;
    let zone = chrono::FixedOffset::east_opt(offset)?;
    let mut text = String::new();
    match time.with_timezone(&zone).format(format).write_to(&mut text) {
        Ok(()) => Some(text),
        Err(_) => None,
    }
}

/// Calls `chrono::Datelike::year` on a UTC time.
///
/// The year is the one of the proleptic Gregorian calendar that the moment lies in. There is one
/// for exactly the moments of the calendar.
#[verifier::external_body]
pub(crate) fn year_of(at: Moment) -> (year: Option<i32>)
    ensures
        year is Some <==> in_calendar(at),
        year matches Some(y) ==> in_year(at, y as int),
{
    let time = chrono::DateTime::from_timestamp(at.seconds, at.nanos)?;
    Some(chrono::Datelike::year(&time))
}

/// Whether `a` is later than `b`.
pub fn is_later(a: Moment, b: Moment) -> (answer: bool)
    ensures
        answer == later(a, b),
{
    a.seconds > b.seconds || (a.seconds == b.seconds && a.nanos > b.nanos)
}

/// A moment lies in no more than one year.
pub proof fn year_is_unique(at: Moment, a: int, b: int)
    requires
        in_year(at, a),
        in_year(at, b),
    ensures
        a == b,
{
    if a < b {
        days_grow(a + 1, b);
    }
    if b < a {
        days_grow(b + 1, a);
    }
}

/// Later years start on later days.
proof fn days_grow(a: int, b: int)
    requires
        a <= b,
    ensures
        days_before_year(a) <= days_before_year(b),
    decreases b - a,
{
    if a < b {
        days_grow(a, b - 1);
        let y = b - 1;
        assert((y + 1 - 1969) / 4 >= (y - 1969) / 4);
        assert((y + 1 - 1901) / 100 <= (y - 1901) / 100 + 1);
        assert((y + 1 - 1601) / 400 >= (y - 1601) / 400);
    }
}

/// The later of two moments is one of the two, and neither of them is later than it.
pub proof fn latest_is_not_surpassed(a: Moment, b: Moment)
    ensures
        latest_of(a, b) == a || latest_of(a, b) == b,
        !later(a, latest_of(a, b)),
        !later(b, latest_of(a, b)),
{
}

/// Seconds decide before nanoseconds do, no moment is later than itself, and of two different moments
/// exactly one is the later.
pub proof fn moments_are_ordered(a: Moment, b: Moment)
    ensures
        a.seconds > b.seconds ==> later(a, b),
        a.seconds == b.seconds ==> (later(a, b) <==> a.nanos > b.nanos),
        a.seconds < b.seconds ==> !later(a, b),
        !later(a, a),
        a != b ==> later(a, b) != later(b, a),
{
}

}
