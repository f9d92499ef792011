//! The clock, the local calendar, and the time formats of the registry.

use chrono::{Datelike, TimeZone};
use vstd::prelude::*;

use crate::text::digit_char;

verus! {

/// A reading of the system clock.
#[verifier::external_type_specification]
#[verifier::external_body]
pub struct ExSystemTime(std::time::SystemTime);

/// What `SystemTime::duration_since` returns for a reading before the given one.
#[verifier::external_type_specification]
#[verifier::external_body]
pub struct ExSystemTimeError(std::time::SystemTimeError);

/// `SystemTime::now`. What it returns is the time at which it is called.
pub assume_specification[ std::time::SystemTime::now ]() -> std::time::SystemTime
;

/// `Duration::as_millis`. A duration is opaque here, so nothing is said of the number.
pub assume_specification[ std::time::Duration::as_millis ](d: &std::time::Duration) -> u128
;

/// `Duration::as_secs`. A duration is opaque here, so nothing is said of the number.
pub assume_specification[ std::time::Duration::as_secs ](d: &std::time::Duration) -> u64
;

/// `SystemTime::duration_since` with the Unix epoch. It depends on the reading alone, and a reading
/// is opaque here, so nothing is said of the result.
#[verifier::external_body]
fn since_epoch(now: std::time::SystemTime) -> (r: Result<
    std::time::Duration,
    std::time::SystemTimeError,
>) {
    now.duration_since(std::time::UNIX_EPOCH)
}

/// A number in the range of `i64`: the low 64 bits, read as a signed number.
pub open spec fn wrapped(n: int) -> int {
    let low = n % 0x1_0000_0000_0000_0000;
    if low < 0x8000_0000_0000_0000 {
        low
    } else {
        low - 0x1_0000_0000_0000_0000
    }
}

/// The milliseconds since the Unix epoch, where the clock reads so many; 0 before the epoch.
pub fn reading_in_ms(millis: Option<u128>) -> (ms: i64)
    ensures
        ms == ms_of_reading(millis),
        millis matches Some(n) ==> n <= i64::MAX ==> ms == n,
{
    match millis {
        Some(n) => {
            let ms = #[verifier::truncate] (n as i64);
            assert(n % 0x1_0000_0000_0000_0000u128 < 0x8000_0000_0000_0000u128 ==> n as i64 == n
                % 0x1_0000_0000_0000_0000u128) by (bit_vector);
            assert(n % 0x1_0000_0000_0000_0000u128 >= 0x8000_0000_0000_0000u128 ==> n as i64 == n
                % 0x1_0000_0000_0000_0000u128 - 0x1_0000_0000_0000_0000) by (bit_vector);
            ms
        },
        None => 0,
    }
}

/// The seconds since the Unix epoch, where the clock reads so many; 0 before the epoch.
pub fn reading_in_sec(seconds: Option<u64>) -> (sec: i64)
    ensures
        sec == sec_of_reading(seconds),
        seconds matches Some(n) ==> n <= i64::MAX ==> sec == n,
{
    match seconds {
        Some(n) => {
            let sec = #[verifier::truncate] (n as i64);
            assert(n < 0x8000_0000_0000_0000u64 ==> n as i64 == n) by (bit_vector);
            assert(n >= 0x8000_0000_0000_0000u64 ==> n as i64 == n - 0x1_0000_0000_0000_0000)
                by (bit_vector);
            sec
        },
        None => 0,
    }
}

/// The milliseconds that a reading of the clock amounts to; 0 before the epoch.
pub open spec fn ms_of_reading(millis: Option<u128>) -> int {
    match millis {
        Some(n) => wrapped(n as int),
        None => 0,
    }
}

/// The seconds that a reading of the clock amounts to; 0 before the epoch.
pub open spec fn sec_of_reading(seconds: Option<u64>) -> int {
    match seconds {
        Some(n) => wrapped(n as int),
        None => 0,
    }
}

/// The milliseconds since the Unix epoch, by the system clock; 0 before the epoch. What the clock
/// reads is left open.
pub fn now_ms() -> (ms: i64)
    ensures
        exists|millis: Option<u128>| ms == #[trigger] ms_of_reading(millis),
{
    let millis = match since_epoch(std::time::SystemTime::now()) {
        Ok(duration) => Some(duration.as_millis()),
        Err(_) => None,
    };
    assert(ms_of_reading(millis) == ms_of_reading(millis));
    reading_in_ms(millis)
}

/// The seconds since the Unix epoch, by the system clock; 0 before the epoch. What the clock reads
/// is left open.
pub fn now_sec() -> (sec: i64)
    ensures
        exists|seconds: Option<u64>| sec == #[trigger] sec_of_reading(seconds),
{
    let seconds = match since_epoch(std::time::SystemTime::now()) {
        Ok(duration) => Some(duration.as_secs()),
        Err(_) => None,
    };
    assert(sec_of_reading(seconds) == sec_of_reading(seconds));
    reading_in_sec(seconds)
}

/// The quotient rounded towards zero.
pub open spec fn quotient(a: int, b: int) -> int {
    if a >= 0 {
        a / b
    } else {
        -((-a) / b)
    }
}

/// Whole seconds of a number of milliseconds, rounded towards zero.
pub fn seconds_of_ms(ms: i64) -> (sec: i64)
    ensures
        sec == quotient(ms as int, 1000),
{
    ms / 1000
}

/// The milliseconds since the Unix epoch of an RFC 3339 time, where `chrono` takes the text as one.
pub uninterp spec fn rfc3339_millis(text: Seq<char>) -> Option<i64>;

/// `DateTime::parse_from_rfc3339` of `chrono`, with its instant in milliseconds.
#[verifier::external_body]
pub(crate) fn parse_rfc3339(text: &str) -> (ms: Option<i64>)
    ensures
        ms == rfc3339_millis(text@),
{
    chrono::DateTime::parse_from_rfc3339(text).ok().map(|time| time.timestamp_millis())
}

/// The UTC date and minute, such as `2024-05-01 12:30`, that `chrono` writes for a Unix time, where
/// its calendar reaches that far.
pub uninterp spec fn utc_minute(seconds: i64) -> Option<Seq<char>>;

/// `DateTime::from_timestamp` of `chrono`, formatted as year, month, day, hour and minute.
#[verifier::external_body]
pub(crate) fn format_utc_minute(seconds: i64) -> (r: Option<String>)
    ensures
        match r {
            Some(s) => utc_minute(seconds) == Some(s@),
            None => utc_minute(seconds) is None,
        },
{
    chrono::DateTime::from_timestamp(seconds, 0).map(|time| time.format("%Y-%m-%d %H:%M").to_string())
}

/// A Unix time within the calendar of `chrono`.
pub open spec fn in_calendar(seconds: int) -> bool {
    -8_334_601_228_800 <= seconds <= 8_210_266_876_799
}

/// A Unix time so close to an end of the calendar that its local form may lie outside.
pub open spec fn at_calendar_end(seconds: int) -> bool {
    ||| -8_334_601_228_800 <= seconds < -8_334_601_228_800 + 86_400
    ||| 8_210_266_876_799 - 86_400 < seconds <= 8_210_266_876_799
}

/// `Local::now` of `chrono`, in seconds since the Unix epoch. A clock that reads a time before the
/// epoch, or behind the calendar, is refused there.
#[verifier::external_body]
pub(crate) fn local_now() -> (seconds: i64)
    ensures
        seconds >= 0,
        in_calendar(seconds as int),
{
    chrono::Local::now().timestamp()
}

/// How far local time can be ahead of UTC, or behind it, in seconds.
pub open spec fn is_offset(offset: int) -> bool {
    -86_400 < offset < 86_400
}

/// The number of the day, in the calendar of `chrono`, on which a Unix time falls where local time
/// is so much ahead of UTC.
pub open spec fn day_at(seconds: int, offset: int) -> int {
    719_163 + (seconds + offset) / 86_400
}

/// Two digits.
pub open spec fn two_digits(n: int) -> Seq<char> {
    seq![digit_char((n / 10) as nat), digit_char((n % 10) as nat)]
}

/// The hour and minute that a clock shows so many seconds after a midnight.
pub open spec fn clock_text(seconds: int) -> Seq<char> {
    let of_day = seconds % 86_400;
    two_digits(of_day / 3600) + ":"@ + two_digits(of_day % 3600 / 60)
}

/// What `DateTime::format` of `chrono` writes by a pattern for a Unix time, where local time is so
/// much ahead of UTC.
pub uninterp spec fn local_form(seconds: int, offset: int, pattern: Seq<char>) -> Seq<char>;

/// The day is the local date of some time.
pub open spec fn is_local_day(day: int) -> bool {
    exists|at: int, offset: int|
        {
            &&& at >= 0
            &&& in_calendar(at)
            &&& is_offset(offset)
            &&& day == #[trigger] day_at(at, offset)
        }
}

/// The local date of `Local::now`, as the number of the day in the calendar. When that is, and how
/// far local time is ahead, depends on the clock and the time zone of the machine.
#[verifier::external_body]
pub(crate) fn local_today() -> (day: i32)
    ensures
        is_local_day(day as int),
{
    chrono::Local::now().date_naive().num_days_from_ce()
}

/// The local date of a Unix time and its form by two patterns, by `TimeZone::timestamp_opt` of
/// `chrono::Local` and `DateTime::format`. They exist exactly where the calendar reaches that far,
/// and the form by hour and minute is what the clock shows.
/// How far local time is ahead depends on the time zone of the machine; it is the same for all
/// three.
#[verifier::external_body]
pub(crate) fn local_parts(seconds: i64, first: &str, second: &str) -> (r: Option<
    (i32, String, String),
>)
    requires
        !at_calendar_end(seconds as int),
        first@ == "%H:%M"@ || first@ == "%-d %b"@,
        second@ == "%H:%M"@ || second@ == "%-d %b"@,
    ensures
        r is Some == in_calendar(seconds as int),
        r matches Some(parts) ==> exists|offset: int|
            {
                &&& is_offset(offset)
                &&& parts.0 == #[trigger] day_at(seconds as int, offset)
                &&& parts.1@ == local_form(seconds as int, offset, first@)
                &&& parts.2@ == local_form(seconds as int, offset, second@)
                &&& first@ == "%H:%M"@ ==> parts.1@ == clock_text(seconds + offset)
                &&& second@ == "%H:%M"@ ==> parts.2@ == clock_text(seconds + offset)
            },
{
    chrono::Local.timestamp_opt(seconds, 0).single().map(
        |time|
            (
                time.date_naive().num_days_from_ce(),
                time.format(first).to_string(),
                time.format(second).to_string(),
            ),
    )
}

/// A time on the calendar of the machine.
#[derive(Debug)]
pub struct LocalTime {
    /// The number of the day.
    pub day: i32,
    /// The hour and minute, such as `09:05`.
    pub clock: String,
    /// The day and month, such as `1 May`.
    pub date: String,
}

/// The local time is that of a Unix time, where local time is so much ahead of UTC.
pub open spec fn is_local_time_at(seconds: int, offset: int, time: LocalTime) -> bool {
    &&& is_offset(offset)
    &&& time.day == day_at(seconds, offset)
    &&& time.clock@ == clock_text(seconds + offset)
    &&& time.date@ == local_form(seconds, offset, "%-d %b"@)
}

/// The local time is that of a Unix time, somewhere.
pub open spec fn is_local_time(seconds: int, time: LocalTime) -> bool {
    exists|offset: int| #[trigger] is_local_time_at(seconds, offset, time)
}

/// The local time of a Unix time, where the calendar reaches that far.
pub fn local_time(seconds: i64) -> (r: Option<LocalTime>)
    requires
        !at_calendar_end(seconds as int),
    ensures
        r is Some == in_calendar(seconds as int),
        r matches Some(time) ==> is_local_time(seconds as int, time),
{
    match local_parts(seconds, "%H:%M", "%-d %b") {
        Some((day, clock, date)) => {
            let time = LocalTime { day, clock, date };
            proof {
                let offset = choose|offset: int|
                    {
                        &&& is_offset(offset)
                        &&& day == #[trigger] day_at(seconds as int, offset)
                        &&& clock@ == clock_text(seconds + offset)
                        &&& date@ == local_form(seconds as int, offset, "%-d %b"@)
                    };
                assert(is_local_time_at(seconds as int, offset, time));
            }
            Some(time)
        },
        None => None,
    }
}

/// The text is the stamp of some time: year, month and day, then hour, minute and second.
pub open spec fn is_stamp(text: Seq<char>) -> bool {
    exists|at: int, offset: int|
        {
            &&& at >= 0
            &&& in_calendar(at)
            &&& is_offset(offset)
            &&& text == #[trigger] local_form(at, offset, "%Y%m%d-%H%M%S"@)
        }
}

/// The local time of `Local::now`, to the second, by `DateTime::format`.
#[verifier::external_body]
pub(crate) fn local_stamp() -> (r: String)
    ensures
        is_stamp(r@),
{
    chrono::Local::now().format("%Y%m%d-%H%M%S").to_string()
}

}
