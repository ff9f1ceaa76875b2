//! Points in time and their texts.

use vstd::prelude::*;
use crate::numbers;

verus! {

/// A point in time: whole seconds since the Unix epoch, and the nanoseconds past
/// them.
#[derive(Clone, Copy, Debug, PartialEq, Eq, Structural)]
pub struct Timestamp {
    pub secs: i64,
    pub nanos: u32,
}

/// The seconds that the calendar of the `chrono` crate covers: from the first of
/// January 262144 BCE to the end of the year 262142.
pub open spec fn in_calendar(secs: int) -> bool {
    -8_334_601_228_800 <= secs <= 8_210_266_876_799
}

impl Timestamp {
    /// A point of the calendar.
    pub open spec fn wf(self) -> bool {
        self.nanos < 1_000_000_000 && in_calendar(self.secs as int)
    }

    /// The nanoseconds since the Unix epoch.
    pub open spec fn instant(self) -> int {
        self.secs * 1_000_000_000 + self.nanos
    }
}

// ---------------------------------------------------------------------------
// The calendar
// ---------------------------------------------------------------------------

pub open spec fn is_leap(y: int) -> bool {
    y % 4 == 0 && (y % 100 != 0 || y % 400 == 0)
}

pub open spec fn leap_day(y: int) -> int {
    if is_leap(y) {
        1
    } else {
        0
    }
}

pub open spec fn days_in_month(y: int, m: int) -> int {
    if m == 2 {
        28 + leap_day(y)
    } else if m == 4 || m == 6 || m == 9 || m == 11 {
        30
    } else {
        31
    }
}

/// The days of the year before the month begins.
pub open spec fn days_before_month(y: int, m: int) -> int
    decreases m,
{
    if m <= 1 {
        0
    } else {
        days_before_month(y, m - 1) + days_in_month(y, m - 1)
    }
}

/// The days from the first of January 1970 to that of the year.
pub open spec fn days_before_year(y: int) -> int
    decreases y,
{
    if y <= 1970 {
        0
    } else {
        days_before_year(y - 1) + 365 + leap_day(y - 1)
    }
}

/// A date of the Gregorian calendar, from 1970 on.
pub open spec fn valid_date(y: int, m: int, d: int) -> bool {
    1970 <= y && 1 <= m <= 12 && 1 <= d <= days_in_month(y, m)
}

/// The days from the first of January 1970 to the date.
pub open spec fn day_number(y: int, m: int, d: int) -> int {
    days_before_year(y) + days_before_month(y, m) + d - 1
}

/// The date of a day.
pub open spec fn date_of_day(days: int) -> (int, int, int) {
    choose|t: (int, int, int)| #[trigger] valid_date(t.0, t.1, t.2) && day_number(t.0, t.1, t.2) == days
}

/// A second count since the epoch as `YYYY-MM-DDTHH:MM:SS`.
pub open spec fn date_time(secs: nat) -> Seq<char> {
    let t = date_of_day((secs / 86_400) as int);
    let rest = secs % 86_400;
    numbers::padded(t.0 as nat, 4) + "-"@ + numbers::padded(t.1 as nat, 2) + "-"@ + numbers::padded(t.2 as nat, 2)
        + "T"@ + numbers::padded(rest / 3600, 2) + ":"@ + numbers::padded((rest % 3600) / 60, 2) + ":"@
        + numbers::padded(rest % 60, 2)
}

/// The seconds from 1970 to the end of the year 9999.
pub open spec fn four_digit_year(secs: int) -> bool {
    0 <= secs <= 253_402_300_799
}

/// Nanoseconds as a fraction of a second: none, three, six or nine digits, as many
/// as it takes.
pub open spec fn fraction(nanos: nat) -> Seq<char> {
    if nanos == 0 {
        Seq::empty()
    } else if nanos % 1_000_000 == 0 {
        "."@ + numbers::padded(nanos / 1_000_000, 3)
    } else if nanos % 1000 == 0 {
        "."@ + numbers::padded(nanos / 1000, 6)
    } else {
        "."@ + numbers::padded(nanos, 9)
    }
}

/// The RFC 3339 text of a point in time before 1970 or after the year 9999, as
/// `DateTime::<Utc>::to_rfc3339` of the `chrono` crate writes it.
pub uninterp spec fn far_rfc3339_of(secs: i64, nanos: u32) -> Seq<char>;

/// The RFC 3339 text of a point in time.
pub open spec fn rfc3339_of(secs: i64, nanos: u32) -> Seq<char> {
    if four_digit_year(secs as int) {
        date_time(secs as nat) + fraction(nanos as nat) + "+00:00"@
    } else {
        far_rfc3339_of(secs, nanos)
    }
}

/// `chrono::DateTime::<Utc>::from_timestamp` and `to_rfc3339` of its result: none
/// where the seconds are outside the calendar; otherwise the date and time of the
/// two numbers, the fraction only where there is one, and the offset of UTC. How
/// the text reads before 1970 and after the year 9999 is not said here, only that
/// it is a function of the two numbers.
#[verifier::external_body]
pub(crate) fn rfc3339_text(secs: i64, nanos: u32) -> (r: Option<String>)
    requires
        nanos < 1_000_000_000,
    ensures
        r is Some <==> in_calendar(secs as int),
        r is Some && four_digit_year(secs as int) ==> (r->0)@ == date_time(secs as nat) + fraction(nanos as nat)
            + "+00:00"@,
        r is Some && !four_digit_year(secs as int) ==> (r->0)@ == far_rfc3339_of(secs, nanos),
{
    chrono::DateTime::<chrono::Utc>::from_timestamp(secs, nanos).map(|t| t.to_rfc3339())
}

/// The text to the second of a point in time before 1970 or after the year 9999,
/// as `DateTime::<Utc>::format` of the `chrono` crate writes it for
/// `%Y-%m-%dT%H:%M:%SZ`.
pub uninterp spec fn far_second_text_of(secs: i64, nanos: u32) -> Seq<char>;

/// The text of a point in time to the second.
pub open spec fn second_text_of(secs: i64, nanos: u32) -> Seq<char> {
    if four_digit_year(secs as int) {
        date_time(secs as nat) + "Z"@
    } else {
        far_second_text_of(secs, nanos)
    }
}

/// `chrono::DateTime::<Utc>::from_timestamp` and `format` of its result with
/// `%Y-%m-%dT%H:%M:%SZ`: none where the seconds are outside the calendar;
/// otherwise the date and time of the seconds. How the text reads before 1970 and
/// after the year 9999 is not said here, only that it is a function of the two
/// numbers.
#[verifier::external_body]
pub(crate) fn second_text(secs: i64, nanos: u32) -> (r: Option<String>)
    requires
        nanos < 1_000_000_000,
    ensures
        r is Some <==> in_calendar(secs as int),
        r is Some && four_digit_year(secs as int) ==> (r->0)@ == date_time(secs as nat) + "Z"@,
        r is Some && !four_digit_year(secs as int) ==> (r->0)@ == far_second_text_of(secs, nanos),
{
    chrono::DateTime::<chrono::Utc>::from_timestamp(secs, nanos).map(
        |t| t.format("%Y-%m-%dT%H:%M:%SZ").to_string(),
    )
}

/// The RFC 3339 text of a point of the calendar.
pub fn timestamp_text(t: Timestamp) -> (r: String)
    requires
        t.wf(),
    ensures
        r@ == rfc3339_of(t.secs, t.nanos),
{
    match rfc3339_text(t.secs, t.nanos) {
        Some(text) => text,
        None => String::new(),
    }
}

/// Tells whether no more than `secs` seconds lie between two points, the second
/// minus the first.
pub fn within(from: Timestamp, to: Timestamp, secs: i64) -> (r: bool)
    ensures
        r == (to.instant() - from.instant() <= secs * 1_000_000_000),
{
    let a: i128 = from.secs as i128 * 1_000_000_000 + from.nanos as i128;
    let b: i128 = to.secs as i128 * 1_000_000_000 + to.nanos as i128;
    b - a <= secs as i128 * 1_000_000_000
}

// ---------------------------------------------------------------------------
// Laws
// ---------------------------------------------------------------------------


/// Every fourth year is a leap year but the hundredth, and the four hundredth again.
pub proof fn law_leap_years(y: int)
    ensures
        y % 400 == 0 ==> is_leap(y),
        y % 100 == 0 && y % 400 != 0 ==> !is_leap(y),
        y % 4 == 0 && y % 100 != 0 ==> is_leap(y),
        y % 4 != 0 ==> !is_leap(y),
        leap_day(y) == (if is_leap(y) { 1int } else { 0 }),
{
}

/// How many days each month has.
pub proof fn law_days_of_months(y: int)
    ensures
        days_in_month(y, 1) == 31 && days_in_month(y, 3) == 31 && days_in_month(y, 4) == 30 && days_in_month(y, 5) == 31
            && days_in_month(y, 6) == 30 && days_in_month(y, 7) == 31 && days_in_month(y, 8) == 31 && days_in_month(y, 9)
            == 30 && days_in_month(y, 10) == 31 && days_in_month(y, 11) == 30 && days_in_month(y, 12) == 31,
        days_in_month(y, 2) == (if is_leap(y) { 29int } else { 28 }),
{
}

/// The calendar goes on day by day: the day after a date is the next of its month, the
/// first of the next month, or the first of January of the next year; and it begins
/// on the first of January 1970.
pub proof fn law_days_follow_each_other(y: int, m: int, d: int)
    requires
        y >= 1970,
        1 <= m <= 12,
    ensures
        day_number(1970, 1, 1) == 0,
        day_number(y, m, d + 1) == day_number(y, m, d) + 1,
        m < 12 ==> day_number(y, m + 1, 1) == day_number(y, m, days_in_month(y, m)) + 1,
        day_number(y + 1, 1, 1) == day_number(y, 12, 31) + 1,
        valid_date(y, m, d) <==> 1 <= d <= days_in_month(y, m),
{
    reveal_with_fuel(days_before_month, 13);
    reveal_with_fuel(days_before_year, 2);
}

/// The time of day is told in hours, minutes and seconds since midnight.
pub proof fn law_times_of_day(days: nat, h: nat, m: nat, s: nat)
    requires
        h < 24,
        m < 60,
        s < 60,
    ensures
        ({
            let t = date_of_day(days as int);
            date_time(days * 86_400 + h * 3600 + m * 60 + s) == numbers::padded(t.0 as nat, 4) + "-"@ + numbers::padded(
                t.1 as nat,
                2,
            ) + "-"@ + numbers::padded(t.2 as nat, 2) + "T"@ + numbers::padded(h, 2) + ":"@ + numbers::padded(m, 2) + ":"@
                + numbers::padded(s, 2)
        }),
{
    let secs = days * 86_400 + h * 3600 + m * 60 + s;
    assert(secs / 86_400 == days);
    assert(secs % 86_400 == h * 3600 + m * 60 + s);
    let rest = secs % 86_400;
    assert(rest / 3600 == h);
    assert(rest % 3600 == m * 60 + s);
    assert((rest % 3600) / 60 == m);
    assert(rest % 60 == s);
}

/// A fraction of a second is told to the thousandth, the millionth or the
/// thousand-millionth, as it needs, and not at all where it is none.
pub proof fn law_fractions(n: nat)
    ensures
        fraction(0).len() == 0,
        0 < n < 1000 ==> fraction(n * 1_000_000) == "."@ + numbers::padded(n, 3),
        0 < n < 1_000_000 && n % 1000 != 0 ==> fraction(n * 1000) == "."@ + numbers::padded(n, 6),
        0 < n < 1_000_000_000 && n % 1000 != 0 ==> fraction(n) == "."@ + numbers::padded(n, 9),
{
    assert(n * 1_000_000 % 1_000_000 == 0);
    assert(n * 1_000_000 / 1_000_000 == n);
    assert(n * 1000 % 1000 == 0);
    assert(n * 1000 / 1000 == n);
    if n % 1000 != 0 {
        assert(n * 1000 % 1_000_000 != 0);
        assert(n % 1_000_000 != 0);
    }
}

/// A point in time within four digits of years is told in UTC with its fraction, and
/// to the second without.
pub proof fn law_texts_of_moments(secs: i64, nanos: u32)
    requires
        0 <= secs <= 253_402_300_799,
    ensures
        rfc3339_of(secs, nanos) == date_time(secs as nat) + fraction(nanos as nat) + "+00:00"@,
        second_text_of(secs, nanos) == date_time(secs as nat) + "Z"@,
{
}

/// Moments are measured in nanoseconds since the epoch.
pub proof fn law_instants(a: Timestamp, b: Timestamp)
    ensures
        b.instant() - a.instant() == (b.secs - a.secs) * 1_000_000_000 + (b.nanos - a.nanos),
        a.wf() <==> a.nanos < 1_000_000_000 && -8_334_601_228_800 <= a.secs <= 8_210_266_876_799,
{
}

} // verus!
