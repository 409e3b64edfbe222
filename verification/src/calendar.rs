//! Civil (proleptic Gregorian) date-time values as plain fields, with the
//! calendar arithmetic the log-timestamp resolver relies on: validity of a
//! year/month/day triple and conversion to seconds since the Unix epoch.
//!
//! Years are kept within the range a `chrono` naive date can carry, so that
//! values converted at the application boundary always fit.

use vstd::arithmetic::div_mod::{
    lemma_fundamental_div_mod, lemma_fundamental_div_mod_converse, lemma_hoist_over_denominator,
    lemma_mod_multiples_vanish,
};
use vstd::prelude::*;

verus! {

/// Largest year a date-time may carry; mirrors the bound of `chrono`'s naive dates.
pub const MAX_YEAR: i32 = 262143;

/// Smallest year a date-time may carry; mirrors the bound of `chrono`'s naive dates.
pub const MIN_YEAR: i32 = -262144;

/// A time of day: hour, minute, second and millisecond.
#[derive(Debug, Copy, Clone, PartialEq, Eq, Structural, Hash)]
pub struct TimeOfDay {
    pub hour: u8,
    pub minute: u8,
    pub second: u8,
    pub milli: u16,
}

/// A civil date and time of day without a UTC offset.
#[derive(Debug, Copy, Clone, PartialEq, Eq, Structural, Hash)]
pub struct DateTime {
    pub year: i32,
    pub month: u8,
    pub day: u8,
    pub time: TimeOfDay,
}

impl TimeOfDay {
    /// The fields lie within their calendar ranges.
    pub open spec fn wf(self) -> bool {
        self.hour <= 23 && self.minute <= 59 && self.second <= 59 && self.milli <= 999
    }

    /// Seconds since midnight, ignoring the millisecond.
    pub open spec fn seconds(self) -> int {
        self.hour * 3600 + self.minute * 60 + self.second
    }
}

/// Whether `y` is a leap year in the proleptic Gregorian calendar.
pub open spec fn is_leap_year(y: int) -> bool {
    (y % 4 == 0 && y % 100 != 0) || y % 400 == 0
}

/// The number of days in month `m` of year `y`, for `1 <= m <= 12`.
pub open spec fn days_in_month(y: int, m: int) -> int {
    if m == 2 {
        if is_leap_year(y) {
            29
        } else {
            28
        }
    } else if m == 4 || m == 6 || m == 9 || m == 11 {
        30
    } else {
        31
    }
}

/// Whether year/month/day name an existing calendar date within year bounds.
pub open spec fn valid_ymd(y: int, m: int, d: int) -> bool {
    &&& MIN_YEAR <= y <= MAX_YEAR
    &&& 1 <= m <= 12
    &&& 1 <= d <= days_in_month(y, m)
}

impl DateTime {
    /// The fields name an existing calendar date and a well-formed time of day.
    pub open spec fn wf(self) -> bool {
        valid_ymd(self.year as int, self.month as int, self.day as int) && self.time.wf()
    }
}

/// Leap days up to the end of year `t`, counted from year 0 by the Gregorian
/// rule. Divisions are on mathematical integers, so they round down.
pub open spec fn leap_count(t: int) -> int {
    t / 4 - t / 100 + t / 400
}

/// Days from 1970-01-01 to the given civil date (negative for earlier dates).
///
/// This is the standard era-based formula: the year is shifted so it starts in
/// March, which puts the possible leap day last. The formula is kept opaque:
/// callers reason through `epoch_days_exec` and the year-step lemma.
#[verifier::opaque]
pub open spec fn epoch_days(y: int, m: int, d: int) -> int {
    let yp = if m <= 2 {
        y - 1
    } else {
        y
    };
    365 * yp + leap_count(yp) + (153 * ((m + 9) % 12) + 2) / 5 + d - 1 - 719468
}

/// Seconds from 1970-01-01T00:00:00 to the given civil date-time, ignoring the
/// millisecond, as `chrono` counts them for a naive date-time.
pub open spec fn epoch_seconds(dt: DateTime) -> int {
    epoch_days(dt.year as int, dt.month as int, dt.day as int) * 86400 + dt.time.seconds()
}

/// Milliseconds from 1970-01-01T00:00:00 to the given civil date-time.
pub open spec fn epoch_millis(dt: DateTime) -> int {
    epoch_seconds(dt) * 1000 + dt.time.milli
}

/// Whether `y` is a leap year.
pub fn is_leap_year_exec(y: i32) -> (r: bool)
    requires
        MIN_YEAR <= y <= MAX_YEAR,
    ensures
        r == is_leap_year(y as int),
{
    // Shift by a multiple of 400 to keep the operands nonnegative.
    let t: u64 = (y + 2_400_000) as u64;
    proof {
        lemma_mod_multiples_vanish(600_000, y as int, 4);
        lemma_mod_multiples_vanish(24_000, y as int, 100);
        lemma_mod_multiples_vanish(6_000, y as int, 400);
    }
    (t % 4 == 0 && t % 100 != 0) || t % 400 == 0
}

/// The number of days in month `m` of year `y`.
pub fn days_in_month_exec(y: i32, m: u8) -> (r: u8)
    requires
        MIN_YEAR <= y <= MAX_YEAR,
        1 <= m <= 12,
    ensures
        r == days_in_month(y as int, m as int),
{
    if m == 2 {
        if is_leap_year_exec(y) {
            29
        } else {
            28
        }
    } else if m == 4 || m == 6 || m == 9 || m == 11 {
        30
    } else {
        31
    }
}

/// Whether year/month/day name an existing calendar date within year bounds.
pub fn valid_ymd_exec(y: i32, m: u8, d: u8) -> (r: bool)
    ensures
        r == valid_ymd(y as int, m as int, d as int),
{
    MIN_YEAR <= y && y <= MAX_YEAR && 1 <= m && m <= 12 && 1 <= d && d <= days_in_month_exec(y, m)
}

/// Days from the epoch to year/month/day, as executable arithmetic.
pub fn epoch_days_exec(y: i32, m: u8, d: u8) -> (r: i64)
    requires
        MIN_YEAR <= y <= MAX_YEAR + 1,
        1 <= m <= 12,
        1 <= d <= 31,
    ensures
        r == epoch_days(y as int, m as int, d as int),
        -400_000_000 <= r <= 400_000_000,
{
    let yp: i64 = if m <= 2 {
        y as i64 - 1
    } else {
        y as i64
    };
    // Shift by a multiple of 400 to keep the divisions nonnegative.
    let t: u64 = (yp + 400_000) as u64;
    proof {
        reveal(epoch_days);
        lemma_hoist_over_denominator(yp as int, 100_000, 4nat);
        lemma_hoist_over_denominator(yp as int, 4_000, 100nat);
        lemma_hoist_over_denominator(yp as int, 1_000, 400nat);
    }
    let leaps: i64 = (t / 4) as i64 - (t / 100) as i64 + (t / 400) as i64 - 97_000;
    let mp: u64 = ((m as u64) + 9) % 12;
    let doy: i64 = ((153 * mp + 2) / 5) as i64;
    proof {
        vstd::arithmetic::div_mod::lemma_div_is_ordered(t as int, 663_000, 4);
        vstd::arithmetic::div_mod::lemma_div_is_ordered(0, t as int, 4);
        vstd::arithmetic::div_mod::lemma_div_is_ordered(0, t as int, 100);
        vstd::arithmetic::div_mod::lemma_div_is_ordered(t as int, 663_000, 400);
    }
    365 * yp + leaps + doy + (d as i64) - 1 - 719468
}

/// Seconds from the epoch to the given civil date-time, as executable arithmetic.
pub fn epoch_seconds_exec(dt: &DateTime) -> (r: i64)
    requires
        dt.wf(),
    ensures
        r == epoch_seconds(*dt),
        -40_000_000_000_000 <= r <= 40_000_000_000_000,
{
    let days = epoch_days_exec(dt.year, dt.month, dt.day);
    days * 86400 + (dt.time.hour as i64) * 3600 + (dt.time.minute as i64) * 60
        + (dt.time.second as i64)
}

/// A civil date-time paired with a UTC offset, like `chrono`'s
/// `DateTime<FixedOffset>`: the date and time of day are local, and the offset
/// is the signed number of seconds east of UTC.
#[derive(Debug, Copy, Clone, Hash)]
pub struct OffsetDateTime {
    pub datetime: DateTime,
    pub offset_seconds: i32,
}

impl OffsetDateTime {
    /// The local fields are a valid date-time and the offset is under a day,
    /// as `chrono` requires of a fixed offset.
    pub open spec fn wf(self) -> bool {
        self.datetime.wf() && -86400 < self.offset_seconds < 86400
    }

    /// Milliseconds from the epoch to the instant this value denotes.
    pub open spec fn utc_millis(self) -> int {
        epoch_millis(self.datetime) - self.offset_seconds * 1000
    }
}

/// Milliseconds from the epoch to the given civil date-time, defined for every
/// field value so that comparisons never need a precondition.
fn epoch_millis_total(dt: &DateTime) -> (r: i128)
    ensures
        r == epoch_millis(*dt),
        -70_000_000_000_000_000_000 <= r <= 70_000_000_000_000_000_000,
{
    let yp: i64 = if dt.month <= 2 {
        dt.year as i64 - 1
    } else {
        dt.year as i64
    };
    // Shift by a multiple of 400 large enough for any 32-bit year.
    let t: u64 = (yp + 2_400_000_000) as u64;
    proof {
        reveal(epoch_days);
        lemma_hoist_over_denominator(yp as int, 600_000_000, 4nat);
        lemma_hoist_over_denominator(yp as int, 24_000_000, 100nat);
        lemma_hoist_over_denominator(yp as int, 6_000_000, 400nat);
    }
    let leaps: i64 = (t / 4) as i64 - (t / 100) as i64 + (t / 400) as i64 - 582_000_000;
    let mp: u64 = ((dt.month as u64) + 9) % 12;
    let doy: i64 = ((153 * mp + 2) / 5) as i64;
    proof {
        vstd::arithmetic::div_mod::lemma_div_is_ordered(t as int, 4_600_000_000, 4);
        vstd::arithmetic::div_mod::lemma_div_is_ordered(0, t as int, 4);
        vstd::arithmetic::div_mod::lemma_div_is_ordered(0, t as int, 100);
        vstd::arithmetic::div_mod::lemma_div_is_ordered(t as int, 4_600_000_000, 400);
    }
    let days: i64 = 365 * yp + leaps + doy + (dt.day as i64) - 1 - 719468;
    let secs: i64 = days * 86400 + (dt.time.hour as i64) * 3600 + (dt.time.minute as i64) * 60 + (
    dt.time.second as i64);
    (secs as i128) * 1000 + (dt.time.milli as i128)
}

impl OffsetDateTime {
    /// Milliseconds from the epoch to the instant this value denotes, as
    /// executable arithmetic, defined for every field value.
    pub fn utc_millis_exec(&self) -> (r: i128)
        ensures
            r == self.utc_millis(),
    {
        epoch_millis_total(&self.datetime) - (self.offset_seconds as i128) * 1000
    }
}

impl PartialEq for OffsetDateTime {
    /// Two values are equal when they denote the same instant, as `chrono`
    /// compares offset date-times; the offsets themselves may differ.
    fn eq(&self, other: &OffsetDateTime) -> (r: bool) {
        self.utc_millis_exec() == other.utc_millis_exec()
    }
}

impl Eq for OffsetDateTime {

}

impl vstd::std_specs::cmp::PartialEqSpecImpl for OffsetDateTime {
    open spec fn obeys_eq_spec() -> bool {
        true
    }

    open spec fn eq_spec(&self, other: &OffsetDateTime) -> bool {
        self.utc_millis() == other.utc_millis()
    }
}

/// One year later, same month and day: between 365 and 366 days ahead.
pub proof fn lemma_epoch_days_year_step(y: int, m: int, d: int)
    requires
        1 <= m <= 12,
    ensures
        365 <= epoch_days(y + 1, m, d) - epoch_days(y, m, d) <= 366,
{
    reveal(epoch_days);
    let yp = if m <= 2 {
        y - 1
    } else {
        y
    };
    lemma_leap_count_step(yp);
}

/// The leap-day count grows by zero or one from one year to the next.
proof fn lemma_leap_count_step(t: int)
    ensures
        0 <= leap_count(t + 1) - leap_count(t) <= 1,
{
    lemma_div_step(t, 4);
    lemma_div_step(t, 100);
    lemma_div_step(t, 400);
    if (t + 1) % 100 == 0 {
        // A year divisible by 100 is divisible by 4.
        lemma_fundamental_div_mod(t + 1, 100);
        lemma_mod_multiples_vanish(25 * ((t + 1) / 100), 0, 4);
        assert(4 * (25 * ((t + 1) / 100)) == 100 * ((t + 1) / 100)) by (nonlinear_arith);
        assert((t + 1) % 4 == 0);
    }
    if (t + 1) % 400 == 0 {
        // A year divisible by 400 is divisible by 100.
        lemma_fundamental_div_mod(t + 1, 400);
        lemma_mod_multiples_vanish(4 * ((t + 1) / 400), 0, 100);
        assert(100 * (4 * ((t + 1) / 400)) == 400 * ((t + 1) / 400)) by (nonlinear_arith);
        assert((t + 1) % 100 == 0);
    }
}

/// Incrementing the dividend moves the quotient up by one exactly when the new
/// dividend is a multiple of the divisor.
proof fn lemma_div_step(t: int, d: int)
    requires
        d > 1,
    ensures
        (t + 1) / d == t / d + if (t + 1) % d == 0 {
            1int
        } else {
            0int
        },
        (t + 1) % d == 0 ==> t % d == d - 1,
{
    lemma_fundamental_div_mod(t, d);
    let q = t / d;
    let r = t % d;
    if r == d - 1 {
        assert((q + 1) * d + 0 == d * q + r + 1) by (nonlinear_arith)
            requires
                r == d - 1,
        ;
        lemma_fundamental_div_mod_converse(t + 1, d, q + 1, 0);
    } else {
        assert(q * d + (r + 1) == d * q + r + 1) by (nonlinear_arith);
        lemma_fundamental_div_mod_converse(t + 1, d, q, r + 1);
    }
}


} // verus!
