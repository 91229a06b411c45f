//! Wall-clock time and the local time zone.
//!
//! Reading the clock and resolving the local time zone are the only things
//! the library takes on trust from the `jiff` crate; what is computed from
//! their results — floor truncation to millisecond precision, calendar
//! arithmetic, range queries — is verified.
use vstd::prelude::*;

use vstd::arithmetic::div_mod::{
    lemma_div_is_ordered, lemma_fundamental_div_mod, lemma_fundamental_div_mod_converse,
    lemma_hoist_over_denominator, lemma_mod_division_less_than_divisor,
};

use crate::date::{valid_date, CivilDate};
use crate::time::ts_in_window;

verus! {

/// Smallest whole-millisecond value of a representable instant
/// (-9999-01-01, at the westernmost supported offset).
pub const CLOCK_MS_MIN: i64 = -377705023201000;

/// Largest whole-millisecond value of a representable instant
/// (9999-12-31, at the easternmost supported offset).
pub const CLOCK_MS_MAX: i64 = 253402207200999;

/// The instant `s` seconds and `ns` fractional nanoseconds from the epoch,
/// truncated (floor, never round-to-nearest) to whole milliseconds.
pub open spec fn millis_of(s: i64, ns: i32) -> int {
    (s * 1_000_000_000 + ns as int) / 1_000_000
}

/// Relies on jiff's TryFrom<std::time::SystemTime> for Timestamp (the
/// fallible form of Timestamp::now, so a clock set outside jiff's instant
/// range yields absence rather than a panic), converting the result with
/// Timestamp::as_second and Timestamp::subsec_nanosecond: the current system
/// time, split into whole seconds and fractional nanoseconds of the same
/// sign, inside jiff's documented instant range (-9999-01-01T00:00:00Z at
/// the lowest offset through 9999-12-31T23:59:59.999999999Z at the highest).
#[verifier::external_body]
pub(crate) fn now_parts() -> (r: Option<(i64, i32)>)
    ensures
        match r {
            Some(p) => {
                &&& -377705023201 <= p.0 <= 253402207200
                &&& -999_999_999 <= p.1 <= 999_999_999
                &&& p.0 * 1_000_000_000 + p.1 >= -377705023201000000000
                &&& p.0 * 1_000_000_000 + p.1 <= 253402207200999999999
            },
            None => true,
        },
{
    let t = jiff::Timestamp::try_from(std::time::SystemTime::now()).ok()?;
    Some((t.as_second(), t.subsec_nanosecond()))
}

/// Floor truncation of a split instant to whole milliseconds.  Floor (rather
/// than round-to-nearest) keeps timestamps monotonic non-decreasing under
/// repeated truncation.
pub fn floor_millis(s: i64, ns: i32) -> (r: i64)
    requires
        -400_000_000_000 <= s <= 400_000_000_000,
        -999_999_999 <= ns <= 999_999_999,
    ensures
        r == millis_of(s, ns),
{
    let q: i64 = if ns >= 0 {
        ((ns as u64) / 1_000_000) as i64
    } else {
        let k: u64 = (-(ns as i64)) as u64;
        -1 - (((k - 1) / 1_000_000) as i64)
    };
    proof {
        assert(q == (ns as int) / 1_000_000) by {
            if ns < 0 {
                let kk = -(ns as int);
                let t = (kk - 1) / 1_000_000;
                let rem = (kk - 1) % 1_000_000;
                lemma_fundamental_div_mod(kk - 1, 1_000_000);
                lemma_mod_division_less_than_divisor(kk - 1, 1_000_000);
                lemma_fundamental_div_mod_converse(
                    ns as int,
                    1_000_000,
                    -1 - t,
                    1_000_000 - rem - 1,
                );
            }
        }
        lemma_hoist_over_denominator(ns as int, (s as int) * 1000, 1_000_000nat);
        assert((s as int) * 1_000_000_000 + ns == ns + ((s as int) * 1000) * 1_000_000) by {
            assert((s as int) * 1_000_000_000 == ((s as int) * 1000) * 1_000_000)
                by (nonlinear_arith);
        }
    }
    s * 1000 + q
}

/// Current wall-clock time in milliseconds since the epoch, floor-truncated
/// to millisecond precision; absent when the system clock is set outside
/// the representable instant range.
pub fn current_millis() -> (r: Option<i64>)
    ensures
        match r {
            Some(ms) => CLOCK_MS_MIN <= ms <= CLOCK_MS_MAX,
            None => true,
        },
{
    let parts = match now_parts() {
        None => {
            return None;
        },
        Some(p) => p,
    };
    let (s, ns) = parts;
    let ms = floor_millis(s, ns);
    proof {
        let total = (s as int) * 1_000_000_000 + ns;
        lemma_fundamental_div_mod_converse(
            (CLOCK_MS_MIN as int) * 1_000_000,
            1_000_000,
            CLOCK_MS_MIN as int,
            0,
        );
        lemma_div_is_ordered((CLOCK_MS_MIN as int) * 1_000_000, total, 1_000_000);
        lemma_fundamental_div_mod_converse(
            (CLOCK_MS_MAX as int) * 1_000_000 + 999_999,
            1_000_000,
            CLOCK_MS_MAX as int,
            999_999,
        );
        lemma_div_is_ordered(total, (CLOCK_MS_MAX as int) * 1_000_000 + 999_999, 1_000_000);
    }
    Some(ms)
}

/// Relies on jiff::civil::Date::new, Date::to_zoned with TimeZone::system,
/// Zoned::start_of_day and Zoned::end_of_day, and Timestamp::as_millisecond:
/// the first and last whole millisecond of the given calendar date in the
/// process's time zone; absent when the time zone cannot place the date.
/// Nothing is promised of the two instants' order: a time zone whose forward
/// jump exceeds a day at an hour other than midnight can resolve the day's
/// end to an instant before its start, so the caller tests the order.
#[verifier::external_body]
pub(crate) fn local_day_bounds(d: CivilDate) -> (r: Option<(i64, i64)>)
    requires
        valid_date(d),
        1 <= d.year <= 9998,
{
    let date = jiff::civil::Date::new(d.year as i16, d.month as i8, d.day as i8).ok()?;
    let zoned = date.to_zoned(jiff::tz::TimeZone::system()).ok()?;
    let start = zoned.start_of_day().ok()?;
    let end = zoned.end_of_day().ok()?;
    Some((start.timestamp().as_millisecond(), end.timestamp().as_millisecond()))
}

/// Relies on jiff::Timestamp::from_millisecond (the instant is inside the
/// representable range, so it cannot fail), Timestamp::to_zoned with
/// TimeZone::system, Zoned::date, and Date's year, month and day: the
/// calendar date of the instant in the process's time zone.  Offsets are
/// within +/-26 hours, so an instant of the window (years 1 through 9998)
/// has a local date between 0000-12-30 and 9999-01-02; in particular it is
/// never 0000-01-01, and day navigation from it stays in supported years.
#[verifier::external_body]
pub(crate) fn local_civil_date(ms: i64) -> (r: CivilDate)
    requires
        ts_in_window(ms),
    ensures
        valid_date(r),
        !(r.year == 0 && r.month == 1 && r.day == 1),
{
    let ts = jiff::Timestamp::from_millisecond(ms).unwrap();
    let zoned = ts.to_zoned(jiff::tz::TimeZone::system());
    let date = zoned.date();
    CivilDate { year: date.year() as i32, month: date.month() as u8, day: date.day() as u8 }
}

} // verus!
