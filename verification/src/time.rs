//! Millisecond timestamps.
//!
//! Instants are carried as signed milliseconds since the Unix epoch.  The
//! store accepts instants inside a fixed window (the years 1 through 9998 of
//! the proleptic Gregorian calendar, in UTC), so that arithmetic such as the
//! default one-day history window can never overflow and every stored instant
//! has valid neighbouring calendar dates in every time zone.
use vstd::prelude::*;

verus! {

/// First accepted instant: 0001-01-01T00:00:00.000Z.
pub const TS_MIN: i64 = -62135596800000;

/// Last accepted instant: 9998-12-31T23:59:59.999Z.
pub const TS_MAX: i64 = 253370764799999;

/// One day in milliseconds.
pub const DAY_MS: i64 = 86400000;

/// An instant the store accepts.
pub open spec fn ts_in_window(t: i64) -> bool {
    TS_MIN <= t <= TS_MAX
}

} // verus!
