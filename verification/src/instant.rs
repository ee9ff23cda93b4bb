//! Instants and durations, with the proleptic-Gregorian calendar
//! arithmetic that date literals in temporal expressions rely on.

use vstd::prelude::*;

verus! {

/// Nanoseconds in one second.
pub const NANOS_PER_SECOND: i128 = 1_000_000_000;

/// Nanoseconds in one millisecond.
pub const NANOS_PER_MILLI: i128 = 1_000_000;

/// An instant in time: nanoseconds since the Unix epoch.
#[derive(Debug, Clone, Copy, PartialEq, Eq, Hash, Structural)]
pub struct Instant {
    pub nanos: i128,
}

/// A span of time: a (possibly negative) count of nanoseconds.
#[derive(Debug, Clone, Copy, PartialEq, Eq, Hash, Structural)]
pub struct Duration {
    pub nanos: i128,
}

impl Duration {
    /// The zero-length span.
    pub fn zero() -> (r: Duration)
        ensures
            r.nanos == 0,
    {
        Duration { nanos: 0 }
    }

    /// Sum of two spans, or `None` when it does not fit.
    pub fn checked_plus(self, other: Duration) -> (r: Option<Duration>)
        ensures
            self.nanos + other.nanos <= i128::MAX && self.nanos + other.nanos >= i128::MIN ==> r
                == Some(Duration { nanos: (self.nanos + other.nanos) as i128 }),
            self.nanos + other.nanos > i128::MAX || self.nanos + other.nanos < i128::MIN ==> r
                is None,
    {
        match self.nanos.checked_add(other.nanos) {
            Some(n) => Some(Duration { nanos: n }),
            None => None,
        }
    }

    /// This span repeated `count` times, or `None` when it does not fit.
    pub fn checked_times(self, count: u64) -> (r: Option<Duration>)
        ensures
            self.nanos * count <= i128::MAX && self.nanos * count >= i128::MIN ==> r == Some(
                Duration { nanos: (self.nanos * count) as i128 },
            ),
            self.nanos * count > i128::MAX || self.nanos * count < i128::MIN ==> r is None,
    {
        match self.nanos.checked_mul(count as i128) {
            Some(n) => Some(Duration { nanos: n }),
            None => None,
        }
    }
}

impl Instant {
    /// The instant `d` later than `self`, or `None` when it does not fit.
    pub fn checked_plus(self, d: Duration) -> (r: Option<Instant>)
        ensures
            self.nanos + d.nanos <= i128::MAX && self.nanos + d.nanos >= i128::MIN ==> r == Some(
                Instant { nanos: (self.nanos + d.nanos) as i128 },
            ),
            self.nanos + d.nanos > i128::MAX || self.nanos + d.nanos < i128::MIN ==> r is None,
    {
        match self.nanos.checked_add(d.nanos) {
            Some(n) => Some(Instant { nanos: n }),
            None => None,
        }
    }
}

/// Whether `y` is a leap year in the proleptic Gregorian calendar.
pub open spec fn is_leap_year(y: int) -> bool {
    (y % 4 == 0 && y % 100 != 0) || y % 400 == 0
}

/// Number of days in month `m` (1 through 12) of year `y`.
pub open spec fn days_in_month(y: int, m: int) -> int {
    if m == 2 {
        if is_leap_year(y) {
            29
        } else {
            28
        }
    } else if m == 4 || m == 6 || m == 9 || m == 11 {
        30
    } else {
        31
    }
}

/// Days since 1970-01-01 of the civil date `y-m-d` in the proleptic
/// Gregorian calendar, for years 0 through 9999.
pub open spec fn days_from_civil(y: int, m: int, d: int) -> int {
    let yy = if m <= 2 {
        y + 399
    } else {
        y + 400
    };
    let era = yy / 400;
    let yoe = yy % 400;
    let mp = if m > 2 {
        m - 3
    } else {
        m + 9
    };
    let doy = (153 * mp + 2) / 5 + d - 1;
    let doe = yoe * 365 + yoe / 4 - yoe / 100 + doy;
    era * 146097 + doe - 865565
}

/// Whether the given date and time-of-day components form a valid
/// civil timestamp within the supported year range.
pub open spec fn valid_civil(y: int, m: int, d: int, h: int, mi: int, s: int) -> bool {
    &&& 0 <= y <= 9999
    &&& 1 <= m <= 12
    &&& 1 <= d <= days_in_month(y, m)
    &&& 0 <= h <= 23
    &&& 0 <= mi <= 59
    &&& 0 <= s <= 59
}

/// Whether the given offset components are in range.
pub open spec fn valid_offset(oh: int, om: int, os: int) -> bool {
    0 <= oh <= 25 && 0 <= om <= 59 && 0 <= os <= 59
}

/// The offset, in seconds, described by a sign and three components.
/// When the hour component is zero the smaller components count as
/// positive even under a leading minus sign.
pub open spec fn offset_total_secs(negative: bool, oh: int, om: int, os: int) -> int {
    let t = oh * 3600 + om * 60 + os;
    if negative && oh > 0 {
        -t
    } else {
        t
    }
}

/// Seconds since the Unix epoch of the civil timestamp interpreted at
/// the given offset.
pub open spec fn civil_to_unix_secs(
    y: int,
    m: int,
    d: int,
    h: int,
    mi: int,
    s: int,
    negative: bool,
    oh: int,
    om: int,
    os: int,
) -> int {
    days_from_civil(y, m, d) * 86400 + h * 3600 + mi * 60 + s - offset_total_secs(
        negative,
        oh,
        om,
        os,
    )
}

/// Number of days in month `m` of year `y`.
pub fn days_in_month_of(y: u64, m: u64) -> (r: u64)
    requires
        1 <= m <= 12,
    ensures
        r == days_in_month(y as int, m as int),
{
    if m == 2 {
        if (y % 4 == 0 && y % 100 != 0) || y % 400 == 0 {
            29
        } else {
            28
        }
    } else if m == 4 || m == 6 || m == 9 || m == 11 {
        30
    } else {
        31
    }
}

/// Days since 1970-01-01 of a civil date within the supported
/// ranges.
pub fn days_of_civil(y: u64, m: u64, d: u64) -> (r: i64)
    requires
        y <= 9999,
        1 <= m <= 12,
        1 <= d <= 31,
    ensures
        r == days_from_civil(y as int, m as int, d as int),
{
    let yy: u64 = if m <= 2 {
        y + 399
    } else {
        y + 400
    };
    let era: u64 = yy / 400;
    let yoe: u64 = yy % 400;
    let mp: u64 = if m > 2 {
        m - 3
    } else {
        m + 9
    };
    let doy: u64 = (153 * mp + 2) / 5 + d - 1;
    let doe: u64 = yoe * 365 + yoe / 4 - yoe / 100 + doy;
    (era * 146097 + doe) as i64 - 865565
}

/// The instant denoted by a civil timestamp and offset, as nanoseconds
/// since the Unix epoch.
pub fn instant_from_civil(
    y: u64,
    m: u64,
    d: u64,
    h: u64,
    mi: u64,
    s: u64,
    negative: bool,
    oh: u64,
    om: u64,
    os: u64,
) -> (r: Instant)
    requires
        valid_civil(y as int, m as int, d as int, h as int, mi as int, s as int),
        valid_offset(oh as int, om as int, os as int),
    ensures
        r.nanos == civil_to_unix_secs(
            y as int,
            m as int,
            d as int,
            h as int,
            mi as int,
            s as int,
            negative,
            oh as int,
            om as int,
            os as int,
        ) * NANOS_PER_SECOND,
{
    let yy: u64 = if m <= 2 {
        y + 399
    } else {
        y + 400
    };
    let era: u64 = yy / 400;
    let yoe: u64 = yy % 400;
    let mp: u64 = if m > 2 {
        m - 3
    } else {
        m + 9
    };
    let doy: u64 = (153 * mp + 2) / 5 + d - 1;
    let doe: u64 = yoe * 365 + yoe / 4 - yoe / 100 + doy;
    let days: i64 = (era * 146097 + doe) as i64 - 865565;
    let offset: i64 = (oh * 3600 + om * 60 + os) as i64;
    let offset: i64 = if negative && oh > 0 {
        -offset
    } else {
        offset
    };
    let secs: i64 = days * 86400 + (h * 3600 + mi * 60 + s) as i64 - offset;
    Instant { nanos: secs as i128 * NANOS_PER_SECOND }
}

} // verus!
