//! Fixed-point time arithmetic for the clock filter.
//!
//! A duration is a signed count of units of 2^-32 seconds; a timestamp is an
//! unsigned count of the same unit since the NTP era. The difference of two
//! timestamps wraps around the era boundary, as RFC 5905 prescribes, and is
//! read as a signed duration.

use vstd::prelude::*;

verus! {

/// Units (2^-32 s) that make up one second.
pub const UNITS_PER_SECOND: i64 = 0x1_0000_0000;

/// NTP's MAXDISP, 16 seconds, in units of 2^-32 s: the dispersion of a slot
/// that holds no sample.
pub const MAX_DISPERSION_UNITS: i64 = 0x10_0000_0000;

/// NTP's MINDISP, 0.005 seconds, in units of 2^-32 s: the floor on the delay
/// term of the root distance.
pub const MIN_DISPERSION_UNITS: i64 = 0x147_AE14;

/// The signed 64-bit reading of `x % 2^64`: the value in `[-2^63, 2^63)` that
/// is congruent to `x` modulo 2^64.
pub open spec fn to_signed_64(x: int) -> int {
    let m = x % 0x1_0000_0000_0000_0000;
    if m >= 0x8000_0000_0000_0000 {
        m - 0x1_0000_0000_0000_0000
    } else {
        m
    }
}

/// The signed span from timestamp `b` to timestamp `a`, wrapping around the
/// NTP era boundary.
pub open spec fn ts_diff(a: u64, b: u64) -> int {
    to_signed_64(a - b)
}

/// A signed span of time in units of 2^-32 seconds.
#[derive(Clone, Copy, PartialEq, Eq, Structural, Debug)]
pub struct NtpDuration {
    pub raw: i64,
}

/// A point in time: units of 2^-32 seconds since the NTP era.
#[derive(Clone, Copy, PartialEq, Eq, Structural, Debug)]
pub struct NtpTimestamp {
    pub raw: u64,
}

impl NtpDuration {
    /// The zero duration.
    pub fn zero() -> (r: NtpDuration)
        ensures
            r.raw == 0,
    {
        NtpDuration { raw: 0 }
    }

    /// MAXDISP, 16 seconds.
    pub fn max_dispersion() -> (r: NtpDuration)
        ensures
            r.raw == MAX_DISPERSION_UNITS,
    {
        NtpDuration { raw: MAX_DISPERSION_UNITS }
    }

    /// MINDISP, 0.005 seconds.
    pub fn min_dispersion() -> (r: NtpDuration)
        ensures
            r.raw == MIN_DISPERSION_UNITS,
    {
        NtpDuration { raw: MIN_DISPERSION_UNITS }
    }

    /// A whole number of seconds as a duration.
    pub fn from_seconds(seconds: i64) -> (r: NtpDuration)
        requires
            -0x8000_0000 <= seconds < 0x8000_0000,
        ensures
            r.raw == seconds * UNITS_PER_SECOND,
    {
        NtpDuration { raw: seconds * UNITS_PER_SECOND }
    }
}

impl NtpTimestamp {
    /// The era origin, time zero.
    pub fn zero() -> (r: NtpTimestamp)
        ensures
            r.raw == 0,
    {
        NtpTimestamp { raw: 0 }
    }

    /// A whole number of seconds since the era as a timestamp.
    pub fn from_seconds(seconds: u64) -> (r: NtpTimestamp)
        requires
            seconds < 0x1_0000_0000,
        ensures
            r.raw == seconds * 0x1_0000_0000,
    {
        NtpTimestamp { raw: seconds * 0x1_0000_0000u64 }
    }

    /// The signed span from `earlier` to `self`, wrapping around the era
    /// boundary: the fixed-point analogue of RFC 5905's timestamp subtraction.
    pub fn difference(self, earlier: NtpTimestamp) -> (r: NtpDuration)
        ensures
            r.raw == ts_diff(self.raw, earlier.raw),
    {
        let w: u64 = self.raw.wrapping_sub(earlier.raw);
        let raw: i64 = if w >= 0x8000_0000_0000_0000 {
            ((w - 0x8000_0000_0000_0000) as i64) + i64::MIN
        } else {
            w as i64
        };
        NtpDuration { raw }
    }
}

/// The leap-second indicator of the packet header; `Unknown` doubles as "this
/// source is not synchronized".
#[derive(Clone, Copy, PartialEq, Eq, Structural, Debug)]
pub enum NtpLeapIndicator {
    NoWarning,
    Leap61,
    Leap59,
    Unknown,
}

impl NtpLeapIndicator {
    /// A source reports itself synchronized whenever it reports any definite
    /// leap state.
    pub open spec fn spec_is_synchronized(self) -> bool {
        !(self is Unknown)
    }

    /// Whether this indicator reports a synchronized source.
    pub fn is_synchronized(self) -> (r: bool)
        ensures
            r == self.spec_is_synchronized(),
    {
        !matches!(self, NtpLeapIndicator::Unknown)
    }
}

} // verus!
