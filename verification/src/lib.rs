//! Core of an NTP client: the per-peer clock filter and fitness checks of
//! RFC 5905, together with the byte-level parsing of the kernel's socket
//! control messages that carry packet timestamps.
//!
//! All durations and timestamps are held in NTP short/long fixed-point form:
//! a signed (durations) or unsigned (timestamps) 64-bit count of units of
//! 2^-32 seconds. Keeping the statistics in this integer form lets every
//! formula of the filter be stated and proved exactly.

pub mod cmsg;
pub mod filter;
pub mod time;
pub mod timestamping;

pub use time::{NtpDuration, NtpLeapIndicator, NtpTimestamp};
