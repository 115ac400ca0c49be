//! The clock filter's statistics and acceptance gate on concrete registers.

use ntp_core::filter::{ClockFilterContents, FilterTuple, LocalClock, Peer, System};
use ntp_core::time::{NtpDuration, NtpLeapIndicator, NtpTimestamp};

/// One fixed-point unit per second.
const UNIT: i64 = 0x1_0000_0000;

fn seconds(d: NtpDuration) -> f64 {
    d.raw as f64 / 4294967296.0
}

fn empty_peer() -> Peer {
    Peer {
        clock_filter: ClockFilterContents::new(),
        t: NtpTimestamp::zero(),
        jitter: NtpDuration::zero(),
        offset: NtpDuration::zero(),
        delay: NtpDuration::zero(),
        dispersion: NtpDuration::zero(),
        root_delay: NtpDuration::zero(),
        root_dispersion: NtpDuration::zero(),
        burst_counter: 1,
        leap_indicator: NtpLeapIndicator::NoWarning,
        stratum: 2,
        reach: 1,
        reference_id: 10,
        destination_address: 20,
    }
}

#[test]
fn dispersion_of_dummys() {
    // The observer should note (a) if all stages contain the dummy tuple
    // with dispersion MAXDISP, the computed dispersion is a little less than 16 s

    let register = ClockFilterContents::new();
    let value = seconds(register.dispersion());

    assert!((16.0 - value) < 0.1)
}

#[test]
fn dispersion_of_dummys_exact() {
    // 16 s * (1/2 + 1/4 + ... + 1/256) = 16 s * 255/256 = 15.9375 s
    let register = ClockFilterContents::new();
    assert_eq!(register.dispersion().raw, 255 * (1 << 28));
}

#[test]
fn dummys_are_not_valid() {
    assert!(ClockFilterContents::new().valid_tuples().is_empty())
}

#[test]
fn jitter_of_single() {
    let mut register = ClockFilterContents::new();
    register.register[0].offset = NtpDuration::from_seconds(42);
    let first = register.register[0];
    let system = System::dummy();
    let value = seconds(register.jitter(&system, first));

    assert_eq!(value, 0.0)
}

#[test]
fn jitter_of_pair() {
    let mut register = ClockFilterContents::new();
    register.register[0].offset = NtpDuration::from_seconds(20);
    register.register[1].offset = NtpDuration::from_seconds(30);
    let first = register.register[0];
    let system = System::dummy();
    let value = seconds(register.jitter(&system, first));

    // jitter is calculated relative to the first tuple
    assert!((value - 10.0).abs() < 1e-6)
}

#[test]
fn jitter_of_triple() {
    let mut register = ClockFilterContents::new();
    register.register[0].offset = NtpDuration::from_seconds(20);
    register.register[1].offset = NtpDuration::from_seconds(20);
    register.register[2].offset = NtpDuration::from_seconds(30);
    let first = register.register[0];
    let system = System::dummy();
    let value = seconds(register.jitter(&system, first));

    // jitter is calculated relative to the first tuple
    assert!((value - 5.0).abs() < 1e-6)
}

#[test]
fn jitter_floors_at_precision() {
    let register = ClockFilterContents::new();
    let mut system = System::dummy();
    system.precision = NtpDuration { raw: 1000 };
    let value = register.jitter(&system, FilterTuple::dummy());
    assert_eq!(value.raw, 1000);
}

#[test]
fn shift_and_insert_ages_and_shifts() {
    let mut register = ClockFilterContents::new();
    let sample = FilterTuple {
        offset: NtpDuration::from_seconds(1),
        delay: NtpDuration::from_seconds(2),
        dispersion: NtpDuration::zero(),
        time: NtpTimestamp::from_seconds(100),
    };
    register.shift_and_insert(sample, NtpDuration { raw: 286 });
    assert_eq!(register.register[0], sample);
    for i in 1..8 {
        let aged = register.register[i];
        assert_eq!(aged.offset, NtpDuration::zero());
        assert_eq!(aged.delay, NtpDuration::max_dispersion());
        assert_eq!(aged.dispersion.raw, NtpDuration::max_dispersion().raw + 286);
        assert_eq!(aged.time, NtpTimestamp::zero());
        assert!(!aged.is_dummy());
    }
}

#[test]
fn sort_by_delay_orders_register() {
    let mut register = ClockFilterContents::new();
    for i in 0..8 {
        register.register[i].delay = NtpDuration::from_seconds(8 - i as i64);
        register.register[i].offset = NtpDuration::from_seconds(i as i64);
    }
    register.sort_by_delay();
    for i in 0..7 {
        assert!(register.register[i].delay.raw <= register.register[i + 1].delay.raw);
    }
    assert_eq!(register.register[0].delay, NtpDuration::from_seconds(1));
    assert_eq!(register.register[0].offset, NtpDuration::from_seconds(7));
}

#[test]
fn first_sample_is_accepted() {
    let mut peer = empty_peer();
    let system = System::dummy();
    let clock = LocalClock { t: NtpTimestamp::from_seconds(10) };
    ntp_core::filter::clock_filter(
        &mut peer,
        &system,
        &clock,
        NtpDuration::from_seconds(1),
        NtpDuration::from_seconds(2),
        NtpDuration::zero(),
    );
    assert_eq!(peer.offset, NtpDuration::from_seconds(1));
    assert_eq!(peer.delay, NtpDuration::from_seconds(2));
    assert_eq!(peer.t, NtpTimestamp::from_seconds(10));
    // the aging correction has made the seven dummies count as valid, so
    // the jitter spans all eight offsets: sqrt(7 * 1^2) / 7 seconds
    assert!((seconds(peer.jitter) - 7f64.sqrt() / 7.0).abs() < 1e-6);
    // seven aged dummies still dominate the dispersion
    assert!(seconds(peer.dispersion) > 7.0);
}

#[test]
fn stale_sample_updates_statistics_only() {
    // A best candidate whose epoch is not later than the last accepted one,
    // while the system reports synchronized, must leave offset/delay/t
    // alone and still refresh dispersion and jitter.
    let mut peer = empty_peer();
    peer.t = NtpTimestamp::from_seconds(10);
    peer.offset = NtpDuration::from_seconds(3);
    peer.delay = NtpDuration::from_seconds(4);
    peer.jitter = NtpDuration { raw: 123 };
    peer.dispersion = NtpDuration::zero();
    let system = System::dummy();
    let clock = LocalClock { t: NtpTimestamp::from_seconds(9) };
    ntp_core::filter::clock_filter(
        &mut peer,
        &system,
        &clock,
        NtpDuration::from_seconds(7),
        NtpDuration::from_seconds(1),
        NtpDuration::zero(),
    );
    assert_eq!(peer.offset, NtpDuration::from_seconds(3));
    assert_eq!(peer.delay, NtpDuration::from_seconds(4));
    assert_eq!(peer.t, NtpTimestamp::from_seconds(10));
    // deviations from the 7 s candidate: seven aged dummies at offset zero
    assert!((seconds(peer.jitter) - 343f64.sqrt() / 7.0).abs() < 1e-6);
    assert!(peer.dispersion.raw > 0);
}

#[test]
fn unsynchronized_system_accepts_stale_sample() {
    // Before the very first synchronization anything goes, even a sample
    // that does not advance the epoch.
    let mut peer = empty_peer();
    peer.t = NtpTimestamp::from_seconds(10);
    peer.offset = NtpDuration::from_seconds(7);
    let mut system = System::dummy();
    system.leap_indicator = NtpLeapIndicator::Unknown;
    let clock = LocalClock { t: NtpTimestamp::from_seconds(9) };
    ntp_core::filter::clock_filter(
        &mut peer,
        &system,
        &clock,
        NtpDuration::from_seconds(7),
        NtpDuration::from_seconds(1),
        NtpDuration::zero(),
    );
    assert_eq!(peer.offset, NtpDuration::from_seconds(7));
    assert_eq!(peer.delay, NtpDuration::from_seconds(1));
    assert_eq!(peer.t, NtpTimestamp::from_seconds(9));
}

/// The register before a popcorn-spike insert: three agreeing samples at
/// ten seconds, one older sample at zero (the current estimate), the rest
/// dummy.
fn spike_peer() -> Peer {
    let mut peer = empty_peer();
    let base = FilterTuple {
        offset: NtpDuration::from_seconds(10),
        delay: NtpDuration::from_seconds(2),
        dispersion: NtpDuration::zero(),
        time: NtpTimestamp::from_seconds(5),
    };
    peer.clock_filter.register[0] = base;
    peer.clock_filter.register[1] = FilterTuple {
        delay: NtpDuration::from_seconds(3),
        time: NtpTimestamp::from_seconds(4),
        ..base
    };
    peer.clock_filter.register[2] = FilterTuple {
        delay: NtpDuration::from_seconds(4),
        time: NtpTimestamp::from_seconds(3),
        ..base
    };
    peer.clock_filter.register[3] = FilterTuple {
        offset: NtpDuration::zero(),
        delay: NtpDuration::from_seconds(5),
        dispersion: NtpDuration::zero(),
        time: NtpTimestamp::from_seconds(2),
    };
    peer.t = NtpTimestamp::from_seconds(6);
    peer.offset = NtpDuration::zero();
    peer.delay = NtpDuration::from_seconds(5);
    peer
}

#[test]
fn popcorn_spike_is_suppressed() {
    // Offsets jump by ten seconds while the new jitter is 2.5 s, and the
    // sample arrives one second (less than twice the 4 s poll) after the
    // previous accepted one: the spike is dumped.
    let mut peer = spike_peer();
    let mut system = System::dummy();
    system.poll = NtpDuration::from_seconds(4);
    let clock = LocalClock { t: NtpTimestamp::from_seconds(7) };
    ntp_core::filter::clock_filter(
        &mut peer,
        &system,
        &clock,
        NtpDuration::from_seconds(10),
        NtpDuration::from_seconds(1),
        NtpDuration::zero(),
    );
    assert_eq!(peer.offset, NtpDuration::zero());
    assert_eq!(peer.delay, NtpDuration::from_seconds(5));
    assert_eq!(peer.t, NtpTimestamp::from_seconds(6));
    // deviations from the 10 s candidate: the old zero-offset sample and
    // the three aged dummies are 10 s off each: sqrt(400) / 7 s
    assert!((seconds(peer.jitter) - 20.0 / 7.0).abs() < 1e-6);
}

#[test]
fn late_jump_is_accepted() {
    // The identical jump arriving more than twice the (now 0.25 s) poll
    // interval after the previous accepted sample goes through.
    let mut peer = spike_peer();
    let mut system = System::dummy();
    system.poll = NtpDuration { raw: UNIT / 4 };
    let clock = LocalClock { t: NtpTimestamp::from_seconds(7) };
    ntp_core::filter::clock_filter(
        &mut peer,
        &system,
        &clock,
        NtpDuration::from_seconds(10),
        NtpDuration::from_seconds(1),
        NtpDuration::zero(),
    );
    assert_eq!(peer.offset, NtpDuration::from_seconds(10));
    assert_eq!(peer.delay, NtpDuration::from_seconds(1));
    assert_eq!(peer.t, NtpTimestamp::from_seconds(7));
}

#[test]
fn valid_tuples_of_mixed_register() {
    let mut register = ClockFilterContents::new();
    register.register[0].offset = NtpDuration::from_seconds(1);
    register.register[1].time = NtpTimestamp::from_seconds(1);
    let valid = register.valid_tuples();
    assert_eq!(valid.len(), 2);
    assert_eq!(valid[0], register.register[0]);
    assert_eq!(valid[1], register.register[1]);
}

#[test]
fn timestamp_difference_wraps() {
    let a = NtpTimestamp::from_seconds(5);
    let b = NtpTimestamp::from_seconds(3);
    assert_eq!(a.difference(b).raw, 2 * UNIT);
    assert_eq!(b.difference(a).raw, -2 * UNIT);
    assert_eq!(NtpTimestamp::zero().difference(NtpTimestamp::from_seconds(1)).raw, -UNIT);
}
