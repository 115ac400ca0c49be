//! The fitness checks and the root-distance bound on concrete peers.

use ntp_core::filter::{check_fitness, root_distance, ClockFilterContents, FitError, LocalClock,
    Peer, System};
use ntp_core::time::{NtpDuration, NtpLeapIndicator, NtpTimestamp};

/// One fixed-point unit per second.
const UNIT: i64 = 0x1_0000_0000;

/// A peer that passes every fitness check.
fn fit_peer() -> Peer {
    Peer {
        clock_filter: ClockFilterContents::new(),
        t: NtpTimestamp::zero(),
        jitter: NtpDuration::zero(),
        offset: NtpDuration::zero(),
        delay: NtpDuration::zero(),
        dispersion: NtpDuration::zero(),
        root_delay: NtpDuration::zero(),
        root_dispersion: NtpDuration::zero(),
        burst_counter: 0,
        leap_indicator: NtpLeapIndicator::NoWarning,
        stratum: 2,
        reach: 1,
        reference_id: 10,
        destination_address: 20,
    }
}

fn clock() -> LocalClock {
    LocalClock { t: NtpTimestamp::zero() }
}

#[test]
fn fit_peer_passes() {
    assert_eq!(check_fitness(&fit_peer(), &System::dummy(), &clock()), Ok(()));
}

#[test]
fn unsynchronized_peer_is_unfit() {
    let mut peer = fit_peer();
    peer.leap_indicator = NtpLeapIndicator::Unknown;
    assert_eq!(
        check_fitness(&peer, &System::dummy(), &clock()),
        Err(FitError::StratumNotSynchronized)
    );
}

#[test]
fn invalid_stratum_is_unfit() {
    // Stratum 16 and above loses, whatever the other fields say.
    for stratum in [16u8, 17, 100, 255] {
        let mut peer = fit_peer();
        peer.stratum = stratum;
        // even with an otherwise terrible peer the stratum verdict comes first
        peer.root_dispersion = NtpDuration::from_seconds(100);
        peer.reach = 0;
        assert_eq!(
            check_fitness(&peer, &System::dummy(), &clock()),
            Err(FitError::ServerStratumInvalid)
        );
    }
}

#[test]
fn distant_peer_is_unfit() {
    let mut peer = fit_peer();
    // root distance 0.005/2 + 10 s, far beyond MAXDIST = 1 s
    peer.root_dispersion = NtpDuration::from_seconds(10);
    assert_eq!(check_fitness(&peer, &System::dummy(), &clock()), Err(FitError::Distance));
}

#[test]
fn synchronization_loop_is_unfit() {
    let mut peer = fit_peer();
    peer.reference_id = peer.destination_address;
    assert_eq!(check_fitness(&peer, &System::dummy(), &clock()), Err(FitError::Loop));

    let mut peer = fit_peer();
    let mut system = System::dummy();
    system.reference_id = peer.reference_id;
    assert_eq!(check_fitness(&peer, &system, &clock()), Err(FitError::Loop));
    peer.reference_id = 11;
    assert_eq!(check_fitness(&peer, &system, &clock()), Ok(()));
}

#[test]
fn unreached_peer_is_unfit() {
    // Every other check passes; the empty reachability register decides.
    let mut peer = fit_peer();
    peer.reach = 0;
    assert_eq!(check_fitness(&peer, &System::dummy(), &clock()), Err(FitError::Unreachable));
}

#[test]
fn root_distance_combines_error_terms() {
    let mut peer = fit_peer();
    peer.root_delay = NtpDuration::from_seconds(1);
    peer.delay = NtpDuration::from_seconds(1);
    peer.root_dispersion = NtpDuration { raw: UNIT / 2 };
    peer.dispersion = NtpDuration { raw: UNIT / 4 };
    peer.jitter = NtpDuration { raw: UNIT / 8 };
    // (1 + 1)/2 + 0.5 + 0.25 + 0 + 0.125 = 1.875 s
    assert_eq!(root_distance(&peer, &clock()).raw, UNIT + UNIT / 2 + UNIT / 4 + UNIT / 8);
}

#[test]
fn root_distance_floors_tiny_delay_at_mindisp() {
    let peer = fit_peer();
    // all terms zero: only MINDISP/2 = 0.0025 s remains
    assert_eq!(root_distance(&peer, &clock()).raw, 0x147_AE14 / 2);
}

#[test]
fn poll_interval_widens_distance_threshold() {
    let mut peer = fit_peer();
    // just above the bare MAXDIST threshold of 1 s + MINDISP/2 correction
    peer.root_dispersion = NtpDuration { raw: UNIT };
    assert_eq!(check_fitness(&peer, &System::dummy(), &clock()), Err(FitError::Distance));
    // a huge poll interval widens the allowance by poll / 15e6
    let mut system = System::dummy();
    system.poll = NtpDuration { raw: i64::MAX };
    assert_eq!(check_fitness(&peer, &system, &clock()), Ok(()));
}
