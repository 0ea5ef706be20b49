use icmp_probe::correlate::{
    build_echo_request, echo_event_of, EchoCorrelator, EchoEvent, ProbeConfig, ProbeError,
    ProbeOutcome,
};
use icmp_probe::decode::{decode_frame, EchoRole, Observation};
use icmp_probe::types::{EchoIdentity, Ipv4Address, ProtocolLayer};

fn dst() -> Ipv4Address {
    Ipv4Address { o0: 8, o1: 8, o2: 8, o3: 8 }
}

fn id(identifier: u16, sequence: u16) -> EchoIdentity {
    EchoIdentity { identifier, sequence }
}

fn reply_event(identity: EchoIdentity, source: Ipv4Address) -> EchoEvent {
    EchoEvent {
        role: EchoRole::Reply,
        identity,
        source,
        destination: Ipv4Address { o0: 192, o1: 168, o2: 0, o3: 1 },
    }
}

#[test]
fn built_echo_request_has_the_documented_layout() {
    let frame = build_echo_request(id(1, 1));
    // Type eight, code zero, checksum 0xf7fd, identifier 1, sequence 1,
    // eight bytes of zero payload.
    assert_eq!(frame, vec![8, 0, 0xf7, 0xfd, 0, 1, 0, 1, 0, 0, 0, 0, 0, 0, 0, 0]);
}

#[test]
fn built_echo_request_decodes_as_an_echo_request() {
    let frame = build_echo_request(id(0x1234, 0xabcd));
    let obs = decode_frame(&frame, ProtocolLayer::Icmp);
    assert_eq!(
        obs,
        Observation::EchoObserved {
            role: EchoRole::Request,
            identity: id(0x1234, 0xabcd),
            source: Ipv4Address { o0: 0, o1: 0, o2: 0, o3: 0 },
            destination: Ipv4Address { o0: 0, o1: 0, o2: 0, o3: 0 },
        }
    );
}

#[test]
fn built_echo_request_checksum_validates() {
    let frame = build_echo_request(id(0x5678, 0x0002));
    assert!(icmp_probe::checksum::checksum_matches(&frame));
}

#[test]
fn buffer_carrying_its_own_checksum_recomputes_to_zero() {
    // The wire-side identity: the words of a message with its checksum in
    // place fold to all ones, so the complement is zero.
    for identifier in [0u16, 1, 0x1234, 0xffff] {
        let frame = build_echo_request(id(identifier, 42));
        assert_eq!(icmp_probe::checksum::checksum(&frame), 0);
    }
}

#[test]
fn matching_reply_correlates_exactly_once() {
    let mut correlator = EchoCorrelator::new(ProbeConfig::default());
    let frame = correlator.send_probe(dst(), id(7, 3), 1000).unwrap();
    assert_eq!(frame, build_echo_request(id(7, 3)));
    assert!(correlator.is_live(id(7, 3)));

    let outcome = correlator.on_frame_observed(reply_event(id(7, 3), dst()), 1250);
    assert_eq!(
        outcome,
        Some(ProbeOutcome::Replied { round_trip: 250, source: dst() })
    );
    assert!(!correlator.is_live(id(7, 3)));

    // A second identical reply finds nothing and is discarded.
    let again = correlator.on_frame_observed(reply_event(id(7, 3), dst()), 1300);
    assert_eq!(again, None);
}

#[test]
fn reply_with_foreign_identity_is_discarded() {
    let mut correlator = EchoCorrelator::new(ProbeConfig::default());
    correlator.send_probe(dst(), id(7, 3), 0).unwrap();
    let outcome = correlator.on_frame_observed(reply_event(id(7, 4), dst()), 100);
    assert_eq!(outcome, None);
    assert!(correlator.is_live(id(7, 3)));
}

#[test]
fn echo_request_event_is_not_correlated() {
    let mut correlator = EchoCorrelator::new(ProbeConfig::default());
    correlator.send_probe(dst(), id(7, 3), 0).unwrap();
    let mut event = reply_event(id(7, 3), dst());
    event.role = EchoRole::Request;
    assert_eq!(correlator.on_frame_observed(event, 100), None);
    assert!(correlator.is_live(id(7, 3)));
}

#[test]
fn duplicate_identity_is_refused() {
    let mut correlator = EchoCorrelator::new(ProbeConfig::default());
    correlator.send_probe(dst(), id(1, 1), 0).unwrap();
    assert_eq!(
        correlator.send_probe(dst(), id(1, 1), 10),
        Err(ProbeError::DuplicateIdentity)
    );
}

#[test]
fn expired_probe_is_reported_timed_out_exactly_once() {
    let mut correlator = EchoCorrelator::new(ProbeConfig::default());
    correlator.send_probe(dst(), id(9, 1), 1000).unwrap();

    // Within the window nothing happens.
    let report = correlator.tick(1900);
    assert!(report.timed_out.is_empty());
    assert!(report.retried.is_empty());
    assert!(correlator.is_live(id(9, 1)));

    // Past the window the probe is removed and reported once.
    let report = correlator.tick(2001);
    assert_eq!(report.timed_out, vec![id(9, 1)]);
    assert!(report.retried.is_empty());
    assert!(!correlator.is_live(id(9, 1)));

    // A later sweep reports nothing further.
    let report = correlator.tick(3000);
    assert!(report.timed_out.is_empty());
}

#[test]
fn expired_probe_with_attempts_left_is_retried_in_place() {
    let config = ProbeConfig { timeout_ms: 1000, max_attempts: 2 };
    let mut correlator = EchoCorrelator::new(config);
    correlator.send_probe(dst(), id(2, 1), 0).unwrap();

    let report = correlator.tick(1500);
    assert_eq!(report.retried, vec![id(2, 1)]);
    assert!(report.timed_out.is_empty());
    assert!(correlator.is_live(id(2, 1)));

    // The retry reset the clock: the next window runs from the resend.
    let report = correlator.tick(2400);
    assert!(report.retried.is_empty());
    assert!(report.timed_out.is_empty());

    // The second attempt was the last: the next expiry times the probe out.
    let report = correlator.tick(2600);
    assert_eq!(report.timed_out, vec![id(2, 1)]);
    assert!(!correlator.is_live(id(2, 1)));
}

#[test]
fn tick_reports_in_table_order() {
    let mut correlator = EchoCorrelator::new(ProbeConfig::default());
    correlator.send_probe(dst(), id(1, 1), 0).unwrap();
    correlator.send_probe(dst(), id(1, 2), 0).unwrap();
    correlator.send_probe(dst(), id(1, 3), 5000).unwrap();
    let report = correlator.tick(2000);
    assert_eq!(report.timed_out, vec![id(1, 1), id(1, 2)]);
    assert!(correlator.is_live(id(1, 3)));
    assert!(!correlator.is_live(id(1, 1)));
}

#[test]
fn cancel_probe_forgets_a_failed_send() {
    let mut correlator = EchoCorrelator::new(ProbeConfig::default());
    correlator.send_probe(dst(), id(4, 4), 0).unwrap();
    correlator.cancel_probe(id(4, 4));
    assert!(!correlator.is_live(id(4, 4)));
    // Cancelling an unknown identity changes nothing.
    correlator.cancel_probe(id(4, 5));
    assert_eq!(correlator.pending.len(), 0);
}

#[test]
fn reply_after_timeout_is_discarded_not_resurrected() {
    let mut correlator = EchoCorrelator::new(ProbeConfig::default());
    correlator.send_probe(dst(), id(5, 5), 0).unwrap();
    let report = correlator.tick(2000);
    assert_eq!(report.timed_out, vec![id(5, 5)]);
    let outcome = correlator.on_frame_observed(reply_event(id(5, 5), dst()), 2100);
    assert_eq!(outcome, None);
    assert!(!correlator.is_live(id(5, 5)));
}

#[test]
fn round_trip_is_zero_when_the_clock_went_backwards() {
    let mut correlator = EchoCorrelator::new(ProbeConfig::default());
    correlator.send_probe(dst(), id(6, 6), 500).unwrap();
    let outcome = correlator.on_frame_observed(reply_event(id(6, 6), dst()), 400);
    assert_eq!(
        outcome,
        Some(ProbeOutcome::Replied { round_trip: 0, source: dst() })
    );
}

#[test]
fn echo_event_of_picks_echo_observations_only() {
    let source = Ipv4Address { o0: 10, o1: 0, o2: 0, o3: 1 };
    let destination = Ipv4Address { o0: 10, o1: 0, o2: 0, o3: 2 };
    let obs = Observation::EchoObserved {
        role: EchoRole::Reply,
        identity: id(3, 9),
        source,
        destination,
    };
    assert_eq!(
        echo_event_of(&obs),
        Some(EchoEvent { role: EchoRole::Reply, identity: id(3, 9), source, destination })
    );
    let other = Observation::IcmpObserved { icmp_type: 3, icmp_code: 0 };
    assert_eq!(echo_event_of(&other), None);
}

#[test]
fn default_config_is_one_attempt_in_one_second() {
    let config = ProbeConfig::default();
    assert_eq!(config.timeout_ms, 1000);
    assert_eq!(config.max_attempts, 1);
}
