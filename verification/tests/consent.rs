//! The consent freshness process.
use rice_stream::candidate::{Candidate, CandidateType};
use rice_stream::conncheck::{generate_binding_request, Credentials};
use rice_stream::consent::{
    Config, ConsentFreshness, ConsentFreshnessPoll, DEFAULT_CONSENT_FRESHNESS_INTERVAL,
    DEFAULT_CONSENT_FRESHNESS_TIMEOUT, IDLE_WAIT, MINIMUM_CONSENT_INTERVAL,
};
use rice_stream::net::{SocketAddr, TransportType};
use rice_stream::time::{Duration, Instant};
use stun_proto::types::attribute::{AttributeType, Username};
use stun_proto::types::message::{
    IntegrityAlgorithm, Message, MessageClass, MessageIntegrityCredentials, MessageWrite,
    ShortTermCredentials, BINDING,
};

fn local_creds() -> Credentials {
    Credentials::new("lufrag".into(), "lpwd".into())
}

fn remote_creds() -> Credentials {
    Credentials::new("rufrag".into(), "rpwd".into())
}

/// A span of `numerator / 10` times another.
fn tenths(span: Duration, numerator: u128) -> Duration {
    Duration::from_nanos(span.as_nanos() * numerator / 10)
}

fn host_candidate() -> Candidate {
    Candidate::builder(
        1,
        CandidateType::Host,
        TransportType::Udp,
        "foundation",
        SocketAddr::v4(10, 0, 0, 1, 1000),
    )
    .priority(1234)
    .build()
}

fn start(cf: &mut ConsentFreshness, stream_id: usize, component_id: usize, port: u16, now: Instant) {
    cf.start(
        stream_id,
        component_id,
        host_candidate(),
        SocketAddr::v4(10, 0, 0, 2, port),
        local_creds(),
        remote_creds(),
        true,
        42,
        now,
    );
}

fn secs(n: i64) -> Instant {
    Instant::from_nanos(n * 1_000_000_000)
}

#[test]
fn consent_freshness_sends_initial_check() {
    let mut cf = ConsentFreshness::new(Config::default());
    let now = Instant::zero();
    start(&mut cf, 0, 1, 2000, now);

    // The first check is due an interval after the start, so there is nothing
    // to do right after it.
    match cf.poll(now) {
        ConsentFreshnessPoll::WaitUntil(_) => {}
        other => panic!("expected WaitUntil, got {other:?}"),
    }
}

#[test]
fn consent_freshness_no_response_causes_expiry() {
    let mut cf = ConsentFreshness::new(Config::default());
    let interval = Config::default().interval;
    let timeout = Config::default().timeout;
    let now = Instant::zero();
    start(&mut cf, 0, 1, 2000, now);

    // Send the first check.
    let t1 = now + tenths(interval, 15);
    match cf.poll(t1) {
        ConsentFreshnessPoll::SendCheck { .. } => {}
        other => panic!("expected SendCheck, got {other:?}"),
    }
    let _ = cf.build_consent_check(0, 1, t1);

    // No response. After timeout from start, consent should expire.
    let t_expire = now + timeout;
    match cf.poll(t_expire) {
        ConsentFreshnessPoll::ConsentExpired {
            stream_id,
            component_id,
        } => {
            assert_eq!(stream_id, 0);
            assert_eq!(component_id, 1);
        }
        other => panic!("expected ConsentExpired, got {other:?}"),
    }
}

#[test]
fn consent_freshness_response_refreshes_timer() {
    let mut cf = ConsentFreshness::new(Config::default());
    let interval = Config::default().interval;
    let timeout = Config::default().timeout;
    let now = Instant::zero();
    start(&mut cf, 0, 1, 2000, now);

    let t1 = now + tenths(interval, 15);
    match cf.poll(t1) {
        ConsentFreshnessPoll::SendCheck { .. } => {}
        other => panic!("expected SendCheck at t1, got {other:?}"),
    }
    cf.build_consent_check(0, 1, t1);

    // A response refreshes consent.
    let t_refresh = t1 + Duration::from_secs(1);
    cf.on_response(1, t_refresh);

    // Consent should NOT expire at now + timeout (it was refreshed).
    let t_check = now + timeout + Duration::from_secs(1);
    match cf.poll(t_check) {
        ConsentFreshnessPoll::SendCheck { .. } | ConsentFreshnessPoll::WaitUntil(_) => {}
        other => panic!("expected SendCheck or WaitUntil after refresh, got {other:?}"),
    }

    // Further past the refreshed timeout should expire.
    let t_expire = t_refresh + timeout + Duration::from_secs(1);
    match cf.poll(t_expire) {
        ConsentFreshnessPoll::ConsentExpired { .. } => {}
        other => panic!("expected ConsentExpired, got {other:?}"),
    }
}

#[test]
fn consent_refreshed_on_subsequent_cycle() {
    let mut cf = ConsentFreshness::new(Config::default());
    let interval = Config::default().interval;
    let now = Instant::zero();
    start(&mut cf, 0, 1, 2000, now);

    // Send first check at t1.
    let t1 = now + tenths(interval, 15);
    match cf.poll(t1) {
        ConsentFreshnessPoll::SendCheck {
            stream_id,
            component_id,
        } => {
            assert_eq!(stream_id, 0);
            assert_eq!(component_id, 1);
        }
        other => panic!("expected SendCheck, got {other:?}"),
    }

    let check = cf
        .build_consent_check(0, 1, t1)
        .expect("should produce a consent check");
    let msg = Message::from_bytes(&check.msg[..]).unwrap();

    assert!(msg.has_class(MessageClass::Request));
    assert!(msg.has_method(BINDING));
    assert_eq!(check.to, SocketAddr::v4(10, 0, 0, 2, 2000));

    // No response: second SendCheck at t2.
    let t2 = now + tenths(interval, 40);
    match cf.poll(t2) {
        ConsentFreshnessPoll::SendCheck {
            stream_id,
            component_id,
        } => {
            assert_eq!(stream_id, 0);
            assert_eq!(component_id, 1);
        }
        other => panic!("expected SendCheck at t2, got {other:?}"),
    }

    // Build the second request.
    let check2 = cf.build_consent_check(0, 1, t2).unwrap();
    let _tid2 = Message::from_bytes(&check2.msg[..])
        .unwrap()
        .transaction_id();

    // A response for the second request refreshes consent.
    cf.on_response(1, t2);

    // A third SendCheck should fire after the interval expires.
    let t3 = t2 + tenths(interval, 25);
    match cf.poll(t3) {
        ConsentFreshnessPoll::SendCheck {
            stream_id,
            component_id,
        } => {
            assert_eq!(stream_id, 0);
            assert_eq!(component_id, 1);
        }
        other => panic!("expected SendCheck at t3, got {other:?}"),
    }
}

#[test]
fn consent_revoked_on_403() {
    let mut cf = ConsentFreshness::new(Config::default());
    let now = Instant::zero();
    start(&mut cf, 0, 1, 2000, now);

    cf.on_revoked(0, 1);

    match cf.poll(now) {
        ConsentFreshnessPoll::ConsentRevoked {
            stream_id,
            component_id,
        } => {
            assert_eq!(stream_id, 0);
            assert_eq!(component_id, 1);
        }
        other => panic!("expected ConsentRevoked after 403, got {other:?}"),
    }

    // After revocation, subsequent polls must NOT produce a SendCheck.
    match cf.poll(now + Duration::from_secs(100)) {
        ConsentFreshnessPoll::WaitUntil(_) => {}
        other => panic!("expected WaitUntil after revocation, got {other:?}"),
    }
}

#[test]
fn consent_freshness_ice_lite_never_starts() {
    let mut cf = ConsentFreshness::new(Config::default());
    let now = Instant::zero();

    // No entries: WaitUntil.
    match cf.poll(now) {
        ConsentFreshnessPoll::WaitUntil(_) => {}
        other => panic!("expected WaitUntil with empty entries, got {other:?}"),
    }
}

#[test]
fn consent_freshness_stop_removes_entry() {
    let mut cf = ConsentFreshness::new(Config::default());
    let now = Instant::zero();
    start(&mut cf, 0, 1, 2000, now);

    cf.stop(0, 1);

    // No entries should remain.
    match cf.poll(now) {
        ConsentFreshnessPoll::WaitUntil(_) => {}
        other => panic!("expected WaitUntil after stop, got {other:?}"),
    }
}

#[test]
fn consent_freshness_close_clears_all() {
    let mut cf = ConsentFreshness::new(Config::default());
    let now = Instant::zero();
    start(&mut cf, 0, 1, 2000, now);
    start(&mut cf, 0, 2, 2001, now);

    cf.close();
    match cf.poll(now) {
        ConsentFreshnessPoll::WaitUntil(_) => {}
        other => panic!("expected WaitUntil after close, got {other:?}"),
    }
}

#[test]
fn consent_freshness_multiple_components() {
    let mut cf = ConsentFreshness::new(Config::default());
    let interval = Config::default().interval;
    let now = Instant::zero();

    // Two components in the same stream.
    start(&mut cf, 0, 1, 2000, now);
    start(&mut cf, 0, 2, 2001, now);

    // Both should produce SendCheck after worst-case jitter.
    let t1 = now + tenths(interval, 15);
    let mut send_checks: Vec<(usize, usize)> = Vec::new();
    loop {
        match cf.poll(t1) {
            ConsentFreshnessPoll::SendCheck {
                stream_id,
                component_id,
            } => {
                let _ = cf.build_consent_check(stream_id, component_id, t1);
                send_checks.push((stream_id, component_id));
            }
            ConsentFreshnessPoll::WaitUntil(_) => break,
            other => panic!("unexpected {other:?}"),
        }
    }

    assert_eq!(send_checks.len(), 2);
    assert!(send_checks.contains(&(0, 1)));
    assert!(send_checks.contains(&(0, 2)));
}

#[test]
fn default_config_is_five_and_thirty_seconds() {
    let config = Config::default();
    assert_eq!(config.interval, Duration::from_secs(5));
    assert_eq!(config.timeout, Duration::from_secs(30));
    assert_eq!(DEFAULT_CONSENT_FRESHNESS_INTERVAL, 5);
    assert_eq!(DEFAULT_CONSENT_FRESHNESS_TIMEOUT, 30);
    assert_eq!(MINIMUM_CONSENT_INTERVAL, 4);
}

#[test]
fn config_can_be_replaced() {
    let mut cf = ConsentFreshness::new(Config::default());
    let config = Config {
        interval: Duration::from_secs(10),
        timeout: Duration::from_secs(60),
    };
    cf.set_config(config);
    assert_eq!(*cf.config(), config);
    assert_eq!(cf.interval_for(0x8000_0000), Duration::from_secs(10));
}

#[test]
fn interval_is_scaled_by_the_draw() {
    let cf = ConsentFreshness::new(Config::default());
    assert_eq!(cf.interval_for(0).as_nanos(), 4_000_000_000);
    assert_eq!(cf.interval_for(0x4000_0000).as_nanos(), 4_500_000_000);
    assert_eq!(cf.interval_for(0x8000_0000).as_nanos(), 5_000_000_000);
    assert_eq!(cf.interval_for(u32::MAX).as_nanos(), 5_999_999_999);
}

#[test]
fn interval_is_never_below_the_minimum() {
    let cf = ConsentFreshness::new(Config {
        interval: Duration::from_secs(1),
        timeout: Duration::from_secs(30),
    });
    assert_eq!(cf.interval_for(0), Duration::from_secs(4));
    assert_eq!(cf.interval_for(u32::MAX), Duration::from_secs(4));
}

#[test]
fn random_interval_lies_between_the_bounds() {
    for _ in 0..32 {
        let mut cf = ConsentFreshness::new(Config::default());
        start(&mut cf, 0, 1, 2000, secs(0));
        let ConsentFreshnessPoll::WaitUntil(wait) = cf.poll(secs(0)) else {
            panic!("nothing is due");
        };
        assert!(wait >= secs(4));
        assert!(wait < secs(6));
    }
}

#[test]
fn random_interval_varies() {
    let mut waits: Vec<Instant> = Vec::new();
    for _ in 0..16 {
        let mut cf = ConsentFreshness::new(Config::default());
        start(&mut cf, 0, 1, 2000, secs(0));
        let ConsentFreshnessPoll::WaitUntil(wait) = cf.poll(secs(0)) else {
            panic!("nothing is due");
        };
        waits.push(wait);
    }
    assert!(waits.iter().any(|wait| *wait != waits[0]));
}

#[test]
fn wait_is_the_earliest_due_time() {
    let mut cf = ConsentFreshness::new(Config::default());
    cf.start_with_interval(
        0,
        1,
        host_candidate(),
        SocketAddr::v4(10, 0, 0, 2, 2000),
        local_creds(),
        remote_creds(),
        true,
        42,
        secs(0),
        Duration::from_secs(9),
    );
    cf.start_with_interval(
        1,
        1,
        host_candidate(),
        SocketAddr::v4(10, 0, 0, 2, 2001),
        local_creds(),
        remote_creds(),
        true,
        42,
        secs(1),
        Duration::from_secs(6),
    );
    assert_eq!(cf.poll(secs(2)), ConsentFreshnessPoll::WaitUntil(secs(7)));
    assert_eq!(
        cf.poll(secs(7)),
        ConsentFreshnessPoll::SendCheck {
            stream_id: 1,
            component_id: 1,
        }
    );
    assert!(cf
        .build_consent_check_with_interval(1, 1, secs(7), Duration::from_secs(50))
        .is_some());
    assert_eq!(cf.poll(secs(7)), ConsentFreshnessPoll::WaitUntil(secs(9)));
    assert_eq!(
        cf.poll(secs(9)),
        ConsentFreshnessPoll::SendCheck {
            stream_id: 0,
            component_id: 1,
        }
    );
    assert!(cf
        .build_consent_check_with_interval(0, 1, secs(9), Duration::from_secs(50))
        .is_some());
    // Now the end of consent comes before any check.
    assert_eq!(cf.poll(secs(9)), ConsentFreshnessPoll::WaitUntil(secs(30)));
    assert_eq!(
        cf.poll(secs(30)),
        ConsentFreshnessPoll::ConsentExpired {
            stream_id: 0,
            component_id: 1,
        }
    );
}

#[test]
fn idle_process_waits_an_hour() {
    let mut cf = ConsentFreshness::new(Config::default());
    assert_eq!(IDLE_WAIT, 3600);
    assert_eq!(cf.poll(secs(5)), ConsentFreshnessPoll::WaitUntil(secs(3605)));
}

#[test]
fn expiry_is_reported_until_tracking_stops() {
    let mut cf = ConsentFreshness::new(Config::default());
    start(&mut cf, 3, 2, 2000, secs(0));
    let expired = ConsentFreshnessPoll::ConsentExpired {
        stream_id: 3,
        component_id: 2,
    };
    assert_eq!(cf.poll(secs(30)), expired);
    assert_eq!(cf.poll(secs(31)), expired);
    cf.stop(3, 2);
    assert_eq!(cf.len(), 0);
    assert_eq!(cf.poll(secs(31)), ConsentFreshnessPoll::WaitUntil(secs(3631)));
}

#[test]
fn component_is_tracked_once() {
    let mut cf = ConsentFreshness::new(Config::default());
    start(&mut cf, 0, 1, 2000, secs(0));
    start(&mut cf, 0, 1, 2001, secs(1));
    assert_eq!(cf.len(), 1);
    let check = cf.build_consent_check(0, 1, secs(2)).unwrap();
    assert_eq!(check.to, SocketAddr::v4(10, 0, 0, 2, 2001));
    // The same component id in another stream is another component.
    start(&mut cf, 1, 1, 2002, secs(1));
    assert_eq!(cf.len(), 2);
    cf.stop(0, 1);
    assert_eq!(cf.len(), 1);
    assert!(cf.build_consent_check(0, 1, secs(2)).is_none());
    assert!(cf.build_consent_check(1, 1, secs(2)).is_some());
}

#[test]
fn stopping_an_untracked_component_changes_nothing() {
    let mut cf = ConsentFreshness::new(Config::default());
    start(&mut cf, 0, 1, 2000, secs(0));
    cf.stop(0, 2);
    cf.stop(1, 1);
    assert_eq!(cf.len(), 1);
}

#[test]
fn revocation_is_told_apart_by_stream() {
    let mut cf = ConsentFreshness::new(Config::default());
    start(&mut cf, 0, 1, 2000, secs(0));
    start(&mut cf, 1, 1, 2001, secs(0));
    cf.on_revoked(1, 1);
    cf.on_revoked(5, 1);
    assert_eq!(
        cf.poll(secs(0)),
        ConsentFreshnessPoll::ConsentRevoked {
            stream_id: 1,
            component_id: 1,
        }
    );
    assert_eq!(cf.len(), 1);
    assert!(cf.build_consent_check(0, 1, secs(1)).is_some());
    assert!(cf.build_consent_check(1, 1, secs(1)).is_none());
}

#[test]
fn revocation_outlasts_checks_and_responses() {
    let mut cf = ConsentFreshness::new(Config::default());
    start(&mut cf, 0, 1, 2000, secs(0));
    start(&mut cf, 0, 2, 2001, secs(0));
    cf.on_revoked(0, 2);
    assert!(cf.build_consent_check(0, 2, secs(5)).is_some());
    cf.on_response(2, secs(6));
    assert!(cf.build_consent_check(0, 1, secs(7)).is_some());
    cf.on_response(1, secs(8));
    assert_eq!(
        cf.poll(secs(100)),
        ConsentFreshnessPoll::ConsentRevoked {
            stream_id: 0,
            component_id: 2,
        }
    );
    assert!(cf.build_consent_check(0, 2, secs(100)).is_none());
    assert_eq!(cf.len(), 1);
}

#[test]
fn starting_again_forgets_a_revocation() {
    let mut cf = ConsentFreshness::new(Config::default());
    start(&mut cf, 0, 1, 2000, secs(0));
    start(&mut cf, 0, 2, 2001, secs(0));
    cf.on_revoked(0, 1);
    start(&mut cf, 0, 1, 2002, secs(20));
    assert_eq!(cf.len(), 2);
    // The other component expires first, and the restarted one is not revoked.
    assert_eq!(
        cf.poll(secs(30)),
        ConsentFreshnessPoll::ConsentExpired {
            stream_id: 0,
            component_id: 2,
        }
    );
    cf.stop(0, 2);
    assert_eq!(
        cf.poll(secs(49)),
        ConsentFreshnessPoll::SendCheck {
            stream_id: 0,
            component_id: 1,
        }
    );
    assert_eq!(
        cf.poll(secs(50)),
        ConsentFreshnessPoll::ConsentExpired {
            stream_id: 0,
            component_id: 1,
        }
    );
}

#[test]
fn components_stay_distinct_over_many_calls() {
    let mut cf = ConsentFreshness::new(Config::default());
    for round in 0..3 {
        start(&mut cf, 0, 1, 2000, secs(round));
        start(&mut cf, 1, 1, 2001, secs(round));
        cf.set_config(Config::default());
        cf.on_response(1, secs(round));
        start(&mut cf, 0, 1, 2002, secs(round));
        assert_eq!(cf.len(), 2);
        if round == 1 {
            cf.close();
            assert_eq!(cf.len(), 0);
        }
    }
}

#[test]
fn last_entry_takes_the_place_of_a_revoked_one() {
    let mut cf = ConsentFreshness::new(Config::default());
    start(&mut cf, 0, 1, 2000, secs(0));
    start(&mut cf, 0, 2, 2001, secs(0));
    start(&mut cf, 0, 3, 2002, secs(0));
    cf.on_revoked(0, 1);
    assert_eq!(
        cf.poll(secs(0)),
        ConsentFreshnessPoll::ConsentRevoked {
            stream_id: 0,
            component_id: 1,
        }
    );
    assert_eq!(
        cf.poll(secs(30)),
        ConsentFreshnessPoll::ConsentExpired {
            stream_id: 0,
            component_id: 3,
        }
    );
}

#[test]
fn response_refreshes_the_first_entry_of_the_component_id() {
    let mut cf = ConsentFreshness::new(Config::default());
    start(&mut cf, 7, 1, 2000, secs(0));
    start(&mut cf, 8, 1, 2001, secs(0));
    cf.on_response_with_interval(1, secs(10), Duration::from_secs(25));
    cf.on_response_with_interval(9, secs(20), Duration::from_secs(25));
    assert_eq!(
        cf.poll(secs(30)),
        ConsentFreshnessPoll::ConsentExpired {
            stream_id: 8,
            component_id: 1,
        }
    );
    cf.stop(8, 1);
    assert_eq!(cf.poll(secs(30)), ConsentFreshnessPoll::WaitUntil(secs(35)));
}

#[test]
fn check_carries_what_the_entry_says() {
    let mut cf = ConsentFreshness::new(Config::default());
    start(&mut cf, 0, 1, 2000, secs(0));
    let check = cf.build_consent_check(0, 1, secs(5)).unwrap();
    assert_eq!(check.local, host_candidate());

    let msg = Message::from_bytes(&check.msg).unwrap();
    let priority = msg.raw_attribute(AttributeType::new(0x0024)).unwrap();
    assert_eq!(&priority.value[..], &1234u32.to_be_bytes()[..]);
    let controlling = msg.raw_attribute(AttributeType::new(0x802a)).unwrap();
    assert_eq!(&controlling.value[..], &42u64.to_be_bytes()[..]);
    assert!(!msg.has_attribute(AttributeType::new(0x8029)));
    assert!(!msg.has_attribute(AttributeType::new(0x0025)));
    let username = msg.attribute::<Username>().unwrap();
    assert_eq!(username.username(), "rufrag:lufrag");
    assert!(msg.has_attribute(AttributeType::new(0x8028)));

    let right = MessageIntegrityCredentials::ShortTerm(ShortTermCredentials::new("rpwd".into()));
    let wrong = MessageIntegrityCredentials::ShortTerm(ShortTermCredentials::new("lpwd".into()));
    assert_eq!(
        msg.validate_integrity(&right).unwrap(),
        IntegrityAlgorithm::Sha1
    );
    assert!(msg.validate_integrity(&wrong).is_err());
}

#[test]
fn check_has_the_expected_length() {
    let mut cf = ConsentFreshness::new(Config::default());
    start(&mut cf, 0, 1, 2000, secs(0));
    let check = cf.build_consent_check(0, 1, secs(5)).unwrap();
    // Header, priority, role, user name with padding, integrity, fingerprint.
    assert_eq!(check.msg.len(), 20 + 8 + 12 + 20 + 24 + 8);
    assert_eq!(&check.msg[..2], &[0, 1][..]);
    assert_eq!(&check.msg[2..4], &72u16.to_be_bytes()[..]);
    assert_eq!(&check.msg[4..8], &[0x21, 0x12, 0xa4, 0x42][..]);
}

#[test]
fn two_checks_have_different_transactions() {
    let mut cf = ConsentFreshness::new(Config::default());
    start(&mut cf, 0, 1, 2000, secs(0));
    let first = cf.build_consent_check(0, 1, secs(5)).unwrap();
    let second = cf.build_consent_check(0, 1, secs(6)).unwrap();
    assert_ne!(first.msg[8..20], second.msg[8..20]);
}

#[test]
fn long_user_name_gives_no_check() {
    let mut cf = ConsentFreshness::new(Config::default());
    let long = Credentials::new("x".repeat(507), "pwd".into());
    cf.start_with_interval(
        0,
        1,
        host_candidate(),
        SocketAddr::v4(10, 0, 0, 2, 2000),
        long,
        remote_creds(),
        true,
        42,
        secs(0),
        Duration::from_secs(5),
    );
    // "rufrag:" and 507 characters make 514.
    assert!(cf.build_consent_check(0, 1, secs(5)).is_none());
    // The entry stays as it was, so that the check is still due.
    assert_eq!(
        cf.poll(secs(5)),
        ConsentFreshnessPoll::SendCheck {
            stream_id: 0,
            component_id: 1,
        }
    );
    let fits = Credentials::new("x".repeat(506), "pwd".into());
    assert!(generate_binding_request(1, false, true, 2, fits, remote_creds()).is_ok());
    let long = Credentials::new("x".repeat(507), "pwd".into());
    assert!(generate_binding_request(1, false, true, 2, long, remote_creds()).is_err());
}

#[test]
fn controlled_nominating_check() {
    let msg = generate_binding_request(
        0x01020304,
        true,
        false,
        0x1122334455667788,
        local_creds(),
        remote_creds(),
    )
    .unwrap();
    let bytes = msg.finish();
    let msg = Message::from_bytes(&bytes).unwrap();
    let priority = msg.raw_attribute(AttributeType::new(0x0024)).unwrap();
    assert_eq!(&priority.value[..], &[1, 2, 3, 4][..]);
    let controlled = msg.raw_attribute(AttributeType::new(0x8029)).unwrap();
    assert_eq!(
        &controlled.value[..],
        &[0x11, 0x22, 0x33, 0x44, 0x55, 0x66, 0x77, 0x88][..]
    );
    assert!(!msg.has_attribute(AttributeType::new(0x802a)));
    let nomination = msg.raw_attribute(AttributeType::new(0x0025)).unwrap();
    assert_eq!(nomination.value.len(), 0);
}

#[test]
fn instants_do_not_overflow() {
    let last = Instant::from_nanos(i64::MAX);
    assert!(last.checked_add(Duration::from_nanos(1)).is_none());
    assert_eq!(
        Instant::from_nanos(0).checked_add(Duration::from_nanos(i64::MAX as u128)),
        Some(last)
    );
    // A span that is no instant itself is refused, wherever it starts.
    assert_eq!(
        Instant::from_nanos(i64::MIN).checked_add(Duration::from_nanos(i64::MAX as u128 + 1)),
        None
    );
    assert_eq!(
        Instant::from_nanos(i64::MIN).checked_add(Duration::from_nanos(i64::MAX as u128)),
        Some(Instant::from_nanos(-1))
    );
    assert_eq!(
        Instant::zero().checked_add(Duration::from_millis(1)).unwrap().as_nanos(),
        1_000_000
    );
    assert_eq!(
        Instant::zero().checked_add(Duration::from_nanos(u128::MAX)),
        None
    );
}
