use mesh_core::identity::{
    new, Action, Config, Csr, Daemon, DaemonState, Event, Key, Name, TokenSource, TrustAnchors,
};
use mesh_core::identity::{Crt, CrtKey};

const SEC: u64 = 1_000_000_000;

fn config(min_refresh: u64, max_refresh: u64) -> Config {
    Config {
        svc_addr: "10.7.0.5:8086".to_string(),
        trust_anchors: TrustAnchors {
            roots_pem: b"-----BEGIN CERTIFICATE-----".to_vec(),
        },
        key: Key {
            material: vec![1, 2, 3],
        },
        csr: Csr { der: vec![9, 8, 7] },
        local_name: Name::parse("foo.ns1.serviceaccount.identity".to_string()).unwrap(),
        token: TokenSource {
            path: "/var/run/token".to_string(),
        },
        min_refresh,
        max_refresh,
    }
}

fn crt_key(expiry: u64) -> CrtKey {
    CrtKey {
        key: Key {
            material: vec![1, 2, 3],
        },
        crt: Crt {
            name: Name::parse("foo.ns1.serviceaccount.identity".to_string()).unwrap(),
            leaf: vec![0xde, 0xad],
            intermediates: vec![vec![0xbe, 0xef]],
            expiry,
        },
    }
}

fn start(min_refresh: u64, max_refresh: u64) -> Daemon {
    let (local, daemon) = new(config(min_refresh, max_refresh));
    assert_eq!(local.name().as_str(), "foo.ns1.serviceaccount.identity");
    assert_eq!(daemon.state(), DaemonState::ShouldRefresh);
    assert_eq!(daemon.expiry(), 0);
    assert!(daemon.published().is_none());
    daemon
}

#[test]
fn cold_start_successful_certify() {
    // min = 10s, max = 24h; the certificate lives 3600s, so the next
    // refresh comes at 70% of that: 2520s.
    let mut daemon = start(10 * SEC, 86_400 * SEC);
    let now: u64 = 1_700_000_000 * SEC;

    let action = daemon.step(
        Event::TokenLoaded {
            token: b"tok".to_vec(),
        },
        now,
    );
    match action {
        Action::Issue { request } => {
            assert_eq!(request.identity, "foo.ns1.serviceaccount.identity");
            assert_eq!(request.token, b"tok".to_vec());
            assert_eq!(request.certificate_signing_request, vec![9, 8, 7]);
        }
        _ => panic!("expected an Issue action"),
    }
    assert_eq!(daemon.state(), DaemonState::Pending);

    let action = daemon.step(
        Event::Certified {
            crt_key: crt_key(now + 3600 * SEC),
        },
        now,
    );
    match action {
        Action::StoreAndSleep { crt_key, delay } => {
            assert_eq!(delay, 2520 * SEC);
            assert_eq!(crt_key.crt.expiry, now + 3600 * SEC);
        }
        _ => panic!("expected a StoreAndSleep action"),
    }
    assert_eq!(daemon.state(), DaemonState::Waiting);
    assert_eq!(daemon.expiry(), now + 3600 * SEC);
    let published = daemon.published().as_ref().unwrap();
    assert_eq!(published.crt.leaf, vec![0xde, 0xad]);
}

#[test]
fn short_lived_cert_below_floor() {
    // A 5s lifetime scales to 3.5s, below the 10s floor.
    let mut daemon = start(10 * SEC, 86_400 * SEC);
    let now: u64 = 1_700_000_000 * SEC;
    daemon.step(
        Event::TokenLoaded {
            token: b"tok".to_vec(),
        },
        now,
    );
    let action = daemon.step(
        Event::Certified {
            crt_key: crt_key(now + 5 * SEC),
        },
        now,
    );
    match action {
        Action::StoreAndSleep { delay, .. } => assert_eq!(delay, 10 * SEC),
        _ => panic!("expected a StoreAndSleep action"),
    }
    assert!(daemon.published().is_some());
}

#[test]
fn over_long_cert_above_ceiling() {
    // A 10h lifetime scales to 7h, above the 60s ceiling.
    let mut daemon = start(10 * SEC, 60 * SEC);
    let now: u64 = 1_700_000_000 * SEC;
    daemon.step(
        Event::TokenLoaded {
            token: b"tok".to_vec(),
        },
        now,
    );
    let action = daemon.step(
        Event::Certified {
            crt_key: crt_key(now + 36_000 * SEC),
        },
        now,
    );
    match action {
        Action::StoreAndSleep { delay, .. } => assert_eq!(delay, 60 * SEC),
        _ => panic!("expected a StoreAndSleep action"),
    }
}

#[test]
fn certify_with_missing_expiry() {
    // The watch stays untouched and the delay falls back to the floor
    // because no expiry was ever stored.
    let mut daemon = start(10 * SEC, 86_400 * SEC);
    let now: u64 = 1_700_000_000 * SEC;
    daemon.step(
        Event::TokenLoaded {
            token: b"tok".to_vec(),
        },
        now,
    );

    let rsp = mesh_core::identity::CertifyResponse {
        leaf_certificate: vec![1],
        intermediate_certificates: vec![],
        valid_until: None,
    };
    assert!(daemon.crt_of_response(rsp).is_none());

    let action = daemon.step(Event::ResponseMissingExpiry, now);
    match action {
        Action::Sleep { delay } => assert_eq!(delay, 10 * SEC),
        _ => panic!("expected a Sleep action"),
    }
    assert!(daemon.published().is_none());
    assert_eq!(daemon.expiry(), 0);
}

#[test]
fn missing_expiry_keeps_previous_expiry() {
    // After one success, a response without expiry re-arms against
    // the previously stored expiry.
    let mut daemon = start(10 * SEC, 86_400 * SEC);
    let now: u64 = 1_700_000_000 * SEC;
    daemon.step(
        Event::TokenLoaded {
            token: b"tok".to_vec(),
        },
        now,
    );
    daemon.step(
        Event::Certified {
            crt_key: crt_key(now + 3600 * SEC),
        },
        now,
    );
    daemon.step(Event::DelayFired, now + 2520 * SEC);
    daemon.step(
        Event::TokenLoaded {
            token: b"tok".to_vec(),
        },
        now + 2520 * SEC,
    );
    // 1080s of lifetime remain; 70% is 756s.
    let action = daemon.step(Event::ResponseMissingExpiry, now + 2520 * SEC);
    match action {
        Action::Sleep { delay } => assert_eq!(delay, 756 * SEC),
        _ => panic!("expected a Sleep action"),
    }
    // The previously published pair is still there.
    assert!(daemon.published().is_some());
}

#[test]
fn rpc_failure_rearms_floor_delay() {
    let mut daemon = start(10 * SEC, 86_400 * SEC);
    let now: u64 = 1_700_000_000 * SEC;
    daemon.step(
        Event::TokenLoaded {
            token: b"tok".to_vec(),
        },
        now,
    );
    let action = daemon.step(Event::CertifyFailed, now);
    match action {
        Action::Sleep { delay } => assert_eq!(delay, 10 * SEC),
        _ => panic!("expected a Sleep action"),
    }
    assert!(daemon.published().is_none());
}

#[test]
fn token_failure_rearms_delay() {
    let mut daemon = start(10 * SEC, 86_400 * SEC);
    let now: u64 = 1_700_000_000 * SEC;
    let action = daemon.step(Event::TokenFailed, now);
    match action {
        Action::Sleep { delay } => assert_eq!(delay, 10 * SEC),
        _ => panic!("expected a Sleep action"),
    }
    assert_eq!(daemon.state(), DaemonState::Waiting);
}

#[test]
fn publish_rejected_stops_daemon() {
    let mut daemon = start(10 * SEC, 86_400 * SEC);
    let now: u64 = 1_700_000_000 * SEC;
    daemon.step(
        Event::TokenLoaded {
            token: b"tok".to_vec(),
        },
        now,
    );
    daemon.step(
        Event::Certified {
            crt_key: crt_key(now + 3600 * SEC),
        },
        now,
    );
    let action = daemon.step(Event::PublishRejected, now);
    assert!(matches!(action, Action::Stop));
    assert_eq!(daemon.state(), DaemonState::Done);
}

#[test]
fn crt_of_response_builds_candidate() {
    let daemon = start(10 * SEC, 86_400 * SEC);
    let rsp = mesh_core::identity::CertifyResponse {
        leaf_certificate: vec![5, 6],
        intermediate_certificates: vec![vec![7]],
        valid_until: Some(42 * SEC),
    };
    let (key, crt) = daemon.crt_of_response(rsp).unwrap();
    assert_eq!(key.material, vec![1, 2, 3]);
    assert_eq!(crt.name.as_str(), "foo.ns1.serviceaccount.identity");
    assert_eq!(crt.leaf, vec![5, 6]);
    assert_eq!(crt.intermediates, vec![vec![7]]);
    assert_eq!(crt.expiry, 42 * SEC);
}

#[test]
fn name_parse_accepts_valid_names() {
    assert!(Name::parse("foo.ns1.serviceaccount.identity".to_string()).is_ok());
    assert!(Name::parse("a".to_string()).is_ok());
    assert!(Name::parse("a-b.c-9".to_string()).is_ok());
}

#[test]
fn name_parse_rejects_invalid_names() {
    assert!(Name::parse("".to_string()).is_err());
    assert!(Name::parse(".leading".to_string()).is_err());
    assert!(Name::parse("trailing.".to_string()).is_err());
    assert!(Name::parse("dou..ble".to_string()).is_err());
    assert!(Name::parse("Upper.case".to_string()).is_err());
    assert!(Name::parse("under_score".to_string()).is_err());
}
