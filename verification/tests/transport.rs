//! The claim transport: peers, endpoints, rates, the listener, inbound frames.

use base64::engine::general_purpose::STANDARD;
use base64::Engine as _;
use dormantd::coordination_claim::{
    addressable_peer_count, admit_frame, authenticate_connection, claim_peers, fanout_plan,
    fanout_request, fanout_skip, find_peer, normalize_port, peer_endpoints, peer_record, reject,
    send_to_peer, AddressRefresh, BindGoal, ClaimPeer, Command, ConnectionRates, DialStep,
    EndpointKind, FanoutResult, FanoutStep, FrameRead, Ip, PeerRecord, PeerSend, PeerStoreError,
    PeerStoreFeed, Rejection, SendReport, SockAddr, Supervisor, SupervisorAction,
    MAX_CONNECTIONS_PER_IP_MINUTE,
};
use ed25519_dalek::SigningKey;

const SECOND: u128 = 1_000_000_000;
const LOCALHOST: Ip = Ip::V4(0x7f00_0001);

fn v4(a: u32, b: u32, c: u32, d: u32) -> Ip {
    Ip::V4((a << 24) | (b << 16) | (c << 8) | d)
}

fn addr(ip: Ip, port: u16) -> SockAddr {
    SockAddr::new(ip, port)
}

fn key(seed: u8) -> Vec<u8> {
    SigningKey::from_bytes(&[seed; 32])
        .verifying_key()
        .to_bytes()
        .to_vec()
}

fn peer(seed: u8) -> ClaimPeer {
    ClaimPeer {
        instance_id: format!("instance-{seed}"),
        verifying_key: key(seed),
        last_addr: None,
        dns_addr: None,
        claim_port: None,
        dns_port: None,
        dns_epoch: None,
    }
}

fn record(seed: u8) -> PeerRecord {
    PeerRecord {
        instance_id: format!("instance-{seed}"),
        ed25519_pub: STANDARD.encode(key(seed)),
        display_name: "remote".to_owned(),
        paired_at: "2026-01-01T00:00:00Z".to_owned(),
        last_addr: None,
        claim_port: Some(9),
    }
}

#[test]
fn dns_address_is_advisory_and_verified_address_dials_first() {
    let p = ClaimPeer {
        last_addr: Some(addr(LOCALHOST, 10)),
        dns_addr: Some(addr(v4(192, 0, 2, 9), 20)),
        claim_port: Some(1234),
        ..peer(2)
    };
    assert_eq!(
        peer_endpoints(&p),
        vec![
            (EndpointKind::Verified, addr(LOCALHOST, 1234)),
            (EndpointKind::Dns, addr(v4(192, 0, 2, 9), 1234)),
        ]
    );
}

#[test]
fn dns_only_port_yields_dns_endpoint() {
    let mut p = ClaimPeer {
        dns_addr: Some(addr(v4(10, 1, 1, 1), 4321)),
        dns_port: Some(4321),
        ..peer(2)
    };
    assert_eq!(
        peer_endpoints(&p),
        vec![(EndpointKind::Dns, addr(v4(10, 1, 1, 1), 4321))]
    );
    p.dns_port = None;
    assert!(peer_endpoints(&p).is_empty());
}

#[test]
fn dns_port_never_yields_verified_endpoint() {
    let p = ClaimPeer {
        last_addr: Some(addr(LOCALHOST, 10)),
        dns_addr: Some(addr(v4(10, 1, 1, 1), 4321)),
        dns_port: Some(4321),
        ..peer(2)
    };
    let eps = peer_endpoints(&p);
    assert_eq!(eps.len(), 1);
    assert!(eps
        .iter()
        .all(|(kind, _)| matches!(kind, EndpointKind::Dns)));
    assert_eq!(eps[0], (EndpointKind::Dns, addr(v4(10, 1, 1, 1), 4321)));
}

#[test]
fn verified_claim_port_shadows_dns_port() {
    let p = ClaimPeer {
        last_addr: Some(addr(LOCALHOST, 10)),
        dns_addr: Some(addr(v4(10, 1, 1, 1), 4321)),
        claim_port: Some(9999),
        dns_port: Some(4321),
        ..peer(2)
    };
    assert_eq!(
        peer_endpoints(&p),
        vec![
            (EndpointKind::Verified, addr(LOCALHOST, 9999)),
            (EndpointKind::Dns, addr(v4(10, 1, 1, 1), 9999)),
        ]
    );
}

#[test]
fn rate_entries_expire_under_many_ip_spray() {
    let mut rates = ConnectionRates::new();
    for octet in 1..=100 {
        assert!(rates.allow_ip(v4(10, 0, 0, octet), 0));
    }
    assert_eq!(rates.address_count(), 100);
    assert!(rates.allow_ip(LOCALHOST, 61 * SECOND));
    assert_eq!(rates.address_count(), 1);
}

#[test]
fn an_address_has_ten_connections_a_minute() {
    let mut rates = ConnectionRates::new();
    for i in 0..MAX_CONNECTIONS_PER_IP_MINUTE {
        assert!(rates.allow_ip(LOCALHOST, i as u128 * SECOND));
    }
    assert!(!rates.allow_ip(LOCALHOST, 59 * SECOND));
    assert!(rates.allow_ip(v4(10, 0, 0, 1), 59 * SECOND));
    assert!(rates.allow_ip(LOCALHOST, 60 * SECOND));
    assert!(!rates.allow_ip(LOCALHOST, 60 * SECOND));
}

#[test]
fn fifth_concurrent_pre_auth_connection_is_rejected() {
    let mut rates = ConnectionRates::new();
    for proving in 0..4 {
        assert!(rates.accept_connection(LOCALHOST, SECOND, proving));
    }
    assert!(!rates.accept_connection(LOCALHOST, SECOND, 4));
    for _ in 0..5 {
        assert!(rates.accept_connection(LOCALHOST, SECOND, 0));
    }
    assert!(!rates.accept_connection(LOCALHOST, SECOND, 0));
}

#[test]
fn peer_store_feed_publishes_pairing_and_authenticated_endpoint_changes() {
    let mut feed = PeerStoreFeed::load(vec![]).unwrap_or_else(|e| panic!("{}", e.detail()));
    assert!(feed.peers.is_empty());
    assert_eq!(feed.upsert(record(2)), Ok(()));
    assert_eq!(feed.peers.len(), 1);
    assert_eq!(feed.peers[0].verifying_key, key(2));
    assert_eq!(feed.peers[0].claim_port, Some(9));

    let verified = addr(LOCALHOST, 10);
    assert!(matches!(
        feed.refresh_verified_address("instance-2", verified),
        AddressRefresh::Persist(0)
    ));
    assert_eq!(feed.publish(), Ok(()));
    assert_eq!(feed.peers[0].last_addr, Some(verified));
    assert!(matches!(
        feed.refresh_verified_address("instance-2", verified),
        AddressRefresh::Unchanged
    ));
    assert!(matches!(
        feed.refresh_verified_address("instance-3", verified),
        AddressRefresh::Unknown
    ));

    feed.refresh_dns_address("instance-2", addr(v4(192, 0, 2, 9), 20), None);
    assert_eq!(feed.peers[0].last_addr, Some(verified));
    assert_eq!(feed.peers[0].dns_addr, Some(addr(v4(192, 0, 2, 9), 20)));
}

#[test]
fn an_advisory_address_survives_a_publication() {
    let mut feed = PeerStoreFeed::load(vec![record(2), record(3)])
        .unwrap_or_else(|e| panic!("{}", e.detail()));
    feed.refresh_dns_address(
        "instance-3",
        addr(v4(10, 0, 0, 3), 33),
        Some("epoch".to_string()),
    );
    assert_eq!(feed.upsert(record(4)), Ok(()));
    assert_eq!(feed.peers.len(), 3);
    let third = find_peer(&feed.peers, "instance-3").unwrap();
    assert_eq!(feed.peers[third].dns_epoch.as_deref(), Some("epoch"));
    assert_eq!(
        feed.peers[third].dns_addr,
        Some(addr(v4(10, 0, 0, 3), 33))
    );
}

#[test]
fn a_peer_makes_the_record_it_came_from() {
    let peers = claim_peers(&vec![record(7)]).unwrap_or_else(|e| panic!("{}", e.detail()));
    let again = peer_record(&peers[0]);
    assert_eq!(again.ed25519_pub, record(7).ed25519_pub);
    assert_eq!(again.instance_id, "instance-7");
    assert_eq!(again.claim_port, Some(9));
    assert_ne!(again.ed25519_pub.as_bytes(), key(7).as_slice());
}

#[test]
fn a_record_needs_a_usable_key() {
    let broken = |text: &str| PeerRecord {
        ed25519_pub: text.to_string(),
        ..record(2)
    };
    assert!(matches!(
        claim_peers(&vec![broken("!!!")]),
        Err(PeerStoreError::KeyNotBase64)
    ));
    assert!(matches!(
        claim_peers(&vec![broken("AAAA")]),
        Err(PeerStoreError::KeyLength)
    ));
    // 32 bytes that are no point of the curve.
    let mut off = [0u8; 32];
    let mut found = false;
    for i in 0..=255u8 {
        off[0] = i;
        if ed25519_dalek::VerifyingKey::from_bytes(&off).is_err() {
            found = true;
            assert!(matches!(
                claim_peers(&vec![record(1), broken(&STANDARD.encode(off))]),
                Err(PeerStoreError::KeyInvalid)
            ));
        }
    }
    assert!(found);
    assert_eq!(
        PeerStoreError::KeyNotBase64.detail(),
        "paired peer public key is not valid base64"
    );
    assert_eq!(
        PeerStoreError::KeyLength.detail(),
        "paired peer public key must be 32 bytes"
    );
    assert_eq!(
        PeerStoreError::KeyInvalid.detail(),
        "paired peer public key is invalid"
    );
    assert_eq!(
        PeerStoreError::UnknownPeer.detail(),
        "cannot refresh endpoint for an unknown peer"
    );
}

#[test]
fn endpoints_are_dialed_in_turn() {
    let p = ClaimPeer {
        last_addr: Some(addr(LOCALHOST, 1)),
        dns_addr: Some(addr(v4(10, 0, 0, 1), 2)),
        claim_port: Some(5),
        ..peer(2)
    };
    assert_eq!(
        send_to_peer(&p, 0, false),
        DialStep::Dial(EndpointKind::Verified, addr(LOCALHOST, 5))
    );
    assert_eq!(
        send_to_peer(&p, 1, false),
        DialStep::Dial(EndpointKind::Dns, addr(v4(10, 0, 0, 1), 5))
    );
    assert_eq!(send_to_peer(&p, 1, true), DialStep::Delivered);
    assert_eq!(send_to_peer(&p, 2, false), DialStep::Failed);
    assert_eq!(send_to_peer(&peer(3), 0, false), DialStep::NoEndpoint);
    assert_eq!(EndpointKind::Verified.as_str(), "verified");
    assert_eq!(EndpointKind::Dns.as_str(), "dns");
}

#[test]
fn fanout_result_counts_only_successful_frame_writes() {
    let reachable = ClaimPeer {
        last_addr: Some(addr(LOCALHOST, 0)),
        claim_port: Some(7000),
        dns_epoch: Some("peer-a-epoch-001".to_string()),
        ..peer(2)
    };
    let missing_epoch = ClaimPeer {
        last_addr: Some(addr(LOCALHOST, 0)),
        claim_port: Some(7000),
        ..peer(4)
    };
    assert_eq!(fanout_skip(&reachable), None);
    assert_eq!(fanout_skip(&missing_epoch), Some(PeerSend::NoEpoch));
    assert_eq!(fanout_skip(&peer(5)), Some(PeerSend::NoEndpoint));
    let unreachable = ClaimPeer {
        last_addr: Some(addr(LOCALHOST, 0)),
        claim_port: Some(7001),
        dns_epoch: Some("peer-b-epoch-002".to_string()),
        ..peer(3)
    };
    let peers = vec![reachable, unreachable, missing_epoch];
    assert_eq!(addressable_peer_count(&peers), 2);
    let result = fanout_request(
        &peers,
        &vec![
            SendReport::Delivered,
            SendReport::DialFailed,
            SendReport::Delivered,
        ],
    );
    assert_eq!(result.contacted, 1);
    assert_eq!(result.dial_failed, 1);
    assert_eq!(result.skipped_no_epoch, 1);
    assert_eq!(result.skipped_no_endpoint, 0);
    assert_eq!(result.sign_failed, 0);
    let result = fanout_request(&peers, &vec![SendReport::SignFailed]);
    assert_eq!(result.sign_failed, 1);
    assert_eq!(result.dial_failed, 1, "nothing is known of the second frame");
    assert_eq!(fanout_request(&vec![peer(5)], &vec![]).skipped_no_endpoint, 1);
    assert_eq!(fanout_request(&vec![], &vec![]), FanoutResult::default());
}

#[test]
fn fanout_request_sends_per_peer_addressed_frames() {
    let epoch_a = "peer-a-epoch-001";
    let epoch_b = "peer-b-epoch-002";
    let local_epoch = "local-epoch-0000";
    let reachable = |seed: u8, epoch: &str| ClaimPeer {
        last_addr: Some(addr(LOCALHOST, 0)),
        claim_port: Some(7000),
        dns_epoch: Some(epoch.to_string()),
        ..peer(seed)
    };
    let steps = fanout_plan(&vec![reachable(2, epoch_a), peer(9), reachable(3, epoch_b)]);
    assert_eq!(steps.len(), 3);
    assert_eq!(steps[1], FanoutStep::Skip(PeerSend::NoEndpoint));
    let addressed: Vec<(&String, &String)> = [&steps[0], &steps[2]]
        .iter()
        .map(|step| match step {
            FanoutStep::Address { recipient, epoch } => (recipient, epoch),
            FanoutStep::Skip(_) => panic!("skipped"),
        })
        .collect();

    // Each peer is sent a frame that is addressed to its own identity.
    assert_eq!(addressed[0].0, "instance-2");
    assert_eq!(addressed[0].1, epoch_a);
    assert_eq!(addressed[1].0, "instance-3");
    assert_eq!(addressed[1].1, epoch_b);

    // Neither frame carries the wildcard or the sender's own epoch.
    for (recipient, epoch) in &addressed {
        assert_ne!(*recipient, "*");
        assert_ne!(*epoch, local_epoch);
    }
    assert_ne!(addressed[0].0, addressed[1].0);
    assert_ne!(addressed[0].1, addressed[1].1);
}

#[test]
fn fanout_request_skips_peer_without_epoch() {
    let p = ClaimPeer {
        last_addr: Some(addr(LOCALHOST, 0)),
        claim_port: Some(7000),
        ..peer(2)
    };
    assert_eq!(fanout_skip(&p), Some(PeerSend::NoEpoch));
    assert_eq!(
        fanout_plan(&vec![p]),
        vec![FanoutStep::Skip(PeerSend::NoEpoch)]
    );
}

#[test]
fn parked_when_empty_and_binds_on_first_peer() {
    let mut s = Supervisor::new(LOCALHOST, None, true);
    assert_eq!(
        s.reconcile_listener(false, BindGoal::Reconcile, SupervisorAction::Done),
        SupervisorAction::Done
    );
    assert_eq!(s.listening, None);
    assert_eq!(
        s.reconcile_listener(true, BindGoal::Reconcile, SupervisorAction::Done),
        SupervisorAction::Bind {
            address: LOCALHOST,
            port: None,
            goal: BindGoal::Reconcile
        }
    );
    assert_eq!(
        s.bound(BindGoal::Reconcile, Some(4000), true),
        SupervisorAction::Done
    );
    assert_eq!(s.listening, Some(4000));
    s.reconcile_listener(false, BindGoal::Reconcile, SupervisorAction::Done);
    assert_eq!(s.listening, None);
}

#[test]
fn ensure_and_release_provisional_obey_empty_peer_snapshot() {
    let mut s = Supervisor::new(LOCALHOST, None, true);
    assert!(matches!(
        s.handle_command(Command::Ensure, false),
        SupervisorAction::Bind {
            goal: BindGoal::Ensure,
            ..
        }
    ));
    assert_eq!(
        s.bound(BindGoal::Ensure, Some(4001), false),
        SupervisorAction::AnswerPort(4001)
    );
    assert_eq!(
        s.handle_command(Command::Ensure, false),
        SupervisorAction::AnswerPort(4001)
    );
    assert_eq!(
        s.handle_command(Command::Release, false),
        SupervisorAction::Done
    );
    assert_eq!(s.listening, None);
}

#[test]
fn releasing_provisional_keeps_listener_for_existing_peer() {
    let mut s = Supervisor::new(LOCALHOST, None, true);
    s.handle_command(Command::Ensure, true);
    s.bound(BindGoal::Ensure, Some(4002), true);
    s.handle_command(Command::Release, true);
    assert_eq!(s.listening, Some(4002));
    assert!(!s.provisional_hold);
}

#[test]
fn update_bind_swaps_listener_atomically() {
    let mut s = Supervisor::new(LOCALHOST, None, true);
    s.handle_command(Command::Ensure, false);
    s.bound(BindGoal::Ensure, Some(4003), false);
    let update = Command::Update {
        enabled: true,
        address: LOCALHOST,
        port: Some(5003),
    };
    let goal = BindGoal::Replace {
        address: LOCALHOST,
        port: Some(5003),
    };
    assert_eq!(
        s.handle_command(update, false),
        SupervisorAction::Bind {
            address: LOCALHOST,
            port: Some(5003),
            goal
        }
    );
    assert_eq!(s.listening, Some(4003), "the old listener is still up");
    assert_eq!(
        s.bound(goal, None, false),
        SupervisorAction::AnswerBindFailed
    );
    assert_eq!(s.listening, Some(4003));
    assert_eq!(s.fixed_port, None);
    s.handle_command(update, false);
    assert_eq!(
        s.bound(goal, Some(5003), false),
        SupervisorAction::AnswerOk
    );
    assert_eq!(s.listening, Some(5003));
    assert_eq!(s.fixed_port, Some(5003));
    assert_eq!(s.handle_command(update, false), SupervisorAction::AnswerOk);
}

#[test]
fn enabled_toggle_parks_and_rebinds_a_seeded_peer_listener() {
    let mut s = Supervisor::new(LOCALHOST, None, false);
    assert_eq!(
        s.handle_command(Command::Ensure, true),
        SupervisorAction::AnswerDisabled
    );
    assert!(matches!(
        s.update_config(true, LOCALHOST, None, true),
        SupervisorAction::Bind {
            goal: BindGoal::Apply,
            ..
        }
    ));
    assert_eq!(
        s.bound(BindGoal::Apply, Some(4004), true),
        SupervisorAction::AnswerOk
    );
    assert_eq!(
        s.update_config(false, Ip::V4(0), None, true),
        SupervisorAction::AnswerOk
    );
    assert_eq!(s.listening, None);
    assert_eq!(
        s.handle_command(Command::Shutdown, true),
        SupervisorAction::Stop
    );
}

#[test]
fn port_zero_is_no_fixed_port() {
    assert_eq!(normalize_port(Some(0)), None);
    assert_eq!(normalize_port(Some(7)), Some(7));
    assert_eq!(normalize_port(None), None);
    assert_eq!(Supervisor::new(LOCALHOST, Some(0), true).fixed_port, None);
}

#[test]
fn unknown_or_unsigned_peer_cannot_touch_handler_state() {
    let peers = vec![peer(2)];
    let read = |id: &str| FrameRead::Frame {
        sender_instance_id: id.to_string(),
    };
    let rejected = |seen: FrameRead| match authenticate_connection(seen, &peers) {
        Ok(_) => panic!("taken up"),
        Err(r) => r,
    };
    assert_eq!(rejected(read("instance-3")), Rejection::UnknownPeer);
    assert_eq!(rejected(FrameRead::Invalid), Rejection::InvalidFrame);
    assert_eq!(rejected(FrameRead::Timeout), Rejection::ReadTimeout);
    let known = || match authenticate_connection(read("instance-2"), &peers) {
        Ok(next) => next,
        Err(r) => panic!("{r:?}"),
    };
    assert_eq!(known().record.ed25519_pub, STANDARD.encode(key(2)));
    assert_eq!(known().record.instance_id, "instance-2");
    assert_eq!(known().verified(true, true), Ok("instance-2".to_string()));
    assert_eq!(known().verified(false, true), Err(Rejection::NotVerified));
    assert_eq!(
        known().verified(true, false),
        Err(Rejection::StaleCounterOrNonce)
    );
    let unusable = vec![ClaimPeer {
        verifying_key: vec![1, 2, 3],
        ..peer(2)
    }];
    assert!(matches!(
        authenticate_connection(read("instance-2"), &unusable),
        Err(Rejection::NotVerified)
    ));
    assert_eq!(admit_frame(false, true), Err(Rejection::NotVerified));
    assert_eq!(
        admit_frame(true, false),
        Err(Rejection::StaleCounterOrNonce)
    );
    assert_eq!(admit_frame(true, true), Ok(()));
    assert_eq!(reject(Rejection::UnknownPeer), Some("unknown_peer"));
    assert_eq!(reject(Rejection::InvalidFrame), Some("invalid_frame"));
    assert_eq!(reject(Rejection::ReadTimeout), Some("read_timeout"));
    assert_eq!(reject(Rejection::NotVerified), None);
    assert_eq!(
        reject(Rejection::StaleCounterOrNonce),
        Some("stale_counter_or_nonce")
    );
}
