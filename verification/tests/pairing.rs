use vylo_share::digest::sha256_of;
use vylo_share::pairing::{
    exchange, generate_pin, generate_seed, mac_matches, pin_text, PairSide, PairStage,
    PairingError,
};
use vylo_share::proto::SyncMessage;
use vylo_share::trust::{
    generate_fingerprint, hex_text, is_authorized, sort_inbound, FingerprintPolicy, Inbound,
    Purpose,
};

fn side(pin: &str, name: &str, exporter: [u8; 32]) -> PairSide {
    PairSide::new(pin.to_string(), name.to_string(), exporter, generate_seed())
}

#[test]
fn pairing_succeeds_with_matching_pin() {
    let mut a = side("482913", "alice", [7; 32]);
    let mut b = side("482913", "bob", [7; 32]);
    let (initiator, responder) = exchange(&mut a, &mut b);
    let name_seen_by_b = responder.expect("responder should succeed");
    let name_seen_by_a = initiator.expect("initiator should succeed");
    assert_eq!(name_seen_by_b, "alice");
    assert_eq!(name_seen_by_a, "bob");
}

#[test]
fn pairing_fails_with_wrong_pin() {
    let mut a = side("482913", "alice", [7; 32]);
    let mut b = side("482914", "bob", [7; 32]);
    let (initiator, responder) = exchange(&mut a, &mut b);
    assert!(responder.is_err(), "responder must reject a wrong pin");
    assert!(initiator.is_err(), "initiator must not complete");
    assert!(matches!(responder, Err(PairingError::WrongPin)));
    // the responder has gone while the initiator waits for its proof
    assert_eq!(
        initiator.unwrap_err().message(),
        "connection error during pairing: connection closed"
    );
    assert!(matches!(a.stage, PairStage::Proving { ref peer_name, .. } if peer_name == "bob"));
    assert!(matches!(b.stage, PairStage::Over));
}

#[test]
fn pairing_fails_across_sessions() {
    // two sessions that somebody bridges export different keying material
    let mut a = side("482913", "alice", [7; 32]);
    let mut b = side("482913", "bob", [8; 32]);
    let (initiator, responder) = exchange(&mut a, &mut b);
    assert!(matches!(responder, Err(PairingError::WrongPin)));
    assert!(matches!(initiator, Err(PairingError::Proto(_))));
}

#[test]
fn pairing_step_by_step() {
    let mut a = side("000001", "alice", [1; 32]);
    let mut b = side("000001", "bob", [1; 32]);
    let start = a.start();
    assert!(matches!(start, SyncMessage::PairStart { ref name, .. } if name == "alice"));
    let reply = b.run_responder(start);
    assert!(reply.outcome.is_none());
    let response = reply.send.unwrap();
    assert!(matches!(response, SyncMessage::PairResponse { ref name, .. } if name == "bob"));
    let first = a.run_initiator(response);
    assert!(first.outcome.is_none());
    let confirm = first.send.unwrap();
    assert!(matches!(confirm, SyncMessage::PairConfirmA { .. }));
    let second = b.run_responder(confirm);
    assert_eq!(second.outcome.unwrap().unwrap(), "alice");
    let last = a.run_initiator(second.send.unwrap());
    assert!(last.send.is_none());
    assert_eq!(last.outcome.unwrap().unwrap(), "bob");
    assert!(matches!(a.stage, PairStage::Over));
    assert!(matches!(b.stage, PairStage::Over));
}

#[test]
fn unexpected_messages_end_the_pairing() {
    let mut b = side("1", "bob", [1; 32]);
    let step = b.run_responder(SyncMessage::Ping);
    assert!(step.send.is_none());
    assert!(matches!(step.outcome, Some(Err(PairingError::UnexpectedMessage))));
    let mut a = side("1", "alice", [1; 32]);
    let step = a.run_initiator(SyncMessage::PairConfirmB { mac: [0; 32] });
    assert!(matches!(step.outcome, Some(Err(PairingError::UnexpectedMessage))));
}

#[test]
fn garbage_is_a_wrong_pin() {
    let mut b = side("1", "bob", [1; 32]);
    let step = b.run_responder(SyncMessage::PairStart { spake_msg: vec![1, 2, 3], name: "x".to_string() });
    assert!(matches!(step.outcome, Some(Err(PairingError::WrongPin))));
    let mut a = side("1", "alice", [1; 32]);
    let step = a.run_initiator(SyncMessage::PairResponse { spake_msg: vec![], name: "x".to_string() });
    assert!(matches!(step.outcome, Some(Err(PairingError::WrongPin))));
}

#[test]
fn a_made_up_proof_is_refused() {
    let mut a = side("1", "alice", [1; 32]);
    let mut b = side("1", "bob", [1; 32]);
    let reply = b.run_responder(a.start());
    a.run_initiator(reply.send.unwrap());
    let step = b.run_responder(SyncMessage::PairConfirmA { mac: [0; 32] });
    assert!(step.send.is_none());
    assert!(matches!(step.outcome, Some(Err(PairingError::WrongPin))));
    let step = a.run_initiator(SyncMessage::PairConfirmB { mac: [0; 32] });
    assert!(matches!(step.outcome, Some(Err(_))));
}

#[test]
fn pairing_errors_in_words() {
    assert_eq!(
        PairingError::Proto("eof".to_string()).message(),
        "connection error during pairing: eof"
    );
    assert_eq!(PairingError::UnexpectedMessage.message(), "peer sent an unexpected message");
    assert_eq!(PairingError::WrongPin.message(), "wrong PIN");
    assert_eq!(PairingError::PeerRejected.message(), "pairing rejected by peer (wrong PIN?)");
}

#[test]
fn pins_have_six_digits() {
    assert_eq!(pin_text(0), "000000");
    assert_eq!(pin_text(42), "000042");
    assert_eq!(pin_text(999999), "999999");
    let mut seen = Vec::new();
    for _ in 0..32 {
        let pin = generate_pin();
        assert_eq!(pin.len(), 6);
        assert!(pin.chars().all(|c| c.is_ascii_digit()));
        seen.push(pin);
    }
    seen.sort();
    seen.dedup();
    assert!(seen.len() > 1);
    assert_ne!(generate_seed(), generate_seed());
}

#[test]
fn proofs_are_compared() {
    assert!(mac_matches(&[5; 32], &[5; 32]));
    let mut other = [5; 32];
    other[31] = 6;
    assert!(!mac_matches(&[5; 32], &other));
}

#[test]
fn known_digests() {
    let abc = sha256_of(&b"abc".to_vec());
    assert_eq!(
        hex_text(&abc),
        "ba:78:16:bf:8f:01:cf:ea:41:41:40:de:5d:ae:22:23:b0:03:61:a3:96:17:7a:9c:b4:10:ff:61:f2:00:15:ad"
    );
    assert_eq!(generate_fingerprint(&b"abc".to_vec()), hex_text(&abc));
}

fn policy(authorized: &[&str], pairing_open: bool, purpose: Purpose) -> FingerprintPolicy {
    FingerprintPolicy {
        authorized: authorized.iter().map(|s| s.to_string()).collect(),
        pairing_open,
        purpose,
    }
}

#[test]
fn unauthorized_peer_rejected_without_pairing_window() {
    // no pairing window open on either side, empty allowlists
    let cert = b"a certificate".to_vec();
    let accepted = policy(&[], false, Purpose::Accept).check(&cert);
    let connected = policy(&[], false, Purpose::Dial).check(&cert);
    assert!(
        accepted.is_err() && connected.is_err(),
        "handshake must fail when neither side authorized the other"
    );
    assert_eq!(accepted, Err(generate_fingerprint(&cert)));
}

#[test]
fn strict_connector_rejects_unpinned_peer_during_pairing_window() {
    let cert = b"a certificate".to_vec();
    // strict connector must refuse despite the open window
    assert!(policy(&[], true, Purpose::Dial).check(&cert).is_err());
    // the pairing connector is allowed to establish the TLS session
    assert!(policy(&[], true, Purpose::PairDial).check(&cert).is_ok());
    assert!(policy(&[], true, Purpose::Accept).check(&cert).is_ok());
    // without a window neither is
    assert!(policy(&[], false, Purpose::PairDial).check(&cert).is_err());
    // a pinned peer is admitted whatever the window
    let fp = generate_fingerprint(&cert);
    assert!(policy(&[&fp], false, Purpose::Dial).check(&cert).is_ok());
    assert!(policy(&["other", &fp], true, Purpose::Dial).admits(&fp));
}

#[test]
fn inbound_connections_are_sorted() {
    let known = vec!["aa".to_string(), "bb".to_string()];
    assert!(is_authorized(&known, "bb"));
    assert_eq!(sort_inbound(&known, false, "aa"), Inbound::Serve);
    assert_eq!(sort_inbound(&known, true, "aa"), Inbound::Serve);
    assert_eq!(sort_inbound(&known, true, "cc"), Inbound::Pair);
    assert_eq!(sort_inbound(&known, false, "cc"), Inbound::Drop);
}
