use vylo_share::actor::{
    Action, Actions, Actor, FilePath, Internal, SyncRequest, PAIRING_WINDOW,
};
use vylo_share::clipboard::Change;
use vylo_share::event::SyncEvent;
use vylo_share::ipc::{ClipboardKind, Direction, Ip, TransferState};
use vylo_share::names::Location;
use vylo_share::proto::SyncMessage;

fn actor(local_fp: &str) -> Actor {
    Actor::new(local_fp.to_string(), 4243, "mac".to_string(), Location::new("/recv"), true)
}

fn up(id: u64, fp: &str, outbound: bool) -> Internal {
    Internal::Established { id, peer_fp: fp.to_string(), peer_name: "pc".to_string(), outbound }
}

fn wrong_pin(conn: u64) -> Internal {
    Internal::PairingErr { conn, msg: "wrong PIN".to_string(), initiated: false }
}

fn paired(conn: u64) -> Internal {
    Internal::PairingOk {
        conn,
        fingerprint: "bb".to_string(),
        name: "pc".to_string(),
        addr: Ip::V4(2),
        initiated: false,
    }
}

fn cancelled(a: &Actions) -> Vec<u64> {
    a.list
        .iter()
        .filter_map(|a| match a {
            Action::Cancel { conn } => Some(*conn),
            _ => None,
        })
        .collect()
}

fn failures(a: &Actions) -> Vec<String> {
    a.list
        .iter()
        .filter_map(|a| match a {
            Action::Report(SyncEvent::PairingFailed(m)) => Some(m.clone()),
            _ => None,
        })
        .collect()
}

#[test]
fn pairing_windows_open_and_close() {
    let mut a = actor("aa");
    let acts = a.handle_request(SyncRequest::StartPairing, 5);
    let shown = match &acts.list[..] {
        [Action::Report(SyncEvent::PairingStarted { pin, port: 4243 })] => pin.clone(),
        other => panic!("{other:?}"),
    };
    assert_eq!(shown.len(), 6);
    assert!(a.pairing_open);
    // a known peer is not there to pair
    assert_eq!(a.accept(true).pin, None);
    assert_eq!(a.accept(false).pin, Some(shown));
    let acts = a.handle_request(SyncRequest::CancelPairing, 6);
    assert_eq!(failures(&acts), vec!["cancelled".to_string()]);
    assert!(!a.pairing_open);
    assert_eq!(a.accept(false).pin, None);
}

#[test]
fn unused_windows_time_out() {
    let mut a = actor("aa");
    a.open_pairing_window("123456".to_string(), 5);
    assert!(a.tick(false, 5 + PAIRING_WINDOW).list.is_empty());
    assert!(a.pairing_open);
    let acts = a.tick(false, 6 + PAIRING_WINDOW);
    assert_eq!(failures(&acts), vec!["pairing window timed out".to_string()]);
    assert!(!a.pairing_open);
}

#[test]
fn a_wrong_pin_burns_the_window() {
    let mut a = actor("aa");
    a.open_pairing_window("123456".to_string(), 0);
    let conn = a.accept(false).conn;
    let acts = a.handle_internal(wrong_pin(conn));
    assert_eq!(failures(&acts), vec!["wrong PIN".to_string()]);
    assert!(!a.pairing_open);
    assert!(a.pairing.is_none());
    // later guesses meet no window
    assert!(a.handle_internal(wrong_pin(conn)).list.is_empty());
    assert_eq!(a.accept(false).pin, None);
}

#[test]
fn a_window_allows_one_attempt() {
    let mut a = actor("aa");
    a.open_pairing_window("123456".to_string(), 0);
    let first = a.accept(false);
    assert_eq!(first.pin.as_deref(), Some("123456"));
    assert!(!a.pairing_open);
    let second = a.accept(false);
    assert_eq!(second.pin, None);
    // nothing is dialed while the exchange runs
    a.handle_request(SyncRequest::AddrHint(Ip::V4(1)), 0);
    assert!(a.tick(false, 0).list.is_empty());
    // one that was not given the PIN neither pairs nor burns it
    assert!(a.handle_internal(paired(second.conn)).list.is_empty());
    assert!(a.handle_internal(wrong_pin(second.conn)).list.is_empty());
    let acts = a.handle_internal(paired(first.conn));
    assert!(matches!(
        &acts.list[..],
        [Action::Report(SyncEvent::PairingComplete { initiated: false, .. })]
    ));
    assert!(a.pairing.is_none() && a.attempt.is_none());
}

#[test]
fn burned_pins_pair_nobody() {
    let mut a = actor("aa");
    a.open_pairing_window("123456".to_string(), 0);
    let conn = a.accept(false).conn;
    a.handle_internal(wrong_pin(conn));
    assert!(a.handle_internal(paired(conn)).list.is_empty());
    assert!(a.candidates.is_empty());
    // nor does what began in an earlier window
    a.open_pairing_window("654321".to_string(), 0);
    assert!(a.handle_internal(paired(conn)).list.is_empty());
    assert!(a.pairing.is_some());
    let next = a.accept(false);
    assert_eq!(next.pin.as_deref(), Some("654321"));
    a.handle_request(SyncRequest::CancelPairing, 0);
    assert!(a.handle_internal(paired(next.conn)).list.is_empty());
}

#[test]
fn exchanges_outlive_their_window() {
    let mut a = actor("aa");
    a.open_pairing_window("123456".to_string(), 0);
    let conn = a.accept(false).conn;
    let acts = a.tick(false, 1 + PAIRING_WINDOW);
    assert_eq!(failures(&acts), vec!["pairing window timed out".to_string()]);
    assert_eq!(a.accept(false).pin, None);
    // it began in time
    let acts = a.handle_internal(paired(conn));
    assert!(matches!(
        &acts.list[..],
        [Action::Report(SyncEvent::PairingComplete { initiated: false, .. })]
    ));
    // but only once, and not if it fails or is cancelled
    assert!(a.handle_internal(paired(conn)).list.is_empty());
    a.open_pairing_window("654321".to_string(), 0);
    let failing = a.accept(false).conn;
    a.tick(false, 1 + PAIRING_WINDOW);
    a.open_pairing_window("111111".to_string(), 0);
    assert!(a.handle_internal(wrong_pin(failing)).list.is_empty());
    assert!(a.pairing.is_some());
    assert!(a.handle_internal(paired(failing)).list.is_empty());
    let cancelled = a.accept(false).conn;
    a.tick(false, 1 + PAIRING_WINDOW);
    a.handle_request(SyncRequest::CancelPairing, 0);
    assert!(a.handle_internal(paired(cancelled)).list.is_empty());
}

#[test]
fn pairing_as_the_dialing_side() {
    let mut a = actor("aa");
    let acts = a.handle_request(
        SyncRequest::PairWithPeer { addr: "10.0.0.2:4243".to_string(), pin: "123456".to_string() },
        0,
    );
    assert!(matches!(&acts.list[..], [Action::PairDial { conn: 1, device_name, .. }] if device_name == "mac"));
    assert!(a.pairing_open && a.pairing_dial);
    // the window closing leaves the dial alone
    a.handle_request(SyncRequest::CancelPairing, 0);
    assert!(a.pairing_open);
    let acts = a.handle_internal(Internal::PairingErr { conn: 1, msg: "no".to_string(), initiated: true });
    assert_eq!(failures(&acts), vec!["no".to_string()]);
    assert!(!a.pairing_open && !a.pairing_dial);
    // and one that completes
    a.handle_request(
        SyncRequest::PairWithPeer { addr: "10.0.0.2:4243".to_string(), pin: "123456".to_string() },
        0,
    );
    let acts = a.handle_internal(Internal::PairingOk {
        conn: 2,
        fingerprint: "bb".to_string(),
        name: "pc".to_string(),
        addr: Ip::V4(2),
        initiated: true,
    });
    assert!(matches!(
        &acts.list[..],
        [Action::Report(SyncEvent::PairingComplete { addr: Ip::V4(2), initiated: true, .. })]
    ));
    assert!(!a.pairing_open);
    assert_eq!(a.candidates, vec![Ip::V4(2)]);
}

#[test]
fn candidates_are_dialed() {
    let mut a = actor("aa");
    assert!(a.tick(false, 0).list.is_empty());
    a.handle_request(SyncRequest::AddrHint(Ip::V4(1)), 0);
    a.handle_request(SyncRequest::AddrHint(Ip::V4(2)), 0);
    a.handle_request(SyncRequest::AddrHint(Ip::V4(1)), 0);
    // nobody is trusted yet
    assert!(a.tick(true, 0).list.is_empty());
    // not while a pairing window is open
    a.open_pairing_window("1".to_string(), 0);
    assert!(a.tick(false, 0).list.is_empty());
    a.handle_request(SyncRequest::CancelPairing, 0);
    match &a.tick(false, 0).list[..] {
        [Action::Dial { conn: 1, candidates, port: 4243, device_name }] => {
            assert_eq!(candidates, &vec![Ip::V4(1), Ip::V4(2)]);
            assert_eq!(device_name, "mac");
        }
        other => panic!("{other:?}"),
    }
    // one attempt at a time
    assert!(a.tick(false, 0).list.is_empty());
    a.handle_internal(Internal::DialFinished);
    assert!(matches!(&a.tick(false, 0).list[..], [Action::Dial { conn: 2, .. }]));
    a.handle_internal(Internal::DialFinished);
    a.handle_internal(up(2, "bb", true));
    assert!(a.tick(false, 0).list.is_empty());
}

#[test]
fn both_ends_settle_on_the_same_stream() {
    // stream 1 was dialed by "aa", stream 2 by "bb"; "aa" is smaller
    for (first, second) in [(1u64, 2u64), (2, 1)] {
        let mut a = actor("aa");
        a.handle_internal(up(first, "bb", first == 1));
        a.handle_internal(up(second, "bb", second == 1));
        let mut b = actor("bb");
        b.handle_internal(up(second, "aa", second == 2));
        b.handle_internal(up(first, "aa", first == 2));
        assert_eq!(a.active.as_ref().unwrap().id, 1);
        assert_eq!(b.active.as_ref().unwrap().id, 1);
    }
}

#[test]
fn losing_connections_are_ended() {
    let mut a = actor("aa");
    let acts = a.handle_internal(up(1, "bb", true));
    assert!(matches!(
        &acts.list[..],
        [Action::Report(SyncEvent::Status { connected: true, peer_name: Some(n) })] if n == "pc"
    ));
    // the other direction loses
    assert_eq!(cancelled(&a.handle_internal(up(2, "bb", false))), vec![2]);
    // the same direction again replaces
    assert_eq!(cancelled(&a.handle_internal(up(3, "bb", true))), vec![1]);
    assert!(a.handle_internal(Internal::ConnClosed { id: 1 }).list.is_empty());
    let acts = a.handle_internal(Internal::ConnClosed { id: 3 });
    assert!(matches!(
        &acts.list[..],
        [Action::Report(SyncEvent::Status { connected: false, peer_name: None })]
    ));
    assert!(a.active.is_none());
}

#[test]
fn copies_wait_for_the_peer() {
    let mut a = actor("aa");
    assert!(a.handle_clip_change(Change::Text("old".to_string())).list.is_empty());
    assert!(a.handle_clip_change(Change::Text("new".to_string())).list.is_empty());
    let acts = a.handle_internal(up(1, "bb", true));
    match &acts.list[..] {
        [Action::Report(_), Action::TrySend { conn: 1, msg: SyncMessage::ClipText { text }, kind: ClipboardKind::Text }] => {
            assert_eq!(text, "new")
        }
        other => panic!("{other:?}"),
    }
    // the queue is full: the copy is kept and tried again
    a.clip_held(SyncMessage::ClipText { text: "new".to_string() }, ClipboardKind::Text);
    let acts = a.tick(false, 0);
    assert!(matches!(&acts.list[..], [Action::TrySend { conn: 1, .. }]));
    let acts = a.clip_sent(ClipboardKind::Text);
    assert!(matches!(
        &acts.list[..],
        [Action::Report(SyncEvent::Clipboard { direction: Direction::Sent, kind: ClipboardKind::Text })]
    ));
    assert!(a.tick(false, 0).list.is_empty());
    a.clip_held(SyncMessage::Ping, ClipboardKind::Image);
    a.clip_lost();
    assert!(a.pending_clip.is_none());
}

#[test]
fn files_without_a_peer_fail() {
    let mut a = actor("aa");
    let files = || {
        vec![
            FilePath { path: "/x/a.txt".to_string(), name: "a.txt".to_string() },
            FilePath { path: "/x/b.txt".to_string(), name: "b.txt".to_string() },
        ]
    };
    let first = a.next_transfer_id();
    let acts = a.handle_request(SyncRequest::SendFiles(files()), 0);
    assert_eq!(acts.list.len(), 2);
    for (i, act) in acts.list.iter().enumerate() {
        match act {
            Action::Report(SyncEvent::Transfer(row)) => {
                assert_eq!(row.id, first + 1 + i as u64);
                assert_eq!(row.name, ["a.txt", "b.txt"][i]);
                assert_eq!(row.state, TransferState::Failed);
                assert_eq!(row.direction, Direction::Sent);
                assert_eq!(row.detail.as_deref(), Some("no device connected"));
            }
            other => panic!("{other:?}"),
        }
    }
    assert_eq!(a.next_transfer_id(), first + 3);
    a.handle_internal(up(9, "bb", true));
    match &a.handle_request(SyncRequest::SendFiles(files()), 0).list[..] {
        [Action::SendFiles { conn: 9, paths }] => {
            assert_eq!(paths, &vec!["/x/a.txt".to_string(), "/x/b.txt".to_string()])
        }
        other => panic!("{other:?}"),
    }
}

#[test]
fn settings_change() {
    let mut a = actor("aa");
    a.handle_request(SyncRequest::SetClipboardSync(false), 0);
    assert!(!a.clipboard_enabled);
    a.handle_request(SyncRequest::SetFileDir(Location::new("/other")), 0);
    assert_eq!(a.file_dir.base, "/other");
    // the same name needs no new advertisement
    assert!(a.handle_request(SyncRequest::SetDeviceName("mac".to_string()), 0).list.is_empty());
    let acts = a.handle_request(SyncRequest::SetDeviceName("mac2".to_string()), 0);
    assert!(matches!(&acts.list[..], [Action::RestartDiscovery { device_name }] if device_name == "mac2"));
    let got = a.accept(true);
    assert_eq!((got.conn, got.device_name.as_str()), (1, "mac2"));
}
