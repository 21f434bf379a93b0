use vylo_share::connection::{
    cancelled_id, greeted, hello, received_clip, route, Connection, Route, Turn,
};
use vylo_share::effects::{Effect, Task};
use vylo_share::event::SyncEvent;
use vylo_share::inbox::is_inbound_transfer;
use vylo_share::ipc::{
    status, tree_status, ClipboardKind, Direction, Modifier, Position, Status, TransferKind,
    TransferState, DEFAULT_PORT, DEFAULT_SYNC_PORT,
};
use vylo_share::names::Location;
use vylo_share::proto::{
    fits_frame, frame, frame_len, read_frame, Frame, ProtoError, SyncMessage, CHUNK_SIZE, MAX_FRAME_SIZE,
    PROTO_VERSION,
};

#[test]
fn proto_roundtrip() {
    // a chunk with its id and offset, encoded as on the wire
    let data = vec![42u8; 4096];
    let payload = bincode::serialize(&(7u64, 1234u64, data.clone())).expect("write");
    let mut wire = frame(&payload);
    wire.extend_from_slice(b"the next frame");
    match read_frame(&wire).expect("read") {
        Frame::Whole { payload, used } => {
            assert_eq!(used, 4 + payload.len());
            let (id, offset, got): (u64, u64, Vec<u8>) =
                bincode::deserialize(&payload).expect("decode");
            assert_eq!(id, 7);
            assert_eq!(offset, 1234);
            assert_eq!(got, vec![42u8; 4096]);
        }
        other => panic!("wrong frame: {other:?}"),
    }
}

#[test]
fn oversized_frame_rejected() {
    let head = (MAX_FRAME_SIZE + 1).to_be_bytes();
    assert!(matches!(frame_len(head), Err(ProtoError::FrameTooLarge(_))));
    assert!(matches!(read_frame(&head.to_vec()), Err(ProtoError::FrameTooLarge(_))));
}

#[test]
fn frames_up_to_the_limit_are_read() {
    assert_eq!(MAX_FRAME_SIZE, 1024 * 1024);
    assert!(fits_frame(0) && fits_frame(1024 * 1024));
    assert!(!fits_frame(1024 * 1024 + 1));
    assert_eq!(CHUNK_SIZE, 256 * 1024);
    assert_eq!(frame_len(MAX_FRAME_SIZE.to_be_bytes()).unwrap(), MAX_FRAME_SIZE);
    assert_eq!(frame_len([0, 0, 1, 2]).unwrap(), 258);
    assert_eq!(frame(&vec![9, 8]), vec![0, 0, 0, 2, 9, 8]);
    assert!(matches!(read_frame(&vec![]), Ok(Frame::Partial)));
    assert!(matches!(read_frame(&vec![0, 0, 0]), Ok(Frame::Partial)));
    assert!(matches!(read_frame(&vec![0, 0, 0, 2, 9]), Ok(Frame::Partial)));
    match read_frame(&vec![0, 0, 0, 0, 5]) {
        Ok(Frame::Whole { payload, used: 4 }) => assert!(payload.is_empty()),
        other => panic!("{other:?}"),
    }
    assert_eq!(
        frame_len([0xff; 4]).unwrap_err().message(),
        "frame of 4294967295 bytes exceeds limit"
    );
}

#[test]
fn greetings() {
    match hello("my-mac") {
        SyncMessage::Hello { version, name } => {
            assert_eq!(version, PROTO_VERSION);
            assert_eq!(name, "my-mac");
        }
        other => panic!("{other:?}"),
    }
    // another version is greeted all the same
    assert_eq!(
        greeted(SyncMessage::Hello { version: 9, name: "pc".to_string() }),
        Some("pc".to_string())
    );
    assert_eq!(greeted(SyncMessage::Ping), None);
}

#[test]
fn messages_find_their_way() {
    assert!(matches!(route(SyncMessage::Ping, true, false), Route::Answer(SyncMessage::Pong)));
    assert!(matches!(route(SyncMessage::Pong, true, false), Route::Ignore));
    assert!(matches!(route(hello("x"), true, false), Route::Ignore));
    let text = || SyncMessage::ClipText { text: "t".to_string() };
    assert!(matches!(route(text(), true, false), Route::ApplyText(t) if t == "t"));
    assert!(matches!(route(text(), false, false), Route::Ignore));
    let image = || SyncMessage::ClipImage { width: 1, height: 1, png: vec![1] };
    assert!(matches!(route(image(), true, false), Route::ApplyImage(p) if p == vec![1]));
    assert!(matches!(route(image(), false, false), Route::Ignore));
    assert!(matches!(
        route(SyncMessage::FileAccept { id: 3 }, true, false),
        Route::Accepted { id: 3 }
    ));
    assert!(matches!(
        route(SyncMessage::FileReject { id: 3, reason: "no".to_string() }, true, false),
        Route::Rejected { id: 3, reason } if reason == "no"
    ));
    // either side may cancel: it goes to the transfer it is about
    let cancel = || SyncMessage::FileCancel { id: 3, reason: "no".to_string() };
    assert_eq!(cancelled_id(&cancel()), Some(3));
    assert_eq!(cancelled_id(&SyncMessage::Ping), None);
    assert!(matches!(
        route(cancel(), true, true),
        Route::Inbox(SyncMessage::FileCancel { id: 3, .. })
    ));
    assert!(matches!(
        route(cancel(), true, false),
        Route::Aborted { id: 3, reason } if reason == "no"
    ));
    assert!(matches!(
        route(SyncMessage::PairConfirmA { mac: [0; 32] }, true, false),
        Route::Ignore
    ));
}

#[test]
fn transfers_go_to_the_inbox() {
    let s = || "s".to_string();
    let inbound = vec![
        SyncMessage::FileOffer { id: 1, name: s(), size: 1 },
        SyncMessage::FileChunk { id: 1, offset: 0, data: vec![] },
        SyncMessage::FileDone { id: 1, sha256: [0; 32] },
        SyncMessage::DragBegin { drag: 1, count: 1 },
        SyncMessage::DragOffer { drag: 1, id: 1, name: s(), size: 1 },
        SyncMessage::DragDrop { drag: 1 },
        SyncMessage::DragCancel { drag: 1 },
        SyncMessage::TreeOffer { tree: 1, name: s(), files: 1, bytes: 1, drag: None },
        SyncMessage::TreeDir { tree: 1, rel: s() },
        SyncMessage::TreeFile { tree: 1, id: 1, rel: s(), size: 1 },
        SyncMessage::TreeEnd { tree: 1, error: None },
    ];
    for msg in inbound {
        assert!(is_inbound_transfer(&msg));
        assert!(matches!(route(msg, false, false), Route::Inbox(_)));
    }
    assert!(!is_inbound_transfer(&SyncMessage::FileAccept { id: 1 }));
    assert!(is_inbound_transfer(&SyncMessage::FileCancel { id: 1, reason: s() }));
}

#[test]
fn received_clipboard_content_is_told() {
    assert!(matches!(
        received_clip(ClipboardKind::Image),
        SyncEvent::Clipboard { direction: Direction::Received, kind: ClipboardKind::Image }
    ));
}

#[test]
fn positions_and_their_words() {
    for (p, word) in [
        (Position::Left, "left"),
        (Position::Right, "right"),
        (Position::Top, "top"),
        (Position::Bottom, "bottom"),
    ] {
        assert_eq!(p.name(), word);
        assert_eq!(Position::parse(word).unwrap(), p);
        assert_eq!(word.parse::<Position>().unwrap(), p);
        assert_eq!(Position::try_from(word), Ok(p));
        assert_eq!(p.opposite().opposite(), p);
        assert_ne!(p.opposite(), p);
    }
    assert_eq!(Position::Left.opposite(), Position::Right);
    assert_eq!(Position::Top.opposite(), Position::Bottom);
    assert_eq!(Position::default(), Position::Left);
    assert_eq!(Position::try_from("middle"), Err(()));
    let e = Position::parse("middle").unwrap_err();
    assert_eq!(e.message(), "not a valid position: middle");
}

#[test]
fn modifiers_and_their_words() {
    for (m, word) in [(Modifier::Ctrl, "ctrl"), (Modifier::Alt, "alt"), (Modifier::Meta, "meta")] {
        assert_eq!(m.name(), word);
        assert_eq!(Modifier::parse(word), Ok(m));
        assert_eq!(Modifier::try_from(word), Ok(m));
    }
    assert_eq!(Modifier::parse("shift"), Err(()));
}

#[test]
fn statuses_and_ports() {
    assert!(bool::from(Status::Enabled));
    assert!(!bool::from(Status::Disabled));
    assert_eq!(Status::default(), Status::Disabled);
    assert_eq!(DEFAULT_PORT, 4242);
    assert_eq!(DEFAULT_SYNC_PORT, 4243);
    assert_eq!(TransferKind::default(), TransferKind::File);
    let row = status(1, "a", Direction::Sent, 2, 3, TransferState::Active, None);
    assert_eq!((row.kind, row.files), (TransferKind::File, 0));
    let row = tree_status(1, "a", 4, Direction::Sent, 2, 3, TransferState::Active, None);
    assert_eq!((row.kind, row.files), (TransferKind::Folder, 4));
}

fn connection() -> Connection {
    Connection::new(Location::new("/recv"), None)
}

#[test]
fn replies_reach_the_transfer_once() {
    let mut conn = connection();
    conn.outgoing.register(4);
    // nobody asked about 5
    let r = conn.handle(SyncMessage::FileAccept { id: 5 }, true, 0);
    assert!(r.turns.is_empty() && r.effects.list.is_empty());
    let r = conn.handle(SyncMessage::FileAccept { id: 4 }, true, 0);
    assert!(matches!(&r.turns[..], [Turn::Reply { id: 4, rejected: None }]));
    let reject = SyncMessage::FileReject { id: 4, reason: "late".to_string() };
    let r = conn.handle(reject, true, 0);
    assert!(r.turns.is_empty());
    conn.outgoing.register(6);
    let reject = SyncMessage::FileReject { id: 6, reason: "full".to_string() };
    let r = conn.handle(reject, true, 0);
    assert!(matches!(&r.turns[..], [Turn::Reply { id: 6, rejected: Some(why) }] if why == "full"));
}

#[test]
fn cancellations_go_to_one_side() {
    let mut conn = connection();
    let cancel = || SyncMessage::FileCancel { id: 4, reason: "stop".to_string() };
    // unknown on both sides
    let r = conn.handle(cancel(), true, 0);
    assert!(r.turns.is_empty() && r.effects.list.is_empty());
    // being sent
    conn.outgoing.register(4);
    let r = conn.handle(cancel(), true, 0);
    assert!(matches!(&r.turns[..], [Turn::Abort { id: 4 }]));
    assert_eq!(conn.outgoing.abort_of(4).as_deref(), Some("stop"));
    // coming in, under the same number
    let offer = SyncMessage::FileOffer { id: 4, name: "a".to_string(), size: 1 };
    let r = conn.handle(offer, true, 0);
    assert!(matches!(&r.effects.list[..], [Effect::Do(Task::OpenPart { id: 4, .. })]));
    let dir = Location::new("/recv");
    conn.inbox.part_opened(Ok((dir.join("a"), dir.join("a.vylopart"))), 0);
    let r = conn.handle(cancel(), true, 0);
    assert!(r.turns.is_empty());
    assert!(r.effects.list.iter().any(|e| matches!(e, Effect::Discard { id: 4, .. })));
}

#[test]
fn clipboard_content_is_applied_and_told() {
    let mut conn = connection();
    let text = || SyncMessage::ClipText { text: "hi".to_string() };
    let r = conn.handle(text(), true, 0);
    match &r.turns[..] {
        [Turn::ApplyText(t), Turn::Report(SyncEvent::Clipboard { direction, kind })] => {
            assert_eq!(t, "hi");
            assert_eq!((*direction, *kind), (Direction::Received, ClipboardKind::Text));
        }
        other => panic!("{other:?}"),
    }
    assert!(conn.handle(text(), false, 0).turns.is_empty());
    let r = conn.handle(SyncMessage::ClipImage { width: 1, height: 1, png: vec![7] }, true, 0);
    assert!(matches!(&r.turns[..], [Turn::ApplyImage(png), Turn::Report(_)] if *png == vec![7]));
    let r = conn.handle(SyncMessage::Ping, true, 0);
    assert!(matches!(&r.turns[..], [Turn::Answer(SyncMessage::Pong)]));
}
