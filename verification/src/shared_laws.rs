//! What the shared vocabulary says: views, rows, frames, tables and drags.

use crate::drag::{carried_paths, Held, PasteItem};
use crate::event::{capped, progress_due, Event, SyncEvent};
use crate::ipc::{
    file_row, folder_row, opposite_of, opt_text, position_named, modifier_named, ClipboardKind,
    Direction, DiscoveredPeer, FileTransferStatus, Ip, Modifier, ModifierMap, Position, Row,
    TransferKind, TransferState,
};
use crate::names::texts;
use crate::proto::{be_value, framed, payload_in, Msg, SyncMessage, CHUNK_SIZE, MAX_FRAME_SIZE};
use crate::table::{at, erased, has_key, stored, with_id, without_id};
use vstd::prelude::*;
use vstd::string::*;

verus! {

/* ----------------------------------- ipc ----------------------------------- */

/// Left and right are opposite, and so are top and bottom.
pub proof fn sides_are_opposite()
    ensures
        opposite_of(Position::Left) == Position::Right,
        opposite_of(Position::Right) == Position::Left,
        opposite_of(Position::Top) == Position::Bottom,
        opposite_of(Position::Bottom) == Position::Top,
{
}

/// Positions and roles are read by their names.
pub proof fn words_are_read(s: Seq<char>)
    ensures
        position_named("left"@) == Ok::<Position, ()>(Position::Left),
        position_named("right"@) == Ok::<Position, ()>(Position::Right),
        position_named("top"@) == Ok::<Position, ()>(Position::Top),
        position_named("bottom"@) == Ok::<Position, ()>(Position::Bottom),
        s != "left"@ && s != "right"@ && s != "top"@ && s != "bottom"@ ==> position_named(s)
            is Err,
        modifier_named("ctrl"@) == Ok::<Modifier, ()>(Modifier::Ctrl),
        modifier_named("alt"@) == Ok::<Modifier, ()>(Modifier::Alt),
        modifier_named("meta"@) == Ok::<Modifier, ()>(Modifier::Meta),
        s != "ctrl"@ && s != "alt"@ && s != "meta"@ ==> modifier_named(s) is Err,
        Position::Left.spelled() == "left"@,
        Position::Right.spelled() == "right"@,
        Position::Top.spelled() == "top"@,
        Position::Bottom.spelled() == "bottom"@,
        Modifier::Ctrl.spelled() == "ctrl"@,
        Modifier::Alt.spelled() == "alt"@,
        Modifier::Meta.spelled() == "meta"@,
{
    crate::ipc::positions_read_back(Position::Left, s);
    crate::ipc::positions_read_back(Position::Right, s);
    crate::ipc::positions_read_back(Position::Top, s);
    crate::ipc::positions_read_back(Position::Bottom, s);
    crate::ipc::modifiers_read_back(Modifier::Ctrl, s);
    crate::ipc::modifiers_read_back(Modifier::Alt, s);
    crate::ipc::modifiers_read_back(Modifier::Meta, s);
}

/// In the map that changes nothing every key acts as itself.
pub proof fn keys_act_as_themselves_by_default()
    ensures
        ModifierMap::identity().ctrl == Modifier::Ctrl,
        ModifierMap::identity().alt == Modifier::Alt,
        ModifierMap::identity().meta == Modifier::Meta,
{
}

/// A row says what it was made of; a single file counts no files inside.
pub proof fn rows_say_what_they_are_made_of(
    id: u64,
    name: Seq<char>,
    files: u32,
    direction: Direction,
    transferred: u64,
    total: u64,
    state: TransferState,
    detail: Option<Seq<char>>,
)
    ensures
        ({
            let r = file_row(id, name, direction, transferred, total, state, detail);
            &&& r.id == id && r.name == name && r.direction == direction
            &&& r.transferred == transferred && r.total == total
            &&& r.state == state && r.detail == detail
            &&& r.kind == TransferKind::File && r.files == 0
        }),
        ({
            let r = folder_row(id, name, files, direction, transferred, total, state, detail);
            &&& r.id == id && r.name == name && r.direction == direction
            &&& r.transferred == transferred && r.total == total
            &&& r.state == state && r.detail == detail
            &&& r.kind == TransferKind::Folder && r.files == files
        }),
{
}

/// What the frontends read is what a row and a device hold.
pub proof fn rows_and_devices_say_what_they_hold(s: FileTransferStatus, p: DiscoveredPeer, t: String)
    ensures
        s@.id == s.id,
        s@.name == s.name@,
        s@.direction == s.direction,
        s@.transferred == s.transferred,
        s@.total == s.total,
        s@.state == s.state,
        s@.detail is Some <==> s.detail is Some,
        s.detail is Some ==> s@.detail->0 == s.detail->0@,
        s@.kind == s.kind,
        s@.files == s.files,
        p@.name == p.name@,
        p@.addrs == p.addrs@,
        p@.port == p.port,
        opt_text(Some(t)) == Some(t@),
        opt_text(None) is None,
{
}

/// What an event says is what it holds.
pub proof fn events_say_what_they_hold(
    a: String,
    b: String,
    addr: Ip,
    flag: bool,
    port: u16,
    peers: Vec<DiscoveredPeer>,
    direction: Direction,
    kind: ClipboardKind,
    status: FileTransferStatus,
    paths: Vec<String>,
    k: int,
    j: int,
)
    requires
        0 <= k < peers@.len(),
        0 <= j < paths@.len(),
    ensures
        (SyncEvent::Status { connected: flag, peer_name: Some(a) })@ == (Event::Status {
            connected: flag,
            peer_name: Some(a@),
        }),
        (SyncEvent::Status { connected: flag, peer_name: None })@ == (Event::Status {
            connected: flag,
            peer_name: None,
        }),
        (SyncEvent::PairingStarted { pin: a, port })@ == (Event::PairingStarted { pin: a@, port }),
        (SyncEvent::PairingComplete { fingerprint: a, name: b, addr, initiated: flag })@ == (
        Event::PairingComplete { fingerprint: a@, name: b@, addr, initiated: flag }),
        SyncEvent::PairingFailed(a)@ == Event::PairingFailed(a@),
        SyncEvent::PeersDiscovered(peers)@->PeersDiscovered_0.len() == peers@.len(),
        SyncEvent::PeersDiscovered(peers)@->PeersDiscovered_0[k] == peers@[k]@,
        (SyncEvent::Clipboard { direction, kind })@ == (Event::Clipboard { direction, kind }),
        SyncEvent::Transfer(status)@ == Event::Transfer(status@),
        (SyncEvent::DragDropped { paths })@->paths.len() == paths@.len(),
        (SyncEvent::DragDropped { paths })@->paths[j] == paths@[j]@,
{
}

/// A running transfer reports at most four times a second.
pub proof fn progress_is_reported_four_times_a_second(last: u64, now: u64)
    ensures
        progress_due(last, now) <==> now >= last + 250_000_000,
{
}

/// Sums that do not fit are as large as can be.
pub proof fn sums_are_capped(a: u64, b: u64)
    ensures
        a + b <= u64::MAX ==> capped(a as int, b as int) == a + b,
        a + b > u64::MAX ==> capped(a as int, b as int) == u64::MAX,
{
}

/* ---------------------------------- wire ---------------------------------- */

/// A frame is its payload behind the payload's length in four bytes, the
/// most significant first.
pub proof fn frames_are_length_and_payload(payload: Seq<u8>)
    requires
        payload.len() < 0x1_0000_0000,
    ensures
        framed(payload).len() == payload.len() + 4,
        framed(payload).skip(4) == payload,
        framed(payload)[0] * 0x100_0000 + framed(payload)[1] * 0x1_0000 + framed(payload)[2] * 0x100
            + framed(payload)[3] == payload.len(),
{
    crate::proto::frames_read_back(payload, Seq::empty());
    assert(framed(payload) + Seq::<u8>::empty() =~= framed(payload));
    assert(framed(payload).skip(4) =~= payload);
}

/// Four bytes stand for a number, the most significant first; a frame holds
/// at most one MiB, and a chunk of a file fits into it.
pub proof fn lengths_are_read_high_end_first(b: Seq<u8>)
    requires
        b.len() >= 4,
    ensures
        be_value(b) == ((b[0] * 256 + b[1]) * 256 + b[2]) * 256 + b[3],
        MAX_FRAME_SIZE == 1024 * 1024,
        CHUNK_SIZE == 256 * 1024,
{
}

/// A payload of at most one MiB is taken off the stream as it was framed,
/// whatever follows; a longer one is not, nor is one of which bytes are still
/// to come.
pub proof fn payloads_cross_the_stream(payload: Seq<u8>, rest: Seq<u8>, n: int)
    requires
        payload.len() < 0x1_0000_0000,
        0 <= n < framed(payload).len(),
    ensures
        payload.len() <= 1024 * 1024 ==> payload_in(framed(payload) + rest) == Some(payload),
        payload.len() > 1024 * 1024 ==> payload_in(framed(payload) + rest) is None,
        payload_in(framed(payload).take(n)) is None,
{
    crate::proto::frames_read_back(payload, rest);
    crate::proto::frames_read_back(payload, Seq::empty());
    assert(framed(payload) + Seq::<u8>::empty() =~= framed(payload));
    let part = framed(payload).take(n);
    if n >= 4 {
        assert(part[0] == framed(payload)[0] && part[1] == framed(payload)[1]);
        assert(part[2] == framed(payload)[2] && part[3] == framed(payload)[3]);
        assert(be_value(part) == be_value(framed(payload)));
    }
}

/// What a message says is what it holds.
pub proof fn messages_say_what_they_hold(
    id: u64,
    other: u64,
    n: u32,
    m: u32,
    size: u64,
    version: u16,
    name: String,
    data: Vec<u8>,
    digest: [u8; 32],
    drag: Option<u64>,
)
    ensures
        (SyncMessage::Hello { version, name })@ == (Msg::Hello { version, name: name@ }),
        (SyncMessage::ClipText { text: name })@ == (Msg::ClipText { text: name@ }),
        (SyncMessage::ClipImage { width: n, height: m, png: data })@ == (Msg::ClipImage {
            width: n,
            height: m,
            png: data@,
        }),
        (SyncMessage::FileOffer { id, name, size })@ == (Msg::FileOffer { id, name: name@, size }),
        (SyncMessage::FileAccept { id })@ == (Msg::FileAccept { id }),
        (SyncMessage::FileReject { id, reason: name })@ == (Msg::FileReject { id, reason: name@ }),
        (SyncMessage::FileChunk { id, offset: size, data })@ == (Msg::FileChunk {
            id,
            offset: size,
            data: data@,
        }),
        (SyncMessage::FileDone { id, sha256: digest })@ == (Msg::FileDone { id, sha256: digest@ }),
        (SyncMessage::FileCancel { id, reason: name })@ == (Msg::FileCancel { id, reason: name@ }),
        (SyncMessage::PairStart { spake_msg: data, name })@ == (Msg::PairStart {
            spake_msg: data@,
            name: name@,
        }),
        (SyncMessage::PairResponse { spake_msg: data, name })@ == (Msg::PairResponse {
            spake_msg: data@,
            name: name@,
        }),
        (SyncMessage::PairConfirmA { mac: digest })@ == (Msg::PairConfirmA { mac: digest@ }),
        (SyncMessage::PairConfirmB { mac: digest })@ == (Msg::PairConfirmB { mac: digest@ }),
        SyncMessage::Ping@ == Msg::Ping,
        SyncMessage::Pong@ == Msg::Pong,
        (SyncMessage::DragBegin { drag: id, count: n })@ == (Msg::DragBegin { drag: id, count: n }),
        (SyncMessage::DragOffer { drag: id, id: other, name, size })@ == (Msg::DragOffer {
            drag: id,
            id: other,
            name: name@,
            size,
        }),
        (SyncMessage::DragDrop { drag: id })@ == (Msg::DragDrop { drag: id }),
        (SyncMessage::DragCancel { drag: id })@ == (Msg::DragCancel { drag: id }),
        (SyncMessage::TreeOffer { tree: id, name, files: n, bytes: size, drag })@ == (
        Msg::TreeOffer { tree: id, name: name@, files: n, bytes: size, drag }),
        (SyncMessage::TreeDir { tree: id, rel: name })@ == (Msg::TreeDir { tree: id, rel: name@ }),
        (SyncMessage::TreeFile { tree: id, id: other, rel: name, size })@ == (Msg::TreeFile {
            tree: id,
            id: other,
            rel: name@,
            size,
        }),
        (SyncMessage::TreeEnd { tree: id, error: Some(name) })@ == (Msg::TreeEnd {
            tree: id,
            error: Some(name@),
        }),
        (SyncMessage::TreeEnd { tree: id, error: None })@ == (Msg::TreeEnd {
            tree: id,
            error: None,
        }),
{
}

/* ---------------------------------- drags ---------------------------------- */

/// A drag is what was on the pasteboard when its generation changed under a
/// held button; it lasts, with those files, until the button is up.
pub proof fn drags_begin_with_the_generation(h: Held, files: Seq<Seq<char>>, modified: bool)
    ensures
        files.len() > 0 ==> h.looked(true, true, files) == (Held { armed: true, files }),
        files.len() > 0 ==> h.looked(true, true, files).dragged() == files,
        h.looked(true, false, files) == h,
        files.len() == 0 ==> h.looked(true, modified, files) == h,
        h.looked(false, modified, files).dragged().len() == 0,
        !h.looked(false, modified, files).armed,
        h.looked(false, modified, files).files.len() == 0,
        !Held::none().armed,
        h.armed ==> h.dragged() == h.files,
        !h.armed ==> h.dragged().len() == 0,
{
}

/// Of the items on the pasteboard those are carried that are files, are there
/// already, and have a path; in their order.
pub proof fn files_on_the_pasteboard_are_carried(items: Seq<PasteItem>, more: PasteItem)
    ensures
        carried_paths(Seq::<PasteItem>::empty()).len() == 0,
        more.has_file_url && !more.promised && more.path is Some ==> carried_paths(items.push(more))
            == carried_paths(items).push(more.path->0@),
        !more.has_file_url || more.promised || more.path is None ==> carried_paths(items.push(more))
            == carried_paths(items),
{
    assert(items.push(more).drop_last() =~= items);
}

/* ---------------------------------- tables ---------------------------------- */

/// What a table has under a number is what is at the place with that number.
pub proof fn tables_are_searched_by_number<M>(s: Seq<(u64, M)>, id: u64, k: int)
    requires
        0 <= k < s.len(),
        s[k].0 == id,
        forall|j: int| 0 <= j < k ==> (#[trigger] s[j]).0 != id,
    ensures
        has_key(s, id),
        at(s, id) == s[k].1,
{
    crate::table::position_finds(s, id);
}

/// A table keeps its order: what is stored under a number that is there takes
/// its place, what is new comes last, and what is erased leaves the others as
/// they stand.
pub proof fn tables_keep_their_order<M>(
    a: Seq<(u64, M)>,
    id: u64,
    m: M,
    b: Seq<(u64, M)>,
    other: M,
)
    requires
        forall|j: int| 0 <= j < a.len() ==> (#[trigger] a[j]).0 != id,
    ensures
        erased(a + seq![(id, m)] + b, id) == a + b,
        stored(a + seq![(id, m)] + b, id, other) == a + seq![(id, other)] + b,
        erased(a, id) == a,
        stored(a, id, m) == a + seq![(id, m)],
{
    let s = a + seq![(id, m)] + b;
    assert forall|j: int| 0 <= j < a.len() implies (#[trigger] s[j]).0 != id by {
        assert(s[j] == a[j]);
    }
    crate::table::position_is(s, id, a.len() as int);
    crate::table::position_is(a, id, a.len() as int);
    assert(s.remove(a.len() as int) =~= a + b);
    assert(s.update(a.len() as int, (id, other)) =~= a + seq![(id, other)] + b);
    assert(a.push((id, m)) =~= a + seq![(id, m)]);
}

/// Lists of numbers keep their order too.
pub proof fn numbers_keep_their_order(s: Seq<u64>, x: u64, id: u64)
    ensures
        s.contains(id) ==> with_id(s, id) == s,
        !s.contains(id) ==> with_id(s, id) == s + seq![id],
        without_id(Seq::empty(), id) == Seq::<u64>::empty(),
        x == id ==> without_id(s.push(x), id) == without_id(s, id),
        x != id ==> without_id(s.push(x), id) == without_id(s, id).push(x),
{
    reveal(Seq::filter);
    assert(s + seq![id] =~= s.push(id));
    assert(s.push(x).drop_last() =~= s);
    assert(without_id(Seq::empty(), id) =~= Seq::<u64>::empty());
}

} // verus!
