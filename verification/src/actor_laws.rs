//! What each request, piece of news and tick of the actor comes to, one
//! situation at a time.

use crate::actor::{
    next, nobodies, steps_from, Acting, Action, ActiveConn, Actor, Conn, Deed, FilePath,
    Internal, News, Request, SyncRequest, ToSend,
};
use crate::event::Event;
use crate::ipc::{ClipboardKind, Direction, Ip, Row, TransferKind, TransferState};
use crate::names::{texts, Location, Place};
use crate::proto::{Msg, SyncMessage};
use crate::table::{with_id, without_id};
use crate::text::{bytes_are_ordered_by_the_first_difference, bytes_less};
use vstd::prelude::*;
use vstd::utf8::encode_utf8;

verus! {

/* -------------------------------- requests -------------------------------- */

/// Pairing with a peer dials the address that was asked for with the PIN
/// that was asked for, under our own name, on a connection of its own; and
/// does nothing else.
pub proof fn pair_requests_dial_what_was_asked(s: Acting, addr: Seq<char>, pin: Seq<char>)
    ensures
        ({
            let (t, deeds) = s.on_request(Request::PairWithPeer { addr, pin });
            &&& deeds.len() == 1
            &&& deeds[0] is PairDial
            &&& deeds[0]->PairDial_addr == addr
            &&& deeds[0]->PairDial_pin == pin
            &&& deeds[0]->PairDial_device_name == s.device_name
            &&& deeds[0]->PairDial_conn == t.conn_seq
            &&& t.conn_seq != s.conn_seq
            &&& t.pairing_dial && t.pairing_open
            &&& t == (Acting {
                pairing_dial: true,
                pairing_open: true,
                conn_seq: t.conn_seq,
                ..s
            })
        }),
{
}

/// Cancelling closes the window, forgets whoever was about to pair, and says
/// so once. An outbound pairing goes on.
pub proof fn cancelling_closes_and_says_so(s: Acting)
    ensures
        ({
            let (t, deeds) = s.on_request(Request::CancelPairing);
            &&& deeds == seq![Deed::Report(Event::PairingFailed("cancelled"@))]
            &&& t == (Acting {
                pairing: None,
                attempt: None,
                late: Seq::empty(),
                pairing_open: s.pairing_dial && s.pairing_open,
                ..s
            })
        }),
{
}

/// Files go to the connection there is, in the order in which they were
/// asked for, each by its own path.
pub proof fn files_go_to_the_connection(s: Acting, c: Conn, files: Seq<ToSend>, k: int)
    requires
        s.active == Some(c),
        0 <= k < files.len(),
    ensures
        ({
            let (t, deeds) = s.on_request(Request::SendFiles(files));
            &&& t == s
            &&& deeds.len() == 1
            &&& deeds[0] is SendFiles
            &&& deeds[0]->SendFiles_conn == c.id
            &&& deeds[0]->SendFiles_paths.len() == files.len()
            &&& deeds[0]->SendFiles_paths[k] == files[k].path
        }),
{
}

proof fn steps_add_up(n: u64, k: nat)
    requires
        n + k <= u64::MAX,
    ensures
        steps_from(n, k) == n + k,
    decreases k,
{
    if k > 0 {
        steps_add_up(n, (k - 1) as nat);
    }
}

proof fn rows_of_nobody(id: u64, files: Seq<ToSend>)
    requires
        id + files.len() <= u64::MAX,
    ensures
        nobodies(id, files).len() == files.len(),
        forall|k: int|
            0 <= k < files.len() ==> #[trigger] nobodies(id, files)[k] == Deed::Report(
                Event::Transfer(
                    Row {
                        id: (id + k) as u64,
                        name: files[k].name,
                        direction: Direction::Sent,
                        transferred: 0,
                        total: 0,
                        state: TransferState::Failed,
                        detail: Some("no device connected"@),
                        kind: TransferKind::File,
                        files: 0,
                    },
                ),
            ),
    decreases files.len(),
{
    if files.len() > 0 {
        let rest = files.drop_last();
        rows_of_nobody(id, rest);
        steps_add_up(id, rest.len());
        assert forall|k: int| 0 <= k < files.len() implies #[trigger] nobodies(id, files)[k]
            == Deed::Report(
            Event::Transfer(
                Row {
                    id: (id + k) as u64,
                    name: files[k].name,
                    direction: Direction::Sent,
                    transferred: 0,
                    total: 0,
                    state: TransferState::Failed,
                    detail: Some("no device connected"@),
                    kind: TransferKind::File,
                    files: 0,
                },
            ),
        ) by {
            if k < rest.len() {
                assert(nobodies(id, files)[k] == nobodies(id, rest)[k]);
                assert(rest[k] == files[k]);
            }
        }
    }
}

/// With nobody connected every file is reported as failed, under its own
/// name and a number of its own, and nothing else happens.
pub proof fn files_without_a_peer_fail(s: Acting, files: Seq<ToSend>, k: int)
    requires
        s.active is None,
        0 <= k < files.len(),
        s.next_id + files.len() <= u64::MAX,
    ensures
        ({
            let (t, deeds) = s.on_request(Request::SendFiles(files));
            &&& t == (Acting { next_id: (s.next_id + files.len()) as u64, ..s })
            &&& deeds.len() == files.len()
            &&& deeds[k] == Deed::Report(
                Event::Transfer(
                    Row {
                        id: (s.next_id + k) as u64,
                        name: files[k].name,
                        direction: Direction::Sent,
                        transferred: 0,
                        total: 0,
                        state: TransferState::Failed,
                        detail: Some("no device connected"@),
                        kind: TransferKind::File,
                        files: 0,
                    },
                ),
            )
        }),
{
    rows_of_nobody(s.next_id, files);
    steps_add_up(s.next_id, files.len());
}

/// Settings take effect, and nothing else does. A new name is advertised, the
/// one there is is not advertised again.
pub proof fn settings_take_effect(s: Acting, on: bool, dir: Place, name: Seq<char>)
    ensures
        s.on_request(Request::SetClipboardSync(on)) == (
            Acting { clipboard_enabled: on, ..s },
            Seq::<Deed>::empty(),
        ),
        s.on_request(Request::SetFileDir(dir)) == (
            Acting { file_dir: dir, ..s },
            Seq::<Deed>::empty(),
        ),
        s.on_request(Request::SetDeviceName(name)).0 == (Acting { device_name: name, ..s }),
        name != s.device_name ==> s.on_request(Request::SetDeviceName(name)).1 == seq![
            Deed::RestartDiscovery { device_name: name },
        ],
        name == s.device_name ==> s.on_request(Request::SetDeviceName(name)).1.len() == 0,
{
}

/// An address where the peer was seen is tried from then on, after those
/// that were known before; one that is known is not noted twice.
pub proof fn hints_become_candidates(s: Acting, ip: Ip)
    ensures
        ({
            let (t, deeds) = s.on_request(Request::AddrHint(ip));
            &&& deeds.len() == 0
            &&& t == (Acting { candidates: t.candidates, ..s })
            &&& s.candidates.contains(ip) ==> t.candidates == s.candidates
            &&& !s.candidates.contains(ip) ==> t.candidates == s.candidates + seq![ip]
        }),
{
    assert(s.candidates + seq![ip] =~= s.candidates.push(ip));
}

/// A window opens with the PIN that is shown to the user, together with the
/// port; an exchange that runs in an earlier one goes on.
pub proof fn windows_open_with_the_pin_shown(s: Acting, pin: Seq<char>, now: u64)
    ensures
        ({
            let (t, deeds) = s.open_window(pin, now);
            &&& deeds == seq![Deed::Report(Event::PairingStarted { pin, port: s.sync_port })]
            &&& t == (Acting {
                pairing: Some((pin, now)),
                pairing_open: true,
                attempt: None,
                late: t.late,
                ..s
            })
            &&& s.attempt is None ==> t.late == s.late
        }),
{
}

/* ---------------------------------- ticks ---------------------------------- */

/// A window is closed by a tick more than two minutes after it opened, and
/// by none before; the user is told once, and an exchange that runs goes on.
pub proof fn windows_close_after_two_minutes(s: Acting, now: u64, trusts_nobody: bool)
    requires
        s.pairing is Some,
    ensures
        ({
            let (t, deeds) = s.on_tick(trusts_nobody, now);
            let opened = (s.pairing->0).1;
            &&& now > opened + 120_000_000_000 ==> {
                &&& t.pairing is None
                &&& t.attempt is None
                &&& t.pairing_open == (s.pairing_open && s.pairing_dial)
                &&& deeds.len() > 0
                &&& deeds[0] == Deed::Report(Event::PairingFailed("pairing window timed out"@))
            }
            &&& now <= opened + 120_000_000_000 ==> {
                &&& t.pairing == s.pairing
                &&& t.attempt == s.attempt
                &&& t.late == s.late
                &&& t.pairing_open == s.pairing_open
                &&& forall|k: int|
                    0 <= k < deeds.len() ==> !((#[trigger] deeds[k]) is Report)
            }
        }),
{
}

/// With no window open a tick reports nothing.
pub proof fn ticks_are_quiet(s: Acting, now: u64, trusts_nobody: bool)
    requires
        s.pairing is None,
    ensures
        forall|k: int|
            0 <= k < s.on_tick(trusts_nobody, now).1.len() ==> !((
            #[trigger] s.on_tick(trusts_nobody, now).1[k]) is Report),
        s.on_tick(trusts_nobody, now).0.pairing is None,
        s.on_tick(trusts_nobody, now).0.attempt == s.attempt,
        s.on_tick(trusts_nobody, now).0.late == s.late,
        s.on_tick(trusts_nobody, now).0.pairing_open == s.pairing_open,
{
}

/// A tick tries a change that is held once, on the connection there is, and
/// dials nobody then.
pub proof fn ticks_send_what_is_held(
    s: Acting,
    c: Conn,
    msg: Msg,
    kind: ClipboardKind,
    now: u64,
    trusts_nobody: bool,
)
    requires
        s.active == Some(c),
        s.pending_clip == Some((msg, kind)),
        s.pairing is None,
    ensures
        s.on_tick(trusts_nobody, now) == (
            Acting { pending_clip: None, ..s },
            seq![Deed::TrySend { conn: c.id, msg, kind }],
        ),
{
    assert(s.on_tick(trusts_nobody, now).1 =~= seq![Deed::TrySend { conn: c.id, msg, kind }]);
}

/// With a connection and nothing held a tick does nothing.
pub proof fn ticks_leave_a_connection_alone(s: Acting, now: u64, trusts_nobody: bool)
    requires
        s.active is Some,
        s.pending_clip is None,
        s.pairing is None,
    ensures
        s.on_tick(trusts_nobody, now) == (s, Seq::<Deed>::empty()),
{
    assert(s.on_tick(trusts_nobody, now).1 =~= Seq::<Deed>::empty());
}

/// Without a connection a tick dials every address that is known, in order,
/// on our port and under our name, as soon as there is one, somebody is
/// trusted, nobody is being dialed and nobody is pairing; what is held stays
/// held.
pub proof fn ticks_dial(s: Acting, now: u64)
    requires
        s.active is None,
        !s.dialing,
        s.candidates.len() > 0,
        !s.pairing_open,
        s.attempt is None,
        s.pairing is None,
    ensures
        ({
            let (t, deeds) = s.on_tick(false, now);
            &&& deeds.len() == 1
            &&& deeds[0] is Dial
            &&& deeds[0]->Dial_candidates == s.candidates
            &&& deeds[0]->Dial_port == s.sync_port
            &&& deeds[0]->Dial_device_name == s.device_name
            &&& deeds[0]->Dial_conn == t.conn_seq
            &&& t.conn_seq != s.conn_seq
            &&& t == (Acting { dialing: true, conn_seq: t.conn_seq, ..s })
        }),
{
    let deeds = s.on_tick(false, now).1;
    assert(deeds =~= seq![
        Deed::Dial {
            conn: next(s.conn_seq),
            candidates: s.candidates,
            port: s.sync_port,
            device_name: s.device_name,
        },
    ]);
}

/// A tick dials nobody where there is a connection, an attempt to get one,
/// nowhere to dial, nobody to trust, or a pairing going on.
pub proof fn ticks_that_do_not_dial(s: Acting, now: u64, trusts_nobody: bool)
    requires
        s.active is Some || s.dialing || s.candidates.len() == 0 || trusts_nobody,
    ensures
        forall|k: int|
            0 <= k < s.on_tick(trusts_nobody, now).1.len() ==> !((
            #[trigger] s.on_tick(trusts_nobody, now).1[k]) is Dial),
        s.on_tick(trusts_nobody, now).0.dialing == s.dialing,
        s.on_tick(trusts_nobody, now).0.conn_seq == s.conn_seq,
{
}

/* ---------------------------------- news ---------------------------------- */

/// The numbers of connections and transfers go up one by one.
pub proof fn numbers_go_up(n: u64)
    ensures
        n < u64::MAX ==> next(n) == n + 1,
        next(u64::MAX) == 0,
        next(n) != n,
{
}

/// The first connection is kept, reported by its name, and given what is
/// held.
pub proof fn first_connections_are_kept(s: Acting, new: Conn)
    requires
        s.active is None,
    ensures
        ({
            let (t, deeds) = s.on_news(
                News::Established {
                    id: new.id,
                    peer_fp: new.peer_fp,
                    peer_name: new.peer_name,
                    outbound: new.outbound,
                },
            );
            &&& t == (Acting { active: Some(new), pending_clip: None, ..s })
            &&& deeds.len() > 0
            &&& deeds[0] == Deed::Report(
                Event::Status { connected: true, peer_name: Some(new.peer_name) },
            )
            &&& s.pending_clip is None ==> deeds.len() == 1
            &&& s.pending_clip is Some ==> deeds.len() == 2 && deeds[1] == (Deed::TrySend {
                conn: new.id,
                msg: (s.pending_clip->0).0,
                kind: (s.pending_clip->0).1,
            })
        }),
{
}

/// Of two connections, one in each direction, the one that the machine with
/// the smaller fingerprint dialed is kept and the other one ended: the new
/// one replaces the old one, or is turned away.
pub proof fn the_smaller_fingerprint_decides(s: Acting, old: Conn, new: Conn, k: int)
    requires
        s.active == Some(old),
        old.peer_fp == new.peer_fp,
        old.outbound != new.outbound,
        s.pending_clip is None,
        0 <= k < encode_utf8(s.local_fp).len(),
        k < encode_utf8(new.peer_fp).len(),
        forall|i: int|
            0 <= i < k ==> encode_utf8(s.local_fp)[i] == encode_utf8(new.peer_fp)[i],
        encode_utf8(s.local_fp)[k] != encode_utf8(new.peer_fp)[k],
    ensures
        ({
            let ours_is_smaller = encode_utf8(s.local_fp)[k] < encode_utf8(new.peer_fp)[k];
            let (t, deeds) = s.on_news(
                News::Established {
                    id: new.id,
                    peer_fp: new.peer_fp,
                    peer_name: new.peer_name,
                    outbound: new.outbound,
                },
            );
            &&& ours_is_smaller == new.outbound ==> {
                &&& t == (Acting { active: Some(new), ..s })
                &&& deeds == seq![
                    Deed::Cancel { conn: old.id },
                    Deed::Report(
                        Event::Status { connected: true, peer_name: Some(new.peer_name) },
                    ),
                ]
            }
            &&& ours_is_smaller != new.outbound ==> t == s && deeds == seq![
                Deed::Cancel { conn: new.id },
            ]
        }),
{
    bytes_are_ordered_by_the_first_difference(
        encode_utf8(s.local_fp),
        encode_utf8(new.peer_fp),
        k,
    );
    if s.keeps(new) {
        assert(s.on_established(new).1 =~= seq![
            Deed::Cancel { conn: old.id },
            Deed::Report(Event::Status { connected: true, peer_name: Some(new.peer_name) }),
        ]);
    }
}

/// The end of the connection is reported; the end of any other one is not.
pub proof fn ends_are_reported(s: Acting, id: u64)
    ensures
        s.active is Some && s.active->0.id == id ==> s.on_news(News::ConnClosed { id }) == (
            Acting { active: None, ..s },
            seq![Deed::Report(Event::Status { connected: false, peer_name: None })],
        ),
        !(s.active is Some && s.active->0.id == id) ==> s.on_news(News::ConnClosed { id }) == (
            s,
            Seq::<Deed>::empty(),
        ),
{
}

/// A dial that is over may be followed by another.
pub proof fn dials_end(s: Acting)
    ensures
        s.on_news(News::DialFinished) == (Acting { dialing: false, ..s }, Seq::<Deed>::empty()),
{
}

/// A pairing that this machine dialed is reported as it was told, ends every
/// window, and gives one more address to try.
pub proof fn our_pairings_are_reported(
    s: Acting,
    conn: u64,
    fingerprint: Seq<char>,
    name: Seq<char>,
    addr: Ip,
)
    ensures
        ({
            let (t, deeds) = s.on_news(
                News::PairingOk { conn, fingerprint, name, addr, initiated: true },
            );
            &&& deeds == seq![
                Deed::Report(
                    Event::PairingComplete { fingerprint, name, addr, initiated: true },
                ),
            ]
            &&& t == (Acting {
                pairing_dial: false,
                pairing: None,
                pairing_open: false,
                attempt: None,
                late: t.late,
                candidates: t.candidates,
                ..s
            })
            &&& s.candidates.contains(addr) ==> t.candidates == s.candidates
            &&& !s.candidates.contains(addr) ==> t.candidates == s.candidates.push(addr)
        }),
{
}

/// A peer that was given the PIN of the open window pairs, and that is
/// reported as it was told.
pub proof fn their_pairings_are_reported(
    s: Acting,
    conn: u64,
    fingerprint: Seq<char>,
    name: Seq<char>,
    addr: Ip,
)
    requires
        s.pairing is Some && s.attempt == Some(conn) || s.late.contains(conn),
    ensures
        ({
            let (t, deeds) = s.on_news(
                News::PairingOk { conn, fingerprint, name, addr, initiated: false },
            );
            &&& deeds == seq![
                Deed::Report(
                    Event::PairingComplete { fingerprint, name, addr, initiated: false },
                ),
            ]
            &&& t == (Acting {
                pairing_dial: false,
                pairing: None,
                pairing_open: false,
                attempt: None,
                late: t.late,
                candidates: t.candidates,
                ..s
            })
            &&& s.candidates.contains(addr) ==> t.candidates == s.candidates
            &&& !s.candidates.contains(addr) ==> t.candidates == s.candidates.push(addr)
        }),
{
}

/// A peer that was given no PIN that still counts does not pair.
pub proof fn others_do_not_pair(
    s: Acting,
    conn: u64,
    fingerprint: Seq<char>,
    name: Seq<char>,
    addr: Ip,
)
    requires
        s.pairing is None || s.attempt != Some(conn),
        !s.late.contains(conn),
    ensures
        s.on_news(News::PairingOk { conn, fingerprint, name, addr, initiated: false }) == (
            s,
            Seq::<Deed>::empty(),
        ),
{
}

/// A pairing of ours that failed is reported with its reason, and lets no
/// more peers in; the window, if one is open, keeps its PIN.
pub proof fn our_failures_are_reported(s: Acting, conn: u64, msg: Seq<char>)
    ensures
        s.on_news(News::PairingErr { conn, msg, initiated: true }) == (
            Acting { pairing_dial: false, pairing_open: false, ..s },
            seq![Deed::Report(Event::PairingFailed(msg))],
        ),
{
}

/// A wrong PIN closes the window it was for and is reported with its reason.
pub proof fn their_failures_close_the_window(s: Acting, conn: u64, msg: Seq<char>)
    requires
        s.pairing is Some,
        s.attempt == Some(conn),
    ensures
        ({
            let (t, deeds) = s.on_news(News::PairingErr { conn, msg, initiated: false });
            &&& deeds == seq![Deed::Report(Event::PairingFailed(msg))]
            &&& t == (Acting {
                pairing: None,
                attempt: None,
                pairing_open: s.pairing_open && s.pairing_dial,
                late: t.late,
                ..s
            })
        }),
{
}

/// What others fail at touches no window of ours.
pub proof fn other_failures_change_little(s: Acting, conn: u64, msg: Seq<char>)
    requires
        s.pairing is None || s.attempt != Some(conn),
        s.attempt != Some(conn),
    ensures
        ({
            let (t, deeds) = s.on_news(News::PairingErr { conn, msg, initiated: false });
            &&& deeds.len() == 0
            &&& t == (Acting { late: t.late, ..s })
        }),
{
}

/// Who may still pair after an exchange is over: everybody who could, but
/// the one it was with.
pub proof fn exchanges_end_one_by_one(ids: Seq<u64>, id: u64, x: u64)
    ensures
        without_id(ids, id).contains(x) <==> ids.contains(x) && x != id,
        with_id(ids, id).contains(x) <==> ids.contains(x) || x == id,
{
    crate::actor::dropped_ids_are_gone(ids, id, x);
    let all = with_id(ids, id);
    if !ids.contains(id) {
        assert(all[ids.len() as int] == id);
        if ids.contains(x) {
            let k = choose|k: int| 0 <= k < ids.len() && ids[k] == x;
            assert(all[k] == x);
        }
        if all.contains(x) {
            let k = choose|k: int| 0 <= k < all.len() && all[k] == x;
            if k < ids.len() {
                assert(ids[k] == x);
            }
        }
    }
}

/// Every connection that comes in gets the next number; nothing else changes
/// unless it is given the PIN.
pub proof fn accepted_connections_are_numbered(s: Acting, pinned: bool)
    ensures
        ({
            let (t, pin) = s.on_accept(pinned);
            &&& t.conn_seq == next(s.conn_seq)
            &&& pin is None ==> t == (Acting { conn_seq: t.conn_seq, ..s })
            &&& pin is Some ==> {
                &&& !pinned && s.pairing is Some && s.attempt is None
                &&& pin->0 == (s.pairing->0).0
                &&& t == (Acting {
                    conn_seq: t.conn_seq,
                    attempt: Some(t.conn_seq),
                    pairing_open: s.pairing_open && s.pairing_dial,
                    ..s
                })
            }
            &&& !pinned && s.pairing is Some && s.attempt is None ==> pin is Some
        }),
{
}

/// A copy goes to the connection there is at once; without one the latest is
/// held.
pub proof fn copies_go_out_or_are_held(s: Acting, msg: Msg, kind: ClipboardKind)
    ensures
        s.active is None ==> s.send_clip(msg, kind) == (
            Acting { pending_clip: Some((msg, kind)), ..s },
            Seq::<Deed>::empty(),
        ),
        s.active is Some ==> s.send_clip(msg, kind) == (
            Acting { pending_clip: None, ..s },
            seq![Deed::TrySend { conn: s.active->0.id, msg, kind }],
        ),
{
}

/* ------------------------------ what goes on ------------------------------ */

/// Exchanges that may still end, with the one that runs in the window.
pub open spec fn with_the_running_one(s: Acting) -> Seq<u64> {
    if s.attempt is Some && !s.late.contains(s.attempt->0) {
        s.late + seq![s.attempt->0]
    } else {
        s.late
    }
}

/// An exchange that runs in a window that is closed by another window, by
/// time or by another pairing goes on; the one that ended does not.
pub proof fn running_exchanges_go_on(
    s: Acting,
    pin: Seq<char>,
    now: u64,
    trusts_nobody: bool,
    conn: u64,
    fingerprint: Seq<char>,
    name: Seq<char>,
    addr: Ip,
)
    ensures
        s.open_window(pin, now).0.late == with_the_running_one(s),
        s.pairing is Some && now > (s.pairing->0).1 + 120_000_000_000 ==> s.on_tick(
            trusts_nobody,
            now,
        ).0.late == with_the_running_one(s),
        s.on_news(
            News::PairingOk { conn, fingerprint, name, addr, initiated: true },
        ).0.late == with_the_running_one(s),
        s.pairing is Some && s.attempt == Some(conn) ==> {
            &&& s.on_news(
                News::PairingOk { conn, fingerprint, name, addr, initiated: false },
            ).0.late == without_id(s.late, conn)
            &&& s.on_news(News::PairingErr { conn, msg: name, initiated: false }).0.late
                == without_id(s.late, conn)
        },
        s.attempt is None ==> {
            &&& s.late.contains(conn) ==> s.on_news(
                News::PairingOk { conn, fingerprint, name, addr, initiated: false },
            ).0.late == without_id(s.late, conn)
            &&& s.on_news(News::PairingErr { conn, msg: name, initiated: false }).0.late
                == without_id(s.late, conn)
        },
{
    if s.attempt is Some {
        assert(s.late + seq![s.attempt->0] =~= s.late.push(s.attempt->0));
    }
}

/// A tick that closes a window says so, and then does what it would have done
/// without one.
pub proof fn expiring_ticks_go_on(s: Acting, trusts_nobody: bool, now: u64)
    requires
        s.pairing is Some,
        now > (s.pairing->0).1 + 120_000_000_000,
    ensures
        ({
            let closed = Acting {
                pairing: None,
                attempt: None,
                late: with_the_running_one(s),
                pairing_open: s.pairing_open && s.pairing_dial,
                ..s
            };
            &&& s.on_tick(trusts_nobody, now).0 == closed.on_tick(trusts_nobody, now).0
            &&& s.on_tick(trusts_nobody, now).1 == seq![
                Deed::Report(Event::PairingFailed("pairing window timed out"@)),
            ] + closed.on_tick(trusts_nobody, now).1
        }),
{
    if s.attempt is Some {
        assert(s.late + seq![s.attempt->0] =~= s.late.push(s.attempt->0));
    }
    let closed = Acting {
        pairing: None,
        attempt: None,
        late: with_the_running_one(s),
        pairing_open: s.pairing_open && s.pairing_dial,
        ..s
    };
    assert(s.outlived().close_window() == closed);
    assert(s.on_tick(trusts_nobody, now).1 =~= seq![
        Deed::Report(Event::PairingFailed("pairing window timed out"@)),
    ] + closed.on_tick(trusts_nobody, now).1);
}

/// A tick within the time of a window does what it would do without one, but
/// for dialing while peers are let in for it.
pub proof fn windows_do_not_disturb_ticks(s: Acting, trusts_nobody: bool, now: u64)
    requires
        s.pairing is Some,
        now <= (s.pairing->0).1 + 120_000_000_000,
    ensures
        ({
            let without = Acting { pairing: None, ..s };
            &&& s.on_tick(trusts_nobody, now).1 == without.on_tick(trusts_nobody, now).1
            &&& s.on_tick(trusts_nobody, now).0 == (Acting {
                pairing: s.pairing,
                ..without.on_tick(trusts_nobody, now).0
            })
        }),
{
    let without = Acting { pairing: None, ..s };
    assert(s.on_tick(trusts_nobody, now).1 =~= without.on_tick(trusts_nobody, now).1);
}

/// Which connection stays, whoever it is to: a new one from the same peer in
/// the same direction does; else a new one does that the machine with the
/// smaller fingerprint dialed, or where the old one was not such.
pub proof fn connections_are_chosen(s: Acting, old: Conn, new: Conn)
    requires
        s.active == Some(old),
    ensures
        ({
            let (t, deeds) = s.on_news(
                News::Established {
                    id: new.id,
                    peer_fp: new.peer_fp,
                    peer_name: new.peer_name,
                    outbound: new.outbound,
                },
            );
            let stays = {
                ||| old.peer_fp == new.peer_fp && old.outbound == new.outbound
                ||| new.outbound == bytes_less(encode_utf8(s.local_fp), encode_utf8(new.peer_fp))
                ||| old.outbound != bytes_less(encode_utf8(s.local_fp), encode_utf8(old.peer_fp))
            };
            &&& !stays ==> t == s && deeds == seq![Deed::Cancel { conn: new.id }]
            &&& stays ==> t == (Acting { active: Some(new), pending_clip: None, ..s })
            &&& stays && s.pending_clip is None ==> deeds == seq![
                Deed::Cancel { conn: old.id },
                Deed::Report(
                    Event::Status { connected: true, peer_name: Some(new.peer_name) },
                ),
            ]
            &&& stays && s.pending_clip is Some ==> deeds == seq![
                Deed::Cancel { conn: old.id },
                Deed::Report(
                    Event::Status { connected: true, peer_name: Some(new.peer_name) },
                ),
                Deed::TrySend {
                    conn: new.id,
                    msg: (s.pending_clip->0).0,
                    kind: (s.pending_clip->0).1,
                },
            ]
        }),
{
    if s.keeps(new) {
        let deeds = s.on_established(new).1;
        let head = seq![
            Deed::Cancel { conn: old.id },
            Deed::Report(Event::Status { connected: true, peer_name: Some(new.peer_name) }),
        ];
        if s.pending_clip is None {
            assert(deeds =~= head);
        } else {
            assert(deeds =~= head.push(
                Deed::TrySend {
                    conn: new.id,
                    msg: (s.pending_clip->0).0,
                    kind: (s.pending_clip->0).1,
                },
            ));
        }
    }
}

/// A change that went is reported as sent, once, and held no longer; one that
/// found no room is held and tried again by the next tick; one that cannot go
/// is given up.
pub proof fn changes_go_are_held_or_lost(
    s: Acting,
    c: Conn,
    msg: Msg,
    kind: ClipboardKind,
    now: u64,
    trusts_nobody: bool,
)
    requires
        s.active == Some(c),
        s.pairing is None,
    ensures
        s.on_clip_sent(kind) == (
            Acting { pending_clip: None, ..s },
            seq![Deed::Report(Event::Clipboard { direction: Direction::Sent, kind })],
        ),
        s.on_clip_sent(kind).0.on_tick(trusts_nobody, now).1.len() == 0,
        s.on_clip_held(msg, kind) == (Acting { pending_clip: Some((msg, kind)), ..s }),
        s.on_clip_held(msg, kind).on_tick(trusts_nobody, now).1 == seq![
            Deed::TrySend { conn: c.id, msg, kind },
        ],
        s.on_clip_lost() == (Acting { pending_clip: None, ..s }),
        s.on_clip_lost().on_tick(trusts_nobody, now).1.len() == 0,
{
    ticks_leave_a_connection_alone(s.on_clip_sent(kind).0, now, trusts_nobody);
    ticks_send_what_is_held(s.on_clip_held(msg, kind), c, msg, kind, now, trusts_nobody);
}

/// Each transfer gets a number of its own, the next one.
pub proof fn transfers_are_numbered(s: Acting)
    ensures
        s.on_numbering().1 == s.next_id,
        s.on_numbering().0.on_numbering().1 != s.on_numbering().1,
        s.next_id < u64::MAX ==> s.on_numbering().0 == (Acting {
            next_id: (s.next_id + 1) as u64,
            ..s
        }),
{
}

/* ---------------------------------- views ---------------------------------- */

/// What a request asks for is what it holds.
pub proof fn requests_say_what_they_hold(
    addr: String,
    pin: String,
    files: Vec<FilePath>,
    on: bool,
    dir: Location,
    name: String,
    ip: Ip,
    k: int,
)
    requires
        0 <= k < files@.len(),
    ensures
        SyncRequest::StartPairing@ == Request::StartPairing,
        (SyncRequest::PairWithPeer { addr, pin })@ == (Request::PairWithPeer {
            addr: addr@,
            pin: pin@,
        }),
        SyncRequest::CancelPairing@ == Request::CancelPairing,
        SyncRequest::SendFiles(files)@ is SendFiles,
        SyncRequest::SendFiles(files)@->SendFiles_0.len() == files@.len(),
        SyncRequest::SendFiles(files)@->SendFiles_0[k].path == files@[k].path@,
        SyncRequest::SendFiles(files)@->SendFiles_0[k].name == files@[k].name@,
        SyncRequest::SetClipboardSync(on)@ == Request::SetClipboardSync(on),
        SyncRequest::SetFileDir(dir)@ == Request::SetFileDir(dir@),
        SyncRequest::SetDeviceName(name)@ == Request::SetDeviceName(name@),
        SyncRequest::AddrHint(ip)@ == Request::AddrHint(ip),
{
}

/// What is told is what was to be told.
pub proof fn news_say_what_they_hold(id: u64, a: String, b: String, addr: Ip, flag: bool)
    ensures
        (Internal::Established { id, peer_fp: a, peer_name: b, outbound: flag })@ == (
        News::Established { id, peer_fp: a@, peer_name: b@, outbound: flag }),
        (Internal::ConnClosed { id })@ == (News::ConnClosed { id }),
        (Internal::PairingOk { conn: id, fingerprint: a, name: b, addr, initiated: flag })@ == (
        News::PairingOk { conn: id, fingerprint: a@, name: b@, addr, initiated: flag }),
        (Internal::PairingErr { conn: id, msg: a, initiated: flag })@ == (News::PairingErr {
            conn: id,
            msg: a@,
            initiated: flag,
        }),
        Internal::DialFinished@ == News::DialFinished,
{
}

/// What an action is is what it holds.
pub proof fn actions_say_what_they_hold(
    conn: u64,
    a: String,
    b: String,
    c: String,
    paths: Vec<String>,
    candidates: Vec<Ip>,
    port: u16,
    msg: SyncMessage,
    kind: ClipboardKind,
    k: int,
)
    requires
        0 <= k < paths@.len(),
    ensures
        (Action::PairDial { conn, addr: a, pin: b, device_name: c })@ == (Deed::PairDial {
            conn,
            addr: a@,
            pin: b@,
            device_name: c@,
        }),
        (Action::SendFiles { conn, paths })@ == (Deed::SendFiles { conn, paths: texts(paths@) }),
        texts(paths@).len() == paths@.len(),
        texts(paths@)[k] == paths@[k]@,
        (Action::RestartDiscovery { device_name: a })@ == (Deed::RestartDiscovery {
            device_name: a@,
        }),
        (Action::Dial { conn, candidates, port, device_name: a })@ == (Deed::Dial {
            conn,
            candidates: candidates@,
            port,
            device_name: a@,
        }),
        (Action::TrySend { conn, msg, kind })@ == (Deed::TrySend { conn, msg: msg@, kind }),
        (Action::Cancel { conn })@ == (Deed::Cancel { conn }),
{
}

/// What the actor knows is what it holds.
pub proof fn actors_say_what_they_hold(a: Actor, c: ActiveConn)
    ensures
        a@.local_fp == a.local_fp@,
        a@.sync_port == a.sync_port,
        a@.device_name == a.device_name@,
        a@.file_dir == a.file_dir@,
        a@.clipboard_enabled == a.clipboard_enabled,
        a@.pairing_open == a.pairing_open,
        a@.pairing is Some <==> a.pairing is Some,
        a.pairing is Some ==> (a@.pairing->0).0 == (a.pairing->0).0@ && (a@.pairing->0).1 == (
        a.pairing->0).1,
        a@.attempt == a.attempt,
        a@.late == a.late@,
        a@.pairing_dial == a.pairing_dial,
        a@.active is Some <==> a.active is Some,
        a.active is Some ==> a@.active->0 == a.active->0@,
        c@ == (Conn {
            id: c.id,
            peer_fp: c.peer_fp@,
            peer_name: c.peer_name@,
            outbound: c.outbound,
        }),
        a@.pending_clip is Some <==> a.pending_clip is Some,
        a.pending_clip is Some ==> (a@.pending_clip->0).0 == (a.pending_clip->0).0@ && (
        a@.pending_clip->0).1 == (a.pending_clip->0).1,
        a@.conn_seq == a.conn_seq,
        a@.next_id == a.next_id,
        a@.candidates == a.candidates@,
        a@.dialing == a.dialing,
{
}

} // verus!
