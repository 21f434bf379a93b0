//! The sync side-channel as a whole: pairing windows, the one active
//! connection, dialing, and clipboard changes on their way to the peer.
//!
//! The actor decides; the host runs the sockets and tasks. Each call answers
//! with what is to be done, in order.

use crate::clipboard::{change_kind, change_message, Change};
use crate::event::{Event, SyncEvent};
use crate::ipc::{file_row, opt_text, status, ClipboardKind, Direction, Ip, TransferState};
use crate::names::{texts, Location, Place};
use crate::pairing::{generate_pin, pin_of, PINS};
use crate::proto::{Msg, SyncMessage};
use crate::table::{add_id, drop_id, id_in, with_id, without_id};
use crate::text::{bytes_less, bytes_less_is_total, same_text, text_less};
use vstd::prelude::*;
use vstd::string::*;
use vstd::utf8::{encode_utf8, encode_utf8_decode_utf8};

verus! {

/// How long a pairing window stays open, in nanoseconds.
pub const PAIRING_WINDOW: u64 = 120_000_000_000;

/* -------------------------------- requests -------------------------------- */

/// A file to send: where it is, and what it is called.
#[derive(Debug)]
pub struct FilePath {
    pub path: String,
    pub name: String,
}

/// What a [`FilePath`] says.
#[verifier::ext_equal]
pub struct ToSend {
    pub path: Seq<char>,
    pub name: Seq<char>,
}

impl View for FilePath {
    type V = ToSend;

    open spec fn view(&self) -> ToSend {
        ToSend { path: self.path@, name: self.name@ }
    }
}

/// The files of a list.
pub open spec fn to_send(v: Seq<FilePath>) -> Seq<ToSend> {
    v.map_values(|f: FilePath| f@)
}

#[derive(Debug)]
pub enum SyncRequest {
    StartPairing,
    PairWithPeer { addr: String, pin: String },
    CancelPairing,
    SendFiles(Vec<FilePath>),
    SetClipboardSync(bool),
    SetFileDir(Location),
    SetDeviceName(String),
    /// an address the peer was seen at (from the input channel); used as a
    /// dial candidate for the sync connection
    AddrHint(Ip),
}

/// What a [`SyncRequest`] asks for.
#[verifier::ext_equal]
pub enum Request {
    StartPairing,
    PairWithPeer { addr: Seq<char>, pin: Seq<char> },
    CancelPairing,
    SendFiles(Seq<ToSend>),
    SetClipboardSync(bool),
    SetFileDir(Place),
    SetDeviceName(Seq<char>),
    AddrHint(Ip),
}

impl View for SyncRequest {
    type V = Request;

    open spec fn view(&self) -> Request {
        match *self {
            SyncRequest::StartPairing => Request::StartPairing,
            SyncRequest::PairWithPeer { addr, pin } => Request::PairWithPeer {
                addr: addr@,
                pin: pin@,
            },
            SyncRequest::CancelPairing => Request::CancelPairing,
            SyncRequest::SendFiles(paths) => Request::SendFiles(to_send(paths@)),
            SyncRequest::SetClipboardSync(on) => Request::SetClipboardSync(on),
            SyncRequest::SetFileDir(dir) => Request::SetFileDir(dir@),
            SyncRequest::SetDeviceName(name) => Request::SetDeviceName(name@),
            SyncRequest::AddrHint(ip) => Request::AddrHint(ip),
        }
    }
}

/// What the actor's own tasks tell it.
#[derive(Debug)]
pub enum Internal {
    Established { id: u64, peer_fp: String, peer_name: String, outbound: bool },
    ConnClosed { id: u64 },
    /// connection `conn` paired; `initiated` if this machine dialed it
    PairingOk { conn: u64, fingerprint: String, name: String, addr: Ip, initiated: bool },
    PairingErr { conn: u64, msg: String, initiated: bool },
    DialFinished,
}

/// What an [`Internal`] says.
#[verifier::ext_equal]
pub enum News {
    Established { id: u64, peer_fp: Seq<char>, peer_name: Seq<char>, outbound: bool },
    ConnClosed { id: u64 },
    PairingOk {
        conn: u64,
        fingerprint: Seq<char>,
        name: Seq<char>,
        addr: Ip,
        initiated: bool,
    },
    PairingErr { conn: u64, msg: Seq<char>, initiated: bool },
    DialFinished,
}

impl View for Internal {
    type V = News;

    open spec fn view(&self) -> News {
        match *self {
            Internal::Established { id, peer_fp, peer_name, outbound } => News::Established {
                id,
                peer_fp: peer_fp@,
                peer_name: peer_name@,
                outbound,
            },
            Internal::ConnClosed { id } => News::ConnClosed { id },
            Internal::PairingOk { conn, fingerprint, name, addr, initiated } => News::PairingOk {
                conn,
                fingerprint: fingerprint@,
                name: name@,
                addr,
                initiated,
            },
            Internal::PairingErr { conn, msg, initiated } => News::PairingErr {
                conn,
                msg: msg@,
                initiated,
            },
            Internal::DialFinished => News::DialFinished,
        }
    }
}

/* --------------------------------- actions --------------------------------- */

/// Something for the host to do.
#[derive(Debug)]
pub enum Action {
    Report(SyncEvent),
    /// dial `addr` and pair with `pin`
    PairDial { conn: u64, addr: String, pin: String, device_name: String },
    /// hand files to the connection
    SendFiles { conn: u64, paths: Vec<String> },
    /// advertise under another name
    RestartDiscovery { device_name: String },
    /// try these addresses in turn for a connection
    Dial { conn: u64, candidates: Vec<Ip>, port: u16, device_name: String },
    /// put a message into the connection's queue if it has room; answer
    /// [`Actor::clip_sent`], [`Actor::clip_held`] or [`Actor::clip_lost`]
    TrySend { conn: u64, msg: SyncMessage, kind: ClipboardKind },
    /// end a connection
    Cancel { conn: u64 },
}

/// What an [`Action`] is.
#[verifier::ext_equal]
pub enum Deed {
    Report(Event),
    PairDial { conn: u64, addr: Seq<char>, pin: Seq<char>, device_name: Seq<char> },
    SendFiles { conn: u64, paths: Seq<Seq<char>> },
    RestartDiscovery { device_name: Seq<char> },
    Dial { conn: u64, candidates: Seq<Ip>, port: u16, device_name: Seq<char> },
    TrySend { conn: u64, msg: Msg, kind: ClipboardKind },
    Cancel { conn: u64 },
}

impl View for Action {
    type V = Deed;

    open spec fn view(&self) -> Deed {
        match *self {
            Action::Report(event) => Deed::Report(event@),
            Action::PairDial { conn, addr, pin, device_name } => Deed::PairDial {
                conn,
                addr: addr@,
                pin: pin@,
                device_name: device_name@,
            },
            Action::SendFiles { conn, paths } => Deed::SendFiles { conn, paths: texts(paths@) },
            Action::RestartDiscovery { device_name } => Deed::RestartDiscovery {
                device_name: device_name@,
            },
            Action::Dial { conn, candidates, port, device_name } => Deed::Dial {
                conn,
                candidates: candidates@,
                port,
                device_name: device_name@,
            },
            Action::TrySend { conn, msg, kind } => Deed::TrySend { conn, msg: msg@, kind },
            Action::Cancel { conn } => Deed::Cancel { conn },
        }
    }
}

/// Actions in the order in which they are carried out.
pub struct Actions {
    pub list: Vec<Action>,
}

/// What a list of actions is.
pub open spec fn deeds(v: Seq<Action>) -> Seq<Deed> {
    v.map_values(|a: Action| a@)
}

impl View for Actions {
    type V = Seq<Deed>;

    open spec fn view(&self) -> Seq<Deed> {
        deeds(self.list@)
    }
}

impl Actions {
    fn new() -> (r: Actions)
        ensures
            r@ == Seq::<Deed>::empty(),
    {
        let r = Actions { list: Vec::new() };
        assert(r@ =~= Seq::<Deed>::empty());
        r
    }

    fn push(&mut self, a: Action)
        ensures
            final(self)@ == old(self)@.push(a@),
    {
        let ghost before = self.list@;
        let ghost m = a@;
        self.list.push(a);
        assert(deeds(self.list@) =~= deeds(before).push(m));
    }

    fn report(&mut self, event: SyncEvent)
        ensures
            final(self)@ == old(self)@.push(Deed::Report(event@)),
    {
        self.push(Action::Report(event));
    }
}

/* ---------------------------------- state ---------------------------------- */

/// The connection to the peer.
pub struct ActiveConn {
    pub id: u64,
    pub peer_fp: String,
    pub peer_name: String,
    pub outbound: bool,
}

/// What is known of a connection.
#[verifier::ext_equal]
pub struct Conn {
    pub id: u64,
    pub peer_fp: Seq<char>,
    pub peer_name: Seq<char>,
    pub outbound: bool,
}

impl View for ActiveConn {
    type V = Conn;

    open spec fn view(&self) -> Conn {
        Conn {
            id: self.id,
            peer_fp: self.peer_fp@,
            peer_name: self.peer_name@,
            outbound: self.outbound,
        }
    }
}

pub struct Actor {
    pub local_fp: String,
    pub sync_port: u16,
    pub device_name: String,
    pub file_dir: Location,
    pub clipboard_enabled: bool,
    /// peers that are not pinned are let in to pair
    pub pairing_open: bool,
    /// pin of the open pairing window, if any, and when it opened
    pub pairing: Option<(String, u64)>,
    /// the inbound connection that has the PIN of that window: one attempt
    /// is all that a window allows
    pub attempt: Option<u64>,
    /// inbound connections that were given the PIN of an earlier window,
    /// which neither failed nor was cancelled: their exchange may still end
    pub late: Vec<u64>,
    /// true while an outbound pairing attempt is running
    pub pairing_dial: bool,
    pub active: Option<ActiveConn>,
    /// a local clipboard change that couldn't be enqueued yet (queue busy,
    /// e.g. during a file transfer); retried on the next tick so copies made
    /// mid-transfer aren't silently dropped
    pub pending_clip: Option<(SyncMessage, ClipboardKind)>,
    pub conn_seq: u64,
    pub next_id: u64,
    pub candidates: Vec<Ip>,
    pub dialing: bool,
}

/// What an [`Actor`] knows.
#[verifier::ext_equal]
pub struct Acting {
    pub local_fp: Seq<char>,
    pub sync_port: u16,
    pub device_name: Seq<char>,
    pub file_dir: Place,
    pub clipboard_enabled: bool,
    pub pairing_open: bool,
    pub pairing: Option<(Seq<char>, u64)>,
    pub attempt: Option<u64>,
    pub late: Seq<u64>,
    pub pairing_dial: bool,
    pub active: Option<Conn>,
    pub pending_clip: Option<(Msg, ClipboardKind)>,
    pub conn_seq: u64,
    pub next_id: u64,
    pub candidates: Seq<Ip>,
    pub dialing: bool,
}

impl View for Actor {
    type V = Acting;

    open spec fn view(&self) -> Acting {
        Acting {
            local_fp: self.local_fp@,
            sync_port: self.sync_port,
            device_name: self.device_name@,
            file_dir: self.file_dir@,
            clipboard_enabled: self.clipboard_enabled,
            pairing_open: self.pairing_open,
            pairing: match self.pairing {
                Some((pin, opened)) => Some((pin@, opened)),
                None => None,
            },
            attempt: self.attempt,
            late: self.late@,
            pairing_dial: self.pairing_dial,
            active: match self.active {
                Some(c) => Some(c@),
                None => None,
            },
            pending_clip: match self.pending_clip {
                Some((msg, kind)) => Some((msg@, kind)),
                None => None,
            },
            conn_seq: self.conn_seq,
            next_id: self.next_id,
            candidates: self.candidates@,
            dialing: self.dialing,
        }
    }
}

/// The number after `n`; after the last, the first again.
pub open spec fn next(n: u64) -> u64 {
    if n < u64::MAX {
        (n + 1) as u64
    } else {
        0
    }
}

/// The number `k` steps after `n`.
pub open spec fn steps_from(n: u64, k: nat) -> u64
    decreases k,
{
    if k == 0 {
        n
    } else {
        next(steps_from(n, (k - 1) as nat))
    }
}

fn step(n: u64) -> (r: u64)
    ensures
        r == next(n),
{
    if n < u64::MAX {
        n + 1
    } else {
        0
    }
}

/// Addresses with `ip` among them.
pub open spec fn with_ip(s: Seq<Ip>, ip: Ip) -> Seq<Ip> {
    if s.contains(ip) {
        s
    } else {
        s.push(ip)
    }
}

/// Whether `a` comes before `b`.
pub open spec fn fp_less(a: Seq<char>, b: Seq<char>) -> bool {
    bytes_less(encode_utf8(a), encode_utf8(b))
}

/// The row of a file that nobody is there for.
pub open spec fn nobody(id: u64, name: Seq<char>) -> Deed {
    Deed::Report(
        Event::Transfer(
            file_row(
                id,
                name,
                Direction::Sent,
                0,
                0,
                TransferState::Failed,
                Some("no device connected"@),
            ),
        ),
    )
}

/// The rows of files that nobody is there for, numbered from `id` on.
pub open spec fn nobodies(id: u64, files: Seq<ToSend>) -> Seq<Deed>
    decreases files.len(),
{
    if files.len() == 0 {
        Seq::empty()
    } else {
        let rest = files.drop_last();
        nobodies(id, rest).push(nobody(steps_from(id, rest.len()), files.last().name))
    }
}

/// The paths of files.
pub open spec fn paths_of(files: Seq<ToSend>) -> Seq<Seq<char>> {
    files.map_values(|f: ToSend| f.path)
}

impl Acting {
    /// An exchange that runs in the pairing window goes on without it.
    pub open spec fn outlived(self) -> Acting {
        match self.attempt {
            Some(conn) => Acting { attempt: None, late: with_id(self.late, conn), ..self },
            None => self,
        }
    }

    /// The exchange on `conn` is over.
    pub open spec fn without_attempt(self, conn: u64) -> Acting {
        Acting {
            attempt: if self.attempt == Some(conn) {
                None
            } else {
                self.attempt
            },
            late: without_id(self.late, conn),
            ..self
        }
    }

    /// The pairing window opens with `pin`.
    pub open spec fn open_window(self, pin: Seq<char>, now: u64) -> (Acting, Seq<Deed>) {
        (
            Acting { pairing: Some((pin, now)), pairing_open: true, ..self.outlived() },
            seq![Deed::Report(Event::PairingStarted { pin, port: self.sync_port })],
        )
    }

    /// The pairing window closes. While an outbound pairing runs, unpinned
    /// peers stay admitted for it.
    pub open spec fn close_window(self) -> Acting {
        Acting {
            pairing: None,
            attempt: None,
            pairing_open: self.pairing_open && self.pairing_dial,
            ..self
        }
    }

    /// A connection came in, from a peer that is pinned or not. The first
    /// that is not takes the PIN of the pairing window, and closes the door
    /// behind it.
    pub open spec fn on_accept(self, pinned: bool) -> (Acting, Option<Seq<char>>) {
        let conn = next(self.conn_seq);
        let s = Acting { conn_seq: conn, ..self };
        if !pinned && self.pairing is Some && self.attempt is None {
            (
                Acting {
                    attempt: Some(conn),
                    pairing_open: self.pairing_open && self.pairing_dial,
                    ..s
                },
                Some((self.pairing->0).0),
            )
        } else {
            (s, None)
        }
    }

    /// Whether `conn` is the one that has the PIN of the open window.
    pub open spec fn is_attempt(self, conn: u64) -> bool {
        self.pairing is Some && self.attempt == Some(conn)
    }

    /// Whether the peer on `conn` may pair: it was given a PIN that is
    /// neither burned nor cancelled.
    pub open spec fn may_pair(self, conn: u64) -> bool {
        self.is_attempt(conn) || self.late.contains(conn)
    }

    /// What a request leads to, other than opening a pairing window.
    pub open spec fn on_request(self, r: Request) -> (Acting, Seq<Deed>) {
        match r {
            Request::StartPairing => (self, Seq::empty()),
            Request::PairWithPeer { addr, pin } => (
                Acting {
                    pairing_dial: true,
                    pairing_open: true,
                    conn_seq: next(self.conn_seq),
                    ..self
                },
                seq![
                    Deed::PairDial {
                        conn: next(self.conn_seq),
                        addr,
                        pin,
                        device_name: self.device_name,
                    },
                ],
            ),
            Request::CancelPairing => (
                Acting { late: Seq::empty(), ..self.close_window() },
                seq![Deed::Report(Event::PairingFailed("cancelled"@))],
            ),
            Request::SendFiles(files) => match self.active {
                Some(c) => (self, seq![Deed::SendFiles { conn: c.id, paths: paths_of(files) }]),
                None => (
                    Acting { next_id: steps_from(self.next_id, files.len()), ..self },
                    nobodies(self.next_id, files),
                ),
            },
            Request::SetClipboardSync(on) => (
                Acting { clipboard_enabled: on, ..self },
                Seq::empty(),
            ),
            Request::SetFileDir(dir) => (Acting { file_dir: dir, ..self }, Seq::empty()),
            Request::SetDeviceName(name) => if name == self.device_name {
                (self, Seq::empty())
            } else {
                (
                    Acting { device_name: name, ..self },
                    seq![Deed::RestartDiscovery { device_name: name }],
                )
            },
            Request::AddrHint(ip) => (
                Acting { candidates: with_ip(self.candidates, ip), ..self },
                Seq::empty(),
            ),
        }
    }

    /// A clipboard change is on its way. Without a peer the latest one is
    /// held, so that it syncs on connect.
    pub open spec fn send_clip(self, msg: Msg, kind: ClipboardKind) -> (Acting, Seq<Deed>) {
        match self.active {
            None => (Acting { pending_clip: Some((msg, kind)), ..self }, Seq::empty()),
            Some(c) => (
                Acting { pending_clip: None, ..self },
                seq![Deed::TrySend { conn: c.id, msg, kind }],
            ),
        }
    }

    /// A change is in the queue of the connection.
    pub open spec fn on_clip_sent(self, kind: ClipboardKind) -> (Acting, Seq<Deed>) {
        (
            Acting { pending_clip: None, ..self },
            seq![Deed::Report(Event::Clipboard { direction: Direction::Sent, kind })],
        )
    }

    /// The queue was full: the change is held.
    pub open spec fn on_clip_held(self, msg: Msg, kind: ClipboardKind) -> Acting {
        Acting { pending_clip: Some((msg, kind)), ..self }
    }

    /// The change cannot be sent.
    pub open spec fn on_clip_lost(self) -> Acting {
        Acting { pending_clip: None, ..self }
    }

    /// A transfer gets its number.
    pub open spec fn on_numbering(self) -> (Acting, u64) {
        (Acting { next_id: next(self.next_id), ..self }, self.next_id)
    }

    /// A change that is held is tried again, if there is a peer.
    pub open spec fn flush(self) -> (Acting, Seq<Deed>) {
        if self.active is Some && self.pending_clip is Some {
            let (msg, kind) = self.pending_clip->0;
            self.send_clip(msg, kind)
        } else {
            (self, Seq::empty())
        }
    }

    /// Dial, unless there is a connection or an attempt, nowhere to dial,
    /// nobody to trust, or a pairing window open: that keeps the pairing
    /// exchange the only thing touching an as-yet-untrusted peer.
    pub open spec fn maybe_dial(self, trusts_nobody: bool) -> (Acting, Seq<Deed>) {
        if self.active is Some || self.dialing || self.candidates.len() == 0 || trusts_nobody
            || self.pairing_open || self.attempt is Some {
            (self, Seq::empty())
        } else {
            let conn = next(self.conn_seq);
            (
                Acting { dialing: true, conn_seq: conn, ..self },
                seq![
                    Deed::Dial {
                        conn,
                        candidates: self.candidates,
                        port: self.sync_port,
                        device_name: self.device_name,
                    },
                ],
            )
        }
    }

    /// The pairing window has been open for too long.
    pub open spec fn window_expired(self, now: u64) -> bool {
        self.pairing is Some && now - (self.pairing->0).1 > PAIRING_WINDOW
    }

    /// Time has passed.
    pub open spec fn on_tick(self, trusts_nobody: bool, now: u64) -> (Acting, Seq<Deed>) {
        let (s, expired) = if self.window_expired(now) {
            (
                self.outlived().close_window(),
                seq![Deed::Report(Event::PairingFailed("pairing window timed out"@))],
            )
        } else {
            (self, Seq::empty())
        };
        let (s, flushed) = s.flush();
        let (s, dialed) = s.maybe_dial(trusts_nobody);
        (s, expired + flushed + dialed)
    }

    /// Whether this end prefers a connection: it is the one that the machine
    /// with the smaller fingerprint initiated.
    pub open spec fn prefers(self, c: Conn) -> bool {
        c.outbound == fp_less(self.local_fp, c.peer_fp)
    }

    /// Whether a new connection takes the place of the one there is.
    pub open spec fn keeps(self, new: Conn) -> bool {
        match self.active {
            None => true,
            Some(old) => (old.peer_fp == new.peer_fp && old.outbound == new.outbound)
                || self.prefers(new) || !self.prefers(old),
        }
    }

    /// A connection is up.
    pub open spec fn on_established(self, new: Conn) -> (Acting, Seq<Deed>) {
        if self.keeps(new) {
            let cancelled = match self.active {
                Some(old) => seq![Deed::Cancel { conn: old.id }],
                None => Seq::empty(),
            };
            let (s, flushed) = Acting { active: Some(new), ..self }.flush();
            (
                s,
                cancelled + seq![
                    Deed::Report(
                        Event::Status { connected: true, peer_name: Some(new.peer_name) },
                    ),
                ] + flushed,
            )
        } else {
            (self, seq![Deed::Cancel { conn: new.id }])
        }
    }

    /// What the actor's own tasks' news lead to.
    pub open spec fn on_news(self, n: News) -> (Acting, Seq<Deed>) {
        match n {
            News::Established { id, peer_fp, peer_name, outbound } => self.on_established(
                Conn { id, peer_fp, peer_name, outbound },
            ),
            News::ConnClosed { id } => if self.active is Some && self.active->0.id == id {
                (
                    Acting { active: None, ..self },
                    seq![Deed::Report(Event::Status { connected: false, peer_name: None })],
                )
            } else {
                (self, Seq::empty())
            },
            News::PairingOk { conn, fingerprint, name, addr, initiated } => if initiated
                || self.may_pair(conn) {
                let s = if initiated {
                    self
                } else {
                    self.without_attempt(conn)
                };
                (
                    Acting {
                        pairing_dial: false,
                        pairing: None,
                        pairing_open: false,
                        candidates: with_ip(self.candidates, addr),
                        ..s.outlived()
                    },
                    seq![
                        Deed::Report(
                            Event::PairingComplete { fingerprint, name, addr, initiated },
                        ),
                    ],
                )
            } else {
                // that PIN is worth nothing any more
                (self, Seq::empty())
            },
            News::PairingErr { conn, msg, initiated } => if initiated {
                (
                    Acting { pairing_dial: false, pairing_open: false, ..self },
                    seq![Deed::Report(Event::PairingFailed(msg))],
                )
            } else if self.is_attempt(conn) {
                // every guess costs a visible, failed attempt
                (
                    self.without_attempt(conn).close_window(),
                    seq![Deed::Report(Event::PairingFailed(msg))],
                )
            } else {
                (self.without_attempt(conn), Seq::empty())
            },
            News::DialFinished => (Acting { dialing: false, ..self }, Seq::empty()),
        }
    }
}

/// What a connection that was accepted needs to go on: its id, the name to
/// introduce ourselves with, and the PIN of the pairing window if it is the
/// one that may try.
#[derive(Debug)]
pub struct Accepting {
    pub conn: u64,
    pub device_name: String,
    pub pin: Option<String>,
}

impl Actor {
    pub fn new(
        local_fp: String,
        sync_port: u16,
        device_name: String,
        file_dir: Location,
        clipboard_enabled: bool,
    ) -> (r: Actor)
        ensures
            r@ == (Acting {
                local_fp: local_fp@,
                sync_port,
                device_name: device_name@,
                file_dir: file_dir@,
                clipboard_enabled,
                pairing_open: false,
                pairing: None,
                attempt: None,
                late: Seq::empty(),
                pairing_dial: false,
                active: None,
                pending_clip: None,
                conn_seq: 0,
                next_id: 1,
                candidates: Seq::empty(),
                dialing: false,
            }),
    {
        Actor {
            local_fp,
            sync_port,
            device_name,
            file_dir,
            clipboard_enabled,
            pairing_open: false,
            pairing: None,
            attempt: None,
            late: Vec::new(),
            pairing_dial: false,
            active: None,
            pending_clip: None,
            conn_seq: 0,
            next_id: 1,
            candidates: Vec::new(),
            dialing: false,
        }
    }

    /// A fresh transfer id.
    pub fn next_transfer_id(&mut self) -> (r: u64)
        ensures
            r == old(self)@.next_id,
            final(self)@ == (Acting { next_id: next(r), ..old(self)@ }),
            (final(self)@, r) == old(self)@.on_numbering(),
    {
        let id: u64 = self.next_id;
        self.next_id = step(id);
        id
    }

    fn add_candidate(&mut self, ip: Ip)
        ensures
            final(self)@ == (Acting {
                candidates: with_ip(old(self)@.candidates, ip),
                ..old(self)@
            }),
    {
        let mut i: usize = 0;
        while i < self.candidates.len()
            invariant
                i <= self.candidates@.len(),
                *self == *old(self),
                forall|k: int| 0 <= k < i ==> self.candidates@[k] != ip,
            decreases self.candidates@.len() - i,
        {
            if self.candidates[i] == ip {
                return;
            }
            i = i + 1;
        }
        self.candidates.push(ip);
    }

    fn outlive(&mut self)
        ensures
            final(self)@ == old(self)@.outlived(),
    {
        if let Some(conn) = self.attempt {
            self.attempt = None;
            add_id(&mut self.late, conn);
        }
    }

    fn end_attempt(&mut self, conn: u64)
        ensures
            final(self)@ == old(self)@.without_attempt(conn),
    {
        let ours = match self.attempt {
            Some(id) => id == conn,
            None => false,
        };
        if ours {
            self.attempt = None;
        }
        drop_id(&mut self.late, conn);
    }

    /// The pairing window opens with `pin`.
    pub fn open_pairing_window(&mut self, pin: String, now: u64) -> (r: Actions)
        ensures
            (final(self)@, r@) == old(self)@.open_window(pin@, now),
    {
        let mut out = Actions::new();
        self.outlive();
        self.pairing = Some((pin.clone(), now));
        self.pairing_open = true;
        out.report(SyncEvent::PairingStarted { pin, port: self.sync_port });
        assert(out@ =~= old(self)@.open_window(pin@, now).1);
        out
    }

    fn close_pairing_window(&mut self)
        ensures
            final(self)@ == old(self)@.close_window(),
    {
        self.pairing = None;
        self.attempt = None;
        if !self.pairing_dial {
            self.pairing_open = false;
        }
    }

    /// A request. To open a pairing window a fresh PIN is drawn.
    pub fn handle_request(&mut self, request: SyncRequest, now: u64) -> (r: Actions)
        ensures
            request is StartPairing ==> exists|n: int|
                0 <= n < PINS && (final(self)@, r@) == old(self)@.open_window(
                    #[trigger] pin_of(n),
                    now,
                ),
            !(request is StartPairing) ==> (final(self)@, r@) == old(self)@.on_request(request@),
    {
        let mut out = Actions::new();
        match request {
            SyncRequest::StartPairing => {
                let pin = generate_pin();
                return self.open_pairing_window(pin, now);
            },
            SyncRequest::PairWithPeer { addr, pin } => {
                self.pairing_dial = true;
                self.pairing_open = true;
                self.conn_seq = step(self.conn_seq);
                out.push(
                    Action::PairDial {
                        conn: self.conn_seq,
                        addr,
                        pin,
                        device_name: self.device_name.clone(),
                    },
                );
            },
            SyncRequest::CancelPairing => {
                self.close_pairing_window();
                self.late = Vec::new();
                out.report(SyncEvent::PairingFailed("cancelled".to_owned()));
            },
            SyncRequest::SendFiles(files) => {
                if let Some(c) = &self.active {
                    let conn: u64 = c.id;
                    let paths = file_paths(&files);
                    out.push(Action::SendFiles { conn, paths });
                } else {
                    self.nobody_there(&files, &mut out);
                }
            },
            SyncRequest::SetClipboardSync(on) => {
                self.clipboard_enabled = on;
            },
            SyncRequest::SetFileDir(dir) => {
                self.file_dir = dir;
            },
            SyncRequest::SetDeviceName(name) => {
                if !same_text(name.as_str(), self.device_name.as_str()) {
                    self.device_name = name.clone();
                    out.push(Action::RestartDiscovery { device_name: name });
                }
            },
            SyncRequest::AddrHint(ip) => {
                self.add_candidate(ip);
            },
        }
        assert(out@ =~= old(self)@.on_request(request@).1);
        out
    }

    fn nobody_there(&mut self, files: &Vec<FilePath>, out: &mut Actions)
        requires
            old(out)@.len() == 0,
        ensures
            final(self)@ == (Acting {
                next_id: steps_from(old(self)@.next_id, files@.len()),
                ..old(self)@
            }),
            final(out)@ == nobodies(old(self)@.next_id, to_send(files@)),
    {
        let ghost s0 = self@;
        let ghost all = to_send(files@);
        let mut i: usize = 0;
        proof {
            assert(all.take(0) =~= Seq::<ToSend>::empty());
            assert(out@ =~= nobodies(s0.next_id, all.take(0)));
        }
        while i < files.len()
            invariant
                i <= files@.len(),
                all == to_send(files@),
                self@ == (Acting { next_id: steps_from(s0.next_id, i as nat), ..s0 }),
                out@ == nobodies(s0.next_id, all.take(i as int)),
            decreases files@.len() - i,
        {
            proof {
                assert(all.take(i + 1).drop_last() =~= all.take(i as int));
                assert(all.take(i + 1).last() == all[i as int]);
                assert(all[i as int] == files@[i as int]@);
            }
            let id: u64 = self.next_transfer_id();
            let row = status(
                id,
                files[i].name.as_str(),
                Direction::Sent,
                0,
                0,
                TransferState::Failed,
                Some("no device connected".to_owned()),
            );
            out.report(SyncEvent::Transfer(row));
            i = i + 1;
        }
        assert(all.take(i as int) =~= all);
        assert(all.len() == files@.len());
    }

    fn send_clip(&mut self, msg: SyncMessage, kind: ClipboardKind, out: &mut Actions)
        ensures
            final(self)@ == old(self)@.send_clip(msg@, kind).0,
            final(out)@ == old(out)@ + old(self)@.send_clip(msg@, kind).1,
    {
        if let Some(c) = &self.active {
            let conn: u64 = c.id;
            self.pending_clip = None;
            out.push(Action::TrySend { conn, msg, kind });
        } else {
            // no peer yet: hold the latest change so it syncs on connect
            self.pending_clip = Some((msg, kind));
        }
    }

    fn flush_pending_clip(&mut self, out: &mut Actions)
        ensures
            final(self)@ == old(self)@.flush().0,
            final(out)@ == old(out)@ + old(self)@.flush().1,
    {
        if self.active.is_some() {
            if let Some((msg, kind)) = self.pending_clip.take() {
                self.send_clip(msg, kind, out);
            }
        }
    }

    /// A local clipboard change to forward to the peer.
    pub fn handle_clip_change(&mut self, change: Change) -> (r: Actions)
        ensures
            (final(self)@, r@) == old(self)@.send_clip(
                change_message(change@),
                change_kind(change@),
            ),
    {
        let mut out = Actions::new();
        let (msg, kind) = change.into_message();
        self.send_clip(msg, kind, &mut out);
        assert(out@ =~= old(self)@.send_clip(change_message(change@), change_kind(change@)).1);
        out
    }

    /// The message of [`Action::TrySend`] is in the queue.
    pub fn clip_sent(&mut self, kind: ClipboardKind) -> (r: Actions)
        ensures
            final(self)@ == (Acting { pending_clip: None, ..old(self)@ }),
            r@ == seq![Deed::Report(Event::Clipboard { direction: Direction::Sent, kind })],
            (final(self)@, r@) == old(self)@.on_clip_sent(kind),
    {
        let mut out = Actions::new();
        self.pending_clip = None;
        out.report(SyncEvent::Clipboard { direction: Direction::Sent, kind });
        assert(out@ =~= seq![
            Deed::Report(Event::Clipboard { direction: Direction::Sent, kind }),
        ]);
        out
    }

    /// The queue of [`Action::TrySend`] was full: the message is kept and
    /// tried again on the next tick.
    pub fn clip_held(&mut self, msg: SyncMessage, kind: ClipboardKind)
        ensures
            final(self)@ == (Acting { pending_clip: Some((msg@, kind)), ..old(self)@ }),
            final(self)@ == old(self)@.on_clip_held(msg@, kind),
    {
        self.pending_clip = Some((msg, kind));
    }

    /// The message of [`Action::TrySend`] cannot be sent: its connection is
    /// gone, or it is too large.
    pub fn clip_lost(&mut self)
        ensures
            final(self)@ == old(self)@.on_clip_lost(),
            final(self)@ == (Acting { pending_clip: None, ..old(self)@ }),
    {
        self.pending_clip = None;
    }

    fn maybe_dial(&mut self, trusts_nobody: bool, out: &mut Actions)
        ensures
            final(self)@ == old(self)@.maybe_dial(trusts_nobody).0,
            final(out)@ == old(out)@ + old(self)@.maybe_dial(trusts_nobody).1,
    {
        if self.active.is_some() || self.dialing || self.candidates.len() == 0 {
            return;
        }
        if trusts_nobody {
            return;
        }
        if self.pairing_open || self.attempt.is_some() {
            return;
        }
        self.dialing = true;
        self.conn_seq = step(self.conn_seq);
        let candidates = crate::discovery::copy_addrs(&self.candidates);
        out.push(
            Action::Dial {
                conn: self.conn_seq,
                candidates,
                port: self.sync_port,
                device_name: self.device_name.clone(),
            },
        );
    }

    /// Time has passed; `trusts_nobody` says that the allowlist is empty.
    pub fn tick(&mut self, trusts_nobody: bool, now: u64) -> (r: Actions)
        ensures
            (final(self)@, r@) == old(self)@.on_tick(trusts_nobody, now),
    {
        let mut out = Actions::new();
        let expired = match &self.pairing {
            Some((_, opened)) => now >= *opened && now - *opened > PAIRING_WINDOW,
            None => false,
        };
        if expired {
            self.outlive();
            self.close_pairing_window();
            out.report(SyncEvent::PairingFailed("pairing window timed out".to_owned()));
        }
        self.flush_pending_clip(&mut out);
        self.maybe_dial(trusts_nobody, &mut out);
        assert(out@ =~= old(self)@.on_tick(trusts_nobody, now).1);
        out
    }

    /// A connection came in, from a peer that is pinned or not. The PIN of
    /// the pairing window goes to one that is not, once.
    pub fn accept(&mut self, pinned: bool) -> (r: Accepting)
        ensures
            (final(self)@, opt_text(r.pin)) == old(self)@.on_accept(pinned),
            r.conn == next(old(self)@.conn_seq),
            r.device_name@ == old(self)@.device_name,
    {
        self.conn_seq = step(self.conn_seq);
        let mut pin: Option<String> = None;
        if !pinned && self.attempt.is_none() {
            if let Some((shown, _)) = &self.pairing {
                pin = Some(shown.clone());
            }
        }
        if pin.is_some() {
            self.attempt = Some(self.conn_seq);
            if !self.pairing_dial {
                self.pairing_open = false;
            }
        }
        Accepting { conn: self.conn_seq, device_name: self.device_name.clone(), pin }
    }

    fn is_attempt(&self, conn: u64) -> (r: bool)
        ensures
            r == self@.is_attempt(conn),
    {
        match self.attempt {
            Some(id) => self.pairing.is_some() && id == conn,
            None => false,
        }
    }

    fn prefers(&self, c: &ActiveConn) -> (r: bool)
        ensures
            r == self@.prefers(c@),
    {
        c.outbound == text_less(self.local_fp.as_str(), c.peer_fp.as_str())
    }

    fn keeps(&self, new: &ActiveConn) -> (r: bool)
        ensures
            r == self@.keeps(new@),
    {
        match &self.active {
            None => true,
            Some(old) => {
                // the same peer dialed, or was dialed, once more
                if same_text(old.peer_fp.as_str(), new.peer_fp.as_str()) && old.outbound
                    == new.outbound {
                    return true;
                }
                // Both machines may connect to each other at once. Keep the
                // connection initiated by the machine with the smaller
                // fingerprint: deterministic on both ends, so both settle on
                // the same stream.
                self.prefers(new) || !self.prefers(old)
            },
        }
    }

    /// News from the actor's own tasks.
    pub fn handle_internal(&mut self, internal: Internal) -> (r: Actions)
        ensures
            (final(self)@, r@) == old(self)@.on_news(internal@),
    {
        let mut out = Actions::new();
        match internal {
            Internal::Established { id, peer_fp, peer_name, outbound } => {
                let new = ActiveConn { id, peer_fp, peer_name, outbound };
                if self.keeps(&new) {
                    if let Some(old) = &self.active {
                        out.push(Action::Cancel { conn: old.id });
                    }
                    out.report(
                        SyncEvent::Status {
                            connected: true,
                            peer_name: Some(new.peer_name.clone()),
                        },
                    );
                    self.active = Some(new);
                    self.flush_pending_clip(&mut out);
                } else {
                    out.push(Action::Cancel { conn: id });
                }
            },
            Internal::ConnClosed { id } => {
                let ours = match &self.active {
                    Some(c) => c.id == id,
                    None => false,
                };
                if ours {
                    self.active = None;
                    out.report(SyncEvent::Status { connected: false, peer_name: None });
                }
            },
            Internal::PairingOk { conn, fingerprint, name, addr, initiated } => {
                if initiated || self.is_attempt(conn) || id_in(&self.late, conn) {
                    self.pairing_dial = false;
                    if !initiated {
                        self.end_attempt(conn);
                    }
                    self.outlive();
                    self.close_pairing_window();
                    self.pairing_open = false;
                    self.add_candidate(addr);
                    out.report(
                        SyncEvent::PairingComplete { fingerprint, name, addr, initiated },
                    );
                }
            },
            Internal::PairingErr { conn, msg, initiated } => {
                if initiated {
                    // our own outbound pairing attempt failed
                    self.pairing_dial = false;
                    self.pairing_open = false;
                    out.report(SyncEvent::PairingFailed(msg));
                } else if self.is_attempt(conn) {
                    // The inbound attempt failed the PIN. That burns the
                    // window: every guess costs a visible, failed attempt.
                    self.end_attempt(conn);
                    self.close_pairing_window();
                    out.report(SyncEvent::PairingFailed(msg));
                } else {
                    self.end_attempt(conn);
                }
            },
            Internal::DialFinished => {
                self.dialing = false;
            },
        }
        assert(out@ =~= old(self)@.on_news(internal@).1);
        out
    }
}

fn file_paths(files: &Vec<FilePath>) -> (r: Vec<String>)
    ensures
        texts(r@) == paths_of(to_send(files@)),
{
    let mut r: Vec<String> = Vec::new();
    let mut i: usize = 0;
    while i < files.len()
        invariant
            i <= files@.len(),
            r@.len() == i,
            forall|k: int| 0 <= k < i ==> r@[k]@ == files@[k].path@,
        decreases files@.len() - i,
    {
        r.push(files[i].path.clone());
        i = i + 1;
    }
    assert(texts(r@) =~= paths_of(to_send(files@)));
    r
}

/* ---------------------------------- laws ---------------------------------- */

/// When two machines connect to each other at once, both settle on the same
/// stream: of the one that the first dialed and the one that the second
/// dialed, both prefer the same.
pub proof fn both_ends_settle_on_one_stream(
    a: Acting,
    b: Acting,
    by_a_at_a: Conn,
    by_a_at_b: Conn,
    by_b_at_a: Conn,
    by_b_at_b: Conn,
)
    requires
        a.local_fp != b.local_fp,
        by_a_at_a.outbound && by_a_at_a.peer_fp == b.local_fp,
        !by_a_at_b.outbound && by_a_at_b.peer_fp == a.local_fp,
        !by_b_at_a.outbound && by_b_at_a.peer_fp == b.local_fp,
        by_b_at_b.outbound && by_b_at_b.peer_fp == a.local_fp,
    ensures
        a.prefers(by_a_at_a) == b.prefers(by_a_at_b),
        a.prefers(by_b_at_a) == b.prefers(by_b_at_b),
        a.prefers(by_a_at_a) != a.prefers(by_b_at_a),
        // whichever comes second at either end
        (Acting { active: Some(by_a_at_a), ..a }).keeps(by_b_at_a) == a.prefers(by_b_at_a),
        (Acting { active: Some(by_b_at_a), ..a }).keeps(by_a_at_a) == a.prefers(by_a_at_a),
        (Acting { active: Some(by_a_at_b), ..b }).keeps(by_b_at_b) == a.prefers(by_b_at_a),
        (Acting { active: Some(by_b_at_b), ..b }).keeps(by_a_at_b) == a.prefers(by_a_at_a),
{
    encode_utf8_decode_utf8(a.local_fp);
    encode_utf8_decode_utf8(b.local_fp);
    bytes_less_is_total(encode_utf8(a.local_fp), encode_utf8(b.local_fp));
}

/// A peer that dials once more replaces the connection it had.
pub proof fn redials_replace(s: Acting, old: Conn, new: Conn)
    requires
        s.active == Some(old),
        old.peer_fp == new.peer_fp,
        old.outbound == new.outbound,
    ensures
        s.on_established(new).0.active == Some(new),
        s.on_established(new).1.contains(Deed::Cancel { conn: old.id }),
{
    let acts = s.on_established(new).1;
    assert(acts[0] == Deed::Cancel { conn: old.id });
}

/// A connection that is not kept is ended, and so is one that is replaced:
/// there is at most one.
pub proof fn the_other_connection_is_ended(s: Acting, new: Conn)
    ensures
        s.keeps(new) ==> s.on_established(new).0.active == Some(new),
        !s.keeps(new) ==> s.on_established(new) == (s, seq![Deed::Cancel { conn: new.id }]),
{
}

/// Unpinned peers are let in only for a reason: a pairing window, or a
/// pairing that this machine dialed.
pub open spec fn open_for_a_reason(s: Acting) -> bool {
    s.pairing_open ==> s.pairing is Some || s.pairing_dial
}

/// Whatever happens, unpinned peers are let in only for a reason.
pub proof fn windows_open_for_a_reason(
    s: Acting,
    pin: Seq<char>,
    r: Request,
    n: News,
    trusts_nobody: bool,
    now: u64,
)
    requires
        open_for_a_reason(s),
    ensures
        open_for_a_reason(s.open_window(pin, now).0),
        open_for_a_reason(s.on_request(r).0),
        open_for_a_reason(s.on_news(n).0),
        open_for_a_reason(s.on_accept(false).0),
        open_for_a_reason(s.on_accept(true).0),
        open_for_a_reason(s.on_tick(trusts_nobody, now).0),
{
}

pub(crate) proof fn dropped_ids_are_gone(ids: Seq<u64>, id: u64, x: u64)
    ensures
        without_id(ids, id).contains(x) <==> ids.contains(x) && x != id,
    decreases ids.len(),
{
    reveal(Seq::filter);
    if ids.len() > 0 {
        let front = ids.drop_last();
        let kept = without_id(front, id);
        let all = without_id(ids, id);
        dropped_ids_are_gone(front, id, x);
        if ids.contains(x) {
            let k = choose|k: int| 0 <= k < ids.len() && ids[k] == x;
            if k < front.len() {
                assert(front[k] == x);
            }
        }
        if front.contains(x) {
            let k = choose|k: int| 0 <= k < front.len() && front[k] == x;
            assert(ids[k] == x);
        }
        if kept.contains(x) {
            let k = choose|k: int| 0 <= k < kept.len() && kept[k] == x;
            assert(all[k] == x);
        }
        if all.contains(x) && !kept.contains(x) {
            let k = choose|k: int| 0 <= k < all.len() && all[k] == x;
            if k < kept.len() {
                assert(kept[k] == x);
            }
        }
        if ids.last() != id {
            assert(all[kept.len() as int] == ids.last());
        }
        assert(ids[ids.len() - 1] == ids.last());
    }
}

/// A wrong PIN burns the pairing window: it closes, the user is told, and
/// the one who tried may not pair.
pub proof fn wrong_pins_burn_the_window(s: Acting, conn: u64, msg: Seq<char>)
    requires
        s.is_attempt(conn),
    ensures
        ({
            let (t, deeds) = s.on_news(News::PairingErr { conn, msg, initiated: false });
            &&& t.pairing is None
            &&& !t.may_pair(conn)
            &&& !s.pairing_dial ==> !t.pairing_open
            &&& deeds == seq![Deed::Report(Event::PairingFailed(msg))]
        }),
{
    dropped_ids_are_gone(s.late, conn, conn);
}

/// A wrong PIN is the end of an exchange that outlived its window too; the
/// user was told of that window before, and a later one is not touched.
pub proof fn late_failures_end_quietly(s: Acting, conn: u64, msg: Seq<char>)
    requires
        !s.is_attempt(conn),
        s.pairing is None ==> s.attempt is None,
    ensures
        ({
            let (t, deeds) = s.on_news(News::PairingErr { conn, msg, initiated: false });
            !t.may_pair(conn) && t.pairing == s.pairing && t.attempt == s.attempt && deeds.len()
                == 0
        }),
{
    dropped_ids_are_gone(s.late, conn, conn);
}

/// Nobody pairs with a PIN that was burned or cancelled; nor does anybody
/// who was not given one.
pub proof fn burned_pins_pair_nobody(
    s: Acting,
    conn: u64,
    fingerprint: Seq<char>,
    name: Seq<char>,
    addr: Ip,
)
    ensures
        !s.may_pair(conn) ==> s.on_news(
            News::PairingOk { conn, fingerprint, name, addr, initiated: false },
        ) == (s, Seq::<Deed>::empty()),
{
}

/// After the user cancels nobody may pair, whoever was about to.
pub proof fn cancelling_ends_every_attempt(s: Acting, conn: u64)
    ensures
        !s.on_request(Request::CancelPairing).0.may_pair(conn),
{
}

/// An exchange that began in time may end after its window timed out, or
/// after another one was opened: both sides then agree that they paired.
pub proof fn exchanges_outlive_their_window(
    s: Acting,
    conn: u64,
    pin: Seq<char>,
    trusts_nobody: bool,
    now: u64,
)
    requires
        s.may_pair(conn),
    ensures
        s.on_tick(trusts_nobody, now).0.may_pair(conn),
        s.open_window(pin, now).0.may_pair(conn),
{
    let late = s.outlived().late;
    if s.attempt is Some {
        let all = with_id(s.late, s.attempt->0);
        if !s.late.contains(s.attempt->0) {
            assert(all[s.late.len() as int] == s.attempt->0);
        }
        if s.late.contains(conn) {
            let k = choose|k: int| 0 <= k < s.late.len() && s.late[k] == conn;
            assert(all[k] == conn);
        }
        assert(late.contains(conn));
    }
}

/// A connection is given the PIN only if its peer is not pinned and a window
/// is open, and then no other one in that window is, nor are more unpinned
/// peers let in for it.
pub proof fn windows_allow_one_attempt(s: Acting, pinned: bool, later: bool)
    ensures
        s.on_accept(pinned).1 is Some <==> !pinned && s.pairing is Some && s.attempt is None,
        s.on_accept(pinned).1 is Some ==> {
            let t = s.on_accept(pinned).0;
            &&& s.on_accept(pinned).1 == Some((s.pairing->0).0)
            &&& t.is_attempt(next(s.conn_seq))
            &&& t.on_accept(later).1 is None
            &&& !s.pairing_dial ==> !t.pairing_open
        },
{
}

/// One thing that happens to the actor, other than that the user opens a
/// pairing window.
pub enum Happening {
    Asked(Request),
    Heard(News),
    Ticked { trusts_nobody: bool, now: u64 },
    Accepted { pinned: bool },
    Copied { msg: Msg, kind: ClipboardKind },
}

impl Acting {
    /// What something that happens leads to.
    pub open spec fn after(self, h: Happening) -> (Acting, Seq<Deed>) {
        match h {
            Happening::Asked(r) => self.on_request(r),
            Happening::Heard(n) => self.on_news(n),
            Happening::Ticked { trusts_nobody, now } => self.on_tick(trusts_nobody, now),
            Happening::Accepted { pinned } => (self.on_accept(pinned).0, Seq::empty()),
            Happening::Copied { msg, kind } => self.send_clip(msg, kind),
        }
    }

    /// The state after a run of such things.
    pub open spec fn after_all(self, run: Seq<Happening>) -> Acting
        decreases run.len(),
    {
        if run.len() == 0 {
            self
        } else {
            self.after_all(run.drop_last()).after(run.last()).0
        }
    }
}

/// The peer that dialed this machine has paired.
pub open spec fn pairs_inbound(d: Deed) -> bool {
    d matches Deed::Report(Event::PairingComplete { initiated: false, .. })
}

/// Once a window is closed it stays closed until the user opens another one:
/// until then no connection is given a PIN, and of the peers that dial this
/// machine only one whose exchange outlived its window pairs.
pub proof fn closed_windows_stay_closed(s: Acting, run: Seq<Happening>)
    requires
        s.pairing is None,
        s.attempt is None,
    ensures
        s.after_all(run).pairing is None,
        s.after_all(run).attempt is None,
        forall|conn: u64| #[trigger] s.after_all(run).may_pair(conn) ==> s.may_pair(conn),
        run.len() > 0 && (run.last() matches Happening::Accepted { pinned }) ==> s.after_all(
            run.drop_last(),
        ).on_accept(run.last()->pinned).1 is None,
        run.len() > 0 ==> forall|k: int|
            0 <= k < s.after_all(run.drop_last()).after(run.last()).1.len() && pairs_inbound(
                #[trigger] s.after_all(run.drop_last()).after(run.last()).1[k],
            ) ==> run.last() is Heard && run.last()->Heard_0 is PairingOk && s.may_pair(
                run.last()->Heard_0->PairingOk_conn,
            ),
    decreases run.len(),
{
    if run.len() > 0 {
        closed_windows_stay_closed(s, run.drop_last());
        let t = s.after_all(run.drop_last());
        closed_windows_give_nothing(t, run.last());
        assert forall|conn: u64| #[trigger] s.after_all(run).may_pair(conn) implies s.may_pair(
            conn,
        ) by {
            assert(t.after(run.last()).0.may_pair(conn));
            assert(t.may_pair(conn));
        }
    }
}

proof fn closed_windows_give_nothing(t: Acting, h: Happening)
    requires
        t.pairing is None,
        t.attempt is None,
    ensures
        t.after(h).0.pairing is None,
        t.after(h).0.attempt is None,
        forall|conn: u64| #[trigger] t.after(h).0.may_pair(conn) ==> t.may_pair(conn),
        forall|k: int|
            0 <= k < t.after(h).1.len() && pairs_inbound(#[trigger] t.after(h).1[k]) ==> h is Heard
                && h->Heard_0 is PairingOk && t.may_pair(h->Heard_0->PairingOk_conn),
{
    match h {
        Happening::Asked(Request::SendFiles(files)) => {
            nobodies_are_rows(t.next_id, files);
        },
        Happening::Heard(News::PairingOk { conn, .. }) => {
            assert forall|x: u64| #[trigger] t.after(h).0.may_pair(x) implies t.may_pair(x) by {
                dropped_ids_are_gone(t.late, conn, x);
            }
        },
        Happening::Heard(News::PairingErr { conn, .. }) => {
            assert forall|x: u64| #[trigger] t.after(h).0.may_pair(x) implies t.may_pair(x) by {
                dropped_ids_are_gone(t.late, conn, x);
            }
        },
        _ => {},
    }
}

proof fn nobodies_are_rows(id: u64, files: Seq<ToSend>)
    ensures
        forall|k: int|
            0 <= k < nobodies(id, files).len() ==> !pairs_inbound(#[trigger] nobodies(id, files)[k]),
    decreases files.len(),
{
    if files.len() > 0 {
        nobodies_are_rows(id, files.drop_last());
        let rest = nobodies(id, files.drop_last());
        assert forall|k: int| 0 <= k < nobodies(id, files).len() implies !pairs_inbound(
            #[trigger] nobodies(id, files)[k],
        ) by {
            if k < rest.len() {
                assert(nobodies(id, files)[k] == rest[k]);
            }
        }
    }
}

/// While a window stays open, the connection that was given its PIN stays
/// the only one that was.
pub proof fn attempts_last_as_long_as_the_window(s: Acting, h: Happening)
    requires
        s.attempt is Some,
    ensures
        s.after(h).0.pairing is Some ==> s.after(h).0.attempt == s.attempt,
        h is Accepted ==> s.on_accept(h->pinned).1 is None,
{
}

/// A pairing window that nobody used closes by itself.
pub proof fn windows_expire(s: Acting, opened: u64, now: u64, trusts_nobody: bool)
    requires
        s.pairing is Some,
        (s.pairing->0).1 == opened,
    ensures
        now - opened > PAIRING_WINDOW ==> s.on_tick(trusts_nobody, now).0.pairing is None,
        now - opened <= PAIRING_WINDOW ==> s.on_tick(trusts_nobody, now).0.pairing == s.pairing,
{
}

/// A PIN is held only while its window is open.
pub open spec fn attempts_in_windows(s: Acting) -> bool {
    s.attempt is Some ==> s.pairing is Some
}

/// Whatever happens, the PIN of a window is held only while it is open.
pub proof fn attempts_need_a_window(s: Acting, pin: Seq<char>, now: u64, h: Happening)
    requires
        attempts_in_windows(s),
    ensures
        attempts_in_windows(s.open_window(pin, now).0),
        attempts_in_windows(s.after(h).0),
{
}

/// A completed pairing closes the window, whoever started it.
pub proof fn pairings_close_the_window(
    s: Acting,
    conn: u64,
    fingerprint: Seq<char>,
    name: Seq<char>,
    addr: Ip,
    initiated: bool,
)
    requires
        initiated || s.may_pair(conn),
    ensures
        ({
            let t = s.on_news(News::PairingOk { conn, fingerprint, name, addr, initiated }).0;
            t.pairing is None && !t.pairing_open && !t.pairing_dial && t.candidates.contains(addr)
        }),
{
    if !s.candidates.contains(addr) {
        let t = with_ip(s.candidates, addr);
        assert(t[s.candidates.len() as int] == addr);
    }
}

/// A copy made while there is no peer is not lost: the latest one goes out
/// as soon as there is a connection.
pub proof fn copies_wait_for_a_peer(s: Acting, msg: Msg, kind: ClipboardKind, new: Conn)
    requires
        s.active is None,
    ensures
        ({
            let held = s.send_clip(msg, kind).0;
            let (t, deeds) = held.on_established(new);
            &&& deeds.contains(Deed::TrySend { conn: new.id, msg, kind })
            &&& t.pending_clip is None
        }),
{
    let held = s.send_clip(msg, kind).0;
    let (t, deeds) = held.on_established(new);
    assert(deeds[1] == (Deed::TrySend { conn: new.id, msg, kind }));
}

/// A copy made while the queue is busy is tried again on the next tick.
pub proof fn busy_copies_are_tried_again(
    s: Acting,
    msg: Msg,
    kind: ClipboardKind,
    trusts_nobody: bool,
    now: u64,
)
    requires
        s.active is Some,
        s.pending_clip == Some((msg, kind)),
    ensures
        s.on_tick(trusts_nobody, now).1.contains(
            Deed::TrySend { conn: s.active->0.id, msg, kind },
        ),
{
    let want = Deed::TrySend { conn: s.active->0.id, msg, kind };
    let deeds = s.on_tick(trusts_nobody, now).1;
    if s.window_expired(now) {
        assert(deeds[1] == want);
    } else {
        assert(deeds[0] == want);
    }
}

/// No ordinary connection is dialed while unpinned peers are let in, or one
/// of them is pairing.
pub proof fn pairing_stops_dialing(s: Acting, trusts_nobody: bool)
    requires
        s.pairing_open || s.attempt is Some,
    ensures
        s.maybe_dial(trusts_nobody) == (s, Seq::<Deed>::empty()),
{
}

} // verus!
