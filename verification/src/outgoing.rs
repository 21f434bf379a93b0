//! Sending one file: the offer, the stream of chunks, the hash at the end,
//! and what the peer has to say to it meanwhile.

use crate::digest::{absorbed, hasher_finish, hasher_new, hasher_update, sha256};
use crate::event::{capped, is_due, progress_due};
use crate::ipc::{copy_opt, opt_text};
use crate::proto::{Msg, SyncMessage};
use crate::table::{at, erased, has_key, stored, Table};
use crate::text::{concat2, concat3, decimal, numeral};
use vstd::prelude::*;
use vstd::string::*;

verus! {

/* ------------------------- waiting on the peer ------------------------- */

/// What an outgoing transfer has heard from the peer.
pub struct OutgoingSlot {
    /// the accept/reject reply is still to come
    pub open: bool,
    /// the peer gave up on the transfer, for this reason
    pub abort: Option<String>,
}

/// What is known of an outgoing transfer.
#[verifier::ext_equal]
pub struct Slot {
    pub open: bool,
    pub abort: Option<Seq<char>>,
}

impl View for OutgoingSlot {
    type V = Slot;

    open spec fn view(&self) -> Slot {
        Slot { open: self.open, abort: opt_text(self.abort) }
    }
}

/// Outgoing transfers waiting on the peer, keyed by our transfer id: whether
/// the one accept/reject reply is still to come, and a cancellation that is
/// noted when the peer sends `FileCancel` for a file we are streaming, so
/// that we stop reading and sending instead of pushing the rest into the
/// void.
pub struct Outgoing {
    pub slots: Table<OutgoingSlot>,
}

impl View for Outgoing {
    type V = Seq<(u64, Slot)>;

    open spec fn view(&self) -> Seq<(u64, Slot)> {
        self.slots@
    }
}

/// The transfer `id` still waits for its reply.
pub open spec fn is_open(slots: Seq<(u64, Slot)>, id: u64) -> bool {
    has_key(slots, id) && at(slots, id).open
}

/// The reply to `id` has come.
pub open spec fn replied(slots: Seq<(u64, Slot)>, id: u64) -> Seq<(u64, Slot)> {
    if is_open(slots, id) {
        stored(slots, id, Slot { open: false, ..at(slots, id) })
    } else {
        slots
    }
}

impl Outgoing {
    pub fn new() -> (r: Outgoing)
        ensures
            r@ == Seq::<(u64, Slot)>::empty(),
    {
        Outgoing { slots: Table::new() }
    }

    pub fn register(&mut self, id: u64)
        ensures
            final(self)@ == stored(old(self)@, id, Slot { open: true, abort: None }),
    {
        self.slots.put(id, OutgoingSlot { open: true, abort: None });
    }

    pub fn finished(&mut self, id: u64)
        ensures
            final(self)@ == erased(old(self)@, id),
    {
        let _slot = self.slots.take(id);
    }

    /// The peer accepted `id`. True if that is the reply that was waited
    /// for, and goes to the transfer.
    pub fn accepted(&mut self, id: u64) -> (r: bool)
        ensures
            r == is_open(old(self)@, id),
            final(self)@ == replied(old(self)@, id),
    {
        self.reply(id)
    }

    /// The peer rejected `id`. True if that is the reply that was waited
    /// for, and goes to the transfer.
    pub fn rejected(&mut self, id: u64) -> (r: bool)
        ensures
            r == is_open(old(self)@, id),
            final(self)@ == replied(old(self)@, id),
    {
        self.reply(id)
    }

    fn reply(&mut self, id: u64) -> (r: bool)
        ensures
            r == is_open(old(self)@, id),
            final(self)@ == replied(old(self)@, id),
    {
        let i: usize = self.slots.find(id);
        if i < self.slots.entries.len() && self.slots.entries[i].1.open {
            self.slots.row_mut(i).open = false;
            true
        } else {
            false
        }
    }

    /// the peer gave up on a transfer we are sending
    pub fn aborted(&mut self, id: u64, reason: String) -> (r: bool)
        ensures
            r == has_key(old(self)@, id),
            final(self)@ == (if r {
                stored(old(self)@, id, Slot { abort: Some(reason@), ..at(old(self)@, id) })
            } else {
                old(self)@
            }),
    {
        let i: usize = self.slots.find(id);
        if i < self.slots.entries.len() {
            self.slots.row_mut(i).abort = Some(reason);
            true
        } else {
            false
        }
    }

    /// Why the peer gave up on `id`, if it did.
    pub fn abort_of(&self, id: u64) -> (r: Option<String>)
        ensures
            opt_text(r) == (if has_key(self@, id) {
                at(self@, id).abort
            } else {
                None
            }),
    {
        let i: usize = self.slots.find(id);
        if i < self.slots.entries.len() {
            copy_opt(&self.slots.entries[i].1.abort)
        } else {
            None
        }
    }
}

/// One reply goes to a transfer, and no second one.
pub proof fn replies_go_through_once(slots: Seq<(u64, Slot)>, id: u64)
    ensures
        !is_open(replied(slots, id), id),
{
    if is_open(slots, id) {
        let t = replied(slots, id);
        crate::table::position_finds(slots, id);
        crate::table::position_is(t, id, crate::table::position(slots, id));
    }
}

/* ------------------------------- one file ------------------------------- */

/// how a file is announced to the peer
pub enum Offer {
    /// a standalone file, delivered straight into the receive folder
    Plain,
    /// staged as part of a cross-machine drag
    Drag(u64),
    /// part of a folder, at `rel` inside it
    Tree { tree: u64, rel: String },
}

/// How a file is announced.
#[verifier::ext_equal]
pub enum Announced {
    Plain,
    Drag(u64),
    Tree { tree: u64, rel: Seq<char> },
}

impl View for Offer {
    type V = Announced;

    open spec fn view(&self) -> Announced {
        match *self {
            Offer::Plain => Announced::Plain,
            Offer::Drag(drag) => Announced::Drag(drag),
            Offer::Tree { tree, rel } => Announced::Tree { tree, rel: rel@ },
        }
    }
}

/// How opening a file to send went.
#[derive(Debug)]
pub enum Opened {
    File { size: u64 },
    Directory,
    NoStat { at: String, cause: String },
    NoOpen { at: String, cause: String },
}

/// What happens to a file being sent.
#[derive(Debug)]
pub enum SendEvent {
    Opened(Opened),
    /// a message went into the outbound queue, or the connection is gone
    Delivered(bool),
    Accepted,
    Rejected(String),
    /// the connection went away before the peer replied
    NoReply,
    /// the peer gave up, with its reason if it gave one
    Aborted(Option<String>),
    /// what was read; nothing at the end of the file
    Read(Vec<u8>),
    ReadFailed(String),
}

/// What is to be done for a file being sent.
#[derive(Debug)]
pub enum SendStep {
    /// send, whatever comes of it
    Send(SyncMessage),
    /// send, and say whether it went ([`SendEvent::Delivered`])
    Deliver(SyncMessage),
    /// wait for the peer's reply
    AwaitReply,
    /// read the next chunk
    Read,
    /// the file starts
    Active { size: u64 },
    /// so much has gone
    Progress { offset: u64, size: u64 },
    /// all has gone
    Done { size: u64 },
    /// the file is given up
    Failed { reason: String },
}

/// What an event of [`SendEvent`] says.
#[verifier::ext_equal]
pub enum Heard {
    Opened { size: u64 },
    Directory,
    NoStat { at: Seq<char>, cause: Seq<char> },
    NoOpen { at: Seq<char>, cause: Seq<char> },
    Delivered(bool),
    Accepted,
    Rejected(Seq<char>),
    NoReply,
    Aborted(Option<Seq<char>>),
    Read(Seq<u8>),
    ReadFailed(Seq<char>),
}

/// What a [`SendStep`] is.
#[verifier::ext_equal]
pub enum Move {
    Send(Msg),
    Deliver(Msg),
    AwaitReply,
    Read,
    Active { size: u64 },
    Progress { offset: u64, size: u64 },
    Done { size: u64 },
    Failed { reason: Seq<char> },
}

impl View for SendEvent {
    type V = Heard;

    open spec fn view(&self) -> Heard {
        match *self {
            SendEvent::Opened(Opened::File { size }) => Heard::Opened { size },
            SendEvent::Opened(Opened::Directory) => Heard::Directory,
            SendEvent::Opened(Opened::NoStat { at, cause }) => Heard::NoStat {
                at: at@,
                cause: cause@,
            },
            SendEvent::Opened(Opened::NoOpen { at, cause }) => Heard::NoOpen {
                at: at@,
                cause: cause@,
            },
            SendEvent::Delivered(sent) => Heard::Delivered(sent),
            SendEvent::Accepted => Heard::Accepted,
            SendEvent::Rejected(reason) => Heard::Rejected(reason@),
            SendEvent::NoReply => Heard::NoReply,
            SendEvent::Aborted(reason) => Heard::Aborted(opt_text(reason)),
            SendEvent::Read(data) => Heard::Read(data@),
            SendEvent::ReadFailed(cause) => Heard::ReadFailed(cause@),
        }
    }
}

impl View for SendStep {
    type V = Move;

    open spec fn view(&self) -> Move {
        match *self {
            SendStep::Send(msg) => Move::Send(msg@),
            SendStep::Deliver(msg) => Move::Deliver(msg@),
            SendStep::AwaitReply => Move::AwaitReply,
            SendStep::Read => Move::Read,
            SendStep::Active { size } => Move::Active { size },
            SendStep::Progress { offset, size } => Move::Progress { offset, size },
            SendStep::Done { size } => Move::Done { size },
            SendStep::Failed { reason } => Move::Failed { reason: reason@ },
        }
    }
}

/// What a list of steps is.
pub open spec fn moves(v: Seq<SendStep>) -> Seq<Move> {
    v.map_values(|s: SendStep| s@)
}

/// How far a file being sent has come.
#[derive(Debug, PartialEq, Eq, Structural, Clone, Copy)]
pub enum Stage {
    /// being opened
    Opening,
    /// its offer is being sent
    Offering,
    /// the peer has yet to reply
    Waiting,
    /// the next chunk is being read
    Reading,
    /// a chunk is being sent
    Chunking,
    /// its hash is being sent
    Closing,
    Over,
}

/// A file being sent.
pub struct SendFile {
    pub id: u64,
    pub name: String,
    pub offer: Offer,
    pub size: u64,
    pub offset: u64,
    pub hasher: sha2::Sha256,
    pub last_progress: u64,
    pub stage: Stage,
}

/// What is known of a file being sent.
#[verifier::ext_equal]
pub struct Sending {
    pub id: u64,
    pub name: Seq<char>,
    pub offer: Announced,
    pub size: u64,
    /// how many bytes have been read
    pub offset: u64,
    /// the bytes that have been read
    pub content: Seq<u8>,
    pub last_progress: u64,
    pub stage: Stage,
}

impl View for SendFile {
    type V = Sending;

    open spec fn view(&self) -> Sending {
        Sending {
            id: self.id,
            name: self.name@,
            offer: self.offer@,
            size: self.size,
            offset: self.offset,
            content: absorbed(self.hasher),
            last_progress: self.last_progress,
            stage: self.stage,
        }
    }
}

/// How a file that cannot be looked at is worded.
pub open spec fn open_failure(ev: Heard) -> Seq<char> {
    match ev {
        Heard::NoStat { at, cause } => "cannot stat "@ + at + ": "@ + cause,
        Heard::NoOpen { at, cause } => "cannot open "@ + at + ": "@ + cause,
        // folders go another way; one that comes here meets a peer too old
        _ => "folders need Vylo 1.0.5 or newer on the other machine"@,
    }
}

/// How a file that grew or shrank since its offer is worded.
pub open spec fn changed(offset: u64, size: u64) -> Seq<char> {
    "file changed while sending ("@ + numeral(offset as nat) + " of "@ + numeral(size as nat)
        + " bytes)"@
}

impl Sending {
    /// The count is that of the bytes, as far as a count goes.
    pub open spec fn wf(self) -> bool {
        self.offset == capped(self.content.len() as int, 0)
    }

    pub open spec fn at_stage(self, stage: Stage) -> Sending {
        Sending { stage, ..self }
    }

    /// The message that announces the file.
    pub open spec fn announcement(self, size: u64) -> Msg {
        match self.offer {
            Announced::Plain => Msg::FileOffer { id: self.id, name: self.name, size },
            Announced::Drag(drag) => Msg::DragOffer { drag, id: self.id, name: self.name, size },
            Announced::Tree { tree, rel } => Msg::TreeFile { tree, id: self.id, rel, size },
        }
    }

    /// The file is given up.
    pub open spec fn give_up(self, first: Seq<Move>, reason: Seq<char>) -> (Sending, Seq<Move>) {
        (self.at_stage(Stage::Over), first.push(Move::Failed { reason }))
    }

    /// What happens next to a file being sent. What does not fit the stage
    /// is ignored.
    pub open spec fn on(self, ev: Heard, now: u64) -> (Sending, Seq<Move>) {
        match (self.stage, ev) {
            (Stage::Opening, Heard::Opened { size }) => (
                Sending { size, ..self }.at_stage(Stage::Offering),
                seq![Move::Deliver(self.announcement(size))],
            ),
            (Stage::Opening, Heard::Directory) => self.not_opened(ev),
            (Stage::Opening, Heard::NoStat { .. }) => self.not_opened(ev),
            (Stage::Opening, Heard::NoOpen { .. }) => self.not_opened(ev),
            (Stage::Offering, Heard::Delivered(sent)) => if sent {
                (
                    self.at_stage(Stage::Waiting),
                    seq![Move::Active { size: self.size }, Move::AwaitReply],
                )
            } else {
                self.give_up(Seq::empty(), "connection closed"@)
            },
            (Stage::Waiting, Heard::Accepted) => (
                Sending { last_progress: now, ..self }.at_stage(Stage::Reading),
                seq![Move::Read],
            ),
            (Stage::Waiting, Heard::Rejected(reason)) => self.give_up(
                Seq::empty(),
                "peer rejected: "@ + reason,
            ),
            (Stage::Waiting, Heard::NoReply) => self.give_up(
                Seq::empty(),
                "connection closed"@,
            ),
            (Stage::Waiting, Heard::Aborted(reason)) => self.aborted(reason),
            (Stage::Reading, Heard::Aborted(reason)) => self.aborted(reason),
            (Stage::Chunking, Heard::Aborted(reason)) => self.aborted(reason),
            (Stage::Reading, Heard::ReadFailed(cause)) => self.give_up(
                seq![
                    Move::Send(
                        Msg::FileCancel { id: self.id, reason: "read error: "@ + cause },
                    ),
                ],
                "read error: "@ + cause,
            ),
            (Stage::Reading, Heard::Read(data)) => if data.len() > 0 {
                (
                    Sending {
                        content: self.content + data,
                        offset: capped(self.offset as int, data.len() as int),
                        ..self
                    }.at_stage(Stage::Chunking),
                    seq![
                        Move::Deliver(
                            Msg::FileChunk { id: self.id, offset: self.offset, data },
                        ),
                    ],
                )
            } else if self.offset != self.size {
                let reason = changed(self.offset, self.size);
                self.give_up(
                    seq![Move::Send(Msg::FileCancel { id: self.id, reason })],
                    reason,
                )
            } else {
                (
                    self.at_stage(Stage::Closing),
                    seq![
                        Move::Deliver(
                            Msg::FileDone { id: self.id, sha256: sha256(self.content) },
                        ),
                    ],
                )
            },
            (Stage::Chunking, Heard::Delivered(sent)) => if !sent {
                self.give_up(Seq::empty(), "connection closed"@)
            } else if progress_due(self.last_progress, now) {
                (
                    Sending { last_progress: now, ..self }.at_stage(Stage::Reading),
                    seq![Move::Progress { offset: self.offset, size: self.size }, Move::Read],
                )
            } else {
                (self.at_stage(Stage::Reading), seq![Move::Read])
            },
            (Stage::Closing, Heard::Delivered(sent)) => if sent {
                (self.at_stage(Stage::Over), seq![Move::Done { size: self.size }])
            } else {
                self.give_up(Seq::empty(), "connection closed"@)
            },
            _ => (self, Seq::empty()),
        }
    }

    /// The file cannot be read. A drag announced how many items to expect;
    /// an item that never gets offered would leave the drop waiting forever,
    /// so it is offered anyway and cancelled straight away.
    pub open spec fn not_opened(self, ev: Heard) -> (Sending, Seq<Move>) {
        let reason = open_failure(ev);
        self.give_up(
            if self.offer is Drag {
                seq![
                    Move::Send(self.announcement(0)),
                    Move::Send(Msg::FileCancel { id: self.id, reason }),
                ]
            } else {
                Seq::empty()
            },
            reason,
        )
    }

    /// The peer gave up on the file.
    pub open spec fn aborted(self, reason: Option<Seq<char>>) -> (Sending, Seq<Move>) {
        self.give_up(
            Seq::empty(),
            match reason {
                Some(r) => r,
                None => "cancelled by peer"@,
            },
        )
    }
}

/// The reason of a cancellation.
pub fn abort_reason(reason: &Option<String>) -> (r: String)
    ensures
        r@ == (match opt_text(*reason) {
            Some(r) => r,
            None => "cancelled by peer"@,
        }),
{
    match reason {
        Some(r) => r.clone(),
        None => "cancelled by peer".to_owned(),
    }
}

fn open_failure_text(o: &Opened) -> (r: String)
    requires
        !(o is File),
    ensures
        r@ == open_failure(SendEvent::Opened(*o)@),
{
    match o {
        Opened::NoStat { at, cause } => {
            let head = concat3("cannot stat ", at.as_str(), ": ");
            concat2(head.as_str(), cause.as_str())
        },
        Opened::NoOpen { at, cause } => {
            let head = concat3("cannot open ", at.as_str(), ": ");
            concat2(head.as_str(), cause.as_str())
        },
        _ => "folders need Vylo 1.0.5 or newer on the other machine".to_owned(),
    }
}

fn changed_text(offset: u64, size: u64) -> (r: String)
    ensures
        r@ == changed(offset, size),
{
    let a = decimal(offset);
    let b = decimal(size);
    let head = concat3("file changed while sending (", a.as_str(), " of ");
    concat3(head.as_str(), b.as_str(), " bytes)")
}

fn take(step: SendStep) -> (r: Vec<SendStep>)
    ensures
        moves(r@) == seq![step@],
{
    let mut r: Vec<SendStep> = Vec::new();
    r.push(step);
    assert(moves(r@) =~= seq![step@]);
    r
}

fn take_two(first: SendStep, second: SendStep) -> (r: Vec<SendStep>)
    ensures
        moves(r@) == seq![first@, second@],
{
    let mut r: Vec<SendStep> = Vec::new();
    r.push(first);
    r.push(second);
    assert(moves(r@) =~= seq![first@, second@]);
    r
}

impl SendFile {
    pub fn new(id: u64, name: String, offer: Offer) -> (r: SendFile)
        ensures
            r@ == (Sending {
                id,
                name: name@,
                offer: offer@,
                size: 0,
                offset: 0,
                content: Seq::empty(),
                last_progress: 0,
                stage: Stage::Opening,
            }),
            r@.wf(),
    {
        SendFile {
            id,
            name,
            offer,
            size: 0,
            offset: 0,
            hasher: hasher_new(),
            last_progress: 0,
            stage: Stage::Opening,
        }
    }

    fn announce(&self, size: u64) -> (r: SyncMessage)
        ensures
            r@ == self@.announcement(size),
    {
        let id: u64 = self.id;
        match &self.offer {
            Offer::Plain => SyncMessage::FileOffer { id, name: self.name.clone(), size },
            Offer::Drag(drag) => SyncMessage::DragOffer {
                drag: *drag,
                id,
                name: self.name.clone(),
                size,
            },
            Offer::Tree { tree, rel } => SyncMessage::TreeFile {
                tree: *tree,
                id,
                rel: rel.clone(),
                size,
            },
        }
    }

    fn give_up(&mut self, reason: String) -> (r: Vec<SendStep>)
        ensures
            final(self)@ == old(self)@.give_up(Seq::empty(), reason@).0,
            moves(r@) == old(self)@.give_up(Seq::empty(), reason@).1,
    {
        self.stage = Stage::Over;
        let r = take(SendStep::Failed { reason });
        assert(moves(r@) =~= Seq::<Move>::empty().push(Move::Failed { reason: reason@ }));
        r
    }

    fn cancel(&mut self, reason: String) -> (r: Vec<SendStep>)
        ensures
            (final(self)@, moves(r@)) == old(self)@.give_up(
                seq![Move::Send(Msg::FileCancel { id: old(self)@.id, reason: reason@ })],
                reason@,
            ),
    {
        self.stage = Stage::Over;
        let msg = SyncMessage::FileCancel { id: self.id, reason: reason.clone() };
        let r = take_two(SendStep::Send(msg), SendStep::Failed { reason });
        assert(moves(r@) =~= seq![
            Move::Send(Msg::FileCancel { id: old(self)@.id, reason: reason@ }),
        ].push(Move::Failed { reason: reason@ }));
        r
    }

    fn not_opened(&mut self, o: Opened) -> (r: Vec<SendStep>)
        requires
            !(o is File),
        ensures
            (final(self)@, moves(r@)) == old(self)@.not_opened(SendEvent::Opened(o)@),
    {
        let reason = open_failure_text(&o);
        let is_drag = match &self.offer {
            Offer::Drag(_) => true,
            _ => false,
        };
        if is_drag {
            let mut r: Vec<SendStep> = Vec::new();
            let offer = self.announce(0);
            let msg = SyncMessage::FileCancel { id: self.id, reason: reason.clone() };
            self.stage = Stage::Over;
            r.push(SendStep::Send(offer));
            r.push(SendStep::Send(msg));
            r.push(SendStep::Failed { reason });
            assert(moves(r@) =~= seq![
                Move::Send(old(self)@.announcement(0)),
                Move::Send(Msg::FileCancel { id: old(self)@.id, reason: reason@ }),
            ].push(Move::Failed { reason: reason@ }));
            r
        } else {
            self.give_up(reason)
        }
    }

    /// What happens next to this file. What does not fit the stage is
    /// ignored.
    pub fn handle(&mut self, ev: SendEvent, now: u64) -> (r: Vec<SendStep>)
        requires
            old(self)@.wf(),
        ensures
            final(self)@ == old(self)@.on(ev@, now).0,
            moves(r@) == old(self)@.on(ev@, now).1,
            final(self)@.wf(),
    {
        let stage = self.stage;
        match ev {
            SendEvent::Opened(o) => {
                if stage == Stage::Opening {
                    if let Opened::File { size } = o {
                        let msg = self.announce(size);
                        self.size = size;
                        self.stage = Stage::Offering;
                        return take(SendStep::Deliver(msg));
                    }
                    return self.not_opened(o);
                }
            },
            SendEvent::Delivered(sent) => {
                if stage == Stage::Offering {
                    if sent {
                        self.stage = Stage::Waiting;
                        return take_two(
                            SendStep::Active { size: self.size },
                            SendStep::AwaitReply,
                        );
                    }
                    return self.give_up("connection closed".to_owned());
                } else if stage == Stage::Chunking {
                    if !sent {
                        return self.give_up("connection closed".to_owned());
                    }
                    self.stage = Stage::Reading;
                    if is_due(self.last_progress, now) {
                        self.last_progress = now;
                        return take_two(
                            SendStep::Progress { offset: self.offset, size: self.size },
                            SendStep::Read,
                        );
                    }
                    return take(SendStep::Read);
                } else if stage == Stage::Closing {
                    if sent {
                        self.stage = Stage::Over;
                        return take(SendStep::Done { size: self.size });
                    }
                    return self.give_up("connection closed".to_owned());
                }
            },
            SendEvent::Accepted => {
                if stage == Stage::Waiting {
                    self.last_progress = now;
                    self.stage = Stage::Reading;
                    return take(SendStep::Read);
                }
            },
            SendEvent::Rejected(reason) => {
                if stage == Stage::Waiting {
                    return self.give_up(concat2("peer rejected: ", reason.as_str()));
                }
            },
            SendEvent::NoReply => {
                if stage == Stage::Waiting {
                    return self.give_up("connection closed".to_owned());
                }
            },
            SendEvent::Aborted(reason) => {
                if stage == Stage::Waiting || stage == Stage::Reading || stage == Stage::Chunking {
                    return self.give_up(abort_reason(&reason));
                }
            },
            SendEvent::ReadFailed(cause) => {
                if stage == Stage::Reading {
                    return self.cancel(concat2("read error: ", cause.as_str()));
                }
            },
            SendEvent::Read(data) => {
                if stage == Stage::Reading {
                    if data.len() > 0 {
                        hasher_update(&mut self.hasher, &data);
                        let offset: u64 = self.offset;
                        if data.len() as u64 <= u64::MAX - offset {
                            self.offset = offset + data.len() as u64;
                        } else {
                            self.offset = u64::MAX;
                        }
                        self.stage = Stage::Chunking;
                        return take(
                            SendStep::Deliver(
                                SyncMessage::FileChunk { id: self.id, offset, data },
                            ),
                        );
                    }
                    // a file that grew or shrank since the offer can't verify
                    // on the other end; say so here rather than letting the
                    // peer report a mismatch
                    if self.offset != self.size {
                        return self.cancel(changed_text(self.offset, self.size));
                    }
                    self.stage = Stage::Closing;
                    let hash = hasher_finish(&self.hasher);
                    return take(
                        SendStep::Deliver(SyncMessage::FileDone { id: self.id, sha256: hash }),
                    );
                }
            },
        }
        let none: Vec<SendStep> = Vec::new();
        assert(moves(none@) =~= Seq::<Move>::empty());
        none
    }
}

} // verus!
