//! One connection: the greeting, and where each message of the peer goes.

use crate::effects::{Act, Effects};
use crate::event::{Event, SyncEvent};
use crate::inbox::{is_inbound_transfer, Inbox};
use crate::incoming::Incoming;
use crate::ipc::{opt_text, ClipboardKind, Direction};
use crate::names::Location;
use crate::outgoing::{is_open, replied, Outgoing, Slot};
use crate::proto::{Msg, SyncMessage, PROTO_VERSION};
use crate::table::{at, has_key, stored};
use vstd::prelude::*;
use vstd::string::*;

verus! {

/// What both sides say first.
pub fn hello(device_name: &str) -> (r: SyncMessage)
    ensures
        r@ == (Msg::Hello { version: PROTO_VERSION, name: device_name@ }),
{
    SyncMessage::Hello { version: PROTO_VERSION, name: device_name.to_owned() }
}

/// The name in a greeting.
pub open spec fn name_greeted(msg: Msg) -> Option<Seq<char>> {
    match msg {
        Msg::Hello { name, .. } => Some(name),
        _ => None,
    }
}

/// The peer's name, if its first message is a greeting. A peer of another
/// version is greeted all the same; anything else ends the connection.
pub fn greeted(msg: SyncMessage) -> (r: Option<String>)
    ensures
        opt_text(r) == (match msg@ {
            Msg::Hello { name, .. } => Some(name),
            _ => None,
        }),
        opt_text(r) == name_greeted(msg@),
{
    match msg {
        SyncMessage::Hello { name, .. } => Some(name),
        _ => None,
    }
}

/// Where a message of the peer goes.
#[derive(Debug)]
pub enum Route {
    /// nowhere
    Ignore,
    /// answer with this if the queue has room: a peer that floods pings
    /// without reading must not be able to wedge the reader
    Answer(SyncMessage),
    /// on the clipboard
    ApplyText(String),
    ApplyImage(Vec<u8>),
    /// to the inbox
    Inbox(SyncMessage),
    /// to a transfer that we are sending
    Accepted { id: u64 },
    Rejected { id: u64, reason: String },
    Aborted { id: u64, reason: String },
}

/// What a [`Route`] is.
#[verifier::ext_equal]
pub enum Goes {
    Ignore,
    Answer(Msg),
    ApplyText(Seq<char>),
    ApplyImage(Seq<u8>),
    Inbox(Msg),
    Accepted { id: u64 },
    Rejected { id: u64, reason: Seq<char> },
    Aborted { id: u64, reason: Seq<char> },
}

impl View for Route {
    type V = Goes;

    open spec fn view(&self) -> Goes {
        match *self {
            Route::Ignore => Goes::Ignore,
            Route::Answer(msg) => Goes::Answer(msg@),
            Route::ApplyText(text) => Goes::ApplyText(text@),
            Route::ApplyImage(png) => Goes::ApplyImage(png@),
            Route::Inbox(msg) => Goes::Inbox(msg@),
            Route::Accepted { id } => Goes::Accepted { id },
            Route::Rejected { id, reason } => Goes::Rejected { id, reason: reason@ },
            Route::Aborted { id, reason } => Goes::Aborted { id, reason: reason@ },
        }
    }
}

/// Where a message goes. `incoming` says whether a transfer with the id of a
/// `FileCancel`, which either side may send, is coming in here.
pub open spec fn goes(msg: Msg, clipboard_enabled: bool, incoming: bool) -> Goes {
    match msg {
        Msg::Ping => Goes::Answer(Msg::Pong),
        Msg::ClipText { text } => if clipboard_enabled {
            Goes::ApplyText(text)
        } else {
            Goes::Ignore
        },
        Msg::ClipImage { png, .. } => if clipboard_enabled {
            Goes::ApplyImage(png)
        } else {
            Goes::Ignore
        },
        Msg::FileAccept { id } => Goes::Accepted { id },
        Msg::FileReject { id, reason } => Goes::Rejected { id, reason },
        Msg::FileCancel { id, reason } => if incoming {
            Goes::Inbox(msg)
        } else {
            Goes::Aborted { id, reason }
        },
        Msg::FileOffer { .. } => Goes::Inbox(msg),
        Msg::FileChunk { .. } => Goes::Inbox(msg),
        Msg::FileDone { .. } => Goes::Inbox(msg),
        Msg::DragBegin { .. } => Goes::Inbox(msg),
        Msg::DragOffer { .. } => Goes::Inbox(msg),
        Msg::DragDrop { .. } => Goes::Inbox(msg),
        Msg::DragCancel { .. } => Goes::Inbox(msg),
        Msg::TreeOffer { .. } => Goes::Inbox(msg),
        Msg::TreeDir { .. } => Goes::Inbox(msg),
        Msg::TreeFile { .. } => Goes::Inbox(msg),
        Msg::TreeEnd { .. } => Goes::Inbox(msg),
        // greetings and pongs need nothing; pairing messages are only valid
        // on pairing connections
        _ => Goes::Ignore,
    }
}

/// The id that a `FileCancel` is about.
pub fn cancelled_id(msg: &SyncMessage) -> (r: Option<u64>)
    ensures
        r == (match msg@ {
            Msg::FileCancel { id, .. } => Some(id),
            _ => None,
        }),
{
    match msg {
        SyncMessage::FileCancel { id, .. } => Some(*id),
        _ => None,
    }
}

/// Where a message of the peer goes.
pub fn route(msg: SyncMessage, clipboard_enabled: bool, incoming: bool) -> (r: Route)
    ensures
        r@ == goes(msg@, clipboard_enabled, incoming),
{
    match msg {
        SyncMessage::Ping => Route::Answer(SyncMessage::Pong),
        SyncMessage::ClipText { text } => {
            if clipboard_enabled {
                Route::ApplyText(text)
            } else {
                Route::Ignore
            }
        },
        SyncMessage::ClipImage { png, .. } => {
            if clipboard_enabled {
                Route::ApplyImage(png)
            } else {
                Route::Ignore
            }
        },
        SyncMessage::FileAccept { id } => Route::Accepted { id },
        SyncMessage::FileReject { id, reason } => Route::Rejected { id, reason },
        SyncMessage::FileCancel { id, reason } => {
            if incoming {
                Route::Inbox(SyncMessage::FileCancel { id, reason })
            } else {
                Route::Aborted { id, reason }
            }
        },
        other => {
            if is_inbound_transfer(&other) {
                Route::Inbox(other)
            } else {
                Route::Ignore
            }
        },
    }
}

/// What the frontends are told of clipboard content from the peer.
pub fn received_clip(kind: ClipboardKind) -> (r: SyncEvent)
    ensures
        r@ == (Event::Clipboard { direction: Direction::Received, kind }),
{
    SyncEvent::Clipboard { direction: Direction::Received, kind }
}

/* ------------------------------ the connection ------------------------------ */

/// Something for the host to do for a connection.
#[derive(Debug)]
pub enum Turn {
    /// send if the queue has room
    Answer(SyncMessage),
    /// put on the clipboard
    ApplyText(String),
    ApplyImage(Vec<u8>),
    /// tell the frontends
    Report(SyncEvent),
    /// hand the peer's reply to the transfer that waits for it: why it was
    /// rejected, or nothing if it was accepted
    Reply { id: u64, rejected: Option<String> },
    /// tell a transfer that the peer gave up on it
    Abort { id: u64 },
}

/// What a [`Turn`] is.
#[verifier::ext_equal]
pub enum Taken {
    Answer(Msg),
    ApplyText(Seq<char>),
    ApplyImage(Seq<u8>),
    Report(Event),
    Reply { id: u64, rejected: Option<Seq<char>> },
    Abort { id: u64 },
}

impl View for Turn {
    type V = Taken;

    open spec fn view(&self) -> Taken {
        match *self {
            Turn::Answer(msg) => Taken::Answer(msg@),
            Turn::ApplyText(text) => Taken::ApplyText(text@),
            Turn::ApplyImage(png) => Taken::ApplyImage(png@),
            Turn::Report(event) => Taken::Report(event@),
            Turn::Reply { id, rejected } => Taken::Reply { id, rejected: opt_text(rejected) },
            Turn::Abort { id } => Taken::Abort { id },
        }
    }
}

/// What a list of turns is.
pub open spec fn turns(v: Seq<Turn>) -> Seq<Taken> {
    v.map_values(|t: Turn| t@)
}

/// What a message leads to: turns for the connection, and effects that its
/// inbox asks for. Of the two at most one is not empty.
pub struct Reaction {
    pub turns: Vec<Turn>,
    pub effects: Effects,
}

/// What a [`Reaction`] is.
#[verifier::ext_equal]
pub struct Reacted {
    pub turns: Seq<Taken>,
    pub acts: Seq<Act>,
}

impl View for Reaction {
    type V = Reacted;

    open spec fn view(&self) -> Reacted {
        Reacted { turns: turns(self.turns@), acts: self.effects@ }
    }
}

/// What a connection knows of the transfers in both directions.
pub struct Connection {
    pub inbox: Inbox,
    pub outgoing: Outgoing,
}

/// What a [`Connection`] knows.
#[verifier::ext_equal]
pub struct Linked {
    pub inbox: Incoming,
    pub outgoing: Seq<(u64, Slot)>,
}

impl View for Connection {
    type V = Linked;

    open spec fn view(&self) -> Linked {
        Linked { inbox: self.inbox@, outgoing: self.outgoing@ }
    }
}

/// Only turns.
pub open spec fn turned(turns: Seq<Taken>) -> Reacted {
    Reacted { turns, acts: Seq::empty() }
}

impl Linked {
    /// The inbox can take a message.
    pub open spec fn ready(self) -> bool {
        self.inbox.wf() && self.inbox.waiting is Nothing
    }

    /// A message is about a transfer that is coming in.
    pub open spec fn concerns_incoming(self, msg: Msg) -> bool {
        match msg {
            Msg::FileCancel { id, .. } => has_key(self.inbox.recv, id),
            _ => false,
        }
    }

    /// The reply to `id` has come, if it was waited for.
    pub open spec fn on_reply(self, id: u64, rejected: Option<Seq<char>>) -> (Linked, Reacted) {
        (
            Linked { outgoing: replied(self.outgoing, id), ..self },
            turned(
                if is_open(self.outgoing, id) {
                    seq![Taken::Reply { id, rejected }]
                } else {
                    Seq::empty()
                },
            ),
        )
    }

    /// The peer gave up on `id`, if it is being sent.
    pub open spec fn on_abort(self, id: u64, reason: Seq<char>) -> (Linked, Reacted) {
        if has_key(self.outgoing, id) {
            let slot = Slot { abort: Some(reason), ..at(self.outgoing, id) };
            (
                Linked { outgoing: stored(self.outgoing, id, slot), ..self },
                turned(seq![Taken::Abort { id }]),
            )
        } else {
            (self, turned(Seq::empty()))
        }
    }

    /// What a message of the peer leads to.
    pub open spec fn on_message(self, msg: Msg, clipboard_enabled: bool, now: u64) -> (
        Linked,
        Reacted,
    ) {
        match goes(msg, clipboard_enabled, self.concerns_incoming(msg)) {
            Goes::Ignore => (self, turned(Seq::empty())),
            Goes::Answer(answer) => (self, turned(seq![Taken::Answer(answer)])),
            Goes::ApplyText(text) => (
                self,
                turned(seq![Taken::ApplyText(text), got(ClipboardKind::Text)]),
            ),
            Goes::ApplyImage(png) => (
                self,
                turned(seq![Taken::ApplyImage(png), got(ClipboardKind::Image)]),
            ),
            Goes::Inbox(m) => {
                let step = self.inbox.on_message(m, now);
                (
                    Linked { inbox: step.state, ..self },
                    Reacted { turns: Seq::empty(), acts: step.acts },
                )
            },
            Goes::Accepted { id } => self.on_reply(id, None),
            Goes::Rejected { id, reason } => self.on_reply(id, Some(reason)),
            Goes::Aborted { id, reason } => self.on_abort(id, reason),
        }
    }
}

/// The frontends are told of clipboard content from the peer.
pub open spec fn got(kind: ClipboardKind) -> Taken {
    Taken::Report(Event::Clipboard { direction: Direction::Received, kind })
}

impl Connection {
    pub fn new(file_dir: Location, drop_dir: Option<Location>) -> (r: Connection)
        ensures
            r.inbox@ == (Incoming {
                file_dir: file_dir@,
                drop_dir: crate::receive::opt_place(drop_dir),
                recv: Seq::empty(),
                drag: None,
                trees: Seq::empty(),
                waiting: crate::incoming::Wait::Nothing,
            }),
            r.outgoing@ == Seq::<(u64, Slot)>::empty(),
            r@.ready(),
    {
        Connection { inbox: Inbox::new(file_dir, drop_dir), outgoing: Outgoing::new() }
    }

    fn concerns_incoming(&self, msg: &SyncMessage) -> (r: bool)
        ensures
            r == self@.concerns_incoming(msg@),
    {
        match cancelled_id(msg) {
            Some(id) => self.inbox.has_transfer(id),
            None => false,
        }
    }

    /// A message of the peer.
    pub fn handle(&mut self, msg: SyncMessage, clipboard_enabled: bool, now: u64) -> (r: Reaction)
        requires
            old(self)@.ready(),
        ensures
            (final(self)@, r@) == old(self)@.on_message(msg@, clipboard_enabled, now),
            final(self).inbox@.wf(),
    {
        let ghost s0 = self@;
        let ghost m = msg@;
        let incoming = self.concerns_incoming(&msg);
        let mut out: Vec<Turn> = Vec::new();
        let mut effects = Effects::new();
        match route(msg, clipboard_enabled, incoming) {
            Route::Ignore => (),
            Route::Answer(answer) => out.push(Turn::Answer(answer)),
            Route::ApplyText(text) => {
                out.push(Turn::ApplyText(text));
                out.push(Turn::Report(received_clip(ClipboardKind::Text)));
            },
            Route::ApplyImage(png) => {
                out.push(Turn::ApplyImage(png));
                out.push(Turn::Report(received_clip(ClipboardKind::Image)));
            },
            Route::Inbox(inbound) => {
                effects = self.inbox.handle(inbound, now);
            },
            Route::Accepted { id } => {
                if self.outgoing.accepted(id) {
                    out.push(Turn::Reply { id, rejected: None });
                }
            },
            Route::Rejected { id, reason } => {
                if self.outgoing.rejected(id) {
                    out.push(Turn::Reply { id, rejected: Some(reason) });
                }
            },
            Route::Aborted { id, reason } => {
                if self.outgoing.aborted(id, reason) {
                    out.push(Turn::Abort { id });
                }
            },
        }
        let r = Reaction { turns: out, effects };
        proof {
            let want = s0.on_message(m, clipboard_enabled, now).1;
            assert(r@.turns =~= want.turns);
            assert(r@.acts =~= want.acts);
        }
        r
    }
}

/* ---------------------------------- laws ---------------------------------- */

/// Each transfer hears the peer's reply once: a second one goes nowhere.
pub proof fn second_replies_go_nowhere(
    s: Linked,
    id: u64,
    first: Option<Seq<char>>,
    second: Option<Seq<char>>,
)
    ensures
        s.on_reply(id, first).0.on_reply(id, second) == (
            s.on_reply(id, first).0,
            turned(Seq::<Taken>::empty()),
        ),
{
    crate::outgoing::replies_go_through_once(s.outgoing, id);
}

/// A cancelled transfer is the one that the cancellation names: one that
/// comes in here if there is such, else one that is being sent.
pub proof fn cancellations_find_their_transfer(
    s: Linked,
    id: u64,
    reason: Seq<char>,
    clipboard_enabled: bool,
    now: u64,
)
    ensures
        ({
            let msg = Msg::FileCancel { id, reason };
            let (t, r) = s.on_message(msg, clipboard_enabled, now);
            if has_key(s.inbox.recv, id) {
                t.outgoing == s.outgoing && t.inbox == s.inbox.on_message(msg, now).state
            } else {
                t.inbox == s.inbox && (t, r) == s.on_abort(id, reason)
            }
        }),
{
}

/// While clipboard sync is off nothing of the peer reaches the clipboard.
pub proof fn clipboard_sync_can_be_off(msg: Msg, incoming: bool)
    ensures
        !(goes(msg, false, incoming) is ApplyText),
        !(goes(msg, false, incoming) is ApplyImage),
{
}

/// Pairing messages have no effect on an established connection.
pub proof fn pairing_messages_go_nowhere(msg: Msg, clipboard_enabled: bool, incoming: bool)
    requires
        msg is PairStart || msg is PairResponse || msg is PairConfirmA || msg is PairConfirmB,
    ensures
        goes(msg, clipboard_enabled, incoming) is Ignore,
{
}

} // verus!
