//! What a file being sent goes through, what a connection makes of each
//! message, and what is made of advertisements, one situation at a time.

use crate::actor::Action;
use crate::connection::{
    goes, name_greeted, Connection, Goes, Linked, Reacted, Route, Taken, Turn,
};
use crate::digest::{absorbed, sha256};
use crate::discovery::{before_mark, hex_digits, place_of, without_end, Known, Peers, FP_DIGITS};
use crate::effects::Effect;
use crate::event::Event;
use crate::ipc::{ClipboardKind, Direction, Ip, Peer};
use crate::outgoing::{
    open_failure, Announced, Heard, Move, Offer, Opened, OutgoingSlot, SendEvent, SendFile,
    SendStep, Sending, Slot, Stage,
};
use crate::proto::{Msg, SyncMessage, PROTO_VERSION};
use crate::send_tree::TreeStep;
use crate::table::{at, has_key, stored};
use crate::text::numeral;
use vstd::prelude::*;
use vstd::string::*;

verus! {

/* --------------------------------- one file --------------------------------- */

/// A file that could be opened is announced with its size: on its own, for
/// its drag, or for its folder with its path.
pub proof fn opened_files_are_announced(s: Sending, size: u64, now: u64)
    requires
        s.stage == Stage::Opening,
    ensures
        s.on(Heard::Opened { size }, now).0 == (Sending { size, stage: Stage::Offering, ..s }),
        s.offer is Plain ==> s.on(Heard::Opened { size }, now).1 == seq![
            Move::Deliver(Msg::FileOffer { id: s.id, name: s.name, size }),
        ],
        s.offer is Drag ==> s.on(Heard::Opened { size }, now).1 == seq![
            Move::Deliver(
                Msg::DragOffer { drag: s.offer->Drag_0, id: s.id, name: s.name, size },
            ),
        ],
        s.offer is Tree ==> s.on(Heard::Opened { size }, now).1 == seq![
            Move::Deliver(
                Msg::TreeFile {
                    tree: s.offer->Tree_tree,
                    id: s.id,
                    rel: s.offer->Tree_rel,
                    size,
                },
            ),
        ],
{
}

/// A file that cannot be opened is given up with the reason. One that belongs
/// to a drag is announced all the same, and cancelled.
pub proof fn unopened_files_are_given_up(
    s: Sending,
    place: Seq<char>,
    cause: Seq<char>,
    now: u64,
)
    requires
        s.stage == Stage::Opening,
    ensures
        given_up(
            s,
            s.on(Heard::NoStat { at: place, cause }, now),
            "cannot stat "@ + place + ": "@ + cause,
        ),
        given_up(
            s,
            s.on(Heard::NoOpen { at: place, cause }, now),
            "cannot open "@ + place + ": "@ + cause,
        ),
        given_up(
            s,
            s.on(Heard::Directory, now),
            "folders need Vylo 1.0.5 or newer on the other machine"@,
        ),
{
    giving_up_is_told(s, Heard::NoStat { at: place, cause });
    giving_up_is_told(s, Heard::NoOpen { at: place, cause });
    giving_up_is_told(s, Heard::Directory);
}

proof fn giving_up_is_told(s: Sending, ev: Heard)
    ensures
        given_up(s, s.not_opened(ev), open_failure(ev)),
{
    let r = s.not_opened(ev);
    let reason = open_failure(ev);
    if s.offer is Drag {
        assert(r.1 =~= seq![
            Move::Send(
                Msg::DragOffer { drag: s.offer->Drag_0, id: s.id, name: s.name, size: 0 },
            ),
            Move::Send(Msg::FileCancel { id: s.id, reason }),
            Move::Failed { reason },
        ]);
    } else {
        assert(r.1 =~= seq![Move::Failed { reason }]);
    }
}

/// The file is over, for this reason; a drag hears of it.
pub open spec fn given_up(s: Sending, r: (Sending, Seq<Move>), reason: Seq<char>) -> bool {
    &&& r.0 == (Sending { stage: Stage::Over, ..s })
    &&& s.offer is Drag ==> r.1 == seq![
        Move::Send(
            Msg::DragOffer { drag: s.offer->Drag_0, id: s.id, name: s.name, size: 0 },
        ),
        Move::Send(Msg::FileCancel { id: s.id, reason }),
        Move::Failed { reason },
    ]
    &&& !(s.offer is Drag) ==> r.1 == seq![Move::Failed { reason }]
}

/// Once announced a file is active, and its reply is waited for.
pub proof fn announced_files_wait(s: Sending, now: u64)
    requires
        s.stage == Stage::Offering,
    ensures
        s.on(Heard::Delivered(true), now) == (
            Sending { stage: Stage::Waiting, ..s },
            seq![Move::Active { size: s.size }, Move::AwaitReply],
        ),
        s.on(Heard::Delivered(false), now) == (
            Sending { stage: Stage::Over, ..s },
            seq![Move::Failed { reason: "connection closed"@ }],
        ),
{
}

/// An accepted file is read; a rejected one is given up with the reason of
/// the peer.
pub proof fn replies_are_heeded(s: Sending, reason: Seq<char>, now: u64)
    requires
        s.stage == Stage::Waiting,
    ensures
        s.on(Heard::Accepted, now) == (
            Sending { stage: Stage::Reading, last_progress: now, ..s },
            seq![Move::Read],
        ),
        s.on(Heard::Rejected(reason), now) == (
            Sending { stage: Stage::Over, ..s },
            seq![Move::Failed { reason: "peer rejected: "@ + reason }],
        ),
        s.on(Heard::NoReply, now) == (
            Sending { stage: Stage::Over, ..s },
            seq![Move::Failed { reason: "connection closed"@ }],
        ),
{
}

/// A file that the peer gives up on is given up, with its reason if it gave
/// one, while it is waited for, read or sent.
pub proof fn aborts_are_heeded(s: Sending, reason: Seq<char>, now: u64)
    requires
        s.stage == Stage::Waiting || s.stage == Stage::Reading || s.stage == Stage::Chunking,
    ensures
        s.on(Heard::Aborted(Some(reason)), now) == (
            Sending { stage: Stage::Over, ..s },
            seq![Move::Failed { reason }],
        ),
        s.on(Heard::Aborted(None), now) == (
            Sending { stage: Stage::Over, ..s },
            seq![Move::Failed { reason: "cancelled by peer"@ }],
        ),
{
}

/// What is read is sent as it is, from where the last chunk ended.
pub proof fn read_bytes_are_sent(s: Sending, data: Seq<u8>, now: u64)
    requires
        s.stage == Stage::Reading,
        data.len() > 0,
        s.offset + data.len() <= u64::MAX,
    ensures
        s.on(Heard::Read(data), now) == (
            Sending {
                stage: Stage::Chunking,
                content: s.content + data,
                offset: (s.offset + data.len()) as u64,
                ..s
            },
            seq![Move::Deliver(Msg::FileChunk { id: s.id, offset: s.offset, data })],
        ),
{
}

/// At the end of the file its hash is sent, if it is as long as was announced;
/// else the peer is told, and the file is given up.
pub proof fn read_files_are_closed(s: Sending, now: u64)
    requires
        s.stage == Stage::Reading,
    ensures
        s.offset == s.size ==> s.on(Heard::Read(Seq::empty()), now) == (
            Sending { stage: Stage::Closing, ..s },
            seq![Move::Deliver(Msg::FileDone { id: s.id, sha256: sha256(s.content) })],
        ),
        s.offset != s.size ==> ({
            let reason = "file changed while sending ("@ + numeral(s.offset as nat) + " of "@
                + numeral(s.size as nat) + " bytes)"@;
            s.on(Heard::Read(Seq::empty()), now) == (
                Sending { stage: Stage::Over, ..s },
                seq![
                    Move::Send(Msg::FileCancel { id: s.id, reason }),
                    Move::Failed { reason },
                ],
            )
        }),
{
}

/// A file that cannot be read to its end is given up, and the peer is told.
pub proof fn unread_files_are_given_up(s: Sending, cause: Seq<char>, now: u64)
    requires
        s.stage == Stage::Reading,
    ensures
        ({
            let reason = "read error: "@ + cause;
            s.on(Heard::ReadFailed(cause), now) == (
                Sending { stage: Stage::Over, ..s },
                seq![
                    Move::Send(Msg::FileCancel { id: s.id, reason }),
                    Move::Failed { reason },
                ],
            )
        }),
{
}

/// A chunk that has gone is followed by the next; every quarter of a second
/// that is shown.
pub proof fn sent_chunks_are_followed(s: Sending, now: u64)
    requires
        s.stage == Stage::Chunking,
    ensures
        now < s.last_progress + 250_000_000 ==> s.on(Heard::Delivered(true), now) == (
            Sending { stage: Stage::Reading, ..s },
            seq![Move::Read],
        ),
        now >= s.last_progress + 250_000_000 ==> s.on(Heard::Delivered(true), now) == (
            Sending { stage: Stage::Reading, last_progress: now, ..s },
            seq![Move::Progress { offset: s.offset, size: s.size }, Move::Read],
        ),
        s.on(Heard::Delivered(false), now) == (
            Sending { stage: Stage::Over, ..s },
            seq![Move::Failed { reason: "connection closed"@ }],
        ),
{
}

/// A file whose hash has gone is done.
pub proof fn closed_files_are_done(s: Sending, now: u64)
    requires
        s.stage == Stage::Closing,
    ensures
        s.on(Heard::Delivered(true), now) == (
            Sending { stage: Stage::Over, ..s },
            seq![Move::Done { size: s.size }],
        ),
        s.on(Heard::Delivered(false), now) == (
            Sending { stage: Stage::Over, ..s },
            seq![Move::Failed { reason: "connection closed"@ }],
        ),
{
}

/// A file that is over stays so; and nothing is read, replied to or delivered
/// that was not asked for.
pub proof fn nothing_else_happens(s: Sending, ev: Heard, now: u64)
    requires
        ({
            ||| s.stage == Stage::Over
            ||| s.stage != Stage::Reading && (ev is Read || ev is ReadFailed)
            ||| s.stage != Stage::Waiting && (ev is Accepted || ev is Rejected || ev is NoReply)
            ||| s.stage != Stage::Opening && (ev is Opened || ev is Directory || ev is NoStat
                || ev is NoOpen)
            ||| (s.stage == Stage::Opening || s.stage == Stage::Waiting || s.stage
                == Stage::Reading) && ev is Delivered
            ||| (s.stage == Stage::Opening || s.stage == Stage::Offering || s.stage
                == Stage::Closing) && ev is Aborted
        }),
    ensures
        s.on(ev, now) == (s, Seq::<Move>::empty()),
{
}

/* -------------------------------- connections -------------------------------- */

/// Pings are answered, and change nothing.
pub proof fn pings_are_answered(s: Linked, on: bool, now: u64)
    ensures
        s.on_message(Msg::Ping, on, now) == (
            s,
            Reacted { turns: seq![Taken::Answer(Msg::Pong)], acts: Seq::empty() },
        ),
{
}

/// What the peer copied goes on the clipboard as it came, and is reported as
/// received; while sync is off it goes nowhere.
pub proof fn copies_are_applied(
    s: Linked,
    text: Seq<char>,
    width: u32,
    height: u32,
    png: Seq<u8>,
    now: u64,
)
    ensures
        s.on_message(Msg::ClipText { text }, true, now) == (
            s,
            Reacted {
                turns: seq![
                    Taken::ApplyText(text),
                    Taken::Report(
                        Event::Clipboard {
                            direction: Direction::Received,
                            kind: ClipboardKind::Text,
                        },
                    ),
                ],
                acts: Seq::empty(),
            },
        ),
        s.on_message(Msg::ClipImage { width, height, png }, true, now) == (
            s,
            Reacted {
                turns: seq![
                    Taken::ApplyImage(png),
                    Taken::Report(
                        Event::Clipboard {
                            direction: Direction::Received,
                            kind: ClipboardKind::Image,
                        },
                    ),
                ],
                acts: Seq::empty(),
            },
        ),
        s.on_message(Msg::ClipText { text }, false, now) == (
            s,
            Reacted { turns: Seq::empty(), acts: Seq::empty() },
        ),
        s.on_message(Msg::ClipImage { width, height, png }, false, now) == (
            s,
            Reacted { turns: Seq::empty(), acts: Seq::empty() },
        ),
{
}

/// A reply goes to the transfer that waits for it: accepted, or rejected with
/// the peer's reason; and to no other.
pub proof fn replies_reach_their_transfer(
    s: Linked,
    id: u64,
    reason: Seq<char>,
    on: bool,
    now: u64,
)
    ensures
        ({
            let waited = has_key(s.outgoing, id) && at(s.outgoing, id).open;
            let t = if waited {
                Linked {
                    outgoing: stored(
                        s.outgoing,
                        id,
                        Slot { open: false, abort: at(s.outgoing, id).abort },
                    ),
                    ..s
                }
            } else {
                s
            };
            &&& s.on_message(Msg::FileAccept { id }, on, now) == (
                t,
                Reacted {
                    turns: if waited {
                        seq![Taken::Reply { id, rejected: None }]
                    } else {
                        Seq::empty()
                    },
                    acts: Seq::empty(),
                },
            )
            &&& s.on_message(Msg::FileReject { id, reason }, on, now) == (
                t,
                Reacted {
                    turns: if waited {
                        seq![Taken::Reply { id, rejected: Some(reason) }]
                    } else {
                        Seq::empty()
                    },
                    acts: Seq::empty(),
                },
            )
        }),
{
}

/// A cancellation of a file that is not coming in goes to the one that is
/// being sent, with its reason, or nowhere.
pub proof fn cancellations_reach_their_transfer(
    s: Linked,
    id: u64,
    reason: Seq<char>,
    on: bool,
    now: u64,
)
    requires
        !has_key(s.inbox.recv, id),
    ensures
        has_key(s.outgoing, id) ==> s.on_message(Msg::FileCancel { id, reason }, on, now) == (
            Linked {
                outgoing: stored(
                    s.outgoing,
                    id,
                    Slot { open: at(s.outgoing, id).open, abort: Some(reason) },
                ),
                ..s
            },
            Reacted { turns: seq![Taken::Abort { id }], acts: Seq::empty() },
        ),
        !has_key(s.outgoing, id) ==> s.on_message(Msg::FileCancel { id, reason }, on, now) == (
            s,
            Reacted { turns: Seq::empty(), acts: Seq::empty() },
        ),
{
}

/// What is offered, sent, ended or dropped goes to the inbox as it came, and
/// leaves what is being sent alone.
pub proof fn transfers_reach_the_inbox(s: Linked, msg: Msg, on: bool, now: u64)
    requires
        ({
            ||| msg is FileOffer || msg is FileChunk || msg is FileDone
            ||| msg is DragBegin || msg is DragOffer || msg is DragDrop || msg is DragCancel
            ||| msg is TreeOffer || msg is TreeDir || msg is TreeFile || msg is TreeEnd
            ||| msg is FileCancel && has_key(s.inbox.recv, msg->FileCancel_id)
        }),
    ensures
        s.on_message(msg, on, now) == (
            Linked { inbox: s.inbox.on_message(msg, now).state, outgoing: s.outgoing },
            Reacted { turns: Seq::empty(), acts: s.inbox.on_message(msg, now).acts },
        ),
{
}

/// Greetings, pongs and what belongs to pairing change nothing.
pub proof fn the_rest_goes_nowhere(s: Linked, msg: Msg, on: bool, now: u64)
    requires
        msg is Hello || msg is Pong || msg is PairStart || msg is PairResponse || msg is PairConfirmA
            || msg is PairConfirmB,
    ensures
        s.on_message(msg, on, now) == (
            s,
            Reacted { turns: Seq::empty(), acts: Seq::empty() },
        ),
        PROTO_VERSION == 1,
{
}

/// Each message is routed by what it is.
pub proof fn messages_are_routed(
    id: u64,
    text: Seq<char>,
    width: u32,
    height: u32,
    png: Seq<u8>,
    on: bool,
    incoming: bool,
)
    ensures
        goes(Msg::Ping, on, incoming) == Goes::Answer(Msg::Pong),
        goes(Msg::ClipText { text }, true, incoming) == Goes::ApplyText(text),
        goes(Msg::ClipImage { width, height, png }, true, incoming) == Goes::ApplyImage(png),
        goes(Msg::ClipText { text }, false, incoming) == Goes::Ignore,
        goes(Msg::ClipImage { width, height, png }, false, incoming) == Goes::Ignore,
        goes(Msg::FileAccept { id }, on, incoming) == (Goes::Accepted { id }),
        goes(Msg::FileReject { id, reason: text }, on, incoming) == (Goes::Rejected {
            id,
            reason: text,
        }),
        goes(Msg::FileCancel { id, reason: text }, on, true) == Goes::Inbox(
            Msg::FileCancel { id, reason: text },
        ),
        goes(Msg::FileCancel { id, reason: text }, on, false) == (Goes::Aborted {
            id,
            reason: text,
        }),
        goes(Msg::Pong, on, incoming) == Goes::Ignore,
        goes(Msg::Hello { version: 1, name: text }, on, incoming) == Goes::Ignore,
{
}

/// A greeting of any version gives the peer's name; nothing else does.
pub proof fn greetings_give_the_name(version: u16, name: Seq<char>, msg: Msg)
    ensures
        name_greeted(Msg::Hello { version, name }) == Some(name),
        !(msg is Hello) ==> name_greeted(msg) is None,
{
}

/* ------------------------------ advertisements ------------------------------ */

/// A device advertises the first twelve hexadecimal digits of its
/// fingerprint.
pub proof fn twelve_digits_are_advertised(s: Seq<char>, n: nat)
    ensures
        FP_DIGITS == 12,
        ({
            let all = s.filter(
                |c: char| '0' <= c <= '9' || 'a' <= c <= 'f' || 'A' <= c <= 'F',
            );
            hex_digits(s, n) == (if all.len() < n {
                all
            } else {
                all.take(n as int)
            })
        }),
    decreases s.len(),
{
    let keep = |c: char| '0' <= c <= '9' || 'a' <= c <= 'f' || 'A' <= c <= 'F';
    reveal(Seq::filter);
    if s.len() == 0 {
        assert(s.filter(keep) =~= Seq::<char>::empty());
        assert(hex_digits(s, n) =~= Seq::<char>::empty());
        assert(n == 0 ==> s.filter(keep).take(0) =~= Seq::<char>::empty());
    } else {
        let head = seq![s[0]];
        let rest = s.drop_first();
        assert(s =~= head + rest);
        Seq::filter_distributes_over_add(head, rest, keep);
        assert(head.drop_last() =~= Seq::<char>::empty());
        assert(head.filter(keep) =~= (if keep(s[0]) {
            head
        } else {
            Seq::<char>::empty()
        })) by {
            assert(head.drop_last().filter(keep) =~= Seq::<char>::empty());
            assert(head.last() == s[0]);
        }
        if n == 0 {
            assert(hex_digits(s, n) =~= Seq::<char>::empty());
            assert(s.filter(keep).take(0) =~= Seq::<char>::empty());
        } else if keep(s[0]) {
            twelve_digits_are_advertised(rest, (n - 1) as nat);
            let all = s.filter(keep);
            let less = rest.filter(keep);
            assert(all =~= head + less);
            if all.len() >= n {
                assert(all.take(n as int) =~= head + less.take(n - 1));
            }
        } else {
            twelve_digits_are_advertised(rest, n);
            assert(s.filter(keep) =~= rest.filter(keep));
        }
    }
}

/// A host's name is advertised without `.local` at its end, however often
/// that stands there.
pub proof fn ends_are_cut(s: Seq<char>, end: Seq<char>)
    requires
        end.len() > 0,
    ensures
        without_end(s + end, end) == without_end(s, end),
        !end.is_suffix_of(s) ==> without_end(s, end) == s,
{
    let all = s + end;
    assert(all.subrange(all.len() - end.len(), all.len() as int) =~= end);
    assert(end.is_suffix_of(all));
    assert(all.take(all.len() - end.len()) =~= s);
}

/// A device is called what stands before the mark of the service in its full
/// name.
pub proof fn names_end_at_the_mark(front: Seq<char>, mark: Seq<char>, rest: Seq<char>)
    requires
        forall|i: int|
            0 <= i < front.len() ==> !mark.is_prefix_of(
                (front + mark + rest).skip(#[trigger] step_by(i)),
            ),
    ensures
        before_mark(front + mark + rest, mark) == front,
    decreases front.len(),
{
    let s = front + mark + rest;
    if front.len() == 0 {
        assert(s.subrange(0, mark.len() as int) =~= mark);
        assert(front =~= Seq::<char>::empty());
    } else {
        assert(step_by(0) == 0);
        assert(s.skip(0) =~= s);
        assert(!mark.is_prefix_of(s));
        let less = front.drop_first();
        assert(s.drop_first() =~= less + mark + rest);
        assert forall|i: int| 0 <= i < less.len() implies !mark.is_prefix_of(
            (less + mark + rest).skip(#[trigger] step_by(i)),
        ) by {
            assert(step_by(i + 1) == i + 1);
            assert((less + mark + rest).skip(i) =~= s.skip(i + 1));
        }
        names_end_at_the_mark(less, mark, rest);
        assert(seq![front[0]] + less =~= front);
    }
}

/// A position, as it stands in a text.
pub open spec fn step_by(i: int) -> int {
    i
}

/// A name without the mark is taken as it is.
pub proof fn names_without_a_mark_are_whole(s: Seq<char>, mark: Seq<char>)
    requires
        forall|i: int|
            0 <= i < s.len() ==> !mark.is_prefix_of(s.skip(#[trigger] step_by(i))),
    ensures
        before_mark(s, mark) == s,
    decreases s.len(),
{
    if s.len() > 0 {
        assert(step_by(0) == 0);
        assert(s.skip(0) =~= s);
        let less = s.drop_first();
        assert forall|i: int| 0 <= i < less.len() implies !mark.is_prefix_of(
            less.skip(#[trigger] step_by(i)),
        ) by {
            assert(step_by(i + 1) == i + 1);
            assert(less.skip(i) =~= s.skip(i + 1));
        }
        names_without_a_mark_are_whole(less, mark);
        assert(seq![s[0]] + less =~= s);
    } else {
        assert(s =~= Seq::<char>::empty());
    }
}

proof fn names_stand_where_they_stand(names: Seq<Seq<char>>, name: Seq<char>, at: int)
    requires
        0 <= at <= names.len(),
        at < names.len() ==> names[at] == name,
        forall|j: int| 0 <= j < at ==> (#[trigger] names[j]) != name,
    ensures
        place_of(names, name) == at,
    decreases at,
{
    if at > 0 {
        assert(names[0] != name);
        let rest = names.drop_first();
        assert forall|j: int| 0 <= j < at - 1 implies (#[trigger] rest[j]) != name by {
            assert(rest[j] == names[j + 1]);
        }
        names_stand_where_they_stand(rest, name, at - 1);
    }
}

/// A device that is new is listed last, with its addresses and its port; one
/// that is known is listed anew in its place; our own is not.
pub proof fn devices_are_listed(
    k: Known,
    fp: Option<Seq<char>>,
    fullname: Seq<char>,
    addrs: Seq<Ip>,
    port: u16,
    at: int,
)
    requires
        k.names.len() == k.peers.len(),
        0 <= at <= k.names.len(),
        at < k.names.len() ==> k.names[at] == fullname,
        forall|j: int| 0 <= j < at ==> (#[trigger] k.names[j]) != fullname,
    ensures
        ({
            let t = k.on_resolved(fp, fullname, addrs, port);
            let peer = Peer {
                name: before_mark(fullname, "._vylo-share._tcp.local."@),
                addrs,
                port,
            };
            &&& fp == Some(k.own) ==> t == k
            &&& fp != Some(k.own) && at == k.names.len() ==> t == (Known {
                own: k.own,
                names: k.names.push(fullname),
                peers: k.peers.push(peer),
            })
            &&& fp != Some(k.own) && at < k.names.len() ==> t == (Known {
                own: k.own,
                names: k.names,
                peers: k.peers.update(at, peer),
            })
            &&& at == k.names.len() ==> k.on_removed(fullname) == k
            &&& at < k.names.len() ==> k.on_removed(fullname) == (Known {
                own: k.own,
                names: k.names.remove(at),
                peers: k.peers.remove(at),
            })
        }),
{
    names_stand_where_they_stand(k.names, fullname, at);
}

/* ---------------------------------- views ---------------------------------- */

/// What is known of a file being sent is what is held of it.
pub proof fn files_say_what_they_hold(
    f: SendFile,
    slot: OutgoingSlot,
    id: u64,
    size: u64,
    offset: u64,
    flag: bool,
    a: String,
    b: String,
    data: Vec<u8>,
    msg: SyncMessage,
)
    ensures
        f@ == (Sending {
            id: f.id,
            name: f.name@,
            offer: f.offer@,
            size: f.size,
            offset: f.offset,
            content: absorbed(f.hasher),
            last_progress: f.last_progress,
            stage: f.stage,
        }),
        slot@.open == slot.open,
        slot@.abort is Some <==> slot.abort is Some,
        slot.abort is Some ==> slot@.abort->0 == slot.abort->0@,
        Offer::Plain@ == Announced::Plain,
        Offer::Drag(id)@ == Announced::Drag(id),
        (Offer::Tree { tree: id, rel: a })@ == (Announced::Tree { tree: id, rel: a@ }),
        SendEvent::Opened(Opened::File { size })@ == (Heard::Opened { size }),
        SendEvent::Opened(Opened::Directory)@ == Heard::Directory,
        SendEvent::Opened(Opened::NoStat { at: a, cause: b })@ == (Heard::NoStat {
            at: a@,
            cause: b@,
        }),
        SendEvent::Opened(Opened::NoOpen { at: a, cause: b })@ == (Heard::NoOpen {
            at: a@,
            cause: b@,
        }),
        SendEvent::Delivered(flag)@ == Heard::Delivered(flag),
        SendEvent::Accepted@ == Heard::Accepted,
        SendEvent::Rejected(a)@ == Heard::Rejected(a@),
        SendEvent::NoReply@ == Heard::NoReply,
        SendEvent::Aborted(Some(a))@ == Heard::Aborted(Some(a@)),
        SendEvent::Aborted(None)@ == Heard::Aborted(None),
        SendEvent::Read(data)@ == Heard::Read(data@),
        SendEvent::ReadFailed(a)@ == Heard::ReadFailed(a@),
        SendStep::Send(msg)@ == Move::Send(msg@),
        SendStep::Deliver(msg)@ == Move::Deliver(msg@),
        SendStep::AwaitReply@ == Move::AwaitReply,
        SendStep::Read@ == Move::Read,
        (SendStep::Active { size })@ == (Move::Active { size }),
        (SendStep::Progress { offset, size })@ == (Move::Progress { offset, size }),
        (SendStep::Done { size })@ == (Move::Done { size }),
        (SendStep::Failed { reason: a })@ == (Move::Failed { reason: a@ }),
{
}

/// What a connection and the list of devices know is what they hold.
pub proof fn connections_say_what_they_hold(
    c: Connection,
    p: Peers,
    id: u64,
    text: String,
    png: Vec<u8>,
    msg: SyncMessage,
    k: int,
)
    requires
        0 <= k < p.names@.len(),
        p.names@.len() == p.peers@.len(),
    ensures
        c@.inbox == c.inbox@,
        c@.outgoing == c.outgoing@,
        Turn::Answer(msg)@ == Taken::Answer(msg@),
        Turn::ApplyText(text)@ == Taken::ApplyText(text@),
        Turn::ApplyImage(png)@ == Taken::ApplyImage(png@),
        (Turn::Reply { id, rejected: Some(text) })@ == (Taken::Reply {
            id,
            rejected: Some(text@),
        }),
        (Turn::Reply { id, rejected: None })@ == (Taken::Reply { id, rejected: None }),
        (Turn::Abort { id })@ == (Taken::Abort { id }),
        Route::Ignore@ == Goes::Ignore,
        Route::Answer(msg)@ == Goes::Answer(msg@),
        Route::ApplyText(text)@ == Goes::ApplyText(text@),
        Route::ApplyImage(png)@ == Goes::ApplyImage(png@),
        Route::Inbox(msg)@ == Goes::Inbox(msg@),
        (Route::Accepted { id })@ == (Goes::Accepted { id }),
        (Route::Rejected { id, reason: text })@ == (Goes::Rejected { id, reason: text@ }),
        (Route::Aborted { id, reason: text })@ == (Goes::Aborted { id, reason: text@ }),
        p@.own == p.own@,
        p@.names.len() == p.names@.len(),
        p@.names[k] == p.names@[k]@,
        p@.peers.len() == p.peers@.len(),
        p@.peers[k] == p.peers@[k]@,
{
}

/// Lists are what is in them, in order.
pub proof fn lists_say_what_they_hold(
    steps: Vec<SendStep>,
    taken: Vec<Turn>,
    deeds: Vec<Action>,
    effects: Vec<Effect>,
    moves: Vec<TreeStep>,
    k: int,
)
    ensures
        crate::outgoing::moves(steps@).len() == steps@.len(),
        0 <= k < steps@.len() ==> crate::outgoing::moves(steps@)[k] == steps@[k]@,
        crate::connection::turns(taken@).len() == taken@.len(),
        0 <= k < taken@.len() ==> crate::connection::turns(taken@)[k] == taken@[k]@,
        crate::actor::deeds(deeds@).len() == deeds@.len(),
        0 <= k < deeds@.len() ==> crate::actor::deeds(deeds@)[k] == deeds@[k]@,
        crate::effects::acts(effects@).len() == effects@.len(),
        0 <= k < effects@.len() ==> crate::effects::acts(effects@)[k] == effects@[k]@,
        crate::send_tree::tree_moves(moves@).len() == moves@.len(),
        0 <= k < moves@.len() ==> crate::send_tree::tree_moves(moves@)[k] == moves@[k]@,
{
}

} // verus!
