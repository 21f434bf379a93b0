//! What sender and receiver make of a file together.

use crate::digest::sha256;
use crate::effects::{Act, Job};
use crate::incoming::{messages_keep_it_well_formed, written_chunks_keep_it_well_formed, Incoming};
use crate::outgoing::{Heard, Move, Sending, Stage};
use crate::names::{safe_name, Place};
use crate::proto::{Msg, CHUNK_SIZE};
use crate::receive::Receiving;
use crate::table::{at, has_key, stored_reads_back};
use vstd::prelude::*;

verus! {

/// The receiver has what the sender has read so far.
pub open spec fn in_step(s: Sending, m: Incoming) -> bool {
    &&& has_key(m.recv, s.id)
    &&& at(m.recv, s.id).content == s.content
    &&& at(m.recv, s.id).received == s.offset
    &&& at(m.recv, s.id).size == s.size
}

/// When a chunk is read and sent, by the sender's clock, and when it comes
/// and is written, by the receiver's. The clocks need not agree, nor run on.
pub struct Instants {
    pub read: u64,
    pub sent: u64,
    pub came: u64,
    pub written: u64,
}

/// One chunk goes from the sender to the receiver's disk.
#[verifier::opaque]
pub open spec fn pass_chunk(s: Sending, m: Incoming, data: Seq<u8>, t: Instants) -> (
    Sending,
    Incoming,
) {
    let chunk = Msg::FileChunk { id: s.id, offset: s.offset, data };
    (
        s.on(Heard::Read(data), t.read).0.on(Heard::Delivered(true), t.sent).0,
        m.on_message(chunk, t.came).state.on_chunk_written(None, t.written).state,
    )
}

/// Chunks go from the sender to the receiver's disk, one after the other,
/// each at its own time.
pub open spec fn pass_all(
    s: Sending,
    m: Incoming,
    chunks: Seq<Seq<u8>>,
    times: Seq<Instants>,
) -> (Sending, Incoming)
    decreases chunks.len(),
{
    if chunks.len() == 0 {
        (s, m)
    } else {
        let (s1, m1) = pass_all(s, m, chunks.drop_last(), times);
        pass_chunk(s1, m1, chunks.last(), times[chunks.len() - 1])
    }
}

/// The bytes of a row of chunks.
pub open spec fn joined(chunks: Seq<Seq<u8>>) -> Seq<u8>
    decreases chunks.len(),
{
    if chunks.len() == 0 {
        Seq::empty()
    } else {
        joined(chunks.drop_last()) + chunks.last()
    }
}

/// An offer that is accepted starts sender and receiver in step, whatever
/// their clocks show when it is opened, sent and accepted here, and when it
/// comes and is given a file there.
pub proof fn accepted_offers_start_in_step(
    s: Sending,
    m: Incoming,
    size: u64,
    target: Place,
    part: Place,
    opened: u64,
    sent: u64,
    accepted: u64,
    came: u64,
    created: u64,
)
    requires
        s.stage == Stage::Opening,
        s.offer is Plain,
        s.offset == 0,
        s.content.len() == 0,
        m.wf(),
        m.waiting is Nothing,
        !has_key(m.recv, s.id),
        safe_name(s.name) is Some,
    ensures
        ({
            let (s1, offered) = s.on(Heard::Opened { size }, opened);
            let s2 = s1.on(Heard::Delivered(true), sent).0;
            let (s3, reading) = s2.on(Heard::Accepted, accepted);
            let offer = Msg::FileOffer { id: s.id, name: s.name, size };
            let r1 = m.on_message(offer, came);
            let r2 = r1.state.on_part_opened(Ok((target, part)), created);
            &&& offered == seq![Move::Deliver(offer)]
            &&& r1.acts == seq![
                Act::Do(
                    Job::OpenPart { id: s.id, dir: m.file_dir, name: safe_name(s.name)->0 },
                ),
            ]
            &&& r2.acts.contains(Act::Send(Msg::FileAccept { id: s.id }))
            &&& reading == seq![Move::Read]
            &&& in_step(s3, r2.state)
            &&& s3.stage == Stage::Reading
            &&& r2.state.waiting is Nothing
        }),
{
    let offer = Msg::FileOffer { id: s.id, name: s.name, size };
    let r1 = m.on_message(offer, came);
    let r2 = r1.state.on_part_opened(Ok((target, part)), created);
    let t = Receiving {
        name: safe_name(s.name)->0,
        size,
        received: 0,
        content: Seq::empty(),
        part,
        target,
        last_progress: created,
        drag: None,
        tree: None,
    };
    assert(s.content =~= Seq::<u8>::empty());
    stored_reads_back(m.recv, s.id, t, s.id);
    assert(r2.acts[1] == Act::Send(Msg::FileAccept { id: s.id }));
}

/// A chunk that the sender reads within the offered size is taken by the
/// receiver as it is, and both stay in step.
pub proof fn chunks_keep_them_in_step(s: Sending, m: Incoming, data: Seq<u8>, t: Instants)
    requires
        s.wf(),
        s.stage == Stage::Reading,
        m.wf(),
        m.waiting is Nothing,
        in_step(s, m),
        0 < data.len() <= CHUNK_SIZE,
        s.offset + data.len() <= s.size,
    ensures
        ({
            let chunk = Msg::FileChunk { id: s.id, offset: s.offset, data };
            let (s1, m1) = pass_chunk(s, m, data, t);
            &&& s.on(Heard::Read(data), t.read).1 == seq![Move::Deliver(chunk)]
            &&& m.on_message(chunk, t.came).acts == seq![Act::Do(Job::Write { id: s.id, data })]
            &&& in_step(s1, m1)
            &&& s1.content == s.content + data
            &&& s1.id == s.id
            &&& s1.size == s.size
            &&& s1.wf()
            &&& s1.stage == Stage::Reading
            &&& m1.wf()
            &&& m1.waiting is Nothing
        }),
{
    reveal(pass_chunk);
    let chunk = Msg::FileChunk { id: s.id, offset: s.offset, data };
    let r = m.on_message(chunk, t.came).state;
    let f = at(m.recv, s.id);
    let u = Receiving {
        content: f.content + data,
        received: (f.received + data.len()) as u64,
        ..f
    };
    stored_reads_back(m.recv, s.id, u, s.id);
    messages_keep_it_well_formed(m, chunk, t.came);
    written_chunks_keep_it_well_formed(r, None, t.written);
    stored_reads_back(r.recv, s.id, Receiving { last_progress: t.written, ..u }, s.id);
}

/// A file that was accepted arrives as it was sent: after any row of chunks
/// within the offered size the receiver has exactly the bytes that the
/// sender read, whatever the time at either end.
pub proof fn files_arrive_as_sent(
    s: Sending,
    m: Incoming,
    chunks: Seq<Seq<u8>>,
    times: Seq<Instants>,
)
    requires
        times.len() == chunks.len(),
        s.wf(),
        s.stage == Stage::Reading,
        m.wf(),
        m.waiting is Nothing,
        in_step(s, m),
        forall|i: int| 0 <= i < chunks.len() ==> 0 < (#[trigger] chunks[i]).len() <= CHUNK_SIZE,
        s.offset + joined(chunks).len() <= s.size,
    ensures
        ({
            let (s1, m1) = pass_all(s, m, chunks, times);
            &&& in_step(s1, m1)
            &&& at(m1.recv, s.id).content == s.content + joined(chunks)
            &&& s1.id == s.id
            &&& s1.size == s.size
            &&& s1.content == s.content + joined(chunks)
            &&& s1.wf()
            &&& s1.stage == Stage::Reading
            &&& m1.wf()
            &&& m1.waiting is Nothing
        }),
    decreases chunks.len(),
{
    if chunks.len() > 0 {
        let rest = chunks.drop_last();
        assert forall|i: int| 0 <= i < rest.len() implies 0 < (#[trigger] rest[i]).len()
            <= CHUNK_SIZE by {
            assert(rest[i] == chunks[i]);
        }
        files_arrive_as_sent(s, m, rest, times.drop_last());
        passing_goes_by_the_first(s, m, rest, times);
        let (s1, m1) = pass_all(s, m, rest, times);
        chunks_keep_them_in_step(s1, m1, chunks.last(), times[chunks.len() - 1]);
        assert(s.content + joined(rest) + chunks.last() =~= s.content + joined(chunks));
    } else {
        assert(s.content + joined(chunks) =~= s.content);
    }
}

proof fn passing_goes_by_the_first(
    s: Sending,
    m: Incoming,
    chunks: Seq<Seq<u8>>,
    times: Seq<Instants>,
)
    requires
        chunks.len() < times.len(),
    ensures
        pass_all(s, m, chunks, times.drop_last()) == pass_all(s, m, chunks, times),
    decreases chunks.len(),
{
    if chunks.len() > 0 {
        passing_goes_by_the_first(s, m, chunks.drop_last(), times);
        assert(times.drop_last()[chunks.len() - 1] == times[chunks.len() - 1]);
    }
}

/// Once all that was offered has gone, the sender closes with a hash that
/// the receiver finds right, and the file goes under its final name.
pub proof fn complete_files_are_kept(s: Sending, m: Incoming, read: u64, came: u64)
    requires
        s.stage == Stage::Reading,
        s.offset == s.size,
        m.wf(),
        m.waiting is Nothing,
        in_step(s, m),
    ensures
        ({
            let done = Msg::FileDone { id: s.id, sha256: sha256(s.content) };
            let t = at(m.recv, s.id);
            &&& s.on(Heard::Read(Seq::empty()), read).1 == seq![Move::Deliver(done)]
            &&& m.on_message(done, came).acts == seq![
                Act::Do(
                    Job::Commit {
                        id: s.id,
                        from: t.part,
                        to: t.target,
                        durable: t.tree is None,
                    },
                ),
            ]
        }),
{
}

/// A file that cannot be read still settles its place in a drag: it is
/// offered with nothing in it and cancelled at once.
pub proof fn unreadable_items_settle(s: Sending, ev: Heard, now: u64)
    requires
        s.stage == Stage::Opening,
        s.offer is Drag,
        ev is Directory || ev is NoStat || ev is NoOpen,
    ensures
        s.on(ev, now).1.len() == 3,
        s.on(ev, now).1[0] == Move::Send(
            Msg::DragOffer { drag: s.offer->Drag_0, id: s.id, name: s.name, size: 0 },
        ),
        s.on(ev, now).1[1] is Send,
        s.on(ev, now).1[1]->Send_0 is FileCancel,
        s.on(ev, now).1[1]->Send_0->FileCancel_id == s.id,
        s.on(ev, now).1[2] is Failed,
{
}

/// A sender whose peer gave up stops at once: no chunk and no hash follow.
pub proof fn cancelled_senders_stop(
    s: Sending,
    reason: Option<Seq<char>>,
    ev: Heard,
    now: u64,
    later: u64,
)
    requires
        s.stage == Stage::Waiting || s.stage == Stage::Reading || s.stage == Stage::Chunking,
    ensures
        ({
            let (s1, told) = s.on(Heard::Aborted(reason), now);
            &&& told == seq![
                Move::Failed {
                    reason: match reason {
                        Some(r) => r,
                        None => "cancelled by peer"@,
                    },
                },
            ]
            &&& s1.on(ev, later).0 == s1
            &&& s1.on(ev, later).1.len() == 0
        }),
{
    let (s1, told) = s.on(Heard::Aborted(reason), now);
    assert(told =~= seq![
        Move::Failed {
            reason: match reason {
                Some(r) => r,
                None => "cancelled by peer"@,
            },
        },
    ]);
}

} // verus!
