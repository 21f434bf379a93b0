//! What receiving guarantees.

use crate::digest::sha256;
use crate::effects::{Act, Job};
use crate::event::{capped, Event};
use crate::incoming::{
    and_then, cannot_create, closing_files, closing_folders, commits_keep_it_well_formed, discards,
    dropped, dropped_is_part, file_report, folder_dirs, forsaken, forsaken_is_part, forsaking,
    incomplete, messages_keep_it_well_formed, opened_parts_keep_it_well_formed, outside, own_row,
    written_chunks_keep_it_well_formed, Incoming, Step, Wait,
};
use crate::ipc::{TransferKind, TransferState};
use crate::names::{
    accepted_paths_stay_inside, components, is_safe, received_names_are_safe, safe_name,
    safe_names_are_kept, safe_paths_are_kept, safe_rel, Place, MAX_REL_BYTES, MAX_TREE_DEPTH,
};
use crate::proto::{Msg, CHUNK_SIZE};
use crate::receive::{refused, Dragging, Folder, Receiving, Staged, MAX_TREE_ENTRIES};
use crate::table::{
    at, erased, erased_is_gone, filtered_is_part, has_key, keys_differ, position, position_finds,
    position_is, stored, stored_reads_back, without_id,
};
use vstd::prelude::*;
use vstd::utf8::encode_utf8;

verus! {

/* --------------------------------- tasks --------------------------------- */

/// `job` is what the inbox now waits for.
pub open spec fn asked_for(job: Job, waiting: Wait) -> bool {
    match waiting {
        Wait::Nothing => false,
        Wait::DragDir { dir, .. } => job == Job::MakeDir(dir),
        Wait::Part { id, name, .. } => job is OpenPart && job->OpenPart_id == id
            && job->OpenPart_name == name,
        Wait::TreeDir { .. } => job is MakeDir,
        Wait::Root { name, .. } => job is MakeRoot && job->MakeRoot_name == name,
        Wait::Chunk { id, len } => job is Write && job->Write_id == id && job->Write_data.len()
            == len,
        Wait::Rename { id, target, tree, .. } => job is Commit && job->Commit_id == id
            && job->Commit_to == target && job->Commit_durable == (tree is None),
        Wait::Placing { folder } => job is PlaceFolder && job->PlaceFolder_from == folder.root
            && job->PlaceFolder_name == folder.name,
        Wait::Dropping { drag, dest, next, .. } => next < drag.done.len() && job == (
        Job::PlaceItem {
            from: drag.done[next as int].path,
            dir: dest,
            name: drag.done[next as int].name,
            kind: drag.done[next as int].kind,
        }),
    }
}

/// The effects hold no task.
pub open spec fn asks_nothing(acts: Seq<Act>) -> bool {
    forall|i: int| 0 <= i < acts.len() ==> !((#[trigger] acts[i]) is Do)
}

/// The effects hold at most one task, at the end, and one only if the inbox
/// now waits for it.
pub open spec fn asks_in_turn(r: Step) -> bool {
    if r.state.waiting is Nothing {
        asks_nothing(r.acts)
    } else {
        &&& r.acts.len() > 0
        &&& asks_nothing(r.acts.drop_last())
        &&& r.acts.last() is Do
        &&& asked_for(r.acts.last()->Do_0, r.state.waiting)
    }
}

proof fn asking_after(first: Seq<Act>, rest: Step)
    requires
        asks_nothing(first),
        asks_in_turn(rest),
    ensures
        asks_in_turn(and_then(first, rest)),
{
    let r = and_then(first, rest);
    if !(rest.state.waiting is Nothing) {
        assert(r.acts.drop_last() =~= first + rest.acts.drop_last());
    }
}

proof fn dropping_asks_in_turn(s: Incoming)
    requires
        s.waiting is Nothing,
    ensures
        asks_in_turn(s.finalize_drag()),
        s.finalize_drag().state.waiting is Nothing || s.finalize_drag().state.waiting is Dropping,
{
    if s.drag is Some && s.drag->0.drop_requested && s.drag->0.settled() {
        let dest = s.drop_place();
        let rest = s.with_drag(None).place_next(s.drag->0, dest, 0, Seq::empty());
        assert(asks_in_turn(rest));
        asking_after(seq![Act::EnsureDir(dest)], rest);
    }
}

proof fn finishing_asks_in_turn(s: Incoming, tree: u64)
    requires
        s.waiting is Nothing,
    ensures
        asks_in_turn(s.finalize_tree(tree)),
        s.finalize_tree(tree).state.waiting is Nothing || s.finalize_tree(tree).state.waiting
            is Dropping || s.finalize_tree(tree).state.waiting is Placing,
{
    if has_key(s.trees, tree) && at(s.trees, tree).settled() {
        let t = at(s.trees, tree);
        let r = s.with_trees(erased(s.trees, tree));
        match t.failed {
            Some(reason) => {
                let gone = folder_dirs(t).push(
                    Act::Report(
                        Event::Transfer(t.row(t.done_bytes, TransferState::Failed, Some(reason))),
                    ),
                );
                assert(asks_nothing(gone));
                if t.drag is Some && r.drags(t.drag->0) {
                    let d = r.drag->0;
                    let q = r.with_drag(
                        Some(Dragging { outstanding: without_id(d.outstanding, tree), ..d }),
                    );
                    dropping_asks_in_turn(q);
                    asking_after(gone, q.finalize_drag());
                } else {
                    asking_after(gone, r.nothing());
                }
            },
            None => {
                if t.drag is Some && r.drags(t.drag->0) {
                    let d = r.drag->0;
                    let item = Staged {
                        id: tree,
                        name: t.name,
                        kind: TransferKind::Folder,
                        files: t.files,
                        size: t.total,
                        path: t.root,
                    };
                    let q = r.with_drag(
                        Some(
                            Dragging {
                                outstanding: without_id(d.outstanding, tree),
                                done: d.done.push(item),
                                ..d
                            },
                        ),
                    );
                    dropping_asks_in_turn(q);
                    asking_after(
                        seq![
                            Act::Report(
                                Event::Transfer(t.row(t.total, TransferState::Done, Some(t.shown))),
                            ),
                        ],
                        q.finalize_drag(),
                    );
                }
            },
        }
    }
}

proof fn settling_asks_in_turn(s: Incoming, id: u64, t: Receiving, reason: Seq<char>)
    requires
        s.waiting is Nothing,
    ensures
        asks_in_turn(s.settle_failure(id, t, reason)),
        asks_in_turn(s.not_finished(id, t.name, t.size, t.drag, t.tree, reason)),
        !(s.settle_failure(id, t, reason).state.waiting is Rename),
        !(s.not_finished(id, t.name, t.size, t.drag, t.tree, reason).state.waiting is Rename),
{
    let row = own_row(
        t.tree,
        file_report(id, t.name, t.size, t.size, TransferState::Failed, Some(reason)),
    );
    let why = t.name + ": "@ + reason;
    assert(asks_nothing(row));
    asking_after(row, s.nothing());
    match t.tree {
        Some(tree) => {
            if has_key(s.trees, tree) {
                let f = at(s.trees, tree);
                let q = s.with_tree(
                    tree,
                    (Folder { outstanding: without_id(f.outstanding, id), ..f }).fail(why),
                );
                finishing_asks_in_turn(q, tree);
                asking_after(row, q.finalize_tree(tree));
            }
        },
        None => {
            if t.drag is Some && s.drags(t.drag->0) {
                let d = s.drag->0;
                let q = s.with_drag(
                    Some(Dragging { outstanding: without_id(d.outstanding, id), ..d }),
                );
                dropping_asks_in_turn(q);
                asking_after(row, q.finalize_drag());
            }
        },
    }
}

proof fn refusing_asks_in_turn(
    s: Incoming,
    id: u64,
    offered: Seq<char>,
    size: u64,
    drag: Option<u64>,
    tree: Option<u64>,
    rel: Seq<char>,
    reason: Seq<char>,
)
    requires
        s.waiting is Nothing,
    ensures
        asks_in_turn(s.settle_refusal(drag, tree, rel)),
        asks_in_turn(s.refuse_offer(id, offered, size, drag, tree, rel, reason)),
        !(s.settle_refusal(drag, tree, rel).state.waiting is Rename),
{
    dropping_asks_in_turn(s);
    let first = own_row(
        tree,
        file_report(id, offered, 0, size, TransferState::Failed, Some(reason)),
    ).push(Act::Send(Msg::FileReject { id, reason }));
    assert(asks_nothing(first));
    asking_after(first, s.settle_refusal(drag, tree, rel));
}

proof fn offers_ask_in_turn(
    s: Incoming,
    dir: Place,
    id: u64,
    offered: Seq<char>,
    size: u64,
    drag: Option<u64>,
    tree: Option<u64>,
    rel: Seq<char>,
)
    requires
        s.waiting is Nothing,
    ensures
        asks_in_turn(s.accept_offer(dir, id, offered, size, drag, tree, rel)),
        !(s.accept_offer(dir, id, offered, size, drag, tree, rel).state.waiting is Rename),
{
    refusing_asks_in_turn(s, id, offered, size, drag, tree, rel, "invalid file name"@);
    let used = seq![Act::Send(Msg::FileReject { id, reason: "transfer id already in use"@ })];
    asking_after(used, s.settle_refusal(drag, tree, rel));
    let r = s.accept_offer(dir, id, offered, size, drag, tree, rel);
    if !has_key(s.recv, id) && safe_name(offered) is Some {
        assert(r.acts.drop_last() =~= Seq::<Act>::empty());
    }
}

proof fn discards_only_delete(recv: Seq<(u64, Receiving)>, ids: Seq<u64>)
    ensures
        asks_nothing(discards(recv, ids)),
    decreases ids.len(),
{
    if ids.len() > 0 {
        discards_only_delete(recv, ids.drop_last());
    }
}

proof fn forsaking_asks_nothing(recv: Seq<(u64, Receiving)>, trees: Seq<(u64, Folder)>, drag: u64)
    ensures
        asks_nothing(forsaking(recv, trees, drag)),
    decreases trees.len(),
{
    if trees.len() > 0 {
        forsaking_asks_nothing(recv, trees.drop_last(), drag);
        discards_only_delete(
            forsaken(recv, trees.drop_last(), drag),
            trees.last().1.outstanding,
        );
    }
}

proof fn discarding_asks_nothing(s: Incoming, d: Dragging)
    ensures
        asks_nothing(s.discard_drag(d).acts),
{
    discards_only_delete(s.recv, d.outstanding);
    forsaking_asks_nothing(dropped(s.recv, d.outstanding), s.trees, d.drag);
}

proof fn drag_messages_ask_in_turn(s: Incoming, msg: Msg, now: u64)
    requires
        s.waiting is Nothing,
        msg is DragBegin || msg is DragOffer || msg is DragDrop || msg is DragCancel,
    ensures
        asks_in_turn(s.on_message(msg, now)),
        !(s.on_message(msg, now).state.waiting is Rename),
{
    match msg {
        Msg::DragBegin { drag, count } => {
            if s.drag is Some {
                discarding_asks_nothing(s.with_drag(None), s.drag->0);
            }
            let r = s.on_message(msg, now);
            let before = if s.drag is Some {
                s.with_drag(None).discard_drag(s.drag->0).acts
            } else {
                Seq::empty()
            };
            assert(r.acts.drop_last() =~= before);
        },
        Msg::DragOffer { drag, id, name, size } => {
            if s.drags(drag) {
                let d = s.drag->0.one_more();
                offers_ask_in_turn(
                    s.with_drag(Some(d)),
                    d.dir,
                    id,
                    name,
                    size,
                    Some(drag),
                    None,
                    ""@,
                );
            }
        },
        Msg::DragDrop { drag } => {
            if s.drags(drag) {
                dropping_asks_in_turn(
                    s.with_drag(Some(Dragging { drop_requested: true, ..s.drag->0 })),
                );
            }
        },
        Msg::DragCancel { drag } => {
            if s.drags(drag) {
                discarding_asks_nothing(s.with_drag(None), s.drag->0);
            }
        },
        _ => {},
    }
}

proof fn folder_messages_ask_in_turn(s: Incoming, msg: Msg, now: u64)
    requires
        s.waiting is Nothing,
        msg is TreeOffer || msg is TreeDir || msg is TreeFile || msg is TreeEnd,
    ensures
        asks_in_turn(s.on_message(msg, now)),
        !(s.on_message(msg, now).state.waiting is Rename),
{
    let r = s.on_message(msg, now);
    match msg {
        Msg::TreeFile { tree, id, rel, size } => {
            if has_key(s.trees, tree) && safe_rel(rel) is Some {
                let t = at(s.trees, tree);
                let t = Folder { entries: (t.entries + 1) as u64, ..t };
                let names = safe_rel(rel)->0;
                offers_ask_in_turn(
                    s.with_tree(tree, t),
                    t.root.follow(names.drop_last()),
                    id,
                    names.last(),
                    size,
                    t.drag,
                    Some(tree),
                    rel,
                );
            }
        },
        Msg::TreeEnd { tree, error } => {
            if has_key(s.trees, tree) {
                let t = Folder { ended: true, ..at(s.trees, tree) };
                let t = match error {
                    Some(reason) => t.fail("sender: "@ + reason),
                    None => t,
                };
                finishing_asks_in_turn(s.with_tree(tree, t), tree);
            }
        },
        _ => {
            if r.acts.len() == 1 {
                assert(r.acts.drop_last() =~= Seq::<Act>::empty());
            }
        },
    }
}

proof fn stream_messages_ask_in_turn(s: Incoming, msg: Msg, now: u64)
    requires
        s.waiting is Nothing,
        msg is FileChunk || msg is FileDone || msg is FileCancel,
    ensures
        asks_in_turn(s.on_message(msg, now)),
        s.on_message(msg, now).state.waiting is Rename ==> msg is FileDone && has_key(
            s.recv,
            msg->FileDone_id,
        ) && sha256(at(s.recv, msg->FileDone_id).content) == msg->FileDone_sha256 && at(
            s.recv,
            msg->FileDone_id,
        ).received == at(s.recv, msg->FileDone_id).size,
{
    let r = s.on_message(msg, now);
    let id = match msg {
        Msg::FileChunk { id, .. } => id,
        Msg::FileDone { id, .. } => id,
        _ => msg->FileCancel_id,
    };
    if has_key(s.recv, id) {
        let t = at(s.recv, id);
        let q = s.with_recv(erased(s.recv, id));
        match msg {
            Msg::FileChunk { offset, data, .. } => {
                failed_chunks_ask_in_turn(s, id, t.received, "transfer exceeds offered size"@);
                failed_chunks_ask_in_turn(s, id, t.received, "chunks out of order"@);
                if r.state.waiting is Chunk {
                    assert(r.acts.drop_last() =~= Seq::<Act>::empty());
                }
            },
            Msg::FileDone { .. } => {
                let why = "integrity check failed (sha256 mismatch)"@;
                let short = incomplete(t.received, t.size);
                let gone = seq![Act::Discard { id, part: t.part }];
                settling_asks_in_turn(q, id, t, why);
                settling_asks_in_turn(q, id, t, short);
                asking_after(
                    gone,
                    q.not_finished(id, t.name, t.size, t.drag, t.tree, why),
                );
                asking_after(
                    gone,
                    q.not_finished(id, t.name, t.size, t.drag, t.tree, short),
                );
                if r.state.waiting is Rename {
                    assert(r.acts.drop_last() =~= Seq::<Act>::empty());
                }
            },
            Msg::FileCancel { reason, .. } => {
                settling_asks_in_turn(q, id, t, reason);
                let first = own_row(
                    t.tree,
                    file_report(id, t.name, t.received, t.size, TransferState::Failed, Some(reason)),
                ).push(Act::Discard { id, part: t.part });
                assert(asks_nothing(first));
                asking_after(first, q.settle_failure(id, t, reason));
            },
            _ => {},
        }
    }
}

proof fn failed_chunks_ask_in_turn(s: Incoming, id: u64, received: u64, reason: Seq<char>)
    requires
        s.waiting is Nothing,
    ensures
        asks_in_turn(s.chunk_failed(id, received, reason)),
        !(s.chunk_failed(id, received, reason).state.waiting is Rename),
{
    let t = at(s.recv, id);
    let q = s.with_recv(erased(s.recv, id));
    settling_asks_in_turn(q, id, t, reason);
    let first = own_row(
        t.tree,
        file_report(id, t.name, received, t.size, TransferState::Failed, Some(reason)),
    ) + seq![Act::Send(Msg::FileCancel { id, reason }), Act::Discard { id, part: t.part }];
    assert(asks_nothing(first));
    asking_after(first, q.settle_failure(id, t, reason));
}

/// Whatever the peer sends, the host is asked for at most one thing, last,
/// and the inbox waits for exactly that.
pub proof fn messages_ask_in_turn(s: Incoming, msg: Msg, now: u64)
    requires
        s.waiting is Nothing,
    ensures
        asks_in_turn(s.on_message(msg, now)),
{
    match msg {
        Msg::FileOffer { id, name, size } => {
            offers_ask_in_turn(s, s.file_dir, id, name, size, None, None, ""@);
        },
        Msg::DragBegin { .. } => drag_messages_ask_in_turn(s, msg, now),
        Msg::DragOffer { .. } => drag_messages_ask_in_turn(s, msg, now),
        Msg::DragDrop { .. } => drag_messages_ask_in_turn(s, msg, now),
        Msg::DragCancel { .. } => drag_messages_ask_in_turn(s, msg, now),
        Msg::TreeOffer { .. } => folder_messages_ask_in_turn(s, msg, now),
        Msg::TreeDir { .. } => folder_messages_ask_in_turn(s, msg, now),
        Msg::TreeFile { .. } => folder_messages_ask_in_turn(s, msg, now),
        Msg::TreeEnd { .. } => folder_messages_ask_in_turn(s, msg, now),
        Msg::FileChunk { .. } => stream_messages_ask_in_turn(s, msg, now),
        Msg::FileDone { .. } => stream_messages_ask_in_turn(s, msg, now),
        Msg::FileCancel { .. } => stream_messages_ask_in_turn(s, msg, now),
        _ => {},
    }
}

/// The outcome of opening a part file asks in turn.
pub proof fn opened_parts_ask_in_turn(
    s: Incoming,
    opened: Result<(Place, Place), (Seq<char>, Seq<char>)>,
    now: u64,
)
    requires
        s.waiting is Part,
    ensures
        asks_in_turn(s.on_part_opened(opened, now)),
        !(s.on_part_opened(opened, now).state.waiting is Rename),
{
    let w = s.waiting;
    if let Err((at, cause)) = opened {
        refusing_asks_in_turn(
            s.awaiting(Wait::Nothing),
            w->Part_id,
            w->Part_offered,
            w->Part_size,
            w->Part_drag,
            w->Part_tree,
            w->Part_rel,
            cannot_create(at, cause),
        );
    }
}

/// The outcome of writing a chunk asks in turn.
pub proof fn written_chunks_ask_in_turn(s: Incoming, error: Option<Seq<char>>, now: u64)
    requires
        s.waiting is Chunk,
    ensures
        asks_in_turn(s.on_chunk_written(error, now)),
        !(s.on_chunk_written(error, now).state.waiting is Rename),
{
    let id = s.waiting->Chunk_id;
    if let Some(e) = error {
        failed_chunks_ask_in_turn(
            s.awaiting(Wait::Nothing),
            id,
            (at(s.recv, id).received - s.waiting->Chunk_len) as u64,
            "write failed: "@ + e,
        );
    }
}

/// The outcome of renaming a verified file asks in turn.
pub proof fn commits_ask_in_turn(s: Incoming, placed: Result<Seq<char>, (Seq<char>, Seq<char>)>)
    requires
        s.waiting is Rename,
    ensures
        asks_in_turn(s.on_committed(placed)),
        !(s.on_committed(placed).state.waiting is Rename),
{
    let w = s.waiting;
    let id = w->Rename_id;
    let size = w->Rename_size;
    let idle = s.awaiting(Wait::Nothing);
    match placed {
        Err((at, cause)) => {
            let t = Receiving {
                name: w->Rename_name,
                size,
                received: size,
                content: Seq::empty(),
                part: w->Rename_target,
                target: w->Rename_target,
                last_progress: 0,
                drag: w->Rename_drag,
                tree: w->Rename_tree,
            };
            settling_asks_in_turn(idle, id, t, "cannot rename to "@ + at + ": "@ + cause);
        },
        Ok(path) => {
            let row = own_row(
                w->Rename_tree,
                file_report(id, w->Rename_name, size, size, TransferState::Done, Some(path)),
            );
            assert(asks_nothing(row));
            asking_after(row, idle.nothing());
            match w->Rename_tree {
                Some(tree) => {
                    let f = at(s.trees, tree);
                    let q = idle.with_tree(
                        tree,
                        Folder {
                            outstanding: without_id(f.outstanding, id),
                            done_bytes: capped(f.done_bytes as int, size as int),
                            ..f
                        },
                    );
                    finishing_asks_in_turn(q, tree);
                    asking_after(row, q.finalize_tree(tree));
                },
                None => {
                    let d = s.drag->0;
                    let item = Staged {
                        id,
                        name: w->Rename_name,
                        kind: TransferKind::File,
                        files: 0,
                        size,
                        path: w->Rename_target,
                    };
                    let q = idle.with_drag(
                        Some(
                            Dragging {
                                outstanding: without_id(d.outstanding, id),
                                done: d.done.push(item),
                                ..d
                            },
                        ),
                    );
                    dropping_asks_in_turn(q);
                    asking_after(row, q.finalize_drag());
                },
            }
        },
    }
}

/// The outcome of creating a folder's root, of placing a folder and of
/// placing a dropped item ask in turn.
pub proof fn placements_ask_in_turn(
    s: Incoming,
    made: Result<(Place, Seq<char>, Option<Seq<char>>), (Seq<char>, Seq<char>)>,
    placed: Result<Seq<char>, (Seq<char>, Seq<char>)>,
    now: u64,
)
    ensures
        s.waiting is Root ==> asks_in_turn(s.on_root_made(made, now)),
        s.waiting is Placing ==> asks_in_turn(s.on_folder_placed(placed)),
        s.waiting is Dropping ==> asks_in_turn(s.on_item_placed(placed)),
{
    if s.waiting is Dropping {
        let w = s.waiting;
        let d = w->Dropping_drag;
        let next = w->Dropping_next;
        let skipped = s.place_next(d, w->Dropping_dest, next + 1, w->Dropping_placed);
        assert(skipped.acts.len() > 0 ==> asks_nothing(skipped.acts.drop_last()));
        assert(asks_in_turn(skipped));
        if let Ok(path) = placed {
            let rest = s.place_next(
                d,
                w->Dropping_dest,
                next + 1,
                w->Dropping_placed.push(path),
            );
            assert(rest.acts.len() > 0 ==> asks_nothing(rest.acts.drop_last()));
            assert(asks_in_turn(rest));
            asking_after(
                seq![
                    Act::Report(
                        Event::Transfer(d.done[next as int].row(TransferState::Done, path)),
                    ),
                ],
                rest,
            );
        }
    }
}

/* ------------------------------- integrity ------------------------------- */

/// A received file is put under its final name only when its sender called
/// it complete, all the bytes that were offered have come, and their sha256
/// is the one that the sender announced.
pub proof fn only_verified_files_are_kept(s: Incoming, msg: Msg, now: u64, i: int)
    requires
        s.wf(),
        s.waiting is Nothing,
        0 <= i < s.on_message(msg, now).acts.len(),
        s.on_message(msg, now).acts[i] is Do,
        s.on_message(msg, now).acts[i]->Do_0 is Commit,
    ensures
        msg is FileDone,
        has_key(s.recv, msg->FileDone_id),
        sha256(at(s.recv, msg->FileDone_id).content) == msg->FileDone_sha256,
        at(s.recv, msg->FileDone_id).content.len() == at(s.recv, msg->FileDone_id).size,
        s.on_message(msg, now).acts[i] == Act::Do(
            Job::Commit {
                id: msg->FileDone_id,
                from: at(s.recv, msg->FileDone_id).part,
                to: at(s.recv, msg->FileDone_id).target,
                durable: at(s.recv, msg->FileDone_id).tree is None,
            },
        ),
{
    let r = s.on_message(msg, now);
    messages_ask_in_turn(s, msg, now);
    assert(i == r.acts.len() - 1) by {
        if r.state.waiting is Nothing {
        } else if i < r.acts.len() - 1 {
            assert(r.acts.drop_last()[i] == r.acts[i]);
        }
    }
    assert(r.state.waiting is Rename);
    match msg {
        Msg::FileOffer { id, name, size } => {
            offers_ask_in_turn(s, s.file_dir, id, name, size, None, None, ""@);
        },
        Msg::DragBegin { .. } => drag_messages_ask_in_turn(s, msg, now),
        Msg::DragOffer { .. } => drag_messages_ask_in_turn(s, msg, now),
        Msg::DragDrop { .. } => drag_messages_ask_in_turn(s, msg, now),
        Msg::DragCancel { .. } => drag_messages_ask_in_turn(s, msg, now),
        Msg::TreeOffer { .. } => folder_messages_ask_in_turn(s, msg, now),
        Msg::TreeDir { .. } => folder_messages_ask_in_turn(s, msg, now),
        Msg::TreeFile { .. } => folder_messages_ask_in_turn(s, msg, now),
        Msg::TreeEnd { .. } => folder_messages_ask_in_turn(s, msg, now),
        Msg::FileChunk { .. } => stream_messages_ask_in_turn(s, msg, now),
        Msg::FileDone { .. } => stream_messages_ask_in_turn(s, msg, now),
        Msg::FileCancel { .. } => stream_messages_ask_in_turn(s, msg, now),
        _ => {},
    }
}

/// A verified, complete file is put under its final name.
pub proof fn verified_files_are_kept(s: Incoming, id: u64, now: u64)
    requires
        s.wf(),
        s.waiting is Nothing,
        has_key(s.recv, id),
        at(s.recv, id).content.len() == at(s.recv, id).size,
    ensures
        s.on_message(
            Msg::FileDone { id, sha256: sha256(at(s.recv, id).content) },
            now,
        ).acts == seq![
            Act::Do(
                Job::Commit {
                    id,
                    from: at(s.recv, id).part,
                    to: at(s.recv, id).target,
                    durable: at(s.recv, id).tree is None,
                },
            ),
        ],
{
}

proof fn chunks_add_their_bytes(s: Incoming, other: u64, offset: u64, data: Seq<u8>, id: u64)
    requires
        s.sound(),
        has_key(s.recv, id),
        has_key(s.on_chunk(other, offset, data).state.recv, id),
    ensures
        at(s.on_chunk(other, offset, data).state.recv, id).content == (if other == id {
            at(s.recv, id).content + data
        } else {
            at(s.recv, id).content
        }),
{
    if has_key(s.recv, other) {
        let t = at(s.recv, other);
        erased_is_gone(s.recv, other, id);
        stored_reads_back(
            s.recv,
            other,
            Receiving {
                content: t.content + data,
                received: (t.received + data.len()) as u64,
                ..t
            },
            id,
        );
    }
}

/// Only the chunks of a file add to it, each its own bytes at the end;
/// nothing else that the peer sends touches what has come.
pub proof fn only_chunks_add_bytes(s: Incoming, msg: Msg, now: u64, id: u64)
    requires
        s.wf(),
        s.waiting is Nothing,
        has_key(s.recv, id),
        has_key(s.on_message(msg, now).state.recv, id),
    ensures
        at(s.on_message(msg, now).state.recv, id).content == (if msg is FileChunk
            && msg->FileChunk_id == id {
            at(s.recv, id).content + msg->FileChunk_data
        } else {
            at(s.recv, id).content
        }),
{
    match msg {
        Msg::DragBegin { drag, count } => {
            if s.drag is Some {
                kept_after_discarding(s.with_drag(None), s.drag->0, id);
            }
        },
        Msg::DragCancel { drag } => {
            if s.drags(drag) {
                kept_after_discarding(s.with_drag(None), s.drag->0, id);
            }
        },
        Msg::FileChunk { id: other, offset, data } => {
            chunks_add_their_bytes(s, other, offset, data, id);
        },
        Msg::FileDone { id: other, .. } => {
            erased_is_gone(s.recv, other, id);
        },
        Msg::FileCancel { id: other, .. } => {
            erased_is_gone(s.recv, other, id);
        },
        _ => {},
    }
}

proof fn kept_after_discarding(s: Incoming, d: Dragging, id: u64)
    requires
        s.sound(),
        has_key(s.discard_drag(d).state.recv, id),
    ensures
        has_key(s.recv, id),
        at(s.discard_drag(d).state.recv, id) == at(s.recv, id),
{
    let direct = dropped(s.recv, d.outstanding);
    dropped_is_part(s.recv, d.outstanding);
    forsaken_is_part(direct, s.trees, d.drag);
    assert(has_key(direct, id));
}

/* ---------------------------- whole or nothing ---------------------------- */

/// Where a step moves things into place, they are ready for it: a folder is
/// closed by its sender, every file of it has verified and nothing failed;
/// the items of a drag go only once the button was released and every item
/// has settled.
pub open spec fn places_only_what_is_ready(r: Step) -> bool {
    forall|i: int|
        0 <= i < r.acts.len() ==> {
            &&& (#[trigger] r.acts[i]) is Do && r.acts[i]->Do_0 is PlaceFolder ==> {
                &&& r.state.waiting is Placing
                &&& r.state.waiting->Placing_folder.settled()
                &&& r.state.waiting->Placing_folder.failed is None
                &&& r.acts[i]->Do_0->PlaceFolder_from == r.state.waiting->Placing_folder.root
            }
            &&& r.acts[i] is Do && r.acts[i]->Do_0 is PlaceItem ==> {
                &&& r.state.waiting is Dropping
                &&& r.state.waiting->Dropping_drag.drop_requested
                &&& r.state.waiting->Dropping_drag.settled()
            }
        }
}

proof fn in_turn_is_ready(r: Step)
    requires
        asks_in_turn(r),
        r.state.wf(),
    ensures
        places_only_what_is_ready(r),
{
    assert forall|i: int| 0 <= i < r.acts.len() && (#[trigger] r.acts[i]) is Do implies i
        == r.acts.len() - 1 && asked_for(r.acts[i]->Do_0, r.state.waiting) by {
        if !(r.state.waiting is Nothing) && i < r.acts.len() - 1 {
            assert(r.acts.drop_last()[i] == r.acts[i]);
        }
    }
}

/// A folder is delivered whole or not at all, and a drag only on its drop:
/// whatever the peer sends, only what is ready goes into place.
pub proof fn folders_arrive_whole(s: Incoming, msg: Msg, now: u64)
    requires
        s.wf(),
        s.waiting is Nothing,
    ensures
        places_only_what_is_ready(s.on_message(msg, now)),
{
    messages_ask_in_turn(s, msg, now);
    messages_keep_it_well_formed(s, msg, now);
    in_turn_is_ready(s.on_message(msg, now));
}

/// Whatever comes of file work, only what is ready goes into place.
pub proof fn outcomes_place_only_what_is_ready(
    s: Incoming,
    opened: Result<(Place, Place), (Seq<char>, Seq<char>)>,
    error: Option<Seq<char>>,
    placed: Result<Seq<char>, (Seq<char>, Seq<char>)>,
    now: u64,
)
    requires
        s.wf(),
    ensures
        s.waiting is Part ==> places_only_what_is_ready(s.on_part_opened(opened, now)),
        s.waiting is Chunk ==> places_only_what_is_ready(s.on_chunk_written(error, now)),
        s.waiting is Rename ==> places_only_what_is_ready(s.on_committed(placed)),
        s.waiting is Dropping ==> places_only_what_is_ready(s.on_item_placed(placed)),
{
    if s.waiting is Part {
        opened_parts_ask_in_turn(s, opened, now);
        opened_parts_keep_it_well_formed(s, opened, now);
        in_turn_is_ready(s.on_part_opened(opened, now));
    }
    if s.waiting is Chunk {
        written_chunks_ask_in_turn(s, error, now);
        written_chunks_keep_it_well_formed(s, error, now);
        in_turn_is_ready(s.on_chunk_written(error, now));
    }
    if s.waiting is Rename {
        commits_ask_in_turn(s, placed);
        commits_keep_it_well_formed(s, placed);
        in_turn_is_ready(s.on_committed(placed));
    }
    if s.waiting is Dropping {
        placements_ask_in_turn(s, Err((Seq::empty(), Seq::empty())), placed, now);
        in_turn_is_ready(s.on_item_placed(placed));
    }
}

proof fn found_first(first: Seq<Act>, rest: Seq<Act>, act: Act)
    requires
        first.contains(act),
    ensures
        (first + rest).contains(act),
{
    let i = choose|i: int| 0 <= i < first.len() && first[i] == act;
    assert((first + rest)[i] == act);
}

proof fn found_last(first: Seq<Act>, act: Act)
    ensures
        first.push(act).contains(act),
{
    assert(first.push(act)[first.len() as int] == act);
}

/// Giving up on a file leaves nothing of it: its part file is deleted and
/// its id is free again.
pub open spec fn discarded(s: Incoming, r: Step, id: u64) -> bool {
    &&& r.acts.contains(Act::Discard { id, part: at(s.recv, id).part })
    &&& !has_key(r.state.recv, id)
}

proof fn settling_leaves_files(s: Incoming, id: u64, t: Receiving, reason: Seq<char>)
    ensures
        s.settle_failure(id, t, reason).state.recv == s.recv,
{
}

proof fn failed_chunks_are_discarded(s: Incoming, id: u64, received: u64, reason: Seq<char>)
    requires
        s.sound(),
        has_key(s.recv, id),
    ensures
        discarded(s, s.chunk_failed(id, received, reason), id),
        s.chunk_failed(id, received, reason).acts.contains(
            Act::Send(Msg::FileCancel { id, reason }),
        ),
{
    let t = at(s.recv, id);
    let row = own_row(
        t.tree,
        file_report(id, t.name, received, t.size, TransferState::Failed, Some(reason)),
    );
    let cancel = Act::Send(Msg::FileCancel { id, reason });
    let discard = Act::Discard { id, part: t.part };
    let first = row + seq![cancel, discard];
    assert(first[row.len() as int] == cancel);
    assert(first[row.len() as int + 1] == discard);
    let rest = s.with_recv(erased(s.recv, id)).settle_failure(id, t, reason);
    found_first(first, rest.acts, cancel);
    found_first(first, rest.acts, discard);
    erased_is_gone(s.recv, id, id);
    settling_leaves_files(s.with_recv(erased(s.recv, id)), id, t, reason);
}

/// A file that fails leaves nothing behind: where a chunk is too much or out
/// of order, where the sender gives up, and where what came does not verify,
/// the part file is deleted.
pub proof fn failed_files_leave_nothing(s: Incoming, msg: Msg, now: u64)
    requires
        s.wf(),
    ensures
        msg matches Msg::FileChunk { id, offset, data } ==> has_key(s.recv, id) && (data.len()
            > CHUNK_SIZE || at(s.recv, id).received + data.len() > at(s.recv, id).size || offset
            != at(s.recv, id).received) ==> discarded(s, s.on_message(msg, now), id),
        msg matches Msg::FileCancel { id, .. } ==> has_key(s.recv, id) ==> discarded(
            s,
            s.on_message(msg, now),
            id,
        ),
        msg matches Msg::FileDone { id, sha256: hash } ==> has_key(s.recv, id) && (sha256(
            at(s.recv, id).content,
        ) != hash || at(s.recv, id).received != at(s.recv, id).size) ==> discarded(
            s,
            s.on_message(msg, now),
            id,
        ),
{
    match msg {
        Msg::FileChunk { id, offset, data } => {
            if has_key(s.recv, id) {
                let t = at(s.recv, id);
                failed_chunks_are_discarded(s, id, t.received, "transfer exceeds offered size"@);
                failed_chunks_are_discarded(s, id, t.received, "chunks out of order"@);
            }
        },
        Msg::FileCancel { id, reason } => {
            if has_key(s.recv, id) {
                let t = at(s.recv, id);
                let row = own_row(
                    t.tree,
                    file_report(
                        id,
                        t.name,
                        t.received,
                        t.size,
                        TransferState::Failed,
                        Some(reason),
                    ),
                );
                let discard = Act::Discard { id, part: t.part };
                let rest = s.with_recv(erased(s.recv, id)).settle_failure(id, t, reason);
                found_last(row, discard);
                found_first(row.push(discard), rest.acts, discard);
                erased_is_gone(s.recv, id, id);
                settling_leaves_files(s.with_recv(erased(s.recv, id)), id, t, reason);
            }
        },
        Msg::FileDone { id, sha256: hash } => {
            if has_key(s.recv, id) {
                let t = at(s.recv, id);
                let gone = s.with_recv(erased(s.recv, id));
                let discard = Act::Discard { id, part: t.part };
                let why = if sha256(t.content) != hash {
                    "integrity check failed (sha256 mismatch)"@
                } else {
                    incomplete(t.received, t.size)
                };
                let rest = gone.not_finished(id, t.name, t.size, t.drag, t.tree, why);
                assert(seq![discard][0] == discard);
                found_first(seq![discard], rest.acts, discard);
                erased_is_gone(s.recv, id, id);
            }
        },
        _ => {},
    }
}

/// A chunk that cannot be written ends its file: the part file is deleted
/// and the sender is told.
pub proof fn unwritten_files_leave_nothing(s: Incoming, error: Seq<char>, now: u64)
    requires
        s.wf(),
        s.waiting is Chunk,
    ensures
        ({
            let id = s.waiting->Chunk_id;
            let r = s.on_chunk_written(Some(error), now);
            &&& discarded(s, r, id)
            &&& r.acts.contains(
                Act::Send(Msg::FileCancel { id, reason: "write failed: "@ + error }),
            )
        }),
{
    let id = s.waiting->Chunk_id;
    let t = s.awaiting(Wait::Nothing);
    failed_chunks_are_discarded(
        t,
        id,
        (at(s.recv, id).received - s.waiting->Chunk_len) as u64,
        "write failed: "@ + error,
    );
}

/// A folder that failed leaves nothing half-copied: once its sender has
/// closed it and no file of it is in flight, what it has on disk is removed
/// and the failure is reported.
pub proof fn failed_folders_leave_nothing(
    s: Incoming,
    tree: u64,
    error: Option<Seq<char>>,
    now: u64,
)
    requires
        s.wf(),
        has_key(s.trees, tree),
        at(s.trees, tree).outstanding.len() == 0,
        at(s.trees, tree).failed is Some || error is Some,
    ensures
        ({
            let t = at(s.trees, tree);
            let r = s.on_message(Msg::TreeEnd { tree, error }, now);
            &&& t.root != Place::nowhere() ==> r.acts.contains(Act::RemoveTree(t.root))
            &&& t.staging is Some ==> r.acts.contains(Act::RemoveTree(t.staging->0))
            &&& exists|why: Seq<char>|
                #![trigger t.row(t.done_bytes, TransferState::Failed, Some(why))]
                r.acts.contains(
                    Act::Report(
                        Event::Transfer(t.row(t.done_bytes, TransferState::Failed, Some(why))),
                    ),
                )
            &&& !has_key(r.state.trees, tree)
        }),
{
    let t = at(s.trees, tree);
    let ended = Folder { ended: true, ..t };
    let u = match error {
        Some(reason) => ended.fail("sender: "@ + reason),
        None => ended,
    };
    let m = s.with_tree(tree, u);
    stored_reads_back(s.trees, tree, u, tree);
    let why = u.failed->0;
    let report = Act::Report(
        Event::Transfer(u.row(u.done_bytes, TransferState::Failed, Some(why))),
    );
    assert(u.row(u.done_bytes, TransferState::Failed, Some(why)) == t.row(
        t.done_bytes,
        TransferState::Failed,
        Some(why),
    ));
    let dirs = folder_dirs(u);
    let gone = dirs.push(report);
    let after = m.with_trees(erased(m.trees, tree));
    let rest = if u.drag is Some && after.drags(u.drag->0) {
        let d = after.drag->0;
        after.with_drag(
            Some(Dragging { outstanding: without_id(d.outstanding, tree), ..d }),
        ).finalize_drag()
    } else {
        after.nothing()
    };
    erased_is_gone(m.trees, tree, tree);
    found_last(dirs, report);
    found_first(gone, rest.acts, report);
    if t.root != Place::nowhere() {
        assert(gone[0] == Act::RemoveTree(t.root));
        found_first(gone, rest.acts, Act::RemoveTree(t.root));
    }
    if t.staging is Some {
        assert(gone[gone.len() - 2] == Act::RemoveTree(t.staging->0));
        found_first(gone, rest.acts, Act::RemoveTree(t.staging->0));
    }
}

/// A folder whose files have all verified is delivered as soon as its sender
/// closes it.
pub proof fn whole_folders_are_delivered(s: Incoming, tree: u64, now: u64)
    requires
        s.wf(),
        has_key(s.trees, tree),
        at(s.trees, tree).outstanding.len() == 0,
        at(s.trees, tree).failed is None,
        at(s.trees, tree).drag is None,
    ensures
        s.on_message(Msg::TreeEnd { tree, error: None }, now).acts == seq![
            Act::EnsureDir(s.file_dir),
            Act::Do(
                Job::PlaceFolder {
                    from: at(s.trees, tree).root,
                    dir: s.file_dir,
                    name: at(s.trees, tree).name,
                },
            ),
        ],
{
    stored_reads_back(s.trees, tree, Folder { ended: true, ..at(s.trees, tree) }, tree);
}

/// A drop whose items have all settled is carried out at once: the first
/// item goes into place, or, if none arrived, the staging directory goes.
pub proof fn settled_drops_are_carried_out(s: Incoming, drag: u64, now: u64)
    requires
        s.drags(drag),
        s.drag->0.settled(),
    ensures
        ({
            let d = s.drag->0;
            let r = s.on_message(Msg::DragDrop { drag }, now);
            &&& r.state.drag is None
            &&& d.done.len() > 0 ==> r.acts.contains(
                Act::Do(
                    Job::PlaceItem {
                        from: d.done[0].path,
                        dir: s.drop_place(),
                        name: d.done[0].name,
                        kind: d.done[0].kind,
                    },
                ),
            )
            &&& d.done.len() == 0 ==> r.acts.contains(Act::RemoveTree(d.dir))
        }),
{
    let r = s.on_message(Msg::DragDrop { drag }, now);
    if s.drag->0.done.len() > 0 {
        assert(r.acts[1] is Do);
    } else {
        assert(r.acts[1] is RemoveTree);
    }
}

/// The items of a drop land one after the other; after the last the staging
/// directory goes, and what landed is reported.
pub proof fn dropped_items_land_in_turn(
    s: Incoming,
    placed: Result<Seq<char>, (Seq<char>, Seq<char>)>,
)
    requires
        s.wf(),
        s.waiting is Dropping,
    ensures
        ({
            let d = s.waiting->Dropping_drag;
            let next = s.waiting->Dropping_next + 1;
            let landed = match placed {
                Ok(path) => s.waiting->Dropping_placed.push(path),
                Err(_) => s.waiting->Dropping_placed,
            };
            let r = s.on_item_placed(placed);
            &&& next < d.done.len() ==> r.acts.last() == Act::Do(
                Job::PlaceItem {
                    from: d.done[next as int].path,
                    dir: s.waiting->Dropping_dest,
                    name: d.done[next as int].name,
                    kind: d.done[next as int].kind,
                },
            )
            &&& next == d.done.len() ==> r.acts.contains(Act::RemoveTree(d.dir))
            &&& next == d.done.len() && landed.len() > 0 ==> r.acts.last() == Act::Report(
                Event::DragDropped { paths: landed },
            )
        }),
{
    let d = s.waiting->Dropping_drag;
    let r = s.on_item_placed(placed);
    let next = s.waiting->Dropping_next + 1;
    if next == d.done.len() {
        let at_row: int = if placed is Ok {
            1
        } else {
            0
        };
        assert(r.acts[at_row] == Act::RemoveTree(d.dir));
    }
}

/// Folders that had failed, and are still there, failed for the same reason.
pub open spec fn keeps_failures(a: Seq<(u64, Folder)>, b: Seq<(u64, Folder)>) -> bool {
    forall|tree: u64| #[trigger]
        has_key(a, tree) && at(a, tree).failed is Some && has_key(b, tree) ==> at(b, tree).failed
            == at(a, tree).failed
}

proof fn changing_one_folder(a: Seq<(u64, Folder)>, tree: u64, t: Folder)
    requires
        keys_differ(a),
        has_key(a, tree) && at(a, tree).failed is Some ==> t.failed == at(a, tree).failed,
    ensures
        keeps_failures(a, stored(a, tree, t)),
        keeps_failures(a, erased(stored(a, tree, t), tree)),
{
    let b = stored(a, tree, t);
    stored_reads_back(a, tree, t, tree);
    assert forall|other: u64| #[trigger]
        has_key(a, other) && at(a, other).failed is Some && has_key(b, other) implies at(
        b,
        other,
    ).failed == at(a, other).failed by {
        stored_reads_back(a, tree, t, other);
    }
    let c = erased(b, tree);
    assert forall|other: u64| #[trigger]
        has_key(a, other) && at(a, other).failed is Some && has_key(c, other) implies at(
        c,
        other,
    ).failed == at(a, other).failed by {
        stored_reads_back(a, tree, t, other);
        erased_is_gone(b, tree, other);
    }
}

/// A file of the folder `tree` has settled: the folder is told, and may be
/// finished with.
proof fn settling_keeps_failures(s: Incoming, id: u64, tree: u64, reason: Seq<char>)
    requires
        keys_differ(s.trees),
        has_key(s.trees, tree),
    ensures
        ({
            let f = at(s.trees, tree);
            let t = (Folder { outstanding: without_id(f.outstanding, id), ..f }).fail(reason);
            keeps_failures(s.trees, s.with_tree(tree, t).finalize_tree(tree).state.trees)
        }),
{
    let f = at(s.trees, tree);
    let t = (Folder { outstanding: without_id(f.outstanding, id), ..f }).fail(reason);
    changing_one_folder(s.trees, tree, t);
}

/// A folder that failed stays failed, for the reason it first failed for.
pub proof fn failed_folders_stay_failed(s: Incoming, msg: Msg, now: u64)
    requires
        s.wf(),
        s.waiting is Nothing,
    ensures
        keeps_failures(s.trees, s.on_message(msg, now).state.trees),
{
    match msg {
        Msg::DragBegin { .. } => {
            if s.drag is Some {
                filtered_is_part(s.trees, outside(s.drag->0.drag));
            }
        },
        Msg::DragCancel { .. } => {
            if s.drag is Some {
                filtered_is_part(s.trees, outside(s.drag->0.drag));
            }
        },
        Msg::TreeOffer { tree, name, files, bytes, drag } => {
            if !has_key(s.trees, tree) {
                changing_one_folder(
                    s.trees,
                    tree,
                    refused(tree, name, files, bytes, drag, "no drag in progress"@, now),
                );
                changing_one_folder(
                    s.trees,
                    tree,
                    refused(tree, name, files, bytes, drag, "invalid folder name"@, now),
                );
            }
        },
        Msg::TreeDir { tree, rel } => {
            let t = at(s.trees, tree);
            let t = Folder { entries: (t.entries + 1) as u64, ..t };
            if has_key(s.trees, tree) {
                changing_one_folder(s.trees, tree, t);
                changing_one_folder(s.trees, tree, t.fail("folder has too many entries"@));
                changing_one_folder(s.trees, tree, t.fail("invalid path inside folder: "@ + rel));
            }
        },
        Msg::TreeFile { tree, id, rel, size } => {
            let t = at(s.trees, tree);
            let t = Folder { entries: (t.entries + 1) as u64, ..t };
            if has_key(s.trees, tree) {
                changing_one_folder(s.trees, tree, t);
                changing_one_folder(s.trees, tree, t.fail("folder has too many entries"@));
                changing_one_folder(s.trees, tree, t.fail("invalid path inside folder: "@ + rel));
                let told = t.fail("could not receive "@ + rel);
                changing_one_folder(s.trees, tree, told);
                stored_reads_back(s.trees, tree, t, tree);
                storing_twice(s.trees, tree, t, told);
            }
        },
        Msg::TreeEnd { tree, error } => {
            if has_key(s.trees, tree) {
                let t = Folder { ended: true, ..at(s.trees, tree) };
                let t = match error {
                    Some(reason) => t.fail("sender: "@ + reason),
                    None => t,
                };
                changing_one_folder(s.trees, tree, t);
            }
        },
        Msg::FileChunk { id, .. } => {
            stream_failures_are_kept(s, id, "transfer exceeds offered size"@);
            stream_failures_are_kept(s, id, "chunks out of order"@);
        },
        Msg::FileDone { id, .. } => {
            stream_failures_are_kept(s, id, "integrity check failed (sha256 mismatch)"@);
            if has_key(s.recv, id) {
                let t = at(s.recv, id);
                stream_failures_are_kept(s, id, incomplete(t.received, t.size));
            }
        },
        Msg::FileCancel { id, reason } => {
            stream_failures_are_kept(s, id, reason);
        },
        _ => {},
    }
}

proof fn stream_failures_are_kept(s: Incoming, id: u64, reason: Seq<char>)
    requires
        s.wf(),
    ensures
        has_key(s.recv, id) ==> ({
            let t = at(s.recv, id);
            let r = s.with_recv(erased(s.recv, id));
            &&& keeps_failures(s.trees, r.settle_failure(id, t, reason).state.trees)
            &&& keeps_failures(
                s.trees,
                r.not_finished(id, t.name, t.size, t.drag, t.tree, reason).state.trees,
            )
        }),
{
    if has_key(s.recv, id) {
        let t = at(s.recv, id);
        let r = s.with_recv(erased(s.recv, id));
        if t.tree is Some && has_key(s.trees, t.tree->0) {
            settling_keeps_failures(r, id, t.tree->0, t.name + ": "@ + reason);
        }
    }
}

proof fn storing_twice(s: Seq<(u64, Folder)>, tree: u64, t: Folder, u: Folder)
    requires
        has_key(s, tree),
    ensures
        stored(stored(s, tree, t), tree, u) == stored(s, tree, u),
{
    position_finds(s, tree);
    let b = stored(s, tree, t);
    position_is(b, tree, position(s, tree));
    assert(stored(b, tree, u) =~= stored(s, tree, u));
}

/* -------------------------------- answers -------------------------------- */

/// Every offer of a file is answered: at once with a reason why not, or,
/// once its part file has been tried, with an acceptance or a reason why
/// not.
pub proof fn offers_are_answered(s: Incoming, msg: Msg, now: u64)
    requires
        s.wf(),
        s.waiting is Nothing,
        msg is FileOffer || msg is DragOffer || msg is TreeFile,
    ensures
        ({
            let id = match msg {
                Msg::FileOffer { id, .. } => id,
                Msg::DragOffer { id, .. } => id,
                _ => msg->TreeFile_id,
            };
            let r = s.on_message(msg, now);
            ||| r.state.waiting is Part && r.state.waiting->Part_id == id
            ||| exists|i: int|
                0 <= i < r.acts.len() && (#[trigger] r.acts[i]) is Send && r.acts[i]->Send_0
                    is FileReject && r.acts[i]->Send_0->FileReject_id == id
        }),
{
    let r = s.on_message(msg, now);
    if !(r.state.waiting is Part) {
        assert(r.acts[0] is Send || r.acts[1] is Send);
    }
}

/// The answer to an offer whose part file has been tried.
pub proof fn tried_offers_are_answered(
    s: Incoming,
    opened: Result<(Place, Place), (Seq<char>, Seq<char>)>,
    now: u64,
)
    requires
        s.waiting is Part,
    ensures
        ({
            let id = s.waiting->Part_id;
            let r = s.on_part_opened(opened, now);
            exists|i: int|
                0 <= i < r.acts.len() && (#[trigger] r.acts[i]) is Send && (if opened is Ok {
                    r.acts[i]->Send_0 == Msg::FileAccept { id }
                } else {
                    r.acts[i]->Send_0 is FileReject && r.acts[i]->Send_0->FileReject_id == id
                })
        }),
{
    let r = s.on_part_opened(opened, now);
    assert(r.acts[0] is Send || r.acts[1] is Send);
}

/// An id that is in use is refused, and the transfer that uses it is left
/// alone.
pub proof fn used_ids_are_refused(s: Incoming, id: u64, name: Seq<char>, size: u64, now: u64)
    requires
        has_key(s.recv, id),
    ensures
        s.on_message(Msg::FileOffer { id, name, size }, now).state == s,
        s.on_message(Msg::FileOffer { id, name, size }, now).acts == seq![
            Act::Send(Msg::FileReject { id, reason: "transfer id already in use"@ }),
        ],
{
}

/* ------------------------------ confinement ------------------------------ */

/// `p` is `root`, or inside it by safe names alone.
pub open spec fn inside(p: Place, root: Place) -> bool {
    &&& p.base == root.base
    &&& root.parts.len() <= p.parts.len()
    &&& p.parts.take(root.parts.len() as int) == root.parts
    &&& forall|k: int| root.parts.len() <= k < p.parts.len() ==> is_safe(#[trigger] p.parts[k])
}

proof fn followed_is_inside(root: Place, names: Seq<Seq<char>>)
    requires
        forall|k: int| 0 <= k < names.len() ==> is_safe(#[trigger] names[k]),
    ensures
        inside(root.follow(names), root),
{
    let p = root.follow(names);
    assert(p.parts.take(root.parts.len() as int) =~= root.parts);
    assert forall|k: int| root.parts.len() <= k < p.parts.len() implies is_safe(
        #[trigger] p.parts[k],
    ) by {
        assert(p.parts[k] == names[k - root.parts.len()]);
    }
}

/// Whatever paths the peer names inside a folder, what is created for them
/// stays inside the folder's root, under safe names.
pub proof fn folder_entries_stay_inside(s: Incoming, msg: Msg, now: u64, i: int)
    requires
        msg is TreeDir || msg is TreeFile,
        0 <= i < s.on_message(msg, now).acts.len(),
        s.on_message(msg, now).acts[i] is Do,
    ensures
        ({
            let tree = if msg is TreeDir {
                msg->TreeDir_tree
            } else {
                msg->TreeFile_tree
            };
            let root = at(s.trees, tree).root;
            let act = s.on_message(msg, now).acts[i]->Do_0;
            &&& has_key(s.trees, tree)
            &&& act is MakeDir ==> inside(act->MakeDir_0, root)
            &&& act is OpenPart ==> inside(act->OpenPart_dir, root) && is_safe(act->OpenPart_name)
            &&& msg is TreeDir ==> act is MakeDir
            &&& act is MakeDir || act is OpenPart || act is PlaceItem
        }),
{
    let rel = if msg is TreeDir {
        msg->TreeDir_rel
    } else {
        msg->TreeFile_rel
    };
    let tree = if msg is TreeDir {
        msg->TreeDir_tree
    } else {
        msg->TreeFile_tree
    };
    if has_key(s.trees, tree) && safe_rel(rel) is Some {
        let root = at(s.trees, tree).root;
        let names = safe_rel(rel)->0;
        accepted_paths_stay_inside(rel);
        assert forall|k: int| 0 <= k < names.len() implies is_safe(#[trigger] names[k]) by {
            assert(is_safe(safe_rel(rel)->0[k]));
        }
        followed_is_inside(root, names);
        followed_is_inside(root, names.drop_last());
        received_names_are_safe(names.last());
    }
}

/// A folder arrives with its structure intact: where the names of a path are
/// safe, the directory or file is asked for at exactly that path inside the
/// folder.
pub proof fn folder_structure_is_kept(
    s: Incoming,
    tree: u64,
    id: u64,
    rel: Seq<char>,
    size: u64,
    now: u64,
)
    requires
        s.wf(),
        has_key(s.trees, tree),
        at(s.trees, tree).failed is None,
        at(s.trees, tree).entries < MAX_TREE_ENTRIES,
        !has_key(s.recv, id),
        rel.len() > 0,
        encode_utf8(rel).len() <= MAX_REL_BYTES,
        components(rel).len() <= MAX_TREE_DEPTH,
        forall|i: int| 0 <= i < components(rel).len() ==> is_safe(#[trigger] components(rel)[i]),
    ensures
        ({
            let root = at(s.trees, tree).root;
            let names = components(rel);
            &&& s.on_message(Msg::TreeDir { tree, rel }, now).acts == seq![
                Act::Do(Job::MakeDir(root.follow(names))),
            ]
            &&& s.on_message(Msg::TreeFile { tree, id, rel, size }, now).acts == seq![
                Act::Do(
                    Job::OpenPart { id, dir: root.follow(names.drop_last()), name: names.last() },
                ),
            ]
        }),
{
    safe_paths_are_kept(rel);
    accepted_paths_stay_inside(rel);
    let names = components(rel);
    assert(is_safe(names[names.len() - 1]));
    safe_names_are_kept(names.last());
}

/// The only rows among these effects are those of folders.
pub open spec fn reports_folders_only(acts: Seq<Act>) -> bool {
    forall|i: int|
        0 <= i < acts.len() ==> ((#[trigger] acts[i]) matches Act::Report(Event::Transfer(row))
            ==> row.kind == TransferKind::Folder)
}

proof fn dropping_reports_no_rows(s: Incoming)
    ensures
        reports_folders_only(s.finalize_drag().acts),
{
}

proof fn finishing_reports_the_folder(s: Incoming, tree: u64)
    ensures
        reports_folders_only(s.finalize_tree(tree).acts),
{
    if has_key(s.trees, tree) && at(s.trees, tree).settled() {
        let t = at(s.trees, tree);
        let u = s.with_trees(erased(s.trees, tree));
        if t.drag is Some && u.drags(t.drag->0) {
            let d = u.drag->0;
            let item = Staged {
                id: tree,
                name: t.name,
                kind: TransferKind::Folder,
                files: t.files,
                size: t.total,
                path: t.root,
            };
            dropping_reports_no_rows(
                u.with_drag(Some(Dragging { outstanding: without_id(d.outstanding, tree), ..d })),
            );
            dropping_reports_no_rows(
                u.with_drag(
                    Some(
                        Dragging {
                            outstanding: without_id(d.outstanding, tree),
                            done: d.done.push(item),
                            ..d
                        },
                    ),
                ),
            );
        }
    }
}

proof fn folder_rows_add_up(first: Seq<Act>, r: Step)
    requires
        reports_folders_only(first),
        reports_folders_only(r.acts),
    ensures
        reports_folders_only(and_then(first, r).acts),
{
}

proof fn failing_reports_the_folder(s: Incoming, id: u64, t: Receiving, reason: Seq<char>)
    requires
        t.tree is Some,
    ensures
        reports_folders_only(s.settle_failure(id, t, reason).acts),
{
    let tree = t.tree->0;
    let f = at(s.trees, tree);
    let left = Folder { outstanding: without_id(f.outstanding, id), ..f };
    finishing_reports_the_folder(s.with_tree(tree, left.fail(t.name + ": "@ + reason)), tree);
}

proof fn failed_chunks_report_the_folder(s: Incoming, id: u64, received: u64, reason: Seq<char>)
    requires
        at(s.recv, id).tree is Some,
    ensures
        reports_folders_only(s.chunk_failed(id, received, reason).acts),
{
    let t = at(s.recv, id);
    let first = own_row(
        t.tree,
        file_report(id, t.name, received, t.size, TransferState::Failed, Some(reason)),
    ) + seq![Act::Send(Msg::FileCancel { id, reason }), Act::Discard { id, part: t.part }];
    let gone = s.with_recv(erased(s.recv, id));
    failing_reports_the_folder(gone, id, t, reason);
    folder_rows_add_up(first, gone.settle_failure(id, t, reason));
}

proof fn unfinished_files_report_the_folder(
    s: Incoming,
    id: u64,
    name: Seq<char>,
    size: u64,
    drag: Option<u64>,
    tree: u64,
    reason: Seq<char>,
)
    ensures
        reports_folders_only(s.not_finished(id, name, size, drag, Some(tree), reason).acts),
{
    let f = at(s.trees, tree);
    let left = Folder { outstanding: without_id(f.outstanding, id), ..f };
    finishing_reports_the_folder(s.with_tree(tree, left.fail(name + ": "@ + reason)), tree);
}

/// A folder is one row: no chunk, completion or cancellation of a file
/// inside a folder makes a row of its own for that file.
pub proof fn folder_files_have_no_rows(
    s: Incoming,
    id: u64,
    offset: u64,
    data: Seq<u8>,
    hash: Seq<u8>,
    reason: Seq<char>,
    now: u64,
)
    requires
        has_key(s.recv, id),
        at(s.recv, id).tree is Some,
    ensures
        reports_folders_only(s.on_message(Msg::FileChunk { id, offset, data }, now).acts),
        reports_folders_only(s.on_message(Msg::FileDone { id, sha256: hash }, now).acts),
        reports_folders_only(s.on_message(Msg::FileCancel { id, reason }, now).acts),
{
    let t = at(s.recv, id);
    let gone = s.with_recv(erased(s.recv, id));
    assert(reports_folders_only(s.on_chunk(id, offset, data).acts)) by {
        failed_chunks_report_the_folder(s, id, t.received, "transfer exceeds offered size"@);
        failed_chunks_report_the_folder(s, id, t.received, "chunks out of order"@);
    }
    assert(reports_folders_only(s.on_done(id, hash).acts)) by {
        let why = if sha256(t.content) != hash {
            "integrity check failed (sha256 mismatch)"@
        } else {
            incomplete(t.received, t.size)
        };
        let tree = t.tree->0;
        unfinished_files_report_the_folder(gone, id, t.name, t.size, t.drag, tree, why);
        folder_rows_add_up(
            seq![Act::Discard { id, part: t.part }],
            gone.not_finished(id, t.name, t.size, t.drag, Some(tree), why),
        );
    }
    assert(reports_folders_only(s.on_cancel(id, reason).acts)) by {
        failing_reports_the_folder(gone, id, t, reason);
        folder_rows_add_up(
            own_row(
                t.tree,
                file_report(
                    id,
                    t.name,
                    t.received,
                    t.size,
                    TransferState::Failed,
                    Some(reason),
                ),
            ).push(Act::Discard { id, part: t.part }),
            gone.settle_failure(id, t, reason),
        );
    }
}

/// Nor does a chunk of such a file that was written, or not.
pub proof fn written_folder_chunks_have_no_rows(s: Incoming, error: Option<Seq<char>>, now: u64)
    requires
        s.waiting is Chunk,
        at(s.recv, s.waiting->Chunk_id).tree is Some,
    ensures
        reports_folders_only(s.on_chunk_written(error, now).acts),
{
    let id = s.waiting->Chunk_id;
    if let Some(e) = error {
        failed_chunks_report_the_folder(
            s.awaiting(Wait::Nothing),
            id,
            (at(s.recv, id).received - s.waiting->Chunk_len) as u64,
            "write failed: "@ + e,
        );
    }
}

/// Nor does the move of such a file to its final name.
pub proof fn committed_folder_files_have_no_rows(
    s: Incoming,
    placed: Result<Seq<char>, (Seq<char>, Seq<char>)>,
)
    requires
        s.waiting is Rename,
        s.waiting->Rename_tree is Some,
    ensures
        reports_folders_only(s.on_committed(placed).acts),
{
    let w = s.waiting;
    let u = s.awaiting(Wait::Nothing);
    let tree = w->Rename_tree->0;
    match placed {
        Ok(_) => {
            let f = at(u.trees, tree);
            finishing_reports_the_folder(
                u.with_tree(
                    tree,
                    Folder {
                        outstanding: without_id(f.outstanding, w->Rename_id),
                        done_bytes: capped(f.done_bytes as int, w->Rename_size as int),
                        ..f
                    },
                ),
                tree,
            );
        },
        Err((at, cause)) => {
            unfinished_files_report_the_folder(
                u,
                w->Rename_id,
                w->Rename_name,
                w->Rename_size,
                w->Rename_drag,
                tree,
                "cannot rename to "@ + at + ": "@ + cause,
            );
        },
    }
}

/// A file offered on its own, or for a drag, is created under a safe name in
/// the receive folder or the drag's staging directory.
pub proof fn offered_files_stay_inside(s: Incoming, msg: Msg, now: u64, i: int)
    requires
        msg is FileOffer || msg is DragOffer,
        0 <= i < s.on_message(msg, now).acts.len(),
        s.on_message(msg, now).acts[i] is Do,
        s.on_message(msg, now).acts[i]->Do_0 is OpenPart,
    ensures
        is_safe(s.on_message(msg, now).acts[i]->Do_0->OpenPart_name),
        msg is FileOffer ==> s.on_message(msg, now).acts[i]->Do_0->OpenPart_dir == s.file_dir,
        msg is DragOffer ==> s.drag is Some && s.on_message(msg, now).acts[i]->Do_0->OpenPart_dir
            == s.drag->0.dir,
{
    let name = if msg is FileOffer {
        msg->FileOffer_name
    } else {
        msg->DragOffer_name
    };
    received_names_are_safe(name);
}

/* --------------------------------- the end --------------------------------- */

proof fn closing_covers_files(recv: Seq<(u64, Receiving)>, k: int)
    requires
        0 <= k < recv.len(),
    ensures
        closing_files(recv).contains(Act::Discard { id: recv[k].0, part: recv[k].1.part }),
    decreases recv.len(),
{
    let before = closing_files(recv.drop_last());
    let all = closing_files(recv);
    let want = Act::Discard { id: recv[k].0, part: recv[k].1.part };
    if k == recv.len() - 1 {
        assert(all[all.len() - 1] == want);
    } else {
        closing_covers_files(recv.drop_last(), k);
        let i = choose|i: int| 0 <= i < before.len() && before[i] == want;
        assert(all[i] == want);
    }
}

proof fn closing_covers_folders(trees: Seq<(u64, Folder)>, k: int, want: Act)
    requires
        0 <= k < trees.len(),
        folder_dirs(trees[k].1).contains(want) || want == Act::Report(
            Event::Transfer(
                trees[k].1.row(
                    trees[k].1.done_bytes,
                    TransferState::Failed,
                    Some("connection closed"@),
                ),
            ),
        ),
    ensures
        closing_folders(trees).contains(want),
    decreases trees.len(),
{
    let before = closing_folders(trees.drop_last());
    let all = closing_folders(trees);
    if k == trees.len() - 1 {
        let dirs = folder_dirs(trees[k].1);
        if dirs.contains(want) {
            let i = choose|i: int| 0 <= i < dirs.len() && dirs[i] == want;
            assert(all[before.len() + i] == want);
        } else {
            assert(all[all.len() - 1] == want);
        }
    } else {
        closing_covers_folders(trees.drop_last(), k, want);
        let i = choose|i: int| 0 <= i < before.len() && before[i] == want;
        assert(all[i] == want);
    }
}

/// When the connection ends nothing half-done is left: every part file is
/// deleted, every folder's directories and the drag's staging directory are
/// removed, and every folder is reported as failed.
pub proof fn closing_leaves_nothing(s: Incoming)
    ensures
        forall|k: int|
            0 <= k < s.recv.len() ==> s.closing().contains(
                Act::Discard { id: (#[trigger] s.recv[k]).0, part: s.recv[k].1.part },
            ),
        forall|k: int|
            0 <= k < s.trees.len() ==> {
                let t = (#[trigger] s.trees[k]).1;
                &&& t.root != Place::nowhere() ==> s.closing().contains(Act::RemoveTree(t.root))
                &&& t.staging is Some ==> s.closing().contains(Act::RemoveTree(t.staging->0))
                &&& s.closing().contains(
                    Act::Report(
                        Event::Transfer(
                            t.row(t.done_bytes, TransferState::Failed, Some("connection closed"@)),
                        ),
                    ),
                )
            },
        s.drag is Some ==> s.closing().contains(Act::RemoveTree(s.drag->0.dir)),
{
    let files = closing_files(s.recv);
    let folders = closing_folders(s.trees);
    let all = s.closing();
    assert forall|k: int| 0 <= k < s.recv.len() implies all.contains(
        Act::Discard { id: (#[trigger] s.recv[k]).0, part: s.recv[k].1.part },
    ) by {
        let want = Act::Discard { id: s.recv[k].0, part: s.recv[k].1.part };
        closing_covers_files(s.recv, k);
        let i = choose|i: int| 0 <= i < files.len() && files[i] == want;
        assert(all[i] == want);
    }
    assert forall|k: int, want: Act|
        #![trigger s.trees[k], folders.contains(want)]
        folders.contains(want) implies all.contains(want) by {
        let i = choose|i: int| 0 <= i < folders.len() && folders[i] == want;
        assert(all[files.len() + i] == want);
    }
    assert forall|k: int| 0 <= k < s.trees.len() implies {
        let t = (#[trigger] s.trees[k]).1;
        &&& t.root != Place::nowhere() ==> all.contains(Act::RemoveTree(t.root))
        &&& t.staging is Some ==> all.contains(Act::RemoveTree(t.staging->0))
        &&& all.contains(
            Act::Report(
                Event::Transfer(
                    t.row(t.done_bytes, TransferState::Failed, Some("connection closed"@)),
                ),
            ),
        )
    } by {
        let t = s.trees[k].1;
        let dirs = folder_dirs(t);
        if t.root != Place::nowhere() {
            assert(dirs[0] == Act::RemoveTree(t.root));
            closing_covers_folders(s.trees, k, Act::RemoveTree(t.root));
        }
        if t.staging is Some {
            assert(dirs[dirs.len() - 1] == Act::RemoveTree(t.staging->0));
            closing_covers_folders(s.trees, k, Act::RemoveTree(t.staging->0));
        }
        let row = Act::Report(
            Event::Transfer(
                t.row(t.done_bytes, TransferState::Failed, Some("connection closed"@)),
            ),
        );
        closing_covers_folders(s.trees, k, row);
        assert(folders.contains(row));
    }
    if s.drag is Some {
        assert(all[all.len() - 1] == Act::RemoveTree(s.drag->0.dir));
    }
}

/// A cancelled drag goes away with everything in flight for it: no file
/// that was offered to it and no folder of it is left, and its staging
/// directory is removed.
pub proof fn cancelled_drags_leave_nothing(s: Incoming, drag: u64, now: u64)
    requires
        s.wf(),
        s.drags(drag),
    ensures
        ({
            let r = s.on_message(Msg::DragCancel { drag }, now);
            &&& r.state.drag is None
            &&& forall|id: u64|
                s.drag->0.outstanding.contains(id) ==> !#[trigger] has_key(r.state.recv, id)
            &&& forall|tree: u64| #[trigger]
                has_key(r.state.trees, tree) ==> at(r.state.trees, tree).drag != Some(drag)
            &&& r.acts.contains(Act::RemoveTree(s.drag->0.dir))
        }),
{
    let d = s.drag->0;
    let r = s.on_message(Msg::DragCancel { drag }, now);
    let direct = dropped(s.recv, d.outstanding);
    dropped_is_part(s.recv, d.outstanding);
    forsaken_is_part(direct, s.trees, d.drag);
    filtered_is_part(s.trees, outside(d.drag));
    assert forall|id: u64| d.outstanding.contains(id) implies !#[trigger] has_key(
        r.state.recv,
        id,
    ) by {
        if has_key(r.state.recv, id) {
            assert(has_key(direct, id));
        }
    }
    assert forall|tree: u64| #[trigger] has_key(r.state.trees, tree) implies at(
        r.state.trees,
        tree,
    ).drag != Some(drag) by {
        assert(outside(d.drag)((tree, at(s.trees, tree))));
    }
    assert(r.acts[r.acts.len() - 1] == Act::RemoveTree(d.dir));
}

} // verus!
