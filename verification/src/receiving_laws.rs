//! What each message and each outcome of file work comes to on the receiving
//! side, one situation at a time.

use crate::digest::{absorbed, sha256};
use crate::effects::{Act, Effect, IoFailure, Job, RootMade, Task};
use crate::event::{Event, SyncEvent};
use crate::inbox::{
    error_text, failure_text, opened_places, placed_text, root_places, Inbox, Waiting,
};
use crate::incoming::{
    closing_files, closing_folders, discards, dropped, forsaken, forsaking, incomplete, inflight,
    lost_items, Incoming, Step, Wait,
};
use crate::ipc::{Direction, Row, TransferKind, TransferState};
use crate::names::{safe_name, safe_rel, texts, Location, Place};
use crate::proto::{Msg, SyncMessage};
use crate::receive::{
    drag_view, opt_place, Dragging, Folder, IncomingDrag, IncomingTree, Receiving,
    RecvTransfer, Staged, StagedItem,
};
use crate::table::{
    at, erased, erased_is_gone, has_key, stored, stored_reads_back, with_id, without_id,
};
use crate::text::numeral;
use vstd::prelude::*;

verus! {

/// The row of a file that is being received.
pub open spec fn file_told(
    id: u64,
    name: Seq<char>,
    transferred: u64,
    total: u64,
    state: TransferState,
    detail: Option<Seq<char>>,
) -> Act {
    Act::Report(
        Event::Transfer(
            Row {
                id,
                name,
                direction: Direction::Received,
                transferred,
                total,
                state,
                detail,
                kind: TransferKind::File,
                files: 0,
            },
        ),
    )
}

/// The row of a folder that is being received.
pub open spec fn folder_told(
    tree: u64,
    name: Seq<char>,
    files: u32,
    transferred: u64,
    total: u64,
    state: TransferState,
    detail: Option<Seq<char>>,
) -> Act {
    Act::Report(
        Event::Transfer(
            Row {
                id: tree,
                name,
                direction: Direction::Received,
                transferred,
                total,
                state,
                detail,
                kind: TransferKind::Folder,
                files,
            },
        ),
    )
}

/* ---------------------------------- drags ---------------------------------- */

/// A drag is announced: a directory of its own is asked for, and nothing is
/// there to be dropped yet.
pub proof fn drags_are_announced(s: Incoming, drag: u64, count: u32, now: u64)
    ensures
        ({
            let r = s.on_message(Msg::DragBegin { drag, count }, now);
            let dir = Place {
                base: s.file_dir.base,
                parts: s.file_dir.parts.push(".vylo-drag-"@ + numeral(drag as nat)),
            };
            &&& r.acts.len() > 0
            &&& r.acts.last() == Act::Do(Job::MakeDir(dir))
            &&& r.state.waiting == (Wait::DragDir { drag, count, dir })
            &&& r.state.drag is None
            &&& r.state.file_dir == s.file_dir && r.state.drop_dir == s.drop_dir
            &&& s.drag is None ==> r.acts.len() == 1 && r.state == (Incoming {
                waiting: r.state.waiting,
                ..s
            })
        }),
{
}

/// Once its directory is there the drag is under way: as many items are
/// expected as were announced, and none has been offered. Without the
/// directory there is no drag.
pub proof fn drags_start_empty(
    s: Incoming,
    drag: u64,
    count: u32,
    dir: Place,
    failure: (Seq<char>, Seq<char>),
)
    requires
        s.waiting == (Wait::DragDir { drag, count, dir }),
    ensures
        s.on_dir_made(None) == (Incoming {
            waiting: Wait::Nothing,
            drag: Some(
                Dragging {
                    drag,
                    dir,
                    expected: count,
                    offered: 0,
                    outstanding: Seq::empty(),
                    done: Seq::empty(),
                    drop_requested: false,
                },
            ),
            ..s
        }),
        s.on_dir_made(Some(failure)) == (Incoming { waiting: Wait::Nothing, ..s }),
{
}

/// A file that is offered to the drag under way counts as one more item, and
/// a part file is asked for in the drag's own directory.
pub proof fn dragged_files_are_staged(
    s: Incoming,
    drag: u64,
    id: u64,
    name: Seq<char>,
    size: u64,
    now: u64,
)
    requires
        s.drag is Some,
        s.drag->0.drag == drag,
        s.drag->0.offered < u32::MAX,
        !has_key(s.recv, id),
        safe_name(name) is Some,
    ensures
        ({
            let d = s.drag->0;
            let r = s.on_message(Msg::DragOffer { drag, id, name, size }, now);
            &&& r.acts == seq![
                Act::Do(Job::OpenPart { id, dir: d.dir, name: safe_name(name)->0 }),
            ]
            &&& r.state == (Incoming {
                drag: Some(Dragging { offered: (d.offered + 1) as u32, ..d }),
                waiting: Wait::Part {
                    id,
                    offered: name,
                    name: safe_name(name)->0,
                    size,
                    drag: Some(drag),
                    tree: None,
                    rel: ""@,
                },
                ..s
            })
        }),
{
}

/// A file that is offered to a drag that is not under way is rejected.
pub proof fn files_without_their_drag_are_rejected(
    s: Incoming,
    drag: u64,
    id: u64,
    name: Seq<char>,
    size: u64,
    now: u64,
)
    requires
        s.drag is None || s.drag->0.drag != drag,
    ensures
        s.on_message(Msg::DragOffer { drag, id, name, size }, now) == (Step {
            state: s,
            acts: seq![Act::Send(Msg::FileReject { id, reason: "no drag in progress"@ })],
        }),
        s.on_message(Msg::DragDrop { drag }, now) == (Step { state: s, acts: Seq::empty() }),
        s.on_message(Msg::DragCancel { drag }, now) == (Step { state: s, acts: Seq::empty() }),
{
}

/// A drop is not carried out before as many items were offered as were
/// announced, nor before each of them settled: nothing is placed, nothing is
/// removed, the drag stays under way; and the next file that is offered to it
/// is taken.
pub proof fn early_drops_wait(
    s: Incoming,
    drag: u64,
    id: u64,
    name: Seq<char>,
    size: u64,
    now: u64,
    later: u64,
)
    requires
        s.drag is Some,
        s.drag->0.drag == drag,
        s.drag->0.offered < s.drag->0.expected || s.drag->0.outstanding.len() > 0,
    ensures
        ({
            let r = s.on_message(Msg::DragDrop { drag }, now);
            &&& r.acts.len() == 0
            &&& r.state == (Incoming {
                drag: Some(Dragging { drop_requested: true, ..s.drag->0 }),
                ..s
            })
            &&& !has_key(s.recv, id) && safe_name(name) is Some ==> {
                let next = r.state.on_message(Msg::DragOffer { drag, id, name, size }, later);
                &&& next.acts == seq![
                    Act::Do(
                        Job::OpenPart { id, dir: s.drag->0.dir, name: safe_name(name)->0 },
                    ),
                ]
                &&& next.state.drag is Some
                &&& next.state.drag->0.drag == drag
                &&& next.state.drag->0.drop_requested
            }
        }),
{
}

/// A drop is carried out as soon as all items were offered and settled: into
/// the drop folder, or the receive folder where there is none.
pub proof fn complete_drops_are_carried_out(s: Incoming, drag: u64, now: u64)
    requires
        s.drag is Some,
        s.drag->0.drag == drag,
        s.drag->0.offered >= s.drag->0.expected,
        s.drag->0.outstanding.len() == 0,
    ensures
        ({
            let d = Dragging { drop_requested: true, ..s.drag->0 };
            let dest = if s.drop_dir is Some {
                s.drop_dir->0
            } else {
                s.file_dir
            };
            let r = s.on_message(Msg::DragDrop { drag }, now);
            &&& d.done.len() > 0 ==> r == (Step {
                state: Incoming {
                    drag: None,
                    waiting: Wait::Dropping { drag: d, dest, next: 0, placed: Seq::empty() },
                    ..s
                },
                acts: seq![
                    Act::EnsureDir(dest),
                    Act::Do(
                        Job::PlaceItem {
                            from: d.done[0].path,
                            dir: dest,
                            name: d.done[0].name,
                            kind: d.done[0].kind,
                        },
                    ),
                ],
            })
            &&& d.done.len() == 0 ==> r == (Step {
                state: Incoming { drag: None, waiting: Wait::Nothing, ..s },
                acts: seq![Act::EnsureDir(dest), Act::RemoveTree(d.dir)],
            })
        }),
{
    let d = Dragging { drop_requested: true, ..s.drag->0 };
    let dest = s.drop_place();
    let r = s.on_message(Msg::DragDrop { drag }, now);
    if d.done.len() > 0 {
        assert(r.acts =~= seq![
            Act::EnsureDir(dest),
            Act::Do(
                Job::PlaceItem {
                    from: d.done[0].path,
                    dir: dest,
                    name: d.done[0].name,
                    kind: d.done[0].kind,
                },
            ),
        ]);
    } else {
        assert(r.acts =~= seq![Act::EnsureDir(dest), Act::RemoveTree(d.dir)]);
    }
}

/// A drop that waited for its last item is carried out when that one is in
/// place: it is staged behind the others, and the first goes to the drop
/// folder.
pub proof fn waiting_drops_are_carried_out(s: Incoming, path: Seq<char>)
    requires
        s.waiting is Rename,
        s.waiting->Rename_tree is None,
        s.waiting->Rename_drag is Some,
        s.drag is Some,
        s.drag->0.drag == s.waiting->Rename_drag->0,
        s.drag->0.drop_requested,
        s.drag->0.offered >= s.drag->0.expected,
        without_id(s.drag->0.outstanding, s.waiting->Rename_id).len() == 0,
    ensures
        ({
            let w = s.waiting;
            let r = s.on_committed(Ok(path));
            let dest = if s.drop_dir is Some {
                s.drop_dir->0
            } else {
                s.file_dir
            };
            let item = Staged {
                id: w->Rename_id,
                name: w->Rename_name,
                kind: TransferKind::File,
                files: 0,
                size: w->Rename_size,
                path: w->Rename_target,
            };
            let first = s.drag->0.done.push(item)[0];
            &&& r.state.drag is None
            &&& r.state.waiting is Dropping
            &&& r.state.waiting->Dropping_drag.done == s.drag->0.done.push(item)
            &&& r.acts == seq![
                file_told(
                    w->Rename_id,
                    w->Rename_name,
                    w->Rename_size,
                    w->Rename_size,
                    TransferState::Done,
                    Some(path),
                ),
                Act::EnsureDir(dest),
                Act::Do(
                    Job::PlaceItem {
                        from: first.path,
                        dir: dest,
                        name: first.name,
                        kind: first.kind,
                    },
                ),
            ]
        }),
{
}

/// An item of a drop that landed is reported where it landed; the next one
/// follows, and after the last the staging directory goes. What landed is
/// reported as a whole, if anything did.
pub proof fn dropped_items_are_reported(
    s: Incoming,
    d: Dragging,
    dest: Place,
    next: nat,
    placed: Seq<Seq<char>>,
    path: Seq<char>,
    failure: (Seq<char>, Seq<char>),
)
    requires
        s.waiting == (Wait::Dropping { drag: d, dest, next, placed }),
        next < d.done.len(),
    ensures
        ({
            let item = d.done[next as int];
            let told = Act::Report(
                Event::Transfer(
                    Row {
                        id: item.id,
                        name: item.name,
                        direction: Direction::Received,
                        transferred: item.size,
                        total: item.size,
                        state: TransferState::Done,
                        detail: Some(path),
                        kind: item.kind,
                        files: item.files,
                    },
                ),
            );
            let landed = s.on_item_placed(Ok(path));
            let lost = s.on_item_placed(Err(failure));
            &&& next + 1 < d.done.len() ==> {
                let follower = d.done[next as int + 1];
                let go = Act::Do(
                    Job::PlaceItem {
                        from: follower.path,
                        dir: dest,
                        name: follower.name,
                        kind: follower.kind,
                    },
                );
                &&& landed.acts == seq![told, go]
                &&& landed.state == (Incoming {
                    waiting: Wait::Dropping {
                        drag: d,
                        dest,
                        next: next + 1,
                        placed: placed.push(path),
                    },
                    ..s
                })
                &&& lost.acts == seq![go]
                &&& lost.state == (Incoming {
                    waiting: Wait::Dropping { drag: d, dest, next: next + 1, placed },
                    ..s
                })
            }
            &&& next + 1 == d.done.len() ==> {
                &&& landed.acts == seq![
                    told,
                    Act::RemoveTree(d.dir),
                    Act::Report(Event::DragDropped { paths: placed.push(path) }),
                ]
                &&& landed.state == (Incoming { waiting: Wait::Nothing, ..s })
                &&& lost.state == (Incoming { waiting: Wait::Nothing, ..s })
                &&& placed.len() == 0 ==> lost.acts == seq![Act::RemoveTree(d.dir)]
                &&& placed.len() > 0 ==> lost.acts == seq![
                    Act::RemoveTree(d.dir),
                    Act::Report(Event::DragDropped { paths: placed }),
                ]
            }
        }),
{
}

/* ----------------------------- how drags count ----------------------------- */

/// What reaches the receiving side.
pub enum Reach {
    Said { msg: Msg, now: u64 },
    DirMade(Option<(Seq<char>, Seq<char>)>),
    PartOpened { opened: Result<(Place, Place), (Seq<char>, Seq<char>)>, now: u64 },
    RootMade {
        made: Result<(Place, Seq<char>, Option<Seq<char>>), (Seq<char>, Seq<char>)>,
        now: u64,
    },
    Written { error: Option<Seq<char>>, now: u64 },
    Committed(Result<Seq<char>, (Seq<char>, Seq<char>)>),
    FolderPlaced(Result<Seq<char>, (Seq<char>, Seq<char>)>),
    ItemPlaced(Result<Seq<char>, (Seq<char>, Seq<char>)>),
}

impl Incoming {
    /// What follows.
    pub open spec fn reached(self, r: Reach) -> Step {
        match r {
            Reach::Said { msg, now } => self.on_message(msg, now),
            Reach::DirMade(failure) => Step {
                state: self.on_dir_made(failure),
                acts: Seq::empty(),
            },
            Reach::PartOpened { opened, now } => self.on_part_opened(opened, now),
            Reach::RootMade { made, now } => self.on_root_made(made, now),
            Reach::Written { error, now } => self.on_chunk_written(error, now),
            Reach::Committed(placed) => self.on_committed(placed),
            Reach::FolderPlaced(placed) => self.on_folder_placed(placed),
            Reach::ItemPlaced(placed) => self.on_item_placed(placed),
        }
    }

    /// The state after all of these.
    pub open spec fn reached_by(self, run: Seq<Reach>) -> Incoming
        decreases run.len(),
    {
        if run.len() == 0 {
            self
        } else {
            self.reached_by(run.drop_last()).reached(run.last()).state
        }
    }
}

/// Whether something is offered to `drag`: a file or a folder.
pub open spec fn offers_to(r: Reach, drag: u64) -> bool {
    match r {
        Reach::Said { msg: Msg::DragOffer { drag: d, .. }, .. } => d == drag,
        Reach::Said { msg: Msg::TreeOffer { drag: Some(d), .. }, .. } => d == drag,
        _ => false,
    }
}

/// How many of these offer something to `drag`.
pub open spec fn offers(run: Seq<Reach>, drag: u64) -> nat
    decreases run.len(),
{
    if run.len() == 0 {
        0
    } else if offers_to(run.last(), drag) {
        offers(run.drop_last(), drag) + 1
    } else {
        offers(run.drop_last(), drag)
    }
}

/// Whether a drag begins.
pub open spec fn begins(r: Reach) -> bool {
    r matches Reach::Said { msg: Msg::DragBegin { .. }, .. }
}

/// The drag that is under way afterwards was under way before, with the same
/// number of items to come, and one more came if one was offered to it.
pub open spec fn counted(a: Incoming, b: Incoming, r: Reach) -> bool {
    b.drag is Some ==> {
        &&& a.drag is Some
        &&& b.drag->0.drag == a.drag->0.drag
        &&& b.drag->0.dir == a.drag->0.dir
        &&& b.drag->0.expected == a.drag->0.expected
        &&& a.drag->0.offered <= b.drag->0.offered
        &&& b.drag->0.offered <= a.drag->0.offered + (if offers_to(r, a.drag->0.drag) {
            1int
        } else {
            0
        })
    }
}

/// Only what is offered to a drag counts as offered to it, and each item
/// once; the number of items announced stays what it was.
pub proof fn only_offers_count(s: Incoming, r: Reach)
    requires
        r is DirMade ==> !(s.waiting is DragDir),
    ensures
        counted(s, s.reached(r).state, r),
{
    match r {
        Reach::Said { msg, now } => messages_count(s, msg, now),
        Reach::PartOpened { opened, now } => {},
        Reach::RootMade { made, now } => {},
        Reach::Written { error, now } => {},
        Reach::Committed(placed) => {},
        _ => {},
    }
}

proof fn messages_count(s: Incoming, msg: Msg, now: u64)
    ensures
        counted(s, s.on_message(msg, now).state, Reach::Said { msg, now }),
{
    match msg {
        Msg::FileOffer { .. } => {},
        Msg::DragOffer { .. } => {},
        Msg::TreeOffer { .. } => {},
        Msg::TreeFile { .. } => {},
        Msg::TreeEnd { .. } => {},
        Msg::FileChunk { .. } => {},
        Msg::FileDone { .. } => {},
        Msg::FileCancel { .. } => {},
        _ => {},
    }
}

/// However much comes in between, a drag has never been offered more items
/// than there were offers to it.
pub proof fn drags_count_their_offers(s: Incoming, run: Seq<Reach>)
    requires
        s.drag is Some,
        s.drag->0.offered == 0,
        !(s.waiting is DragDir),
        forall|k: int| 0 <= k < run.len() ==> !begins(#[trigger] run[k]),
    ensures
        ({
            let t = s.reached_by(run);
            &&& !(t.waiting is DragDir)
            &&& t.drag is Some ==> {
                &&& t.drag->0.drag == s.drag->0.drag
                &&& t.drag->0.expected == s.drag->0.expected
                &&& t.drag->0.offered <= offers(run, s.drag->0.drag)
            }
        }),
    decreases run.len(),
{
    if run.len() > 0 {
        let front = run.drop_last();
        assert forall|k: int| 0 <= k < front.len() implies !begins(#[trigger] front[k]) by {
            assert(front[k] == run[k]);
        }
        drags_count_their_offers(s, front);
        let t = s.reached_by(front);
        assert(!begins(run[run.len() - 1]));
        only_offers_count(t, run.last());
        no_drag_is_awaited(t, run.last());
    }
}

proof fn no_drag_is_awaited(s: Incoming, r: Reach)
    requires
        !(s.waiting is DragDir),
        !begins(r),
    ensures
        !(s.reached(r).state.waiting is DragDir),
{
    match r {
        Reach::Said { msg, now } => match msg {
            Msg::DragOffer { .. } => {},
            Msg::TreeOffer { .. } => {},
            Msg::TreeFile { .. } => {},
            Msg::TreeEnd { .. } => {},
            Msg::FileChunk { .. } => {},
            Msg::FileDone { .. } => {},
            Msg::FileCancel { .. } => {},
            _ => {},
        },
        Reach::PartOpened { opened, now } => {},
        Reach::RootMade { made, now } => {},
        Reach::Written { error, now } => {},
        Reach::Committed(placed) => {},
        _ => {},
    }
}

/// If fewer files and folders have been offered to a drag since it began than
/// were announced, a drop places nothing and removes nothing, and the drag
/// stays under way.
pub proof fn drops_wait_for_every_offer(s: Incoming, run: Seq<Reach>, now: u64)
    requires
        s.drag is Some,
        s.drag->0.offered == 0,
        !(s.waiting is DragDir),
        forall|k: int| 0 <= k < run.len() ==> !begins(#[trigger] run[k]),
        s.reached_by(run).drag is Some,
        offers(run, s.drag->0.drag) < s.drag->0.expected,
    ensures
        ({
            let t = s.reached_by(run);
            let r = t.on_message(Msg::DragDrop { drag: s.drag->0.drag }, now);
            &&& r.acts.len() == 0
            &&& r.state == (Incoming {
                drag: Some(Dragging { drop_requested: true, ..t.drag->0 }),
                ..t
            })
        }),
{
    drags_count_their_offers(s, run);
}

/// From the announcement on: while fewer files and folders have been offered
/// to a drag than it announced, a drop waits, and the next file that is
/// offered to it is taken.
pub proof fn announced_drags_wait_for_every_item(
    s: Incoming,
    drag: u64,
    count: u32,
    run: Seq<Reach>,
    id: u64,
    name: Seq<char>,
    size: u64,
    begun: u64,
    now: u64,
)
    requires
        forall|k: int| 0 <= k < run.len() ==> !begins(#[trigger] run[k]),
        s.on_message(Msg::DragBegin { drag, count }, begun).state.on_dir_made(None).reached_by(
            run,
        ).drag is Some,
        offers(run, drag) < count,
    ensures
        ({
            let t = s.on_message(
                Msg::DragBegin { drag, count },
                begun,
            ).state.on_dir_made(None).reached_by(run);
            let r = t.on_message(Msg::DragDrop { drag }, now);
            &&& r.acts.len() == 0
            &&& r.state.drag is Some
            &&& r.state.drag->0.drag == drag
            &&& !has_key(t.recv, id) && safe_name(name) is Some ==> r.state.on_message(
                Msg::DragOffer { drag, id, name, size },
                now,
            ).acts == seq![
                Act::Do(
                    Job::OpenPart { id, dir: t.drag->0.dir, name: safe_name(name)->0 },
                ),
            ]
        }),
{
    let first = s.on_message(Msg::DragBegin { drag, count }, begun).state;
    let start = first.on_dir_made(None);
    drags_are_announced(s, drag, count, begun);
    let dir = first.waiting->DragDir_dir;
    drags_start_empty(first, drag, count, dir, (Seq::empty(), Seq::empty()));
    drags_count_their_offers(start, run);
    early_drops_wait(start.reached_by(run), drag, id, name, size, now, now);
}

/* ---------------------------------- files ---------------------------------- */

/// A file that is offered on its own is taken into the receive folder, under
/// its safe name.
pub proof fn offered_files_are_taken(s: Incoming, id: u64, name: Seq<char>, size: u64, now: u64)
    requires
        !has_key(s.recv, id),
        safe_name(name) is Some,
    ensures
        s.on_message(Msg::FileOffer { id, name, size }, now) == (Step {
            state: Incoming {
                waiting: Wait::Part {
                    id,
                    offered: name,
                    name: safe_name(name)->0,
                    size,
                    drag: None,
                    tree: None,
                    rel: ""@,
                },
                ..s
            },
            acts: seq![
                Act::Do(Job::OpenPart { id, dir: s.file_dir, name: safe_name(name)->0 }),
            ],
        }),
{
}

/// A file without a name that is left is rejected, and shown as failed under
/// the name it was offered with; one whose number is taken is rejected, and
/// what is under way goes on.
pub proof fn other_files_are_rejected(s: Incoming, id: u64, name: Seq<char>, size: u64, now: u64)
    ensures
        has_key(s.recv, id) ==> s.on_message(Msg::FileOffer { id, name, size }, now) == (Step {
            state: s,
            acts: seq![Act::Send(Msg::FileReject { id, reason: "transfer id already in use"@ })],
        }),
        !has_key(s.recv, id) && safe_name(name) is None ==> s.on_message(
            Msg::FileOffer { id, name, size },
            now,
        ) == (Step {
            state: s,
            acts: seq![
                file_told(
                    id,
                    name,
                    0,
                    size,
                    TransferState::Failed,
                    Some("invalid file name"@),
                ),
                Act::Send(Msg::FileReject { id, reason: "invalid file name"@ }),
            ],
        }),
{
    let r = s.on_message(Msg::FileOffer { id, name, size }, now);
    if has_key(s.recv, id) {
        assert(r.acts =~= seq![
            Act::Send(Msg::FileReject { id, reason: "transfer id already in use"@ }),
        ]);
    } else if safe_name(name) is None {
        assert(r.acts =~= seq![
            file_told(id, name, 0, size, TransferState::Failed, Some("invalid file name"@)),
            Act::Send(Msg::FileReject { id, reason: "invalid file name"@ }),
        ]);
    }
}

/// Once its part file is there a file is under way, from its first byte on,
/// and its sender is told to go on. A file inside a folder has no row.
pub proof fn opened_files_are_under_way(s: Incoming, target: Place, part: Place, now: u64)
    requires
        s.waiting is Part,
    ensures
        ({
            let w = s.waiting;
            let id = w->Part_id;
            let t = Receiving {
                name: w->Part_name,
                size: w->Part_size,
                received: 0,
                content: Seq::empty(),
                part,
                target,
                last_progress: now,
                drag: w->Part_drag,
                tree: w->Part_tree,
            };
            let r = s.on_part_opened(Ok((target, part)), now);
            &&& r.state.recv == stored(s.recv, id, t)
            &&& r.state.waiting is Nothing
            &&& r.state.file_dir == s.file_dir && r.state.drop_dir == s.drop_dir
            &&& w->Part_tree is None ==> {
                &&& r.acts == seq![
                    file_told(id, t.name, 0, t.size, TransferState::Active, None),
                    Act::Send(Msg::FileAccept { id }),
                ]
                &&& r.state.trees == s.trees
                &&& w->Part_drag is None ==> r.state.drag == s.drag
                &&& w->Part_drag is Some && s.drag is Some ==> r.state.drag == Some(
                    Dragging {
                        outstanding: with_id(s.drag->0.outstanding, id),
                        ..s.drag->0
                    },
                )
            }
            &&& w->Part_tree is Some ==> {
                &&& r.acts == seq![Act::Send(Msg::FileAccept { id })]
                &&& r.state.drag == s.drag
                &&& has_key(s.trees, w->Part_tree->0) ==> r.state.trees == stored(
                    s.trees,
                    w->Part_tree->0,
                    Folder {
                        outstanding: with_id(at(s.trees, w->Part_tree->0).outstanding, id),
                        ..at(s.trees, w->Part_tree->0)
                    },
                )
            }
        }),
{
    let w = s.waiting;
    let r = s.on_part_opened(Ok((target, part)), now);
    if w->Part_tree is None {
        assert(r.acts =~= seq![
            file_told(
                w->Part_id,
                w->Part_name,
                0,
                w->Part_size,
                TransferState::Active,
                None,
            ),
            Act::Send(Msg::FileAccept { id: w->Part_id }),
        ]);
    } else {
        assert(r.acts =~= seq![Act::Send(Msg::FileAccept { id: w->Part_id })]);
    }
}

/// A file whose part file cannot be created is rejected with the reason.
pub proof fn unopened_files_are_rejected(s: Incoming, place: Seq<char>, cause: Seq<char>, now: u64)
    requires
        s.waiting is Part,
        s.waiting->Part_tree is None,
        s.waiting->Part_drag is None,
    ensures
        ({
            let w = s.waiting;
            let reason = "cannot create "@ + place + ": "@ + cause;
            s.on_part_opened(Err((place, cause)), now) == (Step {
                state: Incoming { waiting: Wait::Nothing, ..s },
                acts: seq![
                    file_told(
                        w->Part_id,
                        w->Part_offered,
                        0,
                        w->Part_size,
                        TransferState::Failed,
                        Some(reason),
                    ),
                    Act::Send(Msg::FileReject { id: w->Part_id, reason }),
                ],
            })
        }),
{
    let w = s.waiting;
    let reason = "cannot create "@ + place + ": "@ + cause;
    assert(s.on_part_opened(Err((place, cause)), now).acts =~= seq![
        file_told(
            w->Part_id,
            w->Part_offered,
            0,
            w->Part_size,
            TransferState::Failed,
            Some(reason),
        ),
        Act::Send(Msg::FileReject { id: w->Part_id, reason }),
    ]);
}

/// A file inside a folder whose part file cannot be created is rejected with
/// the reason, and its folder fails, unless it had failed before.
pub proof fn unopened_files_fail_their_folder(
    s: Incoming,
    place: Seq<char>,
    cause: Seq<char>,
    now: u64,
)
    requires
        s.waiting is Part,
        s.waiting->Part_tree is Some,
        has_key(s.trees, s.waiting->Part_tree->0),
    ensures
        ({
            let w = s.waiting;
            let tree = w->Part_tree->0;
            let f = at(s.trees, tree);
            let r = s.on_part_opened(Err((place, cause)), now);
            &&& r.acts == seq![
                Act::Send(
                    Msg::FileReject {
                        id: w->Part_id,
                        reason: "cannot create "@ + place + ": "@ + cause,
                    },
                ),
            ]
            &&& f.failed is None ==> r.state == (Incoming {
                waiting: Wait::Nothing,
                trees: stored(
                    s.trees,
                    tree,
                    Folder { failed: Some("could not receive "@ + w->Part_rel), ..f },
                ),
                ..s
            })
            &&& f.failed is Some ==> r.state.trees == stored(s.trees, tree, f)
        }),
{
    assert(s.on_part_opened(Err((place, cause)), now).acts =~= seq![
        Act::Send(
            Msg::FileReject {
                id: s.waiting->Part_id,
                reason: "cannot create "@ + place + ": "@ + cause,
            },
        ),
    ]);
}

/// A chunk that is next in order and fits is written as it came, and counts;
/// one of a file that is not under way is passed over.
pub proof fn chunks_in_order_are_written(
    s: Incoming,
    id: u64,
    offset: u64,
    data: Seq<u8>,
    now: u64,
)
    requires
        has_key(s.recv, id),
        offset == at(s.recv, id).received,
        data.len() <= 262144,
        offset + data.len() <= at(s.recv, id).size,
    ensures
        ({
            let t = at(s.recv, id);
            s.on_message(Msg::FileChunk { id, offset, data }, now) == (Step {
                state: Incoming {
                    recv: stored(
                        s.recv,
                        id,
                        Receiving {
                            content: t.content + data,
                            received: (offset + data.len()) as u64,
                            ..t
                        },
                    ),
                    waiting: Wait::Chunk { id, len: data.len() as u64 },
                    ..s
                },
                acts: seq![Act::Do(Job::Write { id, data })],
            })
        }),
{
}

/// Chunks, ends and cancellations of files that are not under way change
/// nothing.
pub proof fn strangers_are_passed_over(
    s: Incoming,
    id: u64,
    offset: u64,
    data: Seq<u8>,
    reason: Seq<char>,
    now: u64,
)
    requires
        !has_key(s.recv, id),
    ensures
        s.on_message(Msg::FileChunk { id, offset, data }, now) == (Step {
            state: s,
            acts: Seq::empty(),
        }),
        s.on_message(Msg::FileDone { id, sha256: data }, now) == (Step {
            state: s,
            acts: Seq::empty(),
        }),
        s.on_message(Msg::FileCancel { id, reason }, now) == (Step {
            state: s,
            acts: Seq::empty(),
        }),
{
}

/// A chunk that is too long, goes past the size that was offered or is not
/// the next one ends the file: it is shown as failed, its sender is told, and
/// its part file goes.
pub proof fn wrong_chunks_end_the_file(
    s: Incoming,
    id: u64,
    offset: u64,
    data: Seq<u8>,
    now: u64,
)
    requires
        has_key(s.recv, id),
        at(s.recv, id).tree is None,
        at(s.recv, id).drag is None,
        data.len() > 262144 || at(s.recv, id).received + data.len() > at(s.recv, id).size || offset
            != at(s.recv, id).received,
    ensures
        ({
            let t = at(s.recv, id);
            let reason = if data.len() > 262144 || t.received + data.len() > t.size {
                "transfer exceeds offered size"@
            } else {
                "chunks out of order"@
            };
            s.on_message(Msg::FileChunk { id, offset, data }, now) == (Step {
                state: Incoming { recv: erased(s.recv, id), ..s },
                acts: seq![
                    file_told(id, t.name, t.received, t.size, TransferState::Failed, Some(reason)),
                    Act::Send(Msg::FileCancel { id, reason }),
                    Act::Discard { id, part: t.part },
                ],
            })
        }),
{
    let t = at(s.recv, id);
    let reason = if data.len() > 262144 || t.received + data.len() > t.size {
        "transfer exceeds offered size"@
    } else {
        "chunks out of order"@
    };
    assert(s.on_message(Msg::FileChunk { id, offset, data }, now).acts =~= seq![
        file_told(id, t.name, t.received, t.size, TransferState::Failed, Some(reason)),
        Act::Send(Msg::FileCancel { id, reason }),
        Act::Discard { id, part: t.part },
    ]);
}

/// A written chunk is shown as progress when a quarter of a second has gone
/// by since that was last done.
pub proof fn written_chunks_are_shown(s: Incoming, now: u64)
    requires
        s.waiting is Chunk,
        has_key(s.recv, s.waiting->Chunk_id),
        at(s.recv, s.waiting->Chunk_id).tree is None,
    ensures
        ({
            let id = s.waiting->Chunk_id;
            let t = at(s.recv, id);
            let r = s.on_chunk_written(None, now);
            &&& now < t.last_progress + 250_000_000 ==> r == (Step {
                state: Incoming { waiting: Wait::Nothing, ..s },
                acts: Seq::empty(),
            })
            &&& now >= t.last_progress + 250_000_000 ==> r == (Step {
                state: Incoming {
                    waiting: Wait::Nothing,
                    recv: stored(s.recv, id, Receiving { last_progress: now, ..t }),
                    ..s
                },
                acts: seq![
                    file_told(id, t.name, t.received, t.size, TransferState::Active, None),
                ],
            })
        }),
{
}

/// A chunk that could not be written ends the file, at the bytes that were.
pub proof fn unwritten_chunks_end_the_file(s: Incoming, error: Seq<char>, now: u64)
    requires
        s.waiting is Chunk,
        has_key(s.recv, s.waiting->Chunk_id),
        at(s.recv, s.waiting->Chunk_id).tree is None,
        at(s.recv, s.waiting->Chunk_id).drag is None,
        at(s.recv, s.waiting->Chunk_id).received >= s.waiting->Chunk_len,
    ensures
        ({
            let id = s.waiting->Chunk_id;
            let t = at(s.recv, id);
            let reason = "write failed: "@ + error;
            s.on_chunk_written(Some(error), now) == (Step {
                state: Incoming { waiting: Wait::Nothing, recv: erased(s.recv, id), ..s },
                acts: seq![
                    file_told(
                        id,
                        t.name,
                        (t.received - s.waiting->Chunk_len) as u64,
                        t.size,
                        TransferState::Failed,
                        Some(reason),
                    ),
                    Act::Send(Msg::FileCancel { id, reason }),
                    Act::Discard { id, part: t.part },
                ],
            })
        }),
{
    let id = s.waiting->Chunk_id;
    let t = at(s.recv, id);
    let reason = "write failed: "@ + error;
    assert(s.on_chunk_written(Some(error), now).acts =~= seq![
        file_told(
            id,
            t.name,
            (t.received - s.waiting->Chunk_len) as u64,
            t.size,
            TransferState::Failed,
            Some(reason),
        ),
        Act::Send(Msg::FileCancel { id, reason }),
        Act::Discard { id, part: t.part },
    ]);
}

/// A file is kept under its name just where all bytes came and their hash is
/// the one its sender gave; on its own it is made durable first.
pub proof fn whole_files_are_kept(s: Incoming, id: u64, hash: Seq<u8>, now: u64)
    requires
        has_key(s.recv, id),
        sha256(at(s.recv, id).content) == hash,
        at(s.recv, id).received == at(s.recv, id).size,
    ensures
        ({
            let t = at(s.recv, id);
            s.on_message(Msg::FileDone { id, sha256: hash }, now) == (Step {
                state: Incoming {
                    recv: erased(s.recv, id),
                    waiting: Wait::Rename {
                        id,
                        name: t.name,
                        size: t.size,
                        target: t.target,
                        drag: t.drag,
                        tree: t.tree,
                    },
                    ..s
                },
                acts: seq![
                    Act::Do(
                        Job::Commit { id, from: t.part, to: t.target, durable: t.tree is None },
                    ),
                ],
            })
        }),
{
}

/// A file whose hash is not the one its sender gave, or of which bytes are
/// missing, goes, and is shown as failed.
pub proof fn broken_files_go(s: Incoming, id: u64, hash: Seq<u8>, now: u64)
    requires
        has_key(s.recv, id),
        at(s.recv, id).tree is None,
        at(s.recv, id).drag is None,
        sha256(at(s.recv, id).content) != hash || at(s.recv, id).received != at(s.recv, id).size,
    ensures
        ({
            let t = at(s.recv, id);
            let reason = if sha256(t.content) != hash {
                "integrity check failed (sha256 mismatch)"@
            } else {
                "incomplete transfer ("@ + numeral(t.received as nat) + " of "@ + numeral(
                    t.size as nat,
                ) + " bytes)"@
            };
            s.on_message(Msg::FileDone { id, sha256: hash }, now) == (Step {
                state: Incoming { recv: erased(s.recv, id), ..s },
                acts: seq![
                    Act::Discard { id, part: t.part },
                    file_told(id, t.name, t.size, t.size, TransferState::Failed, Some(reason)),
                ],
            })
        }),
{
    let t = at(s.recv, id);
    let reason = if sha256(t.content) != hash {
        "integrity check failed (sha256 mismatch)"@
    } else {
        incomplete(t.received, t.size)
    };
    assert(s.on_message(Msg::FileDone { id, sha256: hash }, now).acts =~= seq![
        Act::Discard { id, part: t.part },
        file_told(id, t.name, t.size, t.size, TransferState::Failed, Some(reason)),
    ]);
}

/// A file that its sender gives up goes, and is shown as failed with the
/// reason, at the bytes that came.
pub proof fn given_up_files_go(s: Incoming, id: u64, reason: Seq<char>, now: u64)
    requires
        has_key(s.recv, id),
        at(s.recv, id).tree is None,
        at(s.recv, id).drag is None,
    ensures
        ({
            let t = at(s.recv, id);
            s.on_message(Msg::FileCancel { id, reason }, now) == (Step {
                state: Incoming { recv: erased(s.recv, id), ..s },
                acts: seq![
                    file_told(id, t.name, t.received, t.size, TransferState::Failed, Some(reason)),
                    Act::Discard { id, part: t.part },
                ],
            })
        }),
{
    let t = at(s.recv, id);
    assert(s.on_message(Msg::FileCancel { id, reason }, now).acts =~= seq![
        file_told(id, t.name, t.received, t.size, TransferState::Failed, Some(reason)),
        Act::Discard { id, part: t.part },
    ]);
}

/// A file that is under its name is shown as done, there; one that could not
/// be renamed is shown as failed, with the reason.
pub proof fn kept_files_are_shown(
    s: Incoming,
    path: Seq<char>,
    place: Seq<char>,
    cause: Seq<char>,
)
    requires
        s.waiting is Rename,
        s.waiting->Rename_tree is None,
        s.waiting->Rename_drag is None,
    ensures
        ({
            let w = s.waiting;
            let size = w->Rename_size;
            &&& s.on_committed(Ok(path)) == (Step {
                state: Incoming { waiting: Wait::Nothing, ..s },
                acts: seq![
                    file_told(
                        w->Rename_id,
                        w->Rename_name,
                        size,
                        size,
                        TransferState::Done,
                        Some(path),
                    ),
                ],
            })
            &&& s.on_committed(Err((place, cause))) == (Step {
                state: Incoming { waiting: Wait::Nothing, ..s },
                acts: seq![
                    file_told(
                        w->Rename_id,
                        w->Rename_name,
                        size,
                        size,
                        TransferState::Failed,
                        Some("cannot rename to "@ + place + ": "@ + cause),
                    ),
                ],
            })
        }),
{
    let w = s.waiting;
    let size = w->Rename_size;
    assert(s.on_committed(Ok(path)).acts =~= seq![
        file_told(w->Rename_id, w->Rename_name, size, size, TransferState::Done, Some(path)),
    ]);
    assert(s.on_committed(Err((place, cause))).acts =~= seq![
        file_told(
            w->Rename_id,
            w->Rename_name,
            size,
            size,
            TransferState::Failed,
            Some("cannot rename to "@ + place + ": "@ + cause),
        ),
    ]);
}

/// A file of the drag under way that is in its place is staged there, behind
/// those before it, and waited for no longer; while more is to come nothing
/// else happens.
pub proof fn dragged_files_wait_for_the_drop(s: Incoming, path: Seq<char>)
    requires
        s.waiting is Rename,
        s.waiting->Rename_tree is None,
        s.waiting->Rename_drag is Some,
        s.drag is Some,
        s.drag->0.drag == s.waiting->Rename_drag->0,
        !s.drag->0.drop_requested || s.drag->0.offered < s.drag->0.expected || without_id(
            s.drag->0.outstanding,
            s.waiting->Rename_id,
        ).len() > 0,
    ensures
        ({
            let w = s.waiting;
            let d = s.drag->0;
            s.on_committed(Ok(path)) == (Step {
                state: Incoming {
                    waiting: Wait::Nothing,
                    drag: Some(
                        Dragging {
                            outstanding: without_id(d.outstanding, w->Rename_id),
                            done: d.done.push(
                                Staged {
                                    id: w->Rename_id,
                                    name: w->Rename_name,
                                    kind: TransferKind::File,
                                    files: 0,
                                    size: w->Rename_size,
                                    path: w->Rename_target,
                                },
                            ),
                            ..d
                        },
                    ),
                    ..s
                },
                acts: seq![
                    file_told(
                        w->Rename_id,
                        w->Rename_name,
                        w->Rename_size,
                        w->Rename_size,
                        TransferState::Done,
                        Some(path),
                    ),
                ],
            })
        }),
{
    let w = s.waiting;
    assert(s.on_committed(Ok(path)).acts =~= seq![
        file_told(
            w->Rename_id,
            w->Rename_name,
            w->Rename_size,
            w->Rename_size,
            TransferState::Done,
            Some(path),
        ),
    ]);
}

/// A file of the drag under way that fails is waited for no longer and is not
/// staged; while more is to come nothing else happens.
pub proof fn failed_drag_files_settle(s: Incoming, id: u64, reason: Seq<char>, now: u64)
    requires
        has_key(s.recv, id),
        at(s.recv, id).tree is None,
        at(s.recv, id).drag is Some,
        s.drag is Some,
        s.drag->0.drag == at(s.recv, id).drag->0,
        !s.drag->0.drop_requested || s.drag->0.offered < s.drag->0.expected || without_id(
            s.drag->0.outstanding,
            id,
        ).len() > 0,
    ensures
        ({
            let t = at(s.recv, id);
            let d = s.drag->0;
            s.on_message(Msg::FileCancel { id, reason }, now) == (Step {
                state: Incoming {
                    recv: erased(s.recv, id),
                    drag: Some(Dragging { outstanding: without_id(d.outstanding, id), ..d }),
                    ..s
                },
                acts: seq![
                    file_told(id, t.name, t.received, t.size, TransferState::Failed, Some(reason)),
                    Act::Discard { id, part: t.part },
                ],
            })
        }),
{
    let t = at(s.recv, id);
    assert(s.on_message(Msg::FileCancel { id, reason }, now).acts =~= seq![
        file_told(id, t.name, t.received, t.size, TransferState::Failed, Some(reason)),
        Act::Discard { id, part: t.part },
    ]);
}

/* --------------------------------- folders --------------------------------- */

/// A folder is taken into a staging directory of its own, or into the drag's
/// if it belongs to the one under way, where it counts as one more item.
pub proof fn offered_folders_are_taken(
    s: Incoming,
    tree: u64,
    name: Seq<char>,
    files: u32,
    bytes: u64,
    drag: Option<u64>,
    now: u64,
)
    requires
        !has_key(s.trees, tree),
        safe_name(name) is Some,
        drag is Some ==> s.drag is Some && s.drag->0.drag == drag->0 && s.drag->0.offered
            < u32::MAX,
    ensures
        ({
            let r = s.on_message(Msg::TreeOffer { tree, name, files, bytes, drag }, now);
            let own = Place {
                base: s.file_dir.base,
                parts: s.file_dir.parts.push(".vylo-tree-"@ + numeral(tree as nat)),
            };
            let safe = safe_name(name)->0;
            &&& drag is None ==> r == (Step {
                state: Incoming {
                    waiting: Wait::Root {
                        tree,
                        name: safe,
                        staging: Some(own),
                        drag: None,
                        files,
                        bytes,
                    },
                    ..s
                },
                acts: seq![Act::Do(Job::MakeRoot { parent: own, name: safe })],
            })
            &&& drag is Some ==> r == (Step {
                state: Incoming {
                    waiting: Wait::Root { tree, name: safe, staging: None, drag, files, bytes },
                    drag: Some(
                        Dragging {
                            offered: (s.drag->0.offered + 1) as u32,
                            outstanding: with_id(s.drag->0.outstanding, tree),
                            ..s.drag->0
                        },
                    ),
                    ..s
                },
                acts: seq![Act::Do(Job::MakeRoot { parent: s.drag->0.dir, name: safe })],
            })
        }),
{
}

/// A folder whose number is taken is passed over; one whose drag is not under
/// way, or without a name that is left, is noted as failed, so that its files
/// are rejected.
pub proof fn other_folders_are_refused(
    s: Incoming,
    tree: u64,
    name: Seq<char>,
    files: u32,
    bytes: u64,
    drag: Option<u64>,
    now: u64,
)
    ensures
        ({
            let r = s.on_message(Msg::TreeOffer { tree, name, files, bytes, drag }, now);
            let without_drag = drag is Some && (s.drag is None || s.drag->0.drag != drag->0);
            &&& has_key(s.trees, tree) ==> r == (Step { state: s, acts: Seq::empty() })
            &&& !has_key(s.trees, tree) && without_drag ==> {
                &&& r.acts.len() == 0
                &&& r.state == (Incoming { trees: r.state.trees, ..s })
                &&& exists|t: Folder| #[trigger]
                    refused_for(t, tree, name, files, bytes, drag, "no drag in progress"@, now)
                        && r.state.trees == stored(s.trees, tree, t)
            }
            &&& !has_key(s.trees, tree) && drag is None && safe_name(name) is None ==> {
                &&& r.acts == seq![
                    folder_told(
                        tree,
                        name,
                        files,
                        0,
                        bytes,
                        TransferState::Failed,
                        Some("invalid folder name"@),
                    ),
                ]
                &&& r.state == (Incoming { trees: r.state.trees, ..s })
                &&& exists|t: Folder| #[trigger]
                    refused_for(t, tree, name, files, bytes, drag, "invalid folder name"@, now)
                        && r.state.trees == stored(s.trees, tree, t)
            }
        }),
{
    assert(refused_for(
        crate::receive::refused(tree, name, files, bytes, drag, "no drag in progress"@, now),
        tree,
        name,
        files,
        bytes,
        drag,
        "no drag in progress"@,
        now,
    ));
    assert(refused_for(
        crate::receive::refused(tree, name, files, bytes, drag, "invalid folder name"@, now),
        tree,
        name,
        files,
        bytes,
        drag,
        "invalid folder name"@,
        now,
    ));
}

/// A folder that has failed before anything came of it, and is nowhere.
pub open spec fn refused_for(
    t: Folder,
    tree: u64,
    name: Seq<char>,
    files: u32,
    bytes: u64,
    drag: Option<u64>,
    reason: Seq<char>,
    now: u64,
) -> bool {
    t == (Folder {
        tree,
        name,
        root: Place::nowhere(),
        shown: ""@,
        staging: None,
        drag,
        files,
        total: bytes,
        done_bytes: 0,
        outstanding: Seq::empty(),
        entries: 0,
        ended: false,
        failed: Some(reason),
        last_progress: now,
    })
}

/// A folder whose root is there is under way, and shown as such; where it
/// could not be created it has failed, and its files will be rejected.
pub proof fn rooted_folders_are_under_way(
    s: Incoming,
    root: Place,
    shown: Seq<char>,
    cause: Option<Seq<char>>,
    now: u64,
)
    requires
        s.waiting is Root,
    ensures
        ({
            let w = s.waiting;
            let r = s.on_root_made(Ok((root, shown, cause)), now);
            let t = Folder {
                tree: w->Root_tree,
                name: w->Root_name,
                root,
                shown,
                staging: w->Root_staging,
                drag: w->Root_drag,
                files: w->Root_files,
                total: w->Root_bytes,
                done_bytes: 0,
                outstanding: Seq::empty(),
                entries: 0,
                ended: false,
                failed: if cause is Some {
                    Some("cannot create "@ + shown + ": "@ + cause->0)
                } else {
                    None
                },
                last_progress: now,
            };
            &&& r.state == (Incoming {
                waiting: Wait::Nothing,
                trees: stored(s.trees, w->Root_tree, t),
                ..s
            })
            &&& r.acts == seq![
                folder_told(
                    w->Root_tree,
                    w->Root_name,
                    w->Root_files,
                    0,
                    w->Root_bytes,
                    TransferState::Active,
                    None,
                ),
            ]
        }),
{
}

/// A folder whose parent could not be created is shown as failed, with the
/// reason.
pub proof fn unrooted_folders_fail(s: Incoming, place: Seq<char>, cause: Seq<char>, now: u64)
    requires
        s.waiting is Root,
    ensures
        ({
            let w = s.waiting;
            let reason = "cannot create "@ + place + ": "@ + cause;
            let r = s.on_root_made(Err((place, cause)), now);
            &&& r.acts == seq![
                folder_told(
                    w->Root_tree,
                    w->Root_name,
                    w->Root_files,
                    0,
                    w->Root_bytes,
                    TransferState::Failed,
                    Some(reason),
                ),
            ]
            &&& exists|t: Folder| #[trigger]
                refused_for(
                    t,
                    w->Root_tree,
                    w->Root_name,
                    w->Root_files,
                    w->Root_bytes,
                    w->Root_drag,
                    reason,
                    now,
                ) && r.state == (Incoming {
                    waiting: Wait::Nothing,
                    trees: stored(s.trees, w->Root_tree, t),
                    ..s
                })
        }),
{
    let w = s.waiting;
    let reason = "cannot create "@ + place + ": "@ + cause;
    assert(refused_for(
        crate::receive::refused(
            w->Root_tree,
            w->Root_name,
            w->Root_files,
            w->Root_bytes,
            w->Root_drag,
            reason,
            now,
        ),
        w->Root_tree,
        w->Root_name,
        w->Root_files,
        w->Root_bytes,
        w->Root_drag,
        reason,
        now,
    ));
}

/// A directory inside a folder is created where its path says, below the
/// folder's root, and counts as one entry; the millionth is the last.
pub proof fn folder_dirs_are_made(s: Incoming, tree: u64, rel: Seq<char>, now: u64)
    requires
        has_key(s.trees, tree),
        at(s.trees, tree).failed is None,
        at(s.trees, tree).entries < u64::MAX,
    ensures
        ({
            let t = at(s.trees, tree);
            let more = Folder { entries: (t.entries + 1) as u64, ..t };
            let r = s.on_message(Msg::TreeDir { tree, rel }, now);
            &&& t.entries >= 1_000_000 ==> r == (Step {
                state: Incoming {
                    trees: stored(
                        s.trees,
                        tree,
                        Folder { failed: Some("folder has too many entries"@), ..more },
                    ),
                    ..s
                },
                acts: Seq::empty(),
            })
            &&& t.entries < 1_000_000 && safe_rel(rel) is None ==> r == (Step {
                state: Incoming {
                    trees: stored(
                        s.trees,
                        tree,
                        Folder { failed: Some("invalid path inside folder: "@ + rel), ..more },
                    ),
                    ..s
                },
                acts: Seq::empty(),
            })
            &&& t.entries < 1_000_000 && safe_rel(rel) is Some ==> r == (Step {
                state: Incoming {
                    trees: stored(s.trees, tree, more),
                    waiting: Wait::TreeDir { tree },
                    ..s
                },
                acts: seq![
                    Act::Do(
                        Job::MakeDir(
                            Place {
                                base: t.root.base,
                                parts: t.root.parts + safe_rel(rel)->0,
                            },
                        ),
                    ),
                ],
            })
        }),
{
}

/// A directory that could not be created fails its folder with the reason;
/// one that was changes nothing.
pub proof fn unmade_dirs_fail_their_folder(
    s: Incoming,
    tree: u64,
    place: Seq<char>,
    cause: Seq<char>,
)
    requires
        s.waiting == (Wait::TreeDir { tree }),
        has_key(s.trees, tree),
        at(s.trees, tree).failed is None,
    ensures
        s.on_dir_made(None) == (Incoming { waiting: Wait::Nothing, ..s }),
        s.on_dir_made(Some((place, cause))) == (Incoming {
            waiting: Wait::Nothing,
            trees: stored(
                s.trees,
                tree,
                Folder {
                    failed: Some("cannot create "@ + place + ": "@ + cause),
                    ..at(s.trees, tree)
                },
            ),
            ..s
        }),
{
}

/// A file inside a folder is taken into the directory that its path says,
/// below the folder's root, under the last name of that path, and counts as
/// one entry.
pub proof fn folder_files_are_taken(
    s: Incoming,
    tree: u64,
    id: u64,
    rel: Seq<char>,
    size: u64,
    now: u64,
)
    requires
        has_key(s.trees, tree),
        at(s.trees, tree).failed is None,
        at(s.trees, tree).entries < 1_000_000,
        safe_rel(rel) is Some,
        !has_key(s.recv, id),
        safe_name(safe_rel(rel)->0.last()) is Some,
    ensures
        ({
            let t = at(s.trees, tree);
            let names = safe_rel(rel)->0;
            let name = safe_name(names.last())->0;
            s.on_message(Msg::TreeFile { tree, id, rel, size }, now) == (Step {
                state: Incoming {
                    trees: stored(
                        s.trees,
                        tree,
                        Folder { entries: (t.entries + 1) as u64, ..t },
                    ),
                    waiting: Wait::Part {
                        id,
                        offered: names.last(),
                        name,
                        size,
                        drag: t.drag,
                        tree: Some(tree),
                        rel,
                    },
                    ..s
                },
                acts: seq![
                    Act::Do(
                        Job::OpenPart {
                            id,
                            dir: Place {
                                base: t.root.base,
                                parts: t.root.parts + names.drop_last(),
                            },
                            name,
                        },
                    ),
                ],
            })
        }),
{
}

/// A file of a folder that is not there, or has failed, is rejected with the
/// reason; so is one too many, or one with a path that is not safe, and those
/// fail the folder.
pub proof fn other_folder_files_are_rejected(
    s: Incoming,
    tree: u64,
    id: u64,
    rel: Seq<char>,
    size: u64,
    now: u64,
)
    ensures
        ({
            let r = s.on_message(Msg::TreeFile { tree, id, rel, size }, now);
            let t = at(s.trees, tree);
            let more = Folder { entries: (t.entries + 1) as u64, ..t };
            &&& !has_key(s.trees, tree) ==> r == (Step {
                state: s,
                acts: seq![
                    Act::Send(Msg::FileReject { id, reason: "no such folder transfer"@ }),
                ],
            })
            &&& has_key(s.trees, tree) && t.failed is Some ==> r == (Step {
                state: s,
                acts: seq![
                    Act::Send(
                        Msg::FileReject {
                            id,
                            reason: "folder transfer failed: "@ + t.failed->0,
                        },
                    ),
                ],
            })
            &&& has_key(s.trees, tree) && t.failed is None && 1_000_000 <= t.entries < u64::MAX
                ==> r == (Step {
                state: Incoming {
                    trees: stored(
                        s.trees,
                        tree,
                        Folder { failed: Some("folder has too many entries"@), ..more },
                    ),
                    ..s
                },
                acts: seq![
                    Act::Send(Msg::FileReject { id, reason: "folder has too many entries"@ }),
                ],
            })
            &&& has_key(s.trees, tree) && t.failed is None && t.entries < 1_000_000 && safe_rel(rel)
                is None ==> r == (Step {
                state: Incoming {
                    trees: stored(
                        s.trees,
                        tree,
                        Folder { failed: Some("invalid path inside folder: "@ + rel), ..more },
                    ),
                    ..s
                },
                acts: seq![
                    Act::Send(
                        Msg::FileReject { id, reason: "invalid path inside folder: "@ + rel },
                    ),
                ],
            })
        }),
{
}

/// Directories and ends of folders that are not there change nothing; neither
/// do directories of one that failed.
pub proof fn strange_folders_are_passed_over(
    s: Incoming,
    tree: u64,
    rel: Seq<char>,
    error: Option<Seq<char>>,
    now: u64,
)
    ensures
        !has_key(s.trees, tree) || at(s.trees, tree).failed is Some ==> s.on_message(
            Msg::TreeDir { tree, rel },
            now,
        ) == (Step { state: s, acts: Seq::empty() }),
        !has_key(s.trees, tree) ==> s.on_message(Msg::TreeEnd { tree, error }, now) == (Step {
            state: s,
            acts: Seq::empty(),
        }),
{
}

/// The end of a folder is noted; while files of it are still to come nothing
/// else happens. What its sender says went wrong fails it.
pub proof fn ended_folders_wait_for_their_files(
    s: Incoming,
    tree: u64,
    error: Option<Seq<char>>,
    now: u64,
)
    requires
        crate::table::keys_differ(s.trees),
        has_key(s.trees, tree),
        at(s.trees, tree).outstanding.len() > 0,
    ensures
        ({
            let t = at(s.trees, tree);
            s.on_message(Msg::TreeEnd { tree, error }, now) == (Step {
                state: Incoming {
                    trees: stored(
                        s.trees,
                        tree,
                        Folder {
                            ended: true,
                            failed: if t.failed is None && error is Some {
                                Some("sender: "@ + error->0)
                            } else {
                                t.failed
                            },
                            ..t
                        },
                    ),
                    ..s
                },
                acts: Seq::empty(),
            })
        }),
{
    let t = at(s.trees, tree);
    let f = Folder {
        ended: true,
        failed: if t.failed is None && error is Some {
            Some("sender: "@ + error->0)
        } else {
            t.failed
        },
        ..t
    };
    stored_reads_back(s.trees, tree, f, tree);
}

/// A whole folder goes from its staging place into the receive folder, under
/// its name, and is under way no longer.
pub proof fn whole_folders_are_placed(s: Incoming, tree: u64, now: u64)
    requires
        crate::table::keys_differ(s.trees),
        has_key(s.trees, tree),
        at(s.trees, tree).outstanding.len() == 0,
        at(s.trees, tree).failed is None,
        at(s.trees, tree).drag is None,
    ensures
        ({
            let t = Folder { ended: true, ..at(s.trees, tree) };
            s.on_message(Msg::TreeEnd { tree, error: None }, now) == (Step {
                state: Incoming {
                    trees: erased(stored(s.trees, tree, t), tree),
                    waiting: Wait::Placing { folder: t },
                    ..s
                },
                acts: seq![
                    Act::EnsureDir(s.file_dir),
                    Act::Do(
                        Job::PlaceFolder { from: t.root, dir: s.file_dir, name: t.name },
                    ),
                ],
            })
        }),
{
    stored_reads_back(s.trees, tree, Folder { ended: true, ..at(s.trees, tree) }, tree);
}

/// A whole folder of the drag under way is staged behind what is there, and
/// waited for no longer; while more is to come nothing else happens.
pub proof fn dragged_folders_wait_for_the_drop(s: Incoming, tree: u64, now: u64)
    requires
        crate::table::keys_differ(s.trees),
        has_key(s.trees, tree),
        at(s.trees, tree).outstanding.len() == 0,
        at(s.trees, tree).failed is None,
        at(s.trees, tree).drag is Some,
        s.drag is Some,
        s.drag->0.drag == at(s.trees, tree).drag->0,
        !s.drag->0.drop_requested || s.drag->0.offered < s.drag->0.expected || without_id(
            s.drag->0.outstanding,
            tree,
        ).len() > 0,
    ensures
        ({
            let t = Folder { ended: true, ..at(s.trees, tree) };
            let d = s.drag->0;
            let r = s.on_message(Msg::TreeEnd { tree, error: None }, now);
            &&& r.acts == seq![
                folder_told(
                    t.tree,
                    t.name,
                    t.files,
                    t.total,
                    t.total,
                    TransferState::Done,
                    Some(t.shown),
                ),
            ]
            &&& r.state == (Incoming {
                trees: erased(stored(s.trees, tree, t), tree),
                drag: Some(
                    Dragging {
                        outstanding: without_id(d.outstanding, tree),
                        done: d.done.push(
                            Staged {
                                id: tree,
                                name: t.name,
                                kind: TransferKind::Folder,
                                files: t.files,
                                size: t.total,
                                path: t.root,
                            },
                        ),
                        ..d
                    },
                ),
                ..s
            })
        }),
{
    let t = Folder { ended: true, ..at(s.trees, tree) };
    stored_reads_back(s.trees, tree, t, tree);
    assert(s.on_message(Msg::TreeEnd { tree, error: None }, now).acts =~= seq![
        folder_told(
            t.tree,
            t.name,
            t.files,
            t.total,
            t.total,
            TransferState::Done,
            Some(t.shown),
        ),
    ]);
}

/// A folder that failed goes once it has ended and its files have settled:
/// its directories are removed, and it is shown as failed with the reason, at
/// the bytes that came.
pub proof fn failed_folders_go(s: Incoming, tree: u64, now: u64)
    requires
        crate::table::keys_differ(s.trees),
        has_key(s.trees, tree),
        at(s.trees, tree).outstanding.len() == 0,
        at(s.trees, tree).failed is Some,
        at(s.trees, tree).drag is None,
        at(s.trees, tree).staging is Some,
        at(s.trees, tree).root != Place::nowhere(),
    ensures
        ({
            let t = Folder { ended: true, ..at(s.trees, tree) };
            s.on_message(Msg::TreeEnd { tree, error: None }, now) == (Step {
                state: Incoming { trees: erased(stored(s.trees, tree, t), tree), ..s },
                acts: seq![
                    Act::RemoveTree(t.root),
                    Act::RemoveTree(t.staging->0),
                    folder_told(
                        t.tree,
                        t.name,
                        t.files,
                        t.done_bytes,
                        t.total,
                        TransferState::Failed,
                        t.failed,
                    ),
                ],
            })
        }),
{
    let t = Folder { ended: true, ..at(s.trees, tree) };
    stored_reads_back(s.trees, tree, t, tree);
    assert(s.on_message(Msg::TreeEnd { tree, error: None }, now).acts =~= seq![
        Act::RemoveTree(t.root),
        Act::RemoveTree(t.staging->0),
        folder_told(
            t.tree,
            t.name,
            t.files,
            t.done_bytes,
            t.total,
            TransferState::Failed,
            t.failed,
        ),
    ]);
}

/// A folder that is in place is shown as done, there, and its staging
/// directory goes; one that could not be placed goes as a whole and is shown
/// as failed with the reason.
pub proof fn placed_folders_are_shown(
    s: Incoming,
    path: Seq<char>,
    place: Seq<char>,
    cause: Seq<char>,
)
    requires
        s.waiting is Placing,
        s.waiting->Placing_folder.staging is Some,
    ensures
        ({
            let t = s.waiting->Placing_folder;
            &&& s.on_folder_placed(Ok(path)) == (Step {
                state: Incoming { waiting: Wait::Nothing, ..s },
                acts: seq![
                    Act::RemoveTree(t.staging->0),
                    folder_told(
                        t.tree,
                        t.name,
                        t.files,
                        t.total,
                        t.total,
                        TransferState::Done,
                        Some(path),
                    ),
                ],
            })
            &&& s.on_folder_placed(Err((place, cause))) == (Step {
                state: Incoming { waiting: Wait::Nothing, ..s },
                acts: seq![
                    Act::RemoveTree(t.staging->0),
                    Act::RemoveTree(t.root),
                    folder_told(
                        t.tree,
                        t.name,
                        t.files,
                        t.done_bytes,
                        t.total,
                        TransferState::Failed,
                        Some("cannot place folder at "@ + place + ": "@ + cause),
                    ),
                ],
            })
        }),
{
    let t = s.waiting->Placing_folder;
    assert(s.on_folder_placed(Ok(path)).acts =~= seq![
        Act::RemoveTree(t.staging->0),
        folder_told(
            t.tree,
            t.name,
            t.files,
            t.total,
            t.total,
            TransferState::Done,
            Some(path),
        ),
    ]);
    assert(s.on_folder_placed(Err((place, cause))).acts =~= seq![
        Act::RemoveTree(t.staging->0),
        Act::RemoveTree(t.root),
        folder_told(
            t.tree,
            t.name,
            t.files,
            t.done_bytes,
            t.total,
            TransferState::Failed,
            Some("cannot place folder at "@ + place + ": "@ + cause),
        ),
    ]);
}

/// A file inside a folder that is in its place is waited for no longer, and
/// its bytes count; while more is to come, or its sender has not closed the
/// folder, nothing else happens. One that failed fails the folder, by its
/// name and its reason.
pub proof fn folder_files_settle(
    s: Incoming,
    path: Seq<char>,
    place: Seq<char>,
    cause: Seq<char>,
)
    requires
        crate::table::keys_differ(s.trees),
        s.waiting is Rename,
        s.waiting->Rename_tree is Some,
        has_key(s.trees, s.waiting->Rename_tree->0),
        !at(s.trees, s.waiting->Rename_tree->0).ended || without_id(
            at(s.trees, s.waiting->Rename_tree->0).outstanding,
            s.waiting->Rename_id,
        ).len() > 0,
        at(s.trees, s.waiting->Rename_tree->0).done_bytes + s.waiting->Rename_size <= u64::MAX,
    ensures
        ({
            let w = s.waiting;
            let tree = w->Rename_tree->0;
            let f = at(s.trees, tree);
            let left = without_id(f.outstanding, w->Rename_id);
            &&& s.on_committed(Ok(path)) == (Step {
                state: Incoming {
                    waiting: Wait::Nothing,
                    trees: stored(
                        s.trees,
                        tree,
                        Folder {
                            outstanding: left,
                            done_bytes: (f.done_bytes + w->Rename_size) as u64,
                            ..f
                        },
                    ),
                    ..s
                },
                acts: Seq::empty(),
            })
            &&& f.failed is None ==> s.on_committed(Err((place, cause))) == (Step {
                state: Incoming {
                    waiting: Wait::Nothing,
                    trees: stored(
                        s.trees,
                        tree,
                        Folder {
                            outstanding: left,
                            failed: Some(
                                w->Rename_name + ": "@ + ("cannot rename to "@ + place + ": "@
                                    + cause),
                            ),
                            ..f
                        },
                    ),
                    ..s
                },
                acts: Seq::empty(),
            })
        }),
{
    let w = s.waiting;
    let tree = w->Rename_tree->0;
    let f = at(s.trees, tree);
    let left = without_id(f.outstanding, w->Rename_id);
    let good = Folder {
        outstanding: left,
        done_bytes: (f.done_bytes + w->Rename_size) as u64,
        ..f
    };
    stored_reads_back(s.trees, tree, good, tree);
    let bad = (Folder { outstanding: left, ..f }).fail(
        w->Rename_name + ": "@ + ("cannot rename to "@ + place + ": "@ + cause),
    );
    stored_reads_back(s.trees, tree, bad, tree);
    assert(s.on_committed(Ok(path)).acts =~= Seq::<Act>::empty());
    assert(s.on_committed(Err((place, cause))).acts =~= Seq::<Act>::empty());
}

/* -------------------------------- going away -------------------------------- */

proof fn dropping_leaves_the_others(recv: Seq<(u64, Receiving)>, ids: Seq<u64>, id: u64)
    requires
        crate::table::keys_differ(recv),
    ensures
        crate::table::keys_differ(dropped(recv, ids)),
        ids.contains(id) ==> !has_key(dropped(recv, ids), id),
        !ids.contains(id) ==> has_key(dropped(recv, ids), id) == has_key(recv, id),
        !ids.contains(id) && has_key(recv, id) ==> at(dropped(recv, ids), id) == at(recv, id),
    decreases ids.len(),
{
    if ids.len() > 0 {
        let front = ids.drop_last();
        dropping_leaves_the_others(recv, front, id);
        erased_is_gone(dropped(recv, front), ids.last(), id);
        assert(ids[ids.len() - 1] == ids.last());
        if ids.contains(id) && id != ids.last() {
            let k = choose|k: int| 0 <= k < ids.len() && ids[k] == id;
            assert(front[k] == id);
        }
        if front.contains(id) {
            let k = choose|k: int| 0 <= k < front.len() && front[k] == id;
            assert(ids[k] == id);
        }
    }
}

proof fn dropping_discards(recv: Seq<(u64, Receiving)>, ids: Seq<u64>, id: u64)
    requires
        crate::table::keys_differ(recv),
        ids.contains(id),
        has_key(recv, id),
    ensures
        discards(recv, ids).contains(Act::Discard { id, part: at(recv, id).part }),
    decreases ids.len(),
{
    let front = ids.drop_last();
    let want = Act::Discard { id, part: at(recv, id).part };
    dropping_leaves_the_others(recv, front, id);
    let all = discards(recv, ids);
    let before = discards(recv, front);
    if front.contains(id) {
        dropping_discards(recv, front, id);
        let k = choose|k: int| 0 <= k < before.len() && before[k] == want;
        assert(all[k] == want);
    } else {
        let k = choose|k: int| 0 <= k < ids.len() && ids[k] == id;
        if k < front.len() {
            assert(front[k] == id);
        }
        assert(id == ids.last());
        assert(all[before.len() as int] == want);
    }
}

proof fn forsaking_leaves_the_others(
    recv: Seq<(u64, Receiving)>,
    trees: Seq<(u64, Folder)>,
    drag: u64,
    id: u64,
)
    requires
        crate::table::keys_differ(recv),
        forall|k: int|
            0 <= k < trees.len() && (#[trigger] trees[k]).1.drag == Some(drag)
                ==> !trees[k].1.outstanding.contains(id),
    ensures
        crate::table::keys_differ(forsaken(recv, trees, drag)),
        has_key(forsaken(recv, trees, drag), id) == has_key(recv, id),
        has_key(recv, id) ==> at(forsaken(recv, trees, drag), id) == at(recv, id),
    decreases trees.len(),
{
    if trees.len() > 0 {
        let front = trees.drop_last();
        assert forall|k: int|
            0 <= k < front.len() && (#[trigger] front[k]).1.drag == Some(
                drag,
            ) implies !front[k].1.outstanding.contains(id) by {
            assert(front[k] == trees[k]);
        }
        forsaking_leaves_the_others(recv, front, drag, id);
        let t = trees[trees.len() - 1].1;
        if t.drag == Some(drag) {
            dropping_leaves_the_others(forsaken(recv, front, drag), t.outstanding, id);
        }
    }
}

proof fn forsaking_takes_the_files(
    recv: Seq<(u64, Receiving)>,
    trees: Seq<(u64, Folder)>,
    drag: u64,
    k: int,
    id: u64,
)
    requires
        crate::table::keys_differ(recv),
        0 <= k < trees.len(),
        trees[k].1.drag == Some(drag),
        trees[k].1.outstanding.contains(id),
    ensures
        crate::table::keys_differ(forsaken(recv, trees, drag)),
        !has_key(forsaken(recv, trees, drag), id),
        has_key(recv, id) ==> forsaking(recv, trees, drag).contains(
            Act::Discard { id, part: at(recv, id).part },
        ),
    decreases trees.len(),
{
    let front = trees.drop_last();
    let t = trees[trees.len() - 1].1;
    let before = forsaken(recv, front, drag);
    let acts = forsaking(recv, front, drag);
    let all = forsaking(recv, trees, drag);
    let want = Act::Discard { id, part: at(recv, id).part };
    forsaking_keeps_them_apart(recv, front, drag, id);
    if t.drag == Some(drag) {
        dropping_leaves_the_others(before, t.outstanding, id);
    }
    if acts.contains(want) {
        let i = choose|i: int| 0 <= i < acts.len() && acts[i] == want;
        assert(all[i] == want);
    }
    if k < front.len() {
        forsaking_takes_the_files(recv, front, drag, k, id);
    } else if has_key(recv, id) && has_key(before, id) {
        dropping_discards(before, t.outstanding, id);
        let gone = discards(before, t.outstanding);
        let i = choose|i: int| 0 <= i < gone.len() && gone[i] == want;
        assert(all[acts.len() + i] == want);
    }
}

proof fn forsaking_keeps_them_apart(
    recv: Seq<(u64, Receiving)>,
    trees: Seq<(u64, Folder)>,
    drag: u64,
    id: u64,
)
    requires
        crate::table::keys_differ(recv),
    ensures
        crate::table::keys_differ(forsaken(recv, trees, drag)),
        has_key(forsaken(recv, trees, drag), id) ==> has_key(recv, id) && at(
            forsaken(recv, trees, drag),
            id,
        ) == at(recv, id),
        has_key(recv, id) && !has_key(forsaken(recv, trees, drag), id) ==> forsaking(
            recv,
            trees,
            drag,
        ).contains(Act::Discard { id, part: at(recv, id).part }),
    decreases trees.len(),
{
    if trees.len() > 0 {
        let front = trees.drop_last();
        let t = trees[trees.len() - 1].1;
        let before = forsaken(recv, front, drag);
        let acts = forsaking(recv, front, drag);
        let all = forsaking(recv, trees, drag);
        let want = Act::Discard { id, part: at(recv, id).part };
        forsaking_keeps_them_apart(recv, front, drag, id);
        if t.drag == Some(drag) {
            dropping_leaves_the_others(before, t.outstanding, id);
            if has_key(before, id) && t.outstanding.contains(id) {
                dropping_discards(before, t.outstanding, id);
                let gone = discards(before, t.outstanding);
                let i = choose|i: int| 0 <= i < gone.len() && gone[i] == want;
                assert(all[acts.len() + i] == want);
            }
        }
        if acts.contains(want) {
            let i = choose|i: int| 0 <= i < acts.len() && acts[i] == want;
            assert(all[i] == want);
        }
    }
}

proof fn forsaken_folders_are_told(
    recv: Seq<(u64, Receiving)>,
    trees: Seq<(u64, Folder)>,
    drag: u64,
    k: int,
)
    requires
        0 <= k < trees.len(),
        trees[k].1.drag == Some(drag),
    ensures
        ({
            let t = trees[k].1;
            forsaking(recv, trees, drag).contains(
                folder_told(
                    t.tree,
                    t.name,
                    t.files,
                    t.done_bytes,
                    t.total,
                    TransferState::Failed,
                    Some("drag cancelled"@),
                ),
            )
        }),
    decreases trees.len(),
{
    let t = trees[k].1;
    let want = folder_told(
        t.tree,
        t.name,
        t.files,
        t.done_bytes,
        t.total,
        TransferState::Failed,
        Some("drag cancelled"@),
    );
    let front = trees.drop_last();
    let all = forsaking(recv, trees, drag);
    if k == front.len() {
        assert(all[all.len() - 1] == want);
    } else {
        forsaken_folders_are_told(recv, front, drag, k);
        let before = forsaking(recv, front, drag);
        let i = choose|i: int| 0 <= i < before.len() && before[i] == want;
        assert(all[i] == want);
    }
}

/// A drag that is cancelled is gone: each item that was staged for it, and
/// each folder that was on its way to it, is shown as failed; the part files
/// of what was to come go, and so does its directory. Files that are no part
/// of it go on.
pub proof fn cancelled_drags_say_so(s: Incoming, drag: u64, now: u64, id: u64, k: int)
    requires
        s.drag is Some,
        s.drag->0.drag == drag,
        crate::table::keys_differ(s.recv),
    ensures
        ({
            let d = s.drag->0;
            let r = s.on_message(Msg::DragCancel { drag }, now);
            &&& r.state == (Incoming {
                drag: None,
                recv: r.state.recv,
                trees: r.state.trees,
                ..s
            })
            &&& r.acts.len() > 0 && r.acts.last() == Act::RemoveTree(d.dir)
            &&& 0 <= k < d.done.len() ==> r.acts.len() > k && r.acts[k] == Act::Report(
                Event::Transfer(
                    Row {
                        id: d.done[k].id,
                        name: d.done[k].name,
                        direction: Direction::Received,
                        transferred: d.done[k].size,
                        total: d.done[k].size,
                        state: TransferState::Failed,
                        detail: Some("drag cancelled"@),
                        kind: d.done[k].kind,
                        files: d.done[k].files,
                    },
                ),
            )
            &&& d.outstanding.contains(id) && has_key(s.recv, id) ==> r.acts.contains(
                Act::Discard { id, part: at(s.recv, id).part },
            )
            &&& 0 <= k < s.trees.len() && s.trees[k].1.drag == Some(drag) ==> r.acts.contains(
                folder_told(
                    s.trees[k].1.tree,
                    s.trees[k].1.name,
                    s.trees[k].1.files,
                    s.trees[k].1.done_bytes,
                    s.trees[k].1.total,
                    TransferState::Failed,
                    Some("drag cancelled"@),
                ),
            )
            &&& !d.outstanding.contains(id) && has_key(s.recv, id) && (forall|j: int|
                0 <= j < s.trees.len() && (#[trigger] s.trees[j]).1.drag == Some(drag)
                    ==> !s.trees[j].1.outstanding.contains(id)) ==> has_key(r.state.recv, id) && at(
                r.state.recv,
                id,
            ) == at(s.recv, id)
        }),
{
    let d = s.drag->0;
    let r = s.on_message(Msg::DragCancel { drag }, now);
    let direct = dropped(s.recv, d.outstanding);
    let lost = lost_items(d.done);
    let gone = discards(s.recv, d.outstanding);
    let left = forsaking(direct, s.trees, drag);
    dropping_leaves_the_others(s.recv, d.outstanding, id);
    if d.outstanding.contains(id) && has_key(s.recv, id) {
        dropping_discards(s.recv, d.outstanding, id);
        let want = Act::Discard { id, part: at(s.recv, id).part };
        let i = choose|i: int| 0 <= i < gone.len() && gone[i] == want;
        assert(r.acts[lost.len() + i] == want);
    }
    if 0 <= k < s.trees.len() && s.trees[k].1.drag == Some(drag) {
        let t = s.trees[k].1;
        forsaken_folders_are_told(direct, s.trees, drag, k);
        let want = folder_told(
            t.tree,
            t.name,
            t.files,
            t.done_bytes,
            t.total,
            TransferState::Failed,
            Some("drag cancelled"@),
        );
        let i = choose|i: int| 0 <= i < left.len() && left[i] == want;
        assert(r.acts[lost.len() + gone.len() + i] == want);
    }
    if forall|j: int|
        0 <= j < s.trees.len() && (#[trigger] s.trees[j]).1.drag == Some(
            drag,
        ) ==> !s.trees[j].1.outstanding.contains(id) {
        forsaking_leaves_the_others(direct, s.trees, drag, id);
    }
}

/// With a drag that is cancelled the files of its folders go too: none is
/// under way any more, and their part files are deleted.
pub proof fn cancelled_drags_take_their_folders(
    s: Incoming,
    drag: u64,
    now: u64,
    k: int,
    id: u64,
)
    requires
        s.drag is Some,
        s.drag->0.drag == drag,
        crate::table::keys_differ(s.recv),
        0 <= k < s.trees.len(),
        s.trees[k].1.drag == Some(drag),
        s.trees[k].1.outstanding.contains(id),
    ensures
        ({
            let r = s.on_message(Msg::DragCancel { drag }, now);
            &&& !has_key(r.state.recv, id)
            &&& has_key(s.recv, id) ==> r.acts.contains(
                Act::Discard { id, part: at(s.recv, id).part },
            )
        }),
{
    let d = s.drag->0;
    let r = s.on_message(Msg::DragCancel { drag }, now);
    let direct = dropped(s.recv, d.outstanding);
    let lost = lost_items(d.done);
    let gone = discards(s.recv, d.outstanding);
    let left = forsaking(direct, s.trees, drag);
    let want = Act::Discard { id, part: at(s.recv, id).part };
    dropping_leaves_the_others(s.recv, d.outstanding, id);
    forsaking_takes_the_files(direct, s.trees, drag, k, id);
    if has_key(s.recv, id) {
        if d.outstanding.contains(id) {
            dropping_discards(s.recv, d.outstanding, id);
            let i = choose|i: int| 0 <= i < gone.len() && gone[i] == want;
            assert(r.acts[lost.len() + i] == want);
        } else {
            let i = choose|i: int| 0 <= i < left.len() && left[i] == want;
            assert(r.acts[lost.len() + gone.len() + i] == want);
        }
    }
}

/// A drag that begins takes the place of the one there is as if that had been
/// cancelled.
pub proof fn new_drags_replace_old_ones(s: Incoming, drag: u64, count: u32, now: u64)
    requires
        s.drag is Some,
    ensures
        ({
            let cancelled = s.on_message(Msg::DragCancel { drag: s.drag->0.drag }, now);
            let begun = s.on_message(Msg::DragBegin { drag, count }, now);
            &&& begun.acts.drop_last() == cancelled.acts
            &&& begun.state == (Incoming { waiting: begun.state.waiting, ..cancelled.state })
        }),
{
    let cancelled = s.on_message(Msg::DragCancel { drag: s.drag->0.drag }, now);
    let begun = s.on_message(Msg::DragBegin { drag, count }, now);
    assert(begun.acts.drop_last() =~= cancelled.acts);
}

/// When the connection closes, first each file under way goes and is shown as
/// failed, unless it is inside a folder, whose row stands for it; then each
/// folder; then the drag.
pub proof fn closing_goes_through_everything(
    s: Incoming,
    id: u64,
    t: Receiving,
    tree: u64,
    f: Folder,
    d: Dragging,
)
    requires
        f.root != Place::nowhere(),
        f.staging is Some,
    ensures
        ({
            let empty = Incoming { recv: Seq::empty(), trees: Seq::empty(), drag: None, ..s };
            let files = Incoming { recv: s.recv, ..empty };
            let folders = Incoming { trees: s.trees, ..empty };
            &&& empty.closing().len() == 0
            &&& s.drag is None ==> s.closing() == files.closing() + folders.closing()
            &&& (Incoming { drag: Some(d), ..s }).closing() == (Incoming {
                drag: None,
                ..s
            }).closing() + seq![Act::RemoveTree(d.dir)]
            &&& t.tree is None ==> (Incoming {
                recv: s.recv.push((id, t)),
                ..empty
            }).closing() == files.closing() + seq![
                file_told(
                    id,
                    t.name,
                    t.received,
                    t.size,
                    TransferState::Failed,
                    Some("connection closed"@),
                ),
                Act::Discard { id, part: t.part },
            ]
            &&& t.tree is Some ==> (Incoming {
                recv: s.recv.push((id, t)),
                ..empty
            }).closing() == files.closing() + seq![Act::Discard { id, part: t.part }]
            &&& (Incoming { trees: s.trees.push((tree, f)), ..empty }).closing()
                == folders.closing() + seq![
                Act::RemoveTree(f.root),
                Act::RemoveTree(f.staging->0),
                folder_told(
                    f.tree,
                    f.name,
                    f.files,
                    f.done_bytes,
                    f.total,
                    TransferState::Failed,
                    Some("connection closed"@),
                ),
            ]
        }),
{
    let empty = Incoming { recv: Seq::empty(), trees: Seq::empty(), drag: None, ..s };
    let files = Incoming { recv: s.recv, ..empty };
    let folders = Incoming { trees: s.trees, ..empty };
    assert(empty.closing() =~= Seq::<Act>::empty());
    assert(files.closing() =~= closing_files(s.recv));
    assert(folders.closing() =~= closing_folders(s.trees));
    assert(s.drag is None ==> s.closing() =~= files.closing() + folders.closing());
    let without = Incoming { drag: None, ..s };
    assert((Incoming { drag: Some(d), ..s }).closing() =~= without.closing() + seq![
        Act::RemoveTree(d.dir),
    ]);
    let more = s.recv.push((id, t));
    assert(more.drop_last() =~= s.recv);
    let one = Incoming { recv: more, ..empty };
    if t.tree is None {
        assert(one.closing() =~= files.closing() + seq![
            file_told(
                id,
                t.name,
                t.received,
                t.size,
                TransferState::Failed,
                Some("connection closed"@),
            ),
            Act::Discard { id, part: t.part },
        ]);
    } else {
        assert(one.closing() =~= files.closing() + seq![Act::Discard { id, part: t.part }]);
    }
    let grown = s.trees.push((tree, f));
    assert(grown.drop_last() =~= s.trees);
    let two = Incoming { trees: grown, ..empty };
    assert(two.closing() =~= folders.closing() + seq![
        Act::RemoveTree(f.root),
        Act::RemoveTree(f.staging->0),
        folder_told(
            f.tree,
            f.name,
            f.files,
            f.done_bytes,
            f.total,
            TransferState::Failed,
            Some("connection closed"@),
        ),
    ]);
}

/// The progress of a folder is what is done and what has come of the files
/// under way, shown every quarter of a second.
pub proof fn folder_progress_is_shown(s: Incoming, now: u64)
    requires
        s.waiting is Chunk,
        has_key(s.recv, s.waiting->Chunk_id),
        at(s.recv, s.waiting->Chunk_id).tree is Some,
        has_key(s.trees, at(s.recv, s.waiting->Chunk_id).tree->0),
    ensures
        ({
            let tree = at(s.recv, s.waiting->Chunk_id).tree->0;
            let f = at(s.trees, tree);
            let come = f.done_bytes + inflight(s.recv, f.outstanding);
            let r = s.on_chunk_written(None, now);
            &&& now < f.last_progress + 250_000_000 ==> r == (Step {
                state: Incoming { waiting: Wait::Nothing, ..s },
                acts: Seq::empty(),
            })
            &&& now >= f.last_progress + 250_000_000 && come <= u64::MAX ==> r == (Step {
                state: Incoming {
                    waiting: Wait::Nothing,
                    trees: stored(s.trees, tree, Folder { last_progress: now, ..f }),
                    ..s
                },
                acts: seq![
                    folder_told(
                        f.tree,
                        f.name,
                        f.files,
                        come as u64,
                        f.total,
                        TransferState::Active,
                        None,
                    ),
                ],
            })
        }),
{
}

/// What has come of files under way is counted file by file.
pub proof fn what_has_come_adds_up(recv: Seq<(u64, Receiving)>, ids: Seq<u64>, id: u64)
    ensures
        inflight(recv, Seq::empty()) == 0,
        has_key(recv, id) ==> inflight(recv, ids.push(id)) == inflight(recv, ids) + at(
            recv,
            id,
        ).received,
        !has_key(recv, id) ==> inflight(recv, ids.push(id)) == inflight(recv, ids),
{
    assert(ids.push(id).drop_last() =~= ids);
}

/// A file of a folder that fails on the way goes without a row of its own,
/// and fails the folder by its name and the reason.
pub proof fn failing_files_fail_their_folder(s: Incoming, id: u64, reason: Seq<char>, now: u64)
    requires
        crate::table::keys_differ(s.trees),
        has_key(s.recv, id),
        at(s.recv, id).tree is Some,
        has_key(s.trees, at(s.recv, id).tree->0),
        at(s.trees, at(s.recv, id).tree->0).failed is None,
        !at(s.trees, at(s.recv, id).tree->0).ended || without_id(
            at(s.trees, at(s.recv, id).tree->0).outstanding,
            id,
        ).len() > 0,
    ensures
        ({
            let t = at(s.recv, id);
            let tree = t.tree->0;
            let f = at(s.trees, tree);
            s.on_message(Msg::FileCancel { id, reason }, now) == (Step {
                state: Incoming {
                    recv: erased(s.recv, id),
                    trees: stored(
                        s.trees,
                        tree,
                        Folder {
                            outstanding: without_id(f.outstanding, id),
                            failed: Some(t.name + ": "@ + reason),
                            ..f
                        },
                    ),
                    ..s
                },
                acts: seq![Act::Discard { id, part: t.part }],
            })
        }),
{
    let t = at(s.recv, id);
    let tree = t.tree->0;
    let f = at(s.trees, tree);
    let g = Folder {
        outstanding: without_id(f.outstanding, id),
        failed: Some(t.name + ": "@ + reason),
        ..f
    };
    stored_reads_back(s.trees, tree, g, tree);
    assert(s.on_message(Msg::FileCancel { id, reason }, now).acts =~= seq![
        Act::Discard { id, part: t.part },
    ]);
}

/* --------------------------- how failures settle --------------------------- */

/// A file that is offered to the drag under way counts as offered also where
/// it is rejected, because its number is taken or nothing is left of its name;
/// while more is to come nothing else happens.
pub proof fn rejected_drag_files_count(
    s: Incoming,
    drag: u64,
    id: u64,
    name: Seq<char>,
    size: u64,
    now: u64,
)
    requires
        s.drag is Some,
        s.drag->0.drag == drag,
        s.drag->0.offered < u32::MAX,
        has_key(s.recv, id) || safe_name(name) is None,
        !s.drag->0.drop_requested || s.drag->0.offered + 1 < s.drag->0.expected
            || s.drag->0.outstanding.len() > 0,
    ensures
        ({
            let d = s.drag->0;
            let r = s.on_message(Msg::DragOffer { drag, id, name, size }, now);
            &&& r.state == (Incoming {
                drag: Some(Dragging { offered: (d.offered + 1) as u32, ..d }),
                ..s
            })
            &&& has_key(s.recv, id) ==> r.acts == seq![
                Act::Send(Msg::FileReject { id, reason: "transfer id already in use"@ }),
            ]
            &&& !has_key(s.recv, id) ==> r.acts == seq![
                file_told(
                    id,
                    name,
                    0,
                    size,
                    TransferState::Failed,
                    Some("invalid file name"@),
                ),
                Act::Send(Msg::FileReject { id, reason: "invalid file name"@ }),
            ]
        }),
{
    let r = s.on_message(Msg::DragOffer { drag, id, name, size }, now);
    if has_key(s.recv, id) {
        assert(r.acts =~= seq![
            Act::Send(Msg::FileReject { id, reason: "transfer id already in use"@ }),
        ]);
    } else {
        assert(r.acts =~= seq![
            file_told(id, name, 0, size, TransferState::Failed, Some("invalid file name"@)),
            Act::Send(Msg::FileReject { id, reason: "invalid file name"@ }),
        ]);
    }
}

/// A file of a drag whose part file cannot be created is rejected with the
/// reason; if it was all that the drop waited for, the drop is carried out.
pub proof fn unopened_drag_files_settle(s: Incoming, place: Seq<char>, cause: Seq<char>, now: u64)
    requires
        s.waiting is Part,
        s.waiting->Part_tree is None,
        s.waiting->Part_drag is Some,
        s.drag is Some,
    ensures
        ({
            let w = s.waiting;
            let d = s.drag->0;
            let reason = "cannot create "@ + place + ": "@ + cause;
            let r = s.on_part_opened(Err((place, cause)), now);
            let told = file_told(
                w->Part_id,
                w->Part_offered,
                0,
                w->Part_size,
                TransferState::Failed,
                Some(reason),
            );
            let back = Act::Send(Msg::FileReject { id: w->Part_id, reason });
            let dropped = Incoming {
                waiting: Wait::Nothing,
                drag: Some(Dragging { drop_requested: false, ..d }),
                ..s
            }.on_message(Msg::DragDrop { drag: d.drag }, now);
            &&& !d.drop_requested || d.offered < d.expected || d.outstanding.len() > 0 ==> r.state
                == (Incoming { waiting: Wait::Nothing, ..s }) && r.acts == seq![told, back]
            &&& d.drop_requested && d.offered >= d.expected && d.outstanding.len() == 0 ==> r.state
                == dropped.state && r.acts == seq![told, back] + dropped.acts
        }),
{
    let w = s.waiting;
    let d = s.drag->0;
    let reason = "cannot create "@ + place + ": "@ + cause;
    let r = s.on_part_opened(Err((place, cause)), now);
    let told = file_told(
        w->Part_id,
        w->Part_offered,
        0,
        w->Part_size,
        TransferState::Failed,
        Some(reason),
    );
    let back = Act::Send(Msg::FileReject { id: w->Part_id, reason });
    if d.drop_requested && d.offered >= d.expected && d.outstanding.len() == 0 {
        let dropped = Incoming {
            waiting: Wait::Nothing,
            drag: Some(Dragging { drop_requested: false, ..d }),
            ..s
        }.on_message(Msg::DragDrop { drag: d.drag }, now);
        assert(r.acts =~= seq![told, back] + dropped.acts);
    } else {
        assert(r.acts =~= seq![told, back]);
    }
}

/// A wrong chunk does what a cancellation with its reason does, and tells the
/// sender; wherever the file belongs.
#[verifier::spinoff_prover]
#[verifier::rlimit(60)]
pub proof fn wrong_chunks_are_cancellations(
    s: Incoming,
    id: u64,
    offset: u64,
    data: Seq<u8>,
    now: u64,
)
    requires
        has_key(s.recv, id),
        data.len() > 262144 || at(s.recv, id).received + data.len() > at(s.recv, id).size || offset
            != at(s.recv, id).received,
    ensures
        ({
            let t = at(s.recv, id);
            let reason = if data.len() > 262144 || t.received + data.len() > t.size {
                "transfer exceeds offered size"@
            } else {
                "chunks out of order"@
            };
            let wrong = s.on_message(Msg::FileChunk { id, offset, data }, now);
            let cancelled = s.on_message(Msg::FileCancel { id, reason }, now);
            let head: int = if t.tree is None {
                1
            } else {
                0
            };
            &&& wrong.state == cancelled.state
            &&& wrong.acts == cancelled.acts.take(head) + seq![
                Act::Send(Msg::FileCancel { id, reason }),
            ] + cancelled.acts.skip(head)
        }),
{
    let t = at(s.recv, id);
    let reason = if data.len() > 262144 || t.received + data.len() > t.size {
        "transfer exceeds offered size"@
    } else {
        "chunks out of order"@
    };
    let wrong = s.on_message(Msg::FileChunk { id, offset, data }, now);
    let cancelled = s.on_message(Msg::FileCancel { id, reason }, now);
    let head: int = if t.tree is None {
        1
    } else {
        0
    };
    assert(wrong.acts =~= cancelled.acts.take(head) + seq![
        Act::Send(Msg::FileCancel { id, reason }),
    ] + cancelled.acts.skip(head));
}

/// A chunk that cannot be written settles its file as a cancellation with its
/// reason does; wherever the file belongs.
pub proof fn unwritten_chunks_are_cancellations(s: Incoming, error: Seq<char>, now: u64)
    requires
        s.waiting is Chunk,
        has_key(s.recv, s.waiting->Chunk_id),
    ensures
        ({
            let id = s.waiting->Chunk_id;
            let reason = "write failed: "@ + error;
            let failed = s.on_chunk_written(Some(error), now);
            let cancelled = Incoming { waiting: Wait::Nothing, ..s }.on_message(
                Msg::FileCancel { id, reason },
                now,
            );
            let head: int = if at(s.recv, id).tree is None {
                1
            } else {
                0
            };
            &&& failed.state == cancelled.state
            &&& failed.acts.skip(head) == seq![Act::Send(Msg::FileCancel { id, reason })]
                + cancelled.acts.skip(head)
        }),
{
    let id = s.waiting->Chunk_id;
    let reason = "write failed: "@ + error;
    let failed = s.on_chunk_written(Some(error), now);
    let cancelled = Incoming { waiting: Wait::Nothing, ..s }.on_message(
        Msg::FileCancel { id, reason },
        now,
    );
    let head: int = if at(s.recv, id).tree is None {
        1
    } else {
        0
    };
    assert(failed.acts.skip(head) =~= seq![Act::Send(Msg::FileCancel { id, reason })]
        + cancelled.acts.skip(head));
}

/// A file that does not verify settles as a cancellation with that reason
/// does; wherever it belongs.
pub proof fn broken_files_settle_alike(s: Incoming, id: u64, hash: Seq<u8>, now: u64)
    requires
        has_key(s.recv, id),
        sha256(at(s.recv, id).content) != hash,
    ensures
        ({
            let t = at(s.recv, id);
            let reason = "integrity check failed (sha256 mismatch)"@;
            let broken = s.on_message(Msg::FileDone { id, sha256: hash }, now);
            let cancelled = s.on_message(Msg::FileCancel { id, reason }, now);
            let head: int = if t.tree is None {
                2
            } else {
                1
            };
            &&& broken.state == cancelled.state
            &&& broken.acts[0] == (Act::Discard { id, part: t.part })
            &&& broken.acts.skip(head) == cancelled.acts.skip(head)
        }),
{
    let t = at(s.recv, id);
    let broken = s.on_message(Msg::FileDone { id, sha256: hash }, now);
    let cancelled = s.on_message(
        Msg::FileCancel { id, reason: "integrity check failed (sha256 mismatch)"@ },
        now,
    );
    let head: int = if t.tree is None {
        2
    } else {
        1
    };
    assert(broken.acts.skip(head) =~= cancelled.acts.skip(head));
}

/// A file of the drag under way that cannot be renamed is waited for no longer
/// and is not staged; while more is to come nothing else happens.
pub proof fn unrenamed_drag_files_settle(s: Incoming, place: Seq<char>, cause: Seq<char>)
    requires
        s.waiting is Rename,
        s.waiting->Rename_tree is None,
        s.waiting->Rename_drag is Some,
        s.drag is Some,
        s.drag->0.drag == s.waiting->Rename_drag->0,
        !s.drag->0.drop_requested || s.drag->0.offered < s.drag->0.expected || without_id(
            s.drag->0.outstanding,
            s.waiting->Rename_id,
        ).len() > 0,
    ensures
        ({
            let w = s.waiting;
            let d = s.drag->0;
            let r = s.on_committed(Err((place, cause)));
            &&& r.state == (Incoming {
                waiting: Wait::Nothing,
                drag: Some(
                    Dragging { outstanding: without_id(d.outstanding, w->Rename_id), ..d },
                ),
                ..s
            })
            &&& r.acts == seq![
                file_told(
                    w->Rename_id,
                    w->Rename_name,
                    w->Rename_size,
                    w->Rename_size,
                    TransferState::Failed,
                    Some("cannot rename to "@ + place + ": "@ + cause),
                ),
            ]
        }),
{
    let w = s.waiting;
    assert(s.on_committed(Err((place, cause))).acts =~= seq![
        file_told(
            w->Rename_id,
            w->Rename_name,
            w->Rename_size,
            w->Rename_size,
            TransferState::Failed,
            Some("cannot rename to "@ + place + ": "@ + cause),
        ),
    ]);
}

/// A file of a drag that is gone is done, or failed, and changes nothing else.
pub proof fn files_of_gone_drags_change_nothing(s: Incoming, path: Seq<char>)
    requires
        s.waiting is Rename,
        s.waiting->Rename_tree is None,
        s.waiting->Rename_drag is Some,
        s.drag is None || s.drag->0.drag != s.waiting->Rename_drag->0,
    ensures
        s.on_committed(Ok(path)) == (Step {
            state: Incoming { waiting: Wait::Nothing, ..s },
            acts: seq![
                file_told(
                    s.waiting->Rename_id,
                    s.waiting->Rename_name,
                    s.waiting->Rename_size,
                    s.waiting->Rename_size,
                    TransferState::Done,
                    Some(path),
                ),
            ],
        }),
{
    assert(s.on_committed(Ok(path)).acts =~= seq![
        file_told(
            s.waiting->Rename_id,
            s.waiting->Rename_name,
            s.waiting->Rename_size,
            s.waiting->Rename_size,
            TransferState::Done,
            Some(path),
        ),
    ]);
}

/// The last file of a folder that its sender has closed brings the folder to
/// its place.
pub proof fn last_files_bring_the_folder(s: Incoming, path: Seq<char>)
    requires
        crate::table::keys_differ(s.trees),
        s.waiting is Rename,
        s.waiting->Rename_tree is Some,
        has_key(s.trees, s.waiting->Rename_tree->0),
        at(s.trees, s.waiting->Rename_tree->0).ended,
        at(s.trees, s.waiting->Rename_tree->0).failed is None,
        at(s.trees, s.waiting->Rename_tree->0).drag is None,
        without_id(
            at(s.trees, s.waiting->Rename_tree->0).outstanding,
            s.waiting->Rename_id,
        ).len() == 0,
        at(s.trees, s.waiting->Rename_tree->0).done_bytes + s.waiting->Rename_size <= u64::MAX,
    ensures
        ({
            let w = s.waiting;
            let tree = w->Rename_tree->0;
            let f = at(s.trees, tree);
            let whole = Folder {
                outstanding: Seq::empty(),
                done_bytes: (f.done_bytes + w->Rename_size) as u64,
                ..f
            };
            let r = s.on_committed(Ok(path));
            &&& r.acts == seq![
                Act::EnsureDir(s.file_dir),
                Act::Do(Job::PlaceFolder { from: f.root, dir: s.file_dir, name: f.name }),
            ]
            &&& r.state == (Incoming {
                waiting: Wait::Placing { folder: whole },
                trees: erased(stored(s.trees, tree, whole), tree),
                ..s
            })
        }),
{
    let w = s.waiting;
    let tree = w->Rename_tree->0;
    let f = at(s.trees, tree);
    let whole = Folder {
        outstanding: Seq::empty(),
        done_bytes: (f.done_bytes + w->Rename_size) as u64,
        ..f
    };
    assert(without_id(f.outstanding, w->Rename_id) =~= Seq::<u64>::empty());
    stored_reads_back(s.trees, tree, whole, tree);
    assert(s.on_committed(Ok(path)).acts =~= seq![
        Act::EnsureDir(s.file_dir),
        Act::Do(Job::PlaceFolder { from: f.root, dir: s.file_dir, name: f.name }),
    ]);
}

/// The last file of a folder that its sender has closed, failing, takes the
/// folder with it.
pub proof fn last_failures_take_the_folder(s: Incoming, id: u64, reason: Seq<char>, now: u64)
    requires
        crate::table::keys_differ(s.trees),
        has_key(s.recv, id),
        at(s.recv, id).tree is Some,
        has_key(s.trees, at(s.recv, id).tree->0),
        at(s.trees, at(s.recv, id).tree->0).ended,
        at(s.trees, at(s.recv, id).tree->0).failed is None,
        at(s.trees, at(s.recv, id).tree->0).drag is None,
        at(s.trees, at(s.recv, id).tree->0).staging is Some,
        at(s.trees, at(s.recv, id).tree->0).root != Place::nowhere(),
        without_id(at(s.trees, at(s.recv, id).tree->0).outstanding, id).len() == 0,
    ensures
        ({
            let t = at(s.recv, id);
            let f = at(s.trees, t.tree->0);
            s.on_message(Msg::FileCancel { id, reason }, now).acts == seq![
                Act::Discard { id, part: t.part },
                Act::RemoveTree(f.root),
                Act::RemoveTree(f.staging->0),
                folder_told(
                    f.tree,
                    f.name,
                    f.files,
                    f.done_bytes,
                    f.total,
                    TransferState::Failed,
                    Some(t.name + ": "@ + reason),
                ),
            ]
        }),
        !has_key(
            s.on_message(Msg::FileCancel { id, reason }, now).state.trees,
            at(s.recv, id).tree->0,
        ),
{
    let t = at(s.recv, id);
    let tree = t.tree->0;
    let f = at(s.trees, tree);
    let g = Folder {
        outstanding: without_id(f.outstanding, id),
        failed: Some(t.name + ": "@ + reason),
        ..f
    };
    stored_reads_back(s.trees, tree, g, tree);
    erased_is_gone(stored(s.trees, tree, g), tree, tree);
    assert(s.on_message(Msg::FileCancel { id, reason }, now).acts =~= seq![
        Act::Discard { id, part: t.part },
        Act::RemoveTree(f.root),
        Act::RemoveTree(f.staging->0),
        folder_told(
            f.tree,
            f.name,
            f.files,
            f.done_bytes,
            f.total,
            TransferState::Failed,
            Some(t.name + ": "@ + reason),
        ),
    ]);
}

/// A folder of the drag under way that failed is waited for no longer, and is
/// not staged; while more is to come nothing else happens.
pub proof fn failed_drag_folders_settle(s: Incoming, tree: u64, now: u64)
    requires
        crate::table::keys_differ(s.trees),
        has_key(s.trees, tree),
        at(s.trees, tree).outstanding.len() == 0,
        at(s.trees, tree).failed is Some,
        at(s.trees, tree).drag is Some,
        at(s.trees, tree).staging is None,
        at(s.trees, tree).root != Place::nowhere(),
        s.drag is Some,
        s.drag->0.drag == at(s.trees, tree).drag->0,
        !s.drag->0.drop_requested || s.drag->0.offered < s.drag->0.expected || without_id(
            s.drag->0.outstanding,
            tree,
        ).len() > 0,
    ensures
        ({
            let t = Folder { ended: true, ..at(s.trees, tree) };
            let d = s.drag->0;
            s.on_message(Msg::TreeEnd { tree, error: None }, now) == (Step {
                state: Incoming {
                    trees: erased(stored(s.trees, tree, t), tree),
                    drag: Some(Dragging { outstanding: without_id(d.outstanding, tree), ..d }),
                    ..s
                },
                acts: seq![
                    Act::RemoveTree(t.root),
                    folder_told(
                        t.tree,
                        t.name,
                        t.files,
                        t.done_bytes,
                        t.total,
                        TransferState::Failed,
                        t.failed,
                    ),
                ],
            })
        }),
{
    let t = Folder { ended: true, ..at(s.trees, tree) };
    stored_reads_back(s.trees, tree, t, tree);
    assert(s.on_message(Msg::TreeEnd { tree, error: None }, now).acts =~= seq![
        Act::RemoveTree(t.root),
        folder_told(
            t.tree,
            t.name,
            t.files,
            t.done_bytes,
            t.total,
            TransferState::Failed,
            t.failed,
        ),
    ]);
}

/// A whole folder whose drag is gone goes too.
pub proof fn folders_of_gone_drags_go(s: Incoming, tree: u64, now: u64)
    requires
        crate::table::keys_differ(s.trees),
        has_key(s.trees, tree),
        at(s.trees, tree).outstanding.len() == 0,
        at(s.trees, tree).failed is None,
        at(s.trees, tree).drag is Some,
        s.drag is None || s.drag->0.drag != at(s.trees, tree).drag->0,
    ensures
        ({
            let t = Folder { ended: true, ..at(s.trees, tree) };
            s.on_message(Msg::TreeEnd { tree, error: None }, now) == (Step {
                state: Incoming { trees: erased(stored(s.trees, tree, t), tree), ..s },
                acts: seq![
                    folder_told(
                        t.tree,
                        t.name,
                        t.files,
                        t.total,
                        t.total,
                        TransferState::Done,
                        Some(t.shown),
                    ),
                    Act::RemoveTree(t.root),
                ],
            })
        }),
{
    let t = Folder { ended: true, ..at(s.trees, tree) };
    stored_reads_back(s.trees, tree, t, tree);
    assert(s.on_message(Msg::TreeEnd { tree, error: None }, now).acts =~= seq![
        folder_told(
            t.tree,
            t.name,
            t.files,
            t.total,
            t.total,
            TransferState::Done,
            Some(t.shown),
        ),
        Act::RemoveTree(t.root),
    ]);
}

/// A drop that waited for what settles last is carried out then, as if it had
/// been asked for then; here where that is a file that failed.
pub proof fn failures_release_the_drop(s: Incoming, id: u64, reason: Seq<char>, now: u64)
    requires
        has_key(s.recv, id),
        at(s.recv, id).tree is None,
        at(s.recv, id).drag is Some,
        s.drag is Some,
        s.drag->0.drag == at(s.recv, id).drag->0,
        s.drag->0.drop_requested,
        s.drag->0.offered >= s.drag->0.expected,
        without_id(s.drag->0.outstanding, id).len() == 0,
    ensures
        ({
            let t = at(s.recv, id);
            let d = s.drag->0;
            let r = s.on_message(Msg::FileCancel { id, reason }, now);
            let dropped = Incoming {
                recv: erased(s.recv, id),
                drag: Some(
                    Dragging {
                        outstanding: without_id(d.outstanding, id),
                        drop_requested: false,
                        ..d
                    },
                ),
                ..s
            }.on_message(Msg::DragDrop { drag: d.drag }, now);
            &&& r.state == dropped.state
            &&& r.acts == seq![
                file_told(id, t.name, t.received, t.size, TransferState::Failed, Some(reason)),
                Act::Discard { id, part: t.part },
            ] + dropped.acts
        }),
{
    let t = at(s.recv, id);
    let d = s.drag->0;
    let r = s.on_message(Msg::FileCancel { id, reason }, now);
    let dropped = Incoming {
        recv: erased(s.recv, id),
        drag: Some(
            Dragging {
                outstanding: without_id(d.outstanding, id),
                drop_requested: false,
                ..d
            },
        ),
        ..s
    }.on_message(Msg::DragDrop { drag: d.drag }, now);
    assert(r.acts =~= seq![
        file_told(id, t.name, t.received, t.size, TransferState::Failed, Some(reason)),
        Act::Discard { id, part: t.part },
    ] + dropped.acts);
}

/// What came of file work is what the host says of it.
pub proof fn outcomes_say_what_they_hold(
    f: IoFailure,
    a: Location,
    b: Location,
    text: String,
    cause: String,
)
    ensures
        failure_text(Ok(())) is None,
        failure_text(Err(f)) == Some((f.at@, f.cause@)),
        opened_places(Ok((a, b))) == Ok::<(Place, Place), (Seq<char>, Seq<char>)>((a@, b@)),
        opened_places(Err(f)) == Err::<(Place, Place), (Seq<char>, Seq<char>)>((f.at@, f.cause@)),
        root_places(RootMade::NoParent(f)) == Err::<
            (Place, Seq<char>, Option<Seq<char>>),
            (Seq<char>, Seq<char>),
        >((f.at@, f.cause@)),
        root_places(RootMade::Chosen { root: a, shown: text, failure: Some(cause) }) == Ok::<
            (Place, Seq<char>, Option<Seq<char>>),
            (Seq<char>, Seq<char>),
        >((a@, text@, Some(cause@))),
        root_places(RootMade::Chosen { root: a, shown: text, failure: None }) == Ok::<
            (Place, Seq<char>, Option<Seq<char>>),
            (Seq<char>, Seq<char>),
        >((a@, text@, None)),
        error_text(Ok(())) is None,
        error_text(Err(text)) == Some(text@),
        placed_text(Ok(text)) == Ok::<Seq<char>, (Seq<char>, Seq<char>)>(text@),
        placed_text(Err(f)) == Err::<Seq<char>, (Seq<char>, Seq<char>)>((f.at@, f.cause@)),
{
}

/// A file of a folder whose number is taken is rejected, and its folder fails
/// by its path.
pub proof fn used_ids_fail_their_folder(
    s: Incoming,
    tree: u64,
    id: u64,
    rel: Seq<char>,
    size: u64,
    now: u64,
)
    requires
        crate::table::keys_differ(s.trees),
        has_key(s.trees, tree),
        at(s.trees, tree).failed is None,
        at(s.trees, tree).entries < 1_000_000,
        safe_rel(rel) is Some,
        has_key(s.recv, id),
    ensures
        ({
            let t = at(s.trees, tree);
            let more = Folder { entries: (t.entries + 1) as u64, ..t };
            let r = s.on_message(Msg::TreeFile { tree, id, rel, size }, now);
            &&& r.acts == seq![
                Act::Send(Msg::FileReject { id, reason: "transfer id already in use"@ }),
            ]
            &&& has_key(r.state.trees, tree)
            &&& at(r.state.trees, tree) == (Folder {
                failed: Some("could not receive "@ + rel),
                ..more
            })
            &&& r.state == (Incoming { trees: r.state.trees, ..s })
        }),
{
    let t = at(s.trees, tree);
    let more = Folder { entries: (t.entries + 1) as u64, ..t };
    let first = stored(s.trees, tree, more);
    let r = s.on_message(Msg::TreeFile { tree, id, rel, size }, now);
    stored_reads_back(s.trees, tree, more, tree);
    stored_reads_back(
        first,
        tree,
        Folder { failed: Some("could not receive "@ + rel), ..more },
        tree,
    );
    assert(r.acts =~= seq![
        Act::Send(Msg::FileReject { id, reason: "transfer id already in use"@ }),
    ]);
}

/// A folder of the drag under way without a name that is left counts as
/// offered, is waited for until its sender closes it, and has failed.
pub proof fn nameless_drag_folders_count(
    s: Incoming,
    tree: u64,
    name: Seq<char>,
    files: u32,
    bytes: u64,
    drag: u64,
    now: u64,
)
    requires
        !has_key(s.trees, tree),
        safe_name(name) is None,
        s.drag is Some,
        s.drag->0.drag == drag,
        s.drag->0.offered < u32::MAX,
    ensures
        ({
            let r = s.on_message(
                Msg::TreeOffer { tree, name, files, bytes, drag: Some(drag) },
                now,
            );
            &&& r.acts == seq![
                folder_told(
                    tree,
                    name,
                    files,
                    0,
                    bytes,
                    TransferState::Failed,
                    Some("invalid folder name"@),
                ),
            ]
            &&& exists|t: Folder| #[trigger]
                refused_for(
                    t,
                    tree,
                    name,
                    files,
                    bytes,
                    Some(drag),
                    "invalid folder name"@,
                    now,
                ) && r.state == (Incoming {
                    trees: stored(s.trees, tree, t),
                    drag: Some(
                        Dragging {
                            offered: (s.drag->0.offered + 1) as u32,
                            outstanding: with_id(s.drag->0.outstanding, tree),
                            ..s.drag->0
                        },
                    ),
                    ..s
                })
        }),
{
    assert(refused_for(
        crate::receive::refused(
            tree,
            name,
            files,
            bytes,
            Some(drag),
            "invalid folder name"@,
            now,
        ),
        tree,
        name,
        files,
        bytes,
        Some(drag),
        "invalid folder name"@,
        now,
    ));
}

/// A drop that waited for its last offer is carried out when that is rejected,
/// as if it had been asked for then.
pub proof fn rejections_release_the_drop(
    s: Incoming,
    drag: u64,
    id: u64,
    name: Seq<char>,
    size: u64,
    now: u64,
)
    requires
        s.drag is Some,
        s.drag->0.drag == drag,
        s.drag->0.offered < u32::MAX,
        has_key(s.recv, id),
        s.drag->0.drop_requested,
        s.drag->0.offered + 1 >= s.drag->0.expected,
        s.drag->0.outstanding.len() == 0,
    ensures
        ({
            let d = s.drag->0;
            let r = s.on_message(Msg::DragOffer { drag, id, name, size }, now);
            let dropped = Incoming {
                drag: Some(
                    Dragging { offered: (d.offered + 1) as u32, drop_requested: false, ..d },
                ),
                ..s
            }.on_message(Msg::DragDrop { drag }, now);
            &&& r.state == dropped.state
            &&& r.acts == seq![
                Act::Send(Msg::FileReject { id, reason: "transfer id already in use"@ }),
            ] + dropped.acts
        }),
{
    let d = s.drag->0;
    let r = s.on_message(Msg::DragOffer { drag, id, name, size }, now);
    let dropped = Incoming {
        drag: Some(Dragging { offered: (d.offered + 1) as u32, drop_requested: false, ..d }),
        ..s
    }.on_message(Msg::DragDrop { drag }, now);
    assert(r.acts =~= seq![
        Act::Send(Msg::FileReject { id, reason: "transfer id already in use"@ }),
    ] + dropped.acts);
}

/// A drop that waited for a folder is carried out when that is whole, as if it
/// had been asked for then, with the folder staged.
pub proof fn folders_release_the_drop(s: Incoming, tree: u64, now: u64)
    requires
        crate::table::keys_differ(s.trees),
        has_key(s.trees, tree),
        at(s.trees, tree).outstanding.len() == 0,
        at(s.trees, tree).failed is None,
        at(s.trees, tree).drag is Some,
        s.drag is Some,
        s.drag->0.drag == at(s.trees, tree).drag->0,
        s.drag->0.drop_requested,
        s.drag->0.offered >= s.drag->0.expected,
        without_id(s.drag->0.outstanding, tree).len() == 0,
    ensures
        ({
            let t = Folder { ended: true, ..at(s.trees, tree) };
            let d = s.drag->0;
            let r = s.on_message(Msg::TreeEnd { tree, error: None }, now);
            let dropped = Incoming {
                trees: erased(stored(s.trees, tree, t), tree),
                drag: Some(
                    Dragging {
                        outstanding: without_id(d.outstanding, tree),
                        done: d.done.push(
                            Staged {
                                id: tree,
                                name: t.name,
                                kind: TransferKind::Folder,
                                files: t.files,
                                size: t.total,
                                path: t.root,
                            },
                        ),
                        drop_requested: false,
                        ..d
                    },
                ),
                ..s
            }.on_message(Msg::DragDrop { drag: d.drag }, now);
            &&& r.state == dropped.state
            &&& r.acts == seq![
                folder_told(
                    t.tree,
                    t.name,
                    t.files,
                    t.total,
                    t.total,
                    TransferState::Done,
                    Some(t.shown),
                ),
            ] + dropped.acts
        }),
{
    let t = Folder { ended: true, ..at(s.trees, tree) };
    let d = s.drag->0;
    stored_reads_back(s.trees, tree, t, tree);
    let r = s.on_message(Msg::TreeEnd { tree, error: None }, now);
    let dropped = Incoming {
        trees: erased(stored(s.trees, tree, t), tree),
        drag: Some(
            Dragging {
                outstanding: without_id(d.outstanding, tree),
                done: d.done.push(
                    Staged {
                        id: tree,
                        name: t.name,
                        kind: TransferKind::Folder,
                        files: t.files,
                        size: t.total,
                        path: t.root,
                    },
                ),
                drop_requested: false,
                ..d
            },
        ),
        ..s
    }.on_message(Msg::DragDrop { drag: d.drag }, now);
    assert(r.acts =~= seq![
        folder_told(
            t.tree,
            t.name,
            t.files,
            t.total,
            t.total,
            TransferState::Done,
            Some(t.shown),
        ),
    ] + dropped.acts);
}

/// Messages that are not about files, drags or folders change nothing.
pub proof fn other_messages_change_nothing(s: Incoming, msg: Msg, now: u64)
    requires
        msg is Hello || msg is ClipText || msg is ClipImage || msg is FileAccept || msg is FileReject
            || msg is PairStart || msg is PairResponse || msg is PairConfirmA || msg is PairConfirmB
            || msg is Ping || msg is Pong,
    ensures
        s.on_message(msg, now) == (Step { state: s, acts: Seq::empty() }),
{
}

/* ---------------------------------- views ---------------------------------- */

/// What the inbox asks for is what its effects hold.
pub proof fn effects_say_what_they_hold(
    id: u64,
    a: Location,
    b: Location,
    name: String,
    data: Vec<u8>,
    flag: bool,
    kind: TransferKind,
    msg: SyncMessage,
    event: SyncEvent,
    task: Task,
)
    ensures
        Task::MakeDir(a)@ == Job::MakeDir(a@),
        (Task::OpenPart { id, dir: a, name })@ == (Job::OpenPart { id, dir: a@, name: name@ }),
        (Task::MakeRoot { parent: a, name })@ == (Job::MakeRoot { parent: a@, name: name@ }),
        (Task::Write { id, data })@ == (Job::Write { id, data: data@ }),
        (Task::Commit { id, from: a, to: b, durable: flag })@ == (Job::Commit {
            id,
            from: a@,
            to: b@,
            durable: flag,
        }),
        (Task::PlaceFolder { from: a, dir: b, name })@ == (Job::PlaceFolder {
            from: a@,
            dir: b@,
            name: name@,
        }),
        (Task::PlaceItem { from: a, dir: b, name, kind })@ == (Job::PlaceItem {
            from: a@,
            dir: b@,
            name: name@,
            kind,
        }),
        Effect::Send(msg)@ == Act::Send(msg@),
        Effect::Report(event)@ == Act::Report(event@),
        (Effect::Discard { id, part: a })@ == (Act::Discard { id, part: a@ }),
        Effect::RemoveTree(a)@ == Act::RemoveTree(a@),
        Effect::EnsureDir(a)@ == Act::EnsureDir(a@),
        Effect::Do(task)@ == Act::Do(task@),
{
}

/// What is known of a transfer is what is held of it.
pub proof fn transfers_say_what_they_hold(
    t: RecvTransfer,
    i: StagedItem,
    d: IncomingDrag,
    f: IncomingTree,
    a: Location,
    k: int,
)
    requires
        0 <= k < d.done@.len(),
    ensures
        t@ == (Receiving {
            name: t.name@,
            size: t.size,
            received: t.received,
            content: absorbed(t.hasher),
            part: t.part_path@,
            target: t.final_path@,
            last_progress: t.last_progress,
            drag: t.drag,
            tree: t.tree,
        }),
        i@ == (Staged {
            id: i.id,
            name: i.name@,
            kind: i.kind,
            files: i.files,
            size: i.size,
            path: i.path@,
        }),
        d@ == (Dragging {
            drag: d.drag,
            dir: d.dir@,
            expected: d.expected,
            offered: d.offered,
            outstanding: d.outstanding@,
            done: d@.done,
            drop_requested: d.drop_requested,
        }),
        d@.done.len() == d.done@.len(),
        d@.done[k] == d.done@[k]@,
        f@.tree == f.tree && f@.name == f.name@ && f@.root == f.root@ && f@.shown == f.shown@,
        f@.staging is Some <==> f.staging is Some,
        f.staging is Some ==> f@.staging->0 == f.staging->0@,
        f@.drag == f.drag && f@.files == f.files && f@.total == f.total,
        f@.done_bytes == f.done_bytes && f@.outstanding == f.outstanding@,
        f@.entries == f.entries && f@.ended == f.ended && f@.last_progress == f.last_progress,
        f@.failed is Some <==> f.failed is Some,
        f.failed is Some ==> f@.failed->0 == f.failed->0@,
        opt_place(Some(a)) == Some(a@),
        opt_place(None) is None,
        drag_view(Some(d)) == Some(d@),
        drag_view(None) is None,
{
}

/// What the inbox knows and waits for is what it holds.
pub proof fn inboxes_say_what_they_hold(
    b: Inbox,
    id: u64,
    n: u32,
    size: u64,
    x: Option<u64>,
    y: Option<u64>,
    p: String,
    q: String,
    r: String,
    a: Location,
    f: IncomingTree,
    d: IncomingDrag,
    k: usize,
    v: Vec<String>,
)
    ensures
        b@.file_dir == b.file_dir@,
        b@.drop_dir is Some <==> b.drop_dir is Some,
        b.drop_dir is Some ==> b@.drop_dir->0 == b.drop_dir->0@,
        b@.recv == b.recv@ && b@.trees == b.trees@ && b@.waiting == b.waiting@,
        b@.drag is Some <==> b.drag is Some,
        b.drag is Some ==> b@.drag->0 == b.drag->0@,
        Waiting::Nothing@ == Wait::Nothing,
        (Waiting::DragDir { drag: id, count: n, dir: a })@ == (Wait::DragDir {
            drag: id,
            count: n,
            dir: a@,
        }),
        (Waiting::Part { id, offered: p, name: q, size, drag: x, tree: y, rel: r })@ == (
        Wait::Part { id, offered: p@, name: q@, size, drag: x, tree: y, rel: r@ }),
        (Waiting::TreeDir { tree: id })@ == (Wait::TreeDir { tree: id }),
        (Waiting::Root { tree: id, name: p, staging: Some(a), drag: x, files: n, bytes: size })@
            == (Wait::Root {
            tree: id,
            name: p@,
            staging: Some(a@),
            drag: x,
            files: n,
            bytes: size,
        }),
        (Waiting::Chunk { id, len: size })@ == (Wait::Chunk { id, len: size }),
        (Waiting::Rename { id, name: p, size, target: a, drag: x, tree: y })@ == (Wait::Rename {
            id,
            name: p@,
            size,
            target: a@,
            drag: x,
            tree: y,
        }),
        (Waiting::Placing { folder: f })@ == (Wait::Placing { folder: f@ }),
        (Waiting::Dropping { drag: d, dest: a, next: k, placed: v })@ == (Wait::Dropping {
            drag: d@,
            dest: a@,
            next: k as nat,
            placed: texts(v@),
        }),
{
}

} // verus!
