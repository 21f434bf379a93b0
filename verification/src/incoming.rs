//! The rules of receiving: what a message or the outcome of file work does
//! to the transfers under way.

use crate::digest::sha256;
use crate::effects::{Act, Job};
use crate::event::{capped, progress_due, Event};
use crate::ipc::{file_row, folder_row, Direction, TransferKind, TransferState};
use crate::names::{safe_name, safe_rel, Place};
use crate::proto::{Msg, CHUNK_SIZE};
use crate::receive::{refused, Dragging, Folder, Receiving, Staged, MAX_TREE_ENTRIES};
use crate::table::{
    at, erased, erased_is_gone, filtered_is_part, has_key, keys_differ, other_than, position,
    position_finds, stored, stored_reads_back, with_id, without_id,
};
use crate::text::numeral;
use vstd::prelude::*;

verus! {

/* --------------------------------- state --------------------------------- */

/// What the inbox is known to wait for.
#[verifier::ext_equal]
pub enum Wait {
    Nothing,
    DragDir { drag: u64, count: u32, dir: Place },
    Part {
        id: u64,
        offered: Seq<char>,
        name: Seq<char>,
        size: u64,
        drag: Option<u64>,
        tree: Option<u64>,
        rel: Seq<char>,
    },
    TreeDir { tree: u64 },
    Root {
        tree: u64,
        name: Seq<char>,
        staging: Option<Place>,
        drag: Option<u64>,
        files: u32,
        bytes: u64,
    },
    Chunk { id: u64, len: u64 },
    Rename {
        id: u64,
        name: Seq<char>,
        size: u64,
        target: Place,
        drag: Option<u64>,
        tree: Option<u64>,
    },
    Placing { folder: Folder },
    Dropping { drag: Dragging, dest: Place, next: nat, placed: Seq<Seq<char>> },
}

/// The transfers that a peer has under way here.
#[verifier::ext_equal]
pub struct Incoming {
    pub file_dir: Place,
    pub drop_dir: Option<Place>,
    pub recv: Seq<(u64, Receiving)>,
    pub drag: Option<Dragging>,
    pub trees: Seq<(u64, Folder)>,
    pub waiting: Wait,
}

/// What a call leads to: the state it leaves, and its effects.
#[verifier::ext_equal]
pub struct Step {
    pub state: Incoming,
    pub acts: Seq<Act>,
}

/// `first`, and then what `rest` leads to.
pub open spec fn and_then(first: Seq<Act>, rest: Step) -> Step {
    Step { state: rest.state, acts: first + rest.acts }
}

/* --------------------------------- rules --------------------------------- */

/// The report of a file row.
pub open spec fn file_report(
    id: u64,
    name: Seq<char>,
    transferred: u64,
    total: u64,
    state: TransferState,
    detail: Option<Seq<char>>,
) -> Act {
    Act::Report(
        Event::Transfer(file_row(id, name, Direction::Received, transferred, total, state, detail)),
    )
}

/// `acts` for a file that has a row of its own; nothing for a file inside a
/// folder, which the folder's row stands for.
pub open spec fn own_row(tree: Option<u64>, act: Act) -> Seq<Act> {
    if tree is None {
        seq![act]
    } else {
        Seq::empty()
    }
}

/// How a failed attempt to create something is worded.
pub open spec fn cannot_create(at: Seq<char>, cause: Seq<char>) -> Seq<char> {
    "cannot create "@ + at + ": "@ + cause
}

/// The receiving side without the transfers `ids`.
pub open spec fn dropped(recv: Seq<(u64, Receiving)>, ids: Seq<u64>) -> Seq<(u64, Receiving)>
    decreases ids.len(),
{
    if ids.len() == 0 {
        recv
    } else {
        erased(dropped(recv, ids.drop_last()), ids.last())
    }
}

/// The part files deleted when the transfers `ids` are dropped.
pub open spec fn discards(recv: Seq<(u64, Receiving)>, ids: Seq<u64>) -> Seq<Act>
    decreases ids.len(),
{
    if ids.len() == 0 {
        Seq::empty()
    } else {
        let before = dropped(recv, ids.drop_last());
        let id = ids.last();
        if has_key(before, id) {
            discards(recv, ids.drop_last()).push(Act::Discard { id, part: at(before, id).part })
        } else {
            discards(recv, ids.drop_last())
        }
    }
}

/// The rows of staged items that go away with their drag.
pub open spec fn lost_items(done: Seq<Staged>) -> Seq<Act> {
    done.map_values(
        |i: Staged|
            Act::Report(Event::Transfer(i.row(TransferState::Failed, "drag cancelled"@))),
    )
}

/// Folders that do not belong to `drag`.
pub open spec fn outside(drag: u64) -> spec_fn((u64, Folder)) -> bool {
    |e: (u64, Folder)| e.1.drag != Some(drag)
}

/// The receiving side without the files of the folders that belong to
/// `drag`.
pub open spec fn forsaken(recv: Seq<(u64, Receiving)>, trees: Seq<(u64, Folder)>, drag: u64) -> Seq<
    (u64, Receiving),
>
    decreases trees.len(),
{
    if trees.len() == 0 {
        recv
    } else {
        let before = forsaken(recv, trees.drop_last(), drag);
        let t = trees.last().1;
        if t.drag == Some(drag) {
            dropped(before, t.outstanding)
        } else {
            before
        }
    }
}

/// What is done about the folders that belong to `drag` when it goes away.
pub open spec fn forsaking(
    recv: Seq<(u64, Receiving)>,
    trees: Seq<(u64, Folder)>,
    drag: u64,
) -> Seq<Act>
    decreases trees.len(),
{
    if trees.len() == 0 {
        Seq::empty()
    } else {
        let before = forsaking(recv, trees.drop_last(), drag);
        let t = trees.last().1;
        if t.drag == Some(drag) {
            (before + discards(forsaken(recv, trees.drop_last(), drag), t.outstanding)).push(
                Act::Report(
                    Event::Transfer(
                        t.row(t.done_bytes, TransferState::Failed, Some("drag cancelled"@)),
                    ),
                ),
            )
        } else {
            before
        }
    }
}

/// What has come of the files `ids`.
pub open spec fn inflight(recv: Seq<(u64, Receiving)>, ids: Seq<u64>) -> nat
    decreases ids.len(),
{
    if ids.len() == 0 {
        0
    } else {
        let rest = inflight(recv, ids.drop_last());
        if has_key(recv, ids.last()) {
            rest + at(recv, ids.last()).received as nat
        } else {
            rest
        }
    }
}

/// What is done about the files that are under way when the connection
/// closes.
pub open spec fn closing_files(recv: Seq<(u64, Receiving)>) -> Seq<Act>
    decreases recv.len(),
{
    if recv.len() == 0 {
        Seq::empty()
    } else {
        let (id, t) = recv.last();
        (closing_files(recv.drop_last()) + own_row(
            t.tree,
            file_report(
                id,
                t.name,
                t.received,
                t.size,
                TransferState::Failed,
                Some("connection closed"@),
            ),
        )).push(Act::Discard { id, part: t.part })
    }
}

/// The directories that a folder has on disk.
pub open spec fn folder_dirs(t: Folder) -> Seq<Act> {
    (if t.root == Place::nowhere() {
        Seq::empty()
    } else {
        seq![Act::RemoveTree(t.root)]
    }) + (match t.staging {
        Some(dir) => seq![Act::RemoveTree(dir)],
        None => Seq::empty(),
    })
}

/// What is done about the folders that are under way when the connection
/// closes.
pub open spec fn closing_folders(trees: Seq<(u64, Folder)>) -> Seq<Act>
    decreases trees.len(),
{
    if trees.len() == 0 {
        Seq::empty()
    } else {
        let t = trees.last().1;
        (closing_folders(trees.drop_last()) + folder_dirs(t)).push(
            Act::Report(
                Event::Transfer(
                    t.row(t.done_bytes, TransferState::Failed, Some("connection closed"@)),
                ),
            ),
        )
    }
}

impl Incoming {
    /// Nothing comes of it.
    pub open spec fn nothing(self) -> Step {
        Step { state: self, acts: Seq::empty() }
    }

    /// One effect, and no change.
    pub open spec fn just(self, act: Act) -> Step {
        Step { state: self, acts: seq![act] }
    }

    pub open spec fn with_recv(self, recv: Seq<(u64, Receiving)>) -> Incoming {
        Incoming { recv, ..self }
    }

    pub open spec fn with_drag(self, drag: Option<Dragging>) -> Incoming {
        Incoming { drag, ..self }
    }

    pub open spec fn with_trees(self, trees: Seq<(u64, Folder)>) -> Incoming {
        Incoming { trees, ..self }
    }

    /// The state in which the folder `tree` is `t`.
    pub open spec fn with_tree(self, tree: u64, t: Folder) -> Incoming {
        Incoming { trees: stored(self.trees, tree, t), ..self }
    }

    pub open spec fn awaiting(self, waiting: Wait) -> Incoming {
        Incoming { waiting, ..self }
    }

    /// Whether `drag` is the drag under way.
    pub open spec fn drags(self, drag: u64) -> bool {
        self.drag is Some && self.drag->0.drag == drag
    }

    /// Where dropped items land.
    pub open spec fn drop_place(self) -> Place {
        match self.drop_dir {
            Some(p) => p,
            None => self.file_dir,
        }
    }

    /* ---- drags ---- */

    /// The items of a drop from `next` on go into place; after the last, the
    /// staging directory goes and what was placed is reported.
    pub open spec fn place_next(
        self,
        d: Dragging,
        dest: Place,
        next: nat,
        placed: Seq<Seq<char>>,
    ) -> Step {
        if next < d.done.len() {
            let item = d.done[next as int];
            self.awaiting(Wait::Dropping { drag: d, dest, next, placed }).just(
                Act::Do(
                    Job::PlaceItem { from: item.path, dir: dest, name: item.name, kind: item.kind },
                ),
            )
        } else {
            Step {
                state: self.awaiting(Wait::Nothing),
                acts: seq![Act::RemoveTree(d.dir)] + (if placed.len() > 0 {
                    seq![Act::Report(Event::DragDropped { paths: placed })]
                } else {
                    Seq::empty()
                }),
            }
        }
    }

    /// If the drop was requested and every item has settled, the staged
    /// items go into place.
    pub open spec fn finalize_drag(self) -> Step {
        if self.drag is Some && self.drag->0.drop_requested && self.drag->0.settled() {
            let dest = self.drop_place();
            and_then(
                seq![Act::EnsureDir(dest)],
                self.with_drag(None).place_next(self.drag->0, dest, 0, Seq::empty()),
            )
        } else {
            self.nothing()
        }
    }

    /// A staged drag goes away, with everything in flight for it.
    pub open spec fn discard_drag(self, d: Dragging) -> Step {
        let direct = dropped(self.recv, d.outstanding);
        Step {
            state: Incoming {
                recv: forsaken(direct, self.trees, d.drag),
                trees: self.trees.filter(outside(d.drag)),
                ..self
            },
            acts: (lost_items(d.done) + discards(self.recv, d.outstanding) + forsaking(
                direct,
                self.trees,
                d.drag,
            )).push(Act::RemoveTree(d.dir)),
        }
    }

    pub open spec fn on_drag_begin(self, drag: u64, count: u32) -> Step {
        let old_gone = if self.drag is Some {
            self.with_drag(None).discard_drag(self.drag->0)
        } else {
            self.nothing()
        };
        let dir = self.file_dir.join(".vylo-drag-"@ + numeral(drag as nat));
        Step {
            state: old_gone.state.awaiting(Wait::DragDir { drag, count, dir }),
            acts: old_gone.acts.push(Act::Do(Job::MakeDir(dir))),
        }
    }

    pub open spec fn on_drag_offer(
        self,
        drag: u64,
        id: u64,
        name: Seq<char>,
        size: u64,
    ) -> Step {
        if self.drags(drag) {
            let d = self.drag->0.one_more();
            self.with_drag(Some(d)).accept_offer(d.dir, id, name, size, Some(drag), None, ""@)
        } else {
            self.just(Act::Send(Msg::FileReject { id, reason: "no drag in progress"@ }))
        }
    }

    pub open spec fn on_drag_drop(self, drag: u64) -> Step {
        if self.drags(drag) {
            self.with_drag(Some(Dragging { drop_requested: true, ..self.drag->0 })).finalize_drag()
        } else {
            self.nothing()
        }
    }

    pub open spec fn on_drag_cancel(self, drag: u64) -> Step {
        if self.drags(drag) {
            self.with_drag(None).discard_drag(self.drag->0)
        } else {
            self.nothing()
        }
    }

    /* ---- offers ---- */

    /// An offer was not accepted: a drag may now be complete, a folder
    /// cannot be.
    pub open spec fn settle_refusal(self, drag: Option<u64>, tree: Option<u64>, rel: Seq<char>) -> Step {
        match tree {
            Some(tree) => if has_key(self.trees, tree) {
                self.with_tree(
                    tree,
                    at(self.trees, tree).fail("could not receive "@ + rel),
                ).nothing()
            } else {
                self.nothing()
            },
            None => if drag is Some {
                self.finalize_drag()
            } else {
                self.nothing()
            },
        }
    }

    /// An offer that cannot be taken.
    pub open spec fn refuse_offer(
        self,
        id: u64,
        offered: Seq<char>,
        size: u64,
        drag: Option<u64>,
        tree: Option<u64>,
        rel: Seq<char>,
        reason: Seq<char>,
    ) -> Step {
        and_then(
            own_row(
                tree,
                file_report(id, offered, 0, size, TransferState::Failed, Some(reason)),
            ).push(Act::Send(Msg::FileReject { id, reason })),
            self.settle_refusal(drag, tree, rel),
        )
    }

    /// An offered file is taken into `dir`, or refused.
    pub open spec fn accept_offer(
        self,
        dir: Place,
        id: u64,
        offered: Seq<char>,
        size: u64,
        drag: Option<u64>,
        tree: Option<u64>,
        rel: Seq<char>,
    ) -> Step {
        if has_key(self.recv, id) {
            and_then(
                seq![Act::Send(Msg::FileReject { id, reason: "transfer id already in use"@ })],
                self.settle_refusal(drag, tree, rel),
            )
        } else {
            match safe_name(offered) {
                None => self.refuse_offer(id, offered, size, drag, tree, rel, "invalid file name"@),
                Some(name) => self.awaiting(
                    Wait::Part { id, offered, name, size, drag, tree, rel },
                ).just(Act::Do(Job::OpenPart { id, dir, name })),
            }
        }
    }

    /// The part file of an offer exists.
    pub open spec fn accepted(self, w: Wait, target: Place, part: Place, now: u64) -> Step
        recommends
            w is Part,
    {
        let id = w->Part_id;
        let t = Receiving {
            name: w->Part_name,
            size: w->Part_size,
            received: 0,
            content: Seq::empty(),
            part,
            target,
            last_progress: now,
            drag: w->Part_drag,
            tree: w->Part_tree,
        };
        let kept = self.with_recv(stored(self.recv, id, t)).awaiting(Wait::Nothing);
        Step {
            state: match t.tree {
                Some(tree) => if has_key(self.trees, tree) {
                    let f = at(self.trees, tree);
                    kept.with_tree(
                        tree,
                        Folder { outstanding: with_id(f.outstanding, id), ..f },
                    )
                } else {
                    kept
                },
                None => if t.drag is Some && self.drag is Some {
                    let d = self.drag->0;
                    kept.with_drag(
                        Some(Dragging { outstanding: with_id(d.outstanding, id), ..d }),
                    )
                } else {
                    kept
                },
            },
            acts: own_row(
                t.tree,
                file_report(id, t.name, 0, t.size, TransferState::Active, None),
            ).push(Act::Send(Msg::FileAccept { id })),
        }
    }

    /* ---- folders ---- */

    pub open spec fn on_tree_offer(
        self,
        tree: u64,
        name: Seq<char>,
        files: u32,
        bytes: u64,
        drag: Option<u64>,
        now: u64,
    ) -> Step {
        if has_key(self.trees, tree) {
            self.nothing()
        } else if drag is Some && !self.drags(drag->0) {
            self.with_tree(
                tree,
                refused(tree, name, files, bytes, drag, "no drag in progress"@, now),
            ).nothing()
        } else {
            let s = if drag is Some {
                let d = self.drag->0.one_more();
                self.with_drag(Some(Dragging { outstanding: with_id(d.outstanding, tree), ..d }))
            } else {
                self
            };
            let parent = if drag is Some {
                self.drag->0.dir
            } else {
                self.file_dir.join(".vylo-tree-"@ + numeral(tree as nat))
            };
            let staging = if drag is Some {
                None
            } else {
                Some(parent)
            };
            match safe_name(name) {
                None => s.with_tree(
                    tree,
                    refused(tree, name, files, bytes, drag, "invalid folder name"@, now),
                ).just(
                    Act::Report(
                        Event::Transfer(
                            folder_row(
                                tree,
                                name,
                                files,
                                Direction::Received,
                                0,
                                bytes,
                                TransferState::Failed,
                                Some("invalid folder name"@),
                            ),
                        ),
                    ),
                ),
                Some(safe) => s.awaiting(
                    Wait::Root { tree, name: safe, staging, drag, files, bytes },
                ).just(Act::Do(Job::MakeRoot { parent, name: safe })),
            }
        }
    }

    /// The parent of a new folder could not be created.
    pub open spec fn no_root(self, w: Wait, reason: Seq<char>, now: u64) -> Step
        recommends
            w is Root,
    {
        let t = refused(
            w->Root_tree,
            w->Root_name,
            w->Root_files,
            w->Root_bytes,
            w->Root_drag,
            reason,
            now,
        );
        self.awaiting(Wait::Nothing).with_tree(t.tree, t).just(
            Act::Report(Event::Transfer(t.row(0, TransferState::Failed, Some(reason)))),
        )
    }

    /// A new folder at `root`, failed if that could not be created.
    pub open spec fn rooted_folder(
        self,
        root: Place,
        shown: Seq<char>,
        failure: Option<Seq<char>>,
        now: u64,
    ) -> Folder
        recommends
            self.waiting is Root,
    {
        let w = self.waiting;
        Folder {
            tree: w->Root_tree,
            name: w->Root_name,
            root,
            shown,
            staging: w->Root_staging,
            drag: w->Root_drag,
            files: w->Root_files,
            total: w->Root_bytes,
            done_bytes: 0,
            outstanding: Seq::empty(),
            entries: 0,
            ended: false,
            failed: match failure {
                Some(cause) => Some(cannot_create(shown, cause)),
                None => None,
            },
            last_progress: now,
        }
    }

    pub open spec fn on_tree_dir(self, tree: u64, rel: Seq<char>) -> Step {
        if !has_key(self.trees, tree) || at(self.trees, tree).failed is Some {
            self.nothing()
        } else {
            let t = at(self.trees, tree);
            let t = Folder { entries: (t.entries + 1) as u64, ..t };
            if t.entries > MAX_TREE_ENTRIES {
                self.with_tree(tree, t.fail("folder has too many entries"@)).nothing()
            } else {
                match safe_rel(rel) {
                    None => self.with_tree(
                        tree,
                        t.fail("invalid path inside folder: "@ + rel),
                    ).nothing(),
                    Some(names) => self.with_tree(tree, t).awaiting(Wait::TreeDir { tree }).just(
                        Act::Do(Job::MakeDir(t.root.follow(names))),
                    ),
                }
            }
        }
    }

    pub open spec fn on_tree_file(self, tree: u64, id: u64, rel: Seq<char>, size: u64) -> Step {
        if !has_key(self.trees, tree) {
            self.just(Act::Send(Msg::FileReject { id, reason: "no such folder transfer"@ }))
        } else {
            let t = at(self.trees, tree);
            match t.failed {
                Some(reason) => self.just(
                    Act::Send(
                        Msg::FileReject { id, reason: "folder transfer failed: "@ + reason },
                    ),
                ),
                None => {
                    let t = Folder { entries: (t.entries + 1) as u64, ..t };
                    if t.entries > MAX_TREE_ENTRIES {
                        let reason = "folder has too many entries"@;
                        self.with_tree(tree, t.fail(reason)).just(
                            Act::Send(Msg::FileReject { id, reason }),
                        )
                    } else {
                        match safe_rel(rel) {
                            None => {
                                let reason = "invalid path inside folder: "@ + rel;
                                self.with_tree(tree, t.fail(reason)).just(
                                    Act::Send(Msg::FileReject { id, reason }),
                                )
                            },
                            Some(names) => self.with_tree(tree, t).accept_offer(
                                t.root.follow(names.drop_last()),
                                id,
                                names.last(),
                                size,
                                t.drag,
                                Some(tree),
                                rel,
                            ),
                        }
                    }
                },
            }
        }
    }

    pub open spec fn on_tree_end(self, tree: u64, error: Option<Seq<char>>) -> Step {
        if has_key(self.trees, tree) {
            let t = Folder { ended: true, ..at(self.trees, tree) };
            let t = match error {
                Some(reason) => t.fail("sender: "@ + reason),
                None => t,
            };
            self.with_tree(tree, t).finalize_tree(tree)
        } else {
            self.nothing()
        }
    }

    /// Once the sender closed the folder and every file settled: the
    /// finished folder goes into place (or to its drag), or away if anything
    /// failed.
    pub open spec fn finalize_tree(self, tree: u64) -> Step {
        if !has_key(self.trees, tree) || !at(self.trees, tree).settled() {
            self.nothing()
        } else {
            let t = at(self.trees, tree);
            let s = self.with_trees(erased(self.trees, tree));
            match t.failed {
                Some(reason) => {
                    let gone = folder_dirs(t).push(
                        Act::Report(
                            Event::Transfer(
                                t.row(t.done_bytes, TransferState::Failed, Some(reason)),
                            ),
                        ),
                    );
                    if t.drag is Some && s.drags(t.drag->0) {
                        let d = s.drag->0;
                        and_then(
                            gone,
                            s.with_drag(
                                Some(
                                    Dragging {
                                        outstanding: without_id(d.outstanding, tree),
                                        ..d
                                    },
                                ),
                            ).finalize_drag(),
                        )
                    } else {
                        and_then(gone, s.nothing())
                    }
                },
                None => match t.drag {
                    Some(drag) => s.staged_folder(tree, t),
                    None => s.awaiting(Wait::Placing { folder: t }).place_folder(t),
                },
            }
        }
    }

    /// A finished folder goes from its staging place into the receive
    /// folder.
    pub open spec fn place_folder(self, t: Folder) -> Step {
        Step {
            state: self,
            acts: seq![
                Act::EnsureDir(self.file_dir),
                Act::Do(Job::PlaceFolder { from: t.root, dir: self.file_dir, name: t.name }),
            ],
        }
    }

    /// A finished folder inside a drag stays staged until the drop. If the
    /// drag is gone, nothing will move it, so it goes too.
    pub open spec fn staged_folder(self, tree: u64, t: Folder) -> Step
        recommends
            t.drag is Some,
    {
        if self.drags(t.drag->0) {
            let d = self.drag->0;
            let item = Staged {
                id: tree,
                name: t.name,
                kind: TransferKind::Folder,
                files: t.files,
                size: t.total,
                path: t.root,
            };
            and_then(
                seq![
                    Act::Report(
                        Event::Transfer(t.row(t.total, TransferState::Done, Some(t.shown))),
                    ),
                ],
                self.with_drag(
                    Some(
                        Dragging {
                            outstanding: without_id(d.outstanding, tree),
                            done: d.done.push(item),
                            ..d
                        },
                    ),
                ).finalize_drag(),
            )
        } else {
            Step {
                state: self,
                acts: seq![
                    Act::Report(
                        Event::Transfer(t.row(t.total, TransferState::Done, Some(t.shown))),
                    ),
                    Act::RemoveTree(t.root),
                ],
            }
        }
    }

    /* ---- the stream of one file ---- */

    pub open spec fn on_chunk(self, id: u64, offset: u64, data: Seq<u8>) -> Step {
        if !has_key(self.recv, id) {
            self.nothing()
        } else {
            let t = at(self.recv, id);
            if data.len() > CHUNK_SIZE || t.received + data.len() > t.size {
                self.chunk_failed(id, t.received, "transfer exceeds offered size"@)
            } else if offset != t.received {
                self.chunk_failed(id, t.received, "chunks out of order"@)
            } else {
                let t = Receiving {
                    content: t.content + data,
                    received: (t.received + data.len()) as u64,
                    ..t
                };
                self.with_recv(stored(self.recv, id, t)).awaiting(
                    Wait::Chunk { id, len: data.len() as u64 },
                ).just(Act::Do(Job::Write { id, data }))
            }
        }
    }

    /// A file failed at `received` bytes: it goes, and the peer is told.
    pub open spec fn chunk_failed(self, id: u64, received: u64, reason: Seq<char>) -> Step {
        let t = at(self.recv, id);
        and_then(
            own_row(
                t.tree,
                file_report(id, t.name, received, t.size, TransferState::Failed, Some(reason)),
            ) + seq![
                Act::Send(Msg::FileCancel { id, reason }),
                Act::Discard { id, part: t.part },
            ],
            self.with_recv(erased(self.recv, id)).settle_failure(id, t, reason),
        )
    }

    /// A chunk is on disk: the file's own row, or its folder's, may be due.
    pub open spec fn progress(self, id: u64, now: u64) -> Step {
        let t = at(self.recv, id);
        match t.tree {
            None => if progress_due(t.last_progress, now) {
                self.with_recv(
                    stored(self.recv, id, Receiving { last_progress: now, ..t }),
                ).just(file_report(id, t.name, t.received, t.size, TransferState::Active, None))
            } else {
                self.nothing()
            },
            Some(tree) => if has_key(self.trees, tree) && progress_due(
                at(self.trees, tree).last_progress,
                now,
            ) {
                let f = Folder { last_progress: now, ..at(self.trees, tree) };
                let sum = capped(
                    f.done_bytes as int,
                    inflight(self.recv, f.outstanding) as int,
                );
                self.with_tree(tree, f).just(
                    Act::Report(Event::Transfer(f.row(sum, TransferState::Active, None))),
                )
            } else {
                self.nothing()
            },
        }
    }

    /// A file failed mid-transfer: it comes off whatever it belonged to.
    pub open spec fn settle_failure(self, id: u64, t: Receiving, reason: Seq<char>) -> Step {
        match t.tree {
            Some(tree) => if has_key(self.trees, tree) {
                let f = at(self.trees, tree);
                self.with_tree(
                    tree,
                    (Folder { outstanding: without_id(f.outstanding, id), ..f }).fail(
                        t.name + ": "@ + reason,
                    ),
                ).finalize_tree(tree)
            } else {
                self.nothing()
            },
            None => if t.drag is Some && self.drags(t.drag->0) {
                let d = self.drag->0;
                self.with_drag(
                    Some(Dragging { outstanding: without_id(d.outstanding, id), ..d }),
                ).finalize_drag()
            } else {
                self.nothing()
            },
        }
    }

    /// The sender says that the file is complete, with its hash.
    pub open spec fn on_done(self, id: u64, hash: Seq<u8>) -> Step {
        if !has_key(self.recv, id) {
            self.nothing()
        } else {
            let t = at(self.recv, id);
            let s = self.with_recv(erased(self.recv, id));
            if sha256(t.content) != hash {
                and_then(
                    seq![Act::Discard { id, part: t.part }],
                    s.not_finished(
                        id,
                        t.name,
                        t.size,
                        t.drag,
                        t.tree,
                        "integrity check failed (sha256 mismatch)"@,
                    ),
                )
            } else if t.received != t.size {
                and_then(
                    seq![Act::Discard { id, part: t.part }],
                    s.not_finished(
                        id,
                        t.name,
                        t.size,
                        t.drag,
                        t.tree,
                        incomplete(t.received, t.size),
                    ),
                )
            } else {
                s.awaiting(
                    Wait::Rename {
                        id,
                        name: t.name,
                        size: t.size,
                        target: t.target,
                        drag: t.drag,
                        tree: t.tree,
                    },
                ).just(
                    Act::Do(
                        Job::Commit { id, from: t.part, to: t.target, durable: t.tree is None },
                    ),
                )
            }
        }
    }

    /// A file that its sender called complete could not be kept.
    pub open spec fn not_finished(
        self,
        id: u64,
        name: Seq<char>,
        size: u64,
        drag: Option<u64>,
        tree: Option<u64>,
        reason: Seq<char>,
    ) -> Step {
        let row = own_row(
            tree,
            file_report(id, name, size, size, TransferState::Failed, Some(reason)),
        );
        match tree {
            Some(tree) => if has_key(self.trees, tree) {
                let f = at(self.trees, tree);
                and_then(
                    row,
                    self.with_tree(
                        tree,
                        (Folder { outstanding: without_id(f.outstanding, id), ..f }).fail(
                            name + ": "@ + reason,
                        ),
                    ).finalize_tree(tree),
                )
            } else {
                and_then(row, self.nothing())
            },
            None => if drag is Some && self.drags(drag->0) {
                let d = self.drag->0;
                and_then(
                    row,
                    self.with_drag(
                        Some(Dragging { outstanding: without_id(d.outstanding, id), ..d }),
                    ).finalize_drag(),
                )
            } else {
                and_then(row, self.nothing())
            },
        }
    }

    /// A verified file is under its final name, which the host shows as
    /// `path`.
    pub open spec fn finished(self, w: Wait, path: Seq<char>) -> Step
        recommends
            w is Rename,
    {
        let id = w->Rename_id;
        let size = w->Rename_size;
        let row = own_row(
            w->Rename_tree,
            file_report(id, w->Rename_name, size, size, TransferState::Done, Some(path)),
        );
        match w->Rename_tree {
            Some(tree) => if has_key(self.trees, tree) {
                let f = at(self.trees, tree);
                and_then(
                    row,
                    self.with_tree(
                        tree,
                        Folder {
                            outstanding: without_id(f.outstanding, id),
                            done_bytes: capped(f.done_bytes as int, size as int),
                            ..f
                        },
                    ).finalize_tree(tree),
                )
            } else {
                and_then(row, self.nothing())
            },
            None => if w->Rename_drag is Some && self.drags(w->Rename_drag->0) {
                let d = self.drag->0;
                let item = Staged {
                    id,
                    name: w->Rename_name,
                    kind: TransferKind::File,
                    files: 0,
                    size,
                    path: w->Rename_target,
                };
                and_then(
                    row,
                    self.with_drag(
                        Some(
                            Dragging {
                                outstanding: without_id(d.outstanding, id),
                                done: d.done.push(item),
                                ..d
                            },
                        ),
                    ).finalize_drag(),
                )
            } else {
                and_then(row, self.nothing())
            },
        }
    }

    pub open spec fn on_cancel(self, id: u64, reason: Seq<char>) -> Step {
        if has_key(self.recv, id) {
            let t = at(self.recv, id);
            and_then(
                own_row(
                    t.tree,
                    file_report(
                        id,
                        t.name,
                        t.received,
                        t.size,
                        TransferState::Failed,
                        Some(reason),
                    ),
                ).push(Act::Discard { id, part: t.part }),
                self.with_recv(erased(self.recv, id)).settle_failure(id, t, reason),
            )
        } else {
            self.nothing()
        }
    }

    /// What a message from the peer leads to.
    pub open spec fn on_message(self, msg: Msg, now: u64) -> Step {
        match msg {
            Msg::FileOffer { id, name, size } => self.accept_offer(
                self.file_dir,
                id,
                name,
                size,
                None,
                None,
                ""@,
            ),
            Msg::DragBegin { drag, count } => self.on_drag_begin(drag, count),
            Msg::DragOffer { drag, id, name, size } => self.on_drag_offer(drag, id, name, size),
            Msg::DragDrop { drag } => self.on_drag_drop(drag),
            Msg::DragCancel { drag } => self.on_drag_cancel(drag),
            Msg::TreeOffer { tree, name, files, bytes, drag } => self.on_tree_offer(
                tree,
                name,
                files,
                bytes,
                drag,
                now,
            ),
            Msg::TreeDir { tree, rel } => self.on_tree_dir(tree, rel),
            Msg::TreeFile { tree, id, rel, size } => self.on_tree_file(tree, id, rel, size),
            Msg::TreeEnd { tree, error } => self.on_tree_end(tree, error),
            Msg::FileChunk { id, offset, data } => self.on_chunk(id, offset, data),
            Msg::FileDone { id, sha256 } => self.on_done(id, sha256),
            Msg::FileCancel { id, reason } => self.on_cancel(id, reason),
            _ => self.nothing(),
        }
    }

    /* ---- what the outcome of a task leads to ---- */

    /// A directory was created, or not (on what, and why).
    pub open spec fn on_dir_made(self, failure: Option<(Seq<char>, Seq<char>)>) -> Incoming {
        let s = self.awaiting(Wait::Nothing);
        match self.waiting {
            Wait::DragDir { drag, count, dir } => if failure is None {
                s.with_drag(
                    Some(
                        Dragging {
                            drag,
                            dir,
                            expected: count,
                            offered: 0,
                            outstanding: Seq::empty(),
                            done: Seq::empty(),
                            drop_requested: false,
                        },
                    ),
                )
            } else {
                s
            },
            Wait::TreeDir { tree } => if failure is Some && has_key(self.trees, tree) {
                s.with_tree(
                    tree,
                    at(self.trees, tree).fail(
                        cannot_create((failure->0).0, (failure->0).1),
                    ),
                )
            } else {
                s
            },
            _ => s,
        }
    }

    /// A part file was opened (with its final and its present place), or not.
    pub open spec fn on_part_opened(
        self,
        opened: Result<(Place, Place), (Seq<char>, Seq<char>)>,
        now: u64,
    ) -> Step {
        let w = self.waiting;
        match opened {
            Ok((target, part)) => self.accepted(w, target, part, now),
            Err((at, cause)) => self.awaiting(Wait::Nothing).refuse_offer(
                w->Part_id,
                w->Part_offered,
                w->Part_size,
                w->Part_drag,
                w->Part_tree,
                w->Part_rel,
                cannot_create(at, cause),
            ),
        }
    }

    /// The root of a folder was chosen (its place, its wording, and why it
    /// could not be created), or its parent could not be created.
    pub open spec fn on_root_made(
        self,
        made: Result<(Place, Seq<char>, Option<Seq<char>>), (Seq<char>, Seq<char>)>,
        now: u64,
    ) -> Step {
        match made {
            Err((at, cause)) => self.no_root(self.waiting, cannot_create(at, cause), now),
            Ok((root, shown, failure)) => {
                let t = self.rooted_folder(root, shown, failure, now);
                self.awaiting(Wait::Nothing).with_tree(t.tree, t).just(
                    Act::Report(Event::Transfer(t.row(0, TransferState::Active, None))),
                )
            },
        }
    }

    /// A chunk is on disk, or not.
    pub open spec fn on_chunk_written(self, error: Option<Seq<char>>, now: u64) -> Step {
        let id = self.waiting->Chunk_id;
        let s = self.awaiting(Wait::Nothing);
        match error {
            None => s.progress(id, now),
            Some(e) => s.chunk_failed(
                id,
                (at(self.recv, id).received - self.waiting->Chunk_len) as u64,
                "write failed: "@ + e,
            ),
        }
    }

    /// A verified file was renamed, or not.
    pub open spec fn on_committed(self, placed: Result<Seq<char>, (Seq<char>, Seq<char>)>) -> Step {
        let w = self.waiting;
        let s = self.awaiting(Wait::Nothing);
        match placed {
            Ok(path) => s.finished(w, path),
            Err((at, cause)) => s.not_finished(
                w->Rename_id,
                w->Rename_name,
                w->Rename_size,
                w->Rename_drag,
                w->Rename_tree,
                "cannot rename to "@ + at + ": "@ + cause,
            ),
        }
    }

    /// A finished folder was moved into place, or not.
    pub open spec fn on_folder_placed(
        self,
        placed: Result<Seq<char>, (Seq<char>, Seq<char>)>,
    ) -> Step {
        let t = self.waiting->Placing_folder;
        let staging = match t.staging {
            Some(dir) => seq![Act::RemoveTree(dir)],
            None => Seq::empty(),
        };
        Step {
            state: self.awaiting(Wait::Nothing),
            acts: match placed {
                Ok(path) => staging.push(
                    Act::Report(
                        Event::Transfer(t.row(t.total, TransferState::Done, Some(path))),
                    ),
                ),
                Err((at, cause)) => staging + seq![
                    Act::RemoveTree(t.root),
                    Act::Report(
                        Event::Transfer(
                            t.row(
                                t.done_bytes,
                                TransferState::Failed,
                                Some("cannot place folder at "@ + at + ": "@ + cause),
                            ),
                        ),
                    ),
                ],
            },
        }
    }

    /// A dropped item was moved into place, or not; the next one follows.
    pub open spec fn on_item_placed(
        self,
        placed: Result<Seq<char>, (Seq<char>, Seq<char>)>,
    ) -> Step {
        let w = self.waiting;
        let d = w->Dropping_drag;
        let next = w->Dropping_next;
        match placed {
            Ok(path) => and_then(
                seq![
                    Act::Report(
                        Event::Transfer(d.done[next as int].row(TransferState::Done, path)),
                    ),
                ],
                self.place_next(d, w->Dropping_dest, next + 1, w->Dropping_placed.push(path)),
            ),
            Err(_) => self.place_next(d, w->Dropping_dest, next + 1, w->Dropping_placed),
        }
    }

    /// What the end of the connection leads to: nothing in flight can
    /// complete.
    pub open spec fn closing(self) -> Seq<Act> {
        closing_files(self.recv) + closing_folders(self.trees) + (match self.drag {
            Some(d) => seq![Act::RemoveTree(d.dir)],
            None => Seq::empty(),
        })
    }
}

/// How a file that ended early is worded.
pub open spec fn incomplete(received: u64, size: u64) -> Seq<char> {
    "incomplete transfer ("@ + numeral(received as nat) + " of "@ + numeral(size as nat)
        + " bytes)"@
}

/* ------------------------------ invariants ------------------------------ */

impl Incoming {
    /// A file inside a folder is among those that the folder waits for.
    pub open spec fn belongs(self, id: u64, t: Receiving) -> bool {
        t.tree is Some ==> has_key(self.trees, t.tree->0) && at(
            self.trees,
            t.tree->0,
        ).outstanding.contains(id)
    }

    /// What the inbox waits for is still there to be answered.
    pub open spec fn waits_well(self) -> bool {
        match self.waiting {
            Wait::Part { id, tree, .. } => !has_key(self.recv, id) && (tree is Some ==> has_key(
                self.trees,
                tree->0,
            )),
            Wait::TreeDir { tree } => has_key(self.trees, tree),
            Wait::Root { tree, .. } => !has_key(self.trees, tree),
            Wait::Chunk { id, len } => has_key(self.recv, id) && len <= at(self.recv, id).received,
            Wait::Rename { id, .. } => !has_key(self.recv, id),
            Wait::Placing { folder } => folder.settled() && folder.failed is None,
            Wait::Dropping { drag, next, .. } => next < drag.done.len() && drag.drop_requested
                && drag.settled(),
            _ => true,
        }
    }

    /// Ids are used once, files and folders are in order, and every file
    /// inside a folder has its folder.
    pub open spec fn sound(self) -> bool {
        &&& keys_differ(self.recv)
        &&& keys_differ(self.trees)
        &&& forall|id: u64| #[trigger]
            has_key(self.recv, id) ==> at(self.recv, id).wf() && self.belongs(
                id,
                at(self.recv, id),
            )
        &&& forall|tree: u64| #[trigger]
            has_key(self.trees, tree) ==> at(self.trees, tree).wf()
    }

    /// A drop that can complete has been completed: it is never left
    /// waiting, except while the last offer is being looked at.
    pub open spec fn prompt(self) -> bool {
        self.drag is Some && self.drag->0.drop_requested && self.drag->0.settled()
            ==> self.waiting is Part && self.waiting->Part_tree is None
            && self.waiting->Part_drag is Some
    }

    /// What holds of every inbox.
    pub open spec fn wf(self) -> bool {
        self.sound() && self.waits_well() && self.prompt()
    }
}

/* --------------------------------- proofs --------------------------------- */

proof fn storing_a_folder(s: Incoming, tree: u64, t: Folder)
    requires
        s.sound(),
        t.wf(),
        forall|id: u64| #[trigger]
            has_key(s.recv, id) && at(s.recv, id).tree == Some(tree) ==> t.outstanding.contains(id),
    ensures
        s.with_tree(tree, t).sound(),
        has_key(s.with_tree(tree, t).trees, tree),
        at(s.with_tree(tree, t).trees, tree) == t,
        forall|other: u64|
            other != tree ==> #[trigger] has_key(s.with_tree(tree, t).trees, other) == has_key(
                s.trees,
                other,
            ),
{
    let r = s.with_tree(tree, t);
    stored_reads_back(s.trees, tree, t, tree);
    assert forall|other: u64|
        #![trigger has_key(r.trees, other)]
        other != tree implies has_key(r.trees, other) == has_key(s.trees, other) && (has_key(
        r.trees,
        other,
    ) ==> at(r.trees, other) == at(s.trees, other)) by {
        stored_reads_back(s.trees, tree, t, other);
    }
    assert forall|id: u64| #[trigger] has_key(r.recv, id) implies at(r.recv, id).wf() && r.belongs(
        id,
        at(r.recv, id),
    ) by {
        assert(has_key(s.recv, id));
        let f = at(s.recv, id);
        assert(s.belongs(id, f));
        if f.tree is Some && f.tree->0 != tree {
            assert(has_key(s.trees, f.tree->0));
            assert(has_key(r.trees, f.tree->0));
        }
    }
}

proof fn storing_a_file(s: Incoming, id: u64, t: Receiving)
    requires
        s.sound(),
        t.wf(),
        s.belongs(id, t),
    ensures
        s.with_recv(stored(s.recv, id, t)).sound(),
        has_key(stored(s.recv, id, t), id),
        at(stored(s.recv, id, t), id) == t,
{
    let r = s.with_recv(stored(s.recv, id, t));
    stored_reads_back(s.recv, id, t, id);
    assert forall|other: u64| #[trigger] has_key(r.recv, other) implies at(r.recv, other).wf()
        && r.belongs(other, at(r.recv, other)) by {
        stored_reads_back(s.recv, id, t, other);
        if other != id {
            assert(has_key(s.recv, other));
            assert(s.belongs(other, at(s.recv, other)));
        }
    }
}

/// Files that are kept as they were leave everything in order.
proof fn fewer_files(s: Incoming, recv: Seq<(u64, Receiving)>)
    requires
        s.sound(),
        keys_differ(recv),
        forall|id: u64| #[trigger]
            has_key(recv, id) ==> has_key(s.recv, id) && at(recv, id) == at(s.recv, id),
    ensures
        s.with_recv(recv).sound(),
{
    let r = s.with_recv(recv);
    assert forall|id: u64| #[trigger] has_key(r.recv, id) implies at(r.recv, id).wf() && r.belongs(
        id,
        at(r.recv, id),
    ) by {
        assert(has_key(s.recv, id));
        assert(s.belongs(id, at(s.recv, id)));
    }
}

pub proof fn erasing_a_file(s: Incoming, id: u64)
    requires
        s.sound(),
    ensures
        s.with_recv(erased(s.recv, id)).sound(),
        !has_key(erased(s.recv, id), id),
{
    erased_is_gone(s.recv, id, id);
    assert forall|other: u64| #[trigger] has_key(erased(s.recv, id), other) implies has_key(
        s.recv,
        other,
    ) && at(erased(s.recv, id), other) == at(s.recv, other) by {
        erased_is_gone(s.recv, id, other);
    }
    fewer_files(s, erased(s.recv, id));
}

pub proof fn dropped_is_part(recv: Seq<(u64, Receiving)>, ids: Seq<u64>)
    requires
        keys_differ(recv),
    ensures
        keys_differ(dropped(recv, ids)),
        forall|id: u64| #[trigger]
            has_key(dropped(recv, ids), id) ==> has_key(recv, id) && at(dropped(recv, ids), id)
                == at(recv, id) && !ids.contains(id),
    decreases ids.len(),
{
    if ids.len() > 0 {
        let before = dropped(recv, ids.drop_last());
        dropped_is_part(recv, ids.drop_last());
        erased_is_gone(before, ids.last(), ids.last());
        assert forall|id: u64| #[trigger] has_key(dropped(recv, ids), id) implies has_key(recv, id)
            && at(dropped(recv, ids), id) == at(recv, id) && !ids.contains(id) by {
            erased_is_gone(before, ids.last(), id);
            assert(has_key(before, id));
            if ids.contains(id) {
                let k = choose|k: int| 0 <= k < ids.len() && ids[k] == id;
                assert(ids.drop_last()[k] == id);
            }
        }
    }
}

pub proof fn forsaken_is_part(recv: Seq<(u64, Receiving)>, trees: Seq<(u64, Folder)>, drag: u64)
    requires
        keys_differ(recv),
    ensures
        keys_differ(forsaken(recv, trees, drag)),
        forall|id: u64| #[trigger]
            has_key(forsaken(recv, trees, drag), id) ==> has_key(recv, id) && at(
                forsaken(recv, trees, drag),
                id,
            ) == at(recv, id) && forall|i: int|
                0 <= i < trees.len() && (#[trigger] trees[i]).1.drag == Some(drag)
                    ==> !trees[i].1.outstanding.contains(id),
    decreases trees.len(),
{
    if trees.len() > 0 {
        let prev = trees.drop_last();
        let before = forsaken(recv, prev, drag);
        let t = trees.last().1;
        forsaken_is_part(recv, prev, drag);
        dropped_is_part(before, t.outstanding);
        let r = forsaken(recv, trees, drag);
        assert forall|id: u64| #[trigger] has_key(r, id) implies has_key(recv, id) && at(r, id)
            == at(recv, id) && forall|i: int|
            0 <= i < trees.len() && (#[trigger] trees[i]).1.drag == Some(drag)
                ==> !trees[i].1.outstanding.contains(id) by {
            assert(has_key(before, id));
            assert forall|i: int|
                0 <= i < trees.len() && (#[trigger] trees[i]).1.drag == Some(
                    drag,
                ) implies !trees[i].1.outstanding.contains(id) by {
                if i < prev.len() {
                    assert(prev[i] == trees[i]);
                }
            }
        }
    }
}

proof fn discarding_a_drag(s: Incoming, d: Dragging)
    requires
        s.sound(),
    ensures
        s.discard_drag(d).state.sound(),
        s.discard_drag(d).state.waiting == s.waiting,
{
    let r = s.discard_drag(d).state;
    let direct = dropped(s.recv, d.outstanding);
    dropped_is_part(s.recv, d.outstanding);
    forsaken_is_part(direct, s.trees, d.drag);
    filtered_is_part(s.trees, outside(d.drag));
    assert forall|tree: u64| #[trigger] has_key(r.trees, tree) implies at(r.trees, tree).wf() by {
        assert(has_key(s.trees, tree));
    }
    assert forall|id: u64| #[trigger] has_key(r.recv, id) implies at(r.recv, id).wf() && r.belongs(
        id,
        at(r.recv, id),
    ) by {
        assert(has_key(direct, id));
        assert(has_key(s.recv, id));
        let f = at(s.recv, id);
        assert(s.belongs(id, f));
        if f.tree is Some {
            let tree = f.tree->0;
            position_finds(s.trees, tree);
            let e = s.trees[position(s.trees, tree)];
            assert(e.1.outstanding.contains(id));
            assert(outside(d.drag)((tree, at(s.trees, tree))));
            assert(has_key(r.trees, tree));
        }
    }
}

proof fn finalizing_a_drag(s: Incoming)
    requires
        s.sound(),
        s.waiting is Nothing,
    ensures
        s.finalize_drag().state.wf(),
{
}

proof fn finalizing_a_folder(s: Incoming, tree: u64)
    requires
        s.wf(),
        s.waiting is Nothing,
    ensures
        s.finalize_tree(tree).state.wf(),
{
    if has_key(s.trees, tree) && at(s.trees, tree).settled() {
        let t = at(s.trees, tree);
        let r = s.with_trees(erased(s.trees, tree));
        erased_is_gone(s.trees, tree, tree);
        assert forall|other: u64| #[trigger] has_key(r.trees, other) implies at(
            r.trees,
            other,
        ).wf() by {
            erased_is_gone(s.trees, tree, other);
            assert(has_key(s.trees, other));
        }
        assert forall|id: u64| #[trigger] has_key(r.recv, id) implies at(r.recv, id).wf()
            && r.belongs(id, at(r.recv, id)) by {
            assert(has_key(s.recv, id));
            let f = at(s.recv, id);
            assert(s.belongs(id, f));
            if f.tree is Some {
                if f.tree->0 == tree {
                    assert(t.outstanding.contains(id));
                    assert(false);
                }
                erased_is_gone(s.trees, tree, f.tree->0);
            }
        }
        assert(r.sound());
        if t.drag is Some && r.drags(t.drag->0) {
            let d = r.drag->0;
            let item = Staged {
                id: tree,
                name: t.name,
                kind: TransferKind::Folder,
                files: t.files,
                size: t.total,
                path: t.root,
            };
            finalizing_a_drag(
                r.with_drag(
                    Some(Dragging { outstanding: without_id(d.outstanding, tree), ..d }),
                ),
            );
            finalizing_a_drag(
                r.with_drag(
                    Some(
                        Dragging {
                            outstanding: without_id(d.outstanding, tree),
                            done: d.done.push(item),
                            ..d
                        },
                    ),
                ),
            );
        }
    }
}

/// Taking an id off a set keeps the others on it.
proof fn others_stay(s: Seq<u64>, id: u64, other: u64)
    requires
        s.contains(other),
        other != id,
    ensures
        without_id(s, id).contains(other),
{
    let k = choose|k: int| 0 <= k < s.len() && s[k] == other;
    s.lemma_filter_contains(other_than(id), k);
}

/// A file has settled: its folder no longer waits for it.
proof fn settling_in_a_folder(s: Incoming, id: u64, tree: u64, t: Folder)
    requires
        s.wf(),
        s.waiting is Nothing,
        !has_key(s.recv, id),
        has_key(s.trees, tree),
        t.wf(),
        t.outstanding == without_id(at(s.trees, tree).outstanding, id),
    ensures
        s.with_tree(tree, t).finalize_tree(tree).state.wf(),
{
    assert forall|other: u64| #[trigger]
        has_key(s.recv, other) && at(s.recv, other).tree == Some(
            tree,
        ) implies t.outstanding.contains(other) by {
        assert(s.belongs(other, at(s.recv, other)));
        others_stay(at(s.trees, tree).outstanding, id, other);
    }
    storing_a_folder(s, tree, t);
    finalizing_a_folder(s.with_tree(tree, t), tree);
}

/// A folder that only learns of a failure stays in order.
proof fn failing_a_folder(s: Incoming, tree: u64, t: Folder)
    requires
        s.sound(),
        has_key(s.trees, tree),
        t.wf(),
        t.outstanding == at(s.trees, tree).outstanding,
    ensures
        s.with_tree(tree, t).sound(),
        has_key(s.with_tree(tree, t).trees, tree),
        at(s.with_tree(tree, t).trees, tree) == t,
        forall|other: u64|
            other != tree ==> #[trigger] has_key(s.with_tree(tree, t).trees, other) == has_key(
                s.trees,
                other,
            ),
{
    assert forall|other: u64| #[trigger]
        has_key(s.recv, other) && at(s.recv, other).tree == Some(
            tree,
        ) implies t.outstanding.contains(other) by {
        assert(s.belongs(other, at(s.recv, other)));
    }
    storing_a_folder(s, tree, t);
}

proof fn settling_a_refusal(s: Incoming, drag: Option<u64>, tree: Option<u64>, rel: Seq<char>)
    requires
        s.sound(),
        tree is Some || drag is None ==> s.prompt(),
        s.waiting is Nothing,
    ensures
        s.settle_refusal(drag, tree, rel).state.wf(),
{
    match tree {
        Some(tree) => {
            if has_key(s.trees, tree) {
                failing_a_folder(
                    s,
                    tree,
                    at(s.trees, tree).fail("could not receive "@ + rel),
                );
            }
        },
        None => {
            finalizing_a_drag(s);
        },
    }
}

proof fn settling_a_failure(s: Incoming, id: u64, t: Receiving, reason: Seq<char>)
    requires
        s.wf(),
        s.waiting is Nothing,
        !has_key(s.recv, id),
    ensures
        s.settle_failure(id, t, reason).state.wf(),
{
    match t.tree {
        Some(tree) => {
            if has_key(s.trees, tree) {
                let f = at(s.trees, tree);
                settling_in_a_folder(
                    s,
                    id,
                    tree,
                    (Folder { outstanding: without_id(f.outstanding, id), ..f }).fail(
                        t.name + ": "@ + reason,
                    ),
                );
            }
        },
        None => {
            if t.drag is Some && s.drags(t.drag->0) {
                let d = s.drag->0;
                finalizing_a_drag(
                    s.with_drag(
                        Some(Dragging { outstanding: without_id(d.outstanding, id), ..d }),
                    ),
                );
            }
        },
    }
}

proof fn accepting_an_offer(
    s: Incoming,
    dir: Place,
    id: u64,
    offered: Seq<char>,
    size: u64,
    drag: Option<u64>,
    tree: Option<u64>,
    rel: Seq<char>,
)
    requires
        s.sound(),
        s.waiting is Nothing,
        tree is Some || drag is None ==> s.prompt(),
        tree is Some ==> has_key(s.trees, tree->0),
    ensures
        s.accept_offer(dir, id, offered, size, drag, tree, rel).state.wf(),
{
    settling_a_refusal(s, drag, tree, rel);
}

proof fn not_finishing(
    s: Incoming,
    id: u64,
    name: Seq<char>,
    size: u64,
    drag: Option<u64>,
    tree: Option<u64>,
    reason: Seq<char>,
)
    requires
        s.wf(),
        s.waiting is Nothing,
        !has_key(s.recv, id),
    ensures
        s.not_finished(id, name, size, drag, tree, reason).state.wf(),
{
    match tree {
        Some(tree) => {
            if has_key(s.trees, tree) {
                let f = at(s.trees, tree);
                settling_in_a_folder(
                    s,
                    id,
                    tree,
                    (Folder { outstanding: without_id(f.outstanding, id), ..f }).fail(
                        name + ": "@ + reason,
                    ),
                );
            }
        },
        None => {
            if drag is Some && s.drags(drag->0) {
                let d = s.drag->0;
                finalizing_a_drag(
                    s.with_drag(
                        Some(Dragging { outstanding: without_id(d.outstanding, id), ..d }),
                    ),
                );
            }
        },
    }
}

/// Whatever the peer sends, the inbox stays in order.
pub proof fn messages_keep_it_well_formed(s: Incoming, msg: Msg, now: u64)
    requires
        s.wf(),
        s.waiting is Nothing,
    ensures
        s.on_message(msg, now).state.wf(),
{
    match msg {
        Msg::FileOffer { id, name, size } => {
            accepting_an_offer(s, s.file_dir, id, name, size, None, None, ""@);
        },
        Msg::DragBegin { drag, count } => {
            if s.drag is Some {
                discarding_a_drag(s.with_drag(None), s.drag->0);
            }
        },
        Msg::DragOffer { drag, id, name, size } => {
            if s.drags(drag) {
                let d = s.drag->0.one_more();
                accepting_an_offer(
                    s.with_drag(Some(d)),
                    d.dir,
                    id,
                    name,
                    size,
                    Some(drag),
                    None,
                    ""@,
                );
            }
        },
        Msg::DragDrop { drag } => {
            if s.drags(drag) {
                finalizing_a_drag(
                    s.with_drag(Some(Dragging { drop_requested: true, ..s.drag->0 })),
                );
            }
        },
        Msg::DragCancel { drag } => {
            if s.drags(drag) {
                discarding_a_drag(s.with_drag(None), s.drag->0);
            }
        },
        Msg::TreeOffer { tree, name, files, bytes, drag } => {
            tree_offers_keep_it_well_formed(s, tree, name, files, bytes, drag, now);
        },
        Msg::TreeDir { .. } => {
            folder_entries_keep_it_well_formed(s, msg, now);
        },
        Msg::TreeFile { .. } => {
            folder_entries_keep_it_well_formed(s, msg, now);
        },
        Msg::TreeEnd { tree, error } => {
            if has_key(s.trees, tree) {
                let t = Folder { ended: true, ..at(s.trees, tree) };
                let t = match error {
                    Some(reason) => t.fail("sender: "@ + reason),
                    None => t,
                };
                failing_a_folder(s, tree, t);
                finalizing_a_folder(s.with_tree(tree, t), tree);
            }
        },
        Msg::FileChunk { .. } => {
            streams_keep_it_well_formed(s, msg, now);
        },
        Msg::FileDone { .. } => {
            streams_keep_it_well_formed(s, msg, now);
        },
        Msg::FileCancel { .. } => {
            streams_keep_it_well_formed(s, msg, now);
        },
        _ => {},
    }
}

proof fn folder_entries_keep_it_well_formed(s: Incoming, msg: Msg, now: u64)
    requires
        s.wf(),
        s.waiting is Nothing,
        msg is TreeDir || msg is TreeFile,
    ensures
        s.on_message(msg, now).state.wf(),
{
    match msg {
        Msg::TreeDir { tree, rel } => {
            if has_key(s.trees, tree) && at(s.trees, tree).failed is None {
                let t = at(s.trees, tree);
                let t = Folder { entries: (t.entries + 1) as u64, ..t };
                if t.entries > MAX_TREE_ENTRIES {
                    failing_a_folder(s, tree, t.fail("folder has too many entries"@));
                } else if safe_rel(rel) is None {
                    failing_a_folder(s, tree, t.fail("invalid path inside folder: "@ + rel));
                } else {
                    failing_a_folder(s, tree, t);
                }
            }
        },
        Msg::TreeFile { tree, id, rel, size } => {
            if has_key(s.trees, tree) && at(s.trees, tree).failed is None {
                let t = at(s.trees, tree);
                let t = Folder { entries: (t.entries + 1) as u64, ..t };
                if t.entries > MAX_TREE_ENTRIES {
                    failing_a_folder(s, tree, t.fail("folder has too many entries"@));
                } else if safe_rel(rel) is None {
                    failing_a_folder(s, tree, t.fail("invalid path inside folder: "@ + rel));
                } else {
                    failing_a_folder(s, tree, t);
                    let names = safe_rel(rel)->0;
                    accepting_an_offer(
                        s.with_tree(tree, t),
                        t.root.follow(names.drop_last()),
                        id,
                        names.last(),
                        size,
                        t.drag,
                        Some(tree),
                        rel,
                    );
                }
            }
        },
        _ => {},
    }
}

proof fn streams_keep_it_well_formed(s: Incoming, msg: Msg, now: u64)
    requires
        s.wf(),
        s.waiting is Nothing,
        msg is FileChunk || msg is FileDone || msg is FileCancel,
    ensures
        s.on_message(msg, now).state.wf(),
{
    match msg {
        Msg::FileChunk { id, offset, data } => {
            if has_key(s.recv, id) {
                let t = at(s.recv, id);
                assert(s.belongs(id, t));
                erasing_a_file(s, id);
                settling_a_failure(
                    s.with_recv(erased(s.recv, id)),
                    id,
                    t,
                    "transfer exceeds offered size"@,
                );
                settling_a_failure(
                    s.with_recv(erased(s.recv, id)),
                    id,
                    t,
                    "chunks out of order"@,
                );
                if data.len() <= CHUNK_SIZE && t.received + data.len() <= t.size {
                    storing_a_file(
                        s,
                        id,
                        Receiving {
                            content: t.content + data,
                            received: (t.received + data.len()) as u64,
                            ..t
                        },
                    );
                }
            }
        },
        Msg::FileDone { id, sha256 } => {
            if has_key(s.recv, id) {
                let t = at(s.recv, id);
                let r = s.with_recv(erased(s.recv, id));
                erasing_a_file(s, id);
                not_finishing(
                    r,
                    id,
                    t.name,
                    t.size,
                    t.drag,
                    t.tree,
                    "integrity check failed (sha256 mismatch)"@,
                );
                not_finishing(
                    r,
                    id,
                    t.name,
                    t.size,
                    t.drag,
                    t.tree,
                    incomplete(t.received, t.size),
                );
            }
        },
        Msg::FileCancel { id, reason } => {
            if has_key(s.recv, id) {
                erasing_a_file(s, id);
                settling_a_failure(
                    s.with_recv(erased(s.recv, id)),
                    id,
                    at(s.recv, id),
                    reason,
                );
            }
        },
        _ => {},
    }
}

proof fn tree_offers_keep_it_well_formed(
    s: Incoming,
    tree: u64,
    name: Seq<char>,
    files: u32,
    bytes: u64,
    drag: Option<u64>,
    now: u64,
)
    requires
        s.wf(),
        s.waiting is Nothing,
    ensures
        s.on_tree_offer(tree, name, files, bytes, drag, now).state.wf(),
{
    if !has_key(s.trees, tree) {
        assert forall|id: u64| #[trigger] has_key(s.recv, id) implies at(s.recv, id).tree != Some(
            tree,
        ) by {
            assert(s.belongs(id, at(s.recv, id)));
        }
        if drag is Some && !s.drags(drag->0) {
            storing_a_folder(
                s,
                tree,
                refused(tree, name, files, bytes, drag, "no drag in progress"@, now),
            );
        } else {
            let r = if drag is Some {
                let d = s.drag->0.one_more();
                s.with_drag(Some(Dragging { outstanding: with_id(d.outstanding, tree), ..d }))
            } else {
                s
            };
            assert(r.sound());
            storing_a_folder(
                r,
                tree,
                refused(tree, name, files, bytes, drag, "invalid folder name"@, now),
            );
        }
    }
}

/// Whatever comes of creating a directory, the inbox stays in order.
pub proof fn made_dirs_keep_it_well_formed(s: Incoming, failure: Option<(Seq<char>, Seq<char>)>)
    requires
        s.wf(),
        s.waiting is DragDir || s.waiting is TreeDir,
    ensures
        s.on_dir_made(failure).wf(),
{
    if let Wait::TreeDir { tree } = s.waiting {
        if failure is Some {
            failing_a_folder(
                s.awaiting(Wait::Nothing),
                tree,
                at(s.trees, tree).fail(cannot_create((failure->0).0, (failure->0).1)),
            );
        }
    }
}

/// Whatever comes of opening a part file, the inbox stays in order.
pub proof fn opened_parts_keep_it_well_formed(
    s: Incoming,
    opened: Result<(Place, Place), (Seq<char>, Seq<char>)>,
    now: u64,
)
    requires
        s.wf(),
        s.waiting is Part,
    ensures
        s.on_part_opened(opened, now).state.wf(),
{
    let w = s.waiting;
    let idle = s.awaiting(Wait::Nothing);
    assert(idle.sound());
    match opened {
        Err((at, cause)) => {
            settling_a_refusal(idle, w->Part_drag, w->Part_tree, w->Part_rel);
        },
        Ok((target, part)) => {
            let id = w->Part_id;
            let t = Receiving {
                name: w->Part_name,
                size: w->Part_size,
                received: 0,
                content: Seq::empty(),
                part,
                target,
                last_progress: now,
                drag: w->Part_drag,
                tree: w->Part_tree,
            };
            match t.tree {
                None => {
                    storing_a_file(idle, id, t);
                },
                Some(tree) => {
                    let f = at(s.trees, tree);
                    let g = Folder { outstanding: with_id(f.outstanding, id), ..f };
                    assert(g.outstanding.contains(id)) by {
                        if !f.outstanding.contains(id) {
                            assert(g.outstanding[f.outstanding.len() as int] == id);
                        }
                    }
                    assert forall|other: u64| #[trigger]
                        has_key(idle.recv, other) && at(idle.recv, other).tree == Some(
                            tree,
                        ) implies g.outstanding.contains(other) by {
                        assert(idle.belongs(other, at(idle.recv, other)));
                        let k = choose|k: int|
                            0 <= k < f.outstanding.len() && f.outstanding[k] == other;
                        assert(g.outstanding[k] == other);
                    }
                    storing_a_folder(idle, tree, g);
                    storing_a_file(idle.with_tree(tree, g), id, t);
                },
            }
        },
    }
}

/// Whatever comes of creating a folder's root, the inbox stays in order.
pub proof fn made_roots_keep_it_well_formed(
    s: Incoming,
    made: Result<(Place, Seq<char>, Option<Seq<char>>), (Seq<char>, Seq<char>)>,
    now: u64,
)
    requires
        s.wf(),
        s.waiting is Root,
    ensures
        s.on_root_made(made, now).state.wf(),
{
    let tree = s.waiting->Root_tree;
    let idle = s.awaiting(Wait::Nothing);
    assert(idle.sound());
    assert forall|id: u64| #[trigger] has_key(s.recv, id) implies at(s.recv, id).tree != Some(
        tree,
    ) by {
        assert(s.belongs(id, at(s.recv, id)));
    }
    let r = s.on_root_made(made, now).state;
    let t = at(r.trees, tree);
    match made {
        Err((at, cause)) => {
            let w = s.waiting;
            storing_a_folder(
                idle,
                tree,
                refused(
                    tree,
                    w->Root_name,
                    w->Root_files,
                    w->Root_bytes,
                    w->Root_drag,
                    cannot_create(at, cause),
                    now,
                ),
            );
        },
        Ok((root, shown, failure)) => {
            stored_reads_back(
                s.trees,
                tree,
                s.rooted_folder(root, shown, failure, now),
                tree,
            );
            storing_a_folder(idle, tree, s.rooted_folder(root, shown, failure, now));
        },
    }
}

/// Whatever comes of writing a chunk, the inbox stays in order.
pub proof fn written_chunks_keep_it_well_formed(s: Incoming, error: Option<Seq<char>>, now: u64)
    requires
        s.wf(),
        s.waiting is Chunk,
    ensures
        s.on_chunk_written(error, now).state.wf(),
{
    let id = s.waiting->Chunk_id;
    let idle = s.awaiting(Wait::Nothing);
    assert(idle.wf());
    let t = at(s.recv, id);
    assert(idle.belongs(id, t));
    match error {
        None => match t.tree {
            None => {
                storing_a_file(idle, id, Receiving { last_progress: now, ..t });
            },
            Some(tree) => {
                failing_a_folder(
                    idle,
                    tree,
                    Folder { last_progress: now, ..at(s.trees, tree) },
                );
            },
        },
        Some(e) => {
            erasing_a_file(idle, id);
            settling_a_failure(
                idle.with_recv(erased(s.recv, id)),
                id,
                t,
                "write failed: "@ + e,
            );
        },
    }
}

/// Whatever comes of renaming a verified file, the inbox stays in order.
pub proof fn commits_keep_it_well_formed(
    s: Incoming,
    placed: Result<Seq<char>, (Seq<char>, Seq<char>)>,
)
    requires
        s.wf(),
        s.waiting is Rename,
    ensures
        s.on_committed(placed).state.wf(),
{
    let w = s.waiting;
    let id = w->Rename_id;
    let size = w->Rename_size;
    let idle = s.awaiting(Wait::Nothing);
    assert(idle.wf());
    match placed {
        Err((at, cause)) => {
            not_finishing(
                idle,
                id,
                w->Rename_name,
                size,
                w->Rename_drag,
                w->Rename_tree,
                "cannot rename to "@ + at + ": "@ + cause,
            );
        },
        Ok(path) => match w->Rename_tree {
            Some(tree) => {
                if has_key(s.trees, tree) {
                    let f = at(s.trees, tree);
                    settling_in_a_folder(
                        idle,
                        id,
                        tree,
                        Folder {
                            outstanding: without_id(f.outstanding, id),
                            done_bytes: capped(f.done_bytes as int, size as int),
                            ..f
                        },
                    );
                }
            },
            None => {
                if w->Rename_drag is Some && s.drags(w->Rename_drag->0) {
                    let d = s.drag->0;
                    let item = Staged {
                        id,
                        name: w->Rename_name,
                        kind: TransferKind::File,
                        files: 0,
                        size,
                        path: w->Rename_target,
                    };
                    finalizing_a_drag(
                        idle.with_drag(
                            Some(
                                Dragging {
                                    outstanding: without_id(d.outstanding, id),
                                    done: d.done.push(item),
                                    ..d
                                },
                            ),
                        ),
                    );
                }
            },
        },
    }
}

} // verus!
