//! Receiving side of file, folder and drag transfers on one connection.
//!
//! Everything the peer offers is tracked here: plain files, files staged for
//! a cross-machine drag, and folders (trees), standalone or inside a drag.
//! The inbox decides; the host does the file work. Each call answers with
//! the effects to carry out, in order. At most one of them is a [`Task`],
//! always the last: the host does it and hands the outcome back through the
//! method that the task names, before anything else reaches the inbox.

use crate::digest::{hasher_finish, hasher_new, hasher_update, same_digest};
use crate::effects::{Act, Effect, Effects, IoFailure, RootMade, Task};
use crate::event::{capped, Event, SyncEvent};
use crate::incoming::{
    cannot_create, closing_files, closing_folders, commits_keep_it_well_formed, discards, dropped,
    file_report, folder_dirs, forsaken, forsaking, incomplete, inflight, lost_items,
    made_dirs_keep_it_well_formed, made_roots_keep_it_well_formed, messages_keep_it_well_formed,
    opened_parts_keep_it_well_formed, outside, own_row, written_chunks_keep_it_well_formed,
    Incoming, Wait,
};
use crate::ipc::{opt_text, status, tree_status, Direction, TransferKind, TransferState};
use crate::names::{
    accepted_paths_stay_inside, drag_staging_name, sanitize_name, sanitize_rel_path, texts,
    tree_staging_name, Location, Place,
};
use crate::proto::{Msg, SyncMessage, CHUNK_SIZE};
use crate::receive::{
    drag_view, opt_place, refused_tree, staged_view, Folder, IncomingDrag, IncomingTree, Receiving,
    RecvTransfer, Staged, StagedItem, MAX_TREE_ENTRIES,
};
use crate::table::{add_id, drop_id, entries_view, has_key, Table};
use crate::text::{concat2, concat3, decimal};
use vstd::prelude::*;
use vstd::string::*;

verus! {

/* --------------------------------- state --------------------------------- */

/// What the inbox waits for.
pub enum Waiting {
    Nothing,
    /// the staging directory of a new drag
    DragDir { drag: u64, count: u32, dir: Location },
    /// the part file of an offer
    Part {
        id: u64,
        offered: String,
        name: String,
        size: u64,
        drag: Option<u64>,
        tree: Option<u64>,
        rel: String,
    },
    /// a directory inside a folder
    TreeDir { tree: u64 },
    /// the root of a new folder
    Root {
        tree: u64,
        name: String,
        staging: Option<Location>,
        drag: Option<u64>,
        files: u32,
        bytes: u64,
    },
    /// a chunk of `len` bytes
    Chunk { id: u64, len: u64 },
    /// the rename of a verified file
    Rename {
        id: u64,
        name: String,
        size: u64,
        target: Location,
        drag: Option<u64>,
        tree: Option<u64>,
    },
    /// a finished folder on its way into place
    Placing { folder: IncomingTree },
    /// the items of a drop, from `next` on
    Dropping { drag: IncomingDrag, dest: Location, next: usize, placed: Vec<String> },
}

impl View for Waiting {
    type V = Wait;

    open spec fn view(&self) -> Wait {
        match *self {
            Waiting::Nothing => Wait::Nothing,
            Waiting::DragDir { drag, count, dir } => Wait::DragDir { drag, count, dir: dir@ },
            Waiting::Part { id, offered, name, size, drag, tree, rel } => Wait::Part {
                id,
                offered: offered@,
                name: name@,
                size,
                drag,
                tree,
                rel: rel@,
            },
            Waiting::TreeDir { tree } => Wait::TreeDir { tree },
            Waiting::Root { tree, name, staging, drag, files, bytes } => Wait::Root {
                tree,
                name: name@,
                staging: opt_place(staging),
                drag,
                files,
                bytes,
            },
            Waiting::Chunk { id, len } => Wait::Chunk { id, len },
            Waiting::Rename { id, name, size, target, drag, tree } => Wait::Rename {
                id,
                name: name@,
                size,
                target: target@,
                drag,
                tree,
            },
            Waiting::Placing { folder } => Wait::Placing { folder: folder@ },
            Waiting::Dropping { drag, dest, next, placed } => Wait::Dropping {
                drag: drag@,
                dest: dest@,
                next: next as nat,
                placed: texts(placed@),
            },
        }
    }
}

/// The transfers that a peer has under way here.
pub struct Inbox {
    pub file_dir: Location,
    /// where dropped items land; the receive folder if there is no such place
    pub drop_dir: Option<Location>,
    /// incoming file transfers, keyed by the peer's ids
    pub recv: Table<RecvTransfer>,
    /// the drag being staged, if any (one at a time: a pointer can only drag
    /// one thing)
    pub drag: Option<IncomingDrag>,
    /// folders being received, keyed by the peer's tree ids
    pub trees: Table<IncomingTree>,
    pub waiting: Waiting,
}

impl View for Inbox {
    type V = Incoming;

    open spec fn view(&self) -> Incoming {
        Incoming {
            file_dir: self.file_dir@,
            drop_dir: opt_place(self.drop_dir),
            recv: self.recv@,
            drag: drag_view(self.drag),
            trees: self.trees@,
            waiting: self.waiting@,
        }
    }
}

/// What failed, and why.
pub open spec fn failure_text(r: Result<(), IoFailure>) -> Option<(Seq<char>, Seq<char>)> {
    match r {
        Ok(_) => None,
        Err(f) => Some((f.at@, f.cause@)),
    }
}

/// Where the file will stand and its part file stands, or what failed and
/// why.
pub open spec fn opened_places(r: Result<(Location, Location), IoFailure>) -> Result<
    (Place, Place),
    (Seq<char>, Seq<char>),
> {
    match r {
        Ok((target, part)) => Ok((target@, part@)),
        Err(f) => Err((f.at@, f.cause@)),
    }
}

/// The root that was chosen, or what failed and why.
pub open spec fn root_places(r: RootMade) -> Result<
    (Place, Seq<char>, Option<Seq<char>>),
    (Seq<char>, Seq<char>),
> {
    match r {
        RootMade::NoParent(f) => Err((f.at@, f.cause@)),
        RootMade::Chosen { root, shown, failure } => Ok((root@, shown@, opt_text(failure))),
    }
}

/// Why it failed, if it did.
pub open spec fn error_text(r: Result<(), String>) -> Option<Seq<char>> {
    match r {
        Ok(_) => None,
        Err(e) => Some(e@),
    }
}

/// Where it was placed, or what failed and why.
pub open spec fn placed_text(r: Result<String, IoFailure>) -> Result<
    Seq<char>,
    (Seq<char>, Seq<char>),
> {
    match r {
        Ok(path) => Ok(path@),
        Err(f) => Err((f.at@, f.cause@)),
    }
}

/* ---------------------------------- code ---------------------------------- */

/// whether `msg` is something the inbox handles
pub fn is_inbound_transfer(msg: &SyncMessage) -> (r: bool)
    ensures
        r == (msg is FileOffer || msg is DragBegin || msg is DragOffer || msg is DragDrop
            || msg is DragCancel || msg is FileChunk || msg is FileDone || msg is FileCancel
            || msg is TreeOffer || msg is TreeDir || msg is TreeFile || msg is TreeEnd),
{
    match msg {
        SyncMessage::FileOffer { .. } => true,
        SyncMessage::DragBegin { .. } => true,
        SyncMessage::DragOffer { .. } => true,
        SyncMessage::DragDrop { .. } => true,
        SyncMessage::DragCancel { .. } => true,
        SyncMessage::FileChunk { .. } => true,
        SyncMessage::FileDone { .. } => true,
        SyncMessage::FileCancel { .. } => true,
        SyncMessage::TreeOffer { .. } => true,
        SyncMessage::TreeDir { .. } => true,
        SyncMessage::TreeFile { .. } => true,
        SyncMessage::TreeEnd { .. } => true,
        _ => false,
    }
}

fn created_failed(f: &IoFailure) -> (r: String)
    ensures
        r@ == cannot_create(f.at@, f.cause@),
{
    let head = concat3("cannot create ", f.at.as_str(), ": ");
    let r = concat2(head.as_str(), f.cause.as_str());
    assert(r@ =~= cannot_create(f.at@, f.cause@));
    r
}

/// Drop the transfers `ids`, deleting their part files.
fn drop_files(recv: &mut Table<RecvTransfer>, ids: &Vec<u64>, out: &mut Effects)
    ensures
        final(recv)@ == dropped(old(recv)@, ids@),
        final(out)@ == old(out)@ + discards(old(recv)@, ids@),
{
    let ghost recv0 = recv@;
    let ghost out0 = out@;
    let mut i: usize = 0;
    assert(ids@.take(0) =~= Seq::<u64>::empty());
    while i < ids.len()
        invariant
            i <= ids@.len(),
            recv@ == dropped(recv0, ids@.take(i as int)),
            out@ == out0 + discards(recv0, ids@.take(i as int)),
        decreases ids@.len() - i,
    {
        let id: u64 = ids[i];
        proof {
            assert(ids@.take(i + 1).drop_last() =~= ids@.take(i as int));
            assert(ids@.take(i + 1).last() == id);
        }
        if let Some(t) = recv.take(id) {
            out.discard(id, &t.part_path);
        }
        i = i + 1;
    }
    assert(ids@.take(i as int) =~= ids@);
}

impl Inbox {
    pub fn new(file_dir: Location, drop_dir: Option<Location>) -> (r: Inbox)
        ensures
            r@ == (Incoming {
                file_dir: file_dir@,
                drop_dir: opt_place(drop_dir),
                recv: Seq::empty(),
                drag: None,
                trees: Seq::empty(),
                waiting: Wait::Nothing,
            }),
            r@.wf(),
    {
        Inbox {
            file_dir,
            drop_dir,
            recv: Table::new(),
            drag: None,
            trees: Table::new(),
            waiting: Waiting::Nothing,
        }
    }

    /// The receive folder has changed.
    pub fn set_file_dir(&mut self, dir: Location)
        ensures
            final(self)@ == (Incoming { file_dir: dir@, ..old(self)@ }),
    {
        self.file_dir = dir;
    }

    /// an incoming transfer with this id exists (disambiguates `FileCancel`,
    /// which either side may send)
    pub fn has_transfer(&self, id: u64) -> (r: bool)
        ensures
            r == has_key(self@.recv, id),
    {
        self.recv.contains(id)
    }

    /// Whether the inbox waits for the outcome of a task.
    pub fn is_idle(&self) -> (r: bool)
        ensures
            r == (self@.waiting is Nothing),
    {
        match self.waiting {
            Waiting::Nothing => true,
            _ => false,
        }
    }

    /// Whether `drag` is the drag under way.
    fn is_dragging(&self, drag: u64) -> (r: bool)
        ensures
            r == self@.drags(drag),
    {
        match &self.drag {
            Some(d) => d.drag == drag,
            None => false,
        }
    }

    /* ---- drags ---- */

    fn place_next(
        &mut self,
        d: IncomingDrag,
        dest: Location,
        next: usize,
        placed: Vec<String>,
        out: &mut Effects,
    )
        ensures
            final(self)@ == old(self)@.place_next(
                d@,
                dest@,
                next as nat,
                texts(placed@),
            ).state,
            final(out)@ == old(out)@ + old(self)@.place_next(
                d@,
                dest@,
                next as nat,
                texts(placed@),
            ).acts,
    {
        if next < d.done.len() {
            let from = d.done[next].path.copied();
            let name = d.done[next].name.clone();
            let kind = d.done[next].kind;
            let dir = dest.copied();
            self.waiting = Waiting::Dropping { drag: d, dest, next, placed };
            out.push(Effect::Do(Task::PlaceItem { from, dir, name, kind }));
        } else {
            self.waiting = Waiting::Nothing;
            out.remove_tree(&d.dir);
            if placed.len() > 0 {
                out.push(Effect::Report(SyncEvent::DragDropped { paths: placed }));
            }
        }
    }

    fn try_finalize_drag(&mut self, out: &mut Effects)
        ensures
            final(self)@ == old(self)@.finalize_drag().state,
            final(out)@ == old(out)@ + old(self)@.finalize_drag().acts,
    {
        let ready = match &self.drag {
            Some(d) => d.drop_requested && d.settled(),
            None => false,
        };
        if !ready {
            assert(out@ =~= old(out)@ + Seq::<Act>::empty());
            return;
        }
        if let Some(d) = self.drag.take() {
            let dest = match &self.drop_dir {
                Some(p) => p.copied(),
                None => self.file_dir.copied(),
            };
            let ensured = dest.copied();
            out.push(Effect::EnsureDir(ensured));
            let placed: Vec<String> = Vec::new();
            assert(texts(placed@) =~= Seq::<Seq<char>>::empty());
            self.place_next(d, dest, 0, placed, out);
        }
    }

    /// throw away a staged drag and everything in flight for it
    fn discard_drag(&mut self, d: IncomingDrag, out: &mut Effects)
        ensures
            final(self)@ == old(self)@.discard_drag(d@).state,
            final(out)@ == old(out)@ + old(self)@.discard_drag(d@).acts,
    {
        let ghost s0 = self@;
        let ghost out0 = out@;
        let ghost items = staged_view(d.done@);
        // items that had finished into staging are gone with it
        let mut i: usize = 0;
        assert(lost_items(items.take(0)) =~= Seq::<Act>::empty());
        while i < d.done.len()
            invariant
                i <= d.done@.len(),
                items == staged_view(d.done@),
                out@ == out0 + lost_items(items.take(i as int)),
            decreases d.done@.len() - i,
        {
            let row = d.done[i].status(TransferState::Failed, "drag cancelled".to_owned());
            out.report(row);
            assert(lost_items(items.take(i + 1)) =~= lost_items(items.take(i as int)).push(
                Act::Report(
                    Event::Transfer(
                        items[i as int].row(TransferState::Failed, "drag cancelled"@),
                    ),
                ),
            ));
            i = i + 1;
        }
        assert(items.take(i as int) =~= items);
        // in-flight files offered directly to the drag
        drop_files(&mut self.recv, &d.outstanding, out);
        let ghost direct = self.recv@;
        let ghost out1 = out@;
        assert(out1 =~= out0 + (lost_items(items) + discards(s0.recv, d.outstanding@)));
        // folders inside the drag, and their in-flight files
        let ghost folders = self.trees@;
        let mut k: usize = 0;
        assert(folders.take(0) =~= Seq::<(u64, Folder)>::empty());
        while k < self.trees.entries.len()
            invariant
                k <= self.trees.entries@.len(),
                folders == self.trees@,
                self@ == (Incoming {
                    recv: forsaken(direct, folders.take(k as int), d.drag),
                    ..s0
                }),
                folders == s0.trees,
                out@ == out1 + forsaking(direct, folders.take(k as int), d.drag),
            decreases self.trees.entries@.len() - k,
        {
            proof {
                assert(folders.len() == self.trees.entries@.len());
                assert(folders.take(k + 1).drop_last() =~= folders.take(k as int));
                assert(folders.take(k + 1).last() == folders[k as int]);
                assert(folders[k as int].1 == self.trees.entries@[k as int].1@);
            }
            if is_opt(self.trees.entries[k].1.drag, d.drag) {
                let ghost mid = out@;
                let ghost held = self.recv@;
                drop_files(&mut self.recv, &self.trees.entries[k].1.outstanding, out);
                let t = &self.trees.entries[k].1;
                let row = t.status(
                    t.done_bytes,
                    TransferState::Failed,
                    Some("drag cancelled".to_owned()),
                );
                out.report(row);
            }
            k = k + 1;
        }
        assert(folders.take(k as int) =~= folders);
        proof {
            assert(folders.len() == self.trees.entries@.len());
        }
        self.drop_folders_of(d.drag);
        out.remove_tree(&d.dir);
        assert(out@ =~= out0 + s0.discard_drag(d@).acts);
    }

    /// Forget the folders that belong to `drag`.
    fn drop_folders_of(&mut self, drag: u64)
        ensures
            final(self)@ == (Incoming {
                trees: old(self)@.trees.filter(outside(drag)),
                ..old(self)@
            }),
    {
        let ghost s0 = self@;
        let ghost all = self.trees@;
        let ghost keep = outside(drag);
        let mut i: usize = self.trees.entries.len();
        proof {
            assert(all.take(all.len() as int) =~= all);
            assert(all.skip(all.len() as int) =~= Seq::<(u64, Folder)>::empty());
            reveal(Seq::filter);
            assert(all =~= all.take(i as int) + all.skip(i as int).filter(keep));
        }
        while i > 0
            invariant
                i <= self.trees.entries@.len(),
                i <= all.len(),
                keep == outside(drag),
                all == s0.trees,
                self@ == (Incoming { trees: self.trees@, ..s0 }),
                self.trees@ == all.take(i as int) + all.skip(i as int).filter(keep),
            decreases i,
        {
            let ghost now = self.trees.entries@;
            i = i - 1;
            proof {
                filter_front(all.skip(i as int), keep);
                assert(all.skip(i as int).drop_first() =~= all.skip(i + 1));
                assert(self.trees@[i as int] == all[i as int]);
                assert(all.take(i + 1) =~= all.take(i as int).push(all[i as int]));
            }
            if is_opt(self.trees.entries[i].1.drag, drag) {
                let _gone = self.trees.entries.remove(i);
                assert(self.trees@ =~= entries_view(now).remove(i as int));
                assert(self.trees@ =~= all.take(i as int) + all.skip(i + 1).filter(keep));
            } else {
                assert(self.trees@ =~= all.take(i as int) + all.skip(i as int).filter(keep));
            }
        }
        proof {
            assert(all.skip(0) =~= all);
            assert(all.take(0) =~= Seq::<(u64, Folder)>::empty());
            assert(self.trees@ =~= all.filter(keep));
        }
    }
}

impl Inbox {
    /* ---- offers ---- */

    fn settle_refusal(
        &mut self,
        drag: Option<u64>,
        tree: Option<u64>,
        rel: &str,
        out: &mut Effects,
    )
        ensures
            final(self)@ == old(self)@.settle_refusal(drag, tree, rel@).state,
            final(out)@ == old(out)@ + old(self)@.settle_refusal(drag, tree, rel@).acts,
    {
        if let Some(tree) = tree {
            let i: usize = self.trees.find(tree);
            if i < self.trees.entries.len() {
                let reason = concat2("could not receive ", rel);
                self.trees.row_mut(i).fail(reason);
            }
        } else if drag.is_some() {
            // a rejected offer has settled; the drop may now be complete
            self.try_finalize_drag(out);
        }
    }

    fn refuse_offer(
        &mut self,
        id: u64,
        offered: &str,
        size: u64,
        drag: Option<u64>,
        tree: Option<u64>,
        rel: &str,
        reason: String,
        out: &mut Effects,
    )
        ensures
            final(self)@ == old(self)@.refuse_offer(
                id,
                offered@,
                size,
                drag,
                tree,
                rel@,
                reason@,
            ).state,
            final(out)@ == old(out)@ + old(self)@.refuse_offer(
                id,
                offered@,
                size,
                drag,
                tree,
                rel@,
                reason@,
            ).acts,
    {
        let ghost out0 = out@;
        if tree.is_none() {
            let row = status(
                id,
                offered,
                Direction::Received,
                0,
                size,
                TransferState::Failed,
                Some(reason.clone()),
            );
            out.report(row);
        }
        out.send(SyncMessage::FileReject { id, reason });
        let ghost mid = out@;
        assert(mid =~= out0 + own_row(
            tree,
            file_report(id, offered@, 0, size, TransferState::Failed, Some(reason@)),
        ).push(Act::Send(Msg::FileReject { id, reason: reason@ })));
        self.settle_refusal(drag, tree, rel, out);
    }

    /// Accept (or reject) an incoming file offer into `dir`, replying to the
    /// peer and, for standalone files and drag files, reporting it.
    fn accept_offer(
        &mut self,
        dir: &Location,
        id: u64,
        offered: &str,
        size: u64,
        drag: Option<u64>,
        tree: Option<u64>,
        rel: &str,
        out: &mut Effects,
    )
        ensures
            final(self)@ == old(self)@.accept_offer(
                dir@,
                id,
                offered@,
                size,
                drag,
                tree,
                rel@,
            ).state,
            final(out)@ == old(out)@ + old(self)@.accept_offer(
                dir@,
                id,
                offered@,
                size,
                drag,
                tree,
                rel@,
            ).acts,
    {
        // reject a reused id rather than orphaning the in-flight transfer's
        // part file
        if self.recv.contains(id) {
            let ghost out0 = out@;
            let reason = "transfer id already in use".to_owned();
            out.send(SyncMessage::FileReject { id, reason });
            assert(out@ =~= out0 + seq![
                Act::Send(Msg::FileReject { id, reason: "transfer id already in use"@ }),
            ]);
            self.settle_refusal(drag, tree, rel, out);
            return;
        }
        match sanitize_name(offered) {
            None => {
                let reason = "invalid file name".to_owned();
                self.refuse_offer(id, offered, size, drag, tree, rel, reason, out);
            },
            Some(name) => {
                let d = dir.copied();
                let n = name.clone();
                self.waiting = Waiting::Part {
                    id,
                    offered: offered.to_owned(),
                    name,
                    size,
                    drag,
                    tree,
                    rel: rel.to_owned(),
                };
                out.push(Effect::Do(Task::OpenPart { id, dir: d, name: n }));
            },
        }
    }

    /* ---- folders ---- */

    fn tree_offer(
        &mut self,
        tree: u64,
        name: String,
        files: u32,
        bytes: u64,
        drag: Option<u64>,
        now: u64,
        out: &mut Effects,
    )
        ensures
            final(self)@ == old(self)@.on_tree_offer(tree, name@, files, bytes, drag, now).state,
            final(out)@ == old(out)@ + old(self)@.on_tree_offer(
                tree,
                name@,
                files,
                bytes,
                drag,
                now,
            ).acts,
    {
        if self.trees.contains(tree) {
            return;
        }
        // Where the folder stages: inside the drag's staging dir when it is
        // part of a drag (the drag owns cleanup), else in its own dir.
        let parent: Location;
        let staging: Option<Location>;
        if let Some(d) = drag {
            if !self.is_dragging(d) {
                let t = refused_tree(
                    tree,
                    name.as_str(),
                    files,
                    bytes,
                    drag,
                    "no drag in progress",
                    now,
                );
                self.trees.put(tree, t);
                return;
            }
            match &mut self.drag {
                Some(inc) => {
                    inc.count_offer();
                    add_id(&mut inc.outstanding, tree);
                    parent = inc.dir.copied();
                },
                None => {
                    parent = Location::nowhere();
                },
            }
            staging = None;
        } else {
            parent = self.file_dir.join(tree_staging_name(tree).as_str());
            staging = Some(parent.copied());
        }
        match sanitize_name(name.as_str()) {
            None => {
                let t = refused_tree(
                    tree,
                    name.as_str(),
                    files,
                    bytes,
                    drag,
                    "invalid folder name",
                    now,
                );
                self.trees.put(tree, t);
                let row = tree_status(
                    tree,
                    name.as_str(),
                    files,
                    Direction::Received,
                    0,
                    bytes,
                    TransferState::Failed,
                    Some("invalid folder name".to_owned()),
                );
                out.report(row);
            },
            Some(safe) => {
                let n = safe.clone();
                self.waiting = Waiting::Root { tree, name: safe, staging, drag, files, bytes };
                out.push(Effect::Do(Task::MakeRoot { parent, name: n }));
            },
        }
    }

    fn tree_dir(&mut self, tree: u64, rel: String, out: &mut Effects)
        requires
            old(self)@.wf(),
        ensures
            final(self)@ == old(self)@.on_tree_dir(tree, rel@).state,
            final(out)@ == old(out)@ + old(self)@.on_tree_dir(tree, rel@).acts,
    {
        let i: usize = self.trees.find(tree);
        if i >= self.trees.entries.len() {
            return;
        }
        let row = self.trees.row_mut(i);
        if row.failed.is_some() {
            return;
        }
        row.entries = row.entries + 1;
        if row.entries > MAX_TREE_ENTRIES {
            row.fail("folder has too many entries".to_owned());
            return;
        }
        match sanitize_rel_path(rel.as_str()) {
            None => {
                let reason = concat2("invalid path inside folder: ", rel.as_str());
                row.fail(reason);
            },
            Some(names) => {
                let path = row.root.follow(&names, names.len());
                assert(texts(names@).take(names@.len() as int) =~= texts(names@));
                self.waiting = Waiting::TreeDir { tree };
                out.push(Effect::Do(Task::MakeDir(path)));
            },
        }
    }

    fn tree_file(&mut self, tree: u64, id: u64, rel: String, size: u64, out: &mut Effects)
        requires
            old(self)@.wf(),
        ensures
            final(self)@ == old(self)@.on_tree_file(tree, id, rel@, size).state,
            final(out)@ == old(out)@ + old(self)@.on_tree_file(tree, id, rel@, size).acts,
    {
        let i: usize = self.trees.find(tree);
        if i >= self.trees.entries.len() {
            let reason = "no such folder transfer".to_owned();
            out.send(SyncMessage::FileReject { id, reason });
            return;
        }
        let row = self.trees.row_mut(i);
        if let Some(failure) = &row.failed {
            let reason = concat2("folder transfer failed: ", failure.as_str());
            out.send(SyncMessage::FileReject { id, reason });
            return;
        }
        row.entries = row.entries + 1;
        if row.entries > MAX_TREE_ENTRIES {
            row.fail("folder has too many entries".to_owned());
            let reason = "folder has too many entries".to_owned();
            out.send(SyncMessage::FileReject { id, reason });
            return;
        }
        match sanitize_rel_path(rel.as_str()) {
            None => {
                let reason = concat2("invalid path inside folder: ", rel.as_str());
                row.fail(reason.clone());
                out.send(SyncMessage::FileReject { id, reason });
            },
            Some(names) => {
                proof {
                    accepted_paths_stay_inside(rel@);
                    assert(texts(names@).len() == names@.len());
                }
                let last: usize = names.len() - 1;
                let dir = row.root.follow(&names, last);
                assert(texts(names@).take(last as int) =~= texts(names@).drop_last());
                let drag = row.drag;
                self.accept_offer(
                    &dir,
                    id,
                    names[last].as_str(),
                    size,
                    drag,
                    Some(tree),
                    rel.as_str(),
                    out,
                );
            },
        }
    }

    fn try_finalize_tree(&mut self, tree: u64, out: &mut Effects)
        ensures
            final(self)@ == old(self)@.finalize_tree(tree).state,
            final(out)@ == old(out)@ + old(self)@.finalize_tree(tree).acts,
    {
        let i: usize = self.trees.find(tree);
        if i >= self.trees.entries.len() || !self.trees.entries[i].1.settled() {
            return;
        }
        let ghost out0 = out@;
        if let Some(t) = self.trees.take(tree) {
            if let Some(reason) = &t.failed {
                drop_dirs(&t, out);
                let row = t.status(t.done_bytes, TransferState::Failed, Some(reason.clone()));
                out.report(row);
                let ghost gone = folder_dirs(t@).push(
                    Act::Report(
                        Event::Transfer(
                            t@.row(t.done_bytes, TransferState::Failed, Some(reason@)),
                        ),
                    ),
                );
                assert(out@ =~= out0 + gone);
                if let Some(drag) = t.drag {
                    if self.is_dragging(drag) {
                        if let Some(inc) = &mut self.drag {
                            drop_id(&mut inc.outstanding, tree);
                        }
                        self.try_finalize_drag(out);
                    }
                }
                return;
            }
            if let Some(drag) = t.drag {
                // inside a drag: stays staged until the drop
                let row = t.status(t.total, TransferState::Done, Some(t.shown.clone()));
                out.report(row);
                if self.is_dragging(drag) {
                    if let Some(inc) = &mut self.drag {
                        drop_id(&mut inc.outstanding, tree);
                        inc.stage(
                            StagedItem {
                                id: tree,
                                name: t.name.clone(),
                                kind: TransferKind::Folder,
                                files: t.files,
                                size: t.total,
                                path: t.root.copied(),
                            },
                        );
                    }
                    self.try_finalize_drag(out);
                } else {
                    // the drag is gone; nothing will move it, so drop it
                    out.remove_tree(&t.root);
                }
            } else {
                let ensured = self.file_dir.copied();
                out.push(Effect::EnsureDir(ensured));
                let from = t.root.copied();
                let dir = self.file_dir.copied();
                let name = t.name.clone();
                self.waiting = Waiting::Placing { folder: t };
                out.push(Effect::Do(Task::PlaceFolder { from, dir, name }));
            }
        }
    }

    /* ---- the stream of one file ---- */

    fn settle_failure(&mut self, id: u64, t: &RecvTransfer, reason: &str, out: &mut Effects)
        ensures
            final(self)@ == old(self)@.settle_failure(id, t@, reason@).state,
            final(out)@ == old(out)@ + old(self)@.settle_failure(id, t@, reason@).acts,
    {
        if let Some(tree) = t.tree {
            let i: usize = self.trees.find(tree);
            if i < self.trees.entries.len() {
                let why = concat3(t.name.as_str(), ": ", reason);
                let row = self.trees.row_mut(i);
                drop_id(&mut row.outstanding, id);
                row.fail(why);
                self.try_finalize_tree(tree, out);
            }
        } else if let Some(drag) = t.drag {
            if self.is_dragging(drag) {
                if let Some(inc) = &mut self.drag {
                    drop_id(&mut inc.outstanding, id);
                }
                self.try_finalize_drag(out);
            }
        }
    }

    fn chunk_failed(&mut self, id: u64, received: u64, reason: String, out: &mut Effects)
        requires
            has_key(old(self)@.recv, id),
        ensures
            final(self)@ == old(self)@.chunk_failed(id, received, reason@).state,
            final(out)@ == old(out)@ + old(self)@.chunk_failed(id, received, reason@).acts,
    {
        let ghost out0 = out@;
        if let Some(t) = self.recv.take(id) {
            if t.tree.is_none() {
                let row = status(
                    id,
                    t.name.as_str(),
                    Direction::Received,
                    received,
                    t.size,
                    TransferState::Failed,
                    Some(reason.clone()),
                );
                out.report(row);
            }
            let why = reason.clone();
            out.send(SyncMessage::FileCancel { id, reason: why });
            out.discard(id, &t.part_path);
            assert(out@ =~= out0 + (own_row(
                t.tree,
                file_report(id, t.name@, received, t.size, TransferState::Failed, Some(reason@)),
            ) + seq![
                Act::Send(Msg::FileCancel { id, reason: reason@ }),
                Act::Discard { id, part: t.part_path@ },
            ]));
            self.settle_failure(id, &t, reason.as_str(), out);
        }
    }

    fn chunk(&mut self, id: u64, offset: u64, data: Vec<u8>, out: &mut Effects)
        requires
            old(self)@.wf(),
        ensures
            final(self)@ == old(self)@.on_chunk(id, offset, data@).state,
            final(out)@ == old(out)@ + old(self)@.on_chunk(id, offset, data@).acts,
    {
        let i: usize = self.recv.find(id);
        if i >= self.recv.entries.len() {
            return;
        }
        // Bound the write by the offered size and per-chunk size: without
        // this a peer could stream unbounded chunks (or a huge single frame)
        // and fill the receiver's disk.
        let received: u64 = self.recv.entries[i].1.received;
        let size: u64 = self.recv.entries[i].1.size;
        if data.len() > CHUNK_SIZE || data.len() as u64 > size - received {
            let reason = "transfer exceeds offered size".to_owned();
            self.chunk_failed(id, received, reason, out);
        } else if offset != received {
            let reason = "chunks out of order".to_owned();
            self.chunk_failed(id, received, reason, out);
        } else {
            let row = self.recv.row_mut(i);
            hasher_update(&mut row.hasher, &data);
            row.received = received + data.len() as u64;
            self.waiting = Waiting::Chunk { id, len: data.len() as u64 };
            out.push(Effect::Do(Task::Write { id, data }));
        }
    }

    /// Report progress, if that is due.
    fn progress(&mut self, id: u64, now: u64, out: &mut Effects)
        requires
            has_key(old(self)@.recv, id),
        ensures
            final(self)@ == old(self)@.progress(id, now).state,
            final(out)@ == old(out)@ + old(self)@.progress(id, now).acts,
    {
        let i: usize = self.recv.find(id);
        if let Some(tree) = self.recv.entries[i].1.tree {
            let k: usize = self.trees.find(tree);
            if k < self.trees.entries.len() {
                if self.trees.row_mut(k).progress_due(now) {
                    let t = &self.trees.entries[k].1;
                    let sum: u64 = self.transferred(t);
                    let row = t.status(sum, TransferState::Active, None);
                    out.report(row);
                }
            }
        } else if self.recv.row_mut(i).progress_due(now) {
            let t = &self.recv.entries[i].1;
            let row = status(
                id,
                t.name.as_str(),
                Direction::Received,
                t.received,
                t.size,
                TransferState::Active,
                None,
            );
            out.report(row);
        }
    }

    /// Bytes of a folder's finished files, and of those in flight.
    fn transferred(&self, t: &IncomingTree) -> (r: u64)
        ensures
            r == capped(t@.done_bytes as int, inflight(self@.recv, t@.outstanding) as int),
    {
        let mut sum: u64 = t.done_bytes;
        let mut i: usize = 0;
        let ghost ids = t.outstanding@;
        assert(ids.take(0) =~= Seq::<u64>::empty());
        while i < t.outstanding.len()
            invariant
                i <= t.outstanding@.len(),
                ids == t.outstanding@,
                sum == capped(
                    t.done_bytes as int,
                    inflight(self@.recv, ids.take(i as int)) as int,
                ),
            decreases t.outstanding@.len() - i,
        {
            proof {
                assert(ids.take(i + 1).drop_last() =~= ids.take(i as int));
                assert(ids.take(i + 1).last() == ids[i as int]);
            }
            let k: usize = self.recv.find(t.outstanding[i]);
            if k < self.recv.entries.len() {
                let more: u64 = self.recv.entries[k].1.received;
                if more <= u64::MAX - sum {
                    sum = sum + more;
                } else {
                    sum = u64::MAX;
                }
            }
            i = i + 1;
        }
        assert(ids.take(i as int) =~= ids);
        sum
    }

    fn not_finished(
        &mut self,
        id: u64,
        name: &str,
        size: u64,
        drag: Option<u64>,
        tree: Option<u64>,
        reason: String,
        out: &mut Effects,
    )
        ensures
            final(self)@ == old(self)@.not_finished(id, name@, size, drag, tree, reason@).state,
            final(out)@ == old(out)@ + old(self)@.not_finished(
                id,
                name@,
                size,
                drag,
                tree,
                reason@,
            ).acts,
    {
        let ghost out0 = out@;
        let ghost row_of = own_row(
            tree,
            file_report(id, name@, size, size, TransferState::Failed, Some(reason@)),
        );
        if let Some(tree) = tree {
            assert(out@ =~= out0 + row_of);
            let i: usize = self.trees.find(tree);
            if i < self.trees.entries.len() {
                let why = concat3(name, ": ", reason.as_str());
                let row = self.trees.row_mut(i);
                drop_id(&mut row.outstanding, id);
                row.fail(why);
                self.try_finalize_tree(tree, out);
            }
        } else {
            let row = status(
                id,
                name,
                Direction::Received,
                size,
                size,
                TransferState::Failed,
                Some(reason),
            );
            out.report(row);
            assert(out@ =~= out0 + row_of);
            if let Some(drag) = drag {
                if self.is_dragging(drag) {
                    if let Some(inc) = &mut self.drag {
                        drop_id(&mut inc.outstanding, id);
                    }
                    self.try_finalize_drag(out);
                }
            }
        }
    }

    fn done(&mut self, id: u64, hash: [u8; 32], out: &mut Effects)
        ensures
            final(self)@ == old(self)@.on_done(id, hash@).state,
            final(out)@ == old(out)@ + old(self)@.on_done(id, hash@).acts,
    {
        let ghost out0 = out@;
        if let Some(t) = self.recv.take(id) {
            let actual = hasher_finish(&t.hasher);
            if !same_digest(&actual, &hash) {
                out.discard(id, &t.part_path);
                assert(out@ =~= out0 + seq![Act::Discard { id, part: t.part_path@ }]);
                let reason = "integrity check failed (sha256 mismatch)".to_owned();
                self.not_finished(id, t.name.as_str(), t.size, t.drag, t.tree, reason, out);
            } else if t.received != t.size {
                out.discard(id, &t.part_path);
                assert(out@ =~= out0 + seq![Act::Discard { id, part: t.part_path@ }]);
                let reason = incomplete_text(t.received, t.size);
                self.not_finished(id, t.name.as_str(), t.size, t.drag, t.tree, reason, out);
            } else {
                let durable = t.tree.is_none();
                let to = t.final_path.copied();
                self.waiting = Waiting::Rename {
                    id,
                    name: t.name,
                    size: t.size,
                    target: t.final_path,
                    drag: t.drag,
                    tree: t.tree,
                };
                out.push(Effect::Do(Task::Commit { id, from: t.part_path, to, durable }));
            }
        }
    }

    fn cancel(&mut self, id: u64, reason: String, out: &mut Effects)
        ensures
            final(self)@ == old(self)@.on_cancel(id, reason@).state,
            final(out)@ == old(out)@ + old(self)@.on_cancel(id, reason@).acts,
    {
        let ghost out0 = out@;
        if let Some(t) = self.recv.take(id) {
            if t.tree.is_none() {
                let row = status(
                    id,
                    t.name.as_str(),
                    Direction::Received,
                    t.received,
                    t.size,
                    TransferState::Failed,
                    Some(reason.clone()),
                );
                out.report(row);
            }
            out.discard(id, &t.part_path);
            assert(out@ =~= out0 + own_row(
                t.tree,
                file_report(id, t.name@, t.received, t.size, TransferState::Failed, Some(reason@)),
            ).push(Act::Discard { id, part: t.part_path@ }));
            self.settle_failure(id, &t, reason.as_str(), out);
        }
    }
}

impl Inbox {
    /// A message from the peer. Messages that are not about incoming
    /// transfers are ignored.
    pub fn handle(&mut self, msg: SyncMessage, now: u64) -> (r: Effects)
        requires
            old(self)@.wf(),
            old(self)@.waiting is Nothing,
        ensures
            final(self)@ == old(self)@.on_message(msg@, now).state,
            r@ == old(self)@.on_message(msg@, now).acts,
            final(self)@.wf(),
    {
        let ghost s0 = self@;
        let ghost m = msg@;
        let mut out = Effects::new();
        match msg {
            SyncMessage::FileOffer { id, name, size } => {
                let dir = self.file_dir.copied();
                self.accept_offer(&dir, id, name.as_str(), size, None, None, "", &mut out);
            },
            SyncMessage::DragBegin { drag, count } => {
                // a new drag supersedes any staged one that never resolved
                if let Some(d) = self.drag.take() {
                    self.discard_drag(d, &mut out);
                }
                let dir = self.file_dir.join(drag_staging_name(drag).as_str());
                let made = dir.copied();
                self.waiting = Waiting::DragDir { drag, count, dir };
                out.push(Effect::Do(Task::MakeDir(made)));
            },
            SyncMessage::DragOffer { drag, id, name, size } => {
                if self.is_dragging(drag) {
                    let mut dir = Location::nowhere();
                    if let Some(inc) = &mut self.drag {
                        inc.count_offer();
                        dir = inc.dir.copied();
                    }
                    self.accept_offer(
                        &dir,
                        id,
                        name.as_str(),
                        size,
                        Some(drag),
                        None,
                        "",
                        &mut out,
                    );
                } else {
                    let reason = "no drag in progress".to_owned();
                    out.send(SyncMessage::FileReject { id, reason });
                }
            },
            SyncMessage::DragDrop { drag } => {
                if self.is_dragging(drag) {
                    if let Some(inc) = &mut self.drag {
                        inc.drop_requested = true;
                    }
                    self.try_finalize_drag(&mut out);
                }
            },
            SyncMessage::DragCancel { drag } => {
                if self.is_dragging(drag) {
                    if let Some(d) = self.drag.take() {
                        self.discard_drag(d, &mut out);
                    }
                }
            },
            SyncMessage::TreeOffer { tree, name, files, bytes, drag } => {
                self.tree_offer(tree, name, files, bytes, drag, now, &mut out);
            },
            SyncMessage::TreeDir { tree, rel } => self.tree_dir(tree, rel, &mut out),
            SyncMessage::TreeFile { tree, id, rel, size } => {
                self.tree_file(tree, id, rel, size, &mut out)
            },
            SyncMessage::TreeEnd { tree, error } => {
                let i: usize = self.trees.find(tree);
                if i < self.trees.entries.len() {
                    let row = self.trees.row_mut(i);
                    row.ended = true;
                    if let Some(reason) = error {
                        row.fail(concat2("sender: ", reason.as_str()));
                    }
                    self.try_finalize_tree(tree, &mut out);
                }
            },
            SyncMessage::FileChunk { id, offset, data } => self.chunk(id, offset, data, &mut out),
            SyncMessage::FileDone { id, sha256 } => self.done(id, sha256, &mut out),
            SyncMessage::FileCancel { id, reason } => self.cancel(id, reason, &mut out),
            _ => (),
        }
        assert(out@ =~= s0.on_message(m, now).acts);
        proof {
            messages_keep_it_well_formed(s0, m, now);
        }
        out
    }

    /// The outcome of [`Task::MakeDir`].
    pub fn dir_made(&mut self, result: Result<(), IoFailure>)
        requires
            old(self)@.wf(),
            old(self)@.waiting is DragDir || old(self)@.waiting is TreeDir,
        ensures
            final(self)@ == old(self)@.on_dir_made(failure_text(result)),
            final(self)@.wf(),
    {
        let ghost s0 = self@;
        let waiting = self.stop_waiting();
        match waiting {
            Waiting::DragDir { drag, count, dir } => {
                if result.is_ok() {
                    let done: Vec<StagedItem> = Vec::new();
                    assert(staged_view(done@) =~= Seq::<Staged>::empty());
                    self.drag = Some(
                        IncomingDrag {
                            drag,
                            dir,
                            expected: count,
                            offered: 0,
                            outstanding: Vec::new(),
                            done,
                            drop_requested: false,
                        },
                    );
                }
            },
            Waiting::TreeDir { tree } => {
                if let Err(f) = result {
                    let i: usize = self.trees.find(tree);
                    if i < self.trees.entries.len() {
                        self.trees.row_mut(i).fail(created_failed(&f));
                    }
                }
            },
            _ => (),
        }
        proof {
            made_dirs_keep_it_well_formed(s0, failure_text(result));
        }
    }

    /// The outcome of [`Task::OpenPart`]: where the file will stand, and
    /// where its part file stands until then.
    pub fn part_opened(&mut self, result: Result<(Location, Location), IoFailure>, now: u64) -> (r:
        Effects)
        requires
            old(self)@.wf(),
            old(self)@.waiting is Part,
        ensures
            final(self)@ == old(self)@.on_part_opened(opened_places(result), now).state,
            r@ == old(self)@.on_part_opened(opened_places(result), now).acts,
            final(self)@.wf(),
    {
        let ghost s0 = self@;
        let mut out = Effects::new();
        let waiting = self.stop_waiting();
        if let Waiting::Part { id, offered, name, size, drag, tree, rel } = waiting {
            match result {
                Err(f) => {
                    let reason = created_failed(&f);
                    self.refuse_offer(
                        id,
                        offered.as_str(),
                        size,
                        drag,
                        tree,
                        rel.as_str(),
                        reason,
                        &mut out,
                    );
                },
                Ok((target, part)) => {
                    if tree.is_none() {
                        let row = status(
                            id,
                            name.as_str(),
                            Direction::Received,
                            0,
                            size,
                            TransferState::Active,
                            None,
                        );
                        out.report(row);
                    }
                    let hasher = hasher_new();
                    self.recv.put(
                        id,
                        RecvTransfer {
                            name,
                            size,
                            received: 0,
                            part_path: part,
                            final_path: target,
                            hasher,
                            last_progress: now,
                            drag,
                            tree,
                        },
                    );
                    out.send(SyncMessage::FileAccept { id });
                    if let Some(tree) = tree {
                        let i: usize = self.trees.find(tree);
                        if i < self.trees.entries.len() {
                            let row = self.trees.row_mut(i);
                            add_id(&mut row.outstanding, id);
                        }
                    } else if drag.is_some() {
                        if let Some(inc) = &mut self.drag {
                            add_id(&mut inc.outstanding, id);
                        }
                    }
                },
            }
        }
        assert(out@ =~= s0.on_part_opened(opened_places(result), now).acts);
        proof {
            opened_parts_keep_it_well_formed(s0, opened_places(result), now);
        }
        out
    }

    /// The outcome of [`Task::MakeRoot`].
    pub fn root_made(&mut self, result: RootMade, now: u64) -> (r: Effects)
        requires
            old(self)@.wf(),
            old(self)@.waiting is Root,
        ensures
            final(self)@ == old(self)@.on_root_made(root_places(result), now).state,
            r@ == old(self)@.on_root_made(root_places(result), now).acts,
            final(self)@.wf(),
    {
        let ghost s0 = self@;
        let mut out = Effects::new();
        let waiting = self.stop_waiting();
        if let Waiting::Root { tree, name, staging, drag, files, bytes } = waiting {
            match result {
                RootMade::NoParent(f) => {
                    let reason = created_failed(&f);
                    let t = refused_tree(
                        tree,
                        name.as_str(),
                        files,
                        bytes,
                        drag,
                        reason.as_str(),
                        now,
                    );
                    let row = t.status(0, TransferState::Failed, Some(reason));
                    out.report(row);
                    self.trees.put(tree, t);
                },
                RootMade::Chosen { root, shown, failure } => {
                    let failed = match failure {
                        Some(cause) => {
                            let f = IoFailure { at: shown.clone(), cause };
                            Some(created_failed(&f))
                        },
                        None => None,
                    };
                    let t = IncomingTree {
                        tree,
                        name,
                        root,
                        shown,
                        staging,
                        drag,
                        files,
                        total: bytes,
                        done_bytes: 0,
                        outstanding: Vec::new(),
                        entries: 0,
                        ended: false,
                        failed,
                        last_progress: now,
                    };
                    let row = t.status(0, TransferState::Active, None);
                    out.report(row);
                    self.trees.put(tree, t);
                },
            }
        }
        assert(out@ =~= s0.on_root_made(root_places(result), now).acts);
        proof {
            made_roots_keep_it_well_formed(s0, root_places(result), now);
        }
        out
    }

    /// The outcome of [`Task::Write`]: nothing, or why it failed.
    pub fn chunk_written(&mut self, result: Result<(), String>, now: u64) -> (r: Effects)
        requires
            old(self)@.wf(),
            old(self)@.waiting is Chunk,
        ensures
            final(self)@ == old(self)@.on_chunk_written(error_text(result), now).state,
            r@ == old(self)@.on_chunk_written(error_text(result), now).acts,
            final(self)@.wf(),
    {
        let ghost s0 = self@;
        let mut out = Effects::new();
        let waiting = self.stop_waiting();
        if let Waiting::Chunk { id, len } = waiting {
            match result {
                Ok(()) => self.progress(id, now, &mut out),
                Err(e) => {
                    let i: usize = self.recv.find(id);
                    let received: u64 = self.recv.entries[i].1.received - len;
                    let reason = concat2("write failed: ", e.as_str());
                    self.chunk_failed(id, received, reason, &mut out);
                },
            }
        }
        assert(out@ =~= s0.on_chunk_written(error_text(result), now).acts);
        proof {
            written_chunks_keep_it_well_formed(s0, error_text(result), now);
        }
        out
    }

    /// The outcome of [`Task::Commit`]: the final path as the host words it.
    pub fn committed(&mut self, result: Result<String, IoFailure>) -> (r: Effects)
        requires
            old(self)@.wf(),
            old(self)@.waiting is Rename,
        ensures
            final(self)@ == old(self)@.on_committed(placed_text(result)).state,
            r@ == old(self)@.on_committed(placed_text(result)).acts,
            final(self)@.wf(),
    {
        let ghost s0 = self@;
        let mut out = Effects::new();
        let waiting = self.stop_waiting();
        if let Waiting::Rename { id, name, size, target, drag, tree } = waiting {
            match result {
                Err(f) => {
                    let head = concat3("cannot rename to ", f.at.as_str(), ": ");
                    let reason = concat2(head.as_str(), f.cause.as_str());
                    self.not_finished(id, name.as_str(), size, drag, tree, reason, &mut out);
                },
                Ok(path) => {
                    let ghost row_of = own_row(
                        tree,
                        file_report(id, name@, size, size, TransferState::Done, Some(path@)),
                    );
                    if let Some(tree) = tree {
                        assert(out@ =~= row_of);
                        // a file inside a folder settled
                        let i: usize = self.trees.find(tree);
                        if i < self.trees.entries.len() {
                            let row = self.trees.row_mut(i);
                            drop_id(&mut row.outstanding, id);
                            if size <= u64::MAX - row.done_bytes {
                                row.done_bytes = row.done_bytes + size;
                            } else {
                                row.done_bytes = u64::MAX;
                            }
                            self.try_finalize_tree(tree, &mut out);
                        }
                    } else {
                        let row = status(
                            id,
                            name.as_str(),
                            Direction::Received,
                            size,
                            size,
                            TransferState::Done,
                            Some(path),
                        );
                        out.report(row);
                        assert(out@ =~= row_of);
                        // a staged drag file settled
                        if let Some(drag) = drag {
                            if self.is_dragging(drag) {
                                if let Some(inc) = &mut self.drag {
                                    drop_id(&mut inc.outstanding, id);
                                    inc.stage(
                                        StagedItem {
                                            id,
                                            name,
                                            kind: TransferKind::File,
                                            files: 0,
                                            size,
                                            path: target,
                                        },
                                    );
                                }
                                self.try_finalize_drag(&mut out);
                            }
                        }
                    }
                },
            }
        }
        assert(out@ =~= s0.on_committed(placed_text(result)).acts);
        proof {
            commits_keep_it_well_formed(s0, placed_text(result));
        }
        out
    }

    /// The outcome of [`Task::PlaceFolder`]: the place as the host words it.
    pub fn folder_placed(&mut self, result: Result<String, IoFailure>) -> (r: Effects)
        requires
            old(self)@.wf(),
            old(self)@.waiting is Placing,
        ensures
            final(self)@ == old(self)@.on_folder_placed(placed_text(result)).state,
            r@ == old(self)@.on_folder_placed(placed_text(result)).acts,
            final(self)@.wf(),
    {
        let ghost s0 = self@;
        let mut out = Effects::new();
        let waiting = self.stop_waiting();
        if let Waiting::Placing { folder: t } = waiting {
            if let Some(staging) = &t.staging {
                out.remove_tree(staging);
            }
            match result {
                Ok(path) => {
                    let row = t.status(t.total, TransferState::Done, Some(path));
                    out.report(row);
                },
                Err(f) => {
                    out.remove_tree(&t.root);
                    let head = concat3("cannot place folder at ", f.at.as_str(), ": ");
                    let reason = concat2(head.as_str(), f.cause.as_str());
                    let row = t.status(t.done_bytes, TransferState::Failed, Some(reason));
                    out.report(row);
                },
            }
        }
        assert(out@ =~= s0.on_folder_placed(placed_text(result)).acts);
        out
    }

    /// The outcome of [`Task::PlaceItem`]: the place as the host words it.
    pub fn item_placed(&mut self, result: Result<String, IoFailure>) -> (r: Effects)
        requires
            old(self)@.wf(),
            old(self)@.waiting is Dropping,
        ensures
            final(self)@ == old(self)@.on_item_placed(placed_text(result)).state,
            r@ == old(self)@.on_item_placed(placed_text(result)).acts,
            final(self)@.wf(),
    {
        let ghost s0 = self@;
        let mut out = Effects::new();
        let waiting = self.stop_waiting();
        if let Waiting::Dropping { drag, dest, next, mut placed } = waiting {
            let ghost placed0 = placed@;
            assert(next < drag.done.len());
            if let Ok(path) = result {
                // the row's "Show" should point at where it ended up
                let row = drag.done[next].status(TransferState::Done, path.clone());
                out.report(row);
                placed.push(path);
                assert(texts(placed@) =~= texts(placed0).push(path@));
            }
            self.place_next(drag, dest, next + 1, placed, &mut out);
        }
        assert(out@ =~= s0.on_item_placed(placed_text(result)).acts);
        out
    }

    fn stop_waiting(&mut self) -> (r: Waiting)
        ensures
            r == old(self).waiting,
            final(self)@ == old(self)@.awaiting(Wait::Nothing),
    {
        let mut w = Waiting::Nothing;
        std::mem::swap(&mut w, &mut self.waiting);
        w
    }

    /// the connection is gone: nothing in flight can complete
    pub fn close(self) -> (r: Effects)
        ensures
            r@ == self@.closing(),
    {
        let mut out = Effects::new();
        let ghost files = self.recv@;
        let mut i: usize = 0;
        assert(files.take(0) =~= Seq::<(u64, Receiving)>::empty());
        while i < self.recv.entries.len()
            invariant
                i <= self.recv.entries@.len(),
                files == self.recv@,
                out@ == closing_files(files.take(i as int)),
            decreases self.recv.entries@.len() - i,
        {
            proof {
                assert(files.len() == self.recv.entries@.len());
                assert(files.take(i + 1).drop_last() =~= files.take(i as int));
                assert(files.take(i + 1).last() == files[i as int]);
            }
            let ghost mid = out@;
            let id: u64 = self.recv.entries[i].0;
            let t = &self.recv.entries[i].1;
            if t.tree.is_none() {
                let row = status(
                    id,
                    t.name.as_str(),
                    Direction::Received,
                    t.received,
                    t.size,
                    TransferState::Failed,
                    Some("connection closed".to_owned()),
                );
                out.report(row);
            }
            assert(out@ =~= mid + own_row(
                t@.tree,
                file_report(
                    id,
                    t@.name,
                    t@.received,
                    t@.size,
                    TransferState::Failed,
                    Some("connection closed"@),
                ),
            ));
            out.discard(id, &t.part_path);
            i = i + 1;
        }
        assert(files.take(i as int) =~= files);
        let ghost out1 = out@;
        let ghost folders = self.trees@;
        let mut k: usize = 0;
        assert(folders.take(0) =~= Seq::<(u64, Folder)>::empty());
        while k < self.trees.entries.len()
            invariant
                k <= self.trees.entries@.len(),
                folders == self.trees@,
                out@ == out1 + closing_folders(folders.take(k as int)),
            decreases self.trees.entries@.len() - k,
        {
            proof {
                assert(folders.len() == self.trees.entries@.len());
                assert(folders.take(k + 1).drop_last() =~= folders.take(k as int));
                assert(folders.take(k + 1).last() == folders[k as int]);
            }
            let t = &self.trees.entries[k].1;
            drop_dirs(t, &mut out);
            let row = t.status(
                t.done_bytes,
                TransferState::Failed,
                Some("connection closed".to_owned()),
            );
            out.report(row);
            assert(out@ =~= out1 + closing_folders(folders.take(k + 1)));
            k = k + 1;
        }
        assert(folders.take(k as int) =~= folders);
        // a drag can't survive its connection: discard whatever was staged
        if let Some(d) = &self.drag {
            out.remove_tree(&d.dir);
        }
        assert(out@ =~= self@.closing());
        out
    }
}

/// Delete the directories that a folder has on disk.
fn drop_dirs(t: &IncomingTree, out: &mut Effects)
    ensures
        final(out)@ == old(out)@ + folder_dirs(t@),
{
    // (a refused folder never got a root)
    if !t.root.is_nowhere() {
        out.remove_tree(&t.root);
    }
    if let Some(staging) = &t.staging {
        out.remove_tree(staging);
    }
}

fn incomplete_text(received: u64, size: u64) -> (r: String)
    ensures
        r@ == incomplete(received, size),
{
    let a = decimal(received);
    let b = decimal(size);
    let head = concat3("incomplete transfer (", a.as_str(), " of ");
    concat3(head.as_str(), b.as_str(), " bytes)")
}

/// Whether `o` holds `v`.
fn is_opt(o: Option<u64>, v: u64) -> (r: bool)
    ensures
        r == (o == Some(v)),
{
    match o {
        Some(x) => x == v,
        None => false,
    }
}

/// Filtering, from the front.
proof fn filter_front<A>(s: Seq<A>, p: spec_fn(A) -> bool)
    requires
        s.len() > 0,
    ensures
        s.filter(p) == (if p(s[0]) {
            seq![s[0]] + s.drop_first().filter(p)
        } else {
            s.drop_first().filter(p)
        }),
    decreases s.len(),
{
    reveal(Seq::filter);
    if s.len() == 1 {
        assert(s.drop_first() =~= Seq::<A>::empty());
        assert(s.drop_last() =~= Seq::<A>::empty());
    } else {
        filter_front(s.drop_last(), p);
        assert(s.drop_last().drop_first() =~= s.drop_first().drop_last());
        assert(s.drop_first().last() == s.last());
    }
}

} // verus!
