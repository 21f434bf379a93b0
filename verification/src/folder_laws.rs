//! What sender and receiver make of a whole folder together.

use crate::digest::sha256;
use crate::effects::{Act, Job};
use crate::event::capped;
use crate::incoming::{
    commits_keep_it_well_formed, made_dirs_keep_it_well_formed, made_roots_keep_it_well_formed,
    messages_keep_it_well_formed, opened_parts_keep_it_well_formed, Incoming,
};
use crate::ipc::TransferKind;
use crate::names::{
    accepted_paths_stay_inside, components, is_forbidden, is_safe, is_separator, safe_name,
    safe_names_are_kept, safe_paths_are_kept, safe_rel, Place, MAX_REL_BYTES, MAX_TREE_DEPTH,
};
use crate::outgoing::{Announced, Heard, Move, Sending, Stage};
use crate::proto::{Msg, CHUNK_SIZE};
use crate::receive::{Folder, Receiving, Staged, MAX_TREE_ENTRIES};
use crate::send_tree::{FolderSending, TreeMove, TreeStage, TREE_WINDOW};
use crate::table::{
    at, erased, erased_is_gone, has_key, stored, stored_reads_back, with_id, without_id,
};
use crate::transfer_laws::{chunks_keep_them_in_step, in_step, pass_chunk, Instants};
use crate::walk::{paths_follow_the_structure, Entry, EntryKind, Plan, Planned};
use crate::walk_laws::{
    dir_is_there, dir_stands, file_is_there, file_stands, finished_walks_are_complete, is_dir,
    is_file, rel_path, tidy, tidy_listing, walked_for, Names,
};
use vstd::prelude::*;
use vstd::utf8::encode_utf8;

verus! {

/* ------------------------------ the receiver ------------------------------ */

/// The receiver takes what comes for the folder `tree`.
pub open spec fn takes(m: Incoming, tree: u64) -> bool {
    &&& m.wf()
    &&& m.waiting is Nothing
    &&& has_key(m.trees, tree)
    &&& at(m.trees, tree).failed is None
    &&& !at(m.trees, tree).ended
    &&& at(m.trees, tree).drag is Some ==> m.drags(at(m.trees, tree).drag->0)
}

/// Where a path of the sender leads inside the folder: its names, each in
/// its safe form.
pub open spec fn landing(rel: Seq<char>) -> Seq<Seq<char>> {
    safe_rel(rel)->0
}

proof fn landings_are_taken(rel: Seq<char>)
    requires
        safe_rel(rel) is Some,
    ensures
        landing(rel).len() > 0,
        safe_name(landing(rel).last()) == Some(landing(rel).last()),
{
    accepted_paths_stay_inside(rel);
    let names = landing(rel);
    assert(is_safe(names[names.len() - 1]));
    safe_names_are_kept(names.last());
}

proof fn directories_are_made(m: Incoming, tree: u64, rel: Seq<char>, came: u64)
    requires
        takes(m, tree),
        safe_rel(rel) is Some,
        at(m.trees, tree).entries < MAX_TREE_ENTRIES,
    ensures
        ({
            let t = at(m.trees, tree);
            let r = m.on_message(Msg::TreeDir { tree, rel }, came);
            let n = r.state.on_dir_made(None);
            &&& r.acts == seq![Act::Do(Job::MakeDir(t.root.follow(landing(rel))))]
            &&& takes(n, tree)
            &&& n.recv == m.recv
            &&& n.file_dir == m.file_dir
            &&& at(n.trees, tree) == (Folder { entries: (t.entries + 1) as u64, ..t })
        }),
{
    let msg = Msg::TreeDir { tree, rel };
    let t = at(m.trees, tree);
    landings_are_taken(rel);
    messages_keep_it_well_formed(m, msg, came);
    stored_reads_back(m.trees, tree, Folder { entries: (t.entries + 1) as u64, ..t }, tree);
    made_dirs_keep_it_well_formed(m.on_message(msg, came).state, None);
}

proof fn files_are_opened(
    m: Incoming,
    tree: u64,
    id: u64,
    rel: Seq<char>,
    size: u64,
    part: Place,
    came: u64,
    created: u64,
)
    requires
        takes(m, tree),
        safe_rel(rel) is Some,
        at(m.trees, tree).entries < MAX_TREE_ENTRIES,
        !has_key(m.recv, id),
    ensures
        ({
            let t = at(m.trees, tree);
            let names = landing(rel);
            let dir = t.root.follow(names.drop_last());
            let r = m.on_message(Msg::TreeFile { tree, id, rel, size }, came);
            let n = r.state.on_part_opened(Ok((dir.join(names.last()), part)), created).state;
            &&& r.acts == seq![Act::Do(Job::OpenPart { id, dir, name: names.last() })]
            &&& dir.join(names.last()) == t.root.follow(names)
            &&& takes(n, tree)
            &&& n.file_dir == m.file_dir
            &&& at(n.trees, tree) == (Folder {
                entries: (t.entries + 1) as u64,
                outstanding: with_id(t.outstanding, id),
                ..t
            })
            &&& n.recv == stored(
                m.recv,
                id,
                Receiving {
                    name: names.last(),
                    size,
                    received: 0,
                    content: Seq::empty(),
                    part,
                    target: t.root.follow(names),
                    last_progress: created,
                    drag: t.drag,
                    tree: Some(tree),
                },
            )
        }),
{
    let msg = Msg::TreeFile { tree, id, rel, size };
    let t = at(m.trees, tree);
    let t1 = Folder { entries: (t.entries + 1) as u64, ..t };
    let names = landing(rel);
    let dir = t.root.follow(names.drop_last());
    landings_are_taken(rel);
    assert(dir.join(names.last()).parts =~= t.root.follow(names).parts);
    messages_keep_it_well_formed(m, msg, came);
    stored_reads_back(m.trees, tree, t1, tree);
    let r = m.on_message(msg, came).state;
    opened_parts_keep_it_well_formed(r, Ok((dir.join(names.last()), part)), created);
    stored_reads_back(
        r.trees,
        tree,
        Folder { outstanding: with_id(t.outstanding, id), ..t1 },
        tree,
    );
}

proof fn chunks_leave_the_rest(s: Sending, m: Incoming, tree: u64, data: Seq<u8>, t: Instants, other: u64)
    requires
        takes(m, tree),
        s.wf(),
        s.stage == Stage::Reading,
        in_step(s, m),
        at(m.recv, s.id).tree == Some(tree),
        0 < data.len() <= CHUNK_SIZE,
        s.offset + data.len() <= s.size,
    ensures
        ({
            let n = pass_chunk(s, m, data, t).1;
            let f = at(m.trees, tree);
            let g = at(n.trees, tree);
            &&& takes(n, tree)
            &&& n.file_dir == m.file_dir
            &&& g == (Folder { last_progress: g.last_progress, ..f })
            &&& has_key(n.recv, other) == has_key(m.recv, other)
            &&& other != s.id && has_key(m.recv, other) ==> at(n.recv, other) == at(m.recv, other)
            &&& at(n.recv, s.id).part == at(m.recv, s.id).part
            &&& at(n.recv, s.id).target == at(m.recv, s.id).target
            &&& at(n.recv, s.id).tree == Some(tree)
        }),
{
    chunks_keep_them_in_step(s, m, data, t);
    reveal(pass_chunk);
    let f = at(m.recv, s.id);
    let u = Receiving {
        content: f.content + data,
        received: (f.received + data.len()) as u64,
        ..f
    };
    stored_reads_back(m.recv, s.id, u, s.id);
    stored_reads_back(m.recv, s.id, u, other);
    stored_reads_back(
        m.trees,
        tree,
        Folder { last_progress: t.written, ..at(m.trees, tree) },
        tree,
    );
}

proof fn files_are_committed(m: Incoming, tree: u64, id: u64, shown: Seq<char>, came: u64)
    requires
        takes(m, tree),
        has_key(m.recv, id),
        at(m.recv, id).tree == Some(tree),
        at(m.recv, id).received == at(m.recv, id).size,
    ensures
        ({
            let t = at(m.trees, tree);
            let f = at(m.recv, id);
            let r = m.on_message(Msg::FileDone { id, sha256: sha256(f.content) }, came);
            let n = r.state.on_committed(Ok(shown)).state;
            &&& r.acts == seq![
                Act::Do(Job::Commit { id, from: f.part, to: f.target, durable: false }),
            ]
            &&& takes(n, tree)
            &&& n.recv == erased(m.recv, id)
            &&& n.file_dir == m.file_dir
            &&& at(n.trees, tree) == (Folder {
                outstanding: without_id(t.outstanding, id),
                done_bytes: capped(t.done_bytes as int, f.size as int),
                ..t
            })
        }),
{
    let t = at(m.trees, tree);
    let f = at(m.recv, id);
    let msg = Msg::FileDone { id, sha256: sha256(f.content) };
    let r = m.on_message(msg, came).state;
    messages_keep_it_well_formed(m, msg, came);
    commits_keep_it_well_formed(r, Ok(shown));
    stored_reads_back(
        m.trees,
        tree,
        Folder {
            outstanding: without_id(t.outstanding, id),
            done_bytes: capped(t.done_bytes as int, f.size as int),
            ..t
        },
        tree,
    );
}

/// The receiver has `item` ready for its drop, or drops it already.
pub open spec fn staged(m: Incoming, item: Staged) -> bool {
    ||| m.drag is Some && m.drag->0.done.contains(item)
    ||| m.waiting is Dropping && m.waiting->Dropping_drag.done.contains(item)
}

/// What the receiver makes of a folder that is whole: one that was sent on
/// its own is to be put into the receive folder, one inside a drag is ready
/// for the drop.
pub open spec fn delivered(
    m: Incoming,
    asked: Seq<Act>,
    tree: u64,
    drag: Option<u64>,
    root: Place,
    name: Seq<char>,
    plan: Plan,
) -> bool {
    match drag {
        None => asked == seq![
            Act::EnsureDir(m.file_dir),
            Act::Do(Job::PlaceFolder { from: root, dir: m.file_dir, name }),
        ],
        Some(_) => staged(
            m,
            Staged {
                id: tree,
                name,
                kind: TransferKind::Folder,
                files: plan.files.len() as u32,
                size: plan.bytes,
                path: root,
            },
        ),
    }
}

proof fn whole_folders_are_delivered(m: Incoming, tree: u64, plan: Plan, came: u64)
    requires
        takes(m, tree),
        at(m.trees, tree).outstanding.len() == 0,
        at(m.trees, tree).files == plan.files.len() as u32,
        at(m.trees, tree).total == plan.bytes,
    ensures
        ({
            let t = at(m.trees, tree);
            let r = m.on_message(Msg::TreeEnd { tree, error: None }, came);
            &&& delivered(r.state, r.acts, tree, t.drag, t.root, t.name, plan)
            &&& !(r.acts.len() == 1 && r.acts[0] is Do && r.acts[0]->Do_0 is MakeDir)
        }),
{
    let t = at(m.trees, tree);
    stored_reads_back(m.trees, tree, Folder { ended: true, ..t }, tree);
    if t.drag is Some {
        let r = m.on_message(Msg::TreeEnd { tree, error: None }, came);
        let d = m.drag->0;
        let item = Staged {
            id: tree,
            name: t.name,
            kind: TransferKind::Folder,
            files: t.files,
            size: t.total,
            path: t.root,
        };
        let done = d.done.push(item);
        assert(done[d.done.len() as int] == item);
        assert(done.contains(item));
        assert(r.acts[0] is Report);
    }
}

/* ------------------------------- the crossing ------------------------------- */

/// How far a file of the folder has come.
pub enum Passage {
    Unstarted,
    /// the sender was told to send it
    Started { rel: Seq<char>, path: Place },
    /// it was offered and accepted
    Flying { file: Sending, path: Place },
    /// it was verified, and is under its final name
    Kept,
}

/// A folder on its way from one machine to the other.
pub struct Crossing {
    /// the sender of the folder
    pub folder: FolderSending,
    /// the receiver
    pub there: Incoming,
    /// the files, in the order of the plan
    pub passages: Seq<Passage>,
    pub started: nat,
    /// the directories that the receiver has created
    pub dirs: Seq<Place>,
    /// the files on the receiver's disk
    pub disk: Map<Place, Seq<u8>>,
    /// what the receiver asked for last
    pub asked: Seq<Act>,
}

/// Something that happens on the way, with the times that the clocks show.
pub enum Leg {
    /// what the sender of the folder sent last has gone
    Delivered { came: u64 },
    /// a file that was started is opened, offered, and given a part file
    Open {
        index: int,
        id: u64,
        part: Place,
        opened: u64,
        sent: u64,
        accepted: u64,
        came: u64,
        created: u64,
    },
    /// a chunk of a file is read, sent and written
    Chunk { index: int, data: Seq<u8>, t: Instants },
    /// a file is at its end: it is closed, verified and renamed
    Close { index: int, shown: Seq<char>, read: u64, sent: u64, came: u64, ended: u64 },
}

/// A file that is about to be offered.
pub open spec fn opening(tree: u64, id: u64, rel: Seq<char>) -> Sending {
    Sending {
        id,
        name: rel,
        offer: Announced::Tree { tree, rel },
        size: 0,
        offset: 0,
        content: Seq::empty(),
        last_progress: 0,
        stage: Stage::Opening,
    }
}

/// The folder hears of the steps of one of its files.
pub open spec fn told(f: FolderSending, id: u64, name: Seq<char>, moves: Seq<Move>, now: u64) -> FolderSending
    decreases moves.len(),
{
    if moves.len() == 0 {
        f
    } else {
        told(f, id, name, moves.drop_last(), now).on_file(id, name, moves.last(), now).0
    }
}

impl Crossing {
    /// The receiver gets a message about the folder, and the directory that
    /// it asks for is created.
    pub open spec fn hear(self, msg: Msg, came: u64) -> Crossing {
        let r = self.there.on_message(msg, came);
        if r.acts.len() == 1 && r.acts[0] is Do && r.acts[0]->Do_0 is MakeDir {
            Crossing {
                there: r.state.on_dir_made(None),
                dirs: self.dirs.push(r.acts[0]->Do_0->MakeDir_0),
                ..self
            }
        } else {
            Crossing { there: r.state, asked: r.acts, ..self }
        }
    }

    /// What the sender of the folder wants is carried out.
    pub open spec fn carry_one(self, m: TreeMove, came: u64) -> Crossing {
        match m {
            TreeMove::Report(_) => self,
            TreeMove::Start { rel, path } => Crossing {
                passages: self.passages.update(
                    self.started as int,
                    Passage::Started { rel, path },
                ),
                started: self.started + 1,
                ..self
            },
            TreeMove::Send(msg) => self.hear(msg, came),
            TreeMove::Deliver(msg) => self.hear(msg, came),
        }
    }

    pub open spec fn carry(self, moves: Seq<TreeMove>, came: u64) -> Crossing
        decreases moves.len(),
    {
        if moves.len() == 0 {
            self
        } else {
            self.carry_one(moves[0], came).carry(moves.drop_first(), came)
        }
    }

    /// What a leg leads to; `here` is what the sender's files hold.
    pub open spec fn cross(self, here: spec_fn(Place) -> Seq<u8>, leg: Leg) -> Crossing {
        match leg {
            Leg::Delivered { came } => {
                let (f, moves) = self.folder.on_delivered(true);
                Crossing { folder: f, ..self }.carry(moves, came)
            },
            Leg::Open { index, id, part, opened, sent, accepted, came, created } => {
                let rel = self.passages[index]->rel;
                let path = self.passages[index]->Started_path;
                let size = here(path).len() as u64;
                let (s1, offered) = opening(self.folder.progress.id, id, rel).on(
                    Heard::Opened { size },
                    opened,
                );
                let file = s1.on(Heard::Delivered(true), sent).0.on(Heard::Accepted, accepted).0;
                let r = self.there.on_message(offered[0]->Deliver_0, came);
                let job = r.acts[0]->Do_0;
                let target = job->OpenPart_dir.join(job->OpenPart_name);
                Crossing {
                    there: r.state.on_part_opened(Ok((target, part)), created).state,
                    disk: self.disk.insert(part, Seq::empty()),
                    passages: self.passages.update(index, Passage::Flying { file, path }),
                    ..self
                }
            },
            Leg::Chunk { index, data, t } => {
                let file = self.passages[index]->file;
                let path = self.passages[index]->Flying_path;
                let (s, there) = pass_chunk(file, self.there, data, t);
                let moves = file.on(Heard::Read(data), t.read).0.on(
                    Heard::Delivered(true),
                    t.sent,
                ).1;
                let part = at(self.there.recv, file.id).part;
                Crossing {
                    folder: told(self.folder, file.id, file.name, moves, t.sent),
                    there,
                    disk: self.disk.insert(part, self.disk[part] + data),
                    passages: self.passages.update(index, Passage::Flying { file: s, path }),
                    ..self
                }
            },
            Leg::Close { index, shown, read, sent, came, ended } => {
                let file = self.passages[index]->file;
                let (s1, closing) = file.on(Heard::Read(Seq::empty()), read);
                let r = self.there.on_message(closing[0]->Deliver_0, came);
                let job = r.acts[0]->Do_0;
                let moves = s1.on(Heard::Delivered(true), sent).1;
                let (f, next) = told(
                    self.folder,
                    file.id,
                    file.name,
                    moves,
                    sent,
                ).on_file_over();
                Crossing {
                    folder: f,
                    there: r.state.on_committed(Ok(shown)).state,
                    disk: self.disk.remove(job->Commit_from).insert(
                        job->Commit_to,
                        self.disk[job->Commit_from],
                    ),
                    passages: self.passages.update(index, Passage::Kept),
                    ..self
                }.carry(next, ended)
            },
        }
    }

    /// Whether a leg can be next. A part file is new: it is neither there
    /// already, nor one of the folder's own files.
    pub open spec fn may(self, here: spec_fn(Place) -> Seq<u8>, root: Place, leg: Leg) -> bool {
        match leg {
            Leg::Delivered { .. } => self.folder.stage == TreeStage::Announcing
                || self.folder.stage == TreeStage::Directories,
            Leg::Open { index, id, part, .. } => {
                &&& 0 <= index < self.passages.len()
                &&& self.passages[index] is Started
                &&& !has_key(self.there.recv, id)
                &&& !self.disk.dom().contains(part)
                &&& forall|j: int|
                    0 <= j < self.folder.files.len() ==> part != #[trigger] place_of(
                        root,
                        self.folder.files,
                        j,
                    )
            },
            Leg::Chunk { index, data, .. } => {
                &&& 0 <= index < self.passages.len()
                &&& self.passages[index] is Flying
                &&& 0 < data.len() <= CHUNK_SIZE
                &&& {
                    let file = self.passages[index]->file;
                    let whole = here(self.passages[index]->Flying_path);
                    &&& file.offset + data.len() <= whole.len()
                    &&& data == whole.subrange(file.offset as int, file.offset + data.len())
                }
            },
            Leg::Close { index, .. } => {
                &&& 0 <= index < self.passages.len()
                &&& self.passages[index] is Flying
                &&& self.passages[index]->file.offset == here(
                    self.passages[index]->Flying_path,
                ).len()
            },
        }
    }

    /// A run of legs.
    pub open spec fn cross_all(self, here: spec_fn(Place) -> Seq<u8>, legs: Seq<Leg>) -> Crossing
        decreases legs.len(),
    {
        if legs.len() == 0 {
            self
        } else {
            self.cross_all(here, legs.drop_last()).cross(here, legs.last())
        }
    }

    /// Whether each leg of a run can be next when it is its turn.
    pub open spec fn may_all(
        self,
        here: spec_fn(Place) -> Seq<u8>,
        root: Place,
        legs: Seq<Leg>,
    ) -> bool
        decreases legs.len(),
    {
        legs.len() == 0 || (self.may_all(here, root, legs.drop_last()) && self.cross_all(
            here,
            legs.drop_last(),
        ).may(here, root, legs.last()))
    }
}

/// Where the `i`-th file of a plan belongs.
pub open spec fn place_of(root: Place, files: Seq<Planned>, i: int) -> Place {
    root.follow(landing(files[i].rel))
}

/* ------------------------------- what is kept ------------------------------- */

pub open spec fn is_busy() -> spec_fn(Passage) -> bool {
    |p: Passage| p is Started || p is Flying
}

pub open spec fn is_opened() -> spec_fn(Passage) -> bool {
    |p: Passage| p is Flying || p is Kept
}

/// How many files are `f`.
pub open spec fn tally(ps: Seq<Passage>, f: spec_fn(Passage) -> bool) -> nat
    decreases ps.len(),
{
    if ps.len() == 0 {
        0
    } else {
        tally(ps.drop_last(), f) + if f(ps.last()) {
            1nat
        } else {
            0nat
        }
    }
}

proof fn tally_changes(ps: Seq<Passage>, f: spec_fn(Passage) -> bool, i: int, p: Passage)
    requires
        0 <= i < ps.len(),
    ensures
        tally(ps.update(i, p), f) == tally(ps, f) - (if f(ps[i]) {
            1int
        } else {
            0int
        }) + (if f(p) {
            1int
        } else {
            0int
        }),
    decreases ps.len(),
{
    let qs = ps.update(i, p);
    if i == ps.len() - 1 {
        assert(qs.drop_last() =~= ps.drop_last());
    } else {
        assert(qs.drop_last() =~= ps.drop_last().update(i, p));
        tally_changes(ps.drop_last(), f, i, p);
    }
}

proof fn tally_bounds(ps: Seq<Passage>, f: spec_fn(Passage) -> bool, i: int)
    requires
        0 <= i < ps.len(),
    ensures
        tally(ps, f) <= ps.len(),
        !f(ps[i]) ==> tally(ps, f) < ps.len(),
        f(ps[i]) ==> tally(ps, f) > 0,
    decreases ps.len(),
{
    if i < ps.len() - 1 {
        tally_bounds(ps.drop_last(), f, i);
    } else if ps.len() > 1 {
        tally_bounds(ps.drop_last(), f, 0);
    } else {
        assert(tally(ps.drop_last(), f) == 0);
    }
}

/// A file in flight: the receiver has written what the sender has read, and
/// that is how the file begins.
pub open spec fn flies(
    c: Crossing,
    here: spec_fn(Place) -> Seq<u8>,
    root: Place,
    i: int,
    file: Sending,
    path: Place,
) -> bool {
    let f = at(c.there.recv, file.id);
    let whole = here(path);
    &&& path == c.folder.files[i].path
    &&& file.wf()
    &&& file.stage == Stage::Reading
    &&& in_step(file, c.there)
    &&& file.size == whole.len()
    &&& file.offset <= whole.len()
    &&& file.content == whole.take(file.offset as int)
    &&& f.tree == Some(c.folder.progress.id)
    &&& f.target == place_of(root, c.folder.files, i)
    &&& c.disk.dom().contains(f.part)
    &&& c.disk[f.part] == file.content
    &&& forall|j: int|
        0 <= j < c.folder.files.len() ==> f.part != #[trigger] place_of(root, c.folder.files, j)
}

/// What holds of the `i`-th file.
pub open spec fn goes_well(
    c: Crossing,
    here: spec_fn(Place) -> Seq<u8>,
    root: Place,
    i: int,
) -> bool {
    match c.passages[i] {
        Passage::Unstarted => i >= c.folder.next_file,
        Passage::Started { rel, path } => i < c.folder.next_file && rel == c.folder.files[i].rel
            && path == c.folder.files[i].path,
        Passage::Flying { file, path } => i < c.folder.next_file && flies(
            c,
            here,
            root,
            i,
            file,
            path,
        ),
        Passage::Kept => {
            &&& i < c.folder.next_file
            &&& c.disk.dom().contains(place_of(root, c.folder.files, i))
            &&& c.disk[place_of(root, c.folder.files, i)] == here(c.folder.files[i].path)
        },
    }
}

/// The `i`-th file is in flight as `id`.
pub open spec fn flies_as(ps: Seq<Passage>, i: int, id: u64) -> bool {
    0 <= i < ps.len() && ps[i] is Flying && ps[i]->file.id == id
}

/// No two files in flight have the same id or the same part file.
pub open spec fn apart(c: Crossing) -> bool {
    forall|i: int, j: int|
        0 <= i < c.passages.len() && 0 <= j < c.passages.len() && i != j && (
        #[trigger] c.passages[i]) is Flying && (#[trigger] c.passages[j]) is Flying ==> {
            &&& c.passages[i]->file.id != c.passages[j]->file.id
            &&& at(c.there.recv, c.passages[i]->file.id).part != at(
                c.there.recv,
                c.passages[j]->file.id,
            ).part
        }
}

/// What the receiver waits for is in flight.
pub open spec fn awaited(c: Crossing) -> bool {
    forall|id: u64| #[trigger]
        at(c.there.trees, c.folder.progress.id).outstanding.contains(id) ==> exists|i: int|
            #[trigger] flies_as(c.passages, i, id)
}

/// A plan that can be sent: its entries are not too many, the receiver takes
/// their paths, no two files land at the same one, and the files are of a
/// size that can be told.
pub open spec fn sendable(plan: Plan, here: spec_fn(Place) -> Seq<u8>) -> bool {
    &&& plan.wf()
    &&& forall|k: int| 0 <= k < plan.dirs.len() ==> safe_rel(#[trigger] plan.dirs[k]) is Some
    &&& forall|i: int|
        0 <= i < plan.files.len() ==> safe_rel((#[trigger] plan.files[i]).rel) is Some && here(
            plan.files[i].path,
        ).len() <= u64::MAX
    &&& forall|i: int, j: int|
        0 <= i < plan.files.len() && 0 <= j < plan.files.len() && i != j ==> landing(
            (#[trigger] plan.files[i]).rel,
        ) != landing((#[trigger] plan.files[j]).rel)
}

/// What holds of a folder on its way, also before the next files start.
pub open spec fn en_route(
    c: Crossing,
    here: spec_fn(Place) -> Seq<u8>,
    root: Place,
    name: Seq<char>,
    plan: Plan,
) -> bool {
    let tree = c.folder.progress.id;
    let t = at(c.there.trees, tree);
    &&& c.folder.wf()
    &&& c.folder.dirs == plan.dirs
    &&& c.folder.files == plan.files
    &&& c.folder.progress.error is None
    &&& c.started == c.folder.next_file
    &&& c.passages.len() == plan.files.len()
    &&& forall|i: int| 0 <= i < plan.files.len() ==> #[trigger] goes_well(c, here, root, i)
    &&& c.folder.running == tally(c.passages, is_busy())
    &&& c.dirs.len() == c.folder.next_dir
    &&& forall|k: int|
        0 <= k < c.dirs.len() ==> #[trigger] c.dirs[k] == root.follow(landing(plan.dirs[k]))
    &&& match c.folder.stage {
        TreeStage::Walking => false,
        TreeStage::Over => {
            &&& c.folder.next_dir == plan.dirs.len()
            &&& c.folder.next_file == plan.files.len()
            &&& c.folder.running == 0
            &&& delivered(c.there, c.asked, tree, c.folder.drag, root, name, plan)
        },
        _ => {
            &&& c.folder.stage != TreeStage::Files ==> c.folder.next_file == 0
            &&& c.folder.stage == TreeStage::Announcing ==> c.folder.next_dir == 0
            &&& takes(c.there, tree)
            &&& t.root == root
            &&& t.name == name
            &&& t.drag == c.folder.drag
            &&& t.files == plan.files.len() as u32
            &&& t.total == plan.bytes
            &&& t.entries == c.dirs.len() + tally(c.passages, is_opened())
            &&& apart(c)
            &&& awaited(c)
        },
    }
}

/// What holds of a folder on its way. Until it is closed, some file of it is.
pub open spec fn on_course(
    c: Crossing,
    here: spec_fn(Place) -> Seq<u8>,
    root: Place,
    name: Seq<char>,
    plan: Plan,
) -> bool {
    &&& en_route(c, here, root, name, plan)
    &&& c.folder.stage == TreeStage::Files ==> c.folder.running > 0
}

proof fn places_differ(root: Place, files: Seq<Planned>, i: int, j: int)
    requires
        landing(files[i].rel) != landing(files[j].rel),
    ensures
        place_of(root, files, i) != place_of(root, files, j),
{
    let a = landing(files[i].rel);
    let b = landing(files[j].rel);
    if root.parts + a == root.parts + b {
        assert((root.parts + a).skip(root.parts.len() as int) =~= a);
        assert((root.parts + b).skip(root.parts.len() as int) =~= b);
    }
}

/* --------------------------------- starting --------------------------------- */

/// The folder after files were started.
proof fn starts_are_carried(c: Crossing, f: FolderSending, came: u64)
    requires
        f.wf(),
        f.stage == TreeStage::Files,
        f.progress.error is None,
        c.started == f.next_file,
        c.passages.len() == f.files.len(),
        forall|i: int| f.next_file <= i < f.files.len() ==> #[trigger] c.passages[i] is Unstarted,
        f.running == tally(c.passages, is_busy()),
    ensures
        ({
            let (g, moves) = f.pump();
            let d = c.carry(moves, came);
            let started = Crossing { passages: d.passages, started: d.started, ..c };
            &&& g == (FolderSending {
                next_file: g.next_file,
                running: g.running,
                stage: g.stage,
                ..f
            })
            &&& g.wf()
            &&& f.next_file <= g.next_file
            &&& d.started == g.next_file
            &&& d.passages.len() == c.passages.len()
            &&& forall|i: int|
                0 <= i < f.files.len() ==> #[trigger] d.passages[i] == (if f.next_file <= i
                    < g.next_file {
                    Passage::Started { rel: f.files[i].rel, path: f.files[i].path }
                } else {
                    c.passages[i]
                })
            &&& g.running == tally(d.passages, is_busy())
            &&& tally(d.passages, is_opened()) == tally(c.passages, is_opened())
            &&& g.stage == TreeStage::Files || g.stage == TreeStage::Over
            &&& g.stage == TreeStage::Files ==> d == started && g.running > 0
            &&& g.stage == TreeStage::Over ==> {
                &&& g.next_file == f.files.len()
                &&& g.running == 0
                &&& d == started.hear(
                    Msg::TreeEnd { tree: f.progress.id, error: None },
                    came,
                )
            }
        }),
    decreases TREE_WINDOW - f.running,
{
    let (g, moves) = f.pump();
    if f.may_start() {
        let p = f.files[f.next_file as int];
        let one = TreeMove::Start { rel: p.rel, path: p.path };
        let f1 = FolderSending { next_file: f.next_file + 1, running: f.running + 1, ..f };
        let c1 = c.carry_one(one, came);
        let was = c.passages[f.next_file as int];
        assert(was is Unstarted);
        let now = Passage::Started { rel: p.rel, path: p.path };
        tally_changes(c.passages, is_busy(), f.next_file as int, now);
        tally_changes(c.passages, is_opened(), f.next_file as int, now);
        starts_are_carried(c1, f1, came);
        assert(moves == seq![one] + f1.pump().1);
        assert(moves.drop_first() =~= f1.pump().1);
        assert(moves[0] == one);
    } else if f.running == 0 {
        let end = TreeMove::Send(Msg::TreeEnd { tree: f.progress.id, error: None });
        assert(moves[0] == end);
        let rest = moves.drop_first();
        assert(rest[0] is Report);
        assert(rest.drop_first().len() == 0);
        let c1 = c.carry_one(end, came);
        assert(c1.carry(rest, came) == c1.carry_one(rest[0], came).carry(
            rest.drop_first(),
            came,
        ));
        assert(c1.carry_one(rest[0], came).carry(rest.drop_first(), came) == c1);
        assert(c == Crossing { passages: c.passages, started: c.started, ..c });
        assert(c.carry(moves, came) == c1);
    }
}

proof fn nothing_is_awaited(c: Crossing)
    requires
        awaited(c),
        forall|i: int| 0 <= i < c.passages.len() ==> !((#[trigger] c.passages[i]) is Flying),
    ensures
        at(c.there.trees, c.folder.progress.id).outstanding.len() == 0,
{
    let ids = at(c.there.trees, c.folder.progress.id).outstanding;
    if ids.len() > 0 {
        assert(ids.contains(ids[0]));
        let i = choose|i: int| #[trigger] flies_as(c.passages, i, ids[0]);
        assert(c.passages[i] is Flying);
    }
}

/// Files that start change nothing for those that have.
proof fn starts_leave_the_rest(
    c: Crossing,
    d: Crossing,
    here: spec_fn(Place) -> Seq<u8>,
    root: Place,
    name: Seq<char>,
    plan: Plan,
)
    requires
        en_route(c, here, root, name, plan),
        c.folder.stage == TreeStage::Files,
        d == (Crossing { folder: d.folder, passages: d.passages, started: d.started, ..c }),
        d.folder.files == c.folder.files,
        d.folder.progress == c.folder.progress,
        c.folder.next_file <= d.folder.next_file,
        d.passages.len() == c.passages.len(),
        forall|i: int|
            0 <= i < c.folder.files.len() ==> #[trigger] d.passages[i] == (if c.folder.next_file
                <= i < d.folder.next_file {
                Passage::Started { rel: c.folder.files[i].rel, path: c.folder.files[i].path }
            } else {
                c.passages[i]
            }),
    ensures
        forall|i: int| 0 <= i < plan.files.len() ==> #[trigger] goes_well(d, here, root, i),
        apart(d),
        awaited(d),
{
    assert forall|i: int| 0 <= i < plan.files.len() implies #[trigger] goes_well(
        d,
        here,
        root,
        i,
    ) by {
        assert(goes_well(c, here, root, i));
        assert(d.passages[i] == d.passages[i]);
    }
    assert forall|i: int, j: int|
        0 <= i < d.passages.len() && 0 <= j < d.passages.len() && i != j && (
        #[trigger] d.passages[i]) is Flying && (#[trigger] d.passages[j])
            is Flying implies d.passages[i]->file.id != d.passages[j]->file.id && at(
        d.there.recv,
        d.passages[i]->file.id,
    ).part != at(d.there.recv, d.passages[j]->file.id).part by {
        assert(c.passages[i] == d.passages[i]);
        assert(c.passages[j] == d.passages[j]);
    }
    assert forall|id: u64| #[trigger]
        at(d.there.trees, d.folder.progress.id).outstanding.contains(id) implies exists|i: int|
        #[trigger] flies_as(d.passages, i, id) by {
        let i = choose|i: int| #[trigger] flies_as(c.passages, i, id);
        assert(goes_well(c, here, root, i));
        assert(d.passages[i] == c.passages[i]);
        assert(flies_as(d.passages, i, id));
    }
}

/// The sender closes the folder.
proof fn closed_folders_are_asked_for(
    b: Crossing,
    here: spec_fn(Place) -> Seq<u8>,
    root: Place,
    name: Seq<char>,
    plan: Plan,
    came: u64,
)
    requires
        takes(b.there, b.folder.progress.id),
        at(b.there.trees, b.folder.progress.id).root == root,
        at(b.there.trees, b.folder.progress.id).name == name,
        at(b.there.trees, b.folder.progress.id).drag == b.folder.drag,
        at(b.there.trees, b.folder.progress.id).files == plan.files.len() as u32,
        at(b.there.trees, b.folder.progress.id).total == plan.bytes,
        awaited(b),
        b.passages.len() == plan.files.len(),
        b.folder.files == plan.files,
        tally(b.passages, is_busy()) == 0,
        forall|i: int| 0 <= i < plan.files.len() ==> #[trigger] goes_well(b, here, root, i),
    ensures
        ({
            let d = b.hear(Msg::TreeEnd { tree: b.folder.progress.id, error: None }, came);
            &&& d == (Crossing { there: d.there, asked: d.asked, ..b })
            &&& delivered(d.there, d.asked, b.folder.progress.id, b.folder.drag, root, name, plan)
            &&& forall|i: int| 0 <= i < plan.files.len() ==> #[trigger] goes_well(d, here, root, i)
        }),
{
    let tree = b.folder.progress.id;
    let msg = Msg::TreeEnd { tree, error: None };
    assert forall|i: int| 0 <= i < b.passages.len() implies !((#[trigger] b.passages[i])
        is Flying) by {
        tally_bounds(b.passages, is_busy(), i);
    }
    nothing_is_awaited(b);
    whole_folders_are_delivered(b.there, tree, plan, came);
    let d = b.hear(msg, came);
    assert forall|i: int| 0 <= i < plan.files.len() implies #[trigger] goes_well(
        d,
        here,
        root,
        i,
    ) by {
        assert(goes_well(b, here, root, i));
        assert(!(b.passages[i] is Flying));
    }
}

proof fn pumping_stays_on_course(
    c: Crossing,
    here: spec_fn(Place) -> Seq<u8>,
    root: Place,
    name: Seq<char>,
    plan: Plan,
    came: u64,
)
    requires
        en_route(c, here, root, name, plan),
        c.folder.stage == TreeStage::Files,
    ensures
        ({
            let (g, moves) = c.folder.pump();
            on_course(Crossing { folder: g, ..c }.carry(moves, came), here, root, name, plan)
        }),
{
    let f = c.folder;
    let (g, moves) = f.pump();
    let b = Crossing { folder: g, ..c };
    assert forall|i: int| f.next_file <= i < f.files.len() implies #[trigger] b.passages[i]
        is Unstarted by {
        assert(goes_well(c, here, root, i));
    }
    starts_are_carried(b, f, came);
    let d = b.carry(moves, came);
    let started = Crossing { passages: d.passages, started: d.started, ..b };
    starts_leave_the_rest(c, started, here, root, name, plan);
    if g.stage == TreeStage::Over {
        closed_folders_are_asked_for(started, here, root, name, plan, came);
    }
}

/* ----------------------------------- legs ----------------------------------- */

proof fn deliveries_stay_on_course(
    c: Crossing,
    here: spec_fn(Place) -> Seq<u8>,
    root: Place,
    name: Seq<char>,
    plan: Plan,
    came: u64,
)
    requires
        sendable(plan, here),
        on_course(c, here, root, name, plan),
        c.may(here, root, Leg::Delivered { came }),
    ensures
        on_course(c.cross(here, Leg::Delivered { came }), here, root, name, plan),
{
    let f = c.folder;
    let tree = f.progress.id;
    let (g, moves) = f.on_delivered(true);
    let rest = f.advance().1;
    let b = Crossing { folder: g, ..c };
    if f.stage == TreeStage::Announcing {
        assert(moves.drop_first() =~= rest);
        assert(moves[0] is Report);
        assert(b.carry(moves, came) == b.carry(rest, came));
    }
    assert(tally(c.passages, is_opened()) == 0) by {
        nothing_is_opened(c, here, root, name, plan);
    }
    if f.next_dir < f.dirs.len() {
        let rel = f.dirs[f.next_dir as int];
        let msg = Msg::TreeDir { tree, rel };
        assert(safe_rel(plan.dirs[f.next_dir as int]) is Some);
        directories_are_made(c.there, tree, rel, came);
        assert(rest =~= seq![TreeMove::Deliver(msg)]);
        let d = b.hear(msg, came);
        assert(rest.drop_first().len() == 0);
        assert(b.carry_one(rest[0], came) == d);
        assert(d.carry(rest.drop_first(), came) == d);
        assert(b.carry(rest, came) == d);
        assert forall|i: int| 0 <= i < plan.files.len() implies #[trigger] goes_well(
            d,
            here,
            root,
            i,
        ) by {
            assert(goes_well(c, here, root, i));
        }
    } else {
        let u = Crossing { folder: f.at_stage(TreeStage::Files), ..c };
        assert forall|i: int| 0 <= i < plan.files.len() implies #[trigger] goes_well(
            u,
            here,
            root,
            i,
        ) by {
            assert(goes_well(c, here, root, i));
        }
        pumping_stays_on_course(u, here, root, name, plan, came);
        assert(Crossing { folder: g, ..u } == b);
    }
}

proof fn nothing_is_opened(
    c: Crossing,
    here: spec_fn(Place) -> Seq<u8>,
    root: Place,
    name: Seq<char>,
    plan: Plan,
)
    requires
        on_course(c, here, root, name, plan),
        c.folder.next_file == 0,
    ensures
        tally(c.passages, is_opened()) == 0,
{
    assert forall|i: int| 0 <= i < c.passages.len() implies (#[trigger] c.passages[i])
        is Unstarted by {
        assert(goes_well(c, here, root, i));
    }
    none_counts_none(c.passages, is_opened());
}

proof fn none_counts_none(ps: Seq<Passage>, f: spec_fn(Passage) -> bool)
    requires
        forall|i: int| 0 <= i < ps.len() ==> !f(#[trigger] ps[i]),
    ensures
        tally(ps, f) == 0,
    decreases ps.len(),
{
    if ps.len() > 0 {
        assert forall|i: int| 0 <= i < ps.drop_last().len() implies !f(
            #[trigger] ps.drop_last()[i],
        ) by {
            assert(ps.drop_last()[i] == ps[i]);
        }
        none_counts_none(ps.drop_last(), f);
    }
}

/// The other files do not mind what happens to the `index`-th: their part
/// files, their places and what the receiver knows of them stay.
proof fn others_go_on(
    c: Crossing,
    d: Crossing,
    here: spec_fn(Place) -> Seq<u8>,
    root: Place,
    i: int,
)
    requires
        goes_well(c, here, root, i),
        0 <= i < c.passages.len(),
        d.passages[i] == c.passages[i],
        d.folder.files == c.folder.files,
        d.folder.next_file == c.folder.next_file,
        d.folder.progress.id == c.folder.progress.id,
        c.passages[i] is Flying ==> {
            let id = c.passages[i]->file.id;
            let part = at(c.there.recv, id).part;
            &&& has_key(d.there.recv, id)
            &&& at(d.there.recv, id) == at(c.there.recv, id)
            &&& d.disk.dom().contains(part)
            &&& d.disk[part] == c.disk[part]
        },
        c.passages[i] is Kept ==> {
            let place = place_of(root, c.folder.files, i);
            d.disk.dom().contains(place) && d.disk[place] == c.disk[place]
        },
    ensures
        goes_well(d, here, root, i),
{
}

proof fn openings_stay_on_course(
    c: Crossing,
    here: spec_fn(Place) -> Seq<u8>,
    root: Place,
    name: Seq<char>,
    plan: Plan,
    leg: Leg,
)
    requires
        sendable(plan, here),
        on_course(c, here, root, name, plan),
        leg is Open,
        c.may(here, root, leg),
    ensures
        on_course(c.cross(here, leg), here, root, name, plan),
{
    let index = leg->Open_index;
    let id = leg->id;
    let part = leg->part;
    let tree = c.folder.progress.id;
    let t = at(c.there.trees, tree);
    let rel = c.passages[index]->rel;
    let path = c.passages[index]->Started_path;
    assert(goes_well(c, here, root, index));
    assert(safe_rel(plan.files[index].rel) is Some);
    tally_bounds(c.passages, is_busy(), index);
    assert(c.folder.running > 0);
    assert(c.folder.stage == TreeStage::Files);
    tally_bounds(c.passages, is_opened(), index);
    let size = here(path).len() as u64;
    files_are_opened(c.there, tree, id, rel, size, part, leg->Open_came, leg->created);
    let d = c.cross(here, leg);
    let file = d.passages[index]->file;
    let got = Receiving {
        name: landing(rel).last(),
        size,
        received: 0,
        content: Seq::empty(),
        part,
        target: place_of(root, c.folder.files, index),
        last_progress: leg->created,
        drag: t.drag,
        tree: Some(tree),
    };
    assert(d.there.recv == stored(c.there.recv, id, got));
    stored_reads_back(c.there.recv, id, got, id);
    assert(file.content =~= here(path).take(0));
    assert(flies(d, here, root, index, file, path));
    tally_changes(c.passages, is_busy(), index, d.passages[index]);
    tally_changes(c.passages, is_opened(), index, d.passages[index]);
    assert forall|i: int| 0 <= i < plan.files.len() implies #[trigger] goes_well(
        d,
        here,
        root,
        i,
    ) by {
        if i != index {
            assert(goes_well(c, here, root, i));
            if c.passages[i] is Flying {
                let other = c.passages[i]->file.id;
                assert(other != id);
                stored_reads_back(c.there.recv, id, got, other);
            }
            others_go_on(c, d, here, root, i);
        }
    }
    assert(apart(d)) by {
        assert forall|i: int, j: int|
            0 <= i < d.passages.len() && 0 <= j < d.passages.len() && i != j && (
            #[trigger] d.passages[i]) is Flying && (#[trigger] d.passages[j])
                is Flying implies d.passages[i]->file.id != d.passages[j]->file.id && at(
            d.there.recv,
            d.passages[i]->file.id,
        ).part != at(d.there.recv, d.passages[j]->file.id).part by {
            if i != index {
                assert(goes_well(c, here, root, i));
                assert(c.passages[i] == d.passages[i]);
                stored_reads_back(c.there.recv, id, got, c.passages[i]->file.id);
            }
            if j != index {
                assert(goes_well(c, here, root, j));
                assert(c.passages[j] == d.passages[j]);
                stored_reads_back(c.there.recv, id, got, c.passages[j]->file.id);
            }
        }
    }
    assert(awaited(d)) by {
        assert forall|x: u64| #[trigger]
            at(d.there.trees, tree).outstanding.contains(x) implies exists|i: int| #[trigger]
            flies_as(d.passages, i, x) by {
            if x == id {
                assert(flies_as(d.passages, index, id));
            } else {
                let ids = with_id(t.outstanding, id);
                let k = choose|k: int| 0 <= k < ids.len() && ids[k] == x;
                assert(t.outstanding[k] == x);
                assert(t.outstanding.contains(x));
                let i = choose|i: int| #[trigger] flies_as(c.passages, i, x);
                assert(flies_as(d.passages, i, x));
            }
        }
    }
}

/// Only a failure of one of its files is lasting for a folder.
proof fn folders_hear_well(
    f: FolderSending,
    id: u64,
    name: Seq<char>,
    moves: Seq<Move>,
    now: u64,
)
    requires
        forall|k: int| 0 <= k < moves.len() ==> !((#[trigger] moves[k]) is Failed),
    ensures
        ({
            let g = told(f, id, name, moves, now);
            &&& g == (FolderSending { progress: g.progress, ..f })
            &&& g.progress.error == f.progress.error
            &&& g.progress.id == f.progress.id
        }),
    decreases moves.len(),
{
    if moves.len() > 0 {
        let rest = moves.drop_last();
        assert forall|k: int| 0 <= k < rest.len() implies !((#[trigger] rest[k]) is Failed) by {
            assert(rest[k] == moves[k]);
        }
        folders_hear_well(f, id, name, rest, now);
        assert(!(moves[moves.len() - 1] is Failed));
    }
}

proof fn chunks_do_not_fail(file: Sending, data: Seq<u8>, t: Instants, k: int)
    requires
        file.stage == Stage::Reading,
        data.len() > 0,
    ensures
        ({
            let moves = file.on(Heard::Read(data), t.read).0.on(Heard::Delivered(true), t.sent).1;
            0 <= k < moves.len() ==> !(moves[k] is Failed)
        }),
{
}

/// The state after a chunk, told apart from how it came about.
proof fn chunks_lead_on(
    c: Crossing,
    d: Crossing,
    here: spec_fn(Place) -> Seq<u8>,
    root: Place,
    name: Seq<char>,
    plan: Plan,
    index: int,
    data: Seq<u8>,
    t: Instants,
)
    requires
        on_course(c, here, root, name, plan),
        c.may(here, root, Leg::Chunk { index, data, t }),
        d.folder == (FolderSending { progress: d.folder.progress, ..c.folder }),
        d.folder.progress.error == c.folder.progress.error,
        d.folder.progress.id == c.folder.progress.id,
        ({
            let file = c.passages[index]->file;
            let path = c.passages[index]->Flying_path;
            let part = at(c.there.recv, file.id).part;
            let (s, there) = pass_chunk(file, c.there, data, t);
            d == (Crossing {
                folder: d.folder,
                there,
                disk: c.disk.insert(part, c.disk[part] + data),
                passages: c.passages.update(index, Passage::Flying { file: s, path }),
                ..c
            })
        }),
    ensures
        on_course(d, here, root, name, plan),
{
    let tree = c.folder.progress.id;
    let file = c.passages[index]->file;
    let path = c.passages[index]->Flying_path;
    let whole = here(path);
    assert(goes_well(c, here, root, index));
    tally_bounds(c.passages, is_busy(), index);
    assert(c.folder.stage == TreeStage::Files);
    chunks_keep_them_in_step(file, c.there, data, t);
    chunks_leave_the_rest(file, c.there, tree, data, t, file.id);
    let s = d.passages[index]->file;
    assert(whole.take(file.offset as int) + data =~= whole.take(file.offset + data.len()));
    assert(s.offset == file.offset + data.len());
    assert(flies(d, here, root, index, s, path));
    tally_changes(c.passages, is_busy(), index, d.passages[index]);
    tally_changes(c.passages, is_opened(), index, d.passages[index]);
    assert forall|i: int| 0 <= i < plan.files.len() implies #[trigger] goes_well(
        d,
        here,
        root,
        i,
    ) by {
        if i != index {
            assert(goes_well(c, here, root, i));
            if c.passages[i] is Flying {
                chunks_leave_the_rest(file, c.there, tree, data, t, c.passages[i]->file.id);
                assert(c.passages[index] is Flying);
            }
            others_go_on(c, d, here, root, i);
        }
    }
    assert(apart(d)) by {
        assert forall|i: int, j: int|
            0 <= i < d.passages.len() && 0 <= j < d.passages.len() && i != j && (
            #[trigger] d.passages[i]) is Flying && (#[trigger] d.passages[j])
                is Flying implies d.passages[i]->file.id != d.passages[j]->file.id && at(
            d.there.recv,
            d.passages[i]->file.id,
        ).part != at(d.there.recv, d.passages[j]->file.id).part by {
            assert(goes_well(c, here, root, i));
            assert(goes_well(c, here, root, j));
            assert(c.passages[i] is Flying && c.passages[j] is Flying);
            chunks_leave_the_rest(file, c.there, tree, data, t, c.passages[i]->file.id);
            chunks_leave_the_rest(file, c.there, tree, data, t, c.passages[j]->file.id);
        }
    }
    assert(awaited(d)) by {
        assert forall|x: u64| #[trigger]
            at(d.there.trees, tree).outstanding.contains(x) implies exists|i: int| #[trigger]
            flies_as(d.passages, i, x) by {
            assert(at(c.there.trees, tree).outstanding.contains(x));
            let i = choose|i: int| #[trigger] flies_as(c.passages, i, x);
            assert(flies_as(d.passages, i, x));
        }
    }
}

proof fn chunks_stay_on_course(
    c: Crossing,
    here: spec_fn(Place) -> Seq<u8>,
    root: Place,
    name: Seq<char>,
    plan: Plan,
    leg: Leg,
)
    requires
        sendable(plan, here),
        on_course(c, here, root, name, plan),
        leg is Chunk,
        c.may(here, root, leg),
    ensures
        on_course(c.cross(here, leg), here, root, name, plan),
{
    let index = leg->Chunk_index;
    let data = leg->data;
    let t = leg->t;
    let file = c.passages[index]->file;
    assert(goes_well(c, here, root, index));
    let moves = file.on(Heard::Read(data), t.read).0.on(Heard::Delivered(true), t.sent).1;
    assert forall|k: int| 0 <= k < moves.len() implies !((#[trigger] moves[k]) is Failed) by {
        chunks_do_not_fail(file, data, t, k);
    }
    folders_hear_well(c.folder, file.id, file.name, moves, t.sent);
    chunks_lead_on(c, c.cross(here, leg), here, root, name, plan, index, data, t);
}

proof fn closings_stay_on_course(
    c: Crossing,
    here: spec_fn(Place) -> Seq<u8>,
    root: Place,
    name: Seq<char>,
    plan: Plan,
    leg: Leg,
)
    requires
        sendable(plan, here),
        on_course(c, here, root, name, plan),
        leg is Close,
        c.may(here, root, leg),
    ensures
        on_course(c.cross(here, leg), here, root, name, plan),
{
    let index = leg->Close_index;
    let tree = c.folder.progress.id;
    let t = at(c.there.trees, tree);
    let file = c.passages[index]->file;
    let path = c.passages[index]->Flying_path;
    let whole = here(path);
    assert(goes_well(c, here, root, index));
    assert(flies(c, here, root, index, file, path));
    tally_bounds(c.passages, is_busy(), index);
    assert(c.folder.stage == TreeStage::Files);
    let f = at(c.there.recv, file.id);
    assert(f.content == file.content);
    files_are_committed(c.there, tree, file.id, leg->shown, leg->Close_came);
    let (s1, closing) = file.on(Heard::Read(Seq::empty()), leg->Close_read);
    assert(closing == seq![
        Move::Deliver(Msg::FileDone { id: file.id, sha256: sha256(file.content) }),
    ]);
    let moves = s1.on(Heard::Delivered(true), leg->Close_sent).1;
    assert(moves == seq![Move::Done { size: file.size }]);
    folders_hear_well(c.folder, file.id, file.name, moves, leg->Close_sent);
    let heard = told(c.folder, file.id, file.name, moves, leg->Close_sent);
    let g = FolderSending { running: (heard.running - 1) as nat, ..heard };
    let place = place_of(root, c.folder.files, index);
    // the state before the next files start
    let b = Crossing {
        folder: g,
        there: c.there.on_message(closing[0]->Deliver_0, leg->Close_came).state.on_committed(
            Ok(leg->shown),
        ).state,
        disk: c.disk.remove(f.part).insert(place, c.disk[f.part]),
        passages: c.passages.update(index, Passage::Kept),
        ..c
    };
    tally_changes(c.passages, is_busy(), index, Passage::Kept);
    tally_changes(c.passages, is_opened(), index, Passage::Kept);
    assert(whole.take(file.offset as int) =~= whole);
    assert(b.disk[place] == whole);
    assert(f.part != place);
    assert forall|i: int| 0 <= i < plan.files.len() implies #[trigger] goes_well(
        b,
        here,
        root,
        i,
    ) by {
        if i != index {
            assert(goes_well(c, here, root, i));
            assert(plan.files[i] == c.folder.files[i] && plan.files[index]
                == c.folder.files[index]);
            places_differ(root, c.folder.files, i, index);
            if c.passages[i] is Flying {
                assert(c.passages[index] is Flying);
                erased_is_gone(c.there.recv, file.id, c.passages[i]->file.id);
            }
            others_go_on(c, b, here, root, i);
        }
    }
    assert(apart(b)) by {
        assert forall|i: int, j: int|
            0 <= i < b.passages.len() && 0 <= j < b.passages.len() && i != j && (
            #[trigger] b.passages[i]) is Flying && (#[trigger] b.passages[j])
                is Flying implies b.passages[i]->file.id != b.passages[j]->file.id && at(
            b.there.recv,
            b.passages[i]->file.id,
        ).part != at(b.there.recv, b.passages[j]->file.id).part by {
            assert(i != index && j != index);
            assert(goes_well(c, here, root, i));
            assert(goes_well(c, here, root, j));
            assert(c.passages[index] is Flying);
            assert(c.passages[i] is Flying && c.passages[j] is Flying);
            erased_is_gone(c.there.recv, file.id, c.passages[i]->file.id);
            erased_is_gone(c.there.recv, file.id, c.passages[j]->file.id);
        }
    }
    assert(awaited(b)) by {
        assert forall|x: u64| #[trigger]
            at(b.there.trees, tree).outstanding.contains(x) implies exists|i: int| #[trigger]
            flies_as(b.passages, i, x) by {
            only_others_stay(t.outstanding, file.id, x);
            let i = choose|i: int| #[trigger] flies_as(c.passages, i, x);
            assert(flies_as(b.passages, i, x));
        }
    }
    pumping_stays_on_course(b, here, root, name, plan, leg->ended);
    assert(c.cross(here, leg) == Crossing { folder: g.pump().0, ..b }.carry(
        g.pump().1,
        leg->ended,
    ));
}

proof fn only_others_stay(ids: Seq<u64>, id: u64, x: u64)
    requires
        without_id(ids, id).contains(x),
    ensures
        ids.contains(x),
        x != id,
    decreases ids.len(),
{
    reveal(Seq::filter);
    if ids.len() > 0 {
        let rest = without_id(ids.drop_last(), id);
        if rest.contains(x) {
            only_others_stay(ids.drop_last(), id, x);
            let k = choose|k: int| 0 <= k < ids.drop_last().len() && ids.drop_last()[k] == x;
            assert(ids[k] == x);
        } else {
            let all = without_id(ids, id);
            let k = choose|k: int| 0 <= k < all.len() && all[k] == x;
            assert(k == rest.len()) by {
                if k < rest.len() {
                    assert(rest[k] == x);
                }
            }
            assert(ids[ids.len() - 1] == x);
        }
    }
}

/* ----------------------------------- laws ----------------------------------- */

/// A folder that was walked is announced, and the receiver gives it a root.
#[verifier::opaque]
pub open spec fn announced(
    tree: u64,
    name: Seq<char>,
    drag: Option<u64>,
    plan: Plan,
    there: Incoming,
    disk: Map<Place, Seq<u8>>,
    root: Place,
    shown: Seq<char>,
    walked: u64,
    came: u64,
    made: u64,
) -> Crossing {
    let (folder, moves) = FolderSending::fresh(tree, name, drag).on_walked(plan, walked);
    let r = there.on_message(moves[0]->Deliver_0, came);
    Crossing {
        folder,
        there: r.state.on_root_made(Ok((root, shown, None)), made).state,
        passages: Seq::new(plan.files.len(), |i: int| Passage::Unstarted),
        started: 0,
        dirs: Seq::empty(),
        disk,
        asked: r.acts,
    }
}

proof fn announcements_start_the_course(
    tree: u64,
    name: Seq<char>,
    drag: Option<u64>,
    plan: Plan,
    here: spec_fn(Place) -> Seq<u8>,
    there: Incoming,
    disk: Map<Place, Seq<u8>>,
    root: Place,
    shown: Seq<char>,
    walked: u64,
    came: u64,
    made: u64,
)
    requires
        sendable(plan, here),
        safe_name(name) is Some,
        there.wf(),
        there.waiting is Nothing,
        !has_key(there.trees, tree),
        drag is Some ==> there.drags(drag->0),
    ensures
        on_course(
            announced(tree, name, drag, plan, there, disk, root, shown, walked, came, made),
            here,
            root,
            safe_name(name)->0,
            plan,
        ),
        announced(
            tree,
            name,
            drag,
            plan,
            there,
            disk,
            root,
            shown,
            walked,
            came,
            made,
        ).folder.progress.id == tree,
        announced(
            tree,
            name,
            drag,
            plan,
            there,
            disk,
            root,
            shown,
            walked,
            came,
            made,
        ).folder.drag == drag,
{
    reveal(announced);
    let c = announced(tree, name, drag, plan, there, disk, root, shown, walked, came, made);
    let (folder, moves) = FolderSending::fresh(tree, name, drag).on_walked(plan, walked);
    let msg = moves[0]->Deliver_0;
    let r = there.on_message(msg, came);
    messages_keep_it_well_formed(there, msg, came);
    made_roots_keep_it_well_formed(r.state, Ok((root, shown, None)), made);
    let t = r.state.rooted_folder(root, shown, None, made);
    stored_reads_back(there.trees, tree, t, tree);
    none_counts_none(c.passages, is_busy());
    none_counts_none(c.passages, is_opened());
    assert(t.outstanding.len() == 0);
}

/// `g` sends the same folder as `f`.
spec fn same_folder(f: FolderSending, g: FolderSending) -> bool {
    g.progress.id == f.progress.id && g.drag == f.drag
}

proof fn pumps_keep_the_folder(f: FolderSending)
    ensures
        same_folder(f, f.pump().0),
    decreases TREE_WINDOW - f.running,
{
    if f.may_start() {
        pumps_keep_the_folder(
            FolderSending { next_file: f.next_file + 1, running: f.running + 1, ..f },
        );
    }
}

proof fn telling_keeps_the_folder(
    f: FolderSending,
    id: u64,
    name: Seq<char>,
    moves: Seq<Move>,
    now: u64,
)
    ensures
        same_folder(f, told(f, id, name, moves, now)),
    decreases moves.len(),
{
    if moves.len() > 0 {
        telling_keeps_the_folder(f, id, name, moves.drop_last(), now);
    }
}

proof fn carrying_keeps_the_folder(c: Crossing, moves: Seq<TreeMove>, came: u64)
    ensures
        c.carry(moves, came).folder == c.folder,
    decreases moves.len(),
{
    if moves.len() > 0 {
        carrying_keeps_the_folder(c.carry_one(moves[0], came), moves.drop_first(), came);
    }
}

proof fn legs_keep_the_folder(c: Crossing, here: spec_fn(Place) -> Seq<u8>, leg: Leg)
    ensures
        same_folder(c.folder, c.cross(here, leg).folder),
{
    match leg {
        Leg::Delivered { came } => {
            let (f, moves) = c.folder.on_delivered(true);
            pumps_keep_the_folder(c.folder.at_stage(TreeStage::Files));
            carrying_keeps_the_folder(Crossing { folder: f, ..c }, moves, came);
        },
        Leg::Open { .. } => {},
        Leg::Chunk { index, data, t } => {
            let file = c.passages[index]->file;
            let moves = file.on(Heard::Read(data), t.read).0.on(Heard::Delivered(true), t.sent).1;
            telling_keeps_the_folder(c.folder, file.id, file.name, moves, t.sent);
        },
        Leg::Close { index, shown, read, sent, came, ended } => {
            let file = c.passages[index]->file;
            let (s1, closing) = file.on(Heard::Read(Seq::empty()), read);
            let moves = s1.on(Heard::Delivered(true), sent).1;
            let heard = told(c.folder, file.id, file.name, moves, sent);
            telling_keeps_the_folder(c.folder, file.id, file.name, moves, sent);
            pumps_keep_the_folder(
                FolderSending { running: (heard.running - 1) as nat, ..heard },
            );
            let r = c.there.on_message(closing[0]->Deliver_0, came);
            let job = r.acts[0]->Do_0;
            let (f, next) = heard.on_file_over();
            let b = Crossing {
                folder: f,
                there: r.state.on_committed(Ok(shown)).state,
                disk: c.disk.remove(job->Commit_from).insert(
                    job->Commit_to,
                    c.disk[job->Commit_from],
                ),
                passages: c.passages.update(index, Passage::Kept),
                ..c
            };
            carrying_keeps_the_folder(b, next, ended);
        },
    }
}

proof fn legs_stay_on_course(
    c: Crossing,
    here: spec_fn(Place) -> Seq<u8>,
    root: Place,
    name: Seq<char>,
    plan: Plan,
    legs: Seq<Leg>,
)
    requires
        sendable(plan, here),
        on_course(c, here, root, name, plan),
        c.may_all(here, root, legs),
    ensures
        on_course(c.cross_all(here, legs), here, root, name, plan),
        same_folder(c.folder, c.cross_all(here, legs).folder),
    decreases legs.len(),
{
    if legs.len() > 0 {
        legs_stay_on_course(c, here, root, name, plan, legs.drop_last());
        let b = c.cross_all(here, legs.drop_last());
        legs_keep_the_folder(b, here, legs.last());
        match legs.last() {
            Leg::Delivered { came } => deliveries_stay_on_course(b, here, root, name, plan, came),
            Leg::Open { .. } => openings_stay_on_course(b, here, root, name, plan, legs.last()),
            Leg::Chunk { .. } => chunks_stay_on_course(b, here, root, name, plan, legs.last()),
            Leg::Close { .. } => closings_stay_on_course(b, here, root, name, plan, legs.last()),
        }
    }
}

/// The folder is there: every directory has been created inside its root at
/// its path, every file stands there at its path with exactly the bytes that
/// the sender's file has, and the receiver has it [`delivered`].
pub open spec fn arrived(
    c: Crossing,
    here: spec_fn(Place) -> Seq<u8>,
    tree: u64,
    drag: Option<u64>,
    root: Place,
    name: Seq<char>,
    plan: Plan,
) -> bool {
    &&& c.dirs.len() == plan.dirs.len()
    &&& forall|k: int|
        0 <= k < plan.dirs.len() ==> #[trigger] c.dirs[k] == root.follow(landing(plan.dirs[k]))
    &&& forall|i: int|
        0 <= i < plan.files.len() ==> c.disk.dom().contains(
            #[trigger] place_of(root, plan.files, i),
        ) && c.disk[place_of(root, plan.files, i)] == here(plan.files[i].path)
    &&& delivered(c.there, c.asked, tree, drag, root, name, plan)
}

/// Something is left to happen: the folder's own messages, or one of its
/// files.
pub open spec fn under_way(c: Crossing) -> bool {
    ||| c.folder.stage == TreeStage::Announcing
    ||| c.folder.stage == TreeStage::Directories
    ||| exists|i: int|
        0 <= i < c.passages.len() && ((#[trigger] c.passages[i]) is Started || c.passages[i]
            is Flying)
}

proof fn courses_end_well(
    c: Crossing,
    here: spec_fn(Place) -> Seq<u8>,
    root: Place,
    name: Seq<char>,
    plan: Plan,
)
    requires
        on_course(c, here, root, name, plan),
    ensures
        c.folder.progress.error is None,
        c.folder.stage == TreeStage::Over ==> arrived(
            c,
            here,
            c.folder.progress.id,
            c.folder.drag,
            root,
            name,
            plan,
        ),
        c.folder.stage != TreeStage::Over ==> under_way(c),
{
    if c.folder.stage == TreeStage::Over {
        assert forall|i: int| 0 <= i < plan.files.len() implies c.disk.dom().contains(
            #[trigger] place_of(root, plan.files, i),
        ) && c.disk[place_of(root, plan.files, i)] == here(plan.files[i].path) by {
            assert(goes_well(c, here, root, i));
            tally_bounds(c.passages, is_busy(), i);
        }
    } else if c.folder.stage == TreeStage::Files {
        some_are_counted(c.passages, is_busy());
        let i = choose|i: int| 0 <= i < c.passages.len() && is_busy()(#[trigger] c.passages[i]);
        assert(c.passages[i] is Started || c.passages[i] is Flying);
    }
}

proof fn some_are_counted(ps: Seq<Passage>, f: spec_fn(Passage) -> bool)
    requires
        tally(ps, f) > 0,
    ensures
        exists|i: int| 0 <= i < ps.len() && f(#[trigger] ps[i]),
{
    if forall|i: int| 0 <= i < ps.len() ==> !f(#[trigger] ps[i]) {
        none_counts_none(ps, f);
    }
}

/// A folder arrives whole, with its structure intact. Its directories and
/// files cross in whatever order, up to the window at once and in chunks of
/// any size, at whatever times; nothing fails on either disk or between
/// them. When the sender is done, the folder has [`arrived`], and until then
/// there is always something left to happen.
pub proof fn folders_arrive_as_sent(
    tree: u64,
    name: Seq<char>,
    drag: Option<u64>,
    plan: Plan,
    here: spec_fn(Place) -> Seq<u8>,
    there: Incoming,
    disk: Map<Place, Seq<u8>>,
    root: Place,
    shown: Seq<char>,
    walked: u64,
    came: u64,
    made: u64,
    legs: Seq<Leg>,
)
    requires
        sendable(plan, here),
        safe_name(name) is Some,
        there.wf(),
        there.waiting is Nothing,
        !has_key(there.trees, tree),
        drag is Some ==> there.drags(drag->0),
        announced(tree, name, drag, plan, there, disk, root, shown, walked, came, made).may_all(
            here,
            root,
            legs,
        ),
    ensures
        ({
            let start = announced(
                tree,
                name,
                drag,
                plan,
                there,
                disk,
                root,
                shown,
                walked,
                came,
                made,
            );
            let c = start.cross_all(here, legs);
            &&& c.folder.progress.error is None
            &&& c.folder.stage == TreeStage::Over ==> arrived(
                c,
                here,
                tree,
                drag,
                root,
                safe_name(name)->0,
                plan,
            )
            &&& c.folder.stage != TreeStage::Over ==> under_way(c)
        }),
{
    let safe = safe_name(name)->0;
    let start = announced(tree, name, drag, plan, there, disk, root, shown, walked, came, made);
    announcements_start_the_course(
        tree,
        name,
        drag,
        plan,
        here,
        there,
        disk,
        root,
        shown,
        walked,
        came,
        made,
    );
    legs_stay_on_course(start, here, root, safe, plan, legs);
    courses_end_well(start.cross_all(here, legs), here, root, safe, plan);
}

/// Names that the receiver takes as they are, as a path neither too long
/// nor too deep.
pub open spec fn plain(names: Names) -> bool {
    &&& forall|i: int| 0 <= i < names.len() ==> is_safe(#[trigger] names[i])
    &&& names.len() <= MAX_TREE_DEPTH
    &&& encode_utf8(rel_path(names)).len() <= MAX_REL_BYTES
}

proof fn plain_names_are_kept(names: Names)
    requires
        names.len() > 0,
        forall|i: int| 0 <= i < names.len() ==> is_safe(#[trigger] names[i]),
    ensures
        rel_path(names).len() > 0,
        components(rel_path(names)) == names,
    decreases names.len(),
{
    reveal_strlit("/");
    let front = names.drop_last();
    let last = names[names.len() - 1];
    assert(is_safe(last));
    assert forall|i: int| 0 <= i < last.len() implies !is_separator(#[trigger] last[i]) by {
        assert(!is_forbidden(last[i]));
    }
    paths_follow_the_structure(rel_path(front), last);
    if front.len() > 0 {
        assert forall|i: int| 0 <= i < front.len() implies is_safe(#[trigger] front[i]) by {
            assert(front[i] == names[i]);
        }
        plain_names_are_kept(front);
        assert(front.push(last) =~= names);
    } else {
        assert(seq![last] =~= names);
    }
}

proof fn plain_names_land(names: Names)
    requires
        names.len() > 0,
        plain(names),
    ensures
        safe_rel(rel_path(names)) is Some,
        landing(rel_path(names)) == names,
{
    plain_names_are_kept(names);
    safe_paths_are_kept(rel_path(names));
}

/// A folder that was walked to its end can be sent, if its names are plain:
/// its directories and files then land inside the folder where they stand
/// in it.
pub proof fn walked_folders_can_be_sent(
    list: spec_fn(Place) -> Seq<Entry>,
    root: Place,
    n: nat,
    here: spec_fn(Place) -> Seq<u8>,
)
    requires
        tidy(list),
        walked_for(list, root, n) is Some,
        (walked_for(list, root, n)->0).pending.len() == 0,
        forall|names: Names| #[trigger] is_dir(list, root, names) ==> plain(names),
        forall|names: Names, size: u64| #[trigger]
            is_file(list, root, names, size) ==> plain(names),
        forall|place: Place| (#[trigger] here(place)).len() <= u64::MAX,
    ensures
        ({
            let plan = (walked_for(list, root, n)->0).plan;
            &&& sendable(plan, here)
            &&& forall|k: int, names: Names|
                0 <= k < plan.dirs.len() && #[trigger] dir_stands(list, root, plan.dirs, k, names)
                    ==> landing(plan.dirs[k]) == names
            &&& forall|i: int, names: Names|
                0 <= i < plan.files.len() && #[trigger] file_stands(
                    list,
                    root,
                    plan.files[i],
                    names,
                ) ==> landing(plan.files[i].rel) == names
        }),
{
    let plan = (walked_for(list, root, n)->0).plan;
    finished_walks_are_complete(list, root, n);
    assert forall|k: int, names: Names|
        0 <= k < plan.dirs.len() && #[trigger] dir_stands(
            list,
            root,
            plan.dirs,
            k,
            names,
        ) implies landing(plan.dirs[k]) == names by {
        plain_names_land(names);
    }
    assert forall|i: int, names: Names|
        0 <= i < plan.files.len() && #[trigger] file_stands(
            list,
            root,
            plan.files[i],
            names,
        ) implies landing(plan.files[i].rel) == names by {
        plain_names_land(names);
    }
    assert forall|k: int| 0 <= k < plan.dirs.len() implies safe_rel(#[trigger] plan.dirs[k])
        is Some by {
        assert(dir_is_there(list, root, plan.dirs, k));
        let names = choose|names: Names| #[trigger] dir_stands(list, root, plan.dirs, k, names);
        plain_names_land(names);
    }
    assert forall|i: int| 0 <= i < plan.files.len() implies safe_rel(
        (#[trigger] plan.files[i]).rel,
    ) is Some && here(plan.files[i].path).len() <= u64::MAX by {
        assert(file_is_there(list, root, plan.files[i]));
        let names = choose|names: Names| #[trigger] file_stands(list, root, plan.files[i], names);
        plain_names_land(names);
    }
    assert forall|i: int, j: int|
        0 <= i < plan.files.len() && 0 <= j < plan.files.len() && i != j implies landing(
        (#[trigger] plan.files[i]).rel,
    ) != landing((#[trigger] plan.files[j]).rel) by {
        assert(file_is_there(list, root, plan.files[i]));
        assert(file_is_there(list, root, plan.files[j]));
        let a = choose|names: Names| #[trigger] file_stands(list, root, plan.files[i], names);
        let b = choose|names: Names| #[trigger] file_stands(list, root, plan.files[j], names);
        if a == b {
            let es = list(root.follow(a.drop_last()));
            let x = Entry { name: a.last(), kind: EntryKind::File(plan.files[i].size) };
            let y = Entry { name: a.last(), kind: EntryKind::File(plan.files[j].size) };
            let k = choose|k: int| 0 <= k < es.len() && es[k] == x;
            let l = choose|l: int| 0 <= l < es.len() && es[l] == y;
            assert(tidy_listing(es));
            assert(es[k].name == es[l].name);
            assert(plan.files[i] == plan.files[j]);
        }
    }
}

} // verus!
