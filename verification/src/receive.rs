//! What is being received: files, drags and folders.

use crate::digest::absorbed;
use crate::event::{is_due, progress_due};
use crate::ipc::{
    folder_row, opt_text, tree_status, Direction, FileTransferStatus, Row, TransferKind,
    TransferState,
};
use crate::names::{Location, Place};
use vstd::prelude::*;

verus! {

/// Sanity bound on entries (files and directories) in one folder transfer.
pub const MAX_TREE_ENTRIES: u64 = 1_000_000;

/* --------------------------------- files --------------------------------- */

/// An incoming file in progress.
pub struct RecvTransfer {
    pub name: String,
    pub size: u64,
    pub received: u64,
    pub part_path: Location,
    pub final_path: Location,
    pub hasher: sha2::Sha256,
    pub last_progress: u64,
    /// the cross-machine drag this transfer belongs to, if any
    pub drag: Option<u64>,
    /// the folder transfer this file belongs to, if any
    pub tree: Option<u64>,
}

/// What is known of an incoming file.
#[verifier::ext_equal]
pub struct Receiving {
    pub name: Seq<char>,
    pub size: u64,
    /// how many bytes have come
    pub received: u64,
    /// the bytes that have come
    pub content: Seq<u8>,
    pub part: Place,
    pub target: Place,
    pub last_progress: u64,
    pub drag: Option<u64>,
    pub tree: Option<u64>,
}

impl Receiving {
    /// The count matches the bytes, and no more came than was offered.
    pub open spec fn wf(self) -> bool {
        &&& self.received == self.content.len()
        &&& self.received <= self.size
    }
}

impl View for RecvTransfer {
    type V = Receiving;

    open spec fn view(&self) -> Receiving {
        Receiving {
            name: self.name@,
            size: self.size,
            received: self.received,
            content: absorbed(self.hasher),
            part: self.part_path@,
            target: self.final_path@,
            last_progress: self.last_progress,
            drag: self.drag,
            tree: self.tree,
        }
    }
}

impl RecvTransfer {
    /// Whether a progress report is due; if so, it counts as made.
    pub fn progress_due(&mut self, now: u64) -> (r: bool)
        ensures
            r == progress_due(old(self)@.last_progress, now),
            final(self)@ == (if r {
                Receiving { last_progress: now, ..old(self)@ }
            } else {
                old(self)@
            }),
    {
        if is_due(self.last_progress, now) {
            self.last_progress = now;
            true
        } else {
            false
        }
    }
}

/* --------------------------------- drags --------------------------------- */

/// Something that finished into a drag's staging area and is waiting for
/// the drop to be moved to its final location.
pub struct StagedItem {
    pub id: u64,
    pub name: String,
    pub kind: TransferKind,
    pub files: u32,
    pub size: u64,
    pub path: Location,
}

/// What is known of a staged item.
#[verifier::ext_equal]
pub struct Staged {
    pub id: u64,
    pub name: Seq<char>,
    pub kind: TransferKind,
    pub files: u32,
    pub size: u64,
    pub path: Place,
}

impl View for StagedItem {
    type V = Staged;

    open spec fn view(&self) -> Staged {
        Staged {
            id: self.id,
            name: self.name@,
            kind: self.kind,
            files: self.files,
            size: self.size,
            path: self.path@,
        }
    }
}

impl Staged {
    /// The item's row, in `state`.
    pub open spec fn row(self, state: TransferState, detail: Seq<char>) -> Row {
        Row {
            id: self.id,
            name: self.name,
            direction: Direction::Received,
            transferred: self.size,
            total: self.size,
            state,
            detail: Some(detail),
            kind: self.kind,
            files: self.files,
        }
    }
}

impl StagedItem {
    /// The item's row, in `state`.
    pub fn status(&self, state: TransferState, detail: String) -> (r: FileTransferStatus)
        ensures
            r@ == self@.row(state, detail@),
    {
        FileTransferStatus {
            id: self.id,
            name: self.name.clone(),
            direction: Direction::Received,
            transferred: self.size,
            total: self.size,
            state,
            detail: Some(detail),
            kind: self.kind,
            files: self.files,
        }
    }
}

/// The items of a list.
pub open spec fn staged_view(v: Seq<StagedItem>) -> Seq<Staged> {
    v.map_values(|i: StagedItem| i@)
}

/// A cross-machine drag being received: its files are staged in a private
/// directory and only moved to the drop location once the peer confirms the
/// button was released (`DragDrop`). A `DragCancel`, a connection loss, or a
/// superseding drag discards the staging area.
pub struct IncomingDrag {
    pub drag: u64,
    /// `<file_dir>/.vylo-drag-<drag>/`
    pub dir: Location,
    /// number of items (files and folders) the source announced
    pub expected: u32,
    /// offers seen so far (accepted or rejected)
    pub offered: u32,
    /// transfer ids (files and folders) offered but not yet settled
    pub outstanding: Vec<u64>,
    /// staged items that completed successfully
    pub done: Vec<StagedItem>,
    /// the source reported the button release
    pub drop_requested: bool,
}

/// What is known of an incoming drag.
#[verifier::ext_equal]
pub struct Dragging {
    pub drag: u64,
    pub dir: Place,
    pub expected: u32,
    pub offered: u32,
    pub outstanding: Seq<u64>,
    pub done: Seq<Staged>,
    pub drop_requested: bool,
}

impl Dragging {
    /// All announced items have been offered and every offer has settled.
    pub open spec fn settled(self) -> bool {
        self.offered >= self.expected && self.outstanding.len() == 0
    }

    /// One more offer has been seen.
    pub open spec fn one_more(self) -> Dragging {
        Dragging {
            offered: if self.offered < u32::MAX {
                (self.offered + 1) as u32
            } else {
                u32::MAX
            },
            ..self
        }
    }
}

impl View for IncomingDrag {
    type V = Dragging;

    open spec fn view(&self) -> Dragging {
        Dragging {
            drag: self.drag,
            dir: self.dir@,
            expected: self.expected,
            offered: self.offered,
            outstanding: self.outstanding@,
            done: staged_view(self.done@),
            drop_requested: self.drop_requested,
        }
    }
}

/// What is known of the drag under way, if there is one.
pub open spec fn drag_view(o: Option<IncomingDrag>) -> Option<Dragging> {
    match o {
        Some(d) => Some(d@),
        None => None,
    }
}

impl IncomingDrag {
    /// all announced items have been offered and every offer has settled
    pub fn settled(&self) -> (r: bool)
        ensures
            r == self@.settled(),
    {
        self.offered >= self.expected && self.outstanding.len() == 0
    }

    /// One more offer has been seen.
    pub fn count_offer(&mut self)
        ensures
            final(self)@ == old(self)@.one_more(),
    {
        if self.offered < u32::MAX {
            self.offered = self.offered + 1;
        }
    }

    /// An item has finished into the staging area.
    pub fn stage(&mut self, item: StagedItem)
        ensures
            final(self)@ == (Dragging { done: old(self)@.done.push(item@), ..old(self)@ }),
    {
        let ghost before = self.done@;
        let ghost m = item@;
        self.done.push(item);
        assert(staged_view(self.done@) =~= staged_view(before).push(m));
    }
}

/* -------------------------------- folders -------------------------------- */

/// A folder being received: everything lands under `root` inside a staging
/// directory and is renamed into place (or handed to the drag it belongs
/// to) once the sender closes it and every file has verified.
pub struct IncomingTree {
    pub tree: u64,
    pub name: String,
    /// staging location of the folder itself
    pub root: Location,
    /// how the host words that location
    pub shown: String,
    /// the staging dir owned by this tree (`None` when inside a drag, whose
    /// staging dir owns it)
    pub staging: Option<Location>,
    pub drag: Option<u64>,
    pub files: u32,
    pub total: u64,
    pub done_bytes: u64,
    /// file ids offered but not yet settled
    pub outstanding: Vec<u64>,
    /// entries created so far (bounds a runaway sender)
    pub entries: u64,
    /// `TreeEnd` seen
    pub ended: bool,
    /// first failure; the tree is discarded once settled
    pub failed: Option<String>,
    pub last_progress: u64,
}

/// What is known of an incoming folder.
#[verifier::ext_equal]
pub struct Folder {
    pub tree: u64,
    pub name: Seq<char>,
    pub root: Place,
    pub shown: Seq<char>,
    pub staging: Option<Place>,
    pub drag: Option<u64>,
    pub files: u32,
    pub total: u64,
    pub done_bytes: u64,
    pub outstanding: Seq<u64>,
    pub entries: u64,
    pub ended: bool,
    pub failed: Option<Seq<char>>,
    pub last_progress: u64,
}

/// The place of an optional location.
pub open spec fn opt_place(o: Option<Location>) -> Option<Place> {
    match o {
        Some(l) => Some(l@),
        None => None,
    }
}

impl Folder {
    pub open spec fn settled(self) -> bool {
        self.ended && self.outstanding.len() == 0
    }

    /// The first failure is the one that stays.
    pub open spec fn fail(self, reason: Seq<char>) -> Folder {
        if self.failed is None {
            Folder { failed: Some(reason), ..self }
        } else {
            self
        }
    }

    /// A folder that still takes entries has had no more than the bound.
    pub open spec fn wf(self) -> bool {
        self.failed is None ==> self.entries <= MAX_TREE_ENTRIES
    }

    pub open spec fn row(
        self,
        transferred: u64,
        state: TransferState,
        detail: Option<Seq<char>>,
    ) -> Row {
        folder_row(
            self.tree,
            self.name,
            self.files,
            Direction::Received,
            transferred,
            self.total,
            state,
            detail,
        )
    }
}

impl View for IncomingTree {
    type V = Folder;

    open spec fn view(&self) -> Folder {
        Folder {
            tree: self.tree,
            name: self.name@,
            root: self.root@,
            shown: self.shown@,
            staging: opt_place(self.staging),
            drag: self.drag,
            files: self.files,
            total: self.total,
            done_bytes: self.done_bytes,
            outstanding: self.outstanding@,
            entries: self.entries,
            ended: self.ended,
            failed: opt_text(self.failed),
            last_progress: self.last_progress,
        }
    }
}

impl IncomingTree {
    pub fn settled(&self) -> (r: bool)
        ensures
            r == self@.settled(),
    {
        self.ended && self.outstanding.len() == 0
    }

    pub fn fail(&mut self, reason: String)
        ensures
            final(self)@ == old(self)@.fail(reason@),
    {
        if self.failed.is_none() {
            self.failed = Some(reason);
        }
    }

    /// Whether a progress report is due; if so, it counts as made.
    pub fn progress_due(&mut self, now: u64) -> (r: bool)
        ensures
            r == progress_due(old(self)@.last_progress, now),
            final(self)@ == (if r {
                Folder { last_progress: now, ..old(self)@ }
            } else {
                old(self)@
            }),
    {
        if is_due(self.last_progress, now) {
            self.last_progress = now;
            true
        } else {
            false
        }
    }

    pub fn status(&self, transferred: u64, state: TransferState, detail: Option<String>) -> (r:
        FileTransferStatus)
        ensures
            r@ == self@.row(transferred, state, opt_text(detail)),
    {
        tree_status(
            self.tree,
            self.name.as_str(),
            self.files,
            Direction::Received,
            transferred,
            self.total,
            state,
            detail,
        )
    }
}

/// A folder that no files will be accepted for; it still has to exist so
/// that the sender's `TreeFile`s are rejected with a reason and `TreeEnd`
/// is consumed cleanly.
pub open spec fn refused(
    tree: u64,
    name: Seq<char>,
    files: u32,
    bytes: u64,
    drag: Option<u64>,
    reason: Seq<char>,
    now: u64,
) -> Folder {
    Folder {
        tree,
        name,
        root: Place::nowhere(),
        shown: ""@,
        staging: None,
        drag,
        files,
        total: bytes,
        done_bytes: 0,
        outstanding: Seq::empty(),
        entries: 0,
        ended: false,
        failed: Some(reason),
        last_progress: now,
    }
}

/// A folder that no files will be accepted for.
pub fn refused_tree(
    tree: u64,
    name: &str,
    files: u32,
    bytes: u64,
    drag: Option<u64>,
    reason: &str,
    now: u64,
) -> (r: IncomingTree)
    ensures
        r@ == refused(tree, name@, files, bytes, drag, reason@, now),
{
    IncomingTree {
        tree,
        name: name.to_owned(),
        root: Location::nowhere(),
        shown: "".to_owned(),
        staging: None,
        drag,
        files,
        total: bytes,
        done_bytes: 0,
        outstanding: Vec::new(),
        entries: 0,
        ended: false,
        failed: Some(reason.to_owned()),
        last_progress: now,
    }
}

} // verus!
