//! Sending a whole folder: it is walked, announced, its directories are
//! recreated, its files are streamed through a small window, and it is
//! closed with `TreeEnd`. Any failed file stops the rest and is reported
//! once, as the folder's.

use crate::event::{capped, is_due, progress_due, Event, SyncEvent};
use crate::ipc::{
    copy_opt, file_row, folder_row, opt_text, status, tree_status, Direction, FileTransferStatus,
    Row, TransferKind, TransferState,
};
use crate::names::{texts, Location, Place};
use crate::outgoing::{Move, SendStep};
use crate::proto::{Msg, SyncMessage};
use crate::table::{at, erased, stored, Table};
use crate::text::{concat2, concat3};
use crate::walk::{planned, Plan, Planned, PlannedFile, TreePlan};
use vstd::prelude::*;
use vstd::string::*;

verus! {

/// Files of one folder in flight at once: enough to hide the per-file
/// offer/accept round trip, few enough to bound open handles on both ends.
pub const TREE_WINDOW: usize = 3;

/* ------------------------------ single files ------------------------------ */

/// The row of a file that is sent on its own, for a step of its transfer.
pub open spec fn own_report(id: u64, name: Seq<char>, step: Move) -> Option<Row> {
    match step {
        Move::Active { size } => Some(
            file_row(id, name, Direction::Sent, 0, size, TransferState::Active, None),
        ),
        Move::Progress { offset, size } => Some(
            file_row(id, name, Direction::Sent, offset, size, TransferState::Active, None),
        ),
        Move::Done { size } => Some(
            file_row(id, name, Direction::Sent, size, size, TransferState::Done, None),
        ),
        Move::Failed { reason } => Some(
            file_row(id, name, Direction::Sent, 0, 0, TransferState::Failed, Some(reason)),
        ),
        _ => None,
    }
}

/// The row of an optional status.
pub open spec fn opt_row(o: Option<FileTransferStatus>) -> Option<Row> {
    match o {
        Some(s) => Some(s@),
        None => None,
    }
}

/// What is reported of a file that is sent on its own.
pub fn report_single(id: u64, name: &str, step: &SendStep) -> (r: Option<FileTransferStatus>)
    ensures
        opt_row(r) == own_report(id, name@, step@),
{
    match step {
        SendStep::Active { size } => Some(
            status(id, name, Direction::Sent, 0, *size, TransferState::Active, None),
        ),
        SendStep::Progress { offset, size } => Some(
            status(id, name, Direction::Sent, *offset, *size, TransferState::Active, None),
        ),
        SendStep::Done { size } => Some(
            status(id, name, Direction::Sent, *size, *size, TransferState::Done, None),
        ),
        SendStep::Failed { reason } => Some(
            status(
                id,
                name,
                Direction::Sent,
                0,
                0,
                TransferState::Failed,
                Some(reason.clone()),
            ),
        ),
        _ => None,
    }
}

/* ---------------------------- folder progress ---------------------------- */

/// How far a file in flight has come.
pub struct Offset {
    pub at: u64,
}

impl View for Offset {
    type V = u64;

    open spec fn view(&self) -> u64 {
        self.at
    }
}

/// Aggregate progress of a folder being sent: bytes of finished files plus
/// the offsets of the ones in flight, reported as one row.
pub struct TreeProgress {
    pub id: u64,
    pub name: String,
    pub files: u32,
    pub total: u64,
    pub done: u64,
    pub inflight: Table<Offset>,
    pub error: Option<String>,
    pub last: u64,
}

/// What is known of a folder being sent.
#[verifier::ext_equal]
pub struct Sent {
    pub id: u64,
    pub name: Seq<char>,
    pub files: u32,
    pub total: u64,
    pub done: u64,
    pub inflight: Seq<(u64, u64)>,
    pub error: Option<Seq<char>>,
    pub last: u64,
}

impl View for TreeProgress {
    type V = Sent;

    open spec fn view(&self) -> Sent {
        Sent {
            id: self.id,
            name: self.name@,
            files: self.files,
            total: self.total,
            done: self.done,
            inflight: self.inflight@,
            error: opt_text(self.error),
            last: self.last,
        }
    }
}

/// The sum of the offsets in flight.
pub open spec fn offsets(s: Seq<(u64, u64)>) -> nat
    decreases s.len(),
{
    if s.len() == 0 {
        0
    } else {
        offsets(s.drop_last()) + s.last().1 as nat
    }
}

impl Sent {
    pub open spec fn transferred(self) -> u64 {
        capped(self.done as int, offsets(self.inflight) as int)
    }

    pub open spec fn row(self, state: TransferState, detail: Option<Seq<char>>) -> Row {
        folder_row(
            self.id,
            self.name,
            self.files,
            Direction::Sent,
            self.transferred(),
            self.total,
            state,
            detail,
        )
    }

    /// If a report is due it is made, and counts as made.
    pub open spec fn reported(self, now: u64) -> (Sent, Option<Row>) {
        if progress_due(self.last, now) {
            let s = Sent { last: now, ..self };
            (s, Some(s.row(TransferState::Active, None)))
        } else {
            (self, None)
        }
    }

    /// What a step of one of its files does to a folder.
    pub open spec fn on_file(self, id: u64, name: Seq<char>, step: Move, now: u64) -> (
        Sent,
        Option<Row>,
    ) {
        match step {
            Move::Progress { offset, .. } => Sent {
                inflight: stored(self.inflight, id, offset),
                ..self
            }.reported(now),
            // small files never reach the in-file progress path, so the row
            // would otherwise sit at 0% until the very end
            Move::Done { size } => Sent {
                inflight: erased(self.inflight, id),
                done: capped(self.done as int, size as int),
                ..self
            }.reported(now),
            // the folder reports the failure once, with the file named
            Move::Failed { reason } => (
                Sent {
                    inflight: erased(self.inflight, id),
                    error: if self.error is None {
                        Some(name + ": "@ + reason)
                    } else {
                        self.error
                    },
                    ..self
                },
                None,
            ),
            _ => (self, None),
        }
    }
}

impl TreeProgress {
    fn transferred(&self) -> (r: u64)
        ensures
            r == self@.transferred(),
    {
        let mut sum: u64 = self.done;
        let mut i: usize = 0;
        let ghost all = self.inflight@;
        assert(all.take(0) =~= Seq::<(u64, u64)>::empty());
        while i < self.inflight.entries.len()
            invariant
                i <= self.inflight.entries@.len(),
                all == self.inflight@,
                sum == capped(self.done as int, offsets(all.take(i as int)) as int),
            decreases self.inflight.entries@.len() - i,
        {
            proof {
                assert(all.take(i + 1).drop_last() =~= all.take(i as int));
                assert(all.take(i + 1).last() == all[i as int]);
                assert(all[i as int].1 == self.inflight.entries@[i as int].1.at);
            }
            let more: u64 = self.inflight.entries[i].1.at;
            if more <= u64::MAX - sum {
                sum = sum + more;
            } else {
                sum = u64::MAX;
            }
            i = i + 1;
        }
        assert(all.take(i as int) =~= all);
        sum
    }

    fn emit(&self, state: TransferState, detail: Option<String>) -> (r: FileTransferStatus)
        ensures
            r@ == self@.row(state, opt_text(detail)),
    {
        tree_status(
            self.id,
            self.name.as_str(),
            self.files,
            Direction::Sent,
            self.transferred(),
            self.total,
            state,
            detail,
        )
    }

    fn report_if_due(&mut self, now: u64) -> (r: Option<FileTransferStatus>)
        ensures
            final(self)@ == old(self)@.reported(now).0,
            opt_row(r) == old(self)@.reported(now).1,
    {
        if is_due(self.last, now) {
            self.last = now;
            Some(self.emit(TransferState::Active, None))
        } else {
            None
        }
    }

    fn file_progress(&mut self, id: u64, offset: u64, now: u64) -> (r: Option<FileTransferStatus>)
        ensures
            (final(self)@, opt_row(r)) == (Sent {
                inflight: stored(old(self)@.inflight, id, offset),
                ..old(self)@
            }).reported(now),
    {
        self.inflight.put(id, Offset { at: offset });
        self.report_if_due(now)
    }

    fn file_done(&mut self, id: u64, size: u64, now: u64) -> (r: Option<FileTransferStatus>)
        ensures
            (final(self)@, opt_row(r)) == (Sent {
                inflight: erased(old(self)@.inflight, id),
                done: capped(old(self)@.done as int, size as int),
                ..old(self)@
            }).reported(now),
    {
        let _offset = self.inflight.take(id);
        if size <= u64::MAX - self.done {
            self.done = self.done + size;
        } else {
            self.done = u64::MAX;
        }
        self.report_if_due(now)
    }

    fn file_failed(&mut self, id: u64, name: &str, reason: &str)
        ensures
            final(self)@ == (Sent {
                inflight: erased(old(self)@.inflight, id),
                error: if old(self)@.error is None {
                    Some(name@ + ": "@ + reason@)
                } else {
                    old(self)@.error
                },
                ..old(self)@
            }),
    {
        let _offset = self.inflight.take(id);
        if self.error.is_none() {
            self.error = Some(concat3(name, ": ", reason));
        }
    }

    /// What a step of one of the folder's files does to it, and what is
    /// reported.
    pub fn on_file(&mut self, id: u64, name: &str, step: &SendStep, now: u64) -> (r: Option<
        FileTransferStatus,
    >)
        ensures
            (final(self)@, opt_row(r)) == old(self)@.on_file(id, name@, step@, now),
    {
        match step {
            SendStep::Progress { offset, .. } => self.file_progress(id, *offset, now),
            SendStep::Done { size } => self.file_done(id, *size, now),
            SendStep::Failed { reason } => {
                self.file_failed(id, name, reason.as_str());
                None
            },
            _ => None,
        }
    }
}

/* ------------------------------- the folder ------------------------------- */

/// How far a folder being sent has come.
#[derive(Debug, PartialEq, Eq, Structural, Clone, Copy)]
pub enum TreeStage {
    /// being walked
    Walking,
    /// its announcement is being sent
    Announcing,
    /// its directories are being sent
    Directories,
    /// its files are being sent
    Files,
    Over,
}

/// What is to be done for a folder being sent.
#[derive(Debug)]
pub enum TreeStep {
    /// send, whatever comes of it
    Send(SyncMessage),
    /// send, and say whether it went ([`SendTree::delivered`])
    Deliver(SyncMessage),
    /// send this file; say when it is over ([`SendTree::file_over`])
    Start { rel: String, path: Location },
    Report(SyncEvent),
}

/// What a [`TreeStep`] is.
#[verifier::ext_equal]
pub enum TreeMove {
    Send(Msg),
    Deliver(Msg),
    Start { rel: Seq<char>, path: Place },
    Report(Event),
}

impl View for TreeStep {
    type V = TreeMove;

    open spec fn view(&self) -> TreeMove {
        match *self {
            TreeStep::Send(msg) => TreeMove::Send(msg@),
            TreeStep::Deliver(msg) => TreeMove::Deliver(msg@),
            TreeStep::Start { rel, path } => TreeMove::Start { rel: rel@, path: path@ },
            TreeStep::Report(event) => TreeMove::Report(event@),
        }
    }
}

/// What a list of steps is.
pub open spec fn tree_moves(v: Seq<TreeStep>) -> Seq<TreeMove> {
    v.map_values(|s: TreeStep| s@)
}

/// A folder being sent.
pub struct SendTree {
    pub drag: Option<u64>,
    pub progress: TreeProgress,
    pub dirs: Vec<String>,
    pub files: Vec<PlannedFile>,
    /// directories announced so far
    pub next_dir: usize,
    /// files started so far
    pub next_file: usize,
    /// files in flight
    pub running: usize,
    pub stage: TreeStage,
}

/// What is known of a folder being sent.
#[verifier::ext_equal]
pub struct FolderSending {
    pub drag: Option<u64>,
    pub progress: Sent,
    pub dirs: Seq<Seq<char>>,
    pub files: Seq<Planned>,
    pub next_dir: nat,
    pub next_file: nat,
    pub running: nat,
    pub stage: TreeStage,
}

impl View for SendTree {
    type V = FolderSending;

    open spec fn view(&self) -> FolderSending {
        FolderSending {
            drag: self.drag,
            progress: self.progress@,
            dirs: texts(self.dirs@),
            files: planned(self.files@),
            next_dir: self.next_dir as nat,
            next_file: self.next_file as nat,
            running: self.running as nat,
            stage: self.stage,
        }
    }
}

impl FolderSending {
    /// A folder that is about to be walked.
    pub open spec fn fresh(tree: u64, name: Seq<char>, drag: Option<u64>) -> FolderSending {
        FolderSending {
            drag,
            progress: Sent {
                id: tree,
                name,
                files: 0,
                total: 0,
                done: 0,
                inflight: Seq::empty(),
                error: None,
                last: 0,
            },
            dirs: Seq::empty(),
            files: Seq::empty(),
            next_dir: 0,
            next_file: 0,
            running: 0,
            stage: TreeStage::Walking,
        }
    }

    pub open spec fn wf(self) -> bool {
        &&& self.next_dir <= self.dirs.len()
        &&& self.next_file <= self.files.len()
        &&& self.running <= TREE_WINDOW
        &&& self.running <= self.next_file
        &&& self.stage == TreeStage::Walking ==> self.dirs.len() == 0 && self.files.len() == 0
        &&& self.stage == TreeStage::Files ==> self.next_dir == self.dirs.len()
    }

    pub open spec fn offer(self) -> Msg {
        Msg::TreeOffer {
            tree: self.progress.id,
            name: self.progress.name,
            files: self.progress.files,
            bytes: self.progress.total,
            drag: self.drag,
        }
    }

    /// The row of a folder that could not be sent.
    pub open spec fn failed(self, reason: Seq<char>) -> TreeMove {
        TreeMove::Report(
            Event::Transfer(
                folder_row(
                    self.progress.id,
                    self.progress.name,
                    0,
                    Direction::Sent,
                    0,
                    0,
                    TransferState::Failed,
                    Some(reason),
                ),
            ),
        )
    }

    pub open spec fn at_stage(self, stage: TreeStage) -> FolderSending {
        FolderSending { stage, ..self }
    }

    /// The folder could not be read: it is announced and closed at once,
    /// because a drag counted it and the peer's row should show the reason.
    pub open spec fn on_unreadable(self, cause: Seq<char>) -> (FolderSending, Seq<TreeMove>) {
        let reason = "cannot read folder: "@ + cause;
        (
            self.at_stage(TreeStage::Over),
            seq![
                TreeMove::Send(
                    Msg::TreeOffer {
                        tree: self.progress.id,
                        name: self.progress.name,
                        files: 0,
                        bytes: 0,
                        drag: self.drag,
                    },
                ),
                TreeMove::Send(Msg::TreeEnd { tree: self.progress.id, error: Some(reason) }),
                self.failed(reason),
            ],
        )
    }

    /// The folder was walked: it is announced.
    pub open spec fn on_walked(self, plan: Plan, now: u64) -> (FolderSending, Seq<TreeMove>) {
        let s = FolderSending {
            progress: Sent {
                files: plan.files.len() as u32,
                total: plan.bytes,
                last: now,
                ..self.progress
            },
            dirs: plan.dirs,
            files: plan.files,
            stage: TreeStage::Announcing,
            ..self
        };
        (s, seq![TreeMove::Deliver(s.offer())])
    }

    /// The next directory is sent; after the last, files start.
    pub open spec fn advance(self) -> (FolderSending, Seq<TreeMove>) {
        if self.next_dir < self.dirs.len() {
            (
                FolderSending { next_dir: self.next_dir + 1, stage: TreeStage::Directories, ..self },
                seq![
                    TreeMove::Deliver(
                        Msg::TreeDir {
                            tree: self.progress.id,
                            rel: self.dirs[self.next_dir as int],
                        },
                    ),
                ],
            )
        } else {
            self.at_stage(TreeStage::Files).pump()
        }
    }

    /// A message went, or the connection is gone.
    pub open spec fn on_delivered(self, sent: bool) -> (FolderSending, Seq<TreeMove>) {
        if self.stage != TreeStage::Announcing && self.stage != TreeStage::Directories {
            (self, Seq::empty())
        } else if !sent {
            (self.at_stage(TreeStage::Over), seq![self.failed("connection closed"@)])
        } else if self.stage == TreeStage::Announcing {
            let (s, rest) = self.advance();
            (
                s,
                seq![
                    TreeMove::Report(
                        Event::Transfer(self.progress.row(TransferState::Active, None)),
                    ),
                ] + rest,
            )
        } else {
            self.advance()
        }
    }

    /// Whether another file may start: there is one, the window has room,
    /// and nothing has failed.
    pub open spec fn may_start(self) -> bool {
        self.progress.error is None && self.next_file < self.files.len() && self.running
            < TREE_WINDOW
    }

    /// Files start while they may. Once none is left to start or to wait
    /// for, the folder is closed.
    pub open spec fn pump(self) -> (FolderSending, Seq<TreeMove>)
        decreases TREE_WINDOW - self.running,
    {
        if self.may_start() {
            let f = self.files[self.next_file as int];
            let (s, rest) = FolderSending {
                next_file: self.next_file + 1,
                running: self.running + 1,
                ..self
            }.pump();
            (s, seq![TreeMove::Start { rel: f.rel, path: f.path }] + rest)
        } else if self.running == 0 {
            (
                self.at_stage(TreeStage::Over),
                seq![
                    TreeMove::Send(
                        Msg::TreeEnd { tree: self.progress.id, error: self.progress.error },
                    ),
                    TreeMove::Report(
                        Event::Transfer(
                            match self.progress.error {
                                None => self.progress.row(TransferState::Done, None),
                                Some(reason) => self.progress.row(
                                    TransferState::Failed,
                                    Some(reason),
                                ),
                            },
                        ),
                    ),
                ],
            )
        } else {
            (self, Seq::empty())
        }
    }

    /// A step of one of the files.
    pub open spec fn on_file(self, id: u64, name: Seq<char>, step: Move, now: u64) -> (
        FolderSending,
        Option<Row>,
    ) {
        let (p, row) = self.progress.on_file(id, name, step, now);
        (FolderSending { progress: p, ..self }, row)
    }

    /// One of the files is over.
    pub open spec fn on_file_over(self) -> (FolderSending, Seq<TreeMove>) {
        if self.stage == TreeStage::Files && self.running > 0 {
            FolderSending { running: (self.running - 1) as nat, ..self }.pump()
        } else {
            (self, Seq::empty())
        }
    }
}

/// Steps in the order in which they are carried out.
pub struct TreeSteps {
    pub list: Vec<TreeStep>,
}

impl View for TreeSteps {
    type V = Seq<TreeMove>;

    open spec fn view(&self) -> Seq<TreeMove> {
        tree_moves(self.list@)
    }
}

impl TreeSteps {
    fn new() -> (r: TreeSteps)
        ensures
            r@ == Seq::<TreeMove>::empty(),
    {
        let r = TreeSteps { list: Vec::new() };
        assert(r@ =~= Seq::<TreeMove>::empty());
        r
    }

    fn push(&mut self, s: TreeStep)
        ensures
            final(self)@ == old(self)@.push(s@),
    {
        let ghost before = self.list@;
        let ghost m = s@;
        self.list.push(s);
        assert(tree_moves(self.list@) =~= tree_moves(before).push(m));
    }

    fn report(&mut self, row: FileTransferStatus)
        ensures
            final(self)@ == old(self)@.push(TreeMove::Report(Event::Transfer(row@))),
    {
        self.push(TreeStep::Report(SyncEvent::Transfer(row)));
    }
}

impl SendTree {
    pub fn new(tree: u64, name: String, drag: Option<u64>) -> (r: SendTree)
        ensures
            r@ == FolderSending::fresh(tree, name@, drag),
            r@.wf(),
    {
        let r = SendTree {
            drag,
            progress: TreeProgress {
                id: tree,
                name,
                files: 0,
                total: 0,
                done: 0,
                inflight: Table::new(),
                error: None,
                last: 0,
            },
            dirs: Vec::new(),
            files: Vec::new(),
            next_dir: 0,
            next_file: 0,
            running: 0,
            stage: TreeStage::Walking,
        };
        assert(r@.dirs =~= Seq::<Seq<char>>::empty());
        assert(r@.files =~= Seq::<Planned>::empty());
        r
    }

    fn fail(&self, reason: String, out: &mut TreeSteps)
        ensures
            final(out)@ == old(out)@.push(self@.failed(reason@)),
    {
        let row = tree_status(
            self.progress.id,
            self.progress.name.as_str(),
            0,
            Direction::Sent,
            0,
            0,
            TransferState::Failed,
            Some(reason),
        );
        out.report(row);
    }

    /// The folder could not be walked.
    pub fn unreadable(&mut self, cause: &str) -> (r: TreeSteps)
        requires
            old(self)@.wf(),
        ensures
            (final(self)@, r@) == old(self)@.on_unreadable(cause@),
            final(self)@.wf(),
    {
        let mut out = TreeSteps::new();
        let reason = concat2("cannot read folder: ", cause);
        let tree: u64 = self.progress.id;
        out.push(
            TreeStep::Send(
                SyncMessage::TreeOffer {
                    tree,
                    name: self.progress.name.clone(),
                    files: 0,
                    bytes: 0,
                    drag: self.drag,
                },
            ),
        );
        out.push(
            TreeStep::Send(SyncMessage::TreeEnd { tree, error: Some(reason.clone()) }),
        );
        self.fail(reason, &mut out);
        self.stage = TreeStage::Over;
        assert(out@ =~= old(self)@.on_unreadable(cause@).1);
        out
    }

    /// The folder was walked.
    pub fn walked(&mut self, plan: TreePlan, now: u64) -> (r: TreeSteps)
        requires
            old(self)@.wf(),
            old(self)@.stage == TreeStage::Walking,
            plan@.wf(),
        ensures
            (final(self)@, r@) == old(self)@.on_walked(plan@, now),
            final(self)@.wf(),
    {
        let mut out = TreeSteps::new();
        proof {
            assert(plan@.files.len() == plan.files@.len());
        }
        self.progress.files = plan.files.len() as u32;
        self.progress.total = plan.bytes;
        self.progress.last = now;
        self.dirs = plan.dirs;
        self.files = plan.files;
        self.stage = TreeStage::Announcing;
        out.push(
            TreeStep::Deliver(
                SyncMessage::TreeOffer {
                    tree: self.progress.id,
                    name: self.progress.name.clone(),
                    files: self.progress.files,
                    bytes: self.progress.total,
                    drag: self.drag,
                },
            ),
        );
        assert(out@ =~= old(self)@.on_walked(plan@, now).1);
        out
    }

    fn pump(&mut self, out: &mut TreeSteps)
        requires
            old(self)@.wf(),
        ensures
            final(self)@ == old(self)@.pump().0,
            final(out)@ == old(out)@ + old(self)@.pump().1,
            final(self)@.wf(),
    {
        let ghost s0 = self@;
        let ghost out0 = out@;
        let ghost mut started: Seq<TreeMove> = Seq::empty();
        assert(out@ =~= out0 + started);
        assert(s0.pump().1 =~= started + self@.pump().1);
        while self.progress.error.is_none() && self.next_file < self.files.len() && self.running
            < TREE_WINDOW
            invariant
                self@.wf(),
                self.stage == s0.stage,
                s0.pump().0 == self@.pump().0,
                s0.pump().1 == started + self@.pump().1,
                out@ == out0 + started,
            decreases TREE_WINDOW - self.running,
        {
            let ghost s1 = self@;
            proof {
                assert(s1.files.len() == self.files@.len());
                assert(s1.may_start());
            }
            let f = &self.files[self.next_file];
            let rel = f.rel.clone();
            let path = f.path.copied();
            out.push(TreeStep::Start { rel, path });
            self.next_file = self.next_file + 1;
            self.running = self.running + 1;
            proof {
                let m = TreeMove::Start { rel: rel@, path: path@ };
                assert(s1.pump().1 =~= seq![m] + self@.pump().1);
                assert(started + s1.pump().1 =~= started.push(m) + self@.pump().1);
                started = started.push(m);
            }
        }
        proof {
            assert(self@.files.len() == self.files@.len());
            assert(!self@.may_start());
        }
        if self.running == 0 {
            let error = copy_opt(&self.progress.error);
            out.push(
                TreeStep::Send(SyncMessage::TreeEnd { tree: self.progress.id, error }),
            );
            let row = match &self.progress.error {
                None => self.progress.emit(TransferState::Done, None),
                Some(reason) => self.progress.emit(
                    TransferState::Failed,
                    Some(reason.clone()),
                ),
            };
            out.report(row);
            self.stage = TreeStage::Over;
        }
        assert(out@ =~= out0 + s0.pump().1);
    }

    fn advance(&mut self, out: &mut TreeSteps)
        requires
            old(self)@.wf(),
            old(self)@.stage != TreeStage::Walking,
        ensures
            final(self)@ == old(self)@.advance().0,
            final(out)@ == old(out)@ + old(self)@.advance().1,
            final(self)@.wf(),
    {
        proof {
            assert(self@.dirs.len() == self.dirs@.len());
        }
        if self.next_dir < self.dirs.len() {
            let rel = self.dirs[self.next_dir].clone();
            out.push(
                TreeStep::Deliver(SyncMessage::TreeDir { tree: self.progress.id, rel }),
            );
            self.next_dir = self.next_dir + 1;
            self.stage = TreeStage::Directories;
        } else {
            self.stage = TreeStage::Files;
            self.pump(out);
        }
    }

    /// A message went, or the connection is gone.
    pub fn delivered(&mut self, sent: bool) -> (r: TreeSteps)
        requires
            old(self)@.wf(),
        ensures
            (final(self)@, r@) == old(self)@.on_delivered(sent),
            final(self)@.wf(),
    {
        let mut out = TreeSteps::new();
        if self.stage == TreeStage::Announcing || self.stage == TreeStage::Directories {
            if !sent {
                self.fail("connection closed".to_owned(), &mut out);
                self.stage = TreeStage::Over;
            } else {
                if self.stage == TreeStage::Announcing {
                    let row = self.progress.emit(TransferState::Active, None);
                    out.report(row);
                }
                self.advance(&mut out);
            }
        }
        assert(out@ =~= old(self)@.on_delivered(sent).1);
        out
    }

    /// A step of one of the files, and what is reported.
    pub fn on_file(&mut self, id: u64, name: &str, step: &SendStep, now: u64) -> (r: Option<
        FileTransferStatus,
    >)
        requires
            old(self)@.wf(),
        ensures
            (final(self)@, opt_row(r)) == old(self)@.on_file(id, name@, step@, now),
            final(self)@.wf(),
    {
        self.progress.on_file(id, name, step, now)
    }

    /// One of the files is over.
    pub fn file_over(&mut self) -> (r: TreeSteps)
        requires
            old(self)@.wf(),
        ensures
            (final(self)@, r@) == old(self)@.on_file_over(),
            final(self)@.wf(),
    {
        let mut out = TreeSteps::new();
        if self.stage == TreeStage::Files && self.running > 0 {
            self.running = self.running - 1;
            self.pump(&mut out);
        }
        assert(out@ =~= old(self)@.on_file_over().1);
        out
    }
}

/* ---------------------------------- laws ---------------------------------- */

/// Once a file has failed, no further one starts, and the folder is closed
/// with that failure as soon as the files in flight are over.
pub proof fn failures_stop_the_folder(s: FolderSending)
    requires
        s.progress.error is Some,
    ensures
        s.running > 0 ==> s.pump() == (s, Seq::<TreeMove>::empty()),
        s.running == 0 ==> s.pump().1 == seq![
            TreeMove::Send(Msg::TreeEnd { tree: s.progress.id, error: s.progress.error }),
            TreeMove::Report(
                Event::Transfer(
                    s.progress.row(TransferState::Failed, Some(s.progress.error->0)),
                ),
            ),
        ],
{
}

/// The first failure is the one that stays.
pub proof fn first_failures_stay(p: Sent, id: u64, name: Seq<char>, step: Move, now: u64)
    requires
        p.error is Some,
    ensures
        p.on_file(id, name, step, now).0.error == p.error,
{
}

/// The window is never overrun, and while files are left and nothing has
/// failed it is kept full.
pub proof fn the_window_is_kept_full(s: FolderSending)
    requires
        s.wf(),
    ensures
        s.pump().0.wf(),
        s.pump().0.running <= TREE_WINDOW,
        s.progress.error is None && s.pump().0.next_file < s.files.len() ==> s.pump().0.running
            == TREE_WINDOW,
    decreases TREE_WINDOW - s.running,
{
    if s.may_start() {
        the_window_is_kept_full(
            FolderSending { next_file: s.next_file + 1, running: s.running + 1, ..s },
        );
    }
}

/// The directories of a folder are announced in order, none left out.
pub proof fn directories_are_sent_in_order(s: FolderSending)
    requires
        s.stage == TreeStage::Announcing || s.stage == TreeStage::Directories,
        s.next_dir < s.dirs.len(),
    ensures
        ({
            let (t, moves) = s.on_delivered(true);
            let dir = Msg::TreeDir { tree: s.progress.id, rel: s.dirs[s.next_dir as int] };
            &&& moves.last() == TreeMove::Deliver(dir)
            &&& t.next_dir == s.next_dir + 1
            &&& t.dirs == s.dirs
            &&& t.files == s.files
        }),
{
}

/// The file that starts as the `k`-th of a step.
pub open spec fn started(s: FolderSending, k: int) -> TreeMove {
    let f = s.files[s.next_file + k];
    TreeMove::Start { rel: f.rel, path: f.path }
}

/// The files of a folder start in order, none left out and none twice.
pub proof fn files_start_in_order(s: FolderSending)
    requires
        s.wf(),
    ensures
        ({
            let (t, moves) = s.pump();
            let n = t.next_file - s.next_file;
            &&& 0 <= n <= moves.len()
            &&& t.files == s.files
            &&& forall|k: int| 0 <= k < n ==> #[trigger] moves[k] == started(s, k)
            &&& forall|k: int| n <= k < moves.len() ==> !((#[trigger] moves[k]) is Start)
        }),
    decreases TREE_WINDOW - s.running,
{
    if s.may_start() {
        let u = FolderSending { next_file: s.next_file + 1, running: s.running + 1, ..s };
        files_start_in_order(u);
        let (t, moves) = s.pump();
        let rest = u.pump().1;
        assert(moves =~= seq![started(s, 0)] + rest);
        let n = t.next_file - s.next_file;
        assert forall|k: int| 0 <= k < n implies #[trigger] moves[k] == started(s, k) by {
            if k > 0 {
                assert(moves[k] == rest[k - 1]);
                assert(rest[k - 1] == started(u, k - 1));
            }
        }
        assert forall|k: int| n <= k < moves.len() implies !((#[trigger] moves[k]) is Start) by {
            assert(moves[k] == rest[k - 1]);
        }
    }
}

/// The folder is closed, without an error.
pub open spec fn closes_well(m: TreeMove) -> bool {
    m matches TreeMove::Send(Msg::TreeEnd { error: None, .. })
}

/// A folder that is closed without an error has been sent whole: every
/// directory was announced, every file was started, and none is in flight.
pub open spec fn closes_whole(t: FolderSending, moves: Seq<TreeMove>) -> bool {
    forall|k: int|
        0 <= k < moves.len() && #[trigger] closes_well(moves[k]) ==> {
            &&& t.next_dir == t.dirs.len()
            &&& t.next_file == t.files.len()
            &&& t.running == 0
            &&& t.progress.error is None
        }
}

proof fn pumps_close_whole(s: FolderSending)
    requires
        s.wf(),
        s.stage == TreeStage::Files,
    ensures
        closes_whole(s.pump().0, s.pump().1),
    decreases TREE_WINDOW - s.running,
{
    if s.may_start() {
        let u = FolderSending { next_file: s.next_file + 1, running: s.running + 1, ..s };
        pumps_close_whole(u);
        let (t, moves) = s.pump();
        let rest = u.pump().1;
        assert forall|k: int|
            0 <= k < moves.len() && #[trigger] closes_well(moves[k]) implies t.next_dir == t.dirs.len() && t.next_file == t.files.len() && t.running == 0
            && t.progress.error is None by {
            assert(moves[k] == rest[k - 1]);
        }
    }
}

/// Whatever happens, a folder is closed without an error only once it has
/// been sent whole.
pub proof fn folders_are_closed_whole(s: FolderSending, sent: bool)
    requires
        s.wf(),
    ensures
        closes_whole(s.on_delivered(sent).0, s.on_delivered(sent).1),
        closes_whole(s.on_file_over().0, s.on_file_over().1),
{
    if s.stage == TreeStage::Announcing || s.stage == TreeStage::Directories {
        if sent && s.next_dir == s.dirs.len() {
            let u = s.at_stage(TreeStage::Files);
            pumps_close_whole(u);
            if s.stage == TreeStage::Announcing {
                let (t, moves) = s.on_delivered(true);
                let rest = u.pump().1;
                assert forall|k: int|
                    0 <= k < moves.len() && #[trigger] closes_well(moves[k]) implies t.next_dir == t.dirs.len() && t.next_file == t.files.len()
                    && t.running == 0 && t.progress.error is None by {
                    assert(moves[k] == rest[k - 1]);
                }
            }
        }
    }
    if s.stage == TreeStage::Files && s.running > 0 {
        pumps_close_whole(FolderSending { running: (s.running - 1) as nat, ..s });
    }
}

/// All that is reported of a folder's files is the folder's own row.
pub proof fn folders_have_one_row(s: FolderSending, id: u64, name: Seq<char>, step: Move, now: u64)
    ensures
        s.on_file(id, name, step, now).1 matches Some(row) ==> row.kind == TransferKind::Folder
            && row.id == s.progress.id && row.direction == Direction::Sent,
{
}

} // verus!
