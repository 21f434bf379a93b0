//! What the receiving side asks its host to do.

use crate::event::{Event, SyncEvent};
use crate::ipc::{FileTransferStatus, TransferKind};
use crate::names::{Location, Place};
use crate::proto::{Msg, SyncMessage};
use vstd::prelude::*;

verus! {

/// File work whose outcome the inbox waits for.
#[derive(Debug)]
pub enum Task {
    /// create a directory and its parents; answer [`Inbox::dir_made`]
    MakeDir(Location),
    /// create `dir`, then a part file in it that will become `name`; answer
    /// [`Inbox::part_opened`]
    OpenPart { id: u64, dir: Location, name: String },
    /// create `parent`, then an unused directory called `name` in it; answer
    /// [`Inbox::root_made`]
    MakeRoot { parent: Location, name: String },
    /// append to the part file of `id`; answer [`Inbox::chunk_written`]
    Write { id: u64, data: Vec<u8> },
    /// close the part file of `id` and rename it, making it durable first if
    /// asked; answer [`Inbox::committed`]
    Commit { id: u64, from: Location, to: Location, durable: bool },
    /// move a finished folder to an unused name in `dir`; answer
    /// [`Inbox::folder_placed`]
    PlaceFolder { from: Location, dir: Location, name: String },
    /// move a dropped item to an unused name in `dir`; answer
    /// [`Inbox::item_placed`]
    PlaceItem { from: Location, dir: Location, name: String, kind: TransferKind },
}

/// Something for the host to carry out.
#[derive(Debug)]
pub enum Effect {
    /// to the peer; a failure to send is ignored
    Send(SyncMessage),
    /// to the frontends
    Report(SyncEvent),
    /// close and delete the part file of a transfer; failure is ignored
    Discard { id: u64, part: Location },
    /// delete a directory and all in it; failure is ignored
    RemoveTree(Location),
    /// create a directory and its parents; failure is ignored
    EnsureDir(Location),
    Do(Task),
}

/// What a [`Task`] asks for.
#[verifier::ext_equal]
pub enum Job {
    MakeDir(Place),
    OpenPart { id: u64, dir: Place, name: Seq<char> },
    MakeRoot { parent: Place, name: Seq<char> },
    Write { id: u64, data: Seq<u8> },
    Commit { id: u64, from: Place, to: Place, durable: bool },
    PlaceFolder { from: Place, dir: Place, name: Seq<char> },
    PlaceItem { from: Place, dir: Place, name: Seq<char>, kind: TransferKind },
}

/// What an [`Effect`] is.
#[verifier::ext_equal]
pub enum Act {
    Send(Msg),
    Report(Event),
    Discard { id: u64, part: Place },
    RemoveTree(Place),
    EnsureDir(Place),
    Do(Job),
}

impl View for Task {
    type V = Job;

    open spec fn view(&self) -> Job {
        match *self {
            Task::MakeDir(dir) => Job::MakeDir(dir@),
            Task::OpenPart { id, dir, name } => Job::OpenPart { id, dir: dir@, name: name@ },
            Task::MakeRoot { parent, name } => Job::MakeRoot { parent: parent@, name: name@ },
            Task::Write { id, data } => Job::Write { id, data: data@ },
            Task::Commit { id, from, to, durable } => Job::Commit {
                id,
                from: from@,
                to: to@,
                durable,
            },
            Task::PlaceFolder { from, dir, name } => Job::PlaceFolder {
                from: from@,
                dir: dir@,
                name: name@,
            },
            Task::PlaceItem { from, dir, name, kind } => Job::PlaceItem {
                from: from@,
                dir: dir@,
                name: name@,
                kind,
            },
        }
    }
}

impl View for Effect {
    type V = Act;

    open spec fn view(&self) -> Act {
        match *self {
            Effect::Send(msg) => Act::Send(msg@),
            Effect::Report(event) => Act::Report(event@),
            Effect::Discard { id, part } => Act::Discard { id, part: part@ },
            Effect::RemoveTree(dir) => Act::RemoveTree(dir@),
            Effect::EnsureDir(dir) => Act::EnsureDir(dir@),
            Effect::Do(task) => Act::Do(task@),
        }
    }
}

/// Effects in the order in which they are carried out.
pub struct Effects {
    pub list: Vec<Effect>,
}

/// What a list of effects is.
pub open spec fn acts(v: Seq<Effect>) -> Seq<Act> {
    v.map_values(|e: Effect| e@)
}

impl View for Effects {
    type V = Seq<Act>;

    open spec fn view(&self) -> Seq<Act> {
        acts(self.list@)
    }
}

impl Effects {
    pub fn new() -> (r: Effects)
        ensures
            r@ == Seq::<Act>::empty(),
    {
        let r = Effects { list: Vec::new() };
        assert(r@ =~= Seq::<Act>::empty());
        r
    }

    pub fn push(&mut self, e: Effect)
        ensures
            final(self)@ == old(self)@.push(e@),
    {
        let ghost before = self.list@;
        let ghost m = e@;
        self.list.push(e);
        assert(acts(self.list@) =~= acts(before).push(m));
    }

    pub fn send(&mut self, msg: SyncMessage)
        ensures
            final(self)@ == old(self)@.push(Act::Send(msg@)),
    {
        self.push(Effect::Send(msg));
    }

    pub fn report(&mut self, row: FileTransferStatus)
        ensures
            final(self)@ == old(self)@.push(Act::Report(Event::Transfer(row@))),
    {
        self.push(Effect::Report(SyncEvent::Transfer(row)));
    }

    pub fn remove_tree(&mut self, dir: &Location)
        ensures
            final(self)@ == old(self)@.push(Act::RemoveTree(dir@)),
    {
        let d = dir.copied();
        self.push(Effect::RemoveTree(d));
    }

    pub fn discard(&mut self, id: u64, part: &Location)
        ensures
            final(self)@ == old(self)@.push((Act::Discard { id, part: part@ })),
    {
        let p = part.copied();
        self.push(Effect::Discard { id, part: p });
    }
}

/// File work that failed: on what, and why, both as the host words them.
#[derive(Debug)]
pub struct IoFailure {
    pub at: String,
    pub cause: String,
}

/// How [`Task::MakeRoot`] went.
#[derive(Debug)]
pub enum RootMade {
    /// the parent could not be created
    NoParent(IoFailure),
    /// the directory was chosen (`shown` is how the host words it), and
    /// created unless there is a cause why not
    Chosen { root: Location, shown: String, failure: Option<String> },
}

} // verus!
