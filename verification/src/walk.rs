//! Walking a folder that is to be sent.

use crate::event::capped;
use crate::names::{components, is_separator, names_are_components, texts, Location, Place};
use crate::receive::MAX_TREE_ENTRIES;
use crate::text::{bytes_less, concat3, text_less};
use vstd::prelude::*;
use vstd::string::*;
use vstd::utf8::encode_utf8;

verus! {

/// What a directory entry is. Symlinks are told apart because they are
/// skipped rather than followed: they could point outside the folder or
/// loop.
#[derive(Debug, PartialEq, Eq, Structural, Clone, Copy)]
pub enum EntryKind {
    Symlink,
    Directory,
    File(u64),
}

/// One entry of a directory.
#[derive(Debug)]
pub struct DirEntry {
    pub name: String,
    pub kind: EntryKind,
}

/// What a [`DirEntry`] says.
#[verifier::ext_equal]
pub struct Entry {
    pub name: Seq<char>,
    pub kind: EntryKind,
}

impl View for DirEntry {
    type V = Entry;

    open spec fn view(&self) -> Entry {
        Entry { name: self.name@, kind: self.kind }
    }
}

/// The entries of a listing.
pub open spec fn listing(v: Seq<DirEntry>) -> Seq<Entry> {
    v.map_values(|e: DirEntry| e@)
}

/// A file to be sent, with its place inside the folder.
#[derive(Debug)]
pub struct PlannedFile {
    pub rel: String,
    pub path: Location,
    pub size: u64,
}

/// What a [`PlannedFile`] says.
#[verifier::ext_equal]
pub struct Planned {
    pub rel: Seq<char>,
    pub path: Place,
    pub size: u64,
}

impl View for PlannedFile {
    type V = Planned;

    open spec fn view(&self) -> Planned {
        Planned { rel: self.rel@, path: self.path@, size: self.size }
    }
}

/// The files of a list.
pub open spec fn planned(v: Seq<PlannedFile>) -> Seq<Planned> {
    v.map_values(|f: PlannedFile| f@)
}

/// everything under a folder, relative paths with forward slashes
#[derive(Debug)]
pub struct TreePlan {
    /// every directory (empty ones included), parents before children
    pub dirs: Vec<String>,
    pub files: Vec<PlannedFile>,
    pub bytes: u64,
}

/// What a [`TreePlan`] says.
#[verifier::ext_equal]
pub struct Plan {
    pub dirs: Seq<Seq<char>>,
    pub files: Seq<Planned>,
    pub bytes: u64,
}

impl View for TreePlan {
    type V = Plan;

    open spec fn view(&self) -> Plan {
        Plan { dirs: texts(self.dirs@), files: planned(self.files@), bytes: self.bytes }
    }
}

impl Plan {
    /// No more entries than one folder transfer may have.
    pub open spec fn wf(self) -> bool {
        self.dirs.len() + self.files.len() <= MAX_TREE_ENTRIES
    }
}

/* -------------------------------- sorting -------------------------------- */

/// Whether `a` is listed before `b`.
pub open spec fn name_before(a: Seq<char>, b: Seq<char>) -> bool {
    bytes_less(encode_utf8(a), encode_utf8(b))
}

/// A sorted listing with one more entry, after those it is not before.
pub open spec fn inserted(s: Seq<Entry>, e: Entry) -> Seq<Entry>
    decreases s.len(),
{
    if s.len() > 0 && name_before(e.name, s.last().name) {
        inserted(s.drop_last(), e).push(s.last())
    } else {
        s.push(e)
    }
}

/// A listing in the order of its names.
pub open spec fn sorted(s: Seq<Entry>) -> Seq<Entry>
    decreases s.len(),
{
    if s.len() == 0 {
        s
    } else {
        inserted(sorted(s.drop_last()), s.last())
    }
}

fn insert_entry(v: &mut Vec<DirEntry>, e: DirEntry)
    ensures
        listing(final(v)@) == inserted(listing(old(v)@), e@),
{
    let ghost all = listing(v@);
    let ghost m = e@;
    let mut i: usize = v.len();
    proof {
        assert(all.take(all.len() as int) =~= all);
        assert(all.skip(all.len() as int) =~= Seq::<Entry>::empty());
        assert(inserted(all, m) =~= inserted(all.take(i as int), m) + all.skip(i as int));
    }
    while i > 0 && text_less(e.name.as_str(), v[i - 1].name.as_str())
        invariant
            i <= v@.len(),
            all == listing(v@),
            all.len() == v@.len(),
            m == e@,
            inserted(all, m) == inserted(all.take(i as int), m) + all.skip(i as int),
        decreases i,
    {
        proof {
            let front = all.take(i as int);
            assert(front.last() == all[i - 1]);
            assert(front.drop_last() =~= all.take(i - 1));
            assert(all.skip(i - 1) =~= seq![all[i - 1]] + all.skip(i as int));
            assert(inserted(all.take(i - 1), m).push(all[i - 1]) + all.skip(i as int) =~= inserted(
                all.take(i - 1),
                m,
            ) + all.skip(i - 1));
        }
        i = i - 1;
    }
    proof {
        let front = all.take(i as int);
        if i > 0 {
            assert(front.last() == all[i - 1]);
        }
        assert(inserted(front, m) == front.push(m));
    }
    let ghost before = v@;
    v.insert(i, e);
    assert(listing(v@) =~= all.take(i as int).push(m) + all.skip(i as int));
}

/// Sort a listing by name.
pub fn sort_entries(entries: Vec<DirEntry>) -> (r: Vec<DirEntry>)
    ensures
        listing(r@) == sorted(listing(entries@)),
{
    let ghost all = listing(entries@);
    let mut rest = entries;
    let mut back: Vec<DirEntry> = Vec::new();
    // turn the list round, so that its head can be taken off the end
    while rest.len() > 0
        invariant
            listing(rest@) + listing(back@).reverse() == all,
        decreases rest@.len(),
    {
        let ghost r0 = rest@;
        let ghost b0 = back@;
        if let Some(e) = rest.pop() {
            proof {
                assert(listing(r0) =~= listing(rest@).push(e@));
            }
            back.push(e);
            proof {
                assert(listing(back@) =~= listing(b0).push(e@));
                assert(listing(back@).reverse() =~= seq![e@] + listing(b0).reverse());
                assert(listing(rest@) + listing(back@).reverse() =~= listing(r0) + listing(
                    b0,
                ).reverse());
            }
        }
    }
    let ghost n = all.len() as int;
    proof {
        assert(listing(rest@) =~= Seq::<Entry>::empty());
        assert(listing(back@).reverse() =~= all);
        assert(all.take(0) =~= Seq::<Entry>::empty());
    }
    let mut r: Vec<DirEntry> = Vec::new();
    assert(listing(r@) =~= Seq::<Entry>::empty());
    while back.len() > 0
        invariant
            back@.len() <= n,
            n == all.len(),
            listing(back@).reverse() == all.skip(n - back@.len()),
            listing(r@) == sorted(all.take(n - back@.len())),
        decreases back@.len(),
    {
        let ghost b0 = back@;
        let ghost k = n - back@.len();
        if let Some(e) = back.pop() {
            proof {
                assert(listing(b0) =~= listing(back@).push(e@));
                assert(listing(b0).reverse()[0] == e@);
                assert(all[k] == e@);
                assert(listing(back@).reverse() =~= listing(b0).reverse().skip(1));
                assert(all.skip(k).skip(1) =~= all.skip(k + 1));
                assert(all.take(k + 1).drop_last() =~= all.take(k));
                assert(all.take(k + 1).last() == e@);
            }
            insert_entry(&mut r, e);
        }
    }
    assert(all.take(n) =~= all);
    r
}

/* --------------------------------- walking --------------------------------- */

/// The path inside the folder of `name` in the directory `prefix`.
pub open spec fn rel_of(prefix: Seq<char>, name: Seq<char>) -> Seq<char> {
    if prefix.len() == 0 {
        name
    } else {
        prefix + "/"@ + name
    }
}

/// A walk under way.
#[verifier::ext_equal]
pub struct Walking {
    pub plan: Plan,
    /// directories still to be listed, with their path inside the folder;
    /// the last comes first
    pub pending: Seq<(Place, Seq<char>)>,
}

impl Walking {
    /// A walk that has not looked at anything yet.
    pub open spec fn fresh(root: Place) -> Walking {
        Walking {
            plan: Plan { dirs: Seq::empty(), files: Seq::empty(), bytes: 0 },
            pending: seq![(root, Seq::<char>::empty())],
        }
    }

    /// One entry of `dir` has been seen. `None` where the folder has too many.
    pub open spec fn seen(self, dir: Place, prefix: Seq<char>, e: Entry) -> Option<Walking> {
        let rel = rel_of(prefix, e.name);
        if e.kind is Symlink {
            Some(self)
        } else if self.plan.dirs.len() + self.plan.files.len() >= MAX_TREE_ENTRIES {
            None
        } else {
            match e.kind {
                EntryKind::File(size) => Some(
                    Walking {
                        plan: Plan {
                            files: self.plan.files.push(
                                Planned { rel, path: dir.join(e.name), size },
                            ),
                            bytes: capped(self.plan.bytes as int, size as int),
                            ..self.plan
                        },
                        ..self
                    },
                ),
                _ => Some(
                    Walking {
                        plan: Plan { dirs: self.plan.dirs.push(rel), ..self.plan },
                        pending: self.pending.push((dir.join(e.name), rel)),
                    },
                ),
            }
        }
    }

    /// Entries of `dir` have been seen, in this order.
    pub open spec fn seen_all(
        self,
        dir: Place,
        prefix: Seq<char>,
        entries: Seq<Entry>,
    ) -> Option<Walking>
        decreases entries.len(),
    {
        if entries.len() == 0 {
            Some(self)
        } else {
            match self.seen_all(dir, prefix, entries.drop_last()) {
                Some(w) => w.seen(dir, prefix, entries.last()),
                None => None,
            }
        }
    }
}

/// A walk of a folder under way. The host lists one directory after the
/// other: [`Walker::next_dir`] says which, [`Walker::listed`] takes what it
/// holds.
pub struct Walker {
    pub plan: TreePlan,
    pub pending: Vec<(Location, String)>,
}

/// What the directories still to be listed are.
pub open spec fn pending_view(v: Seq<(Location, String)>) -> Seq<(Place, Seq<char>)> {
    v.map_values(|e: (Location, String)| (e.0@, e.1@))
}

impl View for Walker {
    type V = Walking;

    open spec fn view(&self) -> Walking {
        Walking { plan: self.plan@, pending: pending_view(self.pending@) }
    }
}

impl Walker {
    pub fn new(root: Location) -> (r: Walker)
        ensures
            r@ == Walking::fresh(root@),
            r@.plan.wf(),
    {
        let mut pending: Vec<(Location, String)> = Vec::new();
        let empty = String::new();
        pending.push((root, empty));
        let r = Walker {
            plan: TreePlan { dirs: Vec::new(), files: Vec::new(), bytes: 0 },
            pending,
        };
        proof {
            assert(empty@ =~= Seq::<char>::empty());
            assert(r@.pending =~= seq![(root@, Seq::<char>::empty())]);
            assert(r@.plan.dirs =~= Seq::<Seq<char>>::empty());
            assert(r@.plan.files =~= Seq::<Planned>::empty());
        }
        r
    }

    /// The directory to list next, with its path inside the folder; `None`
    /// when the walk is over.
    pub fn next_dir(&mut self) -> (r: Option<(Location, String)>)
        ensures
            r is Some <==> old(self)@.pending.len() > 0,
            r is Some ==> ((r->0).0@, (r->0).1@) == old(self)@.pending.last(),
            final(self)@ == (Walking {
                pending: if r is Some {
                    old(self)@.pending.drop_last()
                } else {
                    old(self)@.pending
                },
                ..old(self)@
            }),
    {
        let ghost before = self.pending@;
        let r = self.pending.pop();
        proof {
            if r is Some {
                assert(pending_view(self.pending@) =~= pending_view(before).drop_last());
                assert(pending_view(before).last() == ((r->0).0@, (r->0).1@));
            }
        }
        r
    }

    /// What a directory holds. An error where the folder has too many
    /// entries.
    pub fn listed(&mut self, dir: &Location, prefix: &str, entries: Vec<DirEntry>) -> (r: Result<
        (),
        String,
    >)
        requires
            old(self)@.plan.wf(),
        ensures
            r is Ok <==> old(self)@.seen_all(dir@, prefix@, sorted(listing(entries@))) is Some,
            r is Ok ==> final(self)@ == old(self)@.seen_all(
                dir@,
                prefix@,
                sorted(listing(entries@)),
            )->0,
            r is Err ==> r->Err_0@ == "folder has more than 1000000 entries"@,
            final(self)@.plan.wf(),
    {
        let ghost w0 = self@;
        let in_order = sort_entries(entries);
        let ghost all = listing(in_order@);
        let mut i: usize = 0;
        assert(all.take(0) =~= Seq::<Entry>::empty());
        while i < in_order.len()
            invariant
                i <= in_order@.len(),
                all == listing(in_order@),
                all == sorted(listing(entries@)),
                w0 == old(self)@,
                self@.plan.wf(),
                w0.seen_all(dir@, prefix@, all.take(i as int)) == Some(self@),
            decreases in_order@.len() - i,
        {
            proof {
                assert(all.take(i + 1).drop_last() =~= all.take(i as int));
                assert(all.take(i + 1).last() == all[i as int]);
                assert(all[i as int] == in_order@[i as int]@);
            }
            if !self.see(dir, prefix, &in_order[i]) {
                proof {
                    assert(w0.seen_all(dir@, prefix@, all.take(i + 1)) is None);
                    walk_stays_stopped(w0, dir@, prefix@, all, i + 1);
                }
                return Err("folder has more than 1000000 entries".to_owned());
            }
            i = i + 1;
        }
        assert(all.take(i as int) =~= all);
        Ok(())
    }

    fn see(&mut self, dir: &Location, prefix: &str, e: &DirEntry) -> (r: bool)
        requires
            old(self)@.plan.wf(),
        ensures
            r == (old(self)@.seen(dir@, prefix@, e@) is Some),
            r ==> Some(final(self)@) == old(self)@.seen(dir@, prefix@, e@),
            !r ==> final(self)@ == old(self)@,
            final(self)@.plan.wf(),
    {
        if let EntryKind::Symlink = e.kind {
            return true;
        }
        proof {
            assert(self@.plan.dirs.len() == self.plan.dirs@.len());
            assert(self@.plan.files.len() == self.plan.files@.len());
        }
        if self.plan.dirs.len() as u64 >= MAX_TREE_ENTRIES - self.plan.files.len() as u64 {
            return false;
        }
        let rel = if prefix.is_empty() {
            assert(prefix@.len() == 0);
            e.name.clone()
        } else {
            concat3(prefix, "/", e.name.as_str())
        };
        let path = dir.join(e.name.as_str());
        match e.kind {
            EntryKind::File(size) => {
                let ghost before = self.plan.files@;
                if size <= u64::MAX - self.plan.bytes {
                    self.plan.bytes = self.plan.bytes + size;
                } else {
                    self.plan.bytes = u64::MAX;
                }
                let f = PlannedFile { rel, path, size };
                let ghost m = f@;
                self.plan.files.push(f);
                assert(planned(self.plan.files@) =~= planned(before).push(m));
            },
            _ => {
                let ghost dirs0 = self.plan.dirs@;
                let ghost pending0 = self.pending@;
                let ghost m = (path@, rel@);
                self.plan.dirs.push(rel.clone());
                self.pending.push((path, rel));
                proof {
                    assert(texts(self.plan.dirs@) =~= texts(dirs0).push(rel@));
                    assert(pending_view(self.pending@) =~= pending_view(pending0).push(m));
                }
            },
        }
        true
    }
}

proof fn walk_stays_stopped(
    w: Walking,
    dir: Place,
    prefix: Seq<char>,
    entries: Seq<Entry>,
    n: int,
)
    requires
        0 <= n <= entries.len(),
        w.seen_all(dir, prefix, entries.take(n)) is None,
    ensures
        w.seen_all(dir, prefix, entries) is None,
    decreases entries.len() - n,
{
    if n < entries.len() {
        assert(entries.take(n + 1).drop_last() =~= entries.take(n));
        walk_stays_stopped(w, dir, prefix, entries, n + 1);
    } else {
        assert(entries.take(n) =~= entries);
    }
}

/* ---------------------------------- laws ---------------------------------- */

/// Sorting a listing neither loses nor makes up an entry.
pub proof fn sorting_keeps_the_entries(s: Seq<Entry>)
    ensures
        sorted(s).to_multiset() == s.to_multiset(),
    decreases s.len(),
{
    broadcast use vstd::seq_lib::group_to_multiset_ensures;

    if s.len() > 0 {
        sorting_keeps_the_entries(s.drop_last());
        inserting_keeps_the_entries(sorted(s.drop_last()), s.last());
        assert(s =~= s.drop_last().push(s.last()));
    }
}

proof fn inserting_keeps_the_entries(s: Seq<Entry>, e: Entry)
    ensures
        inserted(s, e).to_multiset() == s.push(e).to_multiset(),
    decreases s.len(),
{
    broadcast use vstd::seq_lib::group_to_multiset_ensures;

    if s.len() > 0 && name_before(e.name, s.last().name) {
        inserting_keeps_the_entries(s.drop_last(), e);
        assert(s =~= s.drop_last().push(s.last()));
        assert(s.push(e).to_multiset() =~= s.drop_last().push(e).push(s.last()).to_multiset());
    }
}

/// What a walk has planned stays planned.
pub open spec fn extends(w: Walking, r: Walking) -> bool {
    &&& w.plan.dirs.len() <= r.plan.dirs.len()
    &&& w.plan.files.len() <= r.plan.files.len()
    &&& w.pending.len() <= r.pending.len()
    &&& r.plan.dirs.take(w.plan.dirs.len() as int) == w.plan.dirs
    &&& r.plan.files.take(w.plan.files.len() as int) == w.plan.files
    &&& r.pending.take(w.pending.len() as int) == w.pending
}

/// What a directory adds to a plan: each of its directories is announced
/// and will be walked, each of its files is sent, and nothing else (no
/// symlink) is.
pub proof fn walks_leave_nothing_out(
    w: Walking,
    dir: Place,
    prefix: Seq<char>,
    entries: Seq<Entry>,
)
    requires
        w.seen_all(dir, prefix, entries) is Some,
    ensures
        ({
            let r = w.seen_all(dir, prefix, entries)->0;
            &&& extends(w, r)
            &&& forall|i: int|
                0 <= i < entries.len() ==> {
                    let e = #[trigger] entries[i];
                    let rel = rel_of(prefix, e.name);
                    &&& e.kind is Directory ==> r.plan.dirs.contains(rel) && r.pending.contains(
                        (dir.join(e.name), rel),
                    )
                    &&& e.kind is File ==> r.plan.files.contains(
                        Planned { rel, path: dir.join(e.name), size: e.kind->File_0 },
                    )
                }
            &&& r.plan.dirs.len() + r.plan.files.len() == w.plan.dirs.len() + w.plan.files.len()
                + entries.filter(|e: Entry| !(e.kind is Symlink)).len()
        }),
    decreases entries.len(),
{
    reveal(Seq::filter);
    let r = w.seen_all(dir, prefix, entries)->0;
    assert(w.plan.dirs.take(w.plan.dirs.len() as int) =~= w.plan.dirs);
    assert(w.plan.files.take(w.plan.files.len() as int) =~= w.plan.files);
    assert(w.pending.take(w.pending.len() as int) =~= w.pending);
    if entries.len() > 0 {
        let rest = entries.drop_last();
        walks_leave_nothing_out(w, dir, prefix, rest);
        let m = w.seen_all(dir, prefix, rest)->0;
        let last = entries.last();
        let rel = rel_of(prefix, last.name);
        assert(r.plan.dirs.take(w.plan.dirs.len() as int) =~= w.plan.dirs);
        assert(r.plan.files.take(w.plan.files.len() as int) =~= w.plan.files);
        assert(r.pending.take(w.pending.len() as int) =~= w.pending);
        assert forall|i: int| 0 <= i < entries.len() implies {
            let e = #[trigger] entries[i];
            let rel = rel_of(prefix, e.name);
            &&& e.kind is Directory ==> r.plan.dirs.contains(rel) && r.pending.contains(
                (dir.join(e.name), rel),
            )
            &&& e.kind is File ==> r.plan.files.contains(
                Planned { rel, path: dir.join(e.name), size: e.kind->File_0 },
            )
        } by {
            let e = entries[i];
            let rel = rel_of(prefix, e.name);
            let p = Planned { rel, path: dir.join(e.name), size: e.kind->File_0 };
            if i < rest.len() {
                assert(rest[i] == e);
                if e.kind is Directory {
                    let k = choose|k: int| 0 <= k < m.plan.dirs.len() && m.plan.dirs[k] == rel;
                    assert(r.plan.dirs[k] == rel);
                    let q = (dir.join(e.name), rel);
                    let j = choose|j: int| 0 <= j < m.pending.len() && m.pending[j] == q;
                    assert(r.pending[j] == q);
                }
                if e.kind is File {
                    let k = choose|k: int| 0 <= k < m.plan.files.len() && m.plan.files[k] == p;
                    assert(r.plan.files[k] == p);
                }
            } else {
                if e.kind is Directory {
                    assert(r.plan.dirs[m.plan.dirs.len() as int] == rel);
                    assert(r.pending[m.pending.len() as int] == (dir.join(e.name), rel));
                }
                if e.kind is File {
                    assert(r.plan.files[m.plan.files.len() as int] == p);
                }
            }
        }
    }
}

/// The path of an entry inside the folder is that of its directory, and then
/// its name: the way it stands on the sender's side is the way it is named
/// to the peer.
pub proof fn paths_follow_the_structure(prefix: Seq<char>, name: Seq<char>)
    requires
        forall|i: int| 0 <= i < name.len() ==> !is_separator(#[trigger] name[i]),
    ensures
        components(rel_of(prefix, name)) == (if prefix.len() == 0 {
            seq![name]
        } else {
            components(prefix).push(name)
        }),
{
    reveal_strlit("/");
    assert("/"@ =~= seq!['/']);
    names_are_components(prefix, name);
}

} // verus!
