//! What a finished walk has found.

use crate::event::capped;
use crate::names::Place;
use crate::walk::{
    rel_of, sorted, sorting_keeps_the_entries, Entry, EntryKind, Planned, Walking,
};
use vstd::prelude::*;

verus! {

/* ------------------------------- the folder ------------------------------- */

/// The names on the way from the root of a folder to something in it.
pub type Names = Seq<Seq<char>>;

/// Whether there is a directory at `names`; `list` is what each directory
/// holds. Symlinks are not followed.
pub open spec fn is_dir(list: spec_fn(Place) -> Seq<Entry>, root: Place, names: Names) -> bool
    decreases names.len(),
{
    names.len() == 0 || (is_dir(list, root, names.drop_last()) && list(
        root.follow(names.drop_last()),
    ).contains(Entry { name: names.last(), kind: EntryKind::Directory }))
}

/// Whether there is a file of `size` bytes at `names`.
pub open spec fn is_file(
    list: spec_fn(Place) -> Seq<Entry>,
    root: Place,
    names: Names,
    size: u64,
) -> bool {
    names.len() > 0 && is_dir(list, root, names.drop_last()) && list(
        root.follow(names.drop_last()),
    ).contains(Entry { name: names.last(), kind: EntryKind::File(size) })
}

/// The path inside the folder.
pub open spec fn rel_path(names: Names) -> Seq<char>
    decreases names.len(),
{
    if names.len() == 0 {
        Seq::empty()
    } else {
        rel_of(rel_path(names.drop_last()), names.last())
    }
}

/// A file name: something, without a slash.
pub open spec fn proper(name: Seq<char>) -> bool {
    name.len() > 0 && !name.contains('/')
}

/// No two entries have the same name, and each has a proper one.
pub open spec fn tidy_listing(entries: Seq<Entry>) -> bool {
    &&& forall|i: int| 0 <= i < entries.len() ==> proper((#[trigger] entries[i]).name)
    &&& forall|i: int, j: int|
        0 <= i < entries.len() && 0 <= j < entries.len() && i != j ==> (
        #[trigger] entries[i]).name != (#[trigger] entries[j]).name
}

/// Every directory is as directories are.
pub open spec fn tidy(list: spec_fn(Place) -> Seq<Entry>) -> bool {
    forall|place: Place| tidy_listing(#[trigger] list(place))
}

/// What the plan says of the file at `names`.
pub open spec fn planned_at(root: Place, names: Names, size: u64) -> Planned {
    Planned { rel: rel_path(names), path: root.follow(names), size }
}

/// The bytes of all files of a plan.
pub open spec fn sizes(files: Seq<Planned>) -> nat
    decreases files.len(),
{
    if files.len() == 0 {
        0
    } else {
        sizes(files.drop_last()) + files.last().size as nat
    }
}

/* --------------------------------- the walk --------------------------------- */

/// The next directory is listed. `None` where the folder has too many
/// entries.
pub open spec fn walk_on(list: spec_fn(Place) -> Seq<Entry>, w: Walking) -> Option<Walking> {
    if w.pending.len() == 0 {
        Some(w)
    } else {
        let (dir, prefix) = w.pending.last();
        Walking { pending: w.pending.drop_last(), ..w }.seen_all(dir, prefix, sorted(list(dir)))
    }
}

/// The walk after `n` directories.
pub open spec fn walked_for(
    list: spec_fn(Place) -> Seq<Entry>,
    root: Place,
    n: nat,
) -> Option<Walking>
    decreases n,
{
    if n == 0 {
        Some(Walking::fresh(root))
    } else {
        match walked_for(list, root, (n - 1) as nat) {
            Some(w) => walk_on(list, w),
            None => None,
        }
    }
}

/* ---------------------------------- paths ---------------------------------- */

proof fn dirs_have_proper_names(list: spec_fn(Place) -> Seq<Entry>, root: Place, names: Names, i: int)
    requires
        tidy(list),
        is_dir(list, root, names),
        0 <= i < names.len(),
    ensures
        proper(names[i]),
    decreases names.len(),
{
    let front = names.drop_last();
    if i < front.len() {
        dirs_have_proper_names(list, root, front, i);
        assert(front[i] == names[i]);
    } else {
        let es = list(root.follow(front));
        let e = Entry { name: names.last(), kind: EntryKind::Directory };
        let k = choose|k: int| 0 <= k < es.len() && es[k] == e;
        assert(tidy_listing(es));
        assert(proper(es[k].name));
    }
}

proof fn rels_are_not_empty(names: Names)
    requires
        names.len() > 0,
        proper(names.last()),
    ensures
        rel_path(names).len() > 0,
{
    reveal_strlit("/");
}

proof fn joins_differ(p: Seq<char>, a: Seq<char>, q: Seq<char>, b: Seq<char>)
    requires
        proper(a),
        proper(b),
        rel_of(p, a) == rel_of(q, b),
    ensures
        p == q,
        a == b,
{
    reveal_strlit("/");
    let r = rel_of(p, a);
    if p.len() == 0 && q.len() > 0 {
        assert(r[q.len() as int] == '/');
        assert(a[q.len() as int] == '/');
        assert(a.contains('/'));
    } else if q.len() == 0 && p.len() > 0 {
        assert(r[p.len() as int] == '/');
        assert(b[p.len() as int] == '/');
        assert(b.contains('/'));
    } else if p.len() > 0 {
        let front = p + "/"@;
        assert(r == front + a && r == q + "/"@ + b);
        assert(r.len() == p.len() + 1 + a.len() && r.len() == q.len() + 1 + b.len());
        assert(r[p.len() as int] == '/' && r[q.len() as int] == '/');
        if p.len() < q.len() {
            assert(r[q.len() as int] == a[q.len() - front.len()]);
            assert(a.contains('/'));
        }
        if q.len() < p.len() {
            assert(b[p.len() - q.len() - 1] == r[p.len() as int]);
            assert(b.contains('/'));
        }
        assert(p =~= r.take(p.len() as int));
        assert(q =~= r.take(q.len() as int));
        assert(a =~= r.skip(p.len() as int + 1));
        assert(b =~= r.skip(q.len() as int + 1));
    } else {
        assert(p =~= q);
    }
}

/// Different directories have different paths.
proof fn rels_differ(list: spec_fn(Place) -> Seq<Entry>, root: Place, a: Names, b: Names)
    requires
        tidy(list),
        is_dir(list, root, a),
        is_dir(list, root, b),
        rel_path(a) == rel_path(b),
    ensures
        a == b,
    decreases a.len(),
{
    if a.len() > 0 {
        dirs_have_proper_names(list, root, a, a.len() - 1);
        rels_are_not_empty(a);
    }
    if b.len() > 0 {
        dirs_have_proper_names(list, root, b, b.len() - 1);
        rels_are_not_empty(b);
    }
    if a.len() > 0 && b.len() > 0 {
        joins_differ(rel_path(a.drop_last()), a.last(), rel_path(b.drop_last()), b.last());
        rels_differ(list, root, a.drop_last(), b.drop_last());
        assert(a =~= a.drop_last().push(a.last()));
        assert(b =~= b.drop_last().push(b.last()));
    } else {
        assert(a =~= b);
    }
}

/* -------------------------------- one listing -------------------------------- */

/// The directories of a listing, or its files.
pub open spec fn only(entries: Seq<Entry>, dirs: bool) -> Seq<Entry>
    decreases entries.len(),
{
    if entries.len() == 0 {
        Seq::empty()
    } else {
        let front = only(entries.drop_last(), dirs);
        let e = entries.last();
        if (dirs && e.kind is Directory) || (!dirs && e.kind is File) {
            front.push(e)
        } else {
            front
        }
    }
}

pub open spec fn rels_in(prefix: Seq<char>, entries: Seq<Entry>) -> Seq<Seq<char>> {
    only(entries, true).map_values(|e: Entry| rel_of(prefix, e.name))
}

pub open spec fn pending_in(dir: Place, prefix: Seq<char>, entries: Seq<Entry>) -> Seq<
    (Place, Seq<char>),
> {
    only(entries, true).map_values(|e: Entry| (dir.join(e.name), rel_of(prefix, e.name)))
}

pub open spec fn files_in(dir: Place, prefix: Seq<char>, entries: Seq<Entry>) -> Seq<Planned> {
    only(entries, false).map_values(
        |e: Entry|
            Planned { rel: rel_of(prefix, e.name), path: dir.join(e.name), size: e.kind->File_0 },
    )
}

proof fn only_keeps_its_kind(entries: Seq<Entry>, dirs: bool, e: Entry)
    ensures
        only(entries, dirs).contains(e) <==> entries.contains(e) && (if dirs {
            e.kind is Directory
        } else {
            e.kind is File
        }),
    decreases entries.len(),
{
    if entries.len() > 0 {
        let front = entries.drop_last();
        let kept = only(front, dirs);
        let all = only(entries, dirs);
        only_keeps_its_kind(front, dirs, e);
        if entries.contains(e) {
            let k = choose|k: int| 0 <= k < entries.len() && entries[k] == e;
            if k < front.len() {
                assert(front[k] == e);
            }
        }
        if front.contains(e) {
            let k = choose|k: int| 0 <= k < front.len() && front[k] == e;
            assert(entries[k] == e);
        }
        assert(entries[entries.len() - 1] == entries.last());
        if kept.contains(e) {
            let k = choose|k: int| 0 <= k < kept.len() && kept[k] == e;
            assert(all[k] == e);
        }
        if all.contains(e) && !kept.contains(e) {
            let k = choose|k: int| 0 <= k < all.len() && all[k] == e;
            if k < kept.len() {
                assert(kept[k] == e);
            }
        }
        if all.len() > kept.len() {
            assert(all[kept.len() as int] == entries.last());
        }
    }
}

proof fn only_stays_tidy(entries: Seq<Entry>, dirs: bool)
    requires
        tidy_listing(entries),
    ensures
        tidy_listing(only(entries, dirs)),
    decreases entries.len(),
{
    if entries.len() > 0 {
        let front = entries.drop_last();
        assert(tidy_listing(front)) by {
            assert forall|i: int| 0 <= i < front.len() implies proper((#[trigger] front[i]).name) by {
                assert(front[i] == entries[i]);
            }
        }
        only_stays_tidy(front, dirs);
        let kept = only(front, dirs);
        let last = entries.last();
        assert forall|i: int| 0 <= i < kept.len() implies (#[trigger] kept[i]).name
            != last.name by {
            assert(kept.contains(kept[i]));
            only_keeps_its_kind(front, dirs, kept[i]);
            let k = choose|k: int| 0 <= k < front.len() && front[k] == kept[i];
            assert(entries[k] == kept[i]);
            assert(entries[entries.len() - 1] == last);
        }
        assert(proper(entries[entries.len() - 1].name));
    }
}

/// A listing adds its directories and its files, in order.
proof fn listings_add_up(w: Walking, dir: Place, prefix: Seq<char>, entries: Seq<Entry>)
    requires
        w.seen_all(dir, prefix, entries) is Some,
        w.plan.bytes == capped(sizes(w.plan.files) as int, 0),
        w.plan.wf(),
    ensures
        ({
            let r = w.seen_all(dir, prefix, entries)->0;
            &&& r.plan.dirs == w.plan.dirs + rels_in(prefix, entries)
            &&& r.pending == w.pending + pending_in(dir, prefix, entries)
            &&& r.plan.files == w.plan.files + files_in(dir, prefix, entries)
            &&& r.plan.bytes == capped(sizes(r.plan.files) as int, 0)
            &&& r.plan.wf()
        }),
    decreases entries.len(),
{
    let r = w.seen_all(dir, prefix, entries)->0;
    if entries.len() == 0 {
        assert(rels_in(prefix, entries) =~= Seq::<Seq<char>>::empty());
        assert(pending_in(dir, prefix, entries) =~= Seq::<(Place, Seq<char>)>::empty());
        assert(files_in(dir, prefix, entries) =~= Seq::<Planned>::empty());
        assert(r.plan.dirs =~= w.plan.dirs + rels_in(prefix, entries));
        assert(r.pending =~= w.pending + pending_in(dir, prefix, entries));
        assert(r.plan.files =~= w.plan.files + files_in(dir, prefix, entries));
    } else {
        let front = entries.drop_last();
        let e = entries.last();
        listings_add_up(w, dir, prefix, front);
        let m = w.seen_all(dir, prefix, front)->0;
        assert(Some(r) == m.seen(dir, prefix, e));
        match e.kind {
            EntryKind::Symlink => {
                assert(only(entries, true) == only(front, true));
                assert(only(entries, false) == only(front, false));
            },
            EntryKind::Directory => {
                assert(only(entries, true) == only(front, true).push(e));
                assert(only(entries, false) == only(front, false));
                assert(rels_in(prefix, entries) =~= rels_in(prefix, front).push(
                    rel_of(prefix, e.name),
                ));
                assert(pending_in(dir, prefix, entries) =~= pending_in(dir, prefix, front).push(
                    (dir.join(e.name), rel_of(prefix, e.name)),
                ));
                assert(r.plan.dirs =~= w.plan.dirs + rels_in(prefix, entries));
                assert(r.pending =~= w.pending + pending_in(dir, prefix, entries));
            },
            EntryKind::File(size) => {
                let p = Planned { rel: rel_of(prefix, e.name), path: dir.join(e.name), size };
                assert(only(entries, false) == only(front, false).push(e));
                assert(only(entries, true) == only(front, true));
                assert(files_in(dir, prefix, entries) =~= files_in(dir, prefix, front).push(p));
                assert(r.plan.files =~= w.plan.files + files_in(dir, prefix, entries));
                assert(r.plan.files == m.plan.files.push(p));
                assert(r.plan.files.drop_last() =~= m.plan.files);
                assert(r.plan.files.last() == p);
            },
        }
    }
}

proof fn sorting_stays_tidy(entries: Seq<Entry>)
    requires
        tidy_listing(entries),
    ensures
        tidy_listing(sorted(entries)),
        forall|e: Entry| #[trigger] sorted(entries).contains(e) <==> entries.contains(e),
{
    broadcast use vstd::seq_lib::group_to_multiset_ensures;

    let s = sorted(entries);
    sorting_keeps_the_entries(entries);
    assert forall|e: Entry| #[trigger] s.contains(e) <==> entries.contains(e) by {
        assert(s.to_multiset().count(e) == entries.to_multiset().count(e));
    }
    assert forall|i: int| 0 <= i < s.len() implies proper((#[trigger] s[i]).name) by {
        assert(s.contains(s[i]));
        let k = choose|k: int| 0 <= k < entries.len() && entries[k] == s[i];
        assert(proper(entries[k].name));
    }
    assert(entries.no_duplicates());
    entries.lemma_multiset_has_no_duplicates();
    s.lemma_multiset_has_no_duplicates_conv();
    assert forall|i: int, j: int| 0 <= i < s.len() && 0 <= j < s.len() && i != j implies (
    #[trigger] s[i]).name != (#[trigger] s[j]).name by {
        assert(s.contains(s[i]) && s.contains(s[j]));
        let k = choose|k: int| 0 <= k < entries.len() && entries[k] == s[i];
        let l = choose|l: int| 0 <= l < entries.len() && entries[l] == s[j];
        if k == l {
            assert(s[i] == s[j]);
        }
    }
}

/* ------------------------------ the walk so far ------------------------------ */

/// How the directory at `names` waits to be listed.
pub open spec fn pend(root: Place, names: Names) -> (Place, Seq<char>) {
    (root.follow(names), rel_path(names))
}

/// The directory at `names` is the root, or in the plan.
pub open spec fn known(w: Walking, names: Names) -> bool {
    names.len() == 0 || w.plan.dirs.contains(rel_path(names))
}

/// What the directory at `names` holds has been seen.
pub open spec fn listed(w: Walking, root: Place, names: Names) -> bool {
    known(w, names) && !w.pending.contains(pend(root, names))
}

/// The `k`-th of `dirs` is the directory at `names`, and comes after the one
/// that it is in.
pub open spec fn dir_stands(
    list: spec_fn(Place) -> Seq<Entry>,
    root: Place,
    dirs: Seq<Seq<char>>,
    k: int,
    names: Names,
) -> bool {
    &&& names.len() > 0
    &&& is_dir(list, root, names)
    &&& dirs[k] == rel_path(names)
    &&& names.len() == 1 || dirs.take(k).contains(rel_path(names.drop_last()))
}

/// The `k`-th of `dirs` is a directory of the folder, and comes after the
/// one that it is in.
pub open spec fn dir_is_there(
    list: spec_fn(Place) -> Seq<Entry>,
    root: Place,
    dirs: Seq<Seq<char>>,
    k: int,
) -> bool {
    exists|names: Names| #[trigger] dir_stands(list, root, dirs, k, names)
}

/// `p` is the file at `names`.
pub open spec fn file_stands(
    list: spec_fn(Place) -> Seq<Entry>,
    root: Place,
    p: Planned,
    names: Names,
) -> bool {
    is_file(list, root, names, p.size) && p == planned_at(root, names, p.size)
}

/// `q` is the directory at `names`, waiting to be listed.
pub open spec fn pending_stands(
    list: spec_fn(Place) -> Seq<Entry>,
    root: Place,
    w: Walking,
    q: (Place, Seq<char>),
    names: Names,
) -> bool {
    is_dir(list, root, names) && known(w, names) && q == pend(root, names)
}

/// `p` is a file of the folder.
pub open spec fn file_is_there(
    list: spec_fn(Place) -> Seq<Entry>,
    root: Place,
    p: Planned,
) -> bool {
    exists|names: Names| #[trigger] file_stands(list, root, p, names)
}

/// `p` is a file of a directory that was listed.
pub open spec fn file_was_seen(
    list: spec_fn(Place) -> Seq<Entry>,
    root: Place,
    w: Walking,
    p: Planned,
) -> bool {
    exists|names: Names| #[trigger]
        file_stands(list, root, p, names) && listed(w, root, names.drop_last())
}

/// `q` is a directory of the folder, waiting to be listed.
pub open spec fn pending_is_there(
    list: spec_fn(Place) -> Seq<Entry>,
    root: Place,
    w: Walking,
    q: (Place, Seq<char>),
) -> bool {
    exists|names: Names| #[trigger] pending_stands(list, root, w, q, names)
}

/// What the walk has planned is there.
pub open spec fn only_what_is_there(
    list: spec_fn(Place) -> Seq<Entry>,
    root: Place,
    w: Walking,
) -> bool {
    &&& forall|k: int|
        0 <= k < w.plan.dirs.len() ==> #[trigger] dir_is_there(list, root, w.plan.dirs, k)
    &&& forall|k: int|
        0 <= k < w.plan.files.len() ==> file_was_seen(list, root, w, #[trigger] w.plan.files[k])
    &&& forall|k: int|
        0 <= k < w.pending.len() ==> pending_is_there(list, root, w, #[trigger] w.pending[k])
    &&& forall|names: Names|
        names.len() > 0 && #[trigger] is_dir(list, root, names) && w.plan.dirs.contains(
            rel_path(names),
        ) ==> listed(w, root, names.drop_last())
}

/// What is there is planned, as far as the walk has seen.
pub open spec fn all_that_was_seen(
    list: spec_fn(Place) -> Seq<Entry>,
    root: Place,
    w: Walking,
) -> bool {
    &&& forall|names: Names|
        names.len() > 0 && #[trigger] is_dir(list, root, names) && listed(
            w,
            root,
            names.drop_last(),
        ) ==> w.plan.dirs.contains(rel_path(names))
    &&& forall|names: Names, size: u64| #[trigger]
        is_file(list, root, names, size) && listed(w, root, names.drop_last())
            ==> w.plan.files.contains(planned_at(root, names, size))
}

/// Nothing is planned twice, the bytes are counted, and there is not too
/// much.
pub open spec fn nothing_twice(w: Walking) -> bool {
    &&& w.plan.dirs.no_duplicates()
    &&& w.plan.files.no_duplicates()
    &&& w.pending.no_duplicates()
    &&& w.plan.bytes == capped(sizes(w.plan.files) as int, 0)
    &&& w.plan.wf()
}

pub open spec fn found(list: spec_fn(Place) -> Seq<Entry>, root: Place, w: Walking) -> bool {
    &&& only_what_is_there(list, root, w)
    &&& all_that_was_seen(list, root, w)
    &&& nothing_twice(w)
}

/// `r` follows on `w` by what the directory at `p` holds.
spec fn follows(
    list: spec_fn(Place) -> Seq<Entry>,
    root: Place,
    w: Walking,
    p: Names,
    r: Walking,
) -> bool {
    let es = sorted(list(root.follow(p)));
    &&& tidy(list)
    &&& found(list, root, w)
    &&& w.pending.len() > 0
    &&& pending_stands(list, root, w, w.pending.last(), p)
    &&& r.plan.dirs == w.plan.dirs + rels_in(rel_path(p), es)
    &&& r.pending == w.pending.drop_last() + pending_in(root.follow(p), rel_path(p), es)
    &&& r.plan.files == w.plan.files + files_in(root.follow(p), rel_path(p), es)
    &&& r.plan.bytes == capped(sizes(r.plan.files) as int, 0)
    &&& r.plan.wf()
}

/// What is in the directory at `p`.
proof fn children_stand(
    list: spec_fn(Place) -> Seq<Entry>,
    root: Place,
    p: Names,
    dirs: bool,
    k: int,
)
    requires
        tidy(list),
        is_dir(list, root, p),
        0 <= k < only(sorted(list(root.follow(p))), dirs).len(),
    ensures
        ({
            let e = only(sorted(list(root.follow(p))), dirs)[k];
            let names = p.push(e.name);
            &&& proper(e.name)
            &&& names.drop_last() == p
            &&& rel_path(names) == rel_of(rel_path(p), e.name)
            &&& root.follow(names) == root.follow(p).join(e.name)
            &&& dirs ==> is_dir(list, root, names)
            &&& !dirs ==> e.kind is File && is_file(list, root, names, e.kind->File_0)
        }),
{
    let all = list(root.follow(p));
    let es = sorted(all);
    let e = only(es, dirs)[k];
    let names = p.push(e.name);
    assert(tidy_listing(all));
    sorting_stays_tidy(all);
    only_stays_tidy(es, dirs);
    assert(only(es, dirs).contains(e));
    only_keeps_its_kind(es, dirs, e);
    assert(all.contains(e));
    assert(names.drop_last() =~= p);
    assert(root.follow(names).parts =~= root.follow(p).join(e.name).parts);
    if dirs {
        assert(e == Entry { name: names.last(), kind: EntryKind::Directory });
    } else {
        assert(e == Entry { name: names.last(), kind: EntryKind::File(e.kind->File_0) });
    }
}

/// What is in the directory at `p` is among its children.
proof fn children_are_listed(
    list: spec_fn(Place) -> Seq<Entry>,
    root: Place,
    names: Names,
    kind: EntryKind,
) -> (k: int)
    requires
        tidy(list),
        names.len() > 0,
        !(kind is Symlink),
        list(root.follow(names.drop_last())).contains(Entry { name: names.last(), kind }),
    ensures
        ({
            let es = only(sorted(list(root.follow(names.drop_last()))), kind is Directory);
            0 <= k < es.len() && es[k] == (Entry { name: names.last(), kind })
        }),
{
    let all = list(root.follow(names.drop_last()));
    let es = sorted(all);
    let e = Entry { name: names.last(), kind };
    assert(tidy_listing(all));
    sorting_stays_tidy(all);
    assert(es.contains(e));
    only_keeps_its_kind(es, kind is Directory, e);
    let kin = only(es, kind is Directory);
    choose|k: int| 0 <= k < kin.len() && kin[k] == e
}

/// The `k`-th new directory was not known.
proof fn new_dirs_are_new(
    list: spec_fn(Place) -> Seq<Entry>,
    root: Place,
    w: Walking,
    p: Names,
    r: Walking,
    k: int,
)
    requires
        follows(list, root, w, p, r),
        0 <= k < only(sorted(list(root.follow(p))), true).len(),
    ensures
        ({
            let rel = rel_of(rel_path(p), only(sorted(list(root.follow(p))), true)[k].name);
            !w.plan.dirs.contains(rel) && rel.len() > 0
        }),
{
    children_stand(list, root, p, true, k);
    let e = only(sorted(list(root.follow(p))), true)[k];
    let names = p.push(e.name);
    rels_are_not_empty(names);
    assert(w.pending[w.pending.len() - 1] == pend(root, p));
    assert(w.pending.contains(pend(root, p)));
    if w.plan.dirs.contains(rel_path(names)) {
        assert(is_dir(list, root, names));
        assert(listed(w, root, names.drop_last()));
    }
}

/// What had been listed stays listed, and now `p` is too.
proof fn listed_stays_listed(
    list: spec_fn(Place) -> Seq<Entry>,
    root: Place,
    w: Walking,
    p: Names,
    r: Walking,
    names: Names,
)
    requires
        follows(list, root, w, p, r),
    ensures
        known(w, names) ==> known(r, names),
        listed(w, root, names) ==> listed(r, root, names),
        listed(r, root, p),
        known(w, names) && is_dir(list, root, names) && listed(r, root, names) && names != p
            ==> listed(w, root, names),
{
    let es = sorted(list(root.follow(p)));
    let news = rels_in(rel_path(p), es);
    let q = w.pending.drop_last();
    if w.plan.dirs.contains(rel_path(names)) {
        let k = choose|k: int| 0 <= k < w.plan.dirs.len() && w.plan.dirs[k] == rel_path(names);
        assert(r.plan.dirs[k] == rel_path(names));
    }
    if w.plan.dirs.contains(rel_path(p)) {
        let k = choose|k: int| 0 <= k < w.plan.dirs.len() && w.plan.dirs[k] == rel_path(p);
        assert(r.plan.dirs[k] == rel_path(p));
    }
    assert forall|x: Names| known(w, x) && !q.contains(pend(root, x)) implies !(
    #[trigger] r.pending.contains(pend(root, x))) by {
        if r.pending.contains(pend(root, x)) {
            let k = choose|k: int| 0 <= k < r.pending.len() && r.pending[k] == pend(root, x);
            if k < q.len() {
                assert(q[k] == pend(root, x));
            } else {
                let j = k - q.len();
                new_dirs_are_new(list, root, w, p, r, j);
                assert(r.pending[k].1 == rel_of(rel_path(p), only(es, true)[j].name));
            }
        }
    }
    if q.contains(pend(root, p)) {
        let k = choose|k: int| 0 <= k < q.len() && q[k] == pend(root, p);
        assert(w.pending[k] == w.pending[w.pending.len() - 1]);
    }
    if q.contains(pend(root, names)) {
        let k = choose|k: int| 0 <= k < q.len() && q[k] == pend(root, names);
        assert(w.pending[k] == pend(root, names));
        assert(w.pending.contains(pend(root, names)));
        assert(r.pending[k] == pend(root, names));
        assert(r.pending.contains(pend(root, names)));
    }
    if names != p && w.pending.contains(pend(root, names)) {
        let k = choose|k: int| 0 <= k < w.pending.len() && w.pending[k] == pend(root, names);
        if k == w.pending.len() - 1 && is_dir(list, root, names) {
            rels_differ(list, root, names, p);
        } else if k < w.pending.len() - 1 {
            assert(q[k] == pend(root, names));
        }
    }
}

proof fn listings_find_only_what_is_there(
    list: spec_fn(Place) -> Seq<Entry>,
    root: Place,
    w: Walking,
    p: Names,
    r: Walking,
)
    requires
        follows(list, root, w, p, r),
    ensures
        only_what_is_there(list, root, r),
{
    let es = sorted(list(root.follow(p)));
    let n = w.plan.dirs.len();
    assert forall|k: int| 0 <= k < r.plan.dirs.len() implies #[trigger] dir_is_there(
        list,
        root,
        r.plan.dirs,
        k,
    ) by {
        if k < n {
            assert(dir_is_there(list, root, w.plan.dirs, k));
            let names = choose|names: Names| #[trigger]
                dir_stands(list, root, w.plan.dirs, k, names);
            assert(r.plan.dirs.take(k) =~= w.plan.dirs.take(k));
            assert(dir_stands(list, root, r.plan.dirs, k, names));
        } else {
            children_stand(list, root, p, true, k - n);
            let names = p.push(only(es, true)[k - n].name);
            if p.len() > 0 {
                let j = choose|j: int| 0 <= j < n && w.plan.dirs[j] == rel_path(p);
                assert(r.plan.dirs.take(k)[j] == rel_path(p));
            }
            assert(dir_stands(list, root, r.plan.dirs, k, names));
        }
    }
    assert forall|k: int| 0 <= k < r.plan.files.len() implies file_was_seen(
        list,
        root,
        r,
        #[trigger] r.plan.files[k],
    ) by {
        let m = w.plan.files.len();
        if k < m {
            assert(file_was_seen(list, root, w, w.plan.files[k]));
            let names = choose|names: Names| #[trigger]
                file_stands(list, root, w.plan.files[k], names) && listed(
                    w,
                    root,
                    names.drop_last(),
                );
            listed_stays_listed(list, root, w, p, r, names.drop_last());
            assert(file_stands(list, root, r.plan.files[k], names));
        } else {
            children_stand(list, root, p, false, k - m);
            let names = p.push(only(es, false)[k - m].name);
            listed_stays_listed(list, root, w, p, r, p);
            assert(file_stands(list, root, r.plan.files[k], names));
        }
    }
    assert forall|k: int| 0 <= k < r.pending.len() implies pending_is_there(
        list,
        root,
        r,
        #[trigger] r.pending[k],
    ) by {
        let m = w.pending.len() - 1;
        if k < m {
            assert(pending_is_there(list, root, w, w.pending[k]));
            let names = choose|names: Names| #[trigger]
                pending_stands(list, root, w, w.pending[k], names);
            listed_stays_listed(list, root, w, p, r, names);
            assert(pending_stands(list, root, r, r.pending[k], names));
        } else {
            children_stand(list, root, p, true, k - m);
            let names = p.push(only(es, true)[k - m].name);
            assert(r.plan.dirs[n + (k - m)] == rel_path(names));
            assert(pending_stands(list, root, r, r.pending[k], names));
        }
    }
    assert forall|names: Names|
        names.len() > 0 && #[trigger] is_dir(list, root, names) && r.plan.dirs.contains(
            rel_path(names),
        ) implies listed(r, root, names.drop_last()) by {
        listed_stays_listed(list, root, w, p, r, names.drop_last());
        let k = choose|k: int| 0 <= k < r.plan.dirs.len() && r.plan.dirs[k] == rel_path(names);
        if k < n {
            assert(w.plan.dirs[k] == rel_path(names));
            assert(w.plan.dirs.contains(rel_path(names)));
        } else {
            children_stand(list, root, p, true, k - n);
            let child = p.push(only(es, true)[k - n].name);
            rels_differ(list, root, names, child);
        }
    }
}

proof fn listings_find_all(
    list: spec_fn(Place) -> Seq<Entry>,
    root: Place,
    w: Walking,
    p: Names,
    r: Walking,
)
    requires
        follows(list, root, w, p, r),
    ensures
        all_that_was_seen(list, root, r),
{
    let es = sorted(list(root.follow(p)));
    assert forall|names: Names|
        names.len() > 0 && #[trigger] is_dir(list, root, names) && listed(
            r,
            root,
            names.drop_last(),
        ) implies r.plan.dirs.contains(rel_path(names)) by {
        let parent = names.drop_last();
        seen_parents(list, root, w, p, r, parent);
        if parent == p {
            let k = children_are_listed(list, root, names, EntryKind::Directory);
            assert(names =~= p.push(names.last()));
            assert(r.plan.dirs[w.plan.dirs.len() + k] == rel_path(names));
        } else {
            assert(w.plan.dirs.contains(rel_path(names)));
            let k = choose|k: int| 0 <= k < w.plan.dirs.len() && w.plan.dirs[k] == rel_path(names);
            assert(r.plan.dirs[k] == rel_path(names));
        }
    }
    assert forall|names: Names, size: u64| #[trigger]
        is_file(list, root, names, size) && listed(
            r,
            root,
            names.drop_last(),
        ) implies r.plan.files.contains(planned_at(root, names, size)) by {
        let parent = names.drop_last();
        let f = planned_at(root, names, size);
        seen_parents(list, root, w, p, r, parent);
        if parent == p {
            let k = children_are_listed(list, root, names, EntryKind::File(size));
            assert(names =~= p.push(names.last()));
            assert(root.follow(names).parts =~= root.follow(p).join(names.last()).parts);
            assert(r.plan.files[w.plan.files.len() + k] == f);
        } else {
            assert(w.plan.files.contains(f));
            let k = choose|k: int| 0 <= k < w.plan.files.len() && w.plan.files[k] == f;
            assert(r.plan.files[k] == f);
        }
    }
}

/// A directory that is listed now is `p`, or was listed before.
proof fn seen_parents(
    list: spec_fn(Place) -> Seq<Entry>,
    root: Place,
    w: Walking,
    p: Names,
    r: Walking,
    parent: Names,
)
    requires
        follows(list, root, w, p, r),
        is_dir(list, root, parent),
        listed(r, root, parent),
    ensures
        parent == p || listed(w, root, parent),
{
    let es = sorted(list(root.follow(p)));
    let n = w.plan.dirs.len();
    listed_stays_listed(list, root, w, p, r, parent);
    if parent.len() > 0 && !w.plan.dirs.contains(rel_path(parent)) {
        let k = choose|k: int| 0 <= k < r.plan.dirs.len() && r.plan.dirs[k] == rel_path(parent);
        if k < n {
            assert(w.plan.dirs[k] == rel_path(parent));
        } else {
            children_stand(list, root, p, true, k - n);
            let child = p.push(only(es, true)[k - n].name);
            rels_differ(list, root, parent, child);
            let j = w.pending.len() - 1 + (k - n);
            assert(r.pending[j] == pend(root, child));
            assert(r.pending.contains(pend(root, parent)));
        }
    }
}

proof fn listings_find_nothing_twice(
    list: spec_fn(Place) -> Seq<Entry>,
    root: Place,
    w: Walking,
    p: Names,
    r: Walking,
)
    requires
        follows(list, root, w, p, r),
    ensures
        nothing_twice(r),
{
    let all = list(root.follow(p));
    let es = sorted(all);
    assert(tidy_listing(all));
    sorting_stays_tidy(all);
    only_stays_tidy(es, true);
    only_stays_tidy(es, false);
    let n = w.plan.dirs.len();
    assert forall|i: int, j: int|
        0 <= i < r.plan.dirs.len() && 0 <= j < r.plan.dirs.len() && i != j implies r.plan.dirs[i]
        != r.plan.dirs[j] by {
        let a = if i < j { i } else { j };
        let b = if i < j { j } else { i };
        if b >= n {
            new_dirs_are_new(list, root, w, p, r, b - n);
            if a < n {
                assert(w.plan.dirs[a] == r.plan.dirs[a]);
                assert(w.plan.dirs.contains(w.plan.dirs[a]));
            } else if r.plan.dirs[a] == r.plan.dirs[b] {
                joins_differ(
                    rel_path(p),
                    only(es, true)[a - n].name,
                    rel_path(p),
                    only(es, true)[b - n].name,
                );
            }
        }
    }
    let m = w.pending.len() - 1;
    assert forall|i: int, j: int|
        0 <= i < r.pending.len() && 0 <= j < r.pending.len() && i != j implies r.pending[i]
        != r.pending[j] by {
        let a = if i < j { i } else { j };
        let b = if i < j { j } else { i };
        if b < m {
            assert(w.pending[a] == r.pending[a] && w.pending[b] == r.pending[b]);
        } else {
            new_dirs_are_new(list, root, w, p, r, b - m);
            if a < m {
                assert(w.pending[a] == r.pending[a]);
                assert(pending_is_there(list, root, w, w.pending[a]));
                let names = choose|names: Names| #[trigger]
                    pending_stands(list, root, w, w.pending[a], names);
                assert(known(w, names));
            } else if r.pending[a] == r.pending[b] {
                joins_differ(
                    rel_path(p),
                    only(es, true)[a - m].name,
                    rel_path(p),
                    only(es, true)[b - m].name,
                );
            }
        }
    }
    let l = w.plan.files.len();
    assert forall|i: int, j: int|
        0 <= i < r.plan.files.len() && 0 <= j < r.plan.files.len() && i != j implies r.plan.files[i]
        != r.plan.files[j] by {
        let a = if i < j { i } else { j };
        let b = if i < j { j } else { i };
        if b < l {
            assert(w.plan.files[a] == r.plan.files[a] && w.plan.files[b] == r.plan.files[b]);
        } else if r.plan.files[a] == r.plan.files[b] {
            children_stand(list, root, p, false, b - l);
            let child = p.push(only(es, false)[b - l].name);
            if a < l {
                assert(file_was_seen(list, root, w, w.plan.files[a]));
                let names = choose|names: Names| #[trigger]
                    file_stands(list, root, w.plan.files[a], names) && listed(
                        w,
                        root,
                        names.drop_last(),
                    );
                assert(root.follow(names) == root.follow(child));
                places_tell_names(root, names, child);
                assert(w.pending[m] == pend(root, p));
                assert(w.pending.contains(pend(root, p)));
            } else {
                joins_differ(
                    rel_path(p),
                    only(es, false)[a - l].name,
                    rel_path(p),
                    only(es, false)[b - l].name,
                );
            }
        }
    }
}

proof fn places_tell_names(root: Place, a: Names, b: Names)
    requires
        root.follow(a) == root.follow(b),
    ensures
        a == b,
{
    let n = root.parts.len() as int;
    assert(root.follow(a).parts.skip(n) =~= a);
    assert(root.follow(b).parts.skip(n) =~= b);
}

/* ----------------------------------- laws ----------------------------------- */

/// Whatever a walk has listed so far is in its plan, once, and nothing else
/// is.
pub proof fn walks_keep_the_plan(list: spec_fn(Place) -> Seq<Entry>, root: Place, n: nat)
    requires
        tidy(list),
        walked_for(list, root, n) is Some,
    ensures
        found(list, root, walked_for(list, root, n)->0),
    decreases n,
{
    let r = walked_for(list, root, n)->0;
    if n == 0 {
        let none = Seq::<Seq<char>>::empty();
        assert(root.follow(none).parts =~= root.parts);
        assert(r.pending[0] == pend(root, none));
        assert(pending_stands(list, root, r, r.pending[0], none));
        assert forall|names: Names|
            names.len() > 0 && #[trigger] is_dir(list, root, names) && listed(
                r,
                root,
                names.drop_last(),
            ) implies r.plan.dirs.contains(rel_path(names)) by {
            assert(names.drop_last() =~= none);
            assert(r.pending.contains(pend(root, none)));
        }
        assert forall|names: Names, size: u64| #[trigger]
            is_file(list, root, names, size) && listed(
                r,
                root,
                names.drop_last(),
            ) implies r.plan.files.contains(planned_at(root, names, size)) by {
            assert(names.drop_last() =~= none);
            assert(r.pending.contains(pend(root, none)));
        }
    } else {
        let m = (n - 1) as nat;
        walks_keep_the_plan(list, root, m);
        let w = walked_for(list, root, m)->0;
        if w.pending.len() > 0 {
            let k = w.pending.len() - 1;
            assert(pending_is_there(list, root, w, w.pending[k]));
            let p = choose|names: Names| #[trigger]
                pending_stands(list, root, w, w.pending[k], names);
            let es = sorted(list(root.follow(p)));
            let q = Walking { pending: w.pending.drop_last(), ..w };
            listings_add_up(q, root.follow(p), rel_path(p), es);
            assert(follows(list, root, w, p, r));
            listings_find_only_what_is_there(list, root, w, p, r);
            listings_find_all(list, root, w, p, r);
            listings_find_nothing_twice(list, root, w, p, r);
        }
    }
}

/// A finished walk has found everything in the folder and nothing else:
/// every directory, after the one that it is in, and every file with its
/// path and its size, each once. Its bytes are those of all files together,
/// as far as a count goes.
pub proof fn finished_walks_are_complete(
    list: spec_fn(Place) -> Seq<Entry>,
    root: Place,
    n: nat,
)
    requires
        tidy(list),
        walked_for(list, root, n) is Some,
        (walked_for(list, root, n)->0).pending.len() == 0,
    ensures
        ({
            let plan = (walked_for(list, root, n)->0).plan;
            &&& forall|names: Names|
                names.len() > 0 && #[trigger] is_dir(list, root, names) ==> plan.dirs.contains(
                    rel_path(names),
                )
            &&& forall|names: Names, size: u64| #[trigger]
                is_file(list, root, names, size) ==> plan.files.contains(
                    planned_at(root, names, size),
                )
            &&& forall|k: int|
                0 <= k < plan.dirs.len() ==> #[trigger] dir_is_there(list, root, plan.dirs, k)
            &&& forall|k: int|
                0 <= k < plan.files.len() ==> file_is_there(list, root, #[trigger] plan.files[k])
            &&& plan.dirs.no_duplicates()
            &&& plan.files.no_duplicates()
            &&& plan.bytes == capped(sizes(plan.files) as int, 0)
            &&& plan.wf()
        }),
{
    walks_keep_the_plan(list, root, n);
    let w = walked_for(list, root, n)->0;
    assert forall|names: Names|
        names.len() > 0 && #[trigger] is_dir(list, root, names) implies w.plan.dirs.contains(
        rel_path(names),
    ) by {
        dirs_are_known(list, root, w, names);
    }
    assert forall|names: Names, size: u64| #[trigger]
        is_file(list, root, names, size) implies w.plan.files.contains(
        planned_at(root, names, size),
    ) by {
        dirs_are_known(list, root, w, names.drop_last());
    }
    assert forall|k: int| 0 <= k < w.plan.files.len() implies file_is_there(
        list,
        root,
        #[trigger] w.plan.files[k],
    ) by {
        assert(file_was_seen(list, root, w, w.plan.files[k]));
        let names = choose|names: Names| #[trigger]
            file_stands(list, root, w.plan.files[k], names) && listed(w, root, names.drop_last());
        assert(file_stands(list, root, w.plan.files[k], names));
    }
}

proof fn dirs_are_known(list: spec_fn(Place) -> Seq<Entry>, root: Place, w: Walking, names: Names)
    requires
        found(list, root, w),
        w.pending.len() == 0,
        is_dir(list, root, names),
    ensures
        known(w, names),
        listed(w, root, names),
    decreases names.len(),
{
    if names.len() > 0 {
        dirs_are_known(list, root, w, names.drop_last());
    }
}

} // verus!
