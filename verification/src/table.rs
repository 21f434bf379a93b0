//! Small keyed collections that keep the order in which things arrived.

use vstd::prelude::*;

verus! {

/* -------------------------------- tables -------------------------------- */

/// Where the entry with key `id` stands, or the length if there is none.
pub open spec fn position<M>(s: Seq<(u64, M)>, id: u64) -> int
    decreases s.len(),
{
    if s.len() == 0 {
        0
    } else if s[0].0 == id {
        0
    } else {
        1 + position(s.drop_first(), id)
    }
}

/// Whether an entry has key `id`.
pub open spec fn has_key<M>(s: Seq<(u64, M)>, id: u64) -> bool {
    position(s, id) < s.len()
}

/// The value at key `id`.
pub open spec fn at<M>(s: Seq<(u64, M)>, id: u64) -> M {
    s[position(s, id)].1
}

/// The table without the entry at `id`.
pub open spec fn erased<M>(s: Seq<(u64, M)>, id: u64) -> Seq<(u64, M)> {
    if has_key(s, id) {
        s.remove(position(s, id))
    } else {
        s
    }
}

/// The table with `m` at `id`: in place of what was there, else at the end.
pub open spec fn stored<M>(s: Seq<(u64, M)>, id: u64, m: M) -> Seq<(u64, M)> {
    if has_key(s, id) {
        s.update(position(s, id), (id, m))
    } else {
        s.push((id, m))
    }
}

/// No key occurs twice.
pub open spec fn keys_differ<M>(s: Seq<(u64, M)>) -> bool {
    forall|i: int, j: int| 0 <= i < j < s.len() ==> s[i].0 != s[j].0
}

pub proof fn position_finds<M>(s: Seq<(u64, M)>, id: u64)
    ensures
        0 <= position(s, id) <= s.len(),
        has_key(s, id) ==> s[position(s, id)].0 == id,
        forall|i: int| 0 <= i < position(s, id) ==> s[i].0 != id,
    decreases s.len(),
{
    if s.len() > 0 && s[0].0 != id {
        position_finds(s.drop_first(), id);
        assert forall|i: int| 0 <= i < position(s, id) implies s[i].0 != id by {
            if i > 0 {
                assert(s.drop_first()[i - 1] == s[i]);
            }
        }
    }
}

pub proof fn position_is<M>(s: Seq<(u64, M)>, id: u64, at: int)
    requires
        0 <= at <= s.len(),
        at < s.len() ==> s[at].0 == id,
        forall|i: int| 0 <= i < at ==> s[i].0 != id,
    ensures
        position(s, id) == at,
{
    position_finds(s, id);
}

/// What storing changes: `id` now has `m`, every other key what it had.
pub proof fn stored_reads_back<M>(s: Seq<(u64, M)>, id: u64, m: M, other: u64)
    requires
        keys_differ(s),
    ensures
        keys_differ(stored(s, id, m)),
        has_key(stored(s, id, m), id),
        at(stored(s, id, m), id) == m,
        other != id ==> has_key(stored(s, id, m), other) == has_key(s, other),
        other != id && has_key(s, other) ==> at(stored(s, id, m), other) == at(s, other),
{
    let t = stored(s, id, m);
    position_finds(s, id);
    position_finds(s, other);
    if has_key(s, id) {
        position_is(t, id, position(s, id));
        if other != id {
            position_is(t, other, position(s, other));
        }
    } else {
        position_is(t, id, s.len() as int);
        if other != id {
            if has_key(s, other) {
                position_is(t, other, position(s, other));
            } else {
                position_is(t, other, t.len() as int);
            }
        }
    }
}

/// What erasing changes: `id` is gone, every other key keeps what it had.
pub proof fn erased_is_gone<M>(s: Seq<(u64, M)>, id: u64, other: u64)
    requires
        keys_differ(s),
    ensures
        keys_differ(erased(s, id)),
        !has_key(erased(s, id), id),
        other != id ==> has_key(erased(s, id), other) == has_key(s, other),
        other != id && has_key(s, other) ==> at(erased(s, id), other) == at(s, other),
{
    let t = erased(s, id);
    position_finds(s, id);
    position_finds(s, other);
    if has_key(s, id) {
        let p = position(s, id);
        assert forall|i: int, j: int| 0 <= i < j < t.len() implies t[i].0 != t[j].0 by {
            let a = if i < p { i } else { i + 1 };
            let b = if j < p { j } else { j + 1 };
            assert(t[i] == s[a] && t[j] == s[b]);
        }
        assert forall|i: int| 0 <= i < t.len() implies t[i].0 != id by {
            let a = if i < p { i } else { i + 1 };
            assert(t[i] == s[a]);
            assert(s[p].0 == id);
        }
        position_is(t, id, t.len() as int);
        if other != id {
            let q = position(s, other);
            assert forall|i: int| 0 <= i < t.len() && i < (if q < p { q } else { q - 1 }) implies t[i].0
                != other by {
                let a = if i < p { i } else { i + 1 };
                assert(t[i] == s[a]);
            }
            if q < s.len() {
                position_is(t, other, if q < p { q } else { q - 1 });
            } else {
                position_is(t, other, t.len() as int);
            }
        }
    }
}

/// Filtering keeps what it keeps as it was.
pub proof fn filtered_is_part<M>(s: Seq<(u64, M)>, keep: spec_fn((u64, M)) -> bool)
    requires
        keys_differ(s),
    ensures
        keys_differ(s.filter(keep)),
        forall|k: u64| #[trigger]
            has_key(s.filter(keep), k) <==> has_key(s, k) && keep((k, at(s, k))),
        forall|k: u64| #[trigger]
            has_key(s.filter(keep), k) ==> at(s.filter(keep), k) == at(s, k),
    decreases s.len(),
{
    reveal(Seq::filter);
    if s.len() > 0 {
        let prev = s.drop_last();
        let x = s.last();
        filtered_is_part(prev, keep);
        position_finds(prev, x.0);
        assert(!has_key(prev, x.0));
        assert(s =~= stored(prev, x.0, x.1));
        let f = prev.filter(keep);
        assert(!has_key(f, x.0));
        if keep(x) {
            assert(s.filter(keep) =~= stored(f, x.0, x.1));
        }
        stored_reads_back(f, x.0, x.1, x.0);
        assert forall|k: u64|
            (has_key(s.filter(keep), k) <==> has_key(s, k) && keep((k, at(s, k)))) && (has_key(
                s.filter(keep),
                k,
            ) ==> at(s.filter(keep), k) == at(s, k)) by {
            stored_reads_back(prev, x.0, x.1, k);
            stored_reads_back(f, x.0, x.1, k);
        }
    }
}

/// A table with `u64` keys.
pub struct Table<V> {
    pub entries: Vec<(u64, V)>,
}

/// What a list of entries holds.
pub open spec fn entries_view<V: View>(s: Seq<(u64, V)>) -> Seq<(u64, V::V)> {
    s.map_values(|e: (u64, V)| (e.0, e.1@))
}

impl<V: View> View for Table<V> {
    type V = Seq<(u64, V::V)>;

    open spec fn view(&self) -> Seq<(u64, V::V)> {
        entries_view(self.entries@)
    }
}

impl<V: View> Table<V> {
    pub fn new() -> (t: Self)
        ensures
            t@ == Seq::<(u64, V::V)>::empty(),
    {
        let t = Table { entries: Vec::new() };
        assert(t@ =~= Seq::<(u64, V::V)>::empty());
        t
    }

    /// Where `id` stands, or the length.
    pub fn find(&self, id: u64) -> (i: usize)
        ensures
            i == position(self@, id),
            i <= self.entries@.len() == self@.len(),
            (i < self.entries@.len()) == has_key(self@, id),
            i < self.entries@.len() ==> self.entries@[i as int].0 == id && self.entries@[i as int].1@
                == at(self@, id),
    {
        let mut i: usize = 0;
        while i < self.entries.len() && self.entries[i].0 != id
            invariant
                i <= self.entries@.len(),
                forall|k: int| 0 <= k < i ==> self.entries@[k].0 != id,
            decreases self.entries@.len() - i,
        {
            i = i + 1;
        }
        proof {
            assert forall|k: int| 0 <= k < i implies self@[k].0 != id by {
                assert(self@[k].0 == self.entries@[k].0);
            }
            position_is(self@, id, i as int);
        }
        i
    }

    pub fn contains(&self, id: u64) -> (r: bool)
        ensures
            r == has_key(self@, id),
    {
        self.find(id) < self.entries.len()
    }

    /// Take the value at `id` out.
    pub fn take(&mut self, id: u64) -> (r: Option<V>)
        ensures
            r is Some <==> has_key(old(self)@, id),
            r is Some ==> r->0@ == at(old(self)@, id),
            r is None ==> *final(self) == *old(self),
            final(self)@ == erased(old(self)@, id),
    {
        let i: usize = self.find(id);
        if i < self.entries.len() {
            let ghost before = self.entries@;
            let e = self.entries.remove(i);
            assert(entries_view(self.entries@) =~= entries_view(before).remove(i as int));
            Some(e.1)
        } else {
            None
        }
    }

    /// Put `v` at `id`.
    pub fn put(&mut self, id: u64, v: V)
        ensures
            final(self)@ == stored(old(self)@, id, v@),
    {
        let i: usize = self.find(id);
        let ghost before = self.entries@;
        let ghost m = v@;
        if i < self.entries.len() {
            self.entries.set(i, (id, v));
            assert(entries_view(self.entries@) =~= entries_view(before).update(i as int, (id, m)));
        } else {
            self.entries.push((id, v));
            assert(entries_view(self.entries@) =~= entries_view(before).push((id, m)));
        }
    }

    /// The value in row `i`, to change in place.
    pub fn row_mut(&mut self, i: usize) -> (r: &mut V)
        requires
            i < old(self).entries@.len(),
        ensures
            *r == old(self).entries@[i as int].1,
            final(self).entries@ == old(self).entries@.update(
                i as int,
                (old(self).entries@[i as int].0, *final(r)),
            ),
            final(self)@ == old(self)@.update(
                i as int,
                (old(self).entries@[i as int].0, (*final(r))@),
            ),
    {
        let ghost before = self.entries@;
        let r = &mut self.entries[i].1;
        proof {
            assert(entries_view(before.update(i as int, (before[i as int].0, *final(r))))
                =~= entries_view(before).update(i as int, (before[i as int].0, (*final(r))@)));
        }
        r
    }
}

/* --------------------------------- sets --------------------------------- */

/// A set of ids with `id` in it: at the end, unless it was there.
pub open spec fn with_id(s: Seq<u64>, id: u64) -> Seq<u64> {
    if s.contains(id) {
        s
    } else {
        s.push(id)
    }
}

/// Every id but `id`.
pub open spec fn other_than(id: u64) -> spec_fn(u64) -> bool {
    |x: u64| x != id
}

/// A set of ids without `id`.
pub open spec fn without_id(s: Seq<u64>, id: u64) -> Seq<u64> {
    s.filter(other_than(id))
}

/// Whether `id` is among `ids`.
pub fn id_in(ids: &Vec<u64>, id: u64) -> (r: bool)
    ensures
        r == ids@.contains(id),
{
    let mut i: usize = 0;
    while i < ids.len()
        invariant
            i <= ids@.len(),
            forall|k: int| 0 <= k < i ==> ids@[k] != id,
        decreases ids@.len() - i,
    {
        if ids[i] == id {
            return true;
        }
        i = i + 1;
    }
    false
}

/// Add `id` to a set of ids.
pub fn add_id(ids: &mut Vec<u64>, id: u64)
    ensures
        final(ids)@ == with_id(old(ids)@, id),
{
    if !id_in(ids, id) {
        ids.push(id);
    }
}

/// Remove `id` from a set of ids.
pub fn drop_id(ids: &mut Vec<u64>, id: u64)
    ensures
        final(ids)@ == without_id(old(ids)@, id),
{
    let ghost all = ids@;
    let ghost keep = other_than(id);
    let mut kept: Vec<u64> = Vec::new();
    let mut i: usize = 0;
    assert(all.take(0).filter(keep) =~= Seq::<u64>::empty()) by {
        reveal(Seq::filter);
    }
    while i < ids.len()
        invariant
            i <= ids@.len(),
            ids@ == all,
            keep == other_than(id),
            kept@ == all.take(i as int).filter(keep),
        decreases ids@.len() - i,
    {
        proof {
            reveal(Seq::filter);
            assert(all.take(i + 1).drop_last() =~= all.take(i as int));
        }
        if ids[i] != id {
            kept.push(ids[i]);
        }
        i = i + 1;
    }
    assert(all.take(i as int) =~= all);
    *ids = kept;
}

} // verus!
