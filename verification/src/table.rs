//! A finite key-value table: the storage maps of the pallet.
//!
//! Entries are kept in insertion order with distinct keys; the table is seen
//! as a `Map` from keys to values.

use vstd::prelude::*;

use crate::keys::{distinct_firsts, in_key_order, in_storage_order, lemma_storage_order, storage_order};

verus! {

/// Keys that can be compared in executable code.
pub trait TableKey: Copy {
    fn same(&self, other: &Self) -> (r: bool)
        ensures
            r == (*self == *other),
    ;
}

impl TableKey for u64 {
    fn same(&self, other: &Self) -> (r: bool) {
        *self == *other
    }
}

/// A key of two parts, such as `(block, author)` or `(author, backer)`.
#[derive(Clone, Copy, Debug, PartialEq, Eq, Structural)]
pub struct KeyPair(pub u64, pub u64);

impl TableKey for KeyPair {
    fn same(&self, other: &Self) -> (r: bool) {
        self.0 == other.0 && self.1 == other.1
    }
}

/// The map that a sequence of entries with distinct keys stands for.
pub open spec fn entries_map<K, V>(s: Seq<(K, V)>) -> Map<K, V>
    decreases s.len(),
{
    if s.len() == 0 {
        Map::empty()
    } else {
        entries_map(s.drop_last()).insert(s.last().0, s.last().1)
    }
}

/// No key occurs twice.
pub open spec fn distinct_keys<K, V>(s: Seq<(K, V)>) -> bool {
    forall|i: int, j: int| 0 <= i < s.len() && 0 <= j < s.len() && i != j ==> s[i].0 != s[j].0
}

/// The map of a sequence with distinct keys holds exactly its entries.
pub proof fn lemma_entries_map<K, V>(s: Seq<(K, V)>)
    requires
        distinct_keys(s),
    ensures
        forall|k: K| #[trigger]
            entries_map(s).contains_key(k) <==> exists|i: int| 0 <= i < s.len() && s[i].0 == k,
        forall|i: int|
            0 <= i < s.len() ==> #[trigger] entries_map(s).contains_key(s[i].0) && entries_map(
                s,
            )[s[i].0] == s[i].1,
        entries_map(s).dom().finite(),
        entries_map(s).dom().len() == s.len(),
    decreases s.len(),
{
    if s.len() > 0 {
        let t = s.drop_last();
        assert(distinct_keys(t));
        lemma_entries_map(t);
        let k = s.last().0;
        assert(!entries_map(t).contains_key(k)) by {
            if entries_map(t).contains_key(k) {
                let i = choose|i: int| 0 <= i < t.len() && t[i].0 == k;
                assert(s[i].0 == s[s.len() - 1].0);
            }
        }
        assert forall|k2: K| #[trigger]
            entries_map(s).contains_key(k2) <==> exists|i: int|
                0 <= i < s.len() && s[i].0 == k2 by {
            if entries_map(s).contains_key(k2) {
                if k2 == k {
                    assert(s[s.len() - 1].0 == k2);
                } else {
                    let i = choose|i: int| 0 <= i < t.len() && t[i].0 == k2;
                    assert(s[i].0 == k2);
                }
            }
            if exists|i: int| 0 <= i < s.len() && s[i].0 == k2 {
                let i = choose|i: int| 0 <= i < s.len() && s[i].0 == k2;
                if i < s.len() - 1 {
                    assert(t[i].0 == k2);
                }
            }
        }
        assert forall|i: int| 0 <= i < s.len() implies #[trigger] entries_map(s).contains_key(
            s[i].0,
        ) && entries_map(s)[s[i].0] == s[i].1 by {
            if i < s.len() - 1 {
                assert(t[i] == s[i]);
            }
        }
    }
}

/// Entries with distinct keys, seen as a finite map.
pub struct Table<K: TableKey, V: Copy> {
    entries: Vec<(K, V)>,
}

impl<K: TableKey, V: Copy> View for Table<K, V> {
    type V = Map<K, V>;

    closed spec fn view(&self) -> Map<K, V> {
        entries_map(self.entries@)
    }
}

impl<K: TableKey, V: Copy> Table<K, V> {
    #[verifier::type_invariant]
    spec fn well_formed(self) -> bool {
        distinct_keys(self.entries@)
    }

    /// The entries in the order in which their keys were first inserted.
    pub closed spec fn spec_entries(&self) -> Seq<(K, V)> {
        self.entries@
    }

    /// The table's map is that of its entries.
    pub proof fn lemma_view(&self)
        ensures
            self@ == entries_map(self.spec_entries()),
    {
    }

    /// The empty table.
    pub fn new() -> (r: Self)
        ensures
            r@ == Map::<K, V>::empty(),
            r.spec_entries() == Seq::<(K, V)>::empty(),
    {
        Table { entries: Vec::new() }
    }

    /// The number of entries.
    pub fn len(&self) -> (r: usize)
        ensures
            r == self@.dom().len(),
            r == self.spec_entries().len(),
    {
        proof {
            use_type_invariant(self);
            lemma_entries_map(self.entries@);
        }
        self.entries.len()
    }

    fn find(&self, k: &K) -> (r: Option<usize>)
        ensures
            match r {
                Some(i) => i < self.entries@.len() && self.entries@[i as int].0 == *k,
                None => forall|i: int| 0 <= i < self.entries@.len() ==> self.entries@[i].0 != *k,
            },
    {
        let mut i: usize = 0;
        while i < self.entries.len()
            invariant
                i <= self.entries@.len(),
                forall|j: int| 0 <= j < i ==> self.entries@[j].0 != *k,
            decreases self.entries@.len() - i,
        {
            if self.entries[i].0.same(k) {
                return Some(i);
            }
            i = i + 1;
        }
        None
    }

    /// The value stored under `k`, if any.
    pub fn get(&self, k: &K) -> (r: Option<V>)
        ensures
            r == (if self@.contains_key(*k) {
                Some(self@[*k])
            } else {
                None
            }),
    {
        proof {
            use_type_invariant(self);
            lemma_entries_map(self.entries@);
        }
        match self.find(k) {
            Some(i) => Some(self.entries[i].1),
            None => None,
        }
    }

    /// Whether `k` has a value.
    pub fn contains_key(&self, k: &K) -> (r: bool)
        ensures
            r == self@.contains_key(*k),
    {
        proof {
            use_type_invariant(self);
            lemma_entries_map(self.entries@);
        }
        self.find(k).is_some()
    }

    /// Stores `v` under `k`, replacing any earlier value.
    pub fn insert(&mut self, k: K, v: V)
        ensures
            final(self)@ == old(self)@.insert(k, v),
            old(self)@.contains_key(k) ==> final(self).spec_entries().len() == old(self).spec_entries().len(),
            !old(self)@.contains_key(k) ==> final(self).spec_entries() == old(self).spec_entries().push((k, v)),
    {
        proof {
            use_type_invariant(&*self);
            lemma_entries_map(self.entries@);
        }
        match self.find(&k) {
            Some(i) => {
                let ghost old_entries = self.entries@;
                let mut entries: Vec<(K, V)> = Vec::new();
                std::mem::swap(&mut entries, &mut self.entries);
                entries.set(i, (k, v));
                proof {
                    let s = entries@;
                    assert(distinct_keys(s)) by {
                        assert forall|a: int, b: int|
                            0 <= a < s.len() && 0 <= b < s.len() && a != b implies s[a].0
                            != s[b].0 by {
                            if a != i && b != i {
                                assert(s[a] == old_entries[a] && s[b] == old_entries[b]);
                            } else if a == i {
                                assert(s[b] == old_entries[b]);
                            } else {
                                assert(s[a] == old_entries[a]);
                            }
                        }
                    }
                    lemma_entries_map(s);
                    lemma_entries_map(old_entries);
                    assert(entries_map(s) =~= entries_map(old_entries).insert(k, v)) by {
                        assert forall|k2: K|
                            #![trigger entries_map(s).contains_key(k2)]
                            entries_map(s).contains_key(k2) <==> entries_map(
                                old_entries,
                            ).insert(k, v).contains_key(k2) by {
                            if entries_map(s).contains_key(k2) && k2 != k {
                                let j = choose|j: int| 0 <= j < s.len() && s[j].0 == k2;
                                assert(old_entries[j] == s[j]);
                            }
                            if entries_map(old_entries).contains_key(k2) && k2 != k {
                                let j = choose|j: int|
                                    0 <= j < old_entries.len() && old_entries[j].0 == k2;
                                assert(old_entries[j] == s[j]);
                            }
                            if k2 == k {
                                assert(s[i as int].0 == k);
                            }
                        }
                        assert forall|k2: K| #[trigger]
                            entries_map(s).contains_key(k2) implies entries_map(s)[k2]
                            == entries_map(old_entries).insert(k, v)[k2] by {
                            let j = choose|j: int| 0 <= j < s.len() && s[j].0 == k2;
                            if j != i {
                                assert(old_entries[j] == s[j]);
                            }
                        }
                    }
                }
                self.entries = entries;
            },
            None => {
                let ghost old_entries = self.entries@;
                let mut entries: Vec<(K, V)> = Vec::new();
                std::mem::swap(&mut entries, &mut self.entries);
                entries.push((k, v));
                proof {
                    let s = entries@;
                    assert(s.drop_last() =~= old_entries);
                    assert(distinct_keys(s)) by {
                        assert forall|a: int, b: int|
                            0 <= a < s.len() && 0 <= b < s.len() && a != b implies s[a].0
                            != s[b].0 by {
                            if a < old_entries.len() && b < old_entries.len() {
                                assert(s[a] == old_entries[a] && s[b] == old_entries[b]);
                            } else if a < old_entries.len() {
                                assert(s[a] == old_entries[a]);
                            } else {
                                assert(s[b] == old_entries[b]);
                            }
                        }
                    }
                }
                self.entries = entries;
            },
        }
    }

    /// Removes the value under `k`, returning it.
    pub fn remove(&mut self, k: &K) -> (r: Option<V>)
        ensures
            final(self)@ == old(self)@.remove(*k),
            r is None ==> *final(self) == *old(self),
            r == (if old(self)@.contains_key(*k) {
                Some(old(self)@[*k])
            } else {
                None
            }),
    {
        proof {
            use_type_invariant(&*self);
            lemma_entries_map(self.entries@);
        }
        match self.find(k) {
            Some(i) => {
                let ghost old_entries = self.entries@;
                let mut entries: Vec<(K, V)> = Vec::new();
                std::mem::swap(&mut entries, &mut self.entries);
                let (_, v) = entries.remove(i);
                proof {
                    let s = entries@;
                    assert(forall|j: int| 0 <= j < i ==> s[j] == old_entries[j]);
                    assert(forall|j: int| i <= j < s.len() ==> s[j] == old_entries[j + 1]);
                    assert(distinct_keys(s)) by {
                        assert forall|a: int, b: int|
                            0 <= a < s.len() && 0 <= b < s.len() && a != b implies s[a].0
                            != s[b].0 by {
                            let a2 = if a < i {
                                a
                            } else {
                                a + 1
                            };
                            let b2 = if b < i {
                                b
                            } else {
                                b + 1
                            };
                            assert(s[a] == old_entries[a2] && s[b] == old_entries[b2]);
                        }
                    }
                    lemma_entries_map(s);
                    lemma_entries_map(old_entries);
                    assert(entries_map(s) =~= entries_map(old_entries).remove(*k)) by {
                        assert forall|k2: K|
                            #![trigger entries_map(s).contains_key(k2)]
                            entries_map(s).contains_key(k2) <==> entries_map(
                                old_entries,
                            ).remove(*k).contains_key(k2) by {
                            if entries_map(s).contains_key(k2) {
                                let j = choose|j: int| 0 <= j < s.len() && s[j].0 == k2;
                                let j2 = if j < i {
                                    j
                                } else {
                                    j + 1
                                };
                                assert(s[j] == old_entries[j2]);
                                assert(j2 != i);
                            }
                            if entries_map(old_entries).contains_key(k2) && k2 != *k {
                                let j = choose|j: int|
                                    0 <= j < old_entries.len() && old_entries[j].0 == k2;
                                assert(j != i);
                                if j < i {
                                    assert(s[j] == old_entries[j]);
                                } else {
                                    assert(s[j - 1] == old_entries[j]);
                                }
                            }
                        }
                        assert forall|k2: K| #[trigger]
                            entries_map(s).contains_key(k2) implies entries_map(s)[k2]
                            == entries_map(old_entries).remove(*k)[k2] by {
                            let j = choose|j: int| 0 <= j < s.len() && s[j].0 == k2;
                            let j2 = if j < i {
                                j
                            } else {
                                j + 1
                            };
                            assert(s[j] == old_entries[j2]);
                        }
                    }
                }
                self.entries = entries;
                Some(v)
            },
            None => {
                proof {
                    assert(!entries_map(self.entries@).contains_key(*k));
                    assert(entries_map(self.entries@).remove(*k) =~= entries_map(self.entries@));
                }
                None
            },
        }
    }

    /// The entries, in the order in which their keys were first inserted.
    pub fn entries(&self) -> (r: &Vec<(K, V)>)
        ensures
            r@ == self.spec_entries(),
            distinct_keys(r@),
            self@ == entries_map(r@),
            forall|k: K| #[trigger]
                self@.contains_key(k) <==> exists|i: int| 0 <= i < r@.len() && r@[i].0 == k,
            forall|i: int|
                0 <= i < r@.len() ==> #[trigger] self@.contains_key(r@[i].0) && self@[r@[i].0]
                    == r@[i].1,
    {
        proof {
            use_type_invariant(self);
            lemma_entries_map(self.entries@);
        }
        &self.entries
    }
}

} // verus!

verus! {

/// The `(second key, value)` of the entries whose first key is `first`, in
/// entry order.
pub open spec fn entries_under<V>(s: Seq<(KeyPair, V)>, first: u64) -> Seq<(u64, V)>
    decreases s.len(),
{
    if s.len() == 0 {
        Seq::empty()
    } else {
        entries_under(s.drop_last(), first) + if s.last().0.0 == first {
            seq![(s.last().0.1, s.last().1)]
        } else {
            Seq::empty()
        }
    }
}

/// The `(first key, value)` of the entries `(b, who)` for `lo <= b <= hi`, by
/// increasing `b`.
pub open spec fn range_under<V>(m: Map<KeyPair, V>, who: u64, lo: int, hi: int) -> Seq<(u64, V)>
    decreases hi - lo + 1,
{
    if hi < lo {
        Seq::empty()
    } else {
        range_under(m, who, lo, hi - 1) + if m.contains_key(KeyPair(hi as u64, who)) {
            seq![(hi as u64, m[KeyPair(hi as u64, who)])]
        } else {
            Seq::empty()
        }
    }
}


/// An entry under `first` stands for a key `(first, a)` of the map.
pub proof fn lemma_under_has_key<V>(s: Seq<(KeyPair, V)>, first: u64)
    ensures
        entries_under(s, first).len() > 0 ==> entries_map(s).contains_key(
            KeyPair(first, entries_under(s, first).last().0),
        ),
    decreases s.len(),
{
    if s.len() > 0 {
        lemma_under_has_key(s.drop_last(), first);
        if s.last().0.0 == first {
            assert(s.last().0 == KeyPair(first, s.last().0.1));
        } else {
            assert(entries_under(s, first) =~= entries_under(s.drop_last(), first));
        }
    }
}

/// The entries under `first` are exactly the map's keys `(first, a)`, with
/// their values, each once.
pub proof fn lemma_entries_under<V>(s: Seq<(KeyPair, V)>, first: u64)
    requires
        distinct_keys(s),
    ensures
        forall|j: int|
            0 <= j < entries_under(s, first).len() ==> #[trigger] entries_map(s).contains_key(
                KeyPair(first, entries_under(s, first)[j].0),
            ) && entries_map(s)[KeyPair(first, entries_under(s, first)[j].0)] == entries_under(
                s,
                first,
            )[j].1,
        forall|a: u64| #[trigger]
            entries_map(s).contains_key(KeyPair(first, a)) ==> exists|j: int|
                0 <= j < entries_under(s, first).len() && entries_under(s, first)[j].0 == a,
        forall|i: int, j: int|
            0 <= i < entries_under(s, first).len() && 0 <= j < entries_under(s, first).len() && i
                != j ==> entries_under(s, first)[i].0 != entries_under(s, first)[j].0,
    decreases s.len(),
{
    if s.len() > 0 {
        let t = s.drop_last();
        assert(distinct_keys(t));
        lemma_entries_under(t, first);
        lemma_entries_map(t);
        lemma_entries_map(s);
        let e = entries_under(s, first);
        let et = entries_under(t, first);
        let last = s.last();
        assert(!entries_map(t).contains_key(last.0)) by {
            if entries_map(t).contains_key(last.0) {
                let i = choose|i: int| 0 <= i < t.len() && t[i].0 == last.0;
                assert(s[i].0 == s[s.len() - 1].0);
            }
        }
        if last.0.0 == first {
            assert(e == et.push((last.0.1, last.1)));
            assert forall|j: int| 0 <= j < e.len() implies #[trigger] entries_map(s).contains_key(
                KeyPair(first, e[j].0),
            ) && entries_map(s)[KeyPair(first, e[j].0)] == e[j].1 by {
                if j < et.len() {
                    assert(e[j] == et[j]);
                    assert(entries_map(t).contains_key(KeyPair(first, et[j].0)));
                    assert(KeyPair(first, et[j].0) != last.0);
                } else {
                    assert(KeyPair(first, e[j].0) == last.0);
                }
            }
            assert forall|a: u64| #[trigger]
                entries_map(s).contains_key(KeyPair(first, a)) implies exists|j: int|
                0 <= j < e.len() && e[j].0 == a by {
                if KeyPair(first, a) == last.0 {
                    assert(e[e.len() - 1].0 == a);
                } else {
                    assert(entries_map(t).contains_key(KeyPair(first, a)));
                    let j = choose|j: int| 0 <= j < et.len() && et[j].0 == a;
                    assert(e[j] == et[j]);
                }
            }
            assert forall|i: int, j: int|
                0 <= i < e.len() && 0 <= j < e.len() && i != j implies e[i].0 != e[j].0 by {
                if i < et.len() && j < et.len() {
                    assert(e[i] == et[i] && e[j] == et[j]);
                } else if i < et.len() {
                    assert(e[i] == et[i]);
                    assert(entries_map(t).contains_key(KeyPair(first, et[i].0)));
                } else {
                    assert(e[j] == et[j]);
                    assert(entries_map(t).contains_key(KeyPair(first, et[j].0)));
                }
            }
        } else {
            assert(e =~= et);
            assert forall|j: int| 0 <= j < e.len() implies #[trigger] entries_map(s).contains_key(
                KeyPair(first, e[j].0),
            ) && entries_map(s)[KeyPair(first, e[j].0)] == e[j].1 by {
                assert(entries_map(t).contains_key(KeyPair(first, et[j].0)));
            }
            assert forall|a: u64| #[trigger]
                entries_map(s).contains_key(KeyPair(first, a)) implies exists|j: int|
                0 <= j < e.len() && e[j].0 == a by {
                assert(entries_map(t).contains_key(KeyPair(first, a)));
            }
        }
    }
}

/// The `(second key, value)` of the entries whose first key is `first`, in
/// the order storage meets them.
pub open spec fn stored_under<V>(s: Seq<(KeyPair, V)>, first: u64) -> Seq<(u64, V)> {
    storage_order(entries_under(s, first))
}

/// What holds of the entries under `first` holds of them in storage order:
/// the same number, each a key `(first, a)` of the map with its value, each
/// key once.
pub proof fn lemma_stored_under<V>(s: Seq<(KeyPair, V)>, first: u64)
    requires
        distinct_keys(s),
    ensures
        stored_under(s, first).len() == entries_under(s, first).len(),
        forall|j: int|
            0 <= j < stored_under(s, first).len() ==> #[trigger] entries_map(s).contains_key(
                KeyPair(first, stored_under(s, first)[j].0),
            ) && entries_map(s)[KeyPair(first, stored_under(s, first)[j].0)] == stored_under(
                s,
                first,
            )[j].1,
        forall|a: u64| #[trigger]
            entries_map(s).contains_key(KeyPair(first, a)) ==> exists|j: int|
                0 <= j < stored_under(s, first).len() && stored_under(s, first)[j].0 == a,
        forall|i: int, j: int|
            0 <= i < stored_under(s, first).len() && 0 <= j < stored_under(s, first).len() && i
                != j ==> stored_under(s, first)[i].0 != stored_under(s, first)[j].0,
{
    let e = entries_under(s, first);
    let r = stored_under(s, first);
    lemma_entries_under(s, first);
    lemma_storage_order(e);
    assert forall|j: int| 0 <= j < r.len() implies #[trigger] entries_map(s).contains_key(
        KeyPair(first, r[j].0),
    ) && entries_map(s)[KeyPair(first, r[j].0)] == r[j].1 by {
        assert(e.contains(r[j]));
        let k = choose|k: int| 0 <= k < e.len() && e[k] == r[j];
        assert(entries_map(s).contains_key(KeyPair(first, e[k].0)));
    }
    assert forall|a: u64| #[trigger] entries_map(s).contains_key(KeyPair(first, a)) implies exists|j: int|
        0 <= j < r.len() && r[j].0 == a by {
        let k = choose|k: int| 0 <= k < e.len() && e[k].0 == a;
        assert(r.contains(e[k]));
        let j = choose|j: int| 0 <= j < r.len() && r[j] == e[k];
        assert(r[j].0 == a);
    }
    assert(distinct_firsts(e));
}

/// `v` lists the entries of `m` whose first key is `first`, as `(second
/// key, value)`: each once, and in the order storage meets them.
pub open spec fn lists_under<V>(m: Map<KeyPair, V>, first: u64, v: Seq<(u64, V)>) -> bool {
    &&& forall|j: int|
        0 <= j < v.len() ==> #[trigger] m.contains_key(KeyPair(first, v[j].0)) && m[KeyPair(
            first,
            v[j].0,
        )] == v[j].1
    &&& forall|a: u64| #[trigger]
        m.contains_key(KeyPair(first, a)) ==> exists|j: int| 0 <= j < v.len() && v[j].0 == a
    &&& distinct_firsts(v)
    &&& in_key_order(v)
}

impl<V: Copy> Table<KeyPair, V> {
    /// The entries whose first key is `first`, as `(second key, value)`, in
    /// the order storage meets them.
    pub fn under(&self, first: u64) -> (r: Vec<(u64, V)>)
        ensures
            r@ == stored_under(self.spec_entries(), first),
            forall|j: int|
                0 <= j < r@.len() ==> #[trigger] self@.contains_key(KeyPair(first, r@[j].0))
                    && self@[KeyPair(first, r@[j].0)] == r@[j].1,
            forall|a: u64| #[trigger]
                self@.contains_key(KeyPair(first, a)) ==> exists|j: int|
                    0 <= j < r@.len() && r@[j].0 == a,
            forall|i: int, j: int|
                0 <= i < r@.len() && 0 <= j < r@.len() && i != j ==> r@[i].0 != r@[j].0,
            in_key_order(r@),
            lists_under(self@, first, r@),
    {
        proof {
            use_type_invariant(self);
            lemma_stored_under(self.entries@, first);
            lemma_entries_under(self.entries@, first);
        }
        let entries = self.entries();
        let mut found: Vec<(u64, V)> = Vec::new();
        let mut i: usize = 0;
        while i < entries.len()
            invariant
                i <= entries@.len(),
                entries@ == self.spec_entries(),
                found@ == entries_under(entries@.take(i as int), first),
            decreases entries@.len() - i,
        {
            let (k, v) = entries[i];
            proof {
                assert(entries@.take(i + 1).drop_last() =~= entries@.take(i as int));
            }
            if k.0 == first {
                found.push((k.1, v));
            }
            i = i + 1;
        }
        proof {
            assert(entries@.take(entries@.len() as int) =~= entries@);
            assert(distinct_firsts(found@));
        }
        in_storage_order(&found)
    }

    /// The entries `(b, who)` for `lo <= b <= hi`, as `(b, value)` by increasing `b`.
    pub fn range(&self, who: u64, lo: u64, hi: u64) -> (r: Vec<(u64, V)>)
        ensures
            r@ == range_under(self@, who, lo as int, hi as int),
    {
        let mut r: Vec<(u64, V)> = Vec::new();
        if lo > hi {
            return r;
        }
        let mut b: u64 = lo;
        loop
            invariant
                lo <= b <= hi,
                r@ == range_under(self@, who, lo as int, b - 1),
            decreases hi - b,
        {
            match self.get(&KeyPair(b, who)) {
                Some(v) => r.push((b, v)),
                None => {},
            }
            if b == hi {
                return r;
            }
            b = b + 1;
        }
    }

    /// Whether some `(b, who)` with `lo <= b <= hi` has a value.
    pub fn any_in_range(&self, who: u64, lo: u64, hi: u64) -> (r: bool)
        ensures
            r == exists|b: u64| lo <= b <= hi && #[trigger] self@.contains_key(KeyPair(b, who)),
    {
        if lo > hi {
            return false;
        }
        let mut b: u64 = lo;
        loop
            invariant
                lo <= b <= hi,
                forall|c: u64| lo <= c < b ==> !#[trigger] self@.contains_key(KeyPair(c, who)),
            decreases hi - b,
        {
            if self.contains_key(&KeyPair(b, who)) {
                return true;
            }
            if b == hi {
                return false;
            }
            b = b + 1;
        }
    }

    /// The first `b >= start` at which `(b, who)` is free.
    pub fn first_free(&self, who: u64, start: u64) -> (r: u64)
        requires
            exists|b: u64| start <= b && !#[trigger] self@.contains_key(KeyPair(b, who)),
        ensures
            start <= r,
            !self@.contains_key(KeyPair(r, who)),
            forall|c: u64| start <= c < r ==> #[trigger] self@.contains_key(KeyPair(c, who)),
    {
        let mut b: u64 = start;
        loop
            invariant
                start <= b,
                exists|b: u64| start <= b && !#[trigger] self@.contains_key(KeyPair(b, who)),
                forall|c: u64| start <= c < b ==> #[trigger] self@.contains_key(KeyPair(c, who)),
            decreases u64::MAX - b,
        {
            if !self.contains_key(&KeyPair(b, who)) {
                return b;
            }
            if b == u64::MAX {
                proof {
                    let w = choose|w: u64| start <= w && !#[trigger] self@.contains_key(KeyPair(w, who));
                    assert(self@.contains_key(KeyPair(w, who)));
                }
                return b;
            }
            b = b + 1;
        }
    }
}

} // verus!
