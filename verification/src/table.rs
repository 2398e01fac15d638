//! A finite map kept as a list of distinct-keyed entries, the storage model
//! of every contract in the suite.

use vstd::prelude::*;
use crate::common::AccountId;

verus! {

/// Values that can be copied with their abstract value kept.
pub trait Duplicate: View + Sized {
    fn duplicate(&self) -> (r: Self)
        ensures
            r@ == self@,
    ;
}

/// Keys that can be compared for equality in executable code.
pub trait TableKey: Copy {
    fn key_eq(&self, other: &Self) -> (r: bool)
        ensures
            r == (*self == *other),
    ;
}

impl TableKey for AccountId {
    fn key_eq(&self, other: &Self) -> (r: bool) {
        self.0 == other.0
    }
}

impl TableKey for u64 {
    fn key_eq(&self, other: &Self) -> (r: bool) {
        *self == *other
    }
}

impl TableKey for [u8; 32] {
    fn key_eq(&self, other: &Self) -> (r: bool) {
        bytes32_eq(self, other)
    }
}

/// Byte-wise equality of two 32-byte digests.
pub fn bytes32_eq(a: &[u8; 32], b: &[u8; 32]) -> (r: bool)
    ensures
        r == (*a == *b),
{
    let mut i: usize = 0;
    while i < 32
        invariant
            0 <= i <= 32,
            a@.len() == 32,
            b@.len() == 32,
            forall|j: int| 0 <= j < i ==> a@[j] == b@[j],
        decreases 32 - i,
    {
        if a[i] != b[i] {
            assert(a@[i as int] != b@[i as int]);
            return false;
        }
        i = i + 1;
    }
    proof {
        broadcast use vstd::array::group_array_axioms;
        assert forall|j: int| 0 <= j < 32 implies a[j] == b[j] by {
            assert(a@[j] == b@[j]);
        }
        assert(*a =~= *b);
    }
    true
}

/// No key occurs twice in `s`.
pub open spec fn keys_distinct<K, V>(s: Seq<(K, V)>) -> bool {
    forall|i: int, j: int| 0 <= i < s.len() && 0 <= j < s.len() && i != j ==> s[i].0 != s[j].0
}

/// `k` is the key of some entry of `s`.
pub open spec fn has_key<K, V>(s: Seq<(K, V)>, k: K) -> bool {
    exists|i: int| 0 <= i < s.len() && s[i].0 == k
}

/// The position of an entry of `s` with key `k`.
pub open spec fn key_pos<K, V>(s: Seq<(K, V)>, k: K) -> int {
    choose|i: int| 0 <= i < s.len() && s[i].0 == k
}

/// The map that the entries `s` denote.
pub open spec fn entries_map<K, V>(s: Seq<(K, V)>) -> Map<K, V> {
    Map::new(|k: K| has_key(s, k), |k: K| s[key_pos(s, k)].1)
}

/// With distinct keys, the entry at `i` is the one found under its key.
pub proof fn lemma_key_pos<K, V>(s: Seq<(K, V)>, i: int)
    requires
        keys_distinct(s),
        0 <= i < s.len(),
    ensures
        has_key(s, s[i].0),
        key_pos(s, s[i].0) == i,
        entries_map(s).contains_key(s[i].0),
        entries_map(s)[s[i].0] == s[i].1,
{
    assert(has_key(s, s[i].0));
}

/// The sum of the values of the entries `s`.
pub open spec fn sum_values<K>(s: Seq<(K, i128)>) -> int
    decreases s.len(),
{
    if s.len() == 0 {
        0
    } else {
        sum_values(s.drop_last()) + s.last().1
    }
}

/// Replacing one value changes the sum by the difference.
pub proof fn lemma_sum_update<K>(s: Seq<(K, i128)>, i: int, e: (K, i128))
    requires
        0 <= i < s.len(),
    ensures
        sum_values(s.update(i, e)) == sum_values(s) - s[i].1 + e.1,
    decreases s.len(),
{
    let t = s.update(i, e);
    if i == s.len() - 1 {
        assert(t.drop_last() =~= s.drop_last());
    } else {
        assert(t.drop_last() =~= s.drop_last().update(i, e));
        lemma_sum_update(s.drop_last(), i, e);
    }
}

/// Removing one entry takes its value off the sum.
pub proof fn lemma_sum_remove<K>(s: Seq<(K, i128)>, i: int)
    requires
        0 <= i < s.len(),
    ensures
        sum_values(s.remove(i)) == sum_values(s) - s[i].1,
    decreases s.len(),
{
    let t = s.remove(i);
    if i == s.len() - 1 {
        assert(t =~= s.drop_last());
    } else {
        assert(t.drop_last() =~= s.drop_last().remove(i));
        lemma_sum_remove(s.drop_last(), i);
    }
}

/// With no negative value, each value is at most the sum.
pub proof fn lemma_sum_bounds<K>(s: Seq<(K, i128)>, i: int)
    requires
        0 <= i < s.len(),
        forall|j: int| 0 <= j < s.len() ==> s[j].1 >= 0,
    ensures
        s[i].1 <= sum_values(s),
        sum_values(s) >= 0,
    decreases s.len(),
{
    if i < s.len() - 1 {
        lemma_sum_bounds(s.drop_last(), i);
    } else {
        lemma_sum_nonneg(s.drop_last());
    }
}

/// With no negative value, the sum is not negative.
pub proof fn lemma_sum_nonneg<K>(s: Seq<(K, i128)>)
    requires
        forall|j: int| 0 <= j < s.len() ==> s[j].1 >= 0,
    ensures
        sum_values(s) >= 0,
    decreases s.len(),
{
    if s.len() > 0 {
        lemma_sum_nonneg(s.drop_last());
    }
}

/// A finite map from `K` to `V`.
#[verifier::reject_recursive_types(K)]
#[verifier::reject_recursive_types(V)]
pub struct Table<K, V> {
    entries: Vec<(K, V)>,
}

impl<K: TableKey, V> View for Table<K, V> {
    type V = Map<K, V>;

    open spec fn view(&self) -> Map<K, V> {
        entries_map(self.entry_seq())
    }
}

impl<K: TableKey, V> Table<K, V> {
    /// The entries are keyed distinctly.
    pub closed spec fn wf(&self) -> bool {
        keys_distinct(self.entries@)
    }

    /// The entries, in the order in which their keys were first bound.
    pub closed spec fn entry_seq(&self) -> Seq<(K, V)> {
        self.entries@
    }

    pub proof fn lemma_wf(&self)
        requires
            self.wf(),
        ensures
            keys_distinct(self.entry_seq()),
    {
    }

    pub fn new() -> (t: Self)
        ensures
            t.wf(),
            t@ == Map::<K, V>::empty(),
            t.entry_seq() == Seq::<(K, V)>::empty(),
    {
        let t = Table { entries: Vec::new() };
        assert(t@ =~= Map::<K, V>::empty());
        t
    }

    /// The position of the entry keyed `k`, if any.
    fn find(&self, k: &K) -> (r: Option<usize>)
        requires
            self.wf(),
        ensures
            match r {
                Some(i) => i < self.entries@.len() && self.entries@[i as int].0 == *k,
                None => !has_key(self.entries@, *k),
            },
    {
        let mut i: usize = 0;
        while i < self.entries.len()
            invariant
                0 <= i <= self.entries@.len(),
                forall|j: int| 0 <= j < i ==> self.entries@[j].0 != *k,
            decreases self.entries@.len() - i,
        {
            if self.entries[i].0.key_eq(k) {
                return Some(i);
            }
            i = i + 1;
        }
        None
    }

    pub fn contains_key(&self, k: &K) -> (r: bool)
        requires
            self.wf(),
        ensures
            r == self@.contains_key(*k),
    {
        self.find(k).is_some()
    }

    pub fn get(&self, k: &K) -> (r: Option<&V>)
        requires
            self.wf(),
        ensures
            match r {
                Some(v) => self@.contains_key(*k) && *v == self@[*k],
                None => !self@.contains_key(*k),
            },
    {
        match self.find(k) {
            Some(i) => {
                proof {
                    lemma_key_pos(self.entries@, i as int);
                }
                Some(&self.entries[i].1)
            },
            None => None,
        }
    }

    /// Binds `k` to `v`, replacing any earlier binding.
    pub fn insert(&mut self, k: K, v: V)
        requires
            old(self).wf(),
        ensures
            final(self).wf(),
            final(self)@ == old(self)@.insert(k, v),
            final(self).entry_seq() == (if has_key(old(self).entry_seq(), k) {
                old(self).entry_seq().update(key_pos(old(self).entry_seq(), k), (k, v))
            } else {
                old(self).entry_seq().push((k, v))
            }),
    {
        let ghost s0 = self.entries@;
        match self.find(&k) {
            Some(i) => {
                proof {
                    lemma_key_pos(s0, i as int);
                }
                self.entries.set(i, (k, v));
                let ghost s1 = self.entries@;
                assert(s1 == s0.update(i as int, (k, v)));
                assert(keys_distinct(s1));
                assert forall|x: K| #[trigger] has_key(s1, x) == (has_key(s0, x) || x == k) by {
                    if has_key(s0, x) {
                        let j = choose|j: int| 0 <= j < s0.len() && s0[j].0 == x;
                        assert(s1[j].0 == x);
                    }
                    if x == k {
                        assert(s1[i as int].0 == k);
                    }
                }
                assert forall|x: K| has_key(s1, x) implies #[trigger] s1[key_pos(s1, x)].1 == (if x == k { v } else { s0[key_pos(s0, x)].1 }) by {
                    let j = choose|j: int| 0 <= j < s1.len() && s1[j].0 == x;
                    lemma_key_pos(s1, j);
                    if x != k {
                        lemma_key_pos(s0, j);
                    }
                }
                assert(self@ =~= old(self)@.insert(k, v));
            },
            None => {
                self.entries.push((k, v));
                let ghost s1 = self.entries@;
                assert(keys_distinct(s1));
                assert forall|x: K| #[trigger] has_key(s1, x) == (has_key(s0, x) || x == k) by {
                    if has_key(s0, x) {
                        let j = choose|j: int| 0 <= j < s0.len() && s0[j].0 == x;
                        assert(s1[j].0 == x);
                    }
                    if x == k {
                        assert(s1[s0.len() as int].0 == k);
                    }
                }
                assert forall|x: K| has_key(s1, x) implies #[trigger] s1[key_pos(s1, x)].1 == (if x == k { v } else { s0[key_pos(s0, x)].1 }) by {
                    let j = choose|j: int| 0 <= j < s1.len() && s1[j].0 == x;
                    lemma_key_pos(s1, j);
                    if x != k {
                        lemma_key_pos(s0, j);
                    }
                }
                assert(self@ =~= old(self)@.insert(k, v));
            },
        }
    }

    /// Drops the binding of `k`, returning its value.
    pub fn remove(&mut self, k: &K) -> (r: Option<V>)
        requires
            old(self).wf(),
        ensures
            final(self).wf(),
            final(self)@ == old(self)@.remove(*k),
            final(self).entry_seq() == (if has_key(old(self).entry_seq(), *k) {
                old(self).entry_seq().remove(key_pos(old(self).entry_seq(), *k))
            } else {
                old(self).entry_seq()
            }),
            match r {
                Some(v) => old(self)@.contains_key(*k) && v == old(self)@[*k],
                None => !old(self)@.contains_key(*k),
            },
    {
        let ghost s0 = self.entries@;
        match self.find(k) {
            Some(i) => {
                proof {
                    lemma_key_pos(s0, i as int);
                }
                let e = self.entries.remove(i);
                let ghost s1 = self.entries@;
                assert(s1 == s0.remove(i as int));
                assert(keys_distinct(s1));
                assert forall|x: K| #[trigger] has_key(s1, x) == (has_key(s0, x) && x != *k) by {
                    if has_key(s0, x) && x != *k {
                        let j = choose|j: int| 0 <= j < s0.len() && s0[j].0 == x;
                        if j < i {
                            assert(s1[j].0 == x);
                        } else {
                            assert(j != i);
                            assert(s1[j - 1].0 == x);
                        }
                    }
                    if has_key(s1, x) {
                        let j = choose|j: int| 0 <= j < s1.len() && s1[j].0 == x;
                        if j < i {
                            assert(s0[j].0 == x);
                        } else {
                            assert(s0[j + 1].0 == x);
                        }
                    }
                }
                assert forall|x: K| has_key(s1, x) implies #[trigger] s1[key_pos(s1, x)].1 == s0[key_pos(s0, x)].1 by {
                    let j = choose|j: int| 0 <= j < s1.len() && s1[j].0 == x;
                    lemma_key_pos(s1, j);
                    if j < i {
                        lemma_key_pos(s0, j);
                    } else {
                        lemma_key_pos(s0, j + 1);
                    }
                }
                assert(self@ =~= old(self)@.remove(*k));
                Some(e.1)
            },
            None => {
                assert(self@ =~= old(self)@.remove(*k));
                None
            },
        }
    }
}


/// The items listed under `owner` (none if the owner has no list).
pub open spec fn list_of<K, T>(lists: Map<K, Vec<T>>, owner: K) -> Seq<T> {
    if lists.contains_key(owner) { lists[owner]@ } else { Seq::empty() }
}

/// Appends `item` to `owner`'s list.
pub fn append_to_list<K: TableKey, T>(lists: &mut Table<K, Vec<T>>, owner: K, item: T)
    requires
        old(lists).wf(),
    ensures
        final(lists).wf(),
        forall|a: K| #[trigger] list_of(final(lists)@, a) == if a == owner {
            list_of(old(lists)@, a).push(item)
        } else {
            list_of(old(lists)@, a)
        },
{
    let mut items = match lists.remove(&owner) {
        Some(v) => v,
        None => Vec::new(),
    };
    items.push(item);
    lists.insert(owner, items);
}

/// The values, among `records`, that the keys in `ids` name, in order; keys
/// without a value are skipped.
pub open spec fn records_listed<K, V>(ids: Seq<K>, records: Map<K, V>) -> Seq<V>
    decreases ids.len(),
{
    if ids.len() == 0 {
        Seq::empty()
    } else {
        let prev = records_listed(ids.drop_last(), records);
        if records.contains_key(ids.last()) {
            prev.push(records[ids.last()])
        } else {
            prev
        }
    }
}

/// Copies of the values that `ids` name in `records`, in order.
pub fn list_records<K: TableKey, V: Duplicate>(ids: &Vec<K>, records: &Table<K, V>) -> (r: Vec<V>)
    requires
        records.wf(),
    ensures
        r@.len() == records_listed(ids@, records@).len(),
        forall|i: int| 0 <= i < r@.len() ==> #[trigger] r@[i]@ == records_listed(ids@, records@)[i]@,
{
    let mut out: Vec<V> = Vec::new();
    let mut i: usize = 0;
    while i < ids.len()
        invariant
            0 <= i <= ids@.len(),
            records.wf(),
            out@.len() == records_listed(ids@.subrange(0, i as int), records@).len(),
            forall|j: int| 0 <= j < out@.len() ==> #[trigger] out@[j]@ == records_listed(ids@.subrange(0, i as int), records@)[j]@,
        decreases ids@.len() - i,
    {
        assert(ids@.subrange(0, i + 1).drop_last() =~= ids@.subrange(0, i as int));
        match records.get(&ids[i]) {
            Some(v) => out.push(v.duplicate()),
            None => {},
        }
        i = i + 1;
    }
    assert(ids@.subrange(0, ids@.len() as int) =~= ids@);
    out
}

/// Every value listed from `ids` is one that some listed key names.
pub proof fn lemma_records_listed_from<K, V>(ids: Seq<K>, records: Map<K, V>, i: int)
    requires
        0 <= i < records_listed(ids, records).len(),
    ensures
        exists|j: int| 0 <= j < ids.len() && records.contains_key(ids[j]) && records_listed(ids, records)[i] == records[ids[j]],
    decreases ids.len(),
{
    let prev = records_listed(ids.drop_last(), records);
    if i < prev.len() {
        lemma_records_listed_from(ids.drop_last(), records, i);
        let j = choose|j: int| 0 <= j < ids.drop_last().len() && records.contains_key(ids.drop_last()[j])
            && prev[i] == records[ids.drop_last()[j]];
        assert(ids[j] == ids.drop_last()[j]);
    } else {
        assert(ids[ids.len() - 1] == ids.last());
    }
}

/// Storing a value under a key that `ids` does not name leaves the listing
/// unchanged.
pub proof fn lemma_records_listed_insert_other<K, V>(ids: Seq<K>, records: Map<K, V>, k: K, v: V)
    requires
        forall|j: int| 0 <= j < ids.len() ==> #[trigger] ids[j] != k,
    ensures
        records_listed(ids, records.insert(k, v)) == records_listed(ids, records),
    decreases ids.len(),
{
    if ids.len() > 0 {
        assert forall|j: int| 0 <= j < ids.drop_last().len() implies #[trigger] ids.drop_last()[j] != k by {
            assert(ids.drop_last()[j] == ids[j]);
        }
        lemma_records_listed_insert_other(ids.drop_last(), records, k, v);
        assert(ids.last() == ids[ids.len() - 1]);
    }
}

/// When every listed key names a record, storing a new record under a fresh
/// key and appending that key lists the old records followed by the new one.
pub proof fn lemma_records_listed_append<K, V>(ids: Seq<K>, records: Map<K, V>, k: K, v: V)
    requires
        forall|j: int| 0 <= j < ids.len() ==> records.contains_key(#[trigger] ids[j]),
        !records.contains_key(k),
    ensures
        records_listed(ids.push(k), records.insert(k, v)) == records_listed(ids, records).push(v),
{
    assert forall|j: int| 0 <= j < ids.len() implies #[trigger] ids[j] != k by {
        assert(records.contains_key(ids[j]));
    }
    lemma_records_listed_insert_other(ids, records, k, v);
    assert(ids.push(k).drop_last() =~= ids);
    assert(ids.push(k).last() == k);
}

} // verus!
