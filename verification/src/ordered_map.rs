//! Maps and sets that keep their entries in ascending key order, so that
//! walking one always visits the same keys in the same order.

use vstd::prelude::*;

verus! {

/// A key with a total order, given by the integer it ranks as.
pub trait OrderedKey: Sized + Copy {
    /// The key's place in the order.
    spec fn rank(self) -> int;

    /// Two keys of one rank are one key.
    proof fn lemma_rank_injective(a: Self, b: Self)
        requires
            a.rank() == b.rank(),
        ensures
            a == b,
    ;

    /// Whether `self` comes strictly before `other`.
    fn precedes(&self, other: &Self) -> (r: bool)
        ensures
            r == (self.rank() < other.rank()),
    ;
}

/// Whether the keys of `s` strictly ascend.
pub open spec fn keys_ascending<K: OrderedKey, V>(s: Seq<(K, V)>) -> bool {
    forall|i: int, j: int| 0 <= i < j < s.len() ==> (#[trigger] s[i]).0.rank() < (#[trigger] s[j]).0.rank()
}

/// Whether some entry of `s` has the key `k`.
pub open spec fn has_key<K, V>(s: Seq<(K, V)>, k: K) -> bool {
    exists|i: int| 0 <= i < s.len() && (#[trigger] s[i]).0 == k
}

/// The index of an entry of `s` with the key `k`.
pub open spec fn index_of<K, V>(s: Seq<(K, V)>, k: K) -> int {
    choose|i: int| 0 <= i < s.len() && (#[trigger] s[i]).0 == k
}

/// The map that the entries of `s` spell.
pub open spec fn entries_map<K, V>(s: Seq<(K, V)>) -> Map<K, V> {
    Map::new(|k: K| has_key(s, k), |k: K| s[index_of(s, k)].1)
}

/// In an ascending sequence each entry is what the map holds for its key.
pub proof fn lemma_entry_in_map<K: OrderedKey, V>(s: Seq<(K, V)>, i: int)
    requires
        keys_ascending(s),
        0 <= i < s.len(),
    ensures
        entries_map(s).contains_key(s[i].0),
        entries_map(s)[s[i].0] == s[i].1,
{
    let k = s[i].0;
    assert(has_key(s, k));
    let j = index_of(s, k);
    if j < i {
        assert(s[j].0.rank() < s[i].0.rank());
    } else if i < j {
        assert(s[i].0.rank() < s[j].0.rank());
    }
}

/// A key of the map is the key of some entry, which holds its value.
pub proof fn lemma_key_has_entry<K: OrderedKey, V>(s: Seq<(K, V)>, k: K) -> (i: int)
    requires
        entries_map(s).contains_key(k),
    ensures
        0 <= i < s.len(),
        s[i].0 == k,
        entries_map(s)[k] == s[i].1,
{
    index_of(s, k)
}

/// Putting an entry where its key belongs keeps the order and adds it to the map.
pub proof fn lemma_insert_entry<K: OrderedKey, V>(s: Seq<(K, V)>, at: int, key: K, value: V)
    requires
        keys_ascending(s),
        0 <= at <= s.len(),
        forall|j: int| 0 <= j < at ==> (#[trigger] s[j]).0.rank() < key.rank(),
        forall|j: int| at <= j < s.len() ==> key.rank() < (#[trigger] s[j]).0.rank(),
    ensures
        keys_ascending(s.insert(at, (key, value))),
        entries_map(s.insert(at, (key, value))) == entries_map(s).insert(key, value),
{
    let t = s.insert(at, (key, value));
    assert(keys_ascending(t)) by {
        assert forall|i: int, j: int| 0 <= i < j < t.len() implies (#[trigger] t[i]).0.rank() < (
        #[trigger] t[j]).0.rank() by {
            let a = if i < at { i } else { i - 1 };
            let b = if j < at { j } else { j - 1 };
            if i != at && j != at {
                assert(s[a].0.rank() < s[b].0.rank());
            } else if i == at {
                assert(key.rank() < s[b].0.rank());
            } else {
                assert(s[a].0.rank() < key.rank());
            }
        }
    }
    let m = entries_map(s).insert(key, value);
    assert forall|k: K| #[trigger] entries_map(t).contains_key(k) <==> m.contains_key(k) by {
        if entries_map(t).contains_key(k) {
            let i = index_of(t, k);
            if i != at {
                let a = if i < at { i } else { i - 1 };
                assert(s[a].0 == k);
            }
        }
        if m.contains_key(k) {
            if k == key {
                assert(t[at].0 == k);
            } else {
                let a = index_of(s, k);
                let i = if a < at { a } else { a + 1 };
                assert(t[i].0 == k);
            }
        }
    }
    assert forall|k: K| #[trigger] m.contains_key(k) implies entries_map(t)[k] == m[k] by {
        if k == key {
            lemma_entry_in_map(t, at);
        } else {
            let a = index_of(s, k);
            let i = if a < at { a } else { a + 1 };
            lemma_entry_in_map(s, a);
            lemma_entry_in_map(t, i);
        }
    }
    assert(entries_map(t) =~= m);
}

/// Replacing the value of an entry keeps the order and updates the map.
pub proof fn lemma_update_entry<K: OrderedKey, V>(s: Seq<(K, V)>, at: int, value: V)
    requires
        keys_ascending(s),
        0 <= at < s.len(),
    ensures
        keys_ascending(s.update(at, (s[at].0, value))),
        entries_map(s.update(at, (s[at].0, value))) == entries_map(s).insert(s[at].0, value),
{
    let key = s[at].0;
    let t = s.update(at, (key, value));
    assert(keys_ascending(t)) by {
        assert forall|i: int, j: int| 0 <= i < j < t.len() implies (#[trigger] t[i]).0.rank() < (
        #[trigger] t[j]).0.rank() by {
            assert(s[i].0.rank() < s[j].0.rank());
        }
    }
    let m = entries_map(s).insert(key, value);
    assert forall|k: K| #[trigger] entries_map(t).contains_key(k) <==> m.contains_key(k) by {
        if entries_map(t).contains_key(k) {
            let i = index_of(t, k);
            assert(s[i].0 == k);
        }
        if m.contains_key(k) {
            if k == key {
                assert(t[at].0 == k);
            } else {
                let a = index_of(s, k);
                assert(t[a].0 == k);
            }
        }
    }
    assert forall|k: K| #[trigger] m.contains_key(k) implies entries_map(t)[k] == m[k] by {
        if k == key {
            lemma_entry_in_map(t, at);
        } else {
            let a = index_of(s, k);
            lemma_entry_in_map(s, a);
            lemma_entry_in_map(t, a);
        }
    }
    assert(entries_map(t) =~= m);
}

/// Taking an entry out keeps the order and removes its key from the map.
pub proof fn lemma_remove_entry<K: OrderedKey, V>(s: Seq<(K, V)>, at: int)
    requires
        keys_ascending(s),
        0 <= at < s.len(),
    ensures
        keys_ascending(s.remove(at)),
        entries_map(s.remove(at)) == entries_map(s).remove(s[at].0),
{
    let key = s[at].0;
    let t = s.remove(at);
    assert(keys_ascending(t)) by {
        assert forall|i: int, j: int| 0 <= i < j < t.len() implies (#[trigger] t[i]).0.rank() < (
        #[trigger] t[j]).0.rank() by {
            let a = if i < at { i } else { i + 1 };
            let b = if j < at { j } else { j + 1 };
            assert(s[a].0.rank() < s[b].0.rank());
        }
    }
    let m = entries_map(s).remove(key);
    assert forall|k: K| #[trigger] entries_map(t).contains_key(k) <==> m.contains_key(k) by {
        if entries_map(t).contains_key(k) {
            let i = index_of(t, k);
            let a = if i < at { i } else { i + 1 };
            assert(s[a].0 == k);
            if a < at {
                assert(s[a].0.rank() < s[at].0.rank());
            } else {
                assert(s[at].0.rank() < s[a].0.rank());
            }
        }
        if m.contains_key(k) {
            let a = index_of(s, k);
            let i = if a < at { a } else { a - 1 };
            assert(t[i].0 == k);
        }
    }
    assert forall|k: K| #[trigger] m.contains_key(k) implies entries_map(t)[k] == m[k] by {
        let a = index_of(s, k);
        let i = if a < at { a } else { a - 1 };
        lemma_entry_in_map(s, a);
        lemma_entry_in_map(t, i);
    }
    assert(entries_map(t) =~= m);
}

/// The first `i + 1` entries spell the map of the first `i` with entry `i`
/// added, whose key that map does not hold yet.
pub proof fn lemma_take_step<K: OrderedKey, V>(s: Seq<(K, V)>, i: int)
    requires
        keys_ascending(s),
        0 <= i < s.len(),
    ensures
        keys_ascending(s.take(i)),
        keys_ascending(s.take(i + 1)),
        !entries_map(s.take(i)).contains_key(s[i].0),
        entries_map(s.take(i + 1)) == entries_map(s.take(i)).insert(s[i].0, s[i].1),
{
    let t = s.take(i);
    assert(keys_ascending(t)) by {
        assert forall|a: int, b: int| 0 <= a < b < t.len() implies (#[trigger] t[a]).0.rank() < (
        #[trigger] t[b]).0.rank() by {
            assert(s[a].0.rank() < s[b].0.rank());
        }
    }
    assert forall|j: int| 0 <= j < i implies (#[trigger] t[j]).0.rank() < s[i].0.rank() by {
        assert(s[j].0.rank() < s[i].0.rank());
    }
    if entries_map(t).contains_key(s[i].0) {
        let j = index_of(t, s[i].0);
        assert(t[j].0.rank() < s[i].0.rank());
    }
    lemma_insert_entry(t, i, s[i].0, s[i].1);
    assert(t.insert(i, (s[i].0, s[i].1)) =~= s.take(i + 1));
}

/// No entry spells the empty map, and all of them spell the whole map.
pub proof fn lemma_take_ends<K: OrderedKey, V>(s: Seq<(K, V)>)
    ensures
        entries_map(s.take(0)) == Map::<K, V>::empty(),
        s.take(s.len() as int) == s,
{
    assert(entries_map(s.take(0)) =~= Map::<K, V>::empty());
    assert(s.take(s.len() as int) =~= s);
}

/// Two ascending sequences that spell the same map are the same sequence.
pub proof fn lemma_same_map_same_entries<K: OrderedKey, V>(s: Seq<(K, V)>, t: Seq<(K, V)>)
    requires
        keys_ascending(s),
        keys_ascending(t),
        entries_map(s) == entries_map(t),
    ensures
        s == t,
    decreases s.len(),
{
    if s.len() == 0 {
        if t.len() > 0 {
            lemma_entry_in_map(t, 0);
            assert(has_key(s, t[0].0));
        }
        assert(s =~= t);
    } else {
        let n = s.len() - 1;
        lemma_entry_in_map(s, n);
        let j = lemma_key_has_entry(t, s[n].0);
        if j < t.len() - 1 {
            let last = t.len() - 1;
            lemma_entry_in_map(t, last);
            let i = lemma_key_has_entry(s, t[last].0);
            assert(t[j].0.rank() < t[last].0.rank());
            if i < n {
                assert(s[i].0.rank() < s[n].0.rank());
            }
        }
        assert(j == t.len() - 1);
        lemma_remove_entry(s, n);
        lemma_remove_entry(t, j);
        assert(s.remove(n) =~= s.drop_last());
        assert(t.remove(j) =~= t.drop_last());
        lemma_same_map_same_entries(s.drop_last(), t.drop_last());
        assert(s[n] == t[j]);
        assert(s =~= s.drop_last().push(s[n]));
        assert(t =~= t.drop_last().push(t[j]));
    }
}

/// A map from keys to values whose entries are held in ascending key order.
#[derive(Debug)]
pub struct OrderedMap<K: OrderedKey, V> {
    entries: Vec<(K, V)>,
}

impl<K: OrderedKey, V> View for OrderedMap<K, V> {
    type V = Map<K, V>;

    open spec fn view(&self) -> Map<K, V> {
        entries_map(self.entries())
    }
}

impl<K: OrderedKey, V> OrderedMap<K, V> {
    /// The entries, in the order in which they are held.
    pub closed spec fn entries(self) -> Seq<(K, V)> {
        self.entries@
    }

    /// The invariant: keys strictly ascend, so none occurs twice.
    pub open spec fn wf(self) -> bool {
        keys_ascending(self.entries())
    }

    /// A map without entries.
    pub fn new() -> (r: Self)
        ensures
            r.wf(),
            r@ == Map::<K, V>::empty(),
            r.entries().len() == 0,
    {
        let r = OrderedMap { entries: Vec::new() };
        assert(r@ =~= Map::<K, V>::empty());
        r
    }

    /// The number of entries.
    pub fn len(&self) -> (n: usize)
        ensures
            n == self.entries().len(),
    {
        self.entries.len()
    }

    /// Whether the map has no entry.
    pub fn is_empty(&self) -> (r: bool)
        requires
            self.wf(),
        ensures
            r == (self.entries().len() == 0),
            r == (self@ == Map::<K, V>::empty()),
    {
        proof {
            if self.entries().len() == 0 {
                assert(self@ =~= Map::<K, V>::empty());
            } else {
                lemma_entry_in_map(self.entries(), 0);
            }
        }
        self.entries.len() == 0
    }

    /// The key of the entry at position `i`.
    pub fn key_at(&self, i: usize) -> (k: K)
        requires
            i < self.entries().len(),
        ensures
            k == self.entries()[i as int].0,
    {
        self.entries[i].0
    }

    /// The value of the entry at position `i`.
    pub fn value_at(&self, i: usize) -> (v: &V)
        requires
            i < self.entries().len(),
        ensures
            *v == self.entries()[i as int].1,
    {
        &self.entries[i].1
    }

    /// Where `key` is or would be: the number of entries with a smaller
    /// key, and whether the entry there has this key.
    fn locate(&self, key: &K) -> (r: (usize, bool))
        requires
            self.wf(),
        ensures
            r.0 <= self.entries().len(),
            forall|j: int| 0 <= j < r.0 ==> (#[trigger] self.entries()[j]).0.rank() < key.rank(),
            forall|j: int|
                r.0 <= j < self.entries().len() ==> key.rank() <= (
                #[trigger] self.entries()[j]).0.rank(),
            r.1 ==> r.0 < self.entries().len() && self.entries()[r.0 as int].0 == *key,
            !r.1 ==> forall|j: int|
                r.0 <= j < self.entries().len() ==> key.rank() < (
                #[trigger] self.entries()[j]).0.rank(),
            r.1 == self@.contains_key(*key),
    {
        let mut lo: usize = 0;
        let mut hi: usize = self.entries.len();
        while lo < hi
            invariant
                self.wf(),
                lo <= hi <= self.entries().len(),
                forall|j: int| 0 <= j < lo ==> (#[trigger] self.entries()[j]).0.rank() < key.rank(),
                forall|j: int|
                    hi <= j < self.entries().len() ==> key.rank() <= (
                    #[trigger] self.entries()[j]).0.rank(),
            decreases hi - lo,
        {
            let mid: usize = lo + (hi - lo) / 2;
            if self.entries[mid].0.precedes(key) {
                assert forall|j: int| 0 <= j < mid + 1 implies (
                #[trigger] self.entries()[j]).0.rank() < key.rank() by {
                    if j < mid {
                        assert(self.entries()[j].0.rank() < self.entries()[mid as int].0.rank());
                    }
                }
                lo = mid + 1;
            } else {
                assert forall|j: int| mid <= j < self.entries().len() implies key.rank() <= (
                #[trigger] self.entries()[j]).0.rank() by {
                    if mid < j {
                        assert(self.entries()[mid as int].0.rank() < self.entries()[j].0.rank());
                    }
                }
                hi = mid;
            }
        }
        let found = lo < self.entries.len() && !key.precedes(&self.entries[lo].0);
        proof {
            if found {
                K::lemma_rank_injective(self.entries()[lo as int].0, *key);
                assert(has_key(self.entries(), *key));
            } else {
                if self@.contains_key(*key) {
                    let i = index_of(self.entries(), *key);
                    assert(self.entries()[i].0.rank() == key.rank());
                }
                assert forall|j: int| lo <= j < self.entries().len() implies key.rank() < (
                #[trigger] self.entries()[j]).0.rank() by {
                    if lo < j {
                        assert(self.entries()[lo as int].0.rank() < self.entries()[j].0.rank());
                    }
                }
            }
        }
        (lo, found)
    }

    /// Whether the map holds `key`.
    pub fn contains_key(&self, key: &K) -> (r: bool)
        requires
            self.wf(),
        ensures
            r == self@.contains_key(*key),
    {
        self.locate(key).1
    }

    /// The value held for `key`, if any.
    pub fn get(&self, key: &K) -> (r: Option<&V>)
        requires
            self.wf(),
        ensures
            match r {
                Some(v) => self@.contains_key(*key) && *v == self@[*key],
                None => !self@.contains_key(*key),
            },
    {
        let (at, found) = self.locate(key);
        if found {
            proof {
                lemma_entry_in_map(self.entries(), at as int);
            }
            Some(&self.entries[at].1)
        } else {
            None
        }
    }

    /// Sets the value held for `key`, adding the key if it is new.
    pub fn insert(&mut self, key: K, value: V)
        requires
            old(self).wf(),
        ensures
            final(self).wf(),
            final(self)@ == old(self)@.insert(key, value),
    {
        let (at, found) = self.locate(&key);
        if found {
            proof {
                lemma_update_entry(self.entries(), at as int, value);
            }
            self.entries[at] = (key, value);
        } else {
            proof {
                lemma_insert_entry(self.entries(), at as int, key, value);
            }
            self.entries.insert(at, (key, value));
        }
    }

    /// Takes out the entry for `key`, if any, and returns its value.
    pub fn remove(&mut self, key: &K) -> (r: Option<V>)
        requires
            old(self).wf(),
        ensures
            final(self).wf(),
            final(self)@ == old(self)@.remove(*key),
            match r {
                Some(v) => old(self)@.contains_key(*key) && v == old(self)@[*key],
                None => !old(self)@.contains_key(*key),
            },
    {
        let (at, found) = self.locate(key);
        if found {
            proof {
                lemma_remove_entry(self.entries(), at as int);
                lemma_entry_in_map(self.entries(), at as int);
            }
            let entry = self.entries.remove(at);
            Some(entry.1)
        } else {
            assert(self@ =~= self@.remove(*key));
            None
        }
    }

    /// Moves every entry of `other` into the map; where both hold a key,
    /// the value of `other` stays.
    pub fn append(&mut self, other: Self)
        requires
            old(self).wf(),
            other.wf(),
        ensures
            final(self).wf(),
            final(self)@ == old(self)@.union_prefer_right(other@),
    {
        let mut rest = other.entries;
        let ghost all = rest@;
        assert(all.skip(all.len() as int) =~= Seq::<(K, V)>::empty());
        assert(entries_map(Seq::<(K, V)>::empty()) =~= Map::<K, V>::empty());
        assert(self@.union_prefer_right(Map::<K, V>::empty()) =~= self@);
        while rest.len() > 0
            invariant
                self.wf(),
                keys_ascending(all),
                rest@ == all.take(rest@.len() as int),
                rest@.len() <= all.len(),
                self@ == old(self)@.union_prefer_right(entries_map(all.skip(rest@.len() as int))),
            decreases rest.len(),
        {
            let ghost n = rest@.len() as int;
            let entry = rest.pop().unwrap();
            proof {
                let tail = all.skip(n);
                assert(entry == all[n - 1]);
                assert(keys_ascending(tail)) by {
                    assert forall|i: int, j: int| 0 <= i < j < tail.len() implies (
                    #[trigger] tail[i]).0.rank() < (#[trigger] tail[j]).0.rank() by {
                        assert(all[n + i].0.rank() < all[n + j].0.rank());
                    }
                }
                assert forall|j: int| 0 <= j < tail.len() implies entry.0.rank() < (
                #[trigger] tail[j]).0.rank() by {
                    assert(all[n - 1].0.rank() < all[n + j].0.rank());
                }
                lemma_insert_entry(tail, 0, entry.0, entry.1);
                assert(tail.insert(0, (entry.0, entry.1)) =~= all.skip(n - 1));
                assert(old(self)@.union_prefer_right(entries_map(tail)).insert(entry.0, entry.1)
                    =~= old(self)@.union_prefer_right(entries_map(tail).insert(entry.0, entry.1)));
                assert(rest@ =~= all.take(n - 1));
            }
            self.insert(entry.0, entry.1);
        }
        assert(all.skip(0) =~= all);
    }

    /// Hands out the entries, in ascending key order.
    pub fn into_entries(self) -> (r: Vec<(K, V)>)
        ensures
            r@ == self.entries(),
    {
        self.entries
    }
}

/// A set of keys held in ascending order.
#[derive(Debug)]
pub struct OrderedSet<K: OrderedKey> {
    members: OrderedMap<K, ()>,
}

impl<K: OrderedKey> View for OrderedSet<K> {
    type V = Set<K>;

    open spec fn view(&self) -> Set<K> {
        entries_map(self.entries()).dom()
    }
}

impl<K: OrderedKey> OrderedSet<K> {
    /// The members with their unit values, in the order in which they are held.
    pub closed spec fn entries(self) -> Seq<(K, ())> {
        self.members.entries()
    }

    /// The invariant: members strictly ascend, so none occurs twice.
    pub open spec fn wf(self) -> bool {
        keys_ascending(self.entries())
    }

    /// A set without members.
    pub fn new() -> (r: Self)
        ensures
            r.wf(),
            r@ == Set::<K>::empty(),
            r.entries().len() == 0,
    {
        let r = OrderedSet { members: OrderedMap::new() };
        assert(r@ =~= Set::<K>::empty());
        r
    }

    /// The number of members.
    pub fn len(&self) -> (n: usize)
        ensures
            n == self.entries().len(),
    {
        self.members.len()
    }

    /// The member at position `i`.
    pub fn key_at(&self, i: usize) -> (k: K)
        requires
            i < self.entries().len(),
        ensures
            k == self.entries()[i as int].0,
    {
        self.members.key_at(i)
    }

    /// Whether `key` is a member.
    pub fn contains(&self, key: &K) -> (r: bool)
        requires
            self.wf(),
        ensures
            r == self@.contains(*key),
    {
        self.members.contains_key(key)
    }

    /// Makes `key` a member.
    pub fn insert(&mut self, key: K)
        requires
            old(self).wf(),
        ensures
            final(self).wf(),
            final(self)@ == old(self)@.insert(key),
    {
        self.members.insert(key, ());
        assert(self@ =~= old(self)@.insert(key));
    }

    /// Moves every member of `other` into the set.
    pub fn append(&mut self, other: Self)
        requires
            old(self).wf(),
            other.wf(),
        ensures
            final(self).wf(),
            final(self)@ == old(self)@.union(other@),
    {
        self.members.append(other.members);
        assert(self@ =~= old(self)@.union(other@));
    }
}

} // verus!
