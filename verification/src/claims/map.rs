use crate::claims::keys::{ClaimKey, GameClaimKey, RealmClaimKey, ScopeClaimKey};
use crate::claims::values::ClaimValue;
use crate::time::NonZeroUnixMillis;
use vstd::prelude::*;

verus! {

/// What a key of a claim map can do: it has a view, by which it is told from
/// other keys, and two keys can be compared.
pub trait ClaimMapKey: Copy + View {
    /// Tells whether two keys are the same.
    fn same_key(&self, other: &Self) -> (r: bool)
        ensures
            r == (self@ == other@),
    ;
}

impl ClaimMapKey for ClaimKey {
    fn same_key(&self, other: &Self) -> (r: bool) {
        self.same(other)
    }
}

impl ClaimMapKey for GameClaimKey {
    fn same_key(&self, other: &Self) -> (r: bool) {
        self.same(other)
    }
}

impl ClaimMapKey for RealmClaimKey {
    fn same_key(&self, other: &Self) -> (r: bool) {
        self.same(other)
    }
}

impl ClaimMapKey for ScopeClaimKey {
    fn same_key(&self, other: &Self) -> (r: bool) {
        self.same(other)
    }
}

/// Whether some entry has the key `k`.
pub open spec fn has_key<K: ClaimMapKey>(entries: Seq<(K, ClaimValue)>, k: K::V) -> bool {
    exists|i: int| 0 <= i < entries.len() && (#[trigger] entries[i]).0@ == k
}

/// The place of an entry with the key `k`.
pub open spec fn place_of<K: ClaimMapKey>(entries: Seq<(K, ClaimValue)>, k: K::V) -> int {
    choose|i: int| 0 <= i < entries.len() && (#[trigger] entries[i]).0@ == k
}

/// Whether no two entries have the same key.
pub open spec fn distinct_keys<K: ClaimMapKey>(entries: Seq<(K, ClaimValue)>) -> bool {
    forall|i: int, j: int|
        0 <= i < j < entries.len() ==> (#[trigger] entries[i]).0@ != (#[trigger] entries[j]).0@
}

/// The mapping that a list of entries stands for.
pub open spec fn as_map<K: ClaimMapKey>(entries: Seq<(K, ClaimValue)>) -> Map<K::V, ClaimValue> {
    Map::new(|k: K::V| has_key(entries, k), |k: K::V| entries[place_of(entries, k)].1)
}

/// In a list without repeated keys, the entry at a place is what the mapping
/// holds for its key.
pub proof fn lemma_entry_at<K: ClaimMapKey>(entries: Seq<(K, ClaimValue)>, i: int)
    requires
        distinct_keys(entries),
        0 <= i < entries.len(),
    ensures
        as_map(entries).contains_key(entries[i].0@),
        as_map(entries)[entries[i].0@] == entries[i].1,
        place_of(entries, entries[i].0@) == i,
{
    let k = entries[i].0@;
    assert(has_key(entries, k));
    let p = place_of(entries, k);
    if p < i {
        assert(entries[p].0@ != entries[i].0@);
    } else if i < p {
        assert(entries[i].0@ != entries[p].0@);
    }
}

/// The claims that are not past their expiration at `now`.
pub open spec fn unexpired<KV>(m: Map<KV, ClaimValue>, now: NonZeroUnixMillis) -> Map<
    KV,
    ClaimValue,
> {
    Map::new(|k: KV| m.contains_key(k) && !m[k].expired_at(now), |k: KV| m[k])
}

/// A mapping from keys to claim values in which every key occurs once.
#[derive(Debug)]
pub struct ClaimMap<K: ClaimMapKey> {
    entries: Vec<(K, ClaimValue)>,
}

impl<K: ClaimMapKey> View for ClaimMap<K> {
    type V = Map<K::V, ClaimValue>;

    closed spec fn view(&self) -> Map<K::V, ClaimValue> {
        as_map(self.entries@)
    }
}

impl<K: ClaimMapKey> Clone for ClaimMap<K> {
    fn clone(&self) -> (r: Self)
        ensures
            r@ == self@,
            r.order() == self.order(),
    {
        proof {
            use_type_invariant(self);
        }
        let mut entries: Vec<(K, ClaimValue)> = Vec::new();
        let mut i: usize = 0;
        while i < self.entries.len()
            invariant
                i <= self.entries.len(),
                entries@ == self.entries@.take(i as int),
            decreases self.entries.len() - i,
        {
            entries.push(self.entries[i]);
            assert(self.entries@.take(i + 1) == self.entries@.take(i as int).push(
                self.entries@[i as int],
            ));
            i += 1;
        }
        assert(self.entries@.take(i as int) == self.entries@);
        ClaimMap { entries }
    }
}

impl<K: ClaimMapKey> ClaimMap<K> {
    #[verifier::type_invariant]
    spec fn well_formed(self) -> bool {
        distinct_keys(self.entries@)
    }

    /// The keys in the order in which `entry` hands the entries out.
    pub closed spec fn order(&self) -> Seq<K::V> {
        self.entries@.map_values(|e: (K, ClaimValue)| e.0@)
    }

    /// The map without entries.
    pub fn new() -> (r: Self)
        ensures
            r@ == Map::<K::V, ClaimValue>::empty(),
    {
        let r = ClaimMap { entries: Vec::new() };
        assert(r@ =~= Map::<K::V, ClaimValue>::empty());
        r
    }

    /// The place of the entry with the given key.
    fn find(&self, key: &K) -> (r: Option<usize>)
        ensures
            match r {
                Some(i) => i < self.entries.len() && self.entries@[i as int].0@ == key@,
                None => !has_key(self.entries@, key@),
            },
    {
        let mut i: usize = 0;
        while i < self.entries.len()
            invariant
                i <= self.entries.len(),
                forall|j: int| 0 <= j < i ==> (#[trigger] self.entries@[j]).0@ != key@,
            decreases self.entries.len() - i,
        {
            if self.entries[i].0.same_key(key) {
                return Some(i);
            }
            i += 1;
        }
        None
    }

    /// The value held for a key.
    pub fn get(&self, key: &K) -> (r: Option<ClaimValue>)
        ensures
            r == if self@.contains_key(key@) {
                Some(self@[key@])
            } else {
                None
            },
    {
        proof {
            use_type_invariant(self);
        }
        match self.find(key) {
            Some(i) => {
                proof {
                    lemma_entry_at(self.entries@, i as int);
                }
                Some(self.entries[i].1)
            },
            None => None,
        }
    }

    /// Tells whether a value is held for a key.
    pub fn contains_key(&self, key: &K) -> (r: bool)
        ensures
            r == self@.contains_key(key@),
    {
        self.find(key).is_some()
    }

    /// Puts a value under a key, and hands back the value that was there.
    pub fn insert(&mut self, key: K, value: ClaimValue) -> (r: Option<ClaimValue>)
        ensures
            final(self)@ == old(self)@.insert(key@, value),
            r == if old(self)@.contains_key(key@) {
                Some(old(self)@[key@])
            } else {
                None
            },
    {
        proof {
            use_type_invariant(&*self);
        }
        let ghost before = self.entries@;
        match self.find(&key) {
            Some(i) => {
                let previous = self.entries[i].1;
                proof {
                    lemma_entry_at(before, i as int);
                }
                let mut entries: Vec<(K, ClaimValue)> = Vec::new();
                std::mem::swap(&mut self.entries, &mut entries);
                entries.set(i, (key, value));
                proof {
                    let after = entries@;
                    assert(distinct_keys(after)) by {
                        assert forall|a: int, b: int| 0 <= a < b < after.len() implies (
                        #[trigger] after[a]).0@ != (#[trigger] after[b]).0@ by {
                            assert(before[a].0@ != before[b].0@);
                        }
                    }
                    assert(as_map(after) =~= as_map(before).insert(key@, value)) by {
                        assert forall|k: K::V| has_key(after, k) <==> has_key(before, k) || k
                            == key@ by {
                            if has_key(after, k) {
                                let j = place_of(after, k);
                                assert(before[j].0@ == k);
                            }
                            if has_key(before, k) {
                                let j = place_of(before, k);
                                assert(after[j].0@ == k);
                            }
                            if k == key@ {
                                assert(after[i as int].0@ == k);
                            }
                        }
                        assert forall|k: K::V| has_key(after, k) implies as_map(after)[k]
                            == as_map(before).insert(key@, value)[k] by {
                            let j = place_of(after, k);
                            lemma_entry_at(after, j);
                            lemma_entry_at(before, j);
                        }
                    }
                }
                self.entries = entries;
                Some(previous)
            },
            None => {
                let mut entries: Vec<(K, ClaimValue)> = Vec::new();
                std::mem::swap(&mut self.entries, &mut entries);
                entries.push((key, value));
                proof {
                    let after = entries@;
                    let n = before.len() as int;
                    assert(distinct_keys(after)) by {
                        assert forall|a: int, b: int| 0 <= a < b < after.len() implies (
                        #[trigger] after[a]).0@ != (#[trigger] after[b]).0@ by {
                            if b < n {
                                assert(before[a].0@ != before[b].0@);
                            } else {
                                assert(before[a].0@ != key@);
                            }
                        }
                    }
                    assert(as_map(after) =~= as_map(before).insert(key@, value)) by {
                        assert forall|k: K::V| has_key(after, k) <==> has_key(before, k) || k
                            == key@ by {
                            if has_key(after, k) {
                                let j = place_of(after, k);
                                if j < n {
                                    assert(before[j].0@ == k);
                                }
                            }
                            if has_key(before, k) {
                                let j = place_of(before, k);
                                assert(after[j].0@ == k);
                            }
                            if k == key@ {
                                assert(after[n].0@ == k);
                            }
                        }
                        assert forall|k: K::V| has_key(after, k) implies as_map(after)[k]
                            == as_map(before).insert(key@, value)[k] by {
                            let j = place_of(after, k);
                            lemma_entry_at(after, j);
                            if j < n {
                                lemma_entry_at(before, j);
                            }
                        }
                    }
                }
                self.entries = entries;
                None
            },
        }
    }

    /// Takes the entry of a key out, and hands back its value.
    pub fn remove(&mut self, key: &K) -> (r: Option<ClaimValue>)
        ensures
            final(self)@ == old(self)@.remove(key@),
            r == if old(self)@.contains_key(key@) {
                Some(old(self)@[key@])
            } else {
                None
            },
    {
        proof {
            use_type_invariant(&*self);
        }
        let ghost before = self.entries@;
        match self.find(key) {
            Some(i) => {
                proof {
                    lemma_entry_at(before, i as int);
                }
                let mut entries: Vec<(K, ClaimValue)> = Vec::new();
                std::mem::swap(&mut self.entries, &mut entries);
                let removed = entries.remove(i);
                proof {
                    let after = entries@;
                    assert forall|j: int| 0 <= j < after.len() implies #[trigger] after[j]
                        == before[if j < i {
                        j
                    } else {
                        j + 1
                    }] by {}
                    assert(distinct_keys(after)) by {
                        assert forall|a: int, b: int| 0 <= a < b < after.len() implies (
                        #[trigger] after[a]).0@ != (#[trigger] after[b]).0@ by {
                            let a0 = if a < i {
                                a
                            } else {
                                a + 1
                            };
                            let b0 = if b < i {
                                b
                            } else {
                                b + 1
                            };
                            assert(before[a0].0@ != before[b0].0@);
                        }
                    }
                    assert(as_map(after) =~= as_map(before).remove(key@)) by {
                        assert forall|k: K::V| has_key(after, k) <==> has_key(before, k) && k
                            != key@ by {
                            if has_key(after, k) {
                                let j = place_of(after, k);
                                let j0 = if j < i {
                                    j
                                } else {
                                    j + 1
                                };
                                assert(before[j0].0@ == k);
                                lemma_entry_at(before, j0);
                            }
                            if has_key(before, k) && k != key@ {
                                let j = place_of(before, k);
                                let j1 = if j < i {
                                    j
                                } else {
                                    j - 1
                                };
                                assert(after[j1].0@ == k);
                            }
                        }
                        assert forall|k: K::V| has_key(after, k) implies as_map(after)[k]
                            == as_map(before)[k] by {
                            let j = place_of(after, k);
                            let j0 = if j < i {
                                j
                            } else {
                                j + 1
                            };
                            lemma_entry_at(after, j);
                            lemma_entry_at(before, j0);
                        }
                    }
                }
                self.entries = entries;
                Some(removed.1)
            },
            None => {
                assert(as_map(before) =~= as_map(before).remove(key@));
                None
            },
        }
    }

    /// Drops the claims that are past their expiration at `now`, and tells whether
    /// there was any.
    pub fn sweep(&mut self, now: NonZeroUnixMillis) -> (dropped: bool)
        ensures
            final(self)@ == unexpired(old(self)@, now),
            dropped == (final(self)@ != old(self)@),
    {
        proof {
            use_type_invariant(&*self);
        }
        let ghost before = self.entries@;
        let mut kept: Vec<(K, ClaimValue)> = Vec::new();
        let mut dropped = false;
        let mut i: usize = 0;
        let ghost mut origin: Seq<int> = Seq::empty();
        while i < self.entries.len()
            invariant
                i <= self.entries.len(),
                self.entries@ == before,
                distinct_keys(before),
                origin.len() == kept.len(),
                forall|j: int|
                    0 <= j < kept.len() ==> 0 <= #[trigger] origin[j] < i && kept@[j]
                        == before[origin[j]] && !before[origin[j]].1.expired_at(now),
                forall|a: int, b: int| 0 <= a < b < kept.len() ==> origin[a] < origin[b],
                forall|p: int|
                    0 <= p < i && !(#[trigger] before[p]).1.expired_at(now) ==> exists|j: int|
                        0 <= j < kept.len() && origin[j] == p,
                dropped <==> exists|p: int| 0 <= p < i && (#[trigger] before[p]).1.expired_at(now),
            decreases self.entries.len() - i,
        {
            let entry = self.entries[i];
            if entry.1.is_expired(now) {
                dropped = true;
            } else {
                kept.push(entry);
                proof {
                    let old_origin = origin;
                    origin = origin.push(i as int);
                    assert forall|p: int|
                        0 <= p < i + 1 && !(#[trigger] before[p]).1.expired_at(
                            now,
                        ) implies exists|j: int| 0 <= j < kept.len() && origin[j] == p by {
                        if p < i {
                            let j = choose|j: int| 0 <= j < old_origin.len() && old_origin[j] == p;
                            assert(origin[j] == p);
                        } else {
                            assert(origin[kept.len() - 1] == p);
                        }
                    }
                }
            }
            i += 1;
        }
        proof {
            let after = kept@;
            assert(distinct_keys(after)) by {
                assert forall|a: int, b: int| 0 <= a < b < after.len() implies (
                #[trigger] after[a]).0@ != (#[trigger] after[b]).0@ by {
                    assert(before[origin[a]].0@ != before[origin[b]].0@);
                }
            }
            assert(as_map(after) =~= unexpired(as_map(before), now)) by {
                assert forall|k: K::V| has_key(after, k) <==> (has_key(before, k) && !as_map(
                    before,
                )[k].expired_at(now)) by {
                    if has_key(after, k) {
                        let j = place_of(after, k);
                        assert(before[origin[j]].0@ == k);
                        lemma_entry_at(before, origin[j]);
                    }
                    if has_key(before, k) && !as_map(before)[k].expired_at(now) {
                        let p = place_of(before, k);
                        lemma_entry_at(before, p);
                        let j = choose|j: int| 0 <= j < kept.len() && origin[j] == p;
                        assert(after[j].0@ == k);
                    }
                }
                assert forall|k: K::V| has_key(after, k) implies as_map(after)[k] == as_map(
                    before,
                )[k] by {
                    let j = place_of(after, k);
                    lemma_entry_at(after, j);
                    lemma_entry_at(before, origin[j]);
                }
            }
            if dropped {
                let p = choose|p: int| 0 <= p < before.len() && (#[trigger] before[p]).1.expired_at(
                    now,
                );
                lemma_entry_at(before, p);
                assert(as_map(before).contains_key(before[p].0@));
                assert(!unexpired(as_map(before), now).contains_key(before[p].0@));
            } else {
                assert(unexpired(as_map(before), now) =~= as_map(before)) by {
                    assert forall|k: K::V| has_key(before, k) implies !as_map(before)[k].expired_at(
                        now,
                    ) by {
                        let p = place_of(before, k);
                        lemma_entry_at(before, p);
                    }
                }
            }
        }
        self.entries = kept;
        dropped
    }

    /// Tells whether every claim of this map is in the other, with the same value.
    pub fn within(&self, other: &Self) -> (r: bool)
        ensures
            r == self@.submap_of(other@),
    {
        proof {
            use_type_invariant(self);
        }
        let mut i: usize = 0;
        while i < self.entries.len()
            invariant
                i <= self.entries.len(),
                distinct_keys(self.entries@),
                forall|j: int|
                    0 <= j < i ==> other@.contains_key((#[trigger] self.entries@[j]).0@) && other@[
                        self.entries@[j].0@] == self.entries@[j].1,
            decreases self.entries.len() - i,
        {
            let (key, value) = self.entries[i];
            proof {
                lemma_entry_at(self.entries@, i as int);
            }
            match other.get(&key) {
                Some(held) => {
                    if held != value {
                        return false;
                    }
                },
                None => {
                    return false;
                },
            }
            i += 1;
        }
        proof {
            assert forall|k: K::V| self@.contains_key(k) implies #[trigger] other@.contains_key(k)
                && self@[k] == other@[k] by {
                let j = place_of(self.entries@, k);
                lemma_entry_at(self.entries@, j);
            }
        }
        true
    }

    /// Tells whether two maps hold the same claims.
    pub fn same(&self, other: &Self) -> (r: bool)
        ensures
            r == (self@ == other@),
    {
        let r = self.within(other) && other.within(self);
        proof {
            if r {
                assert(self@ =~= other@);
            }
        }
        r
    }

    /// How many entries there are.
    pub fn len(&self) -> (r: usize)
        ensures
            r == self.order().len(),
            self.order().no_duplicates(),
            forall|k: K::V| self@.contains_key(k) <==> self.order().contains(k),
            self@.dom().finite(),
            r == self@.len(),
    {
        proof {
            use_type_invariant(self);
            let entries = self.entries@;
            let order = self.order();
            assert forall|k: K::V| as_map(entries).contains_key(k) <==> order.contains(k) by {
                if has_key(entries, k) {
                    let j = place_of(entries, k);
                    assert(order[j] == k);
                }
                if order.contains(k) {
                    let j = choose|j: int| 0 <= j < order.len() && order[j] == k;
                    assert(entries[j].0@ == k);
                }
            }
            assert forall|a: int, b: int| 0 <= a < order.len() && 0 <= b < order.len() && a
                != b implies order[a] != order[b] by {
                if a < b {
                    assert(entries[a].0@ != entries[b].0@);
                } else {
                    assert(entries[b].0@ != entries[a].0@);
                }
            }
            order.unique_seq_to_set();
            assert(order.to_set() =~= as_map(entries).dom());
        }
        self.entries.len()
    }

    /// Tells whether there is no entry.
    pub fn is_empty(&self) -> (r: bool)
        ensures
            r == (self@ == Map::<K::V, ClaimValue>::empty()),
    {
        let n = self.entries.len();
        proof {
            if n == 0 {
                assert(self@ =~= Map::<K::V, ClaimValue>::empty());
            } else {
                assert(has_key(self.entries@, self.entries@[0].0@));
                assert(self@.contains_key(self.entries@[0].0@));
            }
        }
        n == 0
    }

    /// The entry at a place of the order.
    pub fn entry(&self, i: usize) -> (r: (K, ClaimValue))
        requires
            i < self.order().len(),
        ensures
            r.0@ == self.order()[i as int],
            self@.contains_key(r.0@),
            self@[r.0@] == r.1,
    {
        proof {
            use_type_invariant(self);
            lemma_entry_at(self.entries@, i as int);
        }
        self.entries[i]
    }
}

} // verus!
