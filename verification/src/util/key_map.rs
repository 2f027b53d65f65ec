//! A map from keys to values, kept as a list in which no key occurs twice.
use crate::text::same_text;
use crate::types::DeviceId;
use crate::uuids::Uuid;
use vstd::prelude::*;

verus! {

/// A key of a [`KeyMap`]. Two keys are the same key when their views are equal.
pub trait MapKey: View + Sized {
    /// What an entry is looked up by: the key itself, or what the key borrows as.
    type Query: ?Sized + View<V = <Self as View>::V>;

    /// The key as a lookup sees it.
    fn query(&self) -> (q: &Self::Query)
        ensures
            q@ == self@,
    ;

    /// Whether a lookup for `q` finds this key.
    fn is_key(&self, q: &Self::Query) -> (same: bool)
        ensures
            same == (self@ == q@),
    ;

    /// The same key again.
    fn duplicate(&self) -> (copy: Self)
        ensures
            copy@ == self@,
    ;
}

impl MapKey for String {
    type Query = str;

    fn query(&self) -> (q: &str) {
        self.as_str()
    }

    fn is_key(&self, q: &str) -> (same: bool) {
        same_text(self.as_str(), q)
    }

    fn duplicate(&self) -> (copy: Self) {
        self.clone()
    }
}

impl MapKey for u8 {
    type Query = u8;

    fn query(&self) -> (q: &u8) {
        self
    }

    fn is_key(&self, q: &u8) -> (same: bool) {
        *self == *q
    }

    fn duplicate(&self) -> (copy: Self) {
        *self
    }
}

impl MapKey for u16 {
    type Query = u16;

    fn query(&self) -> (q: &u16) {
        self
    }

    fn is_key(&self, q: &u16) -> (same: bool) {
        *self == *q
    }

    fn duplicate(&self) -> (copy: Self) {
        *self
    }
}

impl MapKey for i32 {
    type Query = i32;

    fn query(&self) -> (q: &i32) {
        self
    }

    fn is_key(&self, q: &i32) -> (same: bool) {
        *self == *q
    }

    fn duplicate(&self) -> (copy: Self) {
        *self
    }
}

impl MapKey for u64 {
    type Query = u64;

    fn query(&self) -> (q: &u64) {
        self
    }

    fn is_key(&self, q: &u64) -> (same: bool) {
        *self == *q
    }

    fn duplicate(&self) -> (copy: Self) {
        *self
    }
}

impl MapKey for DeviceId {
    type Query = DeviceId;

    fn query(&self) -> (q: &DeviceId) {
        self
    }

    fn is_key(&self, q: &DeviceId) -> (same: bool) {
        self.same(q)
    }

    fn duplicate(&self) -> (copy: Self) {
        self.clone()
    }
}

impl MapKey for Uuid {
    type Query = Uuid;

    fn query(&self) -> (q: &Uuid) {
        self
    }

    fn is_key(&self, q: &Uuid) -> (same: bool) {
        self.as_u128() == q.as_u128()
    }

    fn duplicate(&self) -> (copy: Self) {
        *self
    }
}

impl<A: MapKey, B: MapKey> MapKey for (A, B) {
    type Query = (A, B);

    fn query(&self) -> (q: &(A, B)) {
        self
    }

    fn is_key(&self, q: &(A, B)) -> (same: bool) {
        self.0.is_key(q.0.query()) && self.1.is_key(q.1.query())
    }

    fn duplicate(&self) -> (copy: Self) {
        (self.0.duplicate(), self.1.duplicate())
    }
}

/// A map from keys to values. Its view is the mathematical map from the
/// views of the keys to the values.
#[derive(Debug)]
pub struct KeyMap<K: MapKey, V> {
    entries: Vec<(K, V)>,
}

/// No two entries of `entries` have the same key.
spec fn distinct_keys<K: MapKey, V>(entries: Seq<(K, V)>) -> bool {
    forall|i: int, j: int|
        0 <= i < j < entries.len() ==> (#[trigger] entries[i]).0@ != (#[trigger] entries[j]).0@
}

spec fn holds_key<K: MapKey, V>(entries: Seq<(K, V)>, key: <K as View>::V) -> bool {
    exists|i: int| 0 <= i < entries.len() && (#[trigger] entries[i]).0@ == key
}

spec fn index_of<K: MapKey, V>(entries: Seq<(K, V)>, key: <K as View>::V) -> int {
    choose|i: int| 0 <= i < entries.len() && (#[trigger] entries[i]).0@ == key
}

/// The map that `entries` lists.
spec fn as_map<K: MapKey, V>(entries: Seq<(K, V)>) -> Map<<K as View>::V, V> {
    Map::new(
        |key: <K as View>::V| holds_key(entries, key),
        |key: <K as View>::V| entries[index_of(entries, key)].1,
    )
}

/// `entries` lists `map`: every key of `map` once, with its value, and no other.
pub open spec fn lists<K: MapKey, V>(entries: Seq<(K, V)>, map: Map<<K as View>::V, V>) -> bool {
    &&& forall|i: int, j: int|
        0 <= i < j < entries.len() ==> (#[trigger] entries[i]).0@ != (#[trigger] entries[j]).0@
    &&& forall|i: int|
        0 <= i < entries.len() ==> map.contains_key((#[trigger] entries[i]).0@)
            && map[entries[i].0@] == entries[i].1
    &&& forall|key: <K as View>::V| #[trigger]
        map.contains_key(key) ==> exists|i: int|
            0 <= i < entries.len() && (#[trigger] entries[i]).0@ == key
}

impl<K: MapKey, V> View for KeyMap<K, V> {
    type V = Map<<K as View>::V, V>;

    closed spec fn view(&self) -> Map<<K as View>::V, V> {
        as_map(self.entries@)
    }
}

proof fn lemma_entry<K: MapKey, V>(entries: Seq<(K, V)>, i: int)
    requires
        distinct_keys(entries),
        0 <= i < entries.len(),
    ensures
        as_map(entries).contains_key(entries[i].0@),
        as_map(entries)[entries[i].0@] == entries[i].1,
        index_of(entries, entries[i].0@) == i,
{
    let key = entries[i].0@;
    let j = index_of(entries, key);
    assert(0 <= j < entries.len() && entries[j].0@ == key);
    if j < i {
        assert(entries[j].0@ != entries[i].0@);
    } else if i < j {
        assert(entries[i].0@ != entries[j].0@);
    }
}

impl<K: MapKey, V> KeyMap<K, V> {
    #[verifier::type_invariant]
    closed spec fn wf(self) -> bool {
        distinct_keys(self.entries@)
    }

    /// The empty map.
    pub fn new() -> (map: Self)
        ensures
            map@ == Map::<<K as View>::V, V>::empty(),
    {
        let map = KeyMap { entries: Vec::new() };
        assert(map@ =~= Map::<<K as View>::V, V>::empty());
        map
    }

    /// Where `key` stands in the list.
    fn position(entries: &Vec<(K, V)>, key: &K::Query) -> (found: Option<usize>)
        ensures
            match found {
                Some(i) => i < entries@.len() && entries@[i as int].0@ == key@,
                None => !holds_key(entries@, key@),
            },
    {
        let mut i: usize = 0;
        while i < entries.len()
            invariant
                i <= entries@.len(),
                forall|j: int| 0 <= j < i ==> (#[trigger] entries@[j]).0@ != key@,
            decreases entries@.len() - i,
        {
            if entries[i].0.is_key(key) {
                return Some(i);
            }
            i += 1;
        }
        None
    }

    /// Put `value` at `key`, returning the value it displaces, if any.
    pub fn insert(&mut self, key: K, value: V) -> (displaced: Option<V>)
        ensures
            final(self)@ == old(self)@.insert(key@, value),
            displaced == (if old(self)@.contains_key(key@) {
                Some(old(self)@[key@])
            } else {
                None
            }),
    {
        let displaced = self.remove(key.query());
        proof {
            use_type_invariant(&*self);
        }
        let mut entries: Vec<(K, V)> = Vec::new();
        std::mem::swap(&mut entries, &mut self.entries);
        let ghost before = entries@;
        let ghost k = key@;
        entries.push((key, value));
        proof {
            let after = entries@;
            assert(after == before.push((key, value)));
            assert(!holds_key(before, k)) by {
                assert(!as_map(before).contains_key(k));
            }
            assert(distinct_keys(after)) by {
                assert forall|i: int, j: int| 0 <= i < j < after.len() implies (
                #[trigger] after[i]).0@ != (#[trigger] after[j]).0@ by {
                    if j == before.len() {
                        assert(before[i].0@ != k);
                    } else {
                        assert(before[i].0@ != before[j].0@);
                    }
                }
            }
            assert(as_map(after) =~= as_map(before).insert(k, value)) by {
                lemma_entry(after, before.len() as int);
                assert forall|q: <K as View>::V| q != k implies holds_key(after, q) == holds_key(
                    before,
                    q,
                ) && (holds_key(before, q) ==> as_map(after)[q] == as_map(before)[q]) by {
                    if holds_key(before, q) {
                        let i = index_of(before, q);
                        assert(after[i] == before[i]);
                        lemma_entry(after, i);
                        lemma_entry(before, i);
                    }
                    if holds_key(after, q) {
                        let i = index_of(after, q);
                        assert(after[i].0@ == q);
                        assert(i < before.len());
                        assert(before[i] == after[i]);
                    }
                }
            }
        }
        self.entries = entries;
        assert(final(self)@ =~= old(self)@.remove(k).insert(k, value));
        assert(old(self)@.remove(k).insert(k, value) =~= old(self)@.insert(k, value));
        displaced
    }

    /// Take the entry at `key` out, returning its value, if there is one.
    pub fn remove(&mut self, key: &K::Query) -> (removed: Option<V>)
        ensures
            final(self)@ == old(self)@.remove(key@),
            removed == (if old(self)@.contains_key(key@) {
                Some(old(self)@[key@])
            } else {
                None
            }),
    {
        proof {
            use_type_invariant(&*self);
        }
        let mut entries: Vec<(K, V)> = Vec::new();
        std::mem::swap(&mut entries, &mut self.entries);
        let ghost before = entries@;
        let found = Self::position(&entries, key);
        match found {
            None => {
                proof {
                    assert(as_map(before).remove(key@) =~= as_map(before));
                }
                self.entries = entries;
                None
            },
            Some(at) => {
                let (_, value) = entries.remove(at);
                proof {
                    let after = entries@;
                    let a = at as int;
                    assert(after == before.remove(a));
                    lemma_entry(before, a);
                    assert(distinct_keys(after)) by {
                        assert forall|i: int, j: int| 0 <= i < j < after.len() implies (
                        #[trigger] after[i]).0@ != (#[trigger] after[j]).0@ by {
                            let bi = if i < a { i } else { i + 1 };
                            let bj = if j < a { j } else { j + 1 };
                            assert(after[i] == before[bi] && after[j] == before[bj]);
                        }
                    }
                    assert(as_map(after) =~= as_map(before).remove(key@)) by {
                        assert forall|q: <K as View>::V|
                            holds_key(after, q) == (holds_key(before, q) && q != key@) && (
                            holds_key(after, q) ==> as_map(after)[q] == as_map(before)[q]) by {
                            if holds_key(after, q) {
                                let i = index_of(after, q);
                                let bi = if i < a { i } else { i + 1 };
                                assert(after[i].0@ == q);
                                assert(after[i] == before[bi]);
                                lemma_entry(after, i);
                                lemma_entry(before, bi);
                                if q == key@ {
                                    assert(index_of(before, q) == a);
                                }
                            }
                            if holds_key(before, q) && q != key@ {
                                let i = index_of(before, q);
                                assert(before[i].0@ == q);
                                let ai = if i < a { i } else { i - 1 };
                                assert(after[ai] == before[i]);
                            }
                        }
                    }
                }
                self.entries = entries;
                Some(value)
            },
        }
    }

    /// The value at `key`, if there is one.
    pub fn get(&self, key: &K::Query) -> (value: Option<&V>)
        ensures
            value == (if self@.contains_key(key@) {
                Some(&self@[key@])
            } else {
                None
            }),
    {
        proof {
            use_type_invariant(self);
        }
        match Self::position(&self.entries, key) {
            None => None,
            Some(at) => {
                proof {
                    lemma_entry(self.entries@, at as int);
                }
                Some(&self.entries[at].1)
            },
        }
    }

    /// Take every entry out.
    pub fn drain(&mut self) -> (entries: Vec<(K, V)>)
        ensures
            lists(entries@, old(self)@),
            final(self)@ == Map::<<K as View>::V, V>::empty(),
    {
        proof {
            use_type_invariant(&*self);
        }
        let mut entries: Vec<(K, V)> = Vec::new();
        std::mem::swap(&mut entries, &mut self.entries);
        proof {
            assert(self@ =~= Map::<<K as View>::V, V>::empty());
            assert forall|i: int| 0 <= i < entries@.len() implies old(self)@.contains_key(
                (#[trigger] entries@[i]).0@,
            ) && old(self)@[entries@[i].0@] == entries@[i].1 by {
                lemma_entry(entries@, i);
            }
            assert forall|key: <K as View>::V| #[trigger]
                old(self)@.contains_key(key) implies exists|i: int|
                0 <= i < entries@.len() && (#[trigger] entries@[i]).0@ == key by {
                let i = index_of(entries@, key);
                assert(entries@[i].0@ == key);
            }
        }
        entries
    }

    /// Whether there is an entry at `key`.
    pub fn contains_key(&self, key: &K::Query) -> (held: bool)
        ensures
            held == self@.contains_key(key@),
    {
        self.get(key).is_some()
    }
}

impl<K: MapKey, V: Clone> Clone for KeyMap<K, V> {
    fn clone(&self) -> (copy: Self)
        ensures
            copy@.dom() == self@.dom(),
            forall|key: <K as View>::V| #[trigger]
                copy@.contains_key(key) ==> cloned::<V>(self@[key], copy@[key]),
    {
        proof {
            use_type_invariant(self);
        }
        let mut copy: KeyMap<K, V> = KeyMap::new();
        let mut i: usize = 0;
        while i < self.entries.len()
            invariant
                distinct_keys(self.entries@),
                i <= self.entries@.len(),
                forall|key: <K as View>::V| #[trigger]
                    copy@.contains_key(key) ==> exists|j: int|
                        0 <= j < i && (#[trigger] self.entries@[j]).0@ == key,
                forall|j: int|
                    0 <= j < i ==> copy@.contains_key((#[trigger] self.entries@[j]).0@) && cloned::<
                        V,
                    >(self.entries@[j].1, copy@[self.entries@[j].0@]),
            decreases self.entries@.len() - i,
        {
            let ghost before = copy@;
            let ghost k = self.entries@[i as int].0@;
            copy.insert(self.entries[i].0.duplicate(), self.entries[i].1.clone());
            proof {
                assert forall|key: <K as View>::V| #[trigger]
                    copy@.contains_key(key) implies exists|j: int|
                    0 <= j < i + 1 && (#[trigger] self.entries@[j]).0@ == key by {
                    if key == k {
                        assert(self.entries@[i as int].0@ == key);
                    } else {
                        assert(before.contains_key(key));
                        let j = choose|j: int|
                            0 <= j < i && (#[trigger] self.entries@[j]).0@ == key;
                        assert(self.entries@[j].0@ == key);
                    }
                }
                assert forall|j: int| 0 <= j < i + 1 implies copy@.contains_key(
                    (#[trigger] self.entries@[j]).0@,
                ) && cloned::<V>(self.entries@[j].1, copy@[self.entries@[j].0@]) by {
                    if j < i {
                        assert(before.contains_key(self.entries@[j].0@));
                        assert(self.entries@[j].0@ != self.entries@[i as int].0@);
                    }
                }
            }
            i += 1;
        }
        proof {
            assert forall|key: <K as View>::V| copy@.contains_key(key)
                == self@.contains_key(key) by {
                if copy@.contains_key(key) {
                    let j = choose|j: int|
                        0 <= j < i && (#[trigger] self.entries@[j]).0@ == key;
                    lemma_entry(self.entries@, j);
                }
                if self@.contains_key(key) {
                    let j = index_of(self.entries@, key);
                    assert(self.entries@[j].0@ == key);
                }
            }
            assert forall|key: <K as View>::V| #[trigger]
                copy@.contains_key(key) implies cloned::<V>(self@[key], copy@[key]) by {
                let j = choose|j: int| 0 <= j < i && (#[trigger] self.entries@[j]).0@ == key;
                lemma_entry(self.entries@, j);
            }
            assert(copy@.dom() =~= self@.dom());
        }
        copy
    }
}

/// A listing of a map has as many entries as the map has keys, one for each,
/// with its value.
pub proof fn law_a_listing_is_complete<K: MapKey, V>(
    entries: Seq<(K, V)>,
    map: Map<<K as View>::V, V>,
    key: <K as View>::V,
    i: int,
)
    requires
        lists(entries, map),
    ensures
        map.contains_key(key) <==> exists|j: int|
            0 <= j < entries.len() && (#[trigger] entries[j]).0@ == key,
        0 <= i < entries.len() ==> map.contains_key(entries[i].0@) && map[entries[i].0@]
            == entries[i].1,
        map.dom().finite(),
        map.dom().len() == entries.len(),
{
    let keys = entries.map_values(|e: (K, V)| e.0@);
    assert(keys.no_duplicates()) by {
        assert forall|a: int, b: int|
            0 <= a < keys.len() && 0 <= b < keys.len() && a != b implies keys[a] != keys[b] by {
            if a < b {
                assert(entries[a].0@ != entries[b].0@);
            } else {
                assert(entries[b].0@ != entries[a].0@);
            }
        }
    }
    keys.unique_seq_to_set();
    assert(keys.to_set() =~= map.dom()) by {
        assert forall|k: <K as View>::V| #[trigger]
            keys.to_set().contains(k) <==> map.dom().contains(k) by {
            if keys.to_set().contains(k) {
                let n = choose|n: int| 0 <= n < keys.len() && keys[n] == k;
                assert(map.contains_key(entries[n].0@));
            }
            if map.contains_key(k) {
                let n = choose|n: int| 0 <= n < entries.len() && (#[trigger] entries[n]).0@ == k;
                assert(keys[n] == k);
                assert(keys.contains(k));
            }
        }
    }
}

} // verus!
