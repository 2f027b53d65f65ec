//! Pending requests, kept until their responses arrive.
//!
//! Useful for platform backends where responses arrive on separate callbacks
//! (CoreBluetooth delegate methods, bluer notification streams, Android JNI).
use crate::util::key_map::{KeyMap, MapKey};
use crate::util::reply::{Outgoing, Replier};
use vstd::prelude::*;

verus! {

/// Pending requests by key (device IDs, `(device_id, char_uuid)` tuples, etc.).
pub struct KeyedRequestMap<K: MapKey, V> {
    inner: KeyMap<K, V>,
}

impl<K: MapKey, V> View for KeyedRequestMap<K, V> {
    type V = Map<<K as View>::V, V>;

    closed spec fn view(&self) -> Map<<K as View>::V, V> {
        self.inner@
    }
}

impl<K: MapKey, V> KeyedRequestMap<K, V> {
    /// No request is pending.
    #[must_use]
    pub fn new() -> (map: Self)
        ensures
            map@ == Map::<<K as View>::V, V>::empty(),
    {
        KeyedRequestMap { inner: KeyMap::new() }
    }

    /// Insert `value` at `key`, returning the previous value if any.
    pub fn insert(&mut self, key: K, value: V) -> (previous: Option<V>)
        ensures
            final(self)@ == old(self)@.insert(key@, value),
            previous == (if old(self)@.contains_key(key@) {
                Some(old(self)@[key@])
            } else {
                None
            }),
    {
        self.inner.insert(key, value)
    }

    /// Insert `value` at `key` only if the slot is empty. Returns `Ok(())` on
    /// success, or `Err(value)` (handing the value back uninserted) if a value
    /// was already present.
    pub fn try_insert(&mut self, key: K, value: V) -> (inserted: Result<(), V>)
        ensures
            inserted == (if old(self)@.contains_key(key@) {
                Err::<(), V>(value)
            } else {
                Ok::<(), V>(())
            }),
            final(self)@ == (if old(self)@.contains_key(key@) {
                old(self)@
            } else {
                old(self)@.insert(key@, value)
            }),
    {
        if self.inner.contains_key(key.query()) {
            Err(value)
        } else {
            self.inner.insert(key, value);
            Ok(())
        }
    }

    /// Remove and return the value at `key`, if present.
    pub fn take(&mut self, key: &K::Query) -> (value: Option<V>)
        ensures
            final(self)@ == old(self)@.remove(key@),
            value == (if old(self)@.contains_key(key@) {
                Some(old(self)@[key@])
            } else {
                None
            }),
    {
        self.inner.remove(key)
    }

    /// Drain all entries, in no particular order -- useful for cleanup on
    /// disconnect.
    pub fn drain(&mut self) -> (entries: Vec<(K, V)>)
        ensures
            crate::util::key_map::lists(entries@, old(self)@),
            final(self)@ == Map::<<K as View>::V, V>::empty(),
    {
        self.inner.drain()
    }
}

/// `matches` may answer `answer` for `key`.
pub open spec fn matched<K: MapKey, F: Fn(&K) -> bool>(
    matches: F,
    key: <K as View>::V,
    answer: bool,
) -> bool {
    exists|k: &K| k@ == key && #[trigger] matches.ensures((k,), answer)
}

/// `taken` and `left` split `whole`: each of its entries is in one of them, and
/// `matches` told which.
pub open spec fn splits<K: MapKey, V, F: Fn(&K) -> bool>(
    whole: Map<<K as View>::V, V>,
    taken: Seq<(K, V)>,
    left: Map<<K as View>::V, V>,
    matches: F,
) -> bool {
    &&& forall|i: int, j: int|
        0 <= i < j < taken.len() ==> (#[trigger] taken[i]).0@ != (#[trigger] taken[j]).0@
    &&& forall|i: int|
        0 <= i < taken.len() ==> {
            &&& whole.contains_key((#[trigger] taken[i]).0@)
            &&& whole[taken[i].0@] == taken[i].1
            &&& !left.contains_key(taken[i].0@)
            &&& matched(matches, taken[i].0@, true)
        }
    &&& forall|key: <K as View>::V| #[trigger]
        left.contains_key(key) ==> whole.contains_key(key) && left[key] == whole[key] && matched(
            matches,
            key,
            false,
        )
    &&& forall|key: <K as View>::V| #[trigger]
        whole.contains_key(key) && !left.contains_key(key) ==> exists|i: int|
            0 <= i < taken.len() && (#[trigger] taken[i]).0@ == key
}

impl<K: MapKey, V> KeyedRequestMap<K, V> {
    /// Remove and return every entry whose key matches, in no particular order.
    pub fn take_matching<F: Fn(&K) -> bool>(&mut self, matches: F) -> (taken: Vec<(K, V)>)
        requires
            forall|k: &K| #[trigger] matches.requires((k,)),
        ensures
            splits(old(self)@, taken@, final(self)@, matches),
    {
        let mut entries = self.inner.drain();
        let ghost all = entries@;
        let ghost whole = old(self)@;
        let ghost mut done: int = 0;
        let mut taken: Vec<(K, V)> = Vec::new();
        while entries.len() > 0
            invariant
                forall|k: &K| #[trigger] matches.requires((k,)),
                crate::util::key_map::lists(all, whole),
                0 <= done <= all.len(),
                entries@ == all.skip(done),
                forall|key: <K as View>::V| #[trigger]
                    self@.contains_key(key) ==> whole.contains_key(key) && self@[key] == whole[key]
                        && matched(matches, key, false) && exists|i: int|
                        0 <= i < done && (#[trigger] all[i]).0@ == key,
                forall|j: int|
                    0 <= j < taken@.len() ==> {
                        &&& whole.contains_key((#[trigger] taken@[j]).0@)
                        &&& whole[taken@[j].0@] == taken@[j].1
                        &&& !self@.contains_key(taken@[j].0@)
                        &&& matched(matches, taken@[j].0@, true)
                        &&& exists|i: int| 0 <= i < done && (#[trigger] all[i]).0@ == taken@[j].0@
                    },
                forall|i: int, j: int|
                    0 <= i < j < taken@.len() ==> (#[trigger] taken@[i]).0@ != (
                    #[trigger] taken@[j]).0@,
                forall|i: int|
                    0 <= i < done ==> self@.contains_key((#[trigger] all[i]).0@) || exists|j: int|
                        0 <= j < taken@.len() && (#[trigger] taken@[j]).0@ == all[i].0@,
            decreases entries.len(),
        {
            let (key, value) = entries.remove(0);
            assert((key, value) == all[done]);
            let ghost left = self@;
            let ghost before = taken@;
            let ghost k = key@;
            let hit: bool = matches(&key);
            assert(matched(matches, key@, hit));
            assert(!left.contains_key(k)) by {
                if left.contains_key(k) {
                    let i = choose|i: int| 0 <= i < done && (#[trigger] all[i]).0@ == k;
                    assert(all[i].0@ != all[done].0@);
                }
            }
            assert forall|j: int| 0 <= j < before.len() implies (#[trigger] before[j]).0@ != k by {
                let i = choose|i: int| 0 <= i < done && (#[trigger] all[i]).0@ == before[j].0@;
                assert(all[i].0@ != all[done].0@);
            }
            if hit {
                taken.push((key, value));
                assert(taken@[before.len() as int].0@ == k);
            } else {
                self.inner.insert(key, value);
            }
            proof {
                assert forall|i: int| 0 <= i < done + 1 implies self@.contains_key(
                    (#[trigger] all[i]).0@,
                ) || exists|j: int|
                    0 <= j < taken@.len() && (#[trigger] taken@[j]).0@ == all[i].0@ by {
                    if i < done {
                        if !left.contains_key(all[i].0@) {
                            let j = choose|j: int|
                                0 <= j < before.len() && (#[trigger] before[j]).0@ == all[i].0@;
                            assert(taken@[j] == before[j]);
                        }
                    }
                }
                assert forall|j: int| 0 <= j < taken@.len() implies exists|i: int|
                    0 <= i < done + 1 && (#[trigger] all[i]).0@ == (#[trigger] taken@[j]).0@ by {
                    if j < before.len() {
                        assert(taken@[j] == before[j]);
                        let i = choose|i: int|
                            0 <= i < done && (#[trigger] all[i]).0@ == before[j].0@;
                        assert(all[i].0@ == taken@[j].0@);
                    } else {
                        assert(all[done].0@ == taken@[j].0@);
                    }
                }
                assert forall|q: <K as View>::V| #[trigger]
                    self@.contains_key(q) implies exists|i: int|
                    0 <= i < done + 1 && (#[trigger] all[i]).0@ == q by {
                    if left.contains_key(q) {
                        let i = choose|i: int| 0 <= i < done && (#[trigger] all[i]).0@ == q;
                        assert(all[i].0@ == q);
                    } else {
                        assert(all[done].0@ == q);
                    }
                }
                done = done + 1;
                assert(entries@ =~= all.skip(done));
            }
        }
        proof {
            assert forall|key: <K as View>::V| #[trigger]
                whole.contains_key(key) && !self@.contains_key(key) implies exists|i: int|
                0 <= i < taken@.len() && (#[trigger] taken@[i]).0@ == key by {
                let i = choose|i: int| 0 <= i < all.len() && (#[trigger] all[i]).0@ == key;
                assert(done == all.len());
                assert(!self@.contains_key(all[i].0@));
            }
        }
        taken
    }
}

impl<K: MapKey, V> Default for KeyedRequestMap<K, V> {
    fn default() -> (map: Self)
        ensures
            map@ == Map::<<K as View>::V, V>::empty(),
    {
        Self::new()
    }
}

/// The answer `value` to the request pending at `key`, if there is one.
pub open spec fn reply_at<K, T>(pending: Map<K, Replier<T>>, key: K, value: T) -> Option<
    Outgoing<T>,
> {
    if pending.contains_key(key) {
        Some(Outgoing { to: pending[key], value })
    } else {
        None
    }
}

/// Take the request at `key` out, to be answered with `value`.
pub fn take_reply<K: MapKey, T>(
    pending: &mut KeyedRequestMap<K, Replier<T>>,
    key: &K::Query,
    value: T,
) -> (answer: Option<Outgoing<T>>)
    ensures
        final(pending)@ == old(pending)@.remove(key@),
        answer == reply_at(old(pending)@, key@, value),
{
    match pending.take(key) {
        Some(to) => Some(Outgoing { to, value }),
        None => None,
    }
}

/// Put a new request at `key`, to be answered to `tx`. The request it displaces
/// is to be answered with `displaced`.
pub fn displace<K: MapKey, T>(
    pending: &mut KeyedRequestMap<K, Replier<T>>,
    key: K,
    tx: Replier<T>,
    displaced: T,
) -> (answer: Option<Outgoing<T>>)
    ensures
        final(pending)@ == old(pending)@.insert(key@, tx),
        answer == reply_at(old(pending)@, key@, displaced),
{
    match pending.insert(key, tx) {
        Some(to) => Some(Outgoing { to, value: displaced }),
        None => None,
    }
}

/// The mathematical value of a [`RequestMap`].
#[verifier::ext_equal]
pub struct RequestsView<V> {
    /// The id that the next request gets.
    pub next_id: u64,
    /// The pending requests, by id.
    pub pending: Map<u64, V>,
}

impl<V> RequestsView<V> {
    /// A request has been added.
    pub open spec fn insert(self, value: V) -> Self {
        RequestsView {
            next_id: if self.next_id == u64::MAX {
                0
            } else {
                (self.next_id + 1) as u64
            },
            pending: self.pending.insert(self.next_id, value),
        }
    }

    /// The request `id` has been taken out, if it was pending.
    pub open spec fn take(self, id: u64) -> Self {
        RequestsView { pending: self.pending.remove(id), ..self }
    }

    /// Every pending request has an id that was given out since the count
    /// began.
    pub open spec fn counted(self) -> bool {
        forall|id: u64| #[trigger] self.pending.contains_key(id) ==> id < self.next_id
    }
}

/// Pending requests, keyed by auto-generated sequential `u64` IDs.
pub struct RequestMap<V> {
    inner: KeyedRequestMap<u64, V>,
    next_id: u64,
}

impl<V> View for RequestMap<V> {
    type V = RequestsView<V>;

    closed spec fn view(&self) -> RequestsView<V> {
        RequestsView { next_id: self.next_id, pending: self.inner@ }
    }
}

impl<V> RequestMap<V> {
    /// No request is pending, and the ids start at zero.
    #[must_use]
    pub fn new() -> (map: Self)
        ensures
            map@ == (RequestsView::<V> { next_id: 0, pending: Map::empty() }),
    {
        RequestMap { inner: KeyedRequestMap::new(), next_id: 0 }
    }

    /// Insert `value` and return the assigned request ID.
    pub fn insert(&mut self, value: V) -> (id: u64)
        ensures
            id == old(self)@.next_id,
            final(self)@ == old(self)@.insert(value),
    {
        let id: u64 = self.next_id;
        self.next_id = self.next_id.wrapping_add(1);
        self.inner.insert(id, value);
        id
    }

    /// Remove and return the value associated with `id`, if present.
    pub fn take(&mut self, id: u64) -> (value: Option<V>)
        ensures
            final(self)@ == old(self)@.take(id),
            value == (if old(self)@.pending.contains_key(id) {
                Some(old(self)@.pending[id])
            } else {
                None
            }),
    {
        self.inner.take(&id)
    }
}

impl<V> Default for RequestMap<V> {
    fn default() -> (map: Self)
        ensures
            map@ == (RequestsView::<V> { next_id: 0, pending: Map::empty() }),
    {
        Self::new()
    }
}

/// One step of using a request map.
pub enum RequestStep<V> {
    Insert(V),
    Take(u64),
}

/// The map after `steps`, from an empty one.
pub open spec fn after_steps<V>(steps: Seq<RequestStep<V>>) -> RequestsView<V>
    decreases steps.len(),
{
    if steps.len() == 0 {
        RequestsView { next_id: 0, pending: Map::empty() }
    } else {
        match steps.last() {
            RequestStep::Insert(value) => after_steps(steps.drop_last()).insert(value),
            RequestStep::Take(id) => after_steps(steps.drop_last()).take(id),
        }
    }
}

/// How many of `steps` insert a request.
pub open spec fn inserts<V>(steps: Seq<RequestStep<V>>) -> nat
    decreases steps.len(),
{
    if steps.len() == 0 {
        0
    } else {
        inserts(steps.drop_last()) + if steps.last() is Insert {
            1nat
        } else {
            0
        }
    }
}

/// Step `at` of `steps` is the insertion that got `id`.
pub open spec fn inserted_at<V>(steps: Seq<RequestStep<V>>, at: int, id: u64, value: V) -> bool {
    &&& 0 <= at < steps.len()
    &&& steps[at] == RequestStep::Insert(value)
    &&& inserts(steps.take(at)) == id
}

/// No step of `steps` from `from` on takes `id`.
pub open spec fn untaken_since<V>(steps: Seq<RequestStep<V>>, from: int, id: u64) -> bool {
    forall|j: int| from <= j < steps.len() ==> #[trigger] steps[j] != RequestStep::<V>::Take(id)
}

/// `id` was given out for `value` by a step that no later step took back.
pub open spec fn outstanding<V>(steps: Seq<RequestStep<V>>, id: u64, value: V) -> bool {
    exists|at: int| #[trigger]
        inserted_at(steps, at, id, value) && untaken_since(steps, at + 1, id)
}

proof fn lemma_ids_count_inserts<V>(steps: Seq<RequestStep<V>>)
    requires
        inserts(steps) <= u64::MAX,
    ensures
        after_steps(steps).next_id == inserts(steps),
        after_steps(steps).counted(),
    decreases steps.len(),
{
    if steps.len() > 0 {
        lemma_ids_count_inserts(steps.drop_last());
    }
}

proof fn lemma_inserts_monotone<V>(steps: Seq<RequestStep<V>>, n: int)
    requires
        0 <= n <= steps.len(),
    ensures
        inserts(steps.take(n)) <= inserts(steps),
    decreases steps.len(),
{
    if n < steps.len() {
        assert(steps.drop_last().take(n) =~= steps.take(n));
        lemma_inserts_monotone(steps.drop_last(), n);
    } else {
        assert(steps.take(n) =~= steps);
    }
}

/// Until 2^64 requests have been made, taking `id` gives a value exactly when
/// `id` was given out for that value by an earlier insertion that has not been
/// taken since; and no id is given out while it is still pending.
pub proof fn law_take_returns_what_was_inserted<V>(steps: Seq<RequestStep<V>>, id: u64, value: V)
    requires
        inserts(steps) <= u64::MAX,
    ensures
        after_steps(steps).pending.contains_key(id) && after_steps(steps).pending[id] == value
            <==> outstanding(steps, id, value),
        !after_steps(steps).pending.contains_key(after_steps(steps).next_id),
    decreases steps.len(),
{
    lemma_ids_count_inserts(steps);
    if steps.len() > 0 {
        let before = steps.drop_last();
        let last = (steps.len() - 1) as int;
        assert(before =~= steps.take(last));
        law_take_returns_what_was_inserted(before, id, value);
        lemma_ids_count_inserts(before);
        assert forall|at: int| 0 <= at < last implies inserted_at(before, at, id, value)
            == #[trigger] inserted_at(steps, at, id, value) by {
            assert(before.take(at) =~= steps.take(at));
        }
        if outstanding(before, id, value) {
            let at = choose|at: int| #[trigger]
                inserted_at(before, at, id, value) && untaken_since(before, at + 1, id);
            assert(inserted_at(steps, at, id, value));
            assert(before.take(at + 1).drop_last() =~= before.take(at));
            lemma_inserts_monotone(before, at + 1);
            if steps.last() != RequestStep::<V>::Take(id) {
                assert(untaken_since(steps, at + 1, id)) by {
                    assert forall|j: int| at + 1 <= j < steps.len() implies #[trigger] steps[j]
                        != RequestStep::<V>::Take(id) by {
                        if j < last {
                            assert(before[j] == steps[j]);
                        }
                    }
                }
                assert(outstanding(steps, id, value));
            }
        }
        if outstanding(steps, id, value) {
            let at = choose|at: int| #[trigger]
                inserted_at(steps, at, id, value) && untaken_since(steps, at + 1, id);
            if at < last {
                assert(inserted_at(before, at, id, value));
                assert(untaken_since(before, at + 1, id)) by {
                    assert forall|j: int| at + 1 <= j < before.len() implies #[trigger] before[j]
                        != RequestStep::<V>::Take(id) by {
                        assert(before[j] == steps[j]);
                    }
                }
                assert(outstanding(before, id, value));
                assert(steps[last] != RequestStep::<V>::Take(id));
                lemma_inserts_monotone(before, at + 1);
                assert(before.take(at + 1).drop_last() =~= before.take(at));
            }
        }
        if steps.last() is Insert {
            if inserts(before) == id && steps.last() == RequestStep::Insert(value) {
                assert(inserted_at(steps, last, id, value));
                assert(untaken_since(steps, last + 1, id));
            }
        }
    }
}

/// An answer goes to whoever is pending under the key, with the value, and to
/// nobody where none is.
pub proof fn law_an_answer_goes_to_who_is_pending<K, T>(
    pending: Map<K, Replier<T>>,
    key: K,
    value: T,
)
    ensures
        match reply_at(pending, key, value) {
            Some(out) => pending.contains_key(key) && out.to == pending[key] && out.value == value,
            None => !pending.contains_key(key),
        },
{
}

/// What is taken and what is left make up the whole: each entry is in exactly
/// one of them, with its value, and no other is.
pub proof fn law_taking_loses_nothing<K: MapKey, V, F: Fn(&K) -> bool>(
    whole: Map<<K as View>::V, V>,
    taken: Seq<(K, V)>,
    left: Map<<K as View>::V, V>,
    matches: F,
    key: <K as View>::V,
)
    requires
        splits(whole, taken, left, matches),
    ensures
        ({
            let out = exists|i: int|
                0 <= i < taken.len() && (#[trigger] taken[i]).0@ == key && taken[i].1 == whole[key];
            &&& whole.contains_key(key) <==> out || left.contains_key(key)
            &&& !(out && left.contains_key(key))
            &&& left.contains_key(key) ==> left[key] == whole[key]
        }),
{
    if whole.contains_key(key) && !left.contains_key(key) {
        let i = choose|i: int| 0 <= i < taken.len() && (#[trigger] taken[i]).0@ == key;
        assert(taken[i].1 == whole[key]);
    }
}

} // verus!
