//! Waiters for platform callbacks that don't say which request they answer.
//!
//! CoreBluetooth answers `addService:`, `startAdvertising:` and
//! `publishL2CAPChannelWithEncryption:` through delegate callbacks that
//! identify the request by its service UUID at most, and the other two not at
//! all. Once a caller can stop waiting -- it timed out, or its future was
//! dropped -- the answer can still arrive later, and a newer request under the
//! same key would take it for its own: a stale success confirming a request
//! the platform never answered.
//!
//! So a slot is held from registration until the callback that answers it
//! arrives, whether or not anyone is still waiting, and a request that finds
//! its key held is refused rather than queued or allowed to replace it. The
//! only other way out is the platform dropping every outstanding request at
//! once; see [`CallbackSlots::drain`].
use crate::error::{BlewError, BlewResult};
use crate::util::key_map::{KeyMap, MapKey};
use crate::util::reply::{reply_channel, Outgoing, Replier, Reply, Sent, SentLog, Waited};
use vstd::prelude::*;

verus! {

/// Identifies one registration, so withdrawing it can't remove a later one
/// that took the same key.
#[derive(Debug, Clone, Copy, PartialEq, Eq, Structural)]
pub struct Ticket(u64);

impl View for Ticket {
    type V = u64;

    closed spec fn view(&self) -> u64 {
        self.0
    }
}

/// A registration the platform still owes a callback.
#[verifier::reject_recursive_types(T)]
pub struct Pending<P, T> {
    ticket: Ticket,
    payload: P,
    tx: Replier<BlewResult<T>>,
}

impl<P, T> Pending<P, T> {
    /// Which registration this is.
    pub closed spec fn ticket(self) -> u64 {
        self.ticket@
    }

    /// What the answer applies to.
    pub closed spec fn payload(self) -> P {
        self.payload
    }

    /// Who asked.
    pub closed spec fn replier(self) -> Replier<BlewResult<T>> {
        self.tx
    }

    /// Separate what the answer applies to from the means of delivering it,
    /// so the payload can take effect before the caller is woken.
    pub fn split(self) -> (parts: (P, Answer<T>))
        ensures
            parts.0 == self.payload(),
            parts.1.replier() == self.replier(),
    {
        (self.payload, Answer(self.tx))
    }

    /// Deliver `result`, discarding the payload. See [`Answer::send`].
    pub fn answer(self, result: BlewResult<T>, log: &mut SentLog<BlewResult<T>>) -> (delivered:
        bool)
        ensures
            final(log)@ == old(log)@.push(Sent { to: self.replier(), value: result, delivered }),
    {
        self.split().1.send(result, log)
    }
}

/// The way back to a registration's caller.
#[verifier::reject_recursive_types(T)]
pub struct Answer<T>(Replier<BlewResult<T>>);

impl<T> Answer<T> {
    /// Who asked.
    pub closed spec fn replier(self) -> Replier<BlewResult<T>> {
        self.0
    }

    /// Deliver `result`. `false` when the caller had stopped waiting, which is
    /// the late answer to a request it gave up on.
    pub fn send(self, result: BlewResult<T>, log: &mut SentLog<BlewResult<T>>) -> (delivered: bool)
        ensures
            final(log)@ == old(log)@.push(Sent { to: self.replier(), value: result, delivered }),
    {
        self.outgoing(result).send(log)
    }

    /// The answer `result`, ready to be given.
    pub fn outgoing(self, result: BlewResult<T>) -> (answer: Outgoing<BlewResult<T>>)
        ensures
            answer == (Outgoing { to: self.replier(), value: result }),
    {
        Outgoing { to: self.0, value: result }
    }
}

/// The mathematical value of [`CallbackSlots`].
#[verifier::reject_recursive_types(K)]
#[verifier::reject_recursive_types(T)]
#[verifier::ext_equal]
pub struct SlotsView<K, P, T> {
    /// The ticket given out last.
    pub last: u64,
    /// The registration that holds each key.
    pub slots: Map<K, Pending<P, T>>,
}

/// The ticket after `ticket`: one more, wrapping.
pub open spec fn next_ticket(ticket: u64) -> u64 {
    if ticket == u64::MAX {
        0
    } else {
        (ticket + 1) as u64
    }
}

/// `n` tickets after `ticket`.
pub open spec fn tickets_after(ticket: u64, n: nat) -> u64
    decreases n,
{
    if n == 0 {
        ticket
    } else {
        next_ticket(tickets_after(ticket, (n - 1) as nat))
    }
}

impl<K, P, T> SlotsView<K, P, T> {
    /// The registration that `ticket` names holds `key`.
    pub open spec fn holds(self, key: K, ticket: u64) -> bool {
        self.slots.contains_key(key) && self.slots[key].ticket() == ticket
    }

    /// A registration has claimed the free `key`.
    pub open spec fn register(self, key: K, pending: Pending<P, T>) -> Self {
        SlotsView { last: next_ticket(self.last), slots: self.slots.insert(key, pending) }
    }

    /// The registration that `ticket` names has been given back.
    pub open spec fn withdraw(self, key: K, ticket: u64) -> Self {
        if self.holds(key, ticket) {
            self.take(key)
        } else {
            self
        }
    }

    /// The slot of `key` has been freed.
    pub open spec fn take(self, key: K) -> Self {
        SlotsView { slots: self.slots.remove(key), ..self }
    }

    /// Every slot has been freed.
    pub open spec fn drain(self) -> Self {
        SlotsView { slots: Map::empty(), ..self }
    }
}

/// One slot per key, each held until the platform answers it.
#[verifier::reject_recursive_types(T)]
pub struct CallbackSlots<K: MapKey, P, T> {
    next_ticket: u64,
    slots: KeyMap<K, Pending<P, T>>,
}

impl<K: MapKey, P, T> View for CallbackSlots<K, P, T> {
    type V = SlotsView<<K as View>::V, P, T>;

    closed spec fn view(&self) -> SlotsView<<K as View>::V, P, T> {
        SlotsView { last: self.next_ticket, slots: self.slots@ }
    }
}

impl<K: MapKey, P, T> Default for CallbackSlots<K, P, T> {
    fn default() -> (slots: Self)
        ensures
            slots@ == (SlotsView::<<K as View>::V, P, T> { last: 0, slots: Map::empty() }),
    {
        CallbackSlots { next_ticket: 0, slots: KeyMap::new() }
    }
}

impl<K: MapKey, P, T> CallbackSlots<K, P, T> {
    /// Claim the free `key` for a request that is to be answered to `tx`.
    pub fn register_for(&mut self, key: K, payload: P, tx: Replier<BlewResult<T>>) -> (ticket:
        Ticket)
        requires
            !old(self)@.slots.contains_key(key@),
        ensures
            ticket@ == final(self)@.last,
            ({
                let pending = final(self)@.slots[key@];
                &&& final(self)@ == old(self)@.register(key@, pending)
                &&& pending.ticket() == ticket@
                &&& pending.payload() == payload
                &&& pending.replier() == tx
            }),
    {
        self.next_ticket = self.next_ticket.wrapping_add(1);
        let ticket = Ticket(self.next_ticket);
        self.slots.insert(key, Pending { ticket, payload, tx });
        ticket
    }

    /// Claim `key` for a request about to be issued, carrying `payload` for
    /// whoever takes the answer. `None` while an earlier request under the
    /// same key is still owed its callback, whether or not that request's
    /// caller is still waiting.
    pub fn register(&mut self, key: K, payload: P) -> (claimed: Option<
        (Ticket, Reply<BlewResult<T>>),
    >)
        ensures
            claimed is Some <==> !old(self)@.slots.contains_key(key@),
            match claimed {
                None => final(self)@ == old(self)@,
                Some((ticket, reply)) => {
                    let pending = final(self)@.slots[key@];
                    &&& ticket@ == final(self)@.last
                    &&& final(self)@ == old(self)@.register(key@, pending)
                    &&& pending.ticket() == ticket@
                    &&& pending.payload() == payload
                    &&& pending.replier().channel() == reply.channel()
                },
            },
    {
        if self.slots.contains_key(key.query()) {
            return None;
        }
        let (tx, rx) = reply_channel();
        let ticket = self.register_for(key, payload, tx);
        Some((ticket, rx))
    }

    /// Give back a registration whose request was never issued, so no callback
    /// is owed for it. Removes only the registration `ticket` names: a
    /// [`drain`](Self::drain) can already have freed it, and a later
    /// registration taken the key.
    pub fn withdraw(&mut self, key: &K::Query, ticket: Ticket) -> (withdrawn: bool)
        ensures
            final(self)@ == old(self)@.withdraw(key@, ticket@),
            withdrawn == old(self)@.holds(key@, ticket@),
    {
        let owned = match self.slots.get(key) {
            Some(pending) => pending.ticket.0 == ticket.0,
            None => false,
        };
        if owned {
            self.slots.remove(key);
        }
        owned
    }

    /// The registration a callback for `key` answers, freeing its slot.
    pub fn take(&mut self, key: &K::Query) -> (pending: Option<Pending<P, T>>)
        ensures
            final(self)@ == old(self)@.take(key@),
            pending == (if old(self)@.slots.contains_key(key@) {
                Some(old(self)@.slots[key@])
            } else {
                None
            }),
    {
        self.slots.remove(key)
    }

    /// Every registration, freeing every slot. For when the platform has
    /// dropped all outstanding requests and will answer none of them.
    pub fn drain(&mut self) -> (drained: Vec<Pending<P, T>>)
        ensures
            final(self)@ == old(self)@.drain(),
            enumerates(drained@, old(self)@.slots),
    {
        let mut entries = self.slots.drain();
        let ghost all = entries@;
        let ghost slots = old(self)@.slots;
        let mut drained: Vec<Pending<P, T>> = Vec::new();
        while entries.len() > 0
            invariant
                crate::util::key_map::lists(all, slots),
                drained@.len() + entries@.len() == all.len(),
                entries@ == all.subrange(drained@.len() as int, all.len() as int),
                forall|i: int| 0 <= i < drained@.len() ==> #[trigger] drained@[i] == all[i].1,
            decreases entries.len(),
        {
            let ghost before = entries@;
            let (_, pending) = entries.remove(0);
            drained.push(pending);
            assert(before[0] == all[drained@.len() - 1]);
            assert(entries@ =~= all.subrange(drained@.len() as int, all.len() as int));
        }
        proof {
            let keys = Seq::new(all.len(), |i: int| all[i].0@);
            assert forall|key: <K as View>::V| #[trigger]
                slots.contains_key(key) implies exists|i: int|
                0 <= i < keys.len() && #[trigger] keys[i] == key by {
                let i = choose|i: int| 0 <= i < all.len() && (#[trigger] all[i]).0@ == key;
                assert(keys[i] == key);
            }
            assert(enumerated_by(drained@, slots, keys));
        }
        drained
    }
}

/// `values` are the values of `map` at `keys`, which are its keys, each once.
pub open spec fn enumerated_by<K, V>(values: Seq<V>, map: Map<K, V>, keys: Seq<K>) -> bool {
    &&& keys.len() == values.len()
    &&& forall|i: int, j: int|
        0 <= i < j < keys.len() ==> #[trigger] keys[i] != #[trigger] keys[j]
    &&& forall|i: int|
        0 <= i < keys.len() ==> map.contains_key(#[trigger] keys[i]) && map[keys[i]] == values[i]
    &&& forall|key: K| #[trigger]
        map.contains_key(key) ==> exists|i: int| 0 <= i < keys.len() && #[trigger] keys[i] == key
}

/// `values` are the values of `map`, one for each of its keys, in some order.
pub open spec fn enumerates<K, V>(values: Seq<V>, map: Map<K, V>) -> bool {
    exists|keys: Seq<K>| enumerated_by(values, map, keys)
}

/// What a caller is told after it waited for a registration's answer, given
/// what came of the wait.
///
/// Giving up leaves the slot held: the platform still owes the answer, and it
/// has to be consumed by this registration rather than by the next one under
/// the same key.
pub fn answer_of<T, F: FnOnce() -> BlewError>(
    waited: Waited<BlewResult<T>>,
    timed_out: F,
) -> (result: BlewResult<T>)
    requires
        timed_out.requires(()),
    ensures
        match waited {
            Waited::Answered(answer) => result == answer,
            Waited::Dropped => result matches Err(e) && e@ == crate::error::ErrorView::Internal(
                "callback slot dropped before it was answered"@,
            ),
            Waited::TimedOut => result matches Err(e) && timed_out.ensures((), e),
        },
{
    match waited {
        Waited::Answered(answer) => answer,
        Waited::Dropped => Err(
            BlewError::Internal("callback slot dropped before it was answered".to_owned()),
        ),
        Waited::TimedOut => Err(timed_out()),
    }
}

/// A registration holds its key whatever else happens to other keys, and
/// against every withdrawal but its own; so the next callback for the key is
/// answered to it.
pub proof fn law_slot_held_until_answered<K, P, T>(
    state: SlotsView<K, P, T>,
    key: K,
    other: K,
    pending: Pending<P, T>,
    ticket: u64,
)
    requires
        state.slots.contains_key(key),
        other != key,
        ticket != state.slots[key].ticket(),
    ensures
        state.register(other, pending).slots.contains_key(key),
        state.register(other, pending).slots[key] == state.slots[key],
        state.take(other).slots.contains_key(key),
        state.take(other).slots[key] == state.slots[key],
        state.withdraw(other, ticket).slots.contains_key(key),
        state.withdraw(other, ticket).slots[key] == state.slots[key],
        state.withdraw(key, ticket) == state,
{
}

/// Answering, draining and withdrawing a registration free its key, and its
/// ticket then withdraws nothing, even from a later holder of the key.
pub proof fn law_freed_slot_is_free<K, P, T>(
    state: SlotsView<K, P, T>,
    key: K,
    later: Pending<P, T>,
)
    requires
        state.slots.contains_key(key),
        later.ticket() != state.slots[key].ticket(),
    ensures
        !state.take(key).slots.contains_key(key),
        !state.drain().slots.contains_key(key),
        !state.withdraw(key, state.slots[key].ticket()).slots.contains_key(key),
        state.take(key).register(key, later).withdraw(key, state.slots[key].ticket())
            == state.take(key).register(key, later),
        state.drain().register(key, later).withdraw(key, state.slots[key].ticket())
            == state.drain().register(key, later),
{
}

proof fn lemma_tickets(ticket: u64, n: nat)
    ensures
        tickets_after(ticket, n) == (ticket + n) % 0x1_0000_0000_0000_0000,
    decreases n,
{
    if n > 0 {
        lemma_tickets(ticket, (n - 1) as nat);
    }
}

/// No ticket comes back before all 2^64 - 1 others have been given out.
pub proof fn law_tickets_are_fresh(ticket: u64, n: nat)
    requires
        0 < n < 0x1_0000_0000_0000_0000,
    ensures
        tickets_after(ticket, n) != ticket,
{
    lemma_tickets(ticket, n);
}

/// An enumeration of a map has as many values as the map has keys, the value of
/// each key, and no other.
pub proof fn law_enumeration_is_complete<K, V>(values: Seq<V>, map: Map<K, V>, key: K, i: int)
    requires
        enumerates(values, map),
    ensures
        map.dom().finite(),
        values.len() == map.dom().len(),
        map.contains_key(key) ==> values.contains(map[key]),
        0 <= i < values.len() ==> exists|k: K| #[trigger]
            map.contains_key(k) && map[k] == values[i],
{
    let keys = choose|keys: Seq<K>| enumerated_by(values, map, keys);
    assert(keys.no_duplicates());
    keys.unique_seq_to_set();
    assert(keys.to_set() =~= map.dom()) by {
        assert forall|k: K| #[trigger] keys.to_set().contains(k) <==> map.dom().contains(k) by {
            if keys.to_set().contains(k) {
                let n = choose|n: int| 0 <= n < keys.len() && keys[n] == k;
                assert(map.contains_key(keys[n]));
            }
            if map.contains_key(k) {
                let n = choose|n: int| 0 <= n < keys.len() && #[trigger] keys[n] == k;
                assert(keys.contains(k));
            }
        }
    }
    if map.contains_key(key) {
        let n = choose|n: int| 0 <= n < keys.len() && #[trigger] keys[n] == key;
        assert(map[keys[n]] == values[n]);
    }
    if 0 <= i < values.len() {
        assert(map.contains_key(keys[i]) && map[keys[i]] == values[i]);
    }
}

/// A registration is held under its key as it is, uses up a ticket, and leaves
/// every other as it was; so do withdrawing and answering one.
pub proof fn law_other_registrations_are_untouched<K, P, T>(
    state: SlotsView<K, P, T>,
    key: K,
    pending: Pending<P, T>,
    ticket: u64,
)
    ensures
        state.register(key, pending).slots.contains_key(key),
        state.register(key, pending).slots[key] == pending,
        state.register(key, pending).last != state.last,
        state.register(key, pending).slots.remove(key) == state.slots.remove(key),
        state.withdraw(key, ticket).slots.remove(key) == state.slots.remove(key),
        state.take(key).slots == state.slots.remove(key),
        state.take(key).last == state.last,
        state.withdraw(key, ticket).last == state.last,
        state.drain().slots.dom().is_empty(),
        state.drain().last == state.last,
        state.withdraw(key, ticket).slots.contains_key(key) <==> state.slots.contains_key(key)
            && state.slots[key].ticket() != ticket,
{
    assert(state.register(key, pending).slots.remove(key) =~= state.slots.remove(key));
    assert(state.withdraw(key, ticket).slots.remove(key) =~= state.slots.remove(key));
}

} // verus!
