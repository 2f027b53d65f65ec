//! Waiters for Android GATT results, one slot per operation key.
//!
//! Kotlin reports a read or write by device, generation and characteristic
//! only, so two operations in flight under one key can't be told apart: the
//! first one's result would complete the second. A slot is therefore held
//! from the moment an operation is dispatched until Kotlin reports it, whether
//! or not its caller is still waiting, and a second operation under the same
//! key waits for the slot rather than replacing it. Kotlin reports every
//! operation it accepted exactly once, and a disconnect frees the attempt's
//! slots through [`OpSlots::release_where`], so a wait always ends.
//!
//! That last part holds only if a slot can't be registered for an attempt
//! that has already been retired: its retirement would have missed the slot,
//! and its result would be dropped as stale. So the liveness check and
//! [`OpSlots::try_claim`] are both left to the caller, which does them under
//! the lock that retirement takes.
use crate::util::key_map::KeyMap;
use crate::util::reply::{reply_channel, Outgoing, Replier, Reply, Sent, SentLog};
use std::sync::Arc;
use tokio::sync::Notify;
use vstd::prelude::*;

verus! {

/// `tokio::sync::Notify`, carried as an opaque value.
#[verifier::external_type_specification]
#[verifier::external_body]
pub struct ExNotify(Notify);

/// `tokio::sync::Notify::new`: nobody waits on it yet.
#[verifier::external_body]
fn new_notify() -> Notify {
    Notify::new()
}

/// A record, for contracts only, of which waits were ended.
pub struct WakeLog {
    wakes: Ghost<Seq<Notify>>,
}

impl View for WakeLog {
    type V = Seq<Notify>;

    closed spec fn view(&self) -> Seq<Notify> {
        self.wakes@
    }
}

/// `tokio::sync::Notify::notify_waiters`: wakes all who wait on it now; who
/// they are is not known. `log` records the wake.
#[verifier::external_body]
fn wake_waiters(notify: &Notify, log: &mut WakeLog)
    ensures
        final(log)@ == old(log)@.push(*notify),
{
    notify.notify_waiters()
}

/// One slot per operation key. Its view is who holds each key.
#[verifier::reject_recursive_types(T)]
pub struct OpSlots<T> {
    slots: KeyMap<String, Replier<T>>,
    released: Arc<Notify>,
    told: SentLog<T>,
    woken: WakeLog,
}

impl<T> View for OpSlots<T> {
    type V = Map<Seq<char>, Replier<T>>;

    closed spec fn view(&self) -> Map<Seq<char>, Replier<T>> {
        self.slots@
    }
}

impl<T> Default for OpSlots<T> {
    fn default() -> (slots: Self)
        ensures
            slots@ == Map::<Seq<char>, Replier<T>>::empty(),
            slots.told() == Seq::<Sent<T>>::empty(),
            slots.woken() == Seq::<Notify>::empty(),
    {
        OpSlots {
            slots: KeyMap::new(),
            released: Arc::new(new_notify()),
            told: SentLog::new(),
            woken: WakeLog { wakes: Ghost(Seq::empty()) },
        }
    }
}

/// `matches` may answer `answer` for `key`.
pub open spec fn answers<F: Fn(&str) -> bool>(matches: F, key: Seq<char>, answer: bool) -> bool {
    exists|k: &str| k@ == key && #[trigger] matches.ensures((k,), answer)
}

impl<T> OpSlots<T> {
    /// What is notified whenever a slot is freed.
    pub closed spec fn wakes(self) -> Notify {
        *self.released
    }

    /// The results that were handed over, in order.
    pub closed spec fn told(self) -> Seq<Sent<T>> {
        self.told@
    }

    /// Each time that those who wait for a slot were woken.
    pub closed spec fn woken(self) -> Seq<Notify> {
        self.woken@
    }

    /// Those who wait for a slot have been woken once since `before`.
    pub open spec fn woke_since(self, before: Self) -> bool {
        self.wakes() == before.wakes() && self.woken() == before.woken().push(before.wakes())
    }

    /// What is notified whenever a slot is freed, to wait on before trying a
    /// claim again.
    pub fn released(&self) -> (released: Arc<Notify>)
        ensures
            *released == self.wakes(),
    {
        self.released.clone()
    }

    /// Hold `key` if it is free.
    pub fn try_claim(&mut self, key: String) -> (claimed: Option<(String, Reply<T>)>)
        ensures
            final(self).told() == old(self).told(),
            final(self).wakes() == old(self).wakes(),
            final(self).woken() == old(self).woken(),
            claimed is Some <==> !old(self)@.contains_key(key@),
            match claimed {
                None => final(self)@ == old(self)@,
                Some((held, reply)) => {
                    &&& held == key
                    &&& final(self)@ == old(self)@.insert(key@, final(self)@[key@])
                    &&& final(self)@[key@].channel() == reply.channel()
                },
            },
    {
        if self.slots.contains_key(key.as_str()) {
            return None;
        }
        let (tx, rx) = reply_channel();
        self.slots.insert(key.clone(), tx);
        Some((key, rx))
    }

    /// Free the slot of `key`, for the operation whose result is `value`: what
    /// is to be delivered, if the slot was held.
    pub fn take_completed(&mut self, key: &str, value: T) -> (delivery: Option<Outgoing<T>>)
        ensures
            final(self)@ == old(self)@.remove(key@),
            final(self).told() == old(self).told(),
            final(self).wakes() == old(self).wakes(),
            final(self).woken() == old(self).woken(),
            delivery == (if old(self)@.contains_key(key@) {
                Some(Outgoing { to: old(self)@[key@], value })
            } else {
                None
            }),
    {
        match self.slots.remove(key) {
            Some(tx) => Some(Outgoing { to: tx, value }),
            None => None,
        }
    }

    /// Deliver the result for `key`, free its slot and wake those who wait for
    /// one. `false` when no slot was held, or its caller had stopped waiting.
    pub fn complete(&mut self, key: &str, value: T) -> (delivered: bool)
        ensures
            final(self)@ == old(self)@.remove(key@),
            final(self).woke_since(*old(self)),
            if old(self)@.contains_key(key@) {
                final(self).told() == old(self).told().push(
                    Sent { to: old(self)@[key@], value, delivered },
                )
            } else {
                final(self).told() == old(self).told() && !delivered
            },
    {
        let delivery = self.take_completed(key, value);
        wake_waiters(&self.released, &mut self.woken);
        match delivery {
            Some(delivery) => delivery.send(&mut self.told),
            None => false,
        }
    }

    /// Free `key` without a result, for an operation that was never
    /// dispatched, and wake those who wait for a slot.
    pub fn release(&mut self, key: &str)
        ensures
            final(self)@ == old(self)@.remove(key@),
            final(self).told() == old(self).told(),
            final(self).woke_since(*old(self)),
    {
        self.slots.remove(key);
        wake_waiters(&self.released, &mut self.woken);
    }

    /// Free every slot whose key matches; their callers see the channel close.
    /// Those who wait for a slot are woken.
    pub fn release_where<F: Fn(&str) -> bool>(&mut self, matches: F)
        requires
            forall|k: &str| #[trigger] matches.requires((k,)),
        ensures
            final(self).told() == old(self).told(),
            final(self).woke_since(*old(self)),
            forall|k: Seq<char>| #[trigger]
                final(self)@.contains_key(k) ==> old(self)@.contains_key(k) && final(self)@[k]
                    == old(self)@[k] && answers(matches, k, false),
            forall|k: Seq<char>| #[trigger]
                old(self)@.contains_key(k) && !final(self)@.contains_key(k) ==> answers(
                    matches,
                    k,
                    true,
                ),
    {
        let mut entries = self.slots.drain();
        let ghost all = entries@;
        let ghost before = old(self)@;
        let ghost mut done: int = 0;
        while entries.len() > 0
            invariant
                self.wakes() == old(self).wakes(),
                self.told() == old(self).told(),
                self.woken() == old(self).woken(),
                forall|k: &str| #[trigger] matches.requires((k,)),
                crate::util::key_map::lists(all, before),
                0 <= done <= all.len(),
                entries@ == all.skip(done),
                forall|k: Seq<char>| #[trigger]
                    self@.contains_key(k) ==> before.contains_key(k) && self@[k] == before[k]
                        && answers(matches, k, false),
                forall|i: int|
                    0 <= i < done ==> self@.contains_key((#[trigger] all[i]).0@) || answers(
                        matches,
                        all[i].0@,
                        true,
                    ),
            decreases entries.len(),
        {
            let (key, tx) = entries.remove(0);
            assert((key, tx) == all[done]);
            let ghost held = self@;
            let free: bool = matches(key.as_str());
            assert(answers(matches, key@, free));
            if !free {
                self.slots.insert(key, tx);
            }
            proof {
                assert forall|i: int| 0 <= i < done + 1 implies self@.contains_key(
                    (#[trigger] all[i]).0@,
                ) || answers(matches, all[i].0@, true) by {
                    if i < done {
                        assert(held.contains_key(all[i].0@) || answers(matches, all[i].0@, true));
                    }
                }
                done = done + 1;
                assert(entries@ =~= all.skip(done));
            }
        }
        proof {
            assert forall|k: Seq<char>| #[trigger]
                before.contains_key(k) && !self@.contains_key(k) implies answers(
                matches,
                k,
                true,
            ) by {
                let i = choose|i: int| 0 <= i < all.len() && (#[trigger] all[i]).0@ == k;
                assert(done == all.len());
                assert(self@.contains_key(all[i].0@) || answers(matches, all[i].0@, true));
            }
        }
        let ghost left = self@;
        wake_waiters(&self.released, &mut self.woken);
        assert(self@ == left);
    }
}

/// An operation holds its key until its own result, its own release, or the
/// disconnect of its attempt: other keys do not touch it, and a second
/// operation under the key is refused meanwhile. The key is free afterwards, and
/// what is reported under it then is for its new holder.
pub proof fn law_slot_held_until_reported<T>(
    slots: Map<Seq<char>, Replier<T>>,
    key: Seq<char>,
    other: Seq<char>,
    tx: Replier<T>,
)
    requires
        slots.contains_key(key),
        other != key,
    ensures
        slots.remove(other).contains_key(key),
        slots.remove(other)[key] == slots[key],
        slots.insert(other, tx).contains_key(key),
        slots.insert(other, tx)[key] == slots[key],
        !slots.remove(key).contains_key(key),
        slots.remove(key).insert(key, tx)[key] == tx,
{
}

/// Waking those who wait for a slot is one more wake of the same wait, behind
/// all that came before.
pub proof fn law_wakes_are_only_added<T>(before: OpSlots<T>, after: OpSlots<T>)
    requires
        after.woke_since(before),
    ensures
        after.wakes() == before.wakes(),
        after.woken().len() == before.woken().len() + 1,
        after.woken().drop_last() == before.woken(),
        after.woken().last() == before.wakes(),
{
    assert(after.woken().drop_last() =~= before.woken());
}

} // verus!
