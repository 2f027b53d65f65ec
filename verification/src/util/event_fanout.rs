//! Fan-out from one event source to many subscribers, each with a bounded
//! queue of its own. Slow subscribers are dropped without affecting others.
use crate::util::outlet::{event_channel, offer, Inlet, Offer, Outlet};
use vstd::prelude::*;

verus! {

/// Where `keep` keeps something, in order.
pub open spec fn kept_places(keep: Seq<bool>) -> Seq<int>
    decreases keep.len(),
{
    if keep.len() == 0 {
        Seq::empty()
    } else if keep.last() {
        kept_places(keep.drop_last()).push(keep.len() - 1)
    } else {
        kept_places(keep.drop_last())
    }
}

/// The elements of `items` that `keep` keeps, in order.
pub open spec fn kept<T>(items: Seq<T>, keep: Seq<bool>) -> Seq<T> {
    kept_places(keep).map_values(|i: int| items[i])
}

/// The opposite of each of `flags`.
pub open spec fn opposite(flags: Seq<bool>) -> Seq<bool> {
    flags.map_values(|flag: bool| !flag)
}

proof fn lemma_places(keep: Seq<bool>)
    ensures
        forall|k: int|
            0 <= k < kept_places(keep).len() ==> 0 <= #[trigger] kept_places(keep)[k] < keep.len()
                && keep[kept_places(keep)[k]],
    decreases keep.len(),
{
    if keep.len() > 0 {
        lemma_places(keep.drop_last());
        let earlier = kept_places(keep.drop_last());
        assert forall|k: int| 0 <= k < kept_places(keep).len() implies 0 <= #[trigger] kept_places(
            keep,
        )[k] < keep.len() && keep[kept_places(keep)[k]] by {
            if k < earlier.len() {
                assert(kept_places(keep)[k] == earlier[k]);
                assert(keep.drop_last()[earlier[k]] == keep[earlier[k]]);
            }
        }
    }
}

proof fn lemma_kept_step<T>(items: Seq<T>, keep: Seq<bool>, i: int)
    requires
        0 <= i < keep.len() == items.len(),
    ensures
        kept(items.take(i + 1), keep.take(i + 1)) == (if keep[i] {
            kept(items.take(i), keep.take(i)).push(items[i])
        } else {
            kept(items.take(i), keep.take(i))
        }),
{
    let places = kept_places(keep.take(i));
    assert(keep.take(i + 1).drop_last() =~= keep.take(i));
    lemma_places(keep.take(i));
    let next = kept(items.take(i + 1), keep.take(i + 1));
    let so_far = kept(items.take(i), keep.take(i));
    if keep[i] {
        assert(next =~= so_far.push(items[i]));
    } else {
        assert(next =~= so_far);
    }
}

/// Part `items`, in order, into those that are `chosen` and the others.
pub fn part<T>(items: Vec<T>, chosen: &Vec<bool>) -> (parts: (Vec<T>, Vec<T>))
    requires
        chosen@.len() == items@.len(),
    ensures
        parts.0@ == kept(items@, chosen@),
        parts.1@ == kept(items@, opposite(chosen@)),
{
    let ghost before = items@;
    let ghost others = opposite(chosen@);
    let mut all = items;
    let mut left: Vec<T> = Vec::new();
    let mut out: Vec<T> = Vec::new();
    let mut i: usize = 0;
    proof {
        assert(left@ =~= kept(before.take(0), chosen@.take(0)));
        assert(out@ =~= kept(before.take(0), others.take(0)));
    }
    while all.len() > 0
        invariant
            chosen@.len() == before.len(),
            others == opposite(chosen@),
            i + all@.len() == before.len(),
            all@ == before.skip(i as int),
            left@ == kept(before.take(i as int), chosen@.take(i as int)),
            out@ == kept(before.take(i as int), others.take(i as int)),
        decreases all.len(),
    {
        let item = all.remove(0);
        assert(i < chosen.len());
        proof {
            assert(item == before[i as int]);
            assert(all@ =~= before.skip(i + 1));
            lemma_kept_step(before, chosen@, i as int);
            lemma_kept_step(before, others, i as int);
        }
        if chosen[i] {
            left.push(item);
        } else {
            out.push(item);
        }
        i += 1;
    }
    proof {
        assert(before.take(i as int) =~= before);
        assert(chosen@.take(i as int) =~= chosen@);
        assert(others.take(i as int) =~= others);
    }
    (left, out)
}

/// Keep the elements of `items` that are `chosen`, in order.
pub fn keep_chosen<T>(items: Vec<T>, chosen: &Vec<bool>) -> (left: Vec<T>)
    requires
        chosen@.len() == items@.len(),
    ensures
        left@ == kept(items@, chosen@),
{
    part(items, chosen).0
}

/// `offered` are `subscribers`, each of which was offered a clone of `event`
/// once, and nothing else.
pub open spec fn offered_once<E: Clone>(
    subscribers: Seq<Outlet<E>>,
    offered: Seq<Outlet<E>>,
    event: E,
) -> bool {
    &&& offered.len() == subscribers.len()
    &&& forall|i: int|
        0 <= i < offered.len() ==> {
            let latest = (#[trigger] offered[i]).history().last();
            &&& offered[i].was_offered(subscribers[i], latest)
            &&& cloned::<E>(event, latest.event)
        }
}

/// Which of `offered` took the event that they were offered last.
pub open spec fn outcomes<E>(offered: Seq<Outlet<E>>) -> Seq<bool> {
    offered.map_values(|outlet: Outlet<E>| outlet.history().last().accepted)
}

/// Fan-out from a single event source to multiple per-subscriber bounded
/// channels. Its view is the sending halves, in the order in which they
/// subscribed.
#[verifier::reject_recursive_types(E)]
pub struct EventFanout<E> {
    subscribers: Vec<Outlet<E>>,
}

impl<E> View for EventFanout<E> {
    type V = Seq<Outlet<E>>;

    closed spec fn view(&self) -> Seq<Outlet<E>> {
        self.subscribers@
    }
}

impl<E: Clone> EventFanout<E> {
    /// Nobody is subscribed.
    #[must_use]
    pub fn new() -> (fanout: Self)
        ensures
            fanout@ == Seq::<Outlet<E>>::empty(),
    {
        EventFanout { subscribers: Vec::new() }
    }

    /// Add a subscriber whose queue holds `capacity` events, and return its
    /// receiving half.
    #[must_use]
    pub fn subscribe(&mut self, capacity: usize) -> (inlet: Inlet<E>)
        requires
            0 < capacity <= crate::util::outlet::max_capacity(),
        ensures
            final(self)@.len() == old(self)@.len() + 1,
            final(self)@.drop_last() == old(self)@,
            final(self)@.last().queue() == inlet.queue(),
            final(self)@.last().capacity() == capacity,
            final(self)@.last().history() == Seq::<Offer<E>>::empty(),
    {
        let (tx, rx) = event_channel(capacity);
        self.subscribers.push(tx);
        assert(self@.drop_last() =~= old(self)@);
        rx
    }

    /// Keep the subscribers that accepted an event, and take out the others.
    pub fn retain(&mut self, accepted: &Vec<bool>) -> (dropped: Vec<Outlet<E>>)
        requires
            accepted@.len() == old(self)@.len(),
        ensures
            final(self)@ == kept(old(self)@, accepted@),
            dropped@ == kept(old(self)@, opposite(accepted@)),
    {
        let mut all: Vec<Outlet<E>> = Vec::new();
        std::mem::swap(&mut all, &mut self.subscribers);
        let (left, out) = part(all, accepted);
        self.subscribers = left;
        out
    }

    /// Broadcast `event` to all subscribers, in the order in which they
    /// subscribed: each is offered it once. Those that are full or closed are
    /// removed, and returned; the others stay.
    pub fn send(&mut self, event: E) -> (dropped: Vec<Outlet<E>>)
        ensures
            exists|offered: Seq<Outlet<E>>|
                {
                    &&& #[trigger] offered_once(old(self)@, offered, event)
                    &&& final(self)@ == kept(offered, outcomes(offered))
                    &&& dropped@ == kept(offered, opposite(outcomes(offered)))
                },
    {
        let mut accepted: Vec<bool> = Vec::new();
        let mut i: usize = 0;
        while i < self.subscribers.len()
            invariant
                i <= self.subscribers@.len(),
                self.subscribers@.len() == old(self)@.len(),
                accepted@.len() == i,
                forall|j: int|
                    i <= j < self.subscribers@.len() ==> #[trigger] self.subscribers@[j] == old(
                        self,
                    )@[j],
                forall|j: int|
                    0 <= j < i ==> {
                        let latest = (#[trigger] self.subscribers@[j]).history().last();
                        &&& self.subscribers@[j].was_offered(old(self)@[j], latest)
                        &&& cloned::<E>(event, latest.event)
                        &&& latest.accepted == accepted@[j]
                    },
            decreases self.subscribers@.len() - i,
        {
            let taken: bool = offer(&mut self.subscribers[i], event.clone());
            accepted.push(taken);
            i += 1;
        }
        let ghost offered = self@;
        assert(offered_once(old(self)@, offered, event));
        assert(outcomes(offered) =~= accepted@);
        assert(opposite(outcomes(offered)) == opposite(accepted@));
        self.retain(&accepted)
    }
}

/// What stays are the subscribers that accepted the event, each in its place of
/// the order and each once, whatever the others did: a slow one is dropped
/// without affecting them.
pub proof fn law_slow_subscribers_do_not_affect_others<T>(
    subscribers: Seq<T>,
    accepted: Seq<bool>,
)
    requires
        accepted.len() == subscribers.len(),
    ensures
        kept(subscribers, accepted).len() == kept_places(accepted).len(),
        forall|k: int|
            0 <= k < kept_places(accepted).len() ==> kept(subscribers, accepted)[k]
                == subscribers[#[trigger] kept_places(accepted)[k]],
        forall|k: int, l: int|
            0 <= k < l < kept_places(accepted).len() ==> #[trigger] kept_places(accepted)[k]
                < #[trigger] kept_places(accepted)[l],
        forall|i: int|
            0 <= i < accepted.len() ==> (#[trigger] accepted[i] <==> kept_places(
                accepted,
            ).contains(i)),
    decreases accepted.len(),
{
    lemma_places(accepted);
    if accepted.len() > 0 {
        let earlier = accepted.drop_last();
        let before = kept_places(earlier);
        let places = kept_places(accepted);
        law_slow_subscribers_do_not_affect_others(subscribers.drop_last(), earlier);
        lemma_places(earlier);
        assert forall|k: int, l: int| 0 <= k < l < places.len() implies #[trigger] places[k]
            < #[trigger] places[l] by {
            if l < before.len() {
                assert(before[k] < before[l]);
            } else {
                assert(places[k] == before[k]);
            }
        }
        assert forall|i: int| 0 <= i < accepted.len() implies (#[trigger] accepted[i]
            <==> places.contains(i)) by {
            if i < earlier.len() {
                assert(earlier[i] == accepted[i]);
                if before.contains(i) {
                    let k = choose|k: int| 0 <= k < before.len() && before[k] == i;
                    assert(places[k] == i);
                }
                if places.contains(i) {
                    let k = choose|k: int| 0 <= k < places.len() && places[k] == i;
                    assert(k < before.len());
                    assert(before[k] == i);
                }
            } else if accepted[i] {
                assert(places[before.len() as int] == i);
            } else if places.contains(i) {
                let k = choose|k: int| 0 <= k < places.len() && places[k] == i;
                assert(before[k] == i);
            }
        }
    }
}

/// After two events, the subscribers that were offered the second are exactly
/// those that took the first, each offered both, in order, and nothing between
/// them; one that refused the first was taken out with the first as the last
/// that it was ever offered.
pub proof fn law_dropped_subscribers_hear_nothing_more<E: Clone>(
    subscribers: Seq<Outlet<E>>,
    first: Seq<Outlet<E>>,
    event: E,
    second: Seq<Outlet<E>>,
    later: E,
)
    requires
        offered_once(subscribers, first, event),
        offered_once(kept(first, outcomes(first)), second, later),
    ensures
        ({
            let places = kept_places(outcomes(first));
            let out = kept_places(opposite(outcomes(first)));
            let dropped = kept(first, opposite(outcomes(first)));
            &&& second.len() == places.len()
            &&& forall|i: int|
                0 <= i < first.len() ==> (places.contains(i) <==> (
                #[trigger] first[i]).history().last().accepted)
            &&& forall|k: int|
                0 <= k < second.len() ==> {
                    let history = (#[trigger] second[k]).history();
                    let before = subscribers[places[k]].history();
                    &&& history.len() == before.len() + 2
                    &&& history.take(before.len() as int) == before
                    &&& cloned::<E>(event, history[before.len() as int].event)
                    &&& history[before.len() as int].accepted
                    &&& cloned::<E>(later, history.last().event)
                }
            &&& dropped.len() == out.len()
            &&& forall|k: int|
                0 <= k < dropped.len() ==> {
                    let history = (#[trigger] dropped[k]).history();
                    &&& history.drop_last() == subscribers[out[k]].history()
                    &&& !history.last().accepted
                }
        }),
{
    let took = outcomes(first);
    let places = kept_places(took);
    let out = kept_places(opposite(took));
    let dropped = kept(first, opposite(took));
    law_slow_subscribers_do_not_affect_others(first, took);
    lemma_places(took);
    lemma_places(opposite(took));
    assert forall|i: int| 0 <= i < first.len() implies (places.contains(i) <==> (
    #[trigger] first[i]).history().last().accepted) by {
        assert(took[i] == first[i].history().last().accepted);
    }
    assert forall|k: int| 0 <= k < second.len() implies {
        let history = (#[trigger] second[k]).history();
        let before = subscribers[places[k]].history();
        &&& history.len() == before.len() + 2
        &&& history.take(before.len() as int) == before
        &&& cloned::<E>(event, history[before.len() as int].event)
        &&& history[before.len() as int].accepted
        &&& cloned::<E>(later, history.last().event)
    } by {
        let at = places[k];
        let before = subscribers[at].history();
        assert(took[at]);
        assert(kept(first, took)[k] == first[at]);
        assert(first[at].was_offered(subscribers[at], first[at].history().last()));
        assert(second[k].was_offered(first[at], second[k].history().last()));
        assert(second[k].history().take(before.len() as int) =~= before);
    }
    assert forall|k: int| 0 <= k < dropped.len() implies {
        let history = (#[trigger] dropped[k]).history();
        &&& history.drop_last() == subscribers[out[k]].history()
        &&& !history.last().accepted
    } by {
        let at = out[k];
        assert(opposite(took)[at]);
        assert(dropped[k] == first[at]);
        assert(first[at].was_offered(subscribers[at], first[at].history().last()));
        assert(first[at].history().drop_last() =~= subscribers[at].history());
    }
}

/// What is taken out is what is not kept: every subscriber is in exactly one of
/// the two.
pub proof fn law_every_subscriber_stays_or_goes(accepted: Seq<bool>, i: int)
    requires
        0 <= i < accepted.len(),
    ensures
        kept_places(accepted).contains(i) <==> !kept_places(opposite(accepted)).contains(i),
        kept_places(accepted).contains(i) <==> accepted[i],
{
    law_slow_subscribers_do_not_affect_others(accepted, accepted);
    law_slow_subscribers_do_not_affect_others(accepted, opposite(accepted));
    assert(opposite(accepted)[i] == !accepted[i]);
}

} // verus!
