//! Single-flight advertising state.
//!
//! The transitions matter more than they look: the platform can only stop an
//! advertisement by handing back the exact callback it was started with, so a
//! second concurrent start would strand the first with nothing able to reach
//! it, and a start that completes after a stop would leave the slot claimed
//! while the radio is idle.
use crate::error::BlewResult;
use crate::util::reply::{reply_channel, Replier, Reply};
use vstd::prelude::*;

verus! {

/// What the advertiser is doing.
pub enum Advertising {
    Idle,
    /// A start is in flight, waiting on the stack's callback.
    Starting(i32, Replier<BlewResult<()>>),
    /// The stack confirmed advertising started.
    Active(i32),
}

impl Advertising {
    /// The request that owns the slot, if any.
    pub open spec fn owner(self) -> Option<i32> {
        match self {
            Advertising::Idle => None,
            Advertising::Starting(id, _) => Some(id),
            Advertising::Active(id) => Some(id),
        }
    }

    /// The request that owns the slot, if any.
    pub fn request_id(&self) -> (id: Option<i32>)
        ensures
            id == self.owner(),
    {
        match self {
            Advertising::Idle => None,
            Advertising::Starting(id, _) => Some(*id),
            Advertising::Active(id) => Some(*id),
        }
    }
}

impl Default for Advertising {
    fn default() -> (state: Self)
        ensures
            state is Idle,
    {
        Advertising::Idle
    }
}

/// The mathematical value of an [`AdvertiseState`].
pub struct AdvertiseView {
    /// The request id given out last.
    pub last: i32,
    /// What the advertiser is doing.
    pub current: Advertising,
}

/// The request id after `id`: one more, wrapping.
pub open spec fn next_id(id: i32) -> i32 {
    if id == i32::MAX {
        i32::MIN
    } else {
        (id + 1) as i32
    }
}

/// The id that is given out `n` requests after `id`.
pub open spec fn ids_after(id: i32, n: nat) -> i32
    decreases n,
{
    if n == 0 {
        id
    } else {
        next_id(ids_after(id, (n - 1) as nat))
    }
}

impl AdvertiseView {
    /// A start has claimed the free slot, to be reported to `waiter`.
    pub open spec fn register(self, waiter: Replier<BlewResult<()>>) -> Self {
        AdvertiseView {
            last: next_id(self.last),
            current: Advertising::Starting(next_id(self.last), waiter),
        }
    }

    /// The start `request_id` is in flight.
    pub open spec fn starting(self, request_id: i32) -> bool {
        self.current is Starting && self.current.owner() == Some(request_id)
    }

    /// The stack has given its verdict on `request_id`.
    pub open spec fn complete(self, request_id: i32, started: bool) -> Self {
        if self.starting(request_id) {
            AdvertiseView {
                current: if started {
                    Advertising::Active(request_id)
                } else {
                    Advertising::Idle
                },
                ..self
            }
        } else {
            self
        }
    }

    /// `request_id` gives the slot back, if it owns it.
    pub open spec fn release(self, request_id: i32) -> Self {
        if self.current.owner() == Some(request_id) {
            self.take()
        } else {
            self
        }
    }

    /// The slot is free, whoever owned it.
    pub open spec fn take(self) -> Self {
        AdvertiseView { current: Advertising::Idle, ..self }
    }
}

/// One advertising slot, and who owns it.
pub struct AdvertiseState {
    next_id: i32,
    current: Advertising,
}

impl View for AdvertiseState {
    type V = AdvertiseView;

    closed spec fn view(&self) -> AdvertiseView {
        AdvertiseView { last: self.next_id, current: self.current }
    }
}

impl Default for AdvertiseState {
    fn default() -> (state: Self)
        ensures
            state@ == (AdvertiseView { last: 0, current: Advertising::Idle }),
    {
        AdvertiseState { next_id: 0, current: Advertising::Idle }
    }
}

impl AdvertiseState {
    /// Claim the free slot for a start that is to be reported to `waiter`.
    pub fn register_for(&mut self, waiter: Replier<BlewResult<()>>) -> (id: i32)
        requires
            old(self)@.current is Idle,
        ensures
            final(self)@ == old(self)@.register(waiter),
            id == final(self)@.last,
    {
        self.next_id = self.next_id.wrapping_add(1);
        let id: i32 = self.next_id;
        self.current = Advertising::Starting(id, waiter);
        id
    }

    /// Whether a start is in flight or the advertising active.
    pub fn is_taken(&self) -> (taken: bool)
        ensures
            taken == !(self@.current is Idle),
    {
        self.current.request_id().is_some()
    }

    /// Claim the slot. `None` when it is already taken.
    pub fn register(&mut self) -> (claimed: Option<(i32, Reply<BlewResult<()>>)>)
        ensures
            claimed is Some <==> old(self)@.current is Idle,
            match claimed {
                None => final(self)@ == old(self)@,
                Some((id, reply)) => {
                    &&& id == final(self)@.last
                    &&& final(self)@.current matches Advertising::Starting(_, waiter)
                    &&& waiter.channel() == reply.channel()
                    &&& final(self)@ == old(self)@.register(waiter)
                },
            },
    {
        match &self.current {
            Advertising::Idle => {
                let (tx, rx) = reply_channel();
                let id: i32 = self.register_for(tx);
                Some((id, rx))
            },
            _ => None,
        }
    }

    /// Apply the stack's verdict for `request_id`, returning its waiter.
    ///
    /// The `Starting` -> `Active` transition happens here rather than in the
    /// woken task, so a stop cannot slip between the wake-up and the
    /// transition and then be undone by the task that resumes.
    ///
    /// A verdict for a request that no longer owns the slot is dropped.
    pub fn complete(&mut self, request_id: i32, started: bool) -> (waiter: Option<
        Replier<BlewResult<()>>,
    >)
        ensures
            final(self)@ == old(self)@.complete(request_id, started),
            waiter == (match old(self)@.current {
                Advertising::Starting(id, tx) if id == request_id => Some(tx),
                _ => None,
            }),
    {
        let current = self.take();
        match current {
            Advertising::Starting(id, tx) => {
                if id == request_id {
                    self.current = if started {
                        Advertising::Active(id)
                    } else {
                        Advertising::Idle
                    };
                    Some(tx)
                } else {
                    self.current = Advertising::Starting(id, tx);
                    None
                }
            },
            other => {
                self.current = other;
                None
            },
        }
    }

    /// Return the slot to `Idle` if `request_id` still owns it.
    ///
    /// Applies in either state: a caller dropped after its start was confirmed
    /// still needs the advertisement torn down, because nobody received the
    /// `Ok`.
    pub fn release(&mut self, request_id: i32) -> (released: bool)
        ensures
            final(self)@ == old(self)@.release(request_id),
            released == (old(self)@.current.owner() == Some(request_id)),
    {
        match self.current.request_id() {
            Some(id) => {
                if id == request_id {
                    self.current = Advertising::Idle;
                    true
                } else {
                    false
                }
            },
            None => false,
        }
    }

    /// Take the slot whoever owns it, for an explicit stop. The displaced
    /// value lets the caller wake a start that was still in flight rather than
    /// leaving it on its deadline.
    pub fn take(&mut self) -> (displaced: Advertising)
        ensures
            final(self)@ == old(self)@.take(),
            displaced == old(self)@.current,
    {
        let mut displaced = Advertising::Idle;
        std::mem::swap(&mut displaced, &mut self.current);
        displaced
    }
}

/// A start holds the slot against every other start, in flight and confirmed,
/// until it fails, is released or is stopped.
pub proof fn law_one_start_at_a_time(
    state: AdvertiseView,
    waiter: Replier<BlewResult<()>>,
    started: bool,
)
    requires
        state.current is Idle,
    ensures
        ({
            let claimed = state.register(waiter);
            &&& !(claimed.current is Idle)
            &&& claimed.complete(claimed.last, started).current is Idle <==> !started
        }),
{
}

/// The verdict on, and the release of, a request that does not own the slot
/// change nothing.
pub proof fn law_stale_requests_change_nothing(
    state: AdvertiseView,
    request_id: i32,
    started: bool,
)
    requires
        state.current.owner() != Some(request_id),
    ensures
        state.complete(request_id, started) == state,
        state.release(request_id) == state,
{
}

/// A start that was stopped does not reclaim the slot, whatever its own
/// verdict and its own release do afterwards: the slot stays free.
pub proof fn law_stop_is_not_undone(
    state: AdvertiseView,
    request_id: i32,
    started: bool,
    again: bool,
)
    requires
        state.starting(request_id),
    ensures
        ({
            let confirmed = state.complete(request_id, started);
            let stopped = confirmed.take();
            &&& stopped.complete(request_id, again) == stopped
            &&& stopped.release(request_id) == stopped
            &&& stopped.current is Idle
            &&& state.take().complete(request_id, again) == state.take()
            &&& state.take().release(request_id) == state.take()
        }),
{
}

/// A confirmed start and one in flight are both released by their own request.
pub proof fn law_owner_releases_in_either_state(
    state: AdvertiseView,
    request_id: i32,
)
    requires
        state.starting(request_id),
    ensures
        state.release(request_id).current is Idle,
        state.complete(request_id, true).release(request_id).current is Idle,
{
}

proof fn lemma_ids(id: i32, n: nat)
    ensures
        ids_after(id, n) + 0x8000_0000 == (id + 0x8000_0000 + n) % 0x1_0000_0000,
    decreases n,
{
    if n > 0 {
        lemma_ids(id, (n - 1) as nat);
    }
}

/// No id comes back before all 2^32 - 1 others have been given out.
pub proof fn law_ids_are_fresh(id: i32, n: nat)
    requires
        0 < n < 0x1_0000_0000,
    ensures
        ids_after(id, n) != id,
{
    lemma_ids(id, n);
}

/// A start that claims the slot is reported to whoever asked, under an id of its
/// own; its confirmation makes that id the one that is active, and its failure
/// frees the slot. Only a claim uses up an id.
pub proof fn law_a_start_is_reported_under_its_id(
    state: AdvertiseView,
    waiter: Replier<BlewResult<()>>,
    request_id: i32,
    started: bool,
)
    ensures
        state.register(waiter).last != state.last,
        state.register(waiter).current == Advertising::Starting(
            state.register(waiter).last,
            waiter,
        ),
        state.complete(request_id, started).last == state.last,
        state.release(request_id).last == state.last,
        state.take().last == state.last,
        state.take().current is Idle,
        state.starting(request_id) && started ==> state.complete(request_id, started).current
            == Advertising::Active(request_id),
        state.starting(request_id) && !started ==> state.complete(
            request_id,
            started,
        ).current is Idle,
        state.current.owner() == Some(request_id) <==> state.release(request_id).current is Idle && !(
        state.current is Idle),
{
}

} // verus!
