//! One subscriber's bounded queue of events.
use tokio::sync::mpsc;
use vstd::prelude::*;

verus! {

/// `tokio::sync::mpsc::Sender`, carried as an opaque value.
#[verifier::external_type_specification]
#[verifier::external_body]
#[verifier::reject_recursive_types(T)]
pub struct ExMpscSender<T>(mpsc::Sender<T>);

/// `tokio::sync::mpsc::Receiver`, carried as an opaque value.
#[verifier::external_type_specification]
#[verifier::external_body]
#[verifier::reject_recursive_types(T)]
pub struct ExMpscReceiver<T>(mpsc::Receiver<T>);

/// An event that was offered to a queue.
#[verifier::reject_recursive_types(E)]
pub struct Offer<E> {
    /// What was offered.
    pub event: E,
    /// The event is in the queue; `false` where the queue was full, or nobody
    /// received from it any more.
    pub accepted: bool,
}

/// The sending half of a subscriber's queue. What it was ever offered is part
/// of what contracts say of it.
#[verifier::reject_recursive_types(E)]
pub struct Outlet<E> {
    tx: mpsc::Sender<E>,
    capacity: Ghost<usize>,
    queue: Ghost<int>,
    history: Ghost<Seq<Offer<E>>>,
}

/// The receiving half of a subscriber's queue.
#[verifier::reject_recursive_types(E)]
pub struct Inlet<E> {
    rx: mpsc::Receiver<E>,
    queue: Ghost<int>,
}

impl<E> Outlet<E> {
    /// How many events the queue holds at most.
    pub closed spec fn capacity(self) -> usize {
        self.capacity@
    }

    /// Which queue this half belongs to.
    pub closed spec fn queue(self) -> int {
        self.queue@
    }

    /// The tokio sender that the events go to.
    pub closed spec fn sender(self) -> mpsc::Sender<E> {
        self.tx
    }

    /// Every event that was offered to the queue, in order.
    pub closed spec fn history(self) -> Seq<Offer<E>> {
        self.history@
    }

    /// This is `before`, which was offered `offer` and nothing else since.
    pub open spec fn was_offered(self, before: Self, offer: Offer<E>) -> bool {
        &&& self.sender() == before.sender()
        &&& self.queue() == before.queue()
        &&& self.capacity() == before.capacity()
        &&& self.history() == before.history().push(offer)
    }
}

impl<E> Inlet<E> {
    /// Which queue this half belongs to.
    pub closed spec fn queue(self) -> int {
        self.queue@
    }

    /// The tokio receiver that the events arrive on.
    pub closed spec fn receiver(self) -> mpsc::Receiver<E> {
        self.rx
    }

    /// Hand out the tokio receiver, to await events on.
    pub fn into_receiver(self) -> (rx: mpsc::Receiver<E>)
        ensures
            rx == self.receiver(),
    {
        self.rx
    }
}

/// The most events that a queue can be made to hold.
pub open spec fn max_capacity() -> int {
    usize::MAX as int / 8
}

/// `tokio::sync::mpsc::channel`: the two halves of a new queue for `capacity`
/// events. It panics for a capacity of zero, and for more than a semaphore
/// can count.
#[verifier::external_body]
pub(crate) fn event_channel<E>(capacity: usize) -> (halves: (Outlet<E>, Inlet<E>))
    requires
        0 < capacity <= max_capacity(),
    ensures
        halves.0.queue() == halves.1.queue(),
        halves.0.capacity() == capacity,
        halves.0.history() == Seq::<Offer<E>>::empty(),
{
    let (tx, rx) = mpsc::channel(capacity);
    (
        Outlet {
            tx,
            capacity: Ghost(capacity),
            queue: Ghost(arbitrary()),
            history: Ghost(Seq::empty()),
        },
        Inlet { rx, queue: Ghost(arbitrary()) },
    )
}

/// `tokio::sync::mpsc::Sender::try_send`: puts the event into the queue. It
/// fails where the queue is full or nobody receives any more, which is not
/// known beforehand. The outlet's history records what was offered, and whether
/// it was taken.
#[verifier::external_body]
pub(crate) fn offer<E>(outlet: &mut Outlet<E>, event: E) -> (accepted: bool)
    ensures
        final(outlet).was_offered(*old(outlet), Offer { event, accepted }),
{
    outlet.tx.try_send(event).is_ok()
}

/// An offer is added behind all that a queue was offered before, to the same
/// queue.
pub proof fn law_offers_are_only_added<E>(before: Outlet<E>, after: Outlet<E>, offer: Offer<E>)
    requires
        after.was_offered(before, offer),
    ensures
        after.queue() == before.queue(),
        after.capacity() == before.capacity(),
        after.sender() == before.sender(),
        after.history().len() == before.history().len() + 1,
        after.history().drop_last() == before.history(),
        after.history().last() == offer,
{
    assert(after.history().drop_last() =~= before.history());
}

} // verus!
