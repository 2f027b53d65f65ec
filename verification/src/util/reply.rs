//! One-shot replies: the sending and the receiving half of a oneshot channel.
use tokio::sync::oneshot;
use vstd::prelude::*;

verus! {

/// `tokio::sync::oneshot::Sender`, carried as an opaque value.
#[verifier::external_type_specification]
#[verifier::external_body]
#[verifier::reject_recursive_types(T)]
pub struct ExOneshotSender<T>(oneshot::Sender<T>);

/// `tokio::sync::oneshot::Receiver`, carried as an opaque value.
#[verifier::external_type_specification]
#[verifier::external_body]
#[verifier::reject_recursive_types(T)]
pub struct ExOneshotReceiver<T>(oneshot::Receiver<T>);

/// `tokio::sync::oneshot::error::RecvError`, which awaiting a receiver can give;
/// opaque.
#[verifier::external_type_specification]
#[verifier::external_body]
pub struct ExRecvError(oneshot::error::RecvError);

/// The half that answers. Consumed by the one answer it can give.
#[verifier::reject_recursive_types(T)]
pub struct Replier<T> {
    tx: oneshot::Sender<T>,
    channel: Ghost<int>,
}

/// The half that waits for the answer.
#[verifier::reject_recursive_types(T)]
pub struct Reply<T> {
    rx: oneshot::Receiver<T>,
    channel: Ghost<int>,
}

impl<T> Replier<T> {
    /// Which channel this half belongs to.
    pub closed spec fn channel(self) -> int {
        self.channel@
    }
}

impl<T> Reply<T> {
    /// Which channel this half belongs to.
    pub closed spec fn channel(self) -> int {
        self.channel@
    }

    /// The tokio receiver that the answer arrives on.
    pub closed spec fn receiver(self) -> oneshot::Receiver<T> {
        self.rx
    }

    /// Hand out the tokio receiver, to await the answer on.
    pub fn into_receiver(self) -> (rx: oneshot::Receiver<T>)
        ensures
            rx == self.receiver(),
    {
        self.rx
    }
}

/// `tokio::sync::oneshot::channel`: two halves of one new channel, so that
/// what the first sends is what the second receives.
#[verifier::external_body]
pub(crate) fn reply_channel<T>() -> (halves: (Replier<T>, Reply<T>))
    ensures
        halves.0.channel() == halves.1.channel(),
{
    let (tx, rx) = oneshot::channel();
    (Replier { tx, channel: Ghost(arbitrary()) }, Reply { rx, channel: Ghost(arbitrary()) })
}

/// The two halves of a new channel.
pub fn channel<T>() -> (halves: (Replier<T>, Reply<T>))
    ensures
        halves.0.channel() == halves.1.channel(),
{
    reply_channel()
}

/// An answer that was given: to whom, and whether someone still waited for it.
#[verifier::reject_recursive_types(T)]
pub struct Sent<T> {
    /// The half that gave it.
    pub to: Replier<T>,
    /// What it gave.
    pub value: T,
    /// The other half took it over; `false` where nobody waited any more.
    pub delivered: bool,
}

/// `after` is `before` and one more answer: `value`, to `to`.
pub open spec fn adds_answer<T>(
    before: Seq<Sent<T>>,
    after: Seq<Sent<T>>,
    to: Replier<T>,
    value: T,
) -> bool {
    after == before.push(Sent { to, value, delivered: after.last().delivered })
}

/// `after` is `before` and one more answer to each of `to`, in order.
pub open spec fn adds_signals(
    before: Seq<Sent<()>>,
    after: Seq<Sent<()>>,
    to: Seq<Replier<()>>,
) -> bool {
    &&& after.len() == before.len() + to.len()
    &&& after.take(before.len() as int) == before
    &&& forall|i: int|
        0 <= i < to.len() ==> (#[trigger] after[before.len() + i]).to == to[i]
}

/// A record, for contracts only, of the answers that were given.
#[verifier::reject_recursive_types(T)]
pub struct SentLog<T> {
    sent: Ghost<Seq<Sent<T>>>,
}

impl<T> View for SentLog<T> {
    type V = Seq<Sent<T>>;

    closed spec fn view(&self) -> Seq<Sent<T>> {
        self.sent@
    }
}

impl<T> SentLog<T> {
    /// Nothing was sent.
    pub fn new() -> (log: Self)
        ensures
            log@ == Seq::<Sent<T>>::empty(),
        opens_invariants none
        no_unwind
    {
        SentLog { sent: Ghost(Seq::empty()) }
    }
}

/// `tokio::sync::oneshot::Sender::send`: hands `value` to the receiving half,
/// or gives it back where nobody waits there any more. Which of the two happens
/// is not known beforehand; `log` records what was handed to whom, and whether
/// it was taken.
#[verifier::external_body]
fn send_reply<T>(replier: Replier<T>, value: T, log: &mut SentLog<T>) -> (outcome: Result<(), T>)
    ensures
        final(log)@ == old(log)@.push(Sent { to: replier, value, delivered: outcome is Ok }),
        outcome matches Err(returned) ==> returned == value,
    opens_invariants none
    no_unwind
{
    replier.tx.send(value)
}

impl<T> Replier<T> {
    /// Answer with `value`. `false` when nobody waits for the answer any more.
    pub fn send(self, value: T, log: &mut SentLog<T>) -> (delivered: bool)
        ensures
            final(log)@ == old(log)@.push(Sent { to: self, value, delivered }),
        opens_invariants none
        no_unwind
    {
        match send_reply(self, value, log) {
            Ok(_) => true,
            Err(_) => false,
        }
    }
}

/// What came of waiting for a reply.
pub enum Waited<T> {
    /// The reply came.
    Answered(T),
    /// The half that answers went away without answering.
    Dropped,
    /// The time allowed for the wait passed first.
    TimedOut,
}

/// An answer, and who it is for.
#[verifier::reject_recursive_types(T)]
pub struct Outgoing<T> {
    pub to: Replier<T>,
    pub value: T,
}

impl<T> Outgoing<T> {
    /// This answer, given.
    pub open spec fn sent(self, delivered: bool) -> Sent<T> {
        Sent { to: self.to, value: self.value, delivered }
    }

    /// Give the answer. `false` when nobody waits for it any more.
    pub fn send(self, log: &mut SentLog<T>) -> (delivered: bool)
        ensures
            final(log)@ == old(log)@.push(self.sent(delivered)),
        opens_invariants none
        no_unwind
    {
        self.to.send(self.value, log)
    }

    /// Give the answer: whether someone still waited for it, and the record of
    /// it.
    pub fn deliver(self) -> (given: (bool, SentLog<T>))
        ensures
            given.1@ == seq![self.sent(given.0)],
        opens_invariants none
        no_unwind
    {
        let mut log = SentLog::new();
        let delivered: bool = self.send(&mut log);
        assert(log@ =~= seq![self.sent(delivered)]);
        (delivered, log)
    }
}

/// One more answer is that answer behind all that were given before.
pub proof fn law_answers_are_only_added<T>(
    before: Seq<Sent<T>>,
    after: Seq<Sent<T>>,
    to: Replier<T>,
    value: T,
    out: Outgoing<T>,
    delivered: bool,
)
    requires
        adds_answer(before, after, to, value),
    ensures
        after.len() == before.len() + 1,
        after.drop_last() == before,
        after.last().to == to,
        after.last().value == value,
        out.sent(delivered).to == out.to,
        out.sent(delivered).value == out.value,
        out.sent(delivered).delivered == delivered,
{
    assert(after.drop_last() =~= before);
}

/// One more answer to each of some is one answer to each of them, in order,
/// behind all that were given before.
pub proof fn law_signals_are_only_added(
    before: Seq<Sent<()>>,
    after: Seq<Sent<()>>,
    to: Seq<Replier<()>>,
    i: int,
)
    requires
        adds_signals(before, after, to),
    ensures
        after.len() == before.len() + to.len(),
        0 <= i < before.len() ==> after[i] == before[i],
        0 <= i < to.len() ==> after[before.len() + i].to == to[i],
{
    if 0 <= i < before.len() {
        assert(after.take(before.len() as int)[i] == after[i]);
    }
}

} // verus!
