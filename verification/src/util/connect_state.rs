//! Connection identity, retained through disconnect and cancellation.
//!
//! Every connect attempt gets a generation. A result that the platform reports
//! names the generation it belongs to, so that a stale one never reaches a
//! newer attempt to the same device.
use crate::central::types::DisconnectCause;
use crate::error::{BlewError, BlewResult};
use crate::types::DeviceId;
use crate::util::key_map::KeyMap;
use crate::util::reply::{reply_channel, Outgoing, Replier, Reply, Sent, SentLog};
use vstd::prelude::*;

verus! {

/// What happens to a [`ConnectionGuard`] before its end.
pub enum GuardCall {
    /// The attempt timed out.
    TimedOut,
    /// The attempt succeeded.
    Disarm,
}

/// The mathematical value of a [`ConnectionGuard`].
#[verifier::reject_recursive_types(F)]
#[verifier::ext_equal]
pub struct GuardView<F> {
    /// The cleanup that is still owed.
    pub cleanup: Option<F>,
    /// What the cleanup will be told.
    pub cause: DisconnectCause,
}

impl<F> GuardView<F> {
    /// A guard that owes `cleanup`.
    pub open spec fn new(cleanup: F) -> Self {
        GuardView { cleanup: Some(cleanup), cause: DisconnectCause::LocalClose }
    }

    /// The attempt succeeded: nothing is owed any more.
    pub open spec fn disarm(self) -> Self {
        GuardView { cleanup: None, ..self }
    }

    /// The attempt timed out, which is what the cleanup will be told.
    pub open spec fn timed_out(self) -> Self {
        GuardView { cause: DisconnectCause::Timeout, ..self }
    }

    /// The guard ended: what it owed has been done.
    pub open spec fn fire(self) -> Self {
        GuardView { cleanup: None, ..self }
    }

    /// `calls` have happened, in order.
    pub open spec fn after(self, calls: Seq<GuardCall>) -> Self
        decreases calls.len(),
    {
        if calls.len() == 0 {
            self
        } else {
            let earlier = self.after(calls.drop_last());
            match calls.last() {
                GuardCall::TimedOut => earlier.timed_out(),
                GuardCall::Disarm => earlier.disarm(),
            }
        }
    }
}

/// Cleanup owed to a connection attempt unless it succeeds. It runs once.
pub struct ConnectionGuard<F: FnOnce(DisconnectCause)> {
    cleanup: Option<F>,
    cause: DisconnectCause,
}

impl<F: FnOnce(DisconnectCause)> View for ConnectionGuard<F> {
    type V = GuardView<F>;

    closed spec fn view(&self) -> GuardView<F> {
        GuardView { cleanup: self.cleanup, cause: self.cause }
    }
}

impl<F: FnOnce(DisconnectCause)> ConnectionGuard<F> {
    /// Owe `cleanup`, for a local close.
    pub fn new(cleanup: F) -> (guard: Self)
        ensures
            guard@ == GuardView::new(cleanup),
    {
        ConnectionGuard { cleanup: Some(cleanup), cause: DisconnectCause::LocalClose }
    }

    /// The attempt succeeded: nothing is owed any more.
    pub fn disarm(&mut self)
        ensures
            final(self)@ == old(self)@.disarm(),
    {
        self.cleanup = None;
    }

    /// The attempt timed out, which is what the cleanup will be told.
    pub fn timed_out(&mut self)
        ensures
            final(self)@ == old(self)@.timed_out(),
    {
        self.cause = DisconnectCause::Timeout;
    }

    /// The guard ends: run the cleanup if it is still owed. `true` where it
    /// ran.
    pub fn fire(&mut self) -> (ran: bool)
        requires
            old(self)@.cleanup matches Some(f) ==> f.requires((old(self)@.cause,)),
        ensures
            ran == (old(self)@.cleanup is Some),
            ran ==> old(self)@.cleanup.unwrap().ensures((old(self)@.cause,), ()),
            final(self)@ == old(self)@.fire(),
    {
        match self.cleanup.take() {
            Some(cleanup) => {
                cleanup(self.cause);
                true
            },
            None => false,
        }
    }
}

/// Whatever timeouts and successes a guard is told of, in whatever order: the
/// cleanup is kept for its end exactly if no success was among them, is told of
/// a timeout exactly if one was, of a local close otherwise, and is owed no
/// more once the guard has ended.
pub proof fn law_cleanup_runs_once_unless_disarmed<F>(cleanup: F, calls: Seq<GuardCall>)
    ensures
        ({
            let guard = GuardView::new(cleanup).after(calls);
            &&& guard.cleanup == (if calls.contains(GuardCall::Disarm) {
                None
            } else {
                Some(cleanup)
            })
            &&& guard.cause == (if calls.contains(GuardCall::TimedOut) {
                DisconnectCause::Timeout
            } else {
                DisconnectCause::LocalClose
            })
            &&& guard.fire().cleanup is None
        }),
    decreases calls.len(),
{
    if calls.len() > 0 {
        let earlier = calls.drop_last();
        law_cleanup_runs_once_unless_disarmed(cleanup, earlier);
        assert(calls =~= earlier.push(calls.last()));
        assert forall|call: GuardCall| #[trigger] calls.contains(call) <==> earlier.contains(call)
            || calls.last() == call by {
            if earlier.contains(call) {
                let i = choose|i: int| 0 <= i < earlier.len() && earlier[i] == call;
                assert(calls[i] == call);
            }
            if calls.contains(call) && calls.last() != call {
                let i = choose|i: int| 0 <= i < calls.len() && calls[i] == call;
                assert(earlier[i] == call);
            }
            if calls.last() == call {
                assert(calls[calls.len() - 1] == call);
            }
        }
    }
}

/// One attempt to connect, from its start until its disconnect.
pub struct Attempt {
    generation: i32,
    waiter: Option<Replier<BlewResult<()>>>,
    disconnecting: bool,
    disconnects: Vec<Replier<()>>,
}

/// The mathematical value of an [`Attempt`].
pub struct AttemptView {
    /// Which attempt this is.
    pub generation: i32,
    /// Who waits for the connection.
    pub waiter: Option<Replier<BlewResult<()>>>,
    /// A disconnect was asked for.
    pub disconnecting: bool,
    /// Who waits for the disconnect.
    pub disconnects: Seq<Replier<()>>,
}

impl View for Attempt {
    type V = AttemptView;

    closed spec fn view(&self) -> AttemptView {
        AttemptView {
            generation: self.generation,
            waiter: self.waiter,
            disconnecting: self.disconnecting,
            disconnects: self.disconnects@,
        }
    }
}

/// The generation after `generation`: one more, wrapping, and never zero.
pub open spec fn next_generation(generation: i32) -> i32 {
    if generation == i32::MAX {
        i32::MIN
    } else if generation == -1 {
        1
    } else {
        (generation + 1) as i32
    }
}

/// `n` generations after `generation`.
pub open spec fn generations_after(generation: i32, n: nat) -> i32
    decreases n,
{
    if n == 0 {
        generation
    } else {
        next_generation(generations_after(generation, (n - 1) as nat))
    }
}

/// The mathematical value of [`ConnectAttempts`].
#[verifier::ext_equal]
pub struct AttemptsView {
    /// The generation given out last.
    pub last: i32,
    /// The live attempt of each device, by address.
    pub attempts: Map<Seq<char>, AttemptView>,
}

impl AttemptsView {
    /// A new attempt to `addr` is refused: one is still waiting for its
    /// connection, or being disconnected.
    pub open spec fn blocked(self, addr: Seq<char>) -> bool {
        self.attempts.contains_key(addr) && (self.attempts[addr].waiter is Some
            || self.attempts[addr].disconnecting)
    }

    /// `generation` is the live attempt to `addr`.
    pub open spec fn live(self, addr: Seq<char>, generation: i32) -> bool {
        self.attempts.contains_key(addr) && self.attempts[addr].generation == generation
    }

    /// The connection event of `generation` is wanted: its attempt is live,
    /// waits for it and is not being disconnected.
    pub open spec fn awaits(self, addr: Seq<char>, generation: i32) -> bool {
        &&& self.live(addr, generation)
        &&& !self.attempts[addr].disconnecting
        &&& self.attempts[addr].waiter is Some
    }

    /// A new attempt to `addr` has started, to be reported to `waiter`.
    pub open spec fn begin(self, addr: Seq<char>, waiter: Replier<BlewResult<()>>) -> Self {
        AttemptsView {
            last: next_generation(self.last),
            attempts: self.attempts.insert(
                addr,
                AttemptView {
                    generation: next_generation(self.last),
                    waiter: Some(waiter),
                    disconnecting: false,
                    disconnects: Seq::empty(),
                },
            ),
        }
    }

    /// The platform has reported the connection of `generation`.
    pub open spec fn connected(self, addr: Seq<char>, generation: i32) -> Self {
        if self.awaits(addr, generation) {
            AttemptsView {
                attempts: self.attempts.insert(
                    addr,
                    AttemptView { waiter: None, ..self.attempts[addr] },
                ),
                ..self
            }
        } else {
            self
        }
    }

    /// A disconnect of `addr` was asked for, to be reported to `waiter`.
    pub open spec fn disconnect(self, addr: Seq<char>, waiter: Replier<()>) -> Self {
        if self.attempts.contains_key(addr) {
            let attempt = self.attempts[addr];
            AttemptsView {
                attempts: self.attempts.insert(
                    addr,
                    AttemptView {
                        disconnecting: true,
                        disconnects: attempt.disconnects.push(waiter),
                        ..attempt
                    },
                ),
                ..self
            }
        } else {
            self
        }
    }

    /// The attempt `generation` to `addr` has ended.
    pub open spec fn retire(self, addr: Seq<char>, generation: i32) -> Self {
        if self.live(addr, generation) {
            AttemptsView { attempts: self.attempts.remove(addr), ..self }
        } else {
            self
        }
    }
}

/// The live attempt of each device.
pub struct ConnectAttempts {
    next_generation: i32,
    pending: KeyMap<String, Attempt>,
    told: SentLog<BlewResult<()>>,
    released: SentLog<()>,
}

impl View for ConnectAttempts {
    type V = AttemptsView;

    closed spec fn view(&self) -> AttemptsView {
        AttemptsView {
            last: self.next_generation,
            attempts: self.pending@.map_values(|a: Attempt| a@),
        }
    }
}

impl Default for ConnectAttempts {
    fn default() -> (state: Self)
        ensures
            state@ == (AttemptsView { last: 0, attempts: Map::empty() }),
            state.told() == Seq::<Sent<BlewResult<()>>>::empty(),
            state.released() == Seq::<Sent<()>>::empty(),
    {
        Self::starting_after(0)
    }
}

impl ConnectAttempts {
    /// What those who waited for a connection were told, in order.
    pub closed spec fn told(self) -> Seq<Sent<BlewResult<()>>> {
        self.told@
    }

    /// Those who waited for a disconnect and were told of it, in order.
    pub closed spec fn released(self) -> Seq<Sent<()>> {
        self.released@
    }

    /// Nobody has been told anything since `before`.
    pub open spec fn silent_since(self, before: Self) -> bool {
        self.told() == before.told() && self.released() == before.released()
    }

    /// No attempt, the next generation following `generation`.
    pub fn starting_after(generation: i32) -> (state: Self)
        ensures
            state@ == (AttemptsView { last: generation, attempts: Map::empty() }),
            state.told() == Seq::<Sent<BlewResult<()>>>::empty(),
            state.released() == Seq::<Sent<()>>::empty(),
    {
        let state = ConnectAttempts {
            next_generation: generation,
            pending: KeyMap::new(),
            told: SentLog::new(),
            released: SentLog::new(),
        };
        assert(state@.attempts =~= Map::empty());
        state
    }

    /// Whether a new attempt to `addr` is refused.
    pub fn is_blocked(&self, addr: &str) -> (blocked: bool)
        ensures
            blocked == self@.blocked(addr@),
    {
        match self.pending.get(addr) {
            Some(a) => a.waiter.is_some() || a.disconnecting,
            None => false,
        }
    }

    /// Start an attempt to `addr`, to be reported to `waiter`.
    pub fn begin_for(&mut self, addr: &str, waiter: Replier<BlewResult<()>>) -> (generation: i32)
        requires
            !old(self)@.blocked(addr@),
        ensures
            final(self).silent_since(*old(self)),
            final(self)@ == old(self)@.begin(addr@, waiter),
            generation == final(self)@.last,
    {
        self.next_generation = self.next_generation.wrapping_add(1);
        if self.next_generation == 0 {
            self.next_generation = 1;
        }
        let generation: i32 = self.next_generation;
        let attempt = Attempt {
            generation,
            waiter: Some(waiter),
            disconnecting: false,
            disconnects: Vec::new(),
        };
        assert(attempt@.disconnects =~= Seq::empty());
        let ghost view = attempt@;
        self.pending.insert(addr.to_owned(), attempt);
        assert(self@.attempts =~= old(self)@.attempts.insert(addr@, view));
        generation
    }

    /// Start an attempt to `addr`. `None` while an earlier one is waiting for
    /// its connection or being disconnected.
    pub fn begin(&mut self, addr: &str) -> (begun: Option<(i32, Reply<BlewResult<()>>)>)
        ensures
            final(self).silent_since(*old(self)),
            begun is Some <==> !old(self)@.blocked(addr@),
            match begun {
                None => final(self)@ == old(self)@,
                Some((generation, reply)) => {
                    &&& generation == final(self)@.last
                    &&& final(self)@.attempts[addr@].waiter matches Some(waiter)
                    &&& waiter.channel() == reply.channel()
                    &&& final(self)@ == old(self)@.begin(addr@, waiter)
                },
            },
    {
        if self.is_blocked(addr) {
            return None;
        }
        let (tx, rx) = reply_channel();
        let generation: i32 = self.begin_for(addr, tx);
        Some((generation, rx))
    }

    /// The generation of the live attempt to `addr`.
    pub fn generation(&self, addr: &str) -> (generation: Option<i32>)
        ensures
            generation == (if self@.attempts.contains_key(addr@) {
                Some(self@.attempts[addr@].generation)
            } else {
                None
            }),
    {
        match self.pending.get(addr) {
            Some(a) => Some(a.generation),
            None => None,
        }
    }

    /// Whether `generation` is the live attempt to `addr`.
    pub fn is_live(&self, addr: &str, generation: i32) -> (live: bool)
        ensures
            live == self@.live(addr@, generation),
    {
        match self.generation(addr) {
            Some(g) => g == generation,
            None => false,
        }
    }

    /// The platform reported the connection of `generation`: what is to be
    /// delivered, if the event is wanted. The attempt stays live.
    pub fn take_connected(&mut self, addr: &str, generation: i32) -> (delivery: Option<
        Outgoing<BlewResult<()>>,
    >)
        ensures
            final(self).silent_since(*old(self)),
            final(self)@ == old(self)@.connected(addr@, generation),
            delivery is Some <==> old(self)@.awaits(addr@, generation),
            delivery matches Some(d) ==> {
                &&& old(self)@.attempts[addr@].waiter == Some(d.to)
                &&& d.value == Ok::<(), BlewError>(())
            },
    {
        if !self.is_live(addr, generation) {
            return None;
        }
        let ghost before = self@.attempts;
        match self.pending.remove(addr) {
            None => None,
            Some(mut attempt) => {
                let ghost whole = attempt@;
                assert(whole == before[addr@]);
                if attempt.disconnecting {
                    self.pending.insert(addr.to_owned(), attempt);
                    assert(self@.attempts =~= before);
                    return None;
                }
                match attempt.waiter.take() {
                    None => {
                        self.pending.insert(addr.to_owned(), attempt);
                        assert(self@.attempts =~= before);
                        None
                    },
                    Some(tx) => {
                        let ghost rest = attempt@;
                        self.pending.insert(addr.to_owned(), attempt);
                        assert(rest == AttemptView { waiter: None, ..whole });
                        assert(self@.attempts =~= before.insert(addr@, rest));
                        Some(Outgoing { to: tx, value: Ok(()) })
                    },
                }
            },
        }
    }

    /// The platform reported the connection of `generation`. `true` where it
    /// was wanted, and its waiter told.
    pub fn connected(&mut self, addr: &str, generation: i32) -> (wanted: bool)
        ensures
            final(self)@ == old(self)@.connected(addr@, generation),
            wanted == old(self)@.awaits(addr@, generation),
            final(self).released() == old(self).released(),
            if wanted {
                crate::util::reply::adds_answer(
                    old(self).told(),
                    final(self).told(),
                    old(self)@.attempts[addr@].waiter.unwrap(),
                    Ok(()),
                )
            } else {
                final(self).told() == old(self).told()
            },
    {
        match self.take_connected(addr, generation) {
            None => false,
            Some(delivery) => {
                delivery.send(&mut self.told);
                true
            },
        }
    }

    /// A disconnect of `addr` was asked for, to be reported to `waiter`. The
    /// generation to disconnect, if `addr` has an attempt.
    pub fn disconnect_for(&mut self, addr: &str, waiter: Replier<()>) -> (generation: Option<i32>)
        ensures
            final(self).silent_since(*old(self)),
            final(self)@ == old(self)@.disconnect(addr@, waiter),
            generation == (if old(self)@.attempts.contains_key(addr@) {
                Some(old(self)@.attempts[addr@].generation)
            } else {
                None
            }),
    {
        let ghost before = self@.attempts;
        match self.pending.remove(addr) {
            None => {
                assert(self@.attempts =~= before);
                None
            },
            Some(mut attempt) => {
                let ghost whole = attempt@;
                assert(whole == before[addr@]);
                attempt.disconnecting = true;
                attempt.disconnects.push(waiter);
                let generation: i32 = attempt.generation;
                let ghost rest = attempt@;
                self.pending.insert(addr.to_owned(), attempt);
                assert(rest == AttemptView {
                    disconnecting: true,
                    disconnects: whole.disconnects.push(waiter),
                    ..whole
                });
                assert(self@.attempts =~= before.insert(addr@, rest));
                Some(generation)
            },
        }
    }

    /// Ask for a disconnect of `addr`. `None` where it has no attempt.
    pub fn disconnect(&mut self, addr: &str) -> (closing: Option<(i32, Reply<()>)>)
        ensures
            final(self).silent_since(*old(self)),
            closing is Some <==> old(self)@.attempts.contains_key(addr@),
            match closing {
                None => final(self)@ == old(self)@,
                Some((generation, reply)) => {
                    let waiter = final(self)@.attempts[addr@].disconnects.last();
                    &&& generation == old(self)@.attempts[addr@].generation
                    &&& waiter.channel() == reply.channel()
                    &&& final(self)@ == old(self)@.disconnect(addr@, waiter)
                },
            },
    {
        let (tx, rx) = reply_channel();
        match self.disconnect_for(addr, tx) {
            None => None,
            Some(generation) => Some((generation, rx)),
        }
    }

    /// The attempt `generation` to `addr` ended: take it out, if it is live.
    pub fn take_retired(&mut self, addr: &str, generation: i32) -> (retired: Option<Retired>)
        ensures
            final(self).silent_since(*old(self)),
            final(self)@ == old(self)@.retire(addr@, generation),
            retired is Some <==> old(self)@.live(addr@, generation),
            retired matches Some(r) ==> {
                let attempt = old(self)@.attempts[addr@];
                &&& r.disconnects@ == attempt.disconnects
                &&& r.connect is Some <==> attempt.waiter is Some
                &&& r.connect matches Some(d) ==> {
                    &&& attempt.waiter == Some(d.to)
                    &&& d.value matches Err(e)
                    &&& e@ == crate::error::ErrorView::NotConnected(addr@)
                }
            },
    {
        if !self.is_live(addr, generation) {
            return None;
        }
        let ghost before = self@.attempts;
        match self.pending.remove(addr) {
            None => None,
            Some(attempt) => {
                assert(attempt@ == before[addr@]);
                assert(self@.attempts =~= before.remove(addr@));
                let connect = match attempt.waiter {
                    None => None,
                    Some(tx) => Some(
                        Outgoing {
                            to: tx,
                            value: Err(BlewError::NotConnected(DeviceId::from(addr))),
                        },
                    ),
                };
                Some(Retired { connect, disconnects: attempt.disconnects })
            },
        }
    }

    /// The attempt `generation` to `addr` ended. `true` where it was live:
    /// whoever waited for its connection is told that it failed, and all who
    /// waited for its disconnect are told.
    pub fn retire(&mut self, addr: &str, generation: i32) -> (retired: bool)
        ensures
            final(self)@ == old(self)@.retire(addr@, generation),
            retired == old(self)@.live(addr@, generation),
            !retired ==> final(self).silent_since(*old(self)),
            retired ==> {
                let attempt = old(self)@.attempts[addr@];
                &&& crate::util::reply::adds_signals(
                    old(self).released(),
                    final(self).released(),
                    attempt.disconnects,
                )
                &&& match attempt.waiter {
                    None => final(self).told() == old(self).told(),
                    Some(waiter) => {
                        let last = final(self).told().last();
                        &&& final(self).told() == old(self).told().push(last)
                        &&& last.to == waiter
                        &&& last.value matches Err(e)
                        &&& e@ == crate::error::ErrorView::NotConnected(addr@)
                    },
                }
            },
    {
        match self.take_retired(addr, generation) {
            None => false,
            Some(retired) => {
                retired.send(&mut self.told, &mut self.released);
                true
            },
        }
    }
}

/// Who is to be told of the end of an attempt.
pub struct Retired {
    /// The failure for whoever still waited for the connection.
    pub connect: Option<Outgoing<BlewResult<()>>>,
    /// Who waited for the disconnect.
    pub disconnects: Vec<Replier<()>>,
}

impl Retired {
    /// Tell them all, in the order in which they came.
    fn send(self, told: &mut SentLog<BlewResult<()>>, released: &mut SentLog<()>)
        ensures
            match self.connect {
                Some(delivery) => crate::util::reply::adds_answer(
                    old(told)@,
                    final(told)@,
                    delivery.to,
                    delivery.value,
                ),
                None => final(told)@ == old(told)@,
            },
            crate::util::reply::adds_signals(old(released)@, final(released)@, self.disconnects@),
    {
        let Retired { connect, disconnects } = self;
        if let Some(delivery) = connect {
            delivery.send(told);
        }
        let ghost all = disconnects@;
        let ghost before = released@;
        let mut disconnects = disconnects;
        let ghost mut done: int = 0;
        assert(before.take(before.len() as int) =~= before);
        while disconnects.len() > 0
            invariant
                0 <= done <= all.len(),
                disconnects@ == all.skip(done),
                released@.len() == before.len() + done,
                released@.take(before.len() as int) == before,
                forall|i: int|
                    0 <= i < done ==> (#[trigger] released@[before.len() + i]).to == all[i],
            decreases disconnects.len(),
        {
            let ghost earlier = released@;
            let tx = disconnects.remove(0);
            assert(tx == all[done]);
            tx.send((), released);
            proof {
                assert forall|i: int| 0 <= i < done + 1 implies (#[trigger] released@[before.len()
                    + i]).to == all[i] by {
                    if i < done {
                        assert(released@[before.len() + i] == earlier[before.len() + i]);
                    }
                }
                done = done + 1;
                assert(disconnects@ =~= all.skip(done));
                assert(released@.take(before.len() as int) =~= before);
            }
        }
    }
}

/// While an attempt waits for its connection, a second one to the same device
/// is refused; other devices are not affected.
pub proof fn law_overlapping_connect_is_refused(
    state: AttemptsView,
    addr: Seq<char>,
    waiter: Replier<BlewResult<()>>,
    other: Seq<char>,
)
    requires
        other != addr,
    ensures
        state.begin(addr, waiter).blocked(addr),
        state.begin(addr, waiter).blocked(other) == state.blocked(other),
{
}

/// An attempt keeps its identity after its connection, which is reported
/// once: a second connection event is not wanted.
pub proof fn law_identity_survives_connected(state: AttemptsView, addr: Seq<char>, generation: i32)
    requires
        state.awaits(addr, generation),
    ensures
        state.connected(addr, generation).live(addr, generation),
        !state.connected(addr, generation).awaits(addr, generation),
{
}

/// A result of an attempt that is not live changes nothing and reaches nobody.
pub proof fn law_stale_results_change_nothing(state: AttemptsView, addr: Seq<char>, generation: i32)
    requires
        !state.live(addr, generation),
    ensures
        !state.awaits(addr, generation),
        state.connected(addr, generation) == state,
        state.retire(addr, generation) == state,
{
}

/// Once a disconnect is asked for, no connection event of the device is wanted
/// and no new attempt to it begins, whoever else asks, until it is retired.
pub proof fn law_disconnect_suppresses_connected(
    state: AttemptsView,
    addr: Seq<char>,
    first: Replier<()>,
    second: Replier<()>,
    generation: i32,
)
    requires
        state.attempts.contains_key(addr),
    ensures
        ({
            let closing = state.disconnect(addr, first);
            let again = closing.disconnect(addr, second);
            &&& closing.blocked(addr) && !closing.awaits(addr, generation)
            &&& again.blocked(addr) && !again.awaits(addr, generation)
            &&& again.attempts[addr].disconnects == state.attempts[addr].disconnects.push(
                first,
            ).push(second)
        }),
{
}

/// An ended attempt leaves no trace: a new one may begin at once, and the old
/// generation is not live. Other devices keep theirs.
pub proof fn law_retire_frees_the_device(
    state: AttemptsView,
    addr: Seq<char>,
    generation: i32,
    other: Seq<char>,
)
    requires
        state.live(addr, generation),
        other != addr,
    ensures
        !state.retire(addr, generation).attempts.contains_key(addr),
        !state.retire(addr, generation).blocked(addr),
        state.retire(addr, generation).attempts.contains_key(other)
            == state.attempts.contains_key(other),
        state.retire(addr, generation).attempts.contains_key(other) ==> state.retire(
            addr,
            generation,
        ).attempts[other] == state.attempts[other],
{
}

/// Where `generation` stands in the order in which generations come around.
spec fn turn(generation: i32) -> int {
    if generation > 0 {
        generation - 1
    } else {
        generation + 0xffff_ffff
    }
}

proof fn lemma_turn(generation: i32, n: nat)
    requires
        generation != 0,
    ensures
        generations_after(generation, n) != 0,
        turn(generations_after(generation, n)) == (turn(generation) + n) % 0xffff_ffff,
    decreases n,
{
    if n > 0 {
        lemma_turn(generation, (n - 1) as nat);
    }
}

/// No generation is zero, and none comes back before all 2^32 - 1 others have
/// been given out.
pub proof fn law_generations_are_fresh(generation: i32, n: nat)
    requires
        generation != 0,
        0 < n < 0xffff_ffff,
    ensures
        generations_after(generation, n) != 0,
        generations_after(generation, n) != generation,
{
    lemma_turn(generation, n);
}

/// What happens to one device leaves the attempts of all others as they are,
/// whatever their state; only the start of an attempt uses up a generation.
pub proof fn law_other_attempts_are_untouched(
    state: AttemptsView,
    addr: Seq<char>,
    generation: i32,
    waiter: Replier<BlewResult<()>>,
    closer: Replier<()>,
)
    ensures
        state.begin(addr, waiter).attempts.remove(addr) == state.attempts.remove(addr),
        state.connected(addr, generation).attempts.remove(addr) == state.attempts.remove(addr),
        state.disconnect(addr, closer).attempts.remove(addr) == state.attempts.remove(addr),
        state.retire(addr, generation).attempts.remove(addr) == state.attempts.remove(addr),
        state.connected(addr, generation).last == state.last,
        state.disconnect(addr, closer).last == state.last,
        state.retire(addr, generation).last == state.last,
        state.begin(addr, waiter).last != state.last,
        state.begin(addr, waiter).live(addr, state.begin(addr, waiter).last),
        state.begin(addr, waiter).attempts[addr].waiter == Some(waiter),
        state.begin(addr, waiter).attempts[addr].disconnects.len() == 0,
        !state.begin(addr, waiter).attempts[addr].disconnecting,
{
    assert(state.begin(addr, waiter).attempts.remove(addr) =~= state.attempts.remove(addr));
    assert(state.connected(addr, generation).attempts.remove(addr) =~= state.attempts.remove(addr));
    assert(state.disconnect(addr, closer).attempts.remove(addr) =~= state.attempts.remove(addr));
    assert(state.retire(addr, generation).attempts.remove(addr) =~= state.attempts.remove(addr));
}

/// A connection that is reported, and a disconnect that is asked for, keep who
/// waits for the attempt's end; asking for a disconnect keeps who waits for the
/// connection, to be told when it ends.
pub proof fn law_waiters_are_kept(
    state: AttemptsView,
    addr: Seq<char>,
    generation: i32,
    closer: Replier<()>,
)
    requires
        state.attempts.contains_key(addr),
    ensures
        ({
            let before = state.attempts[addr];
            let up = state.connected(addr, generation).attempts[addr];
            let closing = state.disconnect(addr, closer).attempts[addr];
            &&& up.generation == before.generation && closing.generation == before.generation
            &&& up.disconnects == before.disconnects
            &&& up.disconnecting == before.disconnecting
            &&& closing.waiter == before.waiter
            &&& closing.disconnects == before.disconnects.push(closer)
            &&& closing.disconnecting
        }),
{
}

/// A device is free for a new attempt where it has none, and where its attempt
/// is connected and no disconnect was asked for.
pub proof fn law_a_connected_device_can_be_connected_again(
    state: AttemptsView,
    addr: Seq<char>,
    generation: i32,
)
    ensures
        !state.attempts.contains_key(addr) ==> !state.blocked(addr) && !state.live(
            addr,
            generation,
        ),
        state.awaits(addr, generation) ==> state.blocked(addr) && !state.connected(
            addr,
            generation,
        ).blocked(addr),
        state.live(addr, generation) <==> state.attempts.contains_key(addr)
            && state.attempts[addr].generation == generation,
{
}

} // verus!
