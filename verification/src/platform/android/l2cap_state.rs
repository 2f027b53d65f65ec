//! L2CAP channels on Android: the opens in flight, and the sockets that are
//! open.
//!
//! Each channel is a pair of byte streams, one half for the application, the
//! other bridged to a socket on the Kotlin side. What Kotlin reads goes through
//! a bounded queue: its read thread blocks on a full queue, which stops it
//! draining the socket, which stops L2CAP credits being returned, which stops
//! the peer sending.
use crate::error::{BlewError, BlewResult};
use crate::l2cap::types::{L2capCloseReason, L2capConfig, L2capEncryption, Psm};
use crate::types::DeviceId;
use crate::util::key_map::KeyMap;
use crate::util::reply::{Outgoing, Replier};
use std::time::Duration;
use vstd::prelude::*;

verus! {

/// Smallest number of queued chunks, so a tiny `buffer_size` can never produce
/// a zero-capacity channel (which would deadlock).
pub const MIN_QUEUE_CHUNKS: usize = 2;

/// How many chunks the queue of a socket holds: enough for the whole buffer,
/// and never less than the least.
pub open spec fn queue_chunks(config: L2capConfig) -> int {
    let whole = (config.buffer() + config.chunk() - 1) / config.chunk();
    if whole < MIN_QUEUE_CHUNKS {
        MIN_QUEUE_CHUNKS as int
    } else {
        whole
    }
}

/// How many chunks the queue of a socket holds.
pub fn queue_capacity(config: &L2capConfig) -> (chunks: usize)
    ensures
        chunks == queue_chunks(*config),
{
    let buffer: usize = config.effective_buffer_size();
    let chunk: usize = config.effective_read_chunk_size();
    let full: usize = buffer / chunk;
    let rest: usize = buffer % chunk;
    proof {
        lemma_chunks(buffer as int, chunk as int);
        assert(full < usize::MAX) by (nonlinear_arith)
            requires
                full == buffer / chunk,
                chunk >= 64,
                buffer <= usize::MAX,
        ;
    }
    let whole: usize = if rest > 0 {
        full + 1
    } else {
        full
    };
    if whole < MIN_QUEUE_CHUNKS {
        MIN_QUEUE_CHUNKS
    } else {
        whole
    }
}

proof fn lemma_chunks(buffer: int, chunk: int)
    by (nonlinear_arith)
    requires
        buffer >= 0,
        chunk > 0,
    ensures
        (buffer + chunk - 1) / chunk == buffer / chunk + (if buffer % chunk > 0 {
            1int
        } else {
            0
        }),
{
}

/// The queue of a socket has room for the whole buffer, and for at least two
/// chunks, whatever is configured, and is no larger than that takes: no smaller
/// number of at least two chunks holds the buffer.
pub proof fn law_queue_holds_the_buffer(config: L2capConfig)
    ensures
        queue_chunks(config) >= 2,
        queue_chunks(config) * config.chunk() >= config.buffer(),
        forall|n: int|
            2 <= n < queue_chunks(config) ==> #[trigger] (n * config.chunk()) < config.buffer(),
{
    let b = config.buffer();
    let c = config.chunk();
    assert(((b + c - 1) / c) * c >= b) by (nonlinear_arith)
        requires
            c > 0,
            b >= 0,
    ;
    assert(queue_chunks(config) * c >= ((b + c - 1) / c) * c) by (nonlinear_arith)
        requires
            c > 0,
            queue_chunks(config) >= (b + c - 1) / c,
    ;
    assert forall|n: int| 2 <= n < queue_chunks(config) implies #[trigger] (n * c) < b by {
        assert(n * c < b) by (nonlinear_arith)
            requires
                n + 1 <= (b + c - 1) / c,
                c > 0,
                b >= 0,
        ;
    }
}

/// The strongest requirement that an Android socket enforces.
pub open spec fn socket_strength(secure: bool) -> int {
    if secure {
        2
    } else {
        0
    }
}

/// Whether Kotlin should take the `secure` branch of the L2CAP socket APIs.
///
/// The secure sockets require an authenticated, encrypted link; the insecure
/// ones require neither. There is no middle setting, so `RequireEncryption`
/// gets the secure socket too: stronger than asked for, which is the safe
/// direction to round. A socket is never weaker than what was asked for.
pub fn secure_flag(encryption: L2capEncryption) -> (secure: bool)
    ensures
        secure == (encryption != L2capEncryption::Insecure),
        socket_strength(secure) >= encryption.strength(),
{
    match encryption {
        L2capEncryption::Insecure => false,
        L2capEncryption::RequireEncryption => true,
        L2capEncryption::RequireAuthentication => true,
    }
}

/// The size of the reads that Kotlin makes on its sockets.
pub fn read_buffer_size(config: &L2capConfig) -> (bytes: i32)
    ensures
        bytes == (if config.chunk() <= i32::MAX {
            config.chunk()
        } else {
            i32::MAX as int
        }),
{
    let chunk: usize = config.effective_read_chunk_size();
    if chunk <= 0x7fff_ffff {
        chunk as i32
    } else {
        i32::MAX
    }
}

/// How an opened channel is bridged.
pub struct BridgePlan {
    /// The capacity of the byte streams.
    pub buffer_size: usize,
    /// The size of the reads from the application's half.
    pub read_chunk: usize,
    /// How many chunks may wait for the application.
    pub queue: usize,
    /// How long a closed channel may go on draining.
    pub linger: Option<Duration>,
}

/// What is done, one after the other, where a socket with a queue `D` and a
/// close-reason slot `R` closed.
pub enum CloseStep<D, R> {
    /// Leave the reason for the application.
    LeaveReason(R, L2capCloseReason),
    /// Drop the queue. Its end is what the application sees as end-of-stream,
    /// and the reason is looked up at that moment.
    EndQueue(D),
}

/// Where an opened channel goes.
#[verifier::reject_recursive_types(C)]
pub enum Route<C> {
    /// To whoever accepts the channels of the server.
    Accept(BlewResult<(DeviceId, C)>),
    /// To whoever opened it.
    Answer(Outgoing<BlewResult<C>>),
    /// Nobody waits for it.
    Discard(C),
}

/// The mathematical value of an [`L2capState`].
#[verifier::reject_recursive_types(C)]
#[verifier::reject_recursive_types(D)]
#[verifier::reject_recursive_types(R)]
#[verifier::ext_equal]
pub struct L2capView<C, D, R> {
    /// Who waits for the server to open.
    pub server: Option<Replier<BlewResult<Psm>>>,
    /// Who waits for a channel to open, by address.
    pub opens: Map<Seq<char>, Replier<BlewResult<C>>>,
    /// Channels of the server are accepted.
    pub accepting: bool,
    /// The queues of the open sockets.
    pub queues: Map<i32, D>,
    /// Where the reasons of their ends are left.
    pub reasons: Map<i32, R>,
}

/// The reason that is left where a socket closed with this message, if any.
pub open spec fn close_reason(error: Option<String>) -> L2capCloseReason {
    match error {
        Some(message) => L2capCloseReason::TransportError(message),
        None => L2capCloseReason::Closed,
    }
}

impl<C, D, R> L2capView<C, D, R> {
    /// The socket has closed: nothing is held of it any more.
    pub open spec fn close(self, socket_id: i32) -> Self {
        L2capView {
            queues: self.queues.remove(socket_id),
            reasons: self.reasons.remove(socket_id),
            ..self
        }
    }

    /// What is done where the socket closed with this message, in order.
    pub open spec fn close_steps(self, socket_id: i32, error: Option<String>) -> Seq<
        CloseStep<D, R>,
    > {
        let reason: Seq<CloseStep<D, R>> = if self.reasons.contains_key(socket_id) {
            seq![CloseStep::LeaveReason(self.reasons[socket_id], close_reason(error))]
        } else {
            Seq::empty()
        };
        let end: Seq<CloseStep<D, R>> = if self.queues.contains_key(socket_id) {
            seq![CloseStep::EndQueue(self.queues[socket_id])]
        } else {
            Seq::empty()
        };
        reason + end
    }
}

/// A socket that closed leaves its reason before its reader can see the end;
/// data that comes later goes nowhere, and a second close does nothing, so that
/// the reason stays; other sockets are not touched.
pub proof fn law_reason_is_left_before_the_end<C, D, R>(
    state: L2capView<C, D, R>,
    socket_id: i32,
    error: Option<String>,
    again: Option<String>,
    other: i32,
)
    requires
        state.queues.contains_key(socket_id),
        state.reasons.contains_key(socket_id),
        other != socket_id,
    ensures
        state.close_steps(socket_id, error).len() == 2,
        state.close_steps(socket_id, error)[0] == CloseStep::<D, R>::LeaveReason(
            state.reasons[socket_id],
            close_reason(error),
        ),
        state.close_steps(socket_id, error)[1] == CloseStep::<D, R>::EndQueue(
            state.queues[socket_id],
        ),
        !state.close(socket_id).queues.contains_key(socket_id),
        state.close(socket_id).close_steps(socket_id, again).len() == 0,
        state.close(socket_id).close(socket_id) == state.close(socket_id),
        state.close(socket_id).close_steps(other, again) == state.close_steps(other, again),
        state.close(socket_id).queues.contains_key(other) == state.queues.contains_key(other),
        state.queues.contains_key(other) ==> state.close(socket_id).queues[other]
            == state.queues[other],
{
}

/// What is remembered of L2CAP, with channels `C`, queues `D` and close-reason
/// slots `R`.
#[verifier::reject_recursive_types(C)]
#[verifier::reject_recursive_types(D)]
#[verifier::reject_recursive_types(R)]
pub struct L2capState<C, D, R> {
    pending_server: Option<Replier<BlewResult<Psm>>>,
    pending_open: KeyMap<String, Replier<BlewResult<C>>>,
    accepting: bool,
    data_tx: KeyMap<i32, D>,
    close_reasons: KeyMap<i32, R>,
    client_config: L2capConfig,
    server_config: L2capConfig,
}

impl<C, D, R> View for L2capState<C, D, R> {
    type V = L2capView<C, D, R>;

    closed spec fn view(&self) -> L2capView<C, D, R> {
        L2capView {
            server: self.pending_server,
            opens: self.pending_open@,
            accepting: self.accepting,
            queues: self.data_tx@,
            reasons: self.close_reasons@,
        }
    }
}

impl<C, D, R> L2capState<C, D, R> {
    /// The tuning of the channels of one side.
    pub closed spec fn config(self, from_server: bool) -> L2capConfig {
        if from_server {
            self.server_config
        } else {
            self.client_config
        }
    }

    /// The tuning of both sides is as before.
    pub open spec fn tuned_as(self, before: Self) -> bool {
        self.config(true) == before.config(true) && self.config(false) == before.config(false)
    }

    /// Nothing is open, and everything at its default.
    pub fn new() -> (state: Self)
        ensures
            state@ == (L2capView::<C, D, R> {
                server: None,
                opens: Map::empty(),
                accepting: false,
                queues: Map::empty(),
                reasons: Map::empty(),
            }),
            state.config(true).is_default(),
            state.config(false).is_default(),
    {
        L2capState {
            pending_server: None,
            pending_open: KeyMap::new(),
            accepting: false,
            data_tx: KeyMap::new(),
            close_reasons: KeyMap::new(),
            client_config: L2capConfig::default(),
            server_config: L2capConfig::default(),
        }
    }

    /// Tune the channels that the central opens. Returned is the read size
    /// that Kotlin is to use for them.
    pub fn set_client_config(&mut self, config: L2capConfig) -> (read_size: i32)
        ensures
            final(self)@ == old(self)@,
            final(self).config(false) == config,
            final(self).config(true) == old(self).config(true),
            read_size == (if config.chunk() <= i32::MAX {
                config.chunk()
            } else {
                i32::MAX as int
            }),
    {
        let read_size: i32 = read_buffer_size(&config);
        self.client_config = config;
        read_size
    }

    /// Tune the channels that the server accepts. Returned is the read size
    /// that Kotlin is to use for them.
    pub fn set_server_config(&mut self, config: L2capConfig) -> (read_size: i32)
        ensures
            final(self)@ == old(self)@,
            final(self).config(true) == config,
            final(self).config(false) == old(self).config(false),
            read_size == (if config.chunk() <= i32::MAX {
                config.chunk()
            } else {
                i32::MAX as int
            }),
    {
        let read_size: i32 = read_buffer_size(&config);
        self.server_config = config;
        read_size
    }

    /// `tx` waits for the server to open. Whoever waited before is let go of,
    /// unanswered.
    pub fn set_pending_server(&mut self, tx: Replier<BlewResult<Psm>>) -> (displaced: Option<
        Replier<BlewResult<Psm>>,
    >)
        ensures
            displaced == old(self)@.server,
            final(self)@ == (L2capView { server: Some(tx), ..old(self)@ }),
            final(self).tuned_as(*old(self)),
    {
        let mut waiter = Some(tx);
        std::mem::swap(&mut waiter, &mut self.pending_server);
        waiter
    }

    /// The answer `result` to whoever waits for the server to open.
    #[must_use]
    pub fn complete_server_open(&mut self, result: BlewResult<Psm>) -> (answer: Option<
        Outgoing<BlewResult<Psm>>,
    >)
        ensures
            final(self)@ == (L2capView { server: None, ..old(self)@ }),
            final(self).tuned_as(*old(self)),
            answer == (match old(self)@.server {
                Some(to) => Some(Outgoing { to, value: result }),
                None => None,
            }),
    {
        match self.pending_server.take() {
            Some(to) => Some(Outgoing { to, value: result }),
            None => None,
        }
    }

    /// From now on, channels of the server are accepted.
    pub fn set_accepting(&mut self)
        ensures
            final(self)@ == (L2capView { accepting: true, ..old(self)@ }),
            final(self).tuned_as(*old(self)),
    {
        self.accepting = true;
    }

    /// `tx` waits for a channel to `addr` to open. Whoever waited for one to it
    /// before is let go of, unanswered.
    pub fn set_pending_open(&mut self, addr: String, tx: Replier<BlewResult<C>>) -> (displaced:
        Option<Replier<BlewResult<C>>>)
        ensures
            displaced == (if old(self)@.opens.contains_key(addr@) {
                Some(old(self)@.opens[addr@])
            } else {
                None
            }),
            final(self)@ == (L2capView {
                opens: old(self)@.opens.insert(addr@, tx),
                ..old(self)@
            }),
            final(self).tuned_as(*old(self)),
    {
        self.pending_open.insert(addr, tx)
    }

    /// A socket opened: how to bridge it.
    pub fn bridge_plan(&self, from_server: bool) -> (plan: BridgePlan)
        ensures
            plan.buffer_size == self.config(from_server).buffer(),
            plan.read_chunk == self.config(from_server).chunk(),
            plan.queue == queue_chunks(self.config(from_server)),
            plan.linger == self.config(from_server).linger_timeout,
    {
        let config = if from_server {
            &self.server_config
        } else {
            &self.client_config
        };
        BridgePlan {
            buffer_size: config.effective_buffer_size(),
            read_chunk: config.effective_read_chunk_size(),
            queue: queue_capacity(config),
            linger: config.linger_timeout,
        }
    }

    /// A socket opened, and its bridge is in place: `channel` goes to whoever
    /// accepts the server's channels, or to whoever opened it.
    pub fn on_channel_opened(
        &mut self,
        device_addr: &str,
        socket_id: i32,
        from_server: bool,
        queue: D,
        reason: R,
        channel: C,
    ) -> (route: Route<C>)
        ensures
            final(self).tuned_as(*old(self)),
            final(self)@ == (L2capView {
                queues: old(self)@.queues.insert(socket_id, queue),
                reasons: old(self)@.reasons.insert(socket_id, reason),
                opens: if from_server {
                    old(self)@.opens
                } else {
                    old(self)@.opens.remove(device_addr@)
                },
                ..old(self)@
            }),
            match route {
                Route::Accept(item) => {
                    &&& from_server && old(self)@.accepting
                    &&& item matches Ok((id, c))
                    &&& id@ == device_addr@
                    &&& c == channel
                },
                Route::Answer(out) => {
                    &&& !from_server && old(self)@.opens.contains_key(device_addr@)
                    &&& out == Outgoing {
                        to: old(self)@.opens[device_addr@],
                        value: Ok::<C, BlewError>(channel),
                    }
                },
                Route::Discard(c) => {
                    &&& c == channel
                    &&& if from_server {
                        !old(self)@.accepting
                    } else {
                        !old(self)@.opens.contains_key(device_addr@)
                    }
                },
            },
    {
        self.data_tx.insert(socket_id, queue);
        self.close_reasons.insert(socket_id, reason);
        if from_server {
            if self.accepting {
                Route::Accept(Ok((DeviceId::from(device_addr), channel)))
            } else {
                Route::Discard(channel)
            }
        } else {
            match self.pending_open.remove(device_addr) {
                Some(to) => Route::Answer(Outgoing { to, value: Ok(channel) }),
                None => Route::Discard(channel),
            }
        }
    }

    /// The queue that data of a socket goes to, while it is open.
    pub fn on_channel_data(&self, socket_id: i32) -> (queue: Option<&D>)
        ensures
            queue == (if self@.queues.contains_key(socket_id) {
                Some(&self@.queues[socket_id])
            } else {
                None
            }),
    {
        self.data_tx.get(&socket_id)
    }

    /// A socket closed: what is done, in order. Kotlin funnels deliberate
    /// closes, read failures, link loss and write failures through one
    /// callback; only the message distinguishes them.
    pub fn on_channel_closed(&mut self, socket_id: i32, error: Option<String>) -> (steps: Vec<
        CloseStep<D, R>,
    >)
        ensures
            final(self).tuned_as(*old(self)),
            final(self)@ == old(self)@.close(socket_id),
            steps@ == old(self)@.close_steps(socket_id, error),
    {
        let mut steps: Vec<CloseStep<D, R>> = Vec::new();
        match self.close_reasons.remove(&socket_id) {
            Some(slot) => {
                let reason = match error {
                    Some(message) => L2capCloseReason::TransportError(message),
                    None => L2capCloseReason::Closed,
                };
                steps.push(CloseStep::LeaveReason(slot, reason));
            },
            None => {},
        }
        match self.data_tx.remove(&socket_id) {
            Some(queue) => steps.push(CloseStep::EndQueue(queue)),
            None => {},
        }
        assert(steps@ =~= old(self)@.close_steps(socket_id, error));
        steps
    }

    /// A channel to `device_addr` failed to open: the answer to whoever waits
    /// for it.
    #[must_use]
    pub fn on_channel_error(&mut self, device_addr: &str, error: String) -> (answer: Option<
        Outgoing<BlewResult<C>>,
    >)
        ensures
            final(self).tuned_as(*old(self)),
            final(self)@ == (L2capView {
                opens: old(self)@.opens.remove(device_addr@),
                ..old(self)@
            }),
            answer is Some <==> old(self)@.opens.contains_key(device_addr@),
            answer matches Some(out) ==> {
                &&& out.to == old(self)@.opens[device_addr@]
                &&& out.value matches Err(e)
                &&& e@ == (crate::error::ErrorView::L2cap { source: error@ })
            },
    {
        match self.pending_open.remove(device_addr) {
            Some(to) => Some(Outgoing { to, value: Err(BlewError::L2cap { source: error }) }),
            None => None,
        }
    }
}

/// What the task that carries the application's bytes to the socket does
/// after a read of the application's half.
#[derive(Debug, Clone, Copy, PartialEq, Eq, Structural)]
pub enum OutboundStep {
    /// Write this many bytes, and read again once they are on the socket.
    Write(usize),
    /// Everything is written: close the socket.
    Close,
}

/// What follows a read of `read` bytes, or a failed one: at the end of the
/// stream and on a failure the outbound side is drained, since every earlier
/// write had completed.
pub fn after_outbound_read(read: Option<usize>) -> (step: OutboundStep)
    ensures
        step == (match read {
            Some(n) if n > 0 => OutboundStep::Write(n),
            _ => OutboundStep::Close,
        }),
{
    match read {
        Some(n) => if n > 0 {
            OutboundStep::Write(n)
        } else {
            OutboundStep::Close
        },
        None => OutboundStep::Close,
    }
}

/// A socket that closed with a message closed with that as its error, and one
/// that closed without closed deliberately; closing it leaves the server, the
/// opens in flight and whether channels are accepted as they are.
pub proof fn law_the_reason_is_the_message<C, D, R>(
    state: L2capView<C, D, R>,
    socket_id: i32,
    message: String,
)
    ensures
        close_reason(Some(message)) == L2capCloseReason::TransportError(message),
        close_reason(None) is Closed,
        state.close(socket_id).server == state.server,
        state.close(socket_id).opens == state.opens,
        state.close(socket_id).accepting == state.accepting,
{
}

/// A socket with authentication is as strong as anything asked for, one without
/// enforces nothing.
pub proof fn law_secure_sockets_are_the_strongest()
    ensures
        socket_strength(true) == L2capEncryption::RequireAuthentication.strength(),
        socket_strength(false) == L2capEncryption::Insecure.strength(),
{
}

} // verus!
