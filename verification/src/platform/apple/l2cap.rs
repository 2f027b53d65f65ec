//! The worker that carries the bytes of an L2CAP channel on Apple platforms.
//!
//! The streams of a channel deliver data through run-loop callbacks, so each
//! channel has a thread of its own that owns them and spins the loop.
//!
//! A channel that is closed or dropped lingers: the worker goes on writing what
//! the application sent, until everything is written or the time allowed for it
//! has passed.
use crate::l2cap::types::L2capConfig;
use crate::platform::android::l2cap_state::queue_capacity;
use std::time::Duration;
use vstd::prelude::*;

verus! {

/// The capacity of a channel that has no streams: it carries nothing.
pub const DEAD_BUF_SIZE: usize = 64;

/// What the worker is told.
pub enum BridgeCmd {
    /// Write these bytes to the socket.
    Write(Vec<u8>),
    /// The application closed or dropped the channel. What it sent before may
    /// still be on its way to the worker.
    Close,
    /// The application's half is at its end: everything that it sent has been
    /// queued.
    End,
}

/// How a channel is bridged.
#[derive(Debug, Clone, Copy, PartialEq, Eq)]
pub enum BridgePlan {
    /// It has no streams: hand out a channel whose other end is gone.
    Dead { buffer_size: usize },
    /// Start a worker.
    Worker {
        /// The capacity of the byte streams.
        buffer_size: usize,
        /// The size of the reads, from the socket and from the application.
        read_chunk: usize,
        /// How many chunks may wait in each direction.
        queue: usize,
        /// How long a closed channel may go on draining; `None` where there is
        /// no limit.
        linger: Option<Duration>,
    },
}

/// How a channel with or without its two streams is bridged.
pub fn bridge_l2cap_channel(has_input: bool, has_output: bool, config: &L2capConfig) -> (plan:
    BridgePlan)
    ensures
        plan == (if has_input && has_output {
            BridgePlan::Worker {
                buffer_size: config.buffer() as usize,
                read_chunk: config.chunk() as usize,
                queue: crate::platform::android::l2cap_state::queue_chunks(*config) as usize,
                linger: config.linger_timeout,
            }
        } else {
            BridgePlan::Dead { buffer_size: DEAD_BUF_SIZE }
        }),
{
    if has_input && has_output {
        BridgePlan::Worker {
            buffer_size: config.effective_buffer_size(),
            read_chunk: config.effective_read_chunk_size(),
            queue: queue_capacity(config),
            linger: config.linger_timeout,
        }
    } else {
        BridgePlan::Dead { buffer_size: DEAD_BUF_SIZE }
    }
}

/// Where the writing of a chunk stands.
#[derive(Debug, Clone, Copy, PartialEq, Eq, Structural)]
pub enum WriteProgress {
    /// This many bytes are written, and more are left.
    At(usize),
    /// All bytes are written.
    Done,
    /// The socket takes no more: the worker stops.
    Failed,
}

/// Where the writing of `len` bytes stands before the first write.
pub fn write_chunk(len: usize) -> (progress: WriteProgress)
    ensures
        progress == progress_at(len as int, 0),
{
    if len == 0 {
        WriteProgress::Done
    } else {
        WriteProgress::At(0)
    }
}

/// Where the writing of `len` bytes stands once `pos` of them are written.
pub open spec fn progress_at(len: int, pos: int) -> WriteProgress {
    if pos >= len {
        WriteProgress::Done
    } else {
        WriteProgress::At(pos as usize)
    }
}

/// Where the writing of `len` bytes stands after the socket, offered those from
/// `pos` on, said that it took `written`.
pub fn after_write(len: usize, pos: usize, written: isize) -> (progress: WriteProgress)
    requires
        pos < len,
        written <= len - pos,
    ensures
        progress == (if written <= 0 {
            WriteProgress::Failed
        } else {
            progress_at(len as int, pos + written)
        }),
{
    if written <= 0 {
        return WriteProgress::Failed;
    }
    let next: usize = pos + written as usize;
    if next >= len {
        WriteProgress::Done
    } else {
        WriteProgress::At(next)
    }
}

/// What the worker does with what it read.
#[derive(Debug, Clone, Copy, PartialEq, Eq, Structural)]
pub enum ReadStep {
    /// Forward this many bytes, and look for more.
    Forward(usize),
    /// The stream is at its end, or failed: stop.
    Stop,
}

/// What the worker does after a read returned `read`.
pub fn after_read(read: isize) -> (step: ReadStep)
    ensures
        step == (if read <= 0 {
            ReadStep::Stop
        } else {
            ReadStep::Forward(read as usize)
        }),
{
    if read <= 0 {
        ReadStep::Stop
    } else {
        ReadStep::Forward(read as usize)
    }
}

/// What became of forwarding the input that was available.
#[derive(Debug, Clone, Copy, PartialEq, Eq, Structural)]
pub enum Input {
    /// It was forwarded, as far as there was room for it.
    Forwarded,
    /// The socket's input is at its end, or failed.
    Ended,
    /// The application takes no more input: it dropped the channel.
    Unwanted,
}

/// What happens on the worker's thread.
pub enum PumpEvent {
    /// The streams are open, or the run loop had its turn.
    Turn,
    /// The command that waits; `None` where none does.
    Command(Option<BridgeCmd>),
    /// A chunk was written, or could not be.
    Wrote(bool),
    /// The available input was dealt with.
    Forwarded(Input),
    /// The time allowed for draining has passed.
    Deadline,
}

/// What the worker does then.
pub enum PumpStep {
    /// See whether a command waits.
    TakeCommand,
    /// Write this chunk.
    Write(Vec<u8>),
    /// Forward the input that is available.
    Forward,
    /// Give the run loop its turn.
    Poll,
    /// The channel lingers from now on: the time allowed for draining begins.
    /// Then see whether a command waits.
    Linger,
    /// Close the streams, and end.
    Stop,
}

/// What the worker knows of its channel.
#[derive(Debug, Clone, Copy, PartialEq, Eq, Structural)]
pub struct Pump {
    /// The application closed or dropped the channel, which lingers.
    pub closing: bool,
    /// The application's half is at its end: nothing more will be queued.
    pub ended: bool,
}

impl Pump {
    /// What the worker knows and does after `event`.
    pub open spec fn next(self, event: PumpEvent) -> (Pump, PumpStep) {
        match event {
            PumpEvent::Turn => (self, PumpStep::TakeCommand),
            PumpEvent::Command(Some(BridgeCmd::Write(data))) => (self, PumpStep::Write(data)),
            PumpEvent::Command(Some(BridgeCmd::Close)) => self.close(),
            PumpEvent::Command(Some(BridgeCmd::End)) => (
                Pump { ended: true, ..self },
                PumpStep::TakeCommand,
            ),
            PumpEvent::Command(None) => (
                self,
                if self.ended {
                    PumpStep::Stop
                } else if self.closing {
                    PumpStep::Poll
                } else {
                    PumpStep::Forward
                },
            ),
            PumpEvent::Wrote(written) => (
                self,
                if written {
                    PumpStep::TakeCommand
                } else {
                    PumpStep::Stop
                },
            ),
            PumpEvent::Forwarded(Input::Forwarded) => (self, PumpStep::Poll),
            PumpEvent::Forwarded(Input::Unwanted) => self.close(),
            PumpEvent::Forwarded(Input::Ended) => (
                self,
                if self.closing {
                    PumpStep::Poll
                } else {
                    PumpStep::Stop
                },
            ),
            PumpEvent::Deadline => (
                self,
                if self.closing {
                    PumpStep::Stop
                } else {
                    PumpStep::TakeCommand
                },
            ),
        }
    }

    /// What the worker knows and does once the channel is closed or dropped.
    pub open spec fn close(self) -> (Pump, PumpStep) {
        (
            Pump { closing: true, ..self },
            if self.closing {
                PumpStep::TakeCommand
            } else {
                PumpStep::Linger
            },
        )
    }

    /// The bytes that the worker writes while `events` happen, in order, up to
    /// its end.
    pub open spec fn writes(self, events: Seq<PumpEvent>) -> Seq<u8>
        decreases events.len(),
    {
        if events.len() == 0 {
            Seq::empty()
        } else {
            let (next, step) = self.next(events[0]);
            match step {
                PumpStep::Stop => Seq::empty(),
                PumpStep::Write(data) => data@ + next.writes(events.skip(1)),
                _ => next.writes(events.skip(1)),
            }
        }
    }

    /// A channel that is open.
    pub fn new() -> (pump: Self)
        ensures
            pump == (Pump { closing: false, ended: false }),
    {
        Pump { closing: false, ended: false }
    }

    /// The channel was closed or dropped.
    fn start_closing(&mut self) -> (step: PumpStep)
        ensures
            (*final(self), step) == old(self).close(),
    {
        if self.closing {
            return PumpStep::TakeCommand;
        }
        self.closing = true;
        PumpStep::Linger
    }

    /// What the worker does next. Each turn it obeys every command that waits,
    /// in order, then forwards what input there is, then gives the run loop its
    /// turn. A channel that was closed or dropped takes no more input, and goes
    /// on until everything that the application sent is written, or the time
    /// allowed for it has passed. A write that fails ends it, and so does the
    /// end of the input of an open channel.
    pub fn pump(&mut self, event: PumpEvent) -> (step: PumpStep)
        ensures
            (*final(self), step) == old(self).next(event),
            step is Stop <==> {
                ||| event == PumpEvent::Command(None) && old(self).ended
                ||| event == PumpEvent::Deadline && old(self).closing
                ||| event == PumpEvent::Wrote(false)
                ||| event == PumpEvent::Forwarded(Input::Ended) && !old(self).closing
            },
    {
        match event {
            PumpEvent::Turn => PumpStep::TakeCommand,
            PumpEvent::Command(Some(BridgeCmd::Write(data))) => PumpStep::Write(data),
            PumpEvent::Command(Some(BridgeCmd::Close)) => self.start_closing(),
            PumpEvent::Command(Some(BridgeCmd::End)) => {
                self.ended = true;
                PumpStep::TakeCommand
            },
            PumpEvent::Command(None) => if self.ended {
                PumpStep::Stop
            } else if self.closing {
                PumpStep::Poll
            } else {
                PumpStep::Forward
            },
            PumpEvent::Wrote(written) => if written {
                PumpStep::TakeCommand
            } else {
                PumpStep::Stop
            },
            PumpEvent::Forwarded(Input::Forwarded) => PumpStep::Poll,
            PumpEvent::Forwarded(Input::Unwanted) => self.start_closing(),
            PumpEvent::Forwarded(Input::Ended) => if self.closing {
                PumpStep::Poll
            } else {
                PumpStep::Stop
            },
            PumpEvent::Deadline => if self.closing {
                PumpStep::Stop
            } else {
                PumpStep::TakeCommand
            },
        }
    }
}

/// The bytes that `events` take from the queue to be written, in order.
pub open spec fn queued(events: Seq<PumpEvent>) -> Seq<u8>
    decreases events.len(),
{
    if events.len() == 0 {
        Seq::empty()
    } else {
        let rest = queued(events.skip(1));
        match events[0] {
            PumpEvent::Command(Some(BridgeCmd::Write(data))) => data@ + rest,
            _ => rest,
        }
    }
}

/// `event` hands over bytes to be written.
pub open spec fn is_write(event: PumpEvent) -> bool {
    event matches PumpEvent::Command(Some(BridgeCmd::Write(_)))
}

/// The socket takes and gives bytes throughout `events`.
pub open spec fn socket_works(events: Seq<PumpEvent>) -> bool {
    forall|i: int|
        0 <= i < events.len() ==> #[trigger] events[i] != PumpEvent::Wrote(false) && events[i]
            != PumpEvent::Forwarded(Input::Ended)
}

/// The time allowed for draining does not pass during `events`.
pub open spec fn in_time(events: Seq<PumpEvent>) -> bool {
    forall|i: int| 0 <= i < events.len() ==> #[trigger] events[i] != PumpEvent::Deadline
}

/// Nothing is queued during `events` once the queue was found empty behind the
/// end of the application's half.
pub open spec fn nothing_behind_the_end(events: Seq<PumpEvent>) -> bool {
    forall|k: int, i: int, j: int|
        #![trigger events[k], events[i], events[j]]
        0 <= k < i < j < events.len() && events[k] == PumpEvent::Command(Some(BridgeCmd::End))
            && events[i] == PumpEvent::Command(None) ==> !is_write(events[j])
}

/// Where the end of the application's half came before `events`, an empty queue
/// stays empty.
pub open spec fn empty_stays_empty(events: Seq<PumpEvent>) -> bool {
    forall|i: int, j: int|
        #![trigger events[i], events[j]]
        0 <= i < j < events.len() && events[i] == PumpEvent::Command(None) ==> !is_write(events[j])
}

proof fn lemma_nothing_queued(events: Seq<PumpEvent>)
    requires
        forall|j: int| 0 <= j < events.len() ==> !is_write(#[trigger] events[j]),
    ensures
        queued(events) == Seq::<u8>::empty(),
    decreases events.len(),
{
    if events.len() > 0 {
        assert(!is_write(events[0]));
        assert forall|j: int| 0 <= j < events.skip(1).len() implies !is_write(
            #[trigger] events.skip(1)[j],
        ) by {
            assert(events.skip(1)[j] == events[j + 1]);
        }
        lemma_nothing_queued(events.skip(1));
    }
}

/// Whatever else happens -- the application closes or drops the channel before
/// or after all its bytes are queued, and the worker finds its queue empty now
/// and then -- every byte that is queued is written, in order, as long as the
/// socket works and the time allowed for draining does not pass.
pub proof fn law_closing_drains_the_queue(pump: Pump, events: Seq<PumpEvent>)
    requires
        socket_works(events),
        in_time(events),
        nothing_behind_the_end(events),
        pump.ended ==> empty_stays_empty(events),
    ensures
        pump.writes(events) == queued(events),
    decreases events.len(),
{
    if events.len() > 0 {
        let rest = events.skip(1);
        let (next, step) = pump.next(events[0]);
        assert forall|i: int| 0 <= i < rest.len() implies #[trigger] rest[i] == events[i + 1] by {}
        assert(socket_works(rest));
        assert(in_time(rest));
        assert forall|k: int, i: int, j: int|
            #![trigger rest[k], rest[i], rest[j]]
            0 <= k < i < j < rest.len() && rest[k] == PumpEvent::Command(Some(BridgeCmd::End))
                && rest[i] == PumpEvent::Command(None) implies !is_write(rest[j]) by {
            assert(rest[k] == events[k + 1] && rest[i] == events[i + 1] && rest[j] == events[j + 1]);
        }
        if next.ended {
            assert forall|i: int, j: int|
                #![trigger rest[i], rest[j]]
                0 <= i < j < rest.len() && rest[i] == PumpEvent::Command(None) implies !is_write(
                rest[j],
            ) by {
                assert(rest[i] == events[i + 1] && rest[j] == events[j + 1]);
                if !pump.ended {
                    assert(events[0] == PumpEvent::Command(Some(BridgeCmd::End)));
                }
            }
        }
        assert(events[0] != PumpEvent::Wrote(false) && events[0] != PumpEvent::Deadline);
        if step is Stop {
            assert(events[0] == PumpEvent::Command(None) && pump.ended);
            assert forall|j: int| 0 <= j < rest.len() implies !is_write(#[trigger] rest[j]) by {
                assert(rest[j] == events[j + 1]);
                assert(events[0] == PumpEvent::Command(None));
            }
            lemma_nothing_queued(rest);
        } else {
            law_closing_drains_the_queue(next, rest);
        }
    }
}

/// What the task that reads the application's half does after a read of `read`
/// bytes, or a failed one.
#[derive(Debug, Clone, Copy, PartialEq, Eq, Structural)]
pub enum OutboundStep {
    /// Tell the worker to write this many bytes.
    Write(usize),
    /// Tell the worker that nothing more comes, and end.
    End,
}

/// What the task that reads the application's half does after a read.
pub fn after_outbound_read(read: Option<usize>) -> (step: OutboundStep)
    ensures
        step == (match read {
            Some(n) if n > 0 => OutboundStep::Write(n),
            _ => OutboundStep::End,
        }),
{
    match read {
        Some(n) => if n > 0 {
            OutboundStep::Write(n)
        } else {
            OutboundStep::End
        },
        None => OutboundStep::End,
    }
}

/// The bytes that are left to write once the first `pos` of `data` are.
pub open spec fn left_to_write(data: Seq<u8>, progress: WriteProgress) -> Seq<u8> {
    match progress {
        WriteProgress::At(pos) => data.skip(pos as int),
        _ => Seq::empty(),
    }
}

/// Every write moves the chunk forward by what the socket took, no byte is
/// skipped or written twice, and the chunk is done when no byte is left.
pub proof fn law_chunk_is_written_in_order(data: Seq<u8>, pos: int, written: int)
    requires
        0 <= pos < data.len() <= usize::MAX,
        0 < written <= data.len() - pos,
    ensures
        data.skip(pos) == data.subrange(pos, pos + written) + left_to_write(
            data,
            progress_at(data.len() as int, pos + written),
        ),
        progress_at(data.len() as int, pos + written) is Done <==> pos + written == data.len(),
{
    assert(data.skip(pos) =~= data.subrange(pos, pos + written) + left_to_write(
        data,
        progress_at(data.len() as int, pos + written),
    ));
}

/// A worker writes every chunk that it is handed, whole, whatever it knows of
/// its channel; forwards input whenever an open channel has no command waiting;
/// starts the time allowed for draining once, when the channel is closed or
/// dropped; and never goes back to an open channel.
pub proof fn law_the_worker_serves_both_directions(pump: Pump, data: Vec<u8>, event: PumpEvent)
    ensures
        pump.next(PumpEvent::Command(Some(BridgeCmd::Write(data)))) == (pump, PumpStep::Write(data)),
        !pump.closing && !pump.ended ==> pump.next(PumpEvent::Command(None)).1 is Forward,
        pump.next(event).1 is Linger <==> !pump.closing && pump.next(event).0.closing,
        pump.closing ==> pump.next(event).0.closing,
        pump.ended ==> pump.next(event).0.ended,
        pump.next(PumpEvent::Command(Some(BridgeCmd::Close))).0.closing,
        pump.next(PumpEvent::Forwarded(Input::Unwanted)).0.closing,
        pump.next(PumpEvent::Command(Some(BridgeCmd::End))).0.ended,
        pump.next(PumpEvent::Turn).1 is TakeCommand,
        pump.next(PumpEvent::Wrote(true)).1 is TakeCommand,
        pump.next(PumpEvent::Forwarded(Input::Forwarded)).1 is Poll,
        pump.closing ==> pump.next(PumpEvent::Deadline).1 is Stop,
        pump.next(PumpEvent::Wrote(false)).1 is Stop,
        pump.next(event).0.closing && !pump.closing ==> event == PumpEvent::Command(
            Some(BridgeCmd::Close),
        ) || event == PumpEvent::Forwarded(Input::Unwanted),
        pump.next(event).0.ended && !pump.ended ==> event == PumpEvent::Command(
            Some(BridgeCmd::End),
        ),
{
}

/// A chunk is done exactly where all its bytes are written, and otherwise goes
/// on where it stands.
pub proof fn law_writing_goes_on_where_it_stands(len: int, pos: int)
    requires
        0 <= pos <= len <= usize::MAX,
    ensures
        progress_at(len, pos) is Done <==> pos == len,
        pos < len ==> (progress_at(len, pos) matches WriteProgress::At(at) && at == pos),
        !(progress_at(len, pos) is Failed),
{
}

} // verus!
