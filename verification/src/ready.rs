//! Waiting for the adapter to be powered on.
use crate::error::{BlewError, BlewResult};
use vstd::prelude::*;

verus! {

/// What happens while someone waits for the adapter to be powered on.
#[derive(Debug, Clone, Copy, PartialEq, Eq, Structural)]
pub enum ReadyEvent {
    /// The adapter was asked whether it is on; `None` where it did not say.
    Asked(Option<bool>),
    /// The adapter was powered on.
    PoweredOn,
    /// Anything else was announced.
    Other,
    /// No more will be announced.
    Closed,
    /// The time allowed for the wait passed.
    TimedOut,
}

/// What is done then.
pub enum ReadyStep {
    /// Wait for the next event.
    Wait,
    /// The wait is over, with this result.
    Done(BlewResult<()>),
}

/// What is done while someone waits for the adapter to be powered on: the wait
/// succeeds once it is, and fails when the time allowed has passed or no more
/// will be announced.
pub fn wait_ready(event: ReadyEvent) -> (step: ReadyStep)
    ensures
        match event {
            ReadyEvent::Asked(Some(true)) => step == ReadyStep::Done(Ok(())),
            ReadyEvent::PoweredOn => step == ReadyStep::Done(Ok(())),
            ReadyEvent::Closed => step matches ReadyStep::Done(Err(e)) && e@
                == crate::error::ErrorView::StreamClosed,
            ReadyEvent::TimedOut => step matches ReadyStep::Done(Err(e)) && e@
                == crate::error::ErrorView::Timeout,
            _ => step is Wait,
        },
{
    match event {
        ReadyEvent::Asked(Some(true)) => ReadyStep::Done(Ok(())),
        ReadyEvent::Asked(_) => ReadyStep::Wait,
        ReadyEvent::PoweredOn => ReadyStep::Done(Ok(())),
        ReadyEvent::Other => ReadyStep::Wait,
        ReadyEvent::Closed => ReadyStep::Done(Err(BlewError::StreamClosed)),
        ReadyEvent::TimedOut => ReadyStep::Done(Err(BlewError::Timeout)),
    }
}

} // verus!
