//! What every central backend shares.
use super::types::CentralEvent;
use crate::error::{BlewError, BlewResult};
use crate::ready::ReadyEvent;
use crate::types::DeviceId;
use vstd::prelude::*;

verus! {

/// Marks the backends of this library; no other type can be one.
pub trait Sealed {

}

/// What an event of the central role means for someone who waits for the
/// adapter to be powered on.
pub fn ready_event(event: Option<&CentralEvent>) -> (ready: ReadyEvent)
    ensures
        ready == (match event {
            None => ReadyEvent::Closed,
            Some(CentralEvent::AdapterStateChanged { powered: true }) => ReadyEvent::PoweredOn,
            Some(_) => ReadyEvent::Other,
        }),
{
    match event {
        None => ReadyEvent::Closed,
        Some(CentralEvent::AdapterStateChanged { powered }) => if *powered {
            ReadyEvent::PoweredOn
        } else {
            ReadyEvent::Other
        },
        Some(_) => ReadyEvent::Other,
    }
}

/// What the caller of a dispatched operation is told: its answer, or, where
/// there will be none, that the device disconnected meanwhile.
pub fn operation_result<T>(device_id: &DeviceId, answer: Option<BlewResult<T>>) -> (result:
    BlewResult<T>)
    ensures
        match answer {
            Some(r) => result == r,
            None => result matches Err(e) && e@
                == crate::error::ErrorView::DisconnectedDuringOperation(device_id@),
        },
{
    match answer {
        Some(result) => result,
        None => Err(BlewError::DisconnectedDuringOperation(device_id.clone())),
    }
}

} // verus!
