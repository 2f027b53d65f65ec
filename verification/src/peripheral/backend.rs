//! What every peripheral backend shares.
use super::types::PeripheralStateEvent;
use crate::ready::ReadyEvent;
use vstd::prelude::*;

verus! {

/// Marks the backends of this library; no other type can be one.
pub trait Sealed {

}

/// What an event of the peripheral role means for someone who waits for the
/// adapter to be powered on.
pub fn ready_event(event: Option<&PeripheralStateEvent>) -> (ready: ReadyEvent)
    ensures
        ready == (match event {
            None => ReadyEvent::Closed,
            Some(PeripheralStateEvent::AdapterStateChanged { powered: true }) =>
                ReadyEvent::PoweredOn,
            Some(_) => ReadyEvent::Other,
        }),
{
    match event {
        None => ReadyEvent::Closed,
        Some(PeripheralStateEvent::AdapterStateChanged { powered }) => if *powered {
            ReadyEvent::PoweredOn
        } else {
            ReadyEvent::Other
        },
        Some(_) => ReadyEvent::Other,
    }
}

} // verus!
