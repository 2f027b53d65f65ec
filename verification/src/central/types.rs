//! Configuration, events and filters of the central role.
use crate::l2cap::types::L2capConfig;
use crate::time::seconds;
use crate::types::{BleDevice, DeviceId};
use crate::uuids::Uuid;
use std::time::Duration;
use vstd::prelude::*;

verus! {

/// Default deadline for a connect, in seconds. Covers ACL link-up, optional
/// SMP re-bond, service discovery, and the per-backend post-connect steps.
pub const DEFAULT_CONNECT_TIMEOUT_SECS: u64 = 15;

/// Default deadline for a connect.
pub fn default_connect_timeout() -> (timeout: Duration)
    ensures
        timeout == crate::time::secs_duration(DEFAULT_CONNECT_TIMEOUT_SECS),
{
    seconds(DEFAULT_CONNECT_TIMEOUT_SECS)
}

/// Configuration for initialising the central role.
#[derive(Debug, Clone)]
pub struct CentralConfig {
    /// On Apple platforms, the identifier under which the app's background
    /// central session is restored. Ignored on all other platforms.
    pub restore_identifier: Option<String>,
    /// Deadline applied to a connect. `None` disables the deadline.
    pub connect_timeout: Option<Duration>,
    /// Tuning applied to L2CAP channels opened by this central.
    pub l2cap: L2capConfig,
}

impl Default for CentralConfig {
    fn default() -> (config: Self)
        ensures
            config.restore_identifier is None,
            config.connect_timeout == Some(
                crate::time::secs_duration(DEFAULT_CONNECT_TIMEOUT_SECS),
            ),
            config.l2cap.is_default(),
    {
        CentralConfig {
            restore_identifier: None,
            connect_timeout: Some(default_connect_timeout()),
            l2cap: L2capConfig::default(),
        }
    }
}

/// Reason a peripheral disconnected. Used by [`CentralEvent::DeviceDisconnected`].
#[derive(Debug, Clone, Copy, PartialEq, Eq, Structural)]
pub enum DisconnectCause {
    /// We called `disconnect()` locally.
    LocalClose,
    /// Peer sent LL_TERMINATE.
    RemoteClose,
    /// Supervision timeout (link loss).
    LinkLoss,
    /// Bluetooth adapter powered off.
    AdapterOff,
    /// Android `onConnectionStateChange` status 133.
    Gatt133,
    /// Connection setup timed out.
    Timeout,
    /// Platform-specific code we don't map to any category above.
    Unknown(i32),
}

/// Events emitted by the central (scanner/client) role.
#[derive(Debug, Clone)]
pub enum CentralEvent {
    /// The local Bluetooth adapter was powered on or off.
    AdapterStateChanged { powered: bool },
    /// A new peripheral was discovered or its advertising data was updated.
    DeviceDiscovered(BleDevice),
    /// A connection to a peripheral was established.
    DeviceConnected { device_id: DeviceId },
    /// A peripheral disconnected.
    DeviceDisconnected { device_id: DeviceId, cause: DisconnectCause },
    /// A subscribed characteristic sent a notification or indication.
    CharacteristicNotification { device_id: DeviceId, char_uuid: Uuid, value: Vec<u8> },
}

/// Scan duty cycle / power trade-off.
#[derive(Debug, Clone, Copy, PartialEq, Eq, Structural)]
pub enum ScanMode {
    /// Highest duty cycle -- discovers devices fastest but uses the most power
    /// and radio bandwidth.
    LowLatency,
    /// Reduced duty cycle -- suitable for background scanning while active
    /// connections are in progress.
    LowPower,
}

impl Default for ScanMode {
    fn default() -> (mode: Self)
        ensures
            mode == ScanMode::LowLatency,
    {
        ScanMode::LowLatency
    }
}

/// Filter applied during scanning.
///
/// On Linux, cached devices that do not match `services` may be reported on
/// the first tick after a fresh scan start.
#[derive(Debug, Clone)]
pub struct ScanFilter {
    /// Only report peripherals advertising at least one of these service UUIDs.
    /// Empty means report all.
    pub services: Vec<Uuid>,
    pub mode: ScanMode,
}

impl Default for ScanFilter {
    fn default() -> (filter: Self)
        ensures
            filter.services@.len() == 0,
            filter.mode == ScanMode::LowLatency,
    {
        ScanFilter { services: Vec::new(), mode: ScanMode::LowLatency }
    }
}

/// How a characteristic write is delivered to the remote.
#[derive(Debug, Clone, Copy, PartialEq, Eq, Structural)]
pub enum WriteType {
    /// ATT Write Request -- the peripheral sends an acknowledgement.
    WithResponse,
    /// ATT Write Command -- no acknowledgement; lower latency.
    WithoutResponse,
}

} // verus!
