//! What can go wrong, and how it is put into words.
use crate::l2cap::types::L2capEncryption;
use crate::text::decimal_text;
use crate::types::DeviceId;
use crate::uuids::Uuid;
use vstd::prelude::*;

verus! {

pub type BlewResult<T> = Result<T, BlewError>;

/// An error of this library. Where a platform reported it, `source` holds
/// the platform's own words.
#[derive(Debug)]
#[non_exhaustive]
pub enum BlewError {
    AdapterNotFound,
    NotSupported,
    NotPowered,
    /// Required Android BLE permissions are not granted.
    PermissionDenied,
    /// The Android side was used before the JVM was registered.
    NotInitialized,
    DeviceNotFound(DeviceId),
    NotConnected(DeviceId),
    CharacteristicNotFound { device_id: DeviceId, char_uuid: Uuid },
    LocalCharacteristicNotFound { char_uuid: Uuid },
    AlreadyAdvertising,
    /// The platform cannot advertise the requested kind of local name.
    LocalNameUnsupported,
    Timeout,
    ConnectTimedOut(DeviceId),
    ConnectInFlight(DeviceId),
    /// Another operation is in flight on the device.
    GattBusy(DeviceId),
    ValueTooLarge { got: usize, max: usize },
    AlreadySubscribed { device_id: DeviceId, char_uuid: Uuid },
    StreamClosed,
    DisconnectedDuringOperation(DeviceId),
    DiscoveryFailed { device_id: DeviceId, reason: String },
    Gatt { device_id: DeviceId, source: String },
    Peripheral { source: String },
    Central { source: String },
    L2cap { source: String },
    /// The platform cannot give an L2CAP channel the requested security.
    L2capEncryptionUnsupported { requested: L2capEncryption, reason: String },
    Internal(String),
}

/// The mathematical value of a [`BlewError`].
pub enum ErrorView {
    AdapterNotFound,
    NotSupported,
    NotPowered,
    PermissionDenied,
    NotInitialized,
    DeviceNotFound(Seq<char>),
    NotConnected(Seq<char>),
    CharacteristicNotFound { device_id: Seq<char>, char_uuid: u128 },
    LocalCharacteristicNotFound { char_uuid: u128 },
    AlreadyAdvertising,
    LocalNameUnsupported,
    Timeout,
    ConnectTimedOut(Seq<char>),
    ConnectInFlight(Seq<char>),
    GattBusy(Seq<char>),
    ValueTooLarge { got: usize, max: usize },
    AlreadySubscribed { device_id: Seq<char>, char_uuid: u128 },
    StreamClosed,
    DisconnectedDuringOperation(Seq<char>),
    DiscoveryFailed { device_id: Seq<char>, reason: Seq<char> },
    Gatt { device_id: Seq<char>, source: Seq<char> },
    Peripheral { source: Seq<char> },
    Central { source: Seq<char> },
    L2cap { source: Seq<char> },
    L2capEncryptionUnsupported { requested: L2capEncryption, reason: Seq<char> },
    Internal(Seq<char>),
}

impl View for BlewError {
    type V = ErrorView;

    open spec fn view(&self) -> ErrorView {
        match self {
            BlewError::AdapterNotFound => ErrorView::AdapterNotFound,
            BlewError::NotSupported => ErrorView::NotSupported,
            BlewError::NotPowered => ErrorView::NotPowered,
            BlewError::PermissionDenied => ErrorView::PermissionDenied,
            BlewError::NotInitialized => ErrorView::NotInitialized,
            BlewError::DeviceNotFound(id) => ErrorView::DeviceNotFound(id@),
            BlewError::NotConnected(id) => ErrorView::NotConnected(id@),
            BlewError::CharacteristicNotFound { device_id, char_uuid } =>
                ErrorView::CharacteristicNotFound { device_id: device_id@, char_uuid: char_uuid@ },
            BlewError::LocalCharacteristicNotFound { char_uuid } =>
                ErrorView::LocalCharacteristicNotFound { char_uuid: char_uuid@ },
            BlewError::AlreadyAdvertising => ErrorView::AlreadyAdvertising,
            BlewError::LocalNameUnsupported => ErrorView::LocalNameUnsupported,
            BlewError::Timeout => ErrorView::Timeout,
            BlewError::ConnectTimedOut(id) => ErrorView::ConnectTimedOut(id@),
            BlewError::ConnectInFlight(id) => ErrorView::ConnectInFlight(id@),
            BlewError::GattBusy(id) => ErrorView::GattBusy(id@),
            BlewError::ValueTooLarge { got, max } => ErrorView::ValueTooLarge {
                got: *got,
                max: *max,
            },
            BlewError::AlreadySubscribed { device_id, char_uuid } => ErrorView::AlreadySubscribed {
                device_id: device_id@,
                char_uuid: char_uuid@,
            },
            BlewError::StreamClosed => ErrorView::StreamClosed,
            BlewError::DisconnectedDuringOperation(id) => ErrorView::DisconnectedDuringOperation(
                id@,
            ),
            BlewError::DiscoveryFailed { device_id, reason } => ErrorView::DiscoveryFailed {
                device_id: device_id@,
                reason: reason@,
            },
            BlewError::Gatt { device_id, source } => ErrorView::Gatt {
                device_id: device_id@,
                source: source@,
            },
            BlewError::Peripheral { source } => ErrorView::Peripheral { source: source@ },
            BlewError::Central { source } => ErrorView::Central { source: source@ },
            BlewError::L2cap { source } => ErrorView::L2cap { source: source@ },
            BlewError::L2capEncryptionUnsupported { requested, reason } =>
                ErrorView::L2capEncryptionUnsupported { requested: *requested, reason: reason@ },
            BlewError::Internal(text) => ErrorView::Internal(text@),
        }
    }
}

impl ErrorView {
    /// How the error is put into words.
    pub open spec fn words(self) -> Seq<char> {
        match self {
            ErrorView::AdapterNotFound => "Bluetooth adapter not found"@,
            ErrorView::NotSupported => "not supported on this platform or not yet implemented"@,
            ErrorView::NotPowered => "Bluetooth adapter is not powered on"@,
            ErrorView::PermissionDenied => "required Android BLE permissions are not granted"@,
            ErrorView::NotInitialized => "the JVM is not registered"@,
            ErrorView::DeviceNotFound(id) => "device not found: "@ + id,
            ErrorView::NotConnected(id) => "not connected to device: "@ + id,
            ErrorView::CharacteristicNotFound { device_id, char_uuid } => "characteristic "@
                + crate::uuids::uuid_text(char_uuid) + " not found on device "@ + device_id,
            ErrorView::LocalCharacteristicNotFound { char_uuid } => "local characteristic "@
                + crate::uuids::uuid_text(char_uuid) + " not found"@,
            ErrorView::AlreadyAdvertising => "already advertising"@,
            ErrorView::LocalNameUnsupported => "local name not supported on this platform"@,
            ErrorView::Timeout => "operation timed out"@,
            ErrorView::ConnectTimedOut(id) => "connect to "@ + id + " timed out"@,
            ErrorView::ConnectInFlight(id) => "connect to "@ + id + " already in flight"@,
            ErrorView::GattBusy(id) => "GATT busy on device "@ + id
                + " (another operation in flight)"@,
            ErrorView::ValueTooLarge { got, max } => "value too large for current MTU: got "@
                + crate::text::signed_decimal(got as int) + " bytes, max "@
                + crate::text::signed_decimal(max as int),
            ErrorView::AlreadySubscribed { device_id, char_uuid } =>
                "already subscribed to characteristic "@ + crate::uuids::uuid_text(char_uuid)
                    + " on "@ + device_id,
            ErrorView::StreamClosed => "event stream closed unexpectedly"@,
            ErrorView::DisconnectedDuringOperation(id) => "device "@ + id
                + " disconnected during operation"@,
            ErrorView::DiscoveryFailed { device_id, reason } => "GATT discovery failed on "@
                + device_id + ": "@ + reason,
            ErrorView::Gatt { device_id, source } => "GATT error on device "@ + device_id + ": "@
                + source,
            ErrorView::Peripheral { source } => "peripheral error: "@ + source,
            ErrorView::Central { source } => "central error: "@ + source,
            ErrorView::L2cap { source } => "L2CAP error: "@ + source,
            ErrorView::L2capEncryptionUnsupported { requested, reason } =>
                "L2CAP encryption not supported: "@ + reason,
            ErrorView::Internal(text) => "internal error: "@ + text,
        }
    }
}

impl BlewError {
    /// The error in words.
    pub fn message(&self) -> (message: String)
        ensures
            message@ == self@.words(),
    {
        match self {
            BlewError::AdapterNotFound => "Bluetooth adapter not found".to_owned(),
            BlewError::NotSupported =>
                "not supported on this platform or not yet implemented".to_owned(),
            BlewError::NotPowered => "Bluetooth adapter is not powered on".to_owned(),
            BlewError::PermissionDenied =>
                "required Android BLE permissions are not granted".to_owned(),
            BlewError::NotInitialized => "the JVM is not registered".to_owned(),
            BlewError::DeviceNotFound(id) => "device not found: ".to_owned().concat(id.as_str()),
            BlewError::NotConnected(id) => "not connected to device: ".to_owned().concat(
                id.as_str(),
            ),
            BlewError::CharacteristicNotFound { device_id, char_uuid } =>
                "characteristic ".to_owned().concat(char_uuid.text().as_str()).concat(
                " not found on device ",
            ).concat(device_id.as_str()),
            BlewError::LocalCharacteristicNotFound { char_uuid } =>
                "local characteristic ".to_owned().concat(char_uuid.text().as_str()).concat(
                " not found",
            ),
            BlewError::AlreadyAdvertising => "already advertising".to_owned(),
            BlewError::LocalNameUnsupported =>
                "local name not supported on this platform".to_owned(),
            BlewError::Timeout => "operation timed out".to_owned(),
            BlewError::ConnectTimedOut(id) => "connect to ".to_owned().concat(id.as_str()).concat(
                " timed out",
            ),
            BlewError::ConnectInFlight(id) => "connect to ".to_owned().concat(id.as_str()).concat(
                " already in flight",
            ),
            BlewError::GattBusy(id) => "GATT busy on device ".to_owned().concat(
                id.as_str(),
            ).concat(" (another operation in flight)"),
            BlewError::ValueTooLarge { got, max } =>
                "value too large for current MTU: got ".to_owned().concat(
                decimal_text(*got as i128).as_str(),
            ).concat(" bytes, max ").concat(decimal_text(*max as i128).as_str()),
            BlewError::AlreadySubscribed { device_id, char_uuid } =>
                "already subscribed to characteristic ".to_owned().concat(
                char_uuid.text().as_str(),
            ).concat(" on ").concat(device_id.as_str()),
            BlewError::StreamClosed => "event stream closed unexpectedly".to_owned(),
            BlewError::DisconnectedDuringOperation(id) => "device ".to_owned().concat(
                id.as_str(),
            ).concat(" disconnected during operation"),
            BlewError::DiscoveryFailed { device_id, reason } =>
                "GATT discovery failed on ".to_owned().concat(device_id.as_str()).concat(
                ": ",
            ).concat(reason.as_str()),
            BlewError::Gatt { device_id, source } => "GATT error on device ".to_owned().concat(
                device_id.as_str(),
            ).concat(": ").concat(source.as_str()),
            BlewError::Peripheral { source } => "peripheral error: ".to_owned().concat(
                source.as_str(),
            ),
            BlewError::Central { source } => "central error: ".to_owned().concat(source.as_str()),
            BlewError::L2cap { source } => "L2CAP error: ".to_owned().concat(source.as_str()),
            BlewError::L2capEncryptionUnsupported { requested: _, reason } =>
                "L2CAP encryption not supported: ".to_owned().concat(reason.as_str()),
            BlewError::Internal(text) => "internal error: ".to_owned().concat(text.as_str()),
        }
    }
}

} // verus!
