//! Identifiers and snapshots of remote devices.
use crate::text::same_text;
use crate::util::key_map::KeyMap;
use crate::uuids::Uuid;
use vstd::prelude::*;

verus! {

/// Platform-specific device identifier.
/// On Apple platforms this is a UUID string; on Linux/Android it is a hex MAC address.
#[derive(Debug, PartialEq, Eq, Hash)]
pub struct DeviceId(pub(crate) String);

impl View for DeviceId {
    type V = Seq<char>;

    closed spec fn view(&self) -> Seq<char> {
        self.0@
    }
}

impl Clone for DeviceId {
    fn clone(&self) -> (copy: Self)
        ensures
            copy == *self,
    {
        DeviceId(self.0.clone())
    }
}

impl DeviceId {
    /// The identifier as text.
    #[must_use]
    pub fn as_str(&self) -> (text: &str)
        ensures
            text@ == self@,
    {
        self.0.as_str()
    }

    /// The identifier as it is shown to users.
    pub fn text(&self) -> (text: String)
        ensures
            text@ == self@,
    {
        self.0.clone()
    }

    /// Whether two identifiers name the same device.
    pub fn same(&self, other: &DeviceId) -> (same: bool)
        ensures
            same == (self@ == other@),
    {
        same_text(self.as_str(), other.as_str())
    }
}

impl From<String> for DeviceId {
    fn from(s: String) -> (id: Self)
        ensures
            id@ == s@,
    {
        DeviceId(s)
    }
}

impl vstd::std_specs::convert::FromSpecImpl<String> for DeviceId {
    open spec fn obeys_from_spec() -> bool {
        false
    }

    open spec fn from_spec(s: String) -> Self {
        arbitrary()
    }
}

impl<'a> From<&'a str> for DeviceId {
    fn from(s: &'a str) -> (id: Self)
        ensures
            id@ == s@,
    {
        DeviceId(s.to_owned())
    }
}

impl<'a> vstd::std_specs::convert::FromSpecImpl<&'a str> for DeviceId {
    open spec fn obeys_from_spec() -> bool {
        false
    }

    open spec fn from_spec(s: &'a str) -> Self {
        arbitrary()
    }
}

/// A discovered BLE device snapshot.
#[derive(Debug, Clone)]
pub struct BleDevice {
    pub id: DeviceId,
    pub name: Option<String>,
    pub rssi: Option<i16>,
    pub services: Vec<Uuid>,
    /// Manufacturer-specific data, by company identifier.
    pub manufacturer_data: KeyMap<u16, Vec<u8>>,
    /// Service data, by service UUID.
    pub service_data: KeyMap<Uuid, Vec<u8>>,
}

} // verus!
