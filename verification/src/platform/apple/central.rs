//! The central role on Apple platforms: the operations in flight, and what the
//! delegate callbacks mean.
use crate::bits::{low_i16, low_u16_of};
use crate::central::types::{CentralEvent, DisconnectCause, ScanFilter};
use crate::error::{BlewError, BlewResult};
use crate::gatt::props::{AttributePermissions, CharacteristicProperties};
use crate::gatt::service::{GattCharacteristic, GattService, ServiceView};
use crate::l2cap::types::{L2capConfig, L2capEncryption};
use crate::time::seconds;
use crate::types::{BleDevice, DeviceId};
use crate::util::key_map::KeyMap;
use crate::util::reply::{reply_channel, Outgoing, Replier, Reply, Waited};
use crate::util::request_map::{take_reply, KeyedRequestMap};
use crate::uuids::Uuid;
use std::time::Duration;
use vstd::prelude::*;

verus! {

/// How long a write without response waits for CoreBluetooth to have room for
/// it, in seconds. Normally one connection event; this bound is only a backstop
/// for a readiness callback that never comes.
pub const WRITE_READY_SECS: u64 = 5;

/// How long a write without response waits for room.
pub fn write_ready_timeout() -> (timeout: Duration)
    ensures
        timeout == crate::time::secs_duration(WRITE_READY_SECS),
{
    seconds(WRITE_READY_SECS)
}

/// How long a role waits for the adapter to power up, in seconds.
pub const POWER_UP_SECS: u64 = 15;

/// How long a role waits for the adapter to power up.
pub fn power_up_timeout() -> (timeout: Duration)
    ensures
        timeout == crate::time::secs_duration(POWER_UP_SECS),
{
    seconds(POWER_UP_SECS)
}

/// The characteristic properties that CoreBluetooth and this library share.
#[derive(Debug, Clone, Copy, PartialEq, Eq, Structural)]
pub struct CbProperties {
    pub broadcast: bool,
    pub read: bool,
    pub write_without_response: bool,
    pub write: bool,
    pub notify: bool,
    pub indicate: bool,
}

/// The properties that both `ours` and `theirs` can express agree.
pub open spec fn same_properties(ours: CharacteristicProperties, theirs: CbProperties) -> bool {
    &&& ours.has(CharacteristicProperties::BROADCAST) == theirs.broadcast
    &&& ours.has(CharacteristicProperties::READ) == theirs.read
    &&& ours.has(CharacteristicProperties::WRITE_WITHOUT_RESPONSE)
        == theirs.write_without_response
    &&& ours.has(CharacteristicProperties::WRITE) == theirs.write
    &&& ours.has(CharacteristicProperties::NOTIFY) == theirs.notify
    &&& ours.has(CharacteristicProperties::INDICATE) == theirs.indicate
}

/// Convert CoreBluetooth's properties to [`CharacteristicProperties`].
pub fn cb_props_to_ours(props: CbProperties) -> (out: CharacteristicProperties)
    ensures
        same_properties(out, props),
        out@ & 0xffc0 == 0,
{
    let mut out = CharacteristicProperties::empty();
    if props.broadcast {
        out.insert(CharacteristicProperties::BROADCAST);
    }
    if props.read {
        out.insert(CharacteristicProperties::READ);
    }
    if props.write_without_response {
        out.insert(CharacteristicProperties::WRITE_WITHOUT_RESPONSE);
    }
    if props.write {
        out.insert(CharacteristicProperties::WRITE);
    }
    if props.notify {
        out.insert(CharacteristicProperties::NOTIFY);
    }
    if props.indicate {
        out.insert(CharacteristicProperties::INDICATE);
    }
    proof {
        let p0 = props.broadcast;
        let p1 = props.read;
        let p2 = props.write_without_response;
        let p3 = props.write;
        let p4 = props.notify;
        let p5 = props.indicate;
        let o0: u16 = if p0 { 0u16 | (0x01u16 & 0xffu16) } else { 0u16 };
        let o1: u16 = if p1 { o0 | (0x02u16 & 0xffu16) } else { o0 };
        let o2: u16 = if p2 { o1 | (0x04u16 & 0xffu16) } else { o1 };
        let o3: u16 = if p3 { o2 | (0x08u16 & 0xffu16) } else { o2 };
        let o4: u16 = if p4 { o3 | (0x10u16 & 0xffu16) } else { o3 };
        let o5: u16 = if p5 { o4 | (0x20u16 & 0xffu16) } else { o4 };
        assert(out@ == o5);
        assert((o5 & 0x01u16 == 0x01u16) == p0 && (o5 & 0x02u16 == 0x02u16) == p1 && (o5 & 0x04u16
            == 0x04u16) == p2 && (o5 & 0x08u16 == 0x08u16) == p3 && (o5 & 0x10u16 == 0x10u16) == p4
            && (o5 & 0x20u16 == 0x20u16) == p5 && o5 & 0xffc0u16 == 0) by (bit_vector)
            requires
                o0 == (if p0 { 0u16 | (0x01u16 & 0xffu16) } else { 0u16 }),
                o1 == (if p1 { o0 | (0x02u16 & 0xffu16) } else { o0 }),
                o2 == (if p2 { o1 | (0x04u16 & 0xffu16) } else { o1 }),
                o3 == (if p3 { o2 | (0x08u16 & 0xffu16) } else { o2 }),
                o4 == (if p4 { o3 | (0x10u16 & 0xffu16) } else { o3 }),
                o5 == (if p5 { o4 | (0x20u16 & 0xffu16) } else { o4 }),
        ;
    }
    out
}

/// Why CoreBluetooth says that a link ended.
#[derive(Debug, Clone, Copy, PartialEq, Eq, Structural)]
pub enum LinkError {
    ConnectionTimeout,
    PeripheralDisconnected,
    ConnectionFailed,
    /// Another error, or one of another domain, with its code.
    Other(i64),
}

/// Why a peripheral disconnected: the adapter went off, we closed the link, or
/// what CoreBluetooth reports.
pub fn disconnect_cause(powered: bool, error: Option<LinkError>) -> (cause: DisconnectCause)
    ensures
        cause == (if !powered {
            DisconnectCause::AdapterOff
        } else {
            match error {
                None => DisconnectCause::LocalClose,
                Some(LinkError::ConnectionTimeout) => DisconnectCause::Timeout,
                Some(LinkError::PeripheralDisconnected) => DisconnectCause::RemoteClose,
                Some(LinkError::ConnectionFailed) => DisconnectCause::LinkLoss,
                Some(LinkError::Other(code)) => DisconnectCause::Unknown(
                    if i32::MIN <= code <= i32::MAX {
                        code as i32
                    } else {
                        i32::MIN
                    },
                ),
            }
        }),
{
    if !powered {
        return DisconnectCause::AdapterOff;
    }
    match error {
        None => DisconnectCause::LocalClose,
        Some(LinkError::ConnectionTimeout) => DisconnectCause::Timeout,
        Some(LinkError::PeripheralDisconnected) => DisconnectCause::RemoteClose,
        Some(LinkError::ConnectionFailed) => DisconnectCause::LinkLoss,
        Some(LinkError::Other(code)) => {
            let fits: bool = -0x8000_0000 <= code && code <= 0x7fff_ffff;
            DisconnectCause::Unknown(
                if fits {
                    code as i32
                } else {
                    i32::MIN
                },
            )
        },
    }
}

/// What a manufacturer-data field says: a little-endian company identifier of
/// two bytes, then the vendor's payload. Anything shorter says nothing.
pub open spec fn vendor_data(field: Seq<u8>) -> Option<(u16, Seq<u8>)> {
    if field.len() < 2 {
        None
    } else {
        Some(((field[0] + 256 * field[1]) as u16, field.skip(2)))
    }
}

/// Split a manufacturer-data field into company identifier and payload.
pub fn split_manufacturer_data(field: &Vec<u8>) -> (split: Option<(u16, Vec<u8>)>)
    ensures
        match split {
            Some((company, payload)) => vendor_data(field@) == Some((company, payload@)),
            None => vendor_data(field@) is None,
        },
{
    if field.len() < 2 {
        return None;
    }
    let company: u16 = field[0] as u16 + 256 * (field[1] as u16);
    let mut payload: Vec<u8> = Vec::new();
    let mut i: usize = 2;
    while i < field.len()
        invariant
            2 <= i <= field@.len(),
            payload@ == field@.subrange(2, i as int),
        decreases field@.len() - i,
    {
        payload.push(field[i]);
        i += 1;
        assert(payload@ =~= field@.subrange(2, i as int));
    }
    assert(payload@ =~= field@.skip(2));
    Some((company, payload))
}

/// The UUIDs among `texts`; what is none is skipped.
pub open spec fn uuids_among(texts: Seq<String>) -> Seq<u128>
    decreases texts.len(),
{
    if texts.len() == 0 {
        Seq::empty()
    } else {
        let rest = uuids_among(texts.drop_last());
        match crate::uuids::parsed_uuid(texts.last()@) {
            Some(value) => rest.push(value),
            None => rest,
        }
    }
}

/// The UUIDs among `texts`; what is none is skipped.
pub fn parse_uuids(texts: &Vec<String>) -> (uuids: Vec<Uuid>)
    ensures
        crate::uuids::values(uuids@) == uuids_among(texts@),
{
    let mut uuids: Vec<Uuid> = Vec::new();
    let mut i: usize = 0;
    proof {
        assert(texts@.take(0) =~= Seq::empty());
        assert(crate::uuids::values(uuids@) =~= Seq::empty());
    }
    while i < texts.len()
        invariant
            i <= texts@.len(),
            crate::uuids::values(uuids@) == uuids_among(texts@.take(i as int)),
        decreases texts@.len() - i,
    {
        proof {
            assert(texts@.take(i + 1).drop_last() =~= texts@.take(i as int));
        }
        let ghost before = uuids@;
        match Uuid::parse_str(texts[i].as_str()) {
            Some(uuid) => {
                uuids.push(uuid);
                assert(crate::uuids::values(uuids@) =~= crate::uuids::values(before).push(uuid@));
            },
            None => {},
        }
        i += 1;
    }
    assert(texts@.take(i as int) =~= texts@);
    uuids
}

/// Service data by UUID; what is no UUID is skipped, and of two entries with
/// the same UUID the later one counts.
pub open spec fn service_data_of(entries: Seq<(String, Vec<u8>)>) -> Map<u128, Vec<u8>>
    decreases entries.len(),
{
    if entries.len() == 0 {
        Map::empty()
    } else {
        let rest = service_data_of(entries.drop_last());
        match crate::uuids::parsed_uuid(entries.last().0@) {
            Some(value) => rest.insert(value, entries.last().1),
            None => rest,
        }
    }
}

/// Service data by UUID.
fn collect_service_data(entries: Vec<(String, Vec<u8>)>) -> (data: KeyMap<Uuid, Vec<u8>>)
    ensures
        data@ == service_data_of(entries@),
{
    let ghost all = entries@;
    let mut entries = entries;
    let mut data: KeyMap<Uuid, Vec<u8>> = KeyMap::new();
    let ghost mut done: int = 0;
    proof {
        assert(all.take(0) =~= Seq::empty());
    }
    while entries.len() > 0
        invariant
            0 <= done <= all.len(),
            entries@ == all.skip(done),
            data@ == service_data_of(all.take(done)),
        decreases entries.len(),
    {
        let (text, value) = entries.remove(0);
        proof {
            assert((text, value) == all[done]);
            assert(all.take(done + 1).drop_last() =~= all.take(done));
        }
        match Uuid::parse_str(text.as_str()) {
            Some(uuid) => {
                data.insert(uuid, value);
            },
            None => {},
        }
        proof {
            done = done + 1;
            assert(entries@ =~= all.skip(done));
        }
    }
    assert(all.take(done) =~= all);
    data
}

/// An advertisement, as CoreBluetooth reports it.
pub struct Advertisement {
    /// The name in the advertisement.
    pub local_name: Option<String>,
    /// The name that the peripheral had when it was last connected.
    pub cached_name: Option<String>,
    /// The advertised service UUIDs, as text.
    pub service_uuids: Vec<String>,
    pub manufacturer_data: Option<Vec<u8>>,
    /// Service data, by service UUID as text.
    pub service_data: Vec<(String, Vec<u8>)>,
    pub rssi: i64,
}

/// `device` is what `advertisement` of `id` says. The advertised name counts
/// before the cached one, which can be stale.
pub open spec fn describes(
    device: BleDevice,
    id: Seq<char>,
    advertisement: Advertisement,
) -> bool {
    &&& device.id@ == id
    &&& device.name == (match advertisement.local_name {
        Some(name) => Some(name),
        None => advertisement.cached_name,
    })
    &&& device.rssi matches Some(rssi) && rssi == crate::bits::low16_signed(
        advertisement.rssi as int,
    )
    &&& crate::uuids::values(device.services@) == uuids_among(advertisement.service_uuids@)
    &&& device.service_data@ == service_data_of(advertisement.service_data@)
    &&& match advertisement.manufacturer_data {
        Some(field) => match vendor_data(field@) {
            Some((company, payload)) => {
                &&& device.manufacturer_data@.dom() == set![company]
                &&& device.manufacturer_data@[company]@ == payload
            },
            None => device.manufacturer_data@ == Map::<u16, Vec<u8>>::empty(),
        },
        None => device.manufacturer_data@ == Map::<u16, Vec<u8>>::empty(),
    }
}

/// The device that an advertisement describes.
pub fn advertised_device(id: DeviceId, advertisement: Advertisement) -> (device: BleDevice)
    ensures
        describes(device, id@, advertisement),
{
    let Advertisement {
        local_name,
        cached_name,
        service_uuids,
        manufacturer_data,
        service_data,
        rssi,
    } = advertisement;
    let name = match local_name {
        Some(name) => Some(name),
        None => cached_name,
    };
    let mut vendor: KeyMap<u16, Vec<u8>> = KeyMap::new();
    match &manufacturer_data {
        Some(field) => match split_manufacturer_data(field) {
            Some((company, payload)) => {
                vendor.insert(company, payload);
                assert(vendor@.dom() =~= set![company]);
            },
            None => {},
        },
        None => {},
    }
    BleDevice {
        id,
        name,
        rssi: Some(low_i16(rssi)),
        services: parse_uuids(&service_uuids),
        manufacturer_data: vendor,
        service_data: collect_service_data(service_data),
    }
}

/// The device of a peripheral that the system restored. Restoration hands back
/// peripherals, not advertisements, so there is nothing but its name.
pub fn restored_device(id: DeviceId, name: Option<String>) -> (device: BleDevice)
    ensures
        device.id == id,
        device.name == name,
        device.rssi is None,
        device.services@.len() == 0,
        device.manufacturer_data@ == Map::<u16, Vec<u8>>::empty(),
        device.service_data@ == Map::<u128, Vec<u8>>::empty(),
{
    BleDevice {
        id,
        name,
        rssi: None,
        services: Vec::new(),
        manufacturer_data: KeyMap::new(),
        service_data: KeyMap::new(),
    }
}

/// Where the characteristic `target` stands: in which service, and where in it.
/// A service is `None` where its characteristics have not been discovered.
pub fn find_characteristic(services: &Vec<Option<Vec<Uuid>>>, target: Uuid) -> (found: Option<
    (usize, usize),
>)
    ensures
        match found {
            Some((s, c)) => {
                &&& s < services@.len()
                &&& services@[s as int] matches Some(chars)
                &&& c < chars@.len()
                &&& chars@[c as int]@ == target@
                &&& forall|j: int| 0 <= j < c ==> (#[trigger] chars@[j])@ != target@
                &&& forall|i: int| 0 <= i < s ==> !lists_uuid(#[trigger] services@[i], target@)
            },
            None => forall|i: int|
                0 <= i < services@.len() ==> !lists_uuid(#[trigger] services@[i], target@),
        },
{
    let mut s: usize = 0;
    while s < services.len()
        invariant
            s <= services@.len(),
            forall|i: int| 0 <= i < s ==> !lists_uuid(#[trigger] services@[i], target@),
        decreases services@.len() - s,
    {
        match &services[s] {
            Some(chars) => {
                let mut c: usize = 0;
                while c < chars.len()
                    invariant
                        c <= chars@.len(),
                        s < services@.len(),
                        services@[s as int] == Some(*chars),
                        forall|i: int| 0 <= i < s ==> !lists_uuid(#[trigger] services@[i], target@),
                        forall|j: int| 0 <= j < c ==> (#[trigger] chars@[j])@ != target@,
                    decreases chars@.len() - c,
                {
                    if chars[c].as_u128() == target.as_u128() {
                        return Some((s, c));
                    }
                    c += 1;
                }
            },
            None => {},
        }
        s += 1;
    }
    None
}

/// `service` has the characteristic `target`.
pub open spec fn lists_uuid(service: Option<Vec<Uuid>>, target: u128) -> bool {
    service matches Some(chars) && exists|j: int|
        0 <= j < chars@.len() && (#[trigger] chars@[j])@ == target
}

/// The state of the adapter.
#[derive(Debug, Clone, Copy, PartialEq, Eq, Structural)]
pub enum AdapterState {
    PoweredOn,
    Unsupported,
    Unauthorized,
    /// Unknown, resetting or powered off.
    NotYet,
}

/// What happens while a role waits for the adapter to power up.
pub enum PowerEvent {
    /// The state changed; `powered` is what was announced.
    Changed { powered: bool, state: AdapterState },
    /// No more changes will be announced.
    Closed { state: AdapterState },
    /// The time allowed for the wait passed.
    TimedOut { state: AdapterState },
}

/// What the role does then.
pub enum PowerStep {
    Ready,
    Wait,
    Fail(BlewError),
}

/// What the central does while it waits for the adapter to power up.
pub fn central_power_step(event: PowerEvent) -> (step: PowerStep)
    ensures
        match event {
            PowerEvent::Closed { .. } => step is Ready,
            PowerEvent::Changed { powered, state } => {
                if powered {
                    step is Ready
                } else if state is Unsupported || state is Unauthorized {
                    step matches PowerStep::Fail(e) && e@
                        == crate::error::ErrorView::AdapterNotFound
                } else {
                    step is Wait
                }
            },
            PowerEvent::TimedOut { state } => {
                if state is PoweredOn {
                    step is Ready
                } else {
                    step matches PowerStep::Fail(e) && e@ == crate::error::ErrorView::NotPowered
                }
            },
        },
{
    match event {
        PowerEvent::Closed { state: _ } => PowerStep::Ready,
        PowerEvent::Changed { powered, state } => if powered {
            PowerStep::Ready
        } else {
            match state {
                AdapterState::Unsupported => PowerStep::Fail(BlewError::AdapterNotFound),
                AdapterState::Unauthorized => PowerStep::Fail(BlewError::AdapterNotFound),
                _ => PowerStep::Wait,
            }
        },
        PowerEvent::TimedOut { state } => match state {
            AdapterState::PoweredOn => PowerStep::Ready,
            _ => PowerStep::Fail(BlewError::NotPowered),
        },
    }
}

/// The services that a scan is filtered by; `None` where every device is
/// wanted.
pub fn scan_services(filter: &ScanFilter) -> (services: Option<&Vec<Uuid>>)
    ensures
        services == (if filter.services@.len() == 0 {
            None
        } else {
            Some(&filter.services)
        }),
{
    if filter.services.len() == 0 {
        None
    } else {
        Some(&filter.services)
    }
}

/// What is known where a write without response is tried.
pub struct WriteAttempt {
    /// The peripheral is known.
    pub connected: bool,
    /// It has the characteristic.
    pub found: bool,
    /// The largest value that it takes.
    pub max: usize,
    /// CoreBluetooth has room for a write.
    pub can_send: bool,
}

/// Whether a write of `len` bytes may be made: the peripheral is known, has the
/// characteristic, and takes values of that size. CoreBluetooth aborts the
/// process where a value is too large.
pub fn check_write(
    device_id: &DeviceId,
    char_uuid: Uuid,
    connected: bool,
    found: bool,
    len: usize,
    max: usize,
) -> (result: BlewResult<()>)
    ensures
        result is Ok <==> connected && found && len <= max,
        result matches Err(e) ==> e@ == (if !connected {
            crate::error::ErrorView::NotConnected(device_id@)
        } else if !found {
            crate::error::ErrorView::CharacteristicNotFound {
                device_id: device_id@,
                char_uuid: char_uuid@,
            }
        } else {
            crate::error::ErrorView::ValueTooLarge { got: len, max }
        }),
{
    if !connected {
        return Err(BlewError::NotConnected(device_id.clone()));
    }
    if !found {
        return Err(
            BlewError::CharacteristicNotFound { device_id: device_id.clone(), char_uuid },
        );
    }
    if len > max {
        return Err(BlewError::ValueTooLarge { got: len, max });
    }
    Ok(())
}

/// One attempt at a write without response: `false` when CoreBluetooth has no
/// room yet, `true` when the value is to be written now.
pub fn try_write_without_response(
    device_id: &DeviceId,
    char_uuid: Uuid,
    len: usize,
    attempt: &WriteAttempt,
) -> (send: BlewResult<bool>)
    ensures
        match send {
            Ok(now) => attempt.connected && attempt.found && len <= attempt.max && now
                == attempt.can_send,
            Err(e) => {
                &&& !(attempt.connected && attempt.found && len <= attempt.max)
                &&& e@ == (if !attempt.connected {
                    crate::error::ErrorView::NotConnected(device_id@)
                } else if !attempt.found {
                    crate::error::ErrorView::CharacteristicNotFound {
                        device_id: device_id@,
                        char_uuid: char_uuid@,
                    }
                } else {
                    crate::error::ErrorView::ValueTooLarge { got: len, max: attempt.max }
                })
            },
        },
{
    match check_write(device_id, char_uuid, attempt.connected, attempt.found, len, attempt.max) {
        Ok(_) => Ok(attempt.can_send),
        Err(e) => Err(e),
    }
}

/// What happens while an attempt is repeated until it succeeds.
pub enum RetryEvent {
    /// An attempt was made, with this outcome.
    Attempted(BlewResult<bool>),
    /// Room was announced since before the last attempt.
    Ready,
    /// The time allowed passed without that.
    TimedOut,
}

/// What to do then.
pub enum RetryStep {
    /// Make an attempt. The wait for the next announcement begins before it, so
    /// that one landing between the attempt and the wait isn't missed.
    Attempt,
    /// Wait for room to be announced.
    Wait,
    /// It is over: whether an attempt succeeded.
    Done(BlewResult<bool>),
}

/// What to do while an attempt is repeated until it succeeds, again each time
/// room is announced. An error ends it, and so does the passing of the time
/// allowed.
pub fn retry_when_ready(event: RetryEvent) -> (step: RetryStep)
    ensures
        match event {
            RetryEvent::Attempted(Ok(true)) => step == RetryStep::Done(Ok(true)),
            RetryEvent::Attempted(Ok(false)) => step is Wait,
            RetryEvent::Attempted(Err(e)) => step == RetryStep::Done(Err(e)),
            RetryEvent::Ready => step is Attempt,
            RetryEvent::TimedOut => step == RetryStep::Done(Ok(false)),
        },
{
    match event {
        RetryEvent::Attempted(Ok(true)) => RetryStep::Done(Ok(true)),
        RetryEvent::Attempted(Ok(false)) => RetryStep::Wait,
        RetryEvent::Attempted(Err(e)) => RetryStep::Done(Err(e)),
        RetryEvent::Ready => RetryStep::Attempt,
        RetryEvent::TimedOut => RetryStep::Done(Ok(false)),
    }
}

/// What the caller of a write without response is told, given whether it was
/// sent. Sent without room, its delivery would be best-effort and its loss
/// unreported, so a write that never found room fails.
pub fn write_without_response(device_id: &DeviceId, sent: BlewResult<bool>) -> (result: BlewResult<
    (),
>)
    ensures
        match sent {
            Ok(true) => result is Ok,
            Ok(false) => result matches Err(e) && e@ == (crate::error::ErrorView::Gatt {
                device_id: device_id@,
                source: "CoreBluetooth never became ready to send a write without response"@,
            }),
            Err(e) => result == Err::<(), BlewError>(e),
        },
{
    match sent {
        Ok(true) => Ok(()),
        Ok(false) => Err(
            BlewError::Gatt {
                device_id: device_id.clone(),
                source:
                    "CoreBluetooth never became ready to send a write without response".to_owned(),
            },
        ),
        Err(e) => Err(e),
    }
}

/// The ATT MTU of a device, from the largest value that a write without
/// response takes, which leaves out the three bytes of the ATT header.
pub fn mtu(max_write: Option<usize>) -> (mtu: u16)
    ensures
        mtu == (match max_write {
            None => 23,
            Some(max) => if crate::bits::low16(max as int) + 3 > u16::MAX {
                u16::MAX as int
            } else {
                crate::bits::low16(max as int) + 3
            },
        }),
{
    match max_write {
        None => 23,
        Some(max) => {
            let payload: u16 = low_u16_of(max as u64);
            if payload > 0xfffc {
                0xffff
            } else {
                payload + 3
            }
        },
    }
}

/// What opening a channel fails with where link security is asked for.
pub open spec fn open_encryption_error(requested: L2capEncryption) -> crate::error::ErrorView {
    crate::error::ErrorView::L2capEncryptionUnsupported {
        requested,
        reason:
            "CoreBluetooth exposes no way to raise link security on demand, so an opening central can only accept whatever the peer's PSM insists on"@,
    }
}

/// Why an Apple central cannot be asked for link security.
pub fn check_open_encryption(requested: L2capEncryption) -> (result: BlewResult<()>)
    ensures
        result is Ok <==> requested == L2capEncryption::Insecure,
        result matches Err(e) ==> e@ == open_encryption_error(requested),
{
    match requested {
        L2capEncryption::Insecure => Ok(()),
        _ => Err(
            BlewError::L2capEncryptionUnsupported {
                requested,
                reason:
                    "CoreBluetooth exposes no way to raise link security on demand, so an opening central can only accept whatever the peer's PSM insists on".to_owned(),
            },
        ),
    }
}

/// A request that was registered.
#[verifier::reject_recursive_types(T)]
pub struct Begun<T> {
    /// Where its answer arrives.
    pub reply: Reply<T>,
    /// Who waited for an earlier request that this one displaced, to be let go
    /// of unanswered.
    pub displaced: Option<Replier<T>>,
}

/// Who `map` holds at `key`.
pub open spec fn held<K, V>(map: Map<K, V>, key: K) -> Option<V> {
    if map.contains_key(key) {
        Some(map[key])
    } else {
        None
    }
}

/// A service discovery in flight: the services found so far, and for how many
/// of them the characteristics are still to come.
pub struct DiscoveryState {
    services: KeyMap<Uuid, GattService>,
    pending: usize,
    tx: Replier<BlewResult<Vec<GattService>>>,
}

/// The mathematical value of a [`DiscoveryState`].
#[verifier::ext_equal]
pub struct DiscoveryView {
    /// The services found so far, by UUID.
    pub services: Map<u128, ServiceView>,
    /// How many reports of characteristics are still to come.
    pub pending: usize,
    /// Who asked.
    pub tx: Replier<BlewResult<Vec<GattService>>>,
}

impl DiscoveryView {
    /// The next report of characteristics is the last to come.
    pub open spec fn is_last(self) -> bool {
        self.pending <= 1
    }

    /// The characteristics of the service `uuid` have been reported.
    pub open spec fn reported(
        self,
        uuid: u128,
        characteristics: Option<Vec<GattCharacteristic>>,
    ) -> Self {
        DiscoveryView {
            services: with_characteristics(self.services, uuid, characteristics),
            pending: if self.pending == 0 {
                0
            } else {
                (self.pending - 1) as usize
            },
            ..self
        }
    }
}

impl View for DiscoveryState {
    type V = DiscoveryView;

    closed spec fn view(&self) -> DiscoveryView {
        DiscoveryView {
            services: self.services@.map_values(|s: GattService| s@),
            pending: self.pending,
            tx: self.tx,
        }
    }
}

/// A service that was discovered, without its characteristics.
#[derive(Debug, Clone, Copy, PartialEq, Eq, Structural)]
pub struct FoundService {
    /// Its UUID; `None` where it cannot be read.
    pub uuid: Option<Uuid>,
    pub primary: bool,
}

/// What the discovery of the services came to.
pub enum ServicesFound {
    /// It failed, in CoreBluetooth's words.
    Failed(String),
    /// These were found.
    Found(Vec<FoundService>),
}

/// How many of `found` have a UUID.
pub open spec fn with_uuid(found: Seq<FoundService>) -> nat
    decreases found.len(),
{
    if found.len() == 0 {
        0
    } else {
        with_uuid(found.drop_last()) + if found.last().uuid is Some {
            1nat
        } else {
            0
        }
    }
}

/// `services`, and for each of `found` that has a UUID, in order, the service
/// without characteristics.
pub open spec fn with_found(services: Map<u128, ServiceView>, found: Seq<FoundService>) -> Map<
    u128,
    ServiceView,
>
    decreases found.len(),
{
    if found.len() == 0 {
        services
    } else {
        let rest = with_found(services, found.drop_last());
        match found.last().uuid {
            None => rest,
            Some(uuid) => rest.insert(
                uuid@,
                ServiceView {
                    uuid: uuid@,
                    primary: found.last().primary,
                    characteristics: Seq::empty(),
                },
            ),
        }
    }
}

/// `answer` gives whoever asked all of `services`, in some order.
pub open spec fn gives_services(
    answer: Option<Outgoing<BlewResult<Vec<GattService>>>>,
    tx: Replier<BlewResult<Vec<GattService>>>,
    services: Map<u128, ServiceView>,
) -> bool {
    &&& answer matches Some(out)
    &&& out.to == tx
    &&& out.value matches Ok(list)
    &&& crate::util::callback_slots::enumerates(
        crate::gatt::service::service_views(list@),
        services,
    )
}

impl DiscoveryState {
    /// The answer of a discovery that is over: every service found.
    fn finish(self) -> (answer: Outgoing<BlewResult<Vec<GattService>>>)
        ensures
            gives_services(Some(answer), self@.tx, self@.services),
    {
        let DiscoveryState { services, pending: _, tx } = self;
        let ghost map = self@.services;
        let mut services = services;
        let mut entries = services.drain();
        let ghost all = entries@;
        let mut list: Vec<GattService> = Vec::new();
        while entries.len() > 0
            invariant
                list@.len() + entries@.len() == all.len(),
                entries@ == all.skip(list@.len() as int),
                forall|i: int| 0 <= i < list@.len() ==> #[trigger] list@[i] == all[i].1,
            decreases entries.len(),
        {
            let ghost n = list@.len() as int;
            let (_, service) = entries.remove(0);
            assert(service == all[n].1);
            list.push(service);
            assert(entries@ =~= all.skip(n + 1));
        }
        proof {
            let views = crate::gatt::service::service_views(list@);
            let keys = Seq::new(all.len(), |i: int| all[i].0@);
            assert forall|i: int| 0 <= i < keys.len() implies map.contains_key(
                #[trigger] keys[i],
            ) && map[keys[i]] == views[i] by {
                assert(self.services@.contains_key(all[i].0@));
                assert(list@[i] == all[i].1);
            }
            assert forall|i: int, j: int| 0 <= i < j < keys.len() implies #[trigger] keys[i]
                != #[trigger] keys[j] by {
                assert(all[i].0@ != all[j].0@);
            }
            assert forall|key: u128| #[trigger] map.contains_key(key) implies exists|i: int|
                0 <= i < keys.len() && #[trigger] keys[i] == key by {
                assert(self.services@.contains_key(key));
                let i = choose|i: int| 0 <= i < all.len() && (#[trigger] all[i]).0@ == key;
                assert(keys[i] == key);
            }
            assert(crate::util::callback_slots::enumerated_by(views, map, keys));
        }
        Outgoing { to: tx, value: Ok(list) }
    }

    /// Note the services that were found: for which of them the characteristics
    /// are to be discovered.
    fn note_found(&mut self, found: &Vec<FoundService>) -> (fetch: Vec<bool>)
        ensures
            final(self)@ == (DiscoveryView {
                services: with_found(old(self)@.services, found@),
                pending: with_uuid(found@) as usize,
                ..old(self)@
            }),
            with_uuid(found@) <= found@.len(),
            fetch@.len() == found@.len(),
            forall|i: int|
                0 <= i < found@.len() ==> fetch@[i] == ((#[trigger] found@[i]).uuid is Some),
    {
        let mut fetch: Vec<bool> = Vec::new();
        let mut pending: usize = 0;
        let mut i: usize = 0;
        proof {
            assert(found@.take(0) =~= Seq::empty());
        }
        while i < found.len()
            invariant
                i <= found@.len(),
                pending <= i,
                pending == with_uuid(found@.take(i as int)),
                self@ == (DiscoveryView {
                    services: with_found(old(self)@.services, found@.take(i as int)),
                    ..old(self)@
                }),
                fetch@.len() == i,
                forall|j: int|
                    0 <= j < i ==> fetch@[j] == ((#[trigger] found@[j]).uuid is Some),
            decreases found@.len() - i,
        {
            proof {
                assert(found@.take(i + 1).drop_last() =~= found@.take(i as int));
            }
            let ghost before = self@.services;
            match found[i].uuid {
                Some(uuid) => {
                    let service = GattService {
                        uuid,
                        primary: found[i].primary,
                        characteristics: Vec::new(),
                    };
                    assert(service@.characteristics =~= Seq::empty());
                    let ghost view = service@;
                    self.services.insert(uuid, service);
                    assert(self@.services =~= before.insert(uuid@, view));
                    fetch.push(true);
                    pending += 1;
                },
                None => {
                    fetch.push(false);
                },
            }
            i += 1;
        }
        assert(found@.take(i as int) =~= found@);
        self.pending = pending;
        fetch
    }

    /// Note the characteristics of a service, where they are known, and that
    /// their report has come.
    fn note_characteristics(
        &mut self,
        service_uuid: Uuid,
        characteristics: Option<Vec<GattCharacteristic>>,
    )
        ensures
            final(self)@ == old(self)@.reported(service_uuid@, characteristics),
    {
        let ghost before = self@.services;
        match characteristics {
            Some(chars) => match self.services.remove(&service_uuid) {
                Some(mut service) => {
                    service.characteristics = chars;
                    let ghost view = service@;
                    self.services.insert(service_uuid, service);
                    assert(self@.services =~= before.insert(service_uuid@, view));
                },
                None => {
                    assert(self@.services =~= before);
                },
            },
            None => {},
        }
        if self.pending > 0 {
            self.pending = self.pending - 1;
        }
    }
}

/// `services` with the characteristics of the one with the UUID `uuid`, where
/// they are known.
pub open spec fn with_characteristics(
    services: Map<u128, ServiceView>,
    uuid: u128,
    characteristics: Option<Vec<GattCharacteristic>>,
) -> Map<u128, ServiceView> {
    match characteristics {
        Some(chars) if services.contains_key(uuid) => services.insert(
            uuid,
            ServiceView {
                characteristics: crate::gatt::service::characteristic_views(chars@),
                ..services[uuid]
            },
        ),
        _ => services,
    }
}

/// What follows the discovery of the services.
pub struct ServicesStep {
    /// The answer, where the discovery is over.
    pub answer: Option<Outgoing<BlewResult<Vec<GattService>>>>,
    /// For which of the found services the characteristics are to be
    /// discovered.
    pub fetch: Vec<bool>,
}

/// The answers to everything that was pending on a device that disconnected.
#[verifier::reject_recursive_types(C)]
pub struct Failures<C> {
    pub connect: Option<Outgoing<BlewResult<()>>>,
    pub discovery: Option<Outgoing<BlewResult<Vec<GattService>>>>,
    pub reads: Vec<Outgoing<BlewResult<Vec<u8>>>>,
    pub writes: Vec<Outgoing<BlewResult<()>>>,
    pub notify_states: Vec<Outgoing<BlewResult<()>>>,
    pub l2cap: Option<Outgoing<BlewResult<C>>>,
}

/// `answer` tells whoever was pending at `id` that the device disconnected.
pub open spec fn fails_one<T>(
    answer: Option<Outgoing<BlewResult<T>>>,
    pending: Map<Seq<char>, Replier<BlewResult<T>>>,
    id: Seq<char>,
) -> bool {
    &&& answer is Some <==> pending.contains_key(id)
    &&& answer matches Some(out) ==> out.to == pending[id] && is_disconnected(out.value, id)
}

/// `result` says that `id` disconnected.
pub open spec fn is_disconnected<T>(result: BlewResult<T>, id: Seq<char>) -> bool {
    result matches Err(e) && e@ == crate::error::ErrorView::DisconnectedDuringOperation(id)
}

/// `answers` tell whoever was pending at `id` and one of `uuids` that the
/// device disconnected; `uuids` are all there are.
pub open spec fn fails_listed<T>(
    answers: Seq<Outgoing<BlewResult<T>>>,
    pending: Map<(Seq<char>, u128), Replier<BlewResult<T>>>,
    id: Seq<char>,
    uuids: Seq<u128>,
) -> bool {
    &&& uuids.len() == answers.len()
    &&& forall|i: int, j: int|
        0 <= i < j < uuids.len() ==> #[trigger] uuids[i] != #[trigger] uuids[j]
    &&& forall|i: int|
        0 <= i < uuids.len() ==> {
            &&& pending.contains_key((id, #[trigger] uuids[i]))
            &&& answers[i].to == pending[(id, uuids[i])]
            &&& is_disconnected(answers[i].value, id)
        }
    &&& forall|uuid: u128| #[trigger]
        pending.contains_key((id, uuid)) ==> exists|i: int|
            0 <= i < uuids.len() && #[trigger] uuids[i] == uuid
}

/// `answers` tell everyone who was pending on `id`, once each, that the device
/// disconnected.
pub open spec fn fails_all<T>(
    answers: Seq<Outgoing<BlewResult<T>>>,
    pending: Map<(Seq<char>, u128), Replier<BlewResult<T>>>,
    id: Seq<char>,
) -> bool {
    exists|uuids: Seq<u128>| fails_listed(answers, pending, id, uuids)
}

/// What is pending on other devices than `id`.
pub open spec fn others<V>(pending: Map<(Seq<char>, u128), V>, id: Seq<char>) -> Map<
    (Seq<char>, u128),
    V,
> {
    Map::new(
        |key: (Seq<char>, u128)| pending.contains_key(key) && key.0 != id,
        |key: (Seq<char>, u128)| pending[key],
    )
}

/// Take everything out that is pending on `device_id`, to be told that the
/// device disconnected.
fn fail_device<T>(
    pending: &mut KeyedRequestMap<(DeviceId, Uuid), Replier<BlewResult<T>>>,
    device_id: &DeviceId,
) -> (answers: Vec<Outgoing<BlewResult<T>>>)
    ensures
        fails_all(answers@, old(pending)@, device_id@),
        final(pending)@ == others(old(pending)@, device_id@),
{
    let ghost whole = old(pending)@;
    let ghost id = device_id@;
    let of_device = |key: &(DeviceId, Uuid)| -> (hit: bool)
        ensures
            hit == (key.0@ == device_id@),
        {
            key.0.same(device_id)
        };
    let mut taken = pending.take_matching(of_device);
    let ghost all = taken@;
    let mut answers: Vec<Outgoing<BlewResult<T>>> = Vec::new();
    while taken.len() > 0
        invariant
            id == device_id@,
            answers@.len() + taken@.len() == all.len(),
            taken@ == all.skip(answers@.len() as int),
            forall|i: int|
                0 <= i < answers@.len() ==> (#[trigger] answers@[i]).to == all[i].1
                    && is_disconnected(answers@[i].value, id),
        decreases taken.len(),
    {
        let ghost n = answers@.len() as int;
        let (_, to) = taken.remove(0);
        assert(to == all[n].1);
        answers.push(
            Outgoing {
                to,
                value: Err(BlewError::DisconnectedDuringOperation(device_id.clone())),
            },
        );
        assert(taken@ =~= all.skip(n + 1));
    }
    proof {
        let uuids = Seq::new(all.len(), |i: int| all[i].0.1@);
        assert forall|i: int| 0 <= i < all.len() implies (#[trigger] all[i]).0@ == (
            id,
            uuids[i],
        ) && whole.contains_key((id, uuids[i])) && whole[(id, uuids[i])] == all[i].1 by {
            assert(whole.contains_key(all[i].0@));
        }
        assert forall|i: int, j: int| 0 <= i < j < uuids.len() implies #[trigger] uuids[i]
            != #[trigger] uuids[j] by {
            assert(all[i].0@ != all[j].0@);
            assert(all[i].0@ == (id, uuids[i]));
            assert(all[j].0@ == (id, uuids[j]));
        }
        assert forall|i: int| 0 <= i < uuids.len() implies {
            &&& whole.contains_key((id, #[trigger] uuids[i]))
            &&& answers@[i].to == whole[(id, uuids[i])]
            &&& is_disconnected(answers@[i].value, id)
        } by {
            assert(all[i].0@ == (id, uuids[i]));
            assert(answers@[i].to == all[i].1);
        }
        assert forall|uuid: u128| #[trigger]
            whole.contains_key((id, uuid)) implies exists|i: int|
            0 <= i < uuids.len() && #[trigger] uuids[i] == uuid by {
            let key = (id, uuid);
            assert(!pending@.contains_key(key));
            let i = choose|i: int| 0 <= i < all.len() && (#[trigger] all[i]).0@ == key;
            assert(uuids[i] == uuid);
        }
        assert(fails_listed(answers@, whole, id, uuids));
        assert forall|key: (Seq<char>, u128)| pending@.contains_key(key) == (whole.contains_key(key)
            && key.0 != id) by {
            if whole.contains_key(key) && !pending@.contains_key(key) {
                let i = choose|i: int| 0 <= i < all.len() && (#[trigger] all[i]).0@ == key;
                assert(all[i].0@ == (id, uuids[i]));
            }
        }
        assert(pending@ =~= others(whole, id));
    }
    answers
}

/// The mathematical value of a [`CentralState`].
#[verifier::reject_recursive_types(P)]
#[verifier::reject_recursive_types(C)]
#[verifier::ext_equal]
pub struct CentralView<P, C> {
    /// The peripherals that can be talked to.
    pub peripherals: Map<Seq<char>, P>,
    /// The devices seen.
    pub discovered: Map<Seq<char>, BleDevice>,
    pub connects: Map<Seq<char>, Replier<BlewResult<()>>>,
    pub discoveries: Map<Seq<char>, DiscoveryView>,
    pub reads: Map<(Seq<char>, u128), Replier<BlewResult<Vec<u8>>>>,
    pub writes: Map<(Seq<char>, u128), Replier<BlewResult<()>>>,
    pub notify_states: Map<(Seq<char>, u128), Replier<BlewResult<()>>>,
    pub l2cap: Map<Seq<char>, Replier<BlewResult<C>>>,
    /// What the system restored, until it is taken.
    pub restored: Option<Vec<BleDevice>>,
}

/// What the central role remembers, with peripherals `P` and channels `C`.
#[verifier::reject_recursive_types(P)]
#[verifier::reject_recursive_types(C)]
pub struct CentralState<P, C> {
    peripherals: KeyMap<DeviceId, P>,
    discovered: KeyMap<DeviceId, BleDevice>,
    connects: KeyedRequestMap<DeviceId, Replier<BlewResult<()>>>,
    discoveries: KeyMap<DeviceId, DiscoveryState>,
    reads: KeyedRequestMap<(DeviceId, Uuid), Replier<BlewResult<Vec<u8>>>>,
    writes: KeyedRequestMap<(DeviceId, Uuid), Replier<BlewResult<()>>>,
    notify_states: KeyedRequestMap<(DeviceId, Uuid), Replier<BlewResult<()>>>,
    l2cap_pendings: KeyedRequestMap<DeviceId, Replier<BlewResult<C>>>,
    restored: Option<Vec<BleDevice>>,
    connect_timeout: Option<Duration>,
    l2cap_config: L2capConfig,
}

impl<P, C> View for CentralState<P, C> {
    type V = CentralView<P, C>;

    closed spec fn view(&self) -> CentralView<P, C> {
        CentralView {
            peripherals: self.peripherals@,
            discovered: self.discovered@,
            connects: self.connects@,
            discoveries: self.discoveries@.map_values(|d: DiscoveryState| d@),
            reads: self.reads@,
            writes: self.writes@,
            notify_states: self.notify_states@,
            l2cap: self.l2cap_pendings@,
            restored: self.restored,
        }
    }
}

/// How a connect ends.
pub struct ConnectEnd {
    /// What the caller is told.
    pub result: BlewResult<()>,
    /// The connection is to be cancelled.
    pub cancel: bool,
    /// What is announced.
    pub event: Option<CentralEvent>,
}

/// What the new value of a characteristic is.
pub enum ValueStep {
    /// The answer to a read.
    Answer(Outgoing<BlewResult<Vec<u8>>>),
    /// A notification, to be announced.
    Notify(CentralEvent),
    /// Nothing: a failed notification.
    Ignore,
}

/// `result` is `value`, or CoreBluetooth's `error` in its own words.
pub open spec fn is_reported<T>(result: BlewResult<T>, value: T, error: Option<String>) -> bool {
    match error {
        None => result == Ok::<T, BlewError>(value),
        Some(text) => result matches Err(e) && e@ == crate::error::ErrorView::Internal(text@),
    }
}

/// `value`, or CoreBluetooth's `error` in its own words.
fn reported<T>(value: T, error: Option<String>) -> (result: BlewResult<T>)
    ensures
        is_reported(result, value, error),
{
    match error {
        None => Ok(value),
        Some(text) => Err(BlewError::Internal(text)),
    }
}

impl<P, C> CentralState<P, C> {
    /// The deadline of a connect.
    pub closed spec fn timeout(self) -> Option<Duration> {
        self.connect_timeout
    }

    /// The tuning of L2CAP channels.
    pub closed spec fn l2cap(self) -> L2capConfig {
        self.l2cap_config
    }

    /// The configuration is as before.
    pub open spec fn configured_as(self, before: Self) -> bool {
        self.timeout() == before.timeout() && self.l2cap() == before.l2cap()
    }

    /// Nothing is in flight, and nothing known.
    pub fn new(connect_timeout: Option<Duration>, l2cap_config: L2capConfig) -> (state: Self)
        ensures
            state@ == (CentralView::<P, C> {
                peripherals: Map::empty(),
                discovered: Map::empty(),
                connects: Map::empty(),
                discoveries: Map::empty(),
                reads: Map::empty(),
                writes: Map::empty(),
                notify_states: Map::empty(),
                l2cap: Map::empty(),
                restored: None,
            }),
            state.timeout() == connect_timeout,
            state.l2cap() == l2cap_config,
    {
        let state = CentralState {
            peripherals: KeyMap::new(),
            discovered: KeyMap::new(),
            connects: KeyedRequestMap::new(),
            discoveries: KeyMap::new(),
            reads: KeyedRequestMap::new(),
            writes: KeyedRequestMap::new(),
            notify_states: KeyedRequestMap::new(),
            l2cap_pendings: KeyedRequestMap::new(),
            restored: None,
            connect_timeout,
            l2cap_config,
        };
        assert(state@.discoveries =~= Map::empty());
        state
    }

    /// The deadline of a connect.
    pub fn connect_timeout(&self) -> (timeout: Option<Duration>)
        ensures
            timeout == self.timeout(),
    {
        self.connect_timeout
    }

    /// The tuning of L2CAP channels.
    pub fn l2cap_config(&self) -> (config: &L2capConfig)
        ensures
            *config == self.l2cap(),
    {
        &self.l2cap_config
    }

    /// The peripheral of `device_id`, if it can be talked to.
    pub fn peripheral(&self, device_id: &DeviceId) -> (peripheral: Option<&P>)
        ensures
            peripheral == (if self@.peripherals.contains_key(device_id@) {
                Some(&self@.peripherals[device_id@])
            } else {
                None
            }),
    {
        self.peripherals.get(device_id)
    }

    /// Start a scan: the services that it is filtered by; `None` where every
    /// device is wanted. What was seen before is forgotten, but can still be
    /// connected to.
    pub fn begin_scan<'a>(&mut self, filter: &'a ScanFilter) -> (services: Option<&'a Vec<Uuid>>)
        ensures
            final(self).configured_as(*old(self)),
            final(self)@ == (CentralView { discovered: Map::empty(), ..old(self)@ }),
            services == (if filter.services@.len() == 0 {
                None
            } else {
                Some(&filter.services)
            }),
    {
        self.discovered = KeyMap::new();
        scan_services(filter)
    }

    /// The devices seen since the last scan started.
    pub fn discovered(&self) -> (devices: &KeyMap<DeviceId, BleDevice>)
        ensures
            devices@ == self@.discovered,
    {
        &self.discovered
    }

    /// A peripheral was seen.
    pub fn on_discovered(&mut self, id: DeviceId, peripheral: P, device: BleDevice)
        ensures
            final(self).configured_as(*old(self)),
            final(self)@ == (CentralView {
                peripherals: old(self)@.peripherals.insert(id@, peripheral),
                discovered: old(self)@.discovered.insert(id@, device),
                ..old(self)@
            }),
    {
        self.peripherals.insert(id.clone(), peripheral);
        self.discovered.insert(id, device);
    }

    /// The system restored these devices.
    pub fn on_restored(&mut self, devices: Vec<BleDevice>)
        ensures
            final(self).configured_as(*old(self)),
            final(self)@ == (CentralView { restored: Some(devices), ..old(self)@ }),
    {
        self.restored = Some(devices);
    }

    /// What the system restored. It is handed out once.
    pub fn take_restored(&mut self) -> (restored: Option<Vec<BleDevice>>)
        ensures
            final(self).configured_as(*old(self)),
            restored == old(self)@.restored,
            final(self)@ == (CentralView { restored: None, ..old(self)@ }),
    {
        self.restored.take()
    }

    /// Register a connect before it is dispatched. Refused where the device is
    /// not known, and while one is in flight.
    pub fn begin_connect(&mut self, device_id: &DeviceId) -> (begun: BlewResult<
        Reply<BlewResult<()>>,
    >)
        ensures
            final(self).configured_as(*old(self)),
            begun is Ok <==> old(self)@.peripherals.contains_key(device_id@) && !old(
                self,
            )@.connects.contains_key(device_id@),
            match begun {
                Ok(reply) => {
                    let waiter = final(self)@.connects[device_id@];
                    &&& waiter.channel() == reply.channel()
                    &&& final(self)@ == (CentralView {
                        connects: old(self)@.connects.insert(device_id@, waiter),
                        ..old(self)@
                    })
                },
                Err(e) => {
                    &&& final(self)@ == old(self)@
                    &&& e@ == (if !old(self)@.peripherals.contains_key(device_id@) {
                        crate::error::ErrorView::DeviceNotFound(device_id@)
                    } else {
                        crate::error::ErrorView::ConnectInFlight(device_id@)
                    })
                },
            },
    {
        if !self.peripherals.contains_key(device_id) {
            return Err(BlewError::DeviceNotFound(device_id.clone()));
        }
        let (tx, rx) = reply_channel();
        match self.connects.try_insert(device_id.clone(), tx) {
            Ok(_) => Ok(rx),
            Err(_) => Err(BlewError::ConnectInFlight(device_id.clone())),
        }
    }

    /// The wait for a dispatched connect ended. One that timed out is no longer
    /// in flight, is cancelled, and its end announced.
    pub fn finish_connect(&mut self, device_id: &DeviceId, waited: Waited<BlewResult<()>>) -> (end:
        ConnectEnd)
        ensures
            final(self).configured_as(*old(self)),
            match waited {
                Waited::Answered(result) => {
                    &&& end.result == result
                    &&& !end.cancel
                    &&& end.event is None
                    &&& final(self)@ == old(self)@
                },
                Waited::Dropped => {
                    &&& is_disconnected(end.result, device_id@)
                    &&& !end.cancel
                    &&& end.event is None
                    &&& final(self)@ == old(self)@
                },
                Waited::TimedOut => {
                    &&& end.result matches Err(e)
                    &&& e@ == crate::error::ErrorView::ConnectTimedOut(device_id@)
                    &&& end.cancel
                    &&& end.event matches Some(
                        CentralEvent::DeviceDisconnected { device_id: id, cause },
                    )
                    &&& id@ == device_id@
                    &&& cause == DisconnectCause::Timeout
                    &&& final(self)@ == (CentralView {
                        connects: old(self)@.connects.remove(device_id@),
                        ..old(self)@
                    })
                },
            },
    {
        match waited {
            Waited::Answered(result) => ConnectEnd { result, cancel: false, event: None },
            Waited::Dropped => ConnectEnd {
                result: Err(BlewError::DisconnectedDuringOperation(device_id.clone())),
                cancel: false,
                event: None,
            },
            Waited::TimedOut => {
                self.connects.take(device_id);
                ConnectEnd {
                    result: Err(BlewError::ConnectTimedOut(device_id.clone())),
                    cancel: true,
                    event: Some(
                        CentralEvent::DeviceDisconnected {
                            device_id: device_id.clone(),
                            cause: DisconnectCause::Timeout,
                        },
                    ),
                }
            },
        }
    }

    /// A device connected: the answer to the connect in flight, and what is
    /// announced.
    pub fn on_connected(&mut self, id: DeviceId) -> (step: (
        Option<Outgoing<BlewResult<()>>>,
        CentralEvent,
    ))
        ensures
            final(self).configured_as(*old(self)),
            final(self)@ == (CentralView {
                connects: old(self)@.connects.remove(id@),
                ..old(self)@
            }),
            step.0 == crate::util::request_map::reply_at(
                old(self)@.connects,
                id@,
                Ok::<(), BlewError>(()),
            ),
            step.1 == (CentralEvent::DeviceConnected { device_id: id }),
    {
        let answer = take_reply(&mut self.connects, &id, Ok(()));
        (answer, CentralEvent::DeviceConnected { device_id: id })
    }

    /// A connect failed: the answer to the one in flight.
    pub fn on_connect_failed(&mut self, id: &DeviceId, error: Option<String>) -> (answer: Option<
        Outgoing<BlewResult<()>>,
    >)
        ensures
            final(self).configured_as(*old(self)),
            final(self)@ == (CentralView {
                connects: old(self)@.connects.remove(id@),
                ..old(self)@
            }),
            answer is Some <==> old(self)@.connects.contains_key(id@),
            answer matches Some(out) ==> {
                &&& out.to == old(self)@.connects[id@]
                &&& out.value matches Err(e)
                &&& e@ == crate::error::ErrorView::Internal(
                    match error {
                        Some(text) => text@,
                        None => "connection failed"@,
                    },
                )
            },
    {
        let text = match error {
            Some(text) => text,
            None => "connection failed".to_owned(),
        };
        take_reply(&mut self.connects, id, Err(BlewError::Internal(text)))
    }

    /// Fail every operation still pending on `device_id`.
    ///
    /// CoreBluetooth delivers no completion callback for an in-flight request
    /// when the peer drops, and none of these paths but connect carries its own
    /// deadline, so without this the awaiting future would never resolve.
    #[must_use]
    pub fn fail_pending(&mut self, device_id: &DeviceId) -> (failures: Failures<C>)
        ensures
            final(self).configured_as(*old(self)),
            final(self)@ == (CentralView {
                connects: old(self)@.connects.remove(device_id@),
                discoveries: old(self)@.discoveries.remove(device_id@),
                reads: others(old(self)@.reads, device_id@),
                writes: others(old(self)@.writes, device_id@),
                notify_states: others(old(self)@.notify_states, device_id@),
                l2cap: old(self)@.l2cap.remove(device_id@),
                ..old(self)@
            }),
            fails_one(failures.connect, old(self)@.connects, device_id@),
            failures.discovery is Some <==> old(self)@.discoveries.contains_key(device_id@),
            failures.discovery matches Some(out) ==> out.to == old(
                self,
            )@.discoveries[device_id@].tx && is_disconnected(out.value, device_id@),
            fails_all(failures.reads@, old(self)@.reads, device_id@),
            fails_all(failures.writes@, old(self)@.writes, device_id@),
            fails_all(failures.notify_states@, old(self)@.notify_states, device_id@),
            fails_one(failures.l2cap, old(self)@.l2cap, device_id@),
    {
        let connect = take_reply(
            &mut self.connects,
            device_id,
            Err(BlewError::DisconnectedDuringOperation(device_id.clone())),
        );
        let discovery = match self.discoveries.remove(device_id) {
            Some(ds) => Some(
                Outgoing {
                    to: ds.tx,
                    value: Err(BlewError::DisconnectedDuringOperation(device_id.clone())),
                },
            ),
            None => None,
        };
        let reads = fail_device(&mut self.reads, device_id);
        let writes = fail_device(&mut self.writes, device_id);
        let notify_states = fail_device(&mut self.notify_states, device_id);
        let l2cap = take_reply(
            &mut self.l2cap_pendings,
            device_id,
            Err(BlewError::DisconnectedDuringOperation(device_id.clone())),
        );
        assert(self@.discoveries =~= old(self)@.discoveries.remove(device_id@));
        Failures { connect, discovery, reads, writes, notify_states, l2cap }
    }

    /// A device disconnected: everything pending on it fails, and the end of
    /// the link is announced.
    pub fn on_disconnected(
        &mut self,
        id: DeviceId,
        powered: bool,
        error: Option<LinkError>,
    ) -> (step: (Failures<C>, CentralEvent))
        ensures
            final(self).configured_as(*old(self)),
            final(self)@ == (CentralView {
                peripherals: old(self)@.peripherals.remove(id@),
                connects: old(self)@.connects.remove(id@),
                discoveries: old(self)@.discoveries.remove(id@),
                reads: others(old(self)@.reads, id@),
                writes: others(old(self)@.writes, id@),
                notify_states: others(old(self)@.notify_states, id@),
                l2cap: old(self)@.l2cap.remove(id@),
                ..old(self)@
            }),
            fails_one(step.0.connect, old(self)@.connects, id@),
            fails_all(step.0.reads@, old(self)@.reads, id@),
            fails_all(step.0.writes@, old(self)@.writes, id@),
            fails_all(step.0.notify_states@, old(self)@.notify_states, id@),
            fails_one(step.0.l2cap, old(self)@.l2cap, id@),
            step.0.discovery is Some <==> old(self)@.discoveries.contains_key(id@),
            step.0.discovery matches Some(out) ==> out.to == old(self)@.discoveries[id@].tx
                && is_disconnected(out.value, id@),
            step.1 matches CentralEvent::DeviceDisconnected { device_id, cause } && device_id == id
                && cause == (if !powered {
                DisconnectCause::AdapterOff
            } else {
                match error {
                    None => DisconnectCause::LocalClose,
                    Some(LinkError::ConnectionTimeout) => DisconnectCause::Timeout,
                    Some(LinkError::PeripheralDisconnected) => DisconnectCause::RemoteClose,
                    Some(LinkError::ConnectionFailed) => DisconnectCause::LinkLoss,
                    Some(LinkError::Other(code)) => DisconnectCause::Unknown(
                        if i32::MIN <= code <= i32::MAX {
                            code as i32
                        } else {
                            i32::MIN
                        },
                    ),
                }
            }),
    {
        self.peripherals.remove(&id);
        let failures = self.fail_pending(&id);
        let cause = disconnect_cause(powered, error);
        (failures, CentralEvent::DeviceDisconnected { device_id: id, cause })
    }

    /// Register a service discovery before it is dispatched. Refused where the
    /// device is not connected. One that it displaces is never answered.
    pub fn begin_discover_services(&mut self, device_id: &DeviceId) -> (begun: BlewResult<
        Begun<BlewResult<Vec<GattService>>>,
    >)
        ensures
            final(self).configured_as(*old(self)),
            begun is Ok <==> old(self)@.peripherals.contains_key(device_id@),
            match begun {
                Ok(b) => {
                    let state = final(self)@.discoveries[device_id@];
                    &&& b.displaced == (match held(old(self)@.discoveries, device_id@) {
                        Some(earlier) => Some(earlier.tx),
                        None => None,
                    })
                    &&& state.tx.channel() == b.reply.channel()
                    &&& state.pending == 0
                    &&& state.services == Map::<u128, ServiceView>::empty()
                    &&& final(self)@ == (CentralView {
                        discoveries: old(self)@.discoveries.insert(device_id@, state),
                        ..old(self)@
                    })
                },
                Err(e) => e@ == crate::error::ErrorView::NotConnected(device_id@) && final(self)@
                    == old(self)@,
            },
    {
        if !self.peripherals.contains_key(device_id) {
            return Err(BlewError::NotConnected(device_id.clone()));
        }
        let (tx, rx) = reply_channel();
        let state = DiscoveryState { services: KeyMap::new(), pending: 0, tx };
        assert(state@.services =~= Map::<u128, ServiceView>::empty());
        let ghost view = state@;
        let displaced = match self.discoveries.insert(device_id.clone(), state) {
            Some(earlier) => Some(earlier.tx),
            None => None,
        };
        assert(self@.discoveries =~= old(self)@.discoveries.insert(device_id@, view));
        Ok(Begun { reply: rx, displaced })
    }

    /// The services of a device were discovered. The discovery is over where it
    /// failed, or where no characteristics are to come; otherwise they are to be
    /// discovered.
    pub fn on_services_discovered(&mut self, id: &DeviceId, found: ServicesFound) -> (step:
        ServicesStep)
        ensures
            final(self).configured_as(*old(self)),
            !old(self)@.discoveries.contains_key(id@) ==> {
                &&& step.answer is None
                &&& step.fetch@.len() == 0
                &&& final(self)@ == old(self)@
            },
            old(self)@.discoveries.contains_key(id@) ==> {
                let before = old(self)@.discoveries[id@];
                let over = CentralView {
                    discoveries: old(self)@.discoveries.remove(id@),
                    ..old(self)@
                };
                match found {
                    ServicesFound::Failed(reason) => {
                        &&& final(self)@ == over
                        &&& step.fetch@.len() == 0
                        &&& step.answer matches Some(out)
                        &&& out.to == before.tx
                        &&& out.value matches Err(e)
                        &&& e@ == (crate::error::ErrorView::DiscoveryFailed {
                            device_id: id@,
                            reason: reason@,
                        })
                    },
                    ServicesFound::Found(list) => if list@.len() == 0 {
                        &&& final(self)@ == over
                        &&& step.fetch@.len() == 0
                        &&& step.answer matches Some(out)
                        &&& out.to == before.tx
                        &&& out.value matches Ok(services)
                        &&& services@.len() == 0
                    } else {
                        &&& step.fetch@.len() == list@.len()
                        &&& forall|i: int|
                            0 <= i < list@.len() ==> step.fetch@[i] == ((#[trigger] list@[i]).uuid
                                is Some)
                        &&& if with_uuid(list@) == 0 {
                            &&& final(self)@ == over
                            &&& gives_services(step.answer, before.tx, before.services)
                        } else {
                            &&& step.answer is None
                            &&& final(self)@ == (CentralView {
                                discoveries: old(self)@.discoveries.insert(
                                    id@,
                                    DiscoveryView {
                                        services: with_found(before.services, list@),
                                        pending: with_uuid(list@) as usize,
                                        tx: before.tx,
                                    },
                                ),
                                ..old(self)@
                            })
                        }
                    },
                }
            },
    {
        let ghost whole = self@.discoveries;
        match self.discoveries.remove(id) {
            None => {
                assert(self@.discoveries =~= whole);
                ServicesStep { answer: None, fetch: Vec::new() }
            },
            Some(mut ds) => {
                assert(ds@ == whole[id@]);
                assert(self@.discoveries =~= whole.remove(id@));
                match found {
                    ServicesFound::Failed(reason) => {
                        let value = Err(
                            BlewError::DiscoveryFailed { device_id: id.clone(), reason },
                        );
                        ServicesStep {
                            answer: Some(Outgoing { to: ds.tx, value }),
                            fetch: Vec::new(),
                        }
                    },
                    ServicesFound::Found(list) => {
                        if list.len() == 0 {
                            return ServicesStep {
                                answer: Some(Outgoing { to: ds.tx, value: Ok(Vec::new()) }),
                                fetch: Vec::new(),
                            };
                        }
                        let ghost before = ds@;
                        let fetch = ds.note_found(&list);
                        if ds.pending == 0 {
                            proof {
                                lemma_none_found(before.services, list@);
                            }
                            ServicesStep { answer: Some(ds.finish()), fetch }
                        } else {
                            let ghost view = ds@;
                            self.discoveries.insert(id.clone(), ds);
                            assert(self@.discoveries =~= whole.insert(id@, view));
                            ServicesStep { answer: None, fetch }
                        }
                    },
                }
            },
        }
    }

    /// The characteristics of a service were reported; `None` where their
    /// discovery failed. With the last report the discovery is over.
    pub fn on_characteristics_discovered(
        &mut self,
        id: &DeviceId,
        service_uuid: Uuid,
        characteristics: Option<Vec<GattCharacteristic>>,
    ) -> (answer: Option<Outgoing<BlewResult<Vec<GattService>>>>)
        ensures
            final(self).configured_as(*old(self)),
            !old(self)@.discoveries.contains_key(id@) ==> answer is None && final(self)@ == old(
                self,
            )@,
            old(self)@.discoveries.contains_key(id@) ==> {
                let before = old(self)@.discoveries[id@];
                let after = before.reported(service_uuid@, characteristics);
                if before.is_last() {
                    &&& gives_services(answer, before.tx, after.services)
                    &&& final(self)@ == (CentralView {
                        discoveries: old(self)@.discoveries.remove(id@),
                        ..old(self)@
                    })
                } else {
                    &&& answer is None
                    &&& final(self)@ == (CentralView {
                        discoveries: old(self)@.discoveries.insert(id@, after),
                        ..old(self)@
                    })
                }
            },
    {
        let ghost whole = self@.discoveries;
        match self.discoveries.remove(id) {
            None => {
                assert(self@.discoveries =~= whole);
                None
            },
            Some(mut ds) => {
                assert(ds@ == whole[id@]);
                assert(self@.discoveries =~= whole.remove(id@));
                ds.note_characteristics(service_uuid, characteristics);
                if ds.pending == 0 {
                    Some(ds.finish())
                } else {
                    let ghost view = ds@;
                    self.discoveries.insert(id.clone(), ds);
                    assert(self@.discoveries =~= whole.insert(id@, view));
                    None
                }
            },
        }
    }

    /// Whether an operation on a characteristic may be dispatched: the device is
    /// connected and has it.
    fn check_found(&self, device_id: &DeviceId, char_uuid: Uuid, found: bool) -> (result:
        BlewResult<()>)
        ensures
            result is Ok <==> self@.peripherals.contains_key(device_id@) && found,
            result matches Err(e) ==> e@ == operation_error(
                self@.peripherals.contains_key(device_id@),
                device_id@,
                char_uuid@,
            ),
    {
        if !self.peripherals.contains_key(device_id) {
            return Err(BlewError::NotConnected(device_id.clone()));
        }
        if !found {
            return Err(
                BlewError::CharacteristicNotFound { device_id: device_id.clone(), char_uuid },
            );
        }
        Ok(())
    }

    /// Register a read before it is dispatched; `found` says whether the device
    /// has the characteristic. A read that is displaced is never answered.
    pub fn begin_read(&mut self, device_id: &DeviceId, char_uuid: Uuid, found: bool) -> (begun:
        BlewResult<Begun<BlewResult<Vec<u8>>>>)
        ensures
            final(self).configured_as(*old(self)),
            begun is Ok <==> old(self)@.peripherals.contains_key(device_id@) && found,
            match begun {
                Ok(b) => {
                    let waiter = final(self)@.reads[(device_id@, char_uuid@)];
                    &&& b.displaced == held(old(self)@.reads, (device_id@, char_uuid@))
                    &&& waiter.channel() == b.reply.channel()
                    &&& final(self)@ == (CentralView {
                        reads: old(self)@.reads.insert((device_id@, char_uuid@), waiter),
                        ..old(self)@
                    })
                },
                Err(e) => final(self)@ == old(self)@ && e@ == operation_error(
                    old(self)@.peripherals.contains_key(device_id@),
                    device_id@,
                    char_uuid@,
                ),
            },
    {
        match self.check_found(device_id, char_uuid, found) {
            Err(e) => Err(e),
            Ok(_) => {
                let (tx, rx) = reply_channel();
                let displaced = self.reads.insert((device_id.clone(), char_uuid), tx);
                Ok(Begun { reply: rx, displaced })
            },
        }
    }

    /// Register a write with response before it is dispatched; `found` says
    /// whether the device has the characteristic, `max` how large a value it
    /// takes. A write that is displaced is never answered.
    pub fn begin_write(
        &mut self,
        device_id: &DeviceId,
        char_uuid: Uuid,
        found: bool,
        len: usize,
        max: usize,
    ) -> (begun: BlewResult<Begun<BlewResult<()>>>)
        ensures
            final(self).configured_as(*old(self)),
            begun is Ok <==> old(self)@.peripherals.contains_key(device_id@) && found && len
                <= max,
            match begun {
                Ok(b) => {
                    let waiter = final(self)@.writes[(device_id@, char_uuid@)];
                    &&& b.displaced == held(old(self)@.writes, (device_id@, char_uuid@))
                    &&& waiter.channel() == b.reply.channel()
                    &&& final(self)@ == (CentralView {
                        writes: old(self)@.writes.insert((device_id@, char_uuid@), waiter),
                        ..old(self)@
                    })
                },
                Err(e) => {
                    &&& final(self)@ == old(self)@
                    &&& e@ == (if old(self)@.peripherals.contains_key(device_id@) && found {
                        crate::error::ErrorView::ValueTooLarge { got: len, max }
                    } else {
                        operation_error(
                            old(self)@.peripherals.contains_key(device_id@),
                            device_id@,
                            char_uuid@,
                        )
                    })
                },
            },
    {
        let connected: bool = self.peripherals.contains_key(device_id);
        match check_write(device_id, char_uuid, connected, found, len, max) {
            Err(e) => Err(e),
            Ok(_) => {
                let (tx, rx) = reply_channel();
                let displaced = self.writes.insert((device_id.clone(), char_uuid), tx);
                Ok(Begun { reply: rx, displaced })
            },
        }
    }

    /// Register a change of subscription before it is dispatched; `found` says
    /// whether the device has the characteristic. A change that is displaced is
    /// never answered.
    pub fn begin_set_notify(&mut self, device_id: &DeviceId, char_uuid: Uuid, found: bool) -> (
    begun: BlewResult<Begun<BlewResult<()>>>)
        ensures
            final(self).configured_as(*old(self)),
            begun is Ok <==> old(self)@.peripherals.contains_key(device_id@) && found,
            match begun {
                Ok(b) => {
                    let waiter = final(self)@.notify_states[(device_id@, char_uuid@)];
                    &&& b.displaced == held(old(self)@.notify_states, (device_id@, char_uuid@))
                    &&& waiter.channel() == b.reply.channel()
                    &&& final(self)@ == (CentralView {
                        notify_states: old(self)@.notify_states.insert(
                            (device_id@, char_uuid@),
                            waiter,
                        ),
                        ..old(self)@
                    })
                },
                Err(e) => final(self)@ == old(self)@ && e@ == operation_error(
                    old(self)@.peripherals.contains_key(device_id@),
                    device_id@,
                    char_uuid@,
                ),
            },
    {
        match self.check_found(device_id, char_uuid, found) {
            Err(e) => Err(e),
            Ok(_) => {
                let (tx, rx) = reply_channel();
                let displaced = self.notify_states.insert((device_id.clone(), char_uuid), tx);
                Ok(Begun { reply: rx, displaced })
            },
        }
    }

    /// Register the opening of an L2CAP channel before it is dispatched.
    /// Refused where link security is asked for, and where the device is not
    /// known. An opening that is displaced is never answered.
    pub fn begin_open_l2cap(&mut self, device_id: &DeviceId) -> (begun: BlewResult<
        Begun<BlewResult<C>>,
    >)
        ensures
            final(self).configured_as(*old(self)),
            begun is Ok <==> old(self).l2cap().encryption == L2capEncryption::Insecure && old(
                self,
            )@.peripherals.contains_key(device_id@),
            match begun {
                Ok(b) => {
                    let waiter = final(self)@.l2cap[device_id@];
                    &&& b.displaced == held(old(self)@.l2cap, device_id@)
                    &&& waiter.channel() == b.reply.channel()
                    &&& final(self)@ == (CentralView {
                        l2cap: old(self)@.l2cap.insert(device_id@, waiter),
                        ..old(self)@
                    })
                },
                Err(e) => {
                    &&& final(self)@ == old(self)@
                    &&& e@ == (if old(self).l2cap().encryption == L2capEncryption::Insecure {
                        crate::error::ErrorView::DeviceNotFound(device_id@)
                    } else {
                        open_encryption_error(old(self).l2cap().encryption)
                    })
                },
            },
    {
        match check_open_encryption(self.l2cap_config.encryption) {
            Err(e) => Err(e),
            Ok(_) => {
                if !self.peripherals.contains_key(device_id) {
                    return Err(BlewError::DeviceNotFound(device_id.clone()));
                }
                let (tx, rx) = reply_channel();
                let displaced = self.l2cap_pendings.insert(device_id.clone(), tx);
                Ok(Begun { reply: rx, displaced })
            },
        }
    }

    /// A characteristic has a new value: the answer to a read in flight, or a
    /// notification.
    pub fn on_value(
        &mut self,
        id: DeviceId,
        char_uuid: Uuid,
        value: Vec<u8>,
        error: Option<String>,
    ) -> (step: ValueStep)
        ensures
            final(self).configured_as(*old(self)),
            final(self)@ == (CentralView {
                reads: old(self)@.reads.remove((id@, char_uuid@)),
                ..old(self)@
            }),
            if old(self)@.reads.contains_key((id@, char_uuid@)) {
                &&& step matches ValueStep::Answer(out)
                &&& out.to == old(self)@.reads[(id@, char_uuid@)]
                &&& is_reported(out.value, value, error)
            } else if error is Some {
                step is Ignore
            } else {
                step == ValueStep::Notify(
                    CentralEvent::CharacteristicNotification { device_id: id, char_uuid, value },
                )
            },
    {
        let key = (id, char_uuid);
        match self.reads.take(&key) {
            Some(to) => ValueStep::Answer(Outgoing { to, value: reported(value, error) }),
            None => {
                if error.is_some() {
                    ValueStep::Ignore
                } else {
                    ValueStep::Notify(
                        CentralEvent::CharacteristicNotification {
                            device_id: key.0,
                            char_uuid,
                            value,
                        },
                    )
                }
            },
        }
    }

    /// A write was acknowledged: the answer to the one in flight.
    pub fn on_written(&mut self, id: DeviceId, char_uuid: Uuid, error: Option<String>) -> (answer:
        Option<Outgoing<BlewResult<()>>>)
        ensures
            final(self).configured_as(*old(self)),
            final(self)@ == (CentralView {
                writes: old(self)@.writes.remove((id@, char_uuid@)),
                ..old(self)@
            }),
            answer is Some <==> old(self)@.writes.contains_key((id@, char_uuid@)),
            answer matches Some(out) ==> out.to == old(self)@.writes[(id@, char_uuid@)]
                && is_reported(out.value, (), error),
    {
        let result = reported((), error);
        take_reply(&mut self.writes, &(id, char_uuid), result)
    }

    /// A subscription changed: the answer to the change in flight.
    pub fn on_notify_state(&mut self, id: DeviceId, char_uuid: Uuid, error: Option<String>) -> (
    answer: Option<Outgoing<BlewResult<()>>>)
        ensures
            final(self).configured_as(*old(self)),
            final(self)@ == (CentralView {
                notify_states: old(self)@.notify_states.remove((id@, char_uuid@)),
                ..old(self)@
            }),
            answer is Some <==> old(self)@.notify_states.contains_key((id@, char_uuid@)),
            answer matches Some(out) ==> out.to == old(self)@.notify_states[(id@, char_uuid@)]
                && is_reported(out.value, (), error),
    {
        let result = reported((), error);
        take_reply(&mut self.notify_states, &(id, char_uuid), result)
    }

    /// Who waits for an L2CAP channel to `id`.
    pub fn on_l2cap_opened(&mut self, id: &DeviceId) -> (waiter: Option<Replier<BlewResult<C>>>)
        ensures
            final(self).configured_as(*old(self)),
            final(self)@ == (CentralView {
                l2cap: old(self)@.l2cap.remove(id@),
                ..old(self)@
            }),
            waiter == (if old(self)@.l2cap.contains_key(id@) {
                Some(old(self)@.l2cap[id@])
            } else {
                None
            }),
    {
        self.l2cap_pendings.take(id)
    }
}

/// Why an operation on a characteristic is refused.
pub open spec fn operation_error(
    connected: bool,
    device_id: Seq<char>,
    char_uuid: u128,
) -> crate::error::ErrorView {
    if !connected {
        crate::error::ErrorView::NotConnected(device_id)
    } else {
        crate::error::ErrorView::CharacteristicNotFound { device_id, char_uuid }
    }
}

/// What whoever waits for an L2CAP channel is told: the channel, or why there
/// is none.
pub enum L2capOpened<C> {
    /// The opening failed, in CoreBluetooth's words.
    Failed(String),
    /// There was neither an error nor a channel.
    Missing,
    /// The channel could not be bridged, for this reason.
    Unbridged(String),
    /// The channel.
    Channel(C),
}

/// What whoever waits for an L2CAP channel is told.
pub fn l2cap_result<C>(opened: L2capOpened<C>) -> (result: BlewResult<C>)
    ensures
        match opened {
            L2capOpened::Failed(text) => result matches Err(e) && e@
                == crate::error::ErrorView::Internal(text@),
            L2capOpened::Missing => result matches Err(e) && e@
                == crate::error::ErrorView::Internal("no L2CAP channel"@),
            L2capOpened::Unbridged(text) => result matches Err(e) && e@ == (
            crate::error::ErrorView::L2cap { source: text@ }),
            L2capOpened::Channel(channel) => result == Ok::<C, BlewError>(channel),
        },
{
    match opened {
        L2capOpened::Failed(text) => Err(BlewError::Internal(text)),
        L2capOpened::Missing => Err(BlewError::Internal("no L2CAP channel".to_owned())),
        L2capOpened::Unbridged(text) => Err(BlewError::L2cap { source: text }),
        L2capOpened::Channel(channel) => Ok(channel),
    }
}

/// A disconnect is refused where the device is not connected.
pub fn check_disconnect(device_id: &DeviceId, connected: bool) -> (result: BlewResult<()>)
    ensures
        result is Ok <==> connected,
        result matches Err(e) ==> e@ == crate::error::ErrorView::NotConnected(device_id@),
{
    if connected {
        Ok(())
    } else {
        Err(BlewError::NotConnected(device_id.clone()))
    }
}

/// The characteristic of a remote device, as CoreBluetooth reports it.
pub fn discovered_characteristic(uuid: Uuid, props: CbProperties, value: Vec<u8>) -> (ch:
    GattCharacteristic)
    ensures
        ch.uuid == uuid,
        same_properties(ch.properties, props),
        ch.properties@ & 0xffc0 == 0,
        ch.permissions@ == 0,
        ch.value == value,
        ch.descriptors@.len() == 0,
{
    GattCharacteristic {
        uuid,
        properties: cb_props_to_ours(props),
        permissions: AttributePermissions::empty(),
        value,
        descriptors: Vec::new(),
    }
}

proof fn lemma_none_found(services: Map<u128, ServiceView>, found: Seq<FoundService>)
    requires
        with_uuid(found) == 0,
    ensures
        with_found(services, found) == services,
    decreases found.len(),
{
    if found.len() > 0 {
        lemma_none_found(services, found.drop_last());
    }
}

/// A report of characteristics: of which service, and which, where they are
/// known.
pub struct CharacteristicsReport {
    pub service: u128,
    pub characteristics: Option<Vec<GattCharacteristic>>,
}

/// The discovery after `reports` came in, in order.
pub open spec fn after_reports(
    discovery: DiscoveryView,
    reports: Seq<CharacteristicsReport>,
) -> DiscoveryView
    decreases reports.len(),
{
    if reports.len() == 0 {
        discovery
    } else {
        after_reports(discovery, reports.drop_last()).reported(
            reports.last().service,
            reports.last().characteristics,
        )
    }
}

/// A discovery is answered with the last report of characteristics that is to
/// come, and not before, in whatever order the services are reported: the
/// report after `reports` is the last exactly where they leave one to come.
pub proof fn law_discovery_ends_with_the_last_report(
    discovery: DiscoveryView,
    reports: Seq<CharacteristicsReport>,
)
    requires
        reports.len() < discovery.pending,
    ensures
        after_reports(discovery, reports).pending == discovery.pending - reports.len(),
        after_reports(discovery, reports).tx == discovery.tx,
        after_reports(discovery, reports).is_last() <==> reports.len() + 1 == discovery.pending,
    decreases reports.len(),
{
    if reports.len() > 0 {
        law_discovery_ends_with_the_last_report(discovery, reports.drop_last());
    }
}

/// Once a device has disconnected nothing is pending on it, and everything
/// pending on other devices still is.
pub proof fn law_nothing_pends_after_a_disconnect<V>(
    pending: Map<(Seq<char>, u128), V>,
    id: Seq<char>,
    other: Seq<char>,
    uuid: u128,
)
    requires
        other != id,
    ensures
        !others(pending, id).contains_key((id, uuid)),
        others(pending, id).contains_key((other, uuid)) == pending.contains_key((other, uuid)),
        pending.contains_key((other, uuid)) ==> others(pending, id)[(other, uuid)] == pending[(
            other,
            uuid,
        )],
{
}

/// Each text that reads as a UUID contributes that UUID, in its place, whatever
/// stands before and behind it; a text that reads as none contributes nothing.
pub proof fn law_each_readable_text_is_a_uuid(
    before: Seq<String>,
    text: String,
    after: Seq<String>,
)
    ensures
        uuids_among(before + seq![text] + after) == uuids_among(before) + (
        match crate::uuids::parsed_uuid(text@) {
            Some(value) => seq![value],
            None => Seq::empty(),
        }) + uuids_among(after),
        uuids_among(Seq::empty()).len() == 0,
{
    let one = seq![text];
    law_uuid_lists_add_up(before + one, after);
    law_uuid_lists_add_up(before, one);
    assert(one.drop_last() =~= Seq::empty());
    assert(uuids_among(one.drop_last()).len() == 0);
    assert(one.last() == text);
    match crate::uuids::parsed_uuid(text@) {
        Some(value) => {
            assert(uuids_among(one) =~= seq![value]);
        },
        None => {
            assert(uuids_among(one) =~= Seq::empty());
        },
    }
}

/// The UUIDs of two lists, one behind the other, are those of the first
/// followed by those of the second.
pub proof fn law_uuid_lists_add_up(first: Seq<String>, second: Seq<String>)
    ensures
        uuids_among(first + second) == uuids_among(first) + uuids_among(second),
    decreases second.len(),
{
    if second.len() == 0 {
        assert(first + second =~= first);
        assert(uuids_among(first) + uuids_among(second) =~= uuids_among(first));
    } else {
        law_uuid_lists_add_up(first, second.drop_last());
        assert((first + second).drop_last() =~= first + second.drop_last());
        assert(uuids_among(first + second) =~= uuids_among(first) + uuids_among(second));
    }
}

/// There are as many UUIDs as texts that read as one, and where all do, each
/// text has its own in its place.
pub proof fn law_no_uuid_is_lost(texts: Seq<String>)
    ensures
        uuids_among(texts).len() == texts.filter(
            |text: String| crate::uuids::parsed_uuid(text@) is Some,
        ).len(),
        (forall|i: int|
            0 <= i < texts.len() ==> crate::uuids::parsed_uuid((#[trigger] texts[i])@) is Some)
            ==> uuids_among(texts).len() == texts.len() && forall|i: int|
            0 <= i < texts.len() ==> crate::uuids::parsed_uuid((#[trigger] texts[i])@) == Some(
                uuids_among(texts)[i],
            ),
    decreases texts.len(),
{
    reveal(Seq::filter);
    if texts.len() > 0 {
        let rest = texts.drop_last();
        law_no_uuid_is_lost(rest);
        if forall|i: int|
            0 <= i < texts.len() ==> crate::uuids::parsed_uuid(
                (#[trigger] texts[i])@,
            ) is Some {
            assert forall|i: int| 0 <= i < rest.len() implies crate::uuids::parsed_uuid(
                (#[trigger] rest[i])@,
            ) is Some by {
                assert(rest[i] == texts[i]);
            }
            assert(crate::uuids::parsed_uuid(texts[texts.len() - 1]@) is Some);
            assert forall|i: int| 0 <= i < texts.len() implies crate::uuids::parsed_uuid(
                (#[trigger] texts[i])@,
            ) == Some(uuids_among(texts)[i]) by {
                if i < rest.len() {
                    assert(crate::uuids::parsed_uuid(rest[i]@) == Some(uuids_among(rest)[i]));
                }
            }
        }
    }
}

/// Service data is known under a UUID exactly where some entry reads as it, and
/// is that of the last such entry.
pub proof fn law_service_data_is_the_latest(entries: Seq<(String, Vec<u8>)>, uuid: u128)
    ensures
        if service_data_of(entries).contains_key(uuid) {
            exists|i: int|
                {
                    &&& 0 <= i < entries.len()
                    &&& crate::uuids::parsed_uuid((#[trigger] entries[i]).0@) == Some(uuid)
                    &&& service_data_of(entries)[uuid] == entries[i].1
                    &&& forall|j: int|
                        i < j < entries.len() ==> crate::uuids::parsed_uuid(
                            (#[trigger] entries[j]).0@,
                        ) != Some(uuid)
                }
        } else {
            forall|i: int|
                0 <= i < entries.len() ==> crate::uuids::parsed_uuid((#[trigger] entries[i]).0@)
                    != Some(uuid)
        },
    decreases entries.len(),
{
    if entries.len() > 0 {
        let rest = entries.drop_last();
        let last = entries.len() - 1;
        law_service_data_is_the_latest(rest, uuid);
        if crate::uuids::parsed_uuid(entries[last].0@) == Some(uuid) {
            assert(service_data_of(entries)[uuid] == entries[last].1);
        } else if service_data_of(rest).contains_key(uuid) {
            let i = choose|i: int|
                {
                    &&& 0 <= i < rest.len()
                    &&& crate::uuids::parsed_uuid((#[trigger] rest[i]).0@) == Some(uuid)
                    &&& service_data_of(rest)[uuid] == rest[i].1
                    &&& forall|j: int|
                        i < j < rest.len() ==> crate::uuids::parsed_uuid((#[trigger] rest[j]).0@)
                            != Some(uuid)
                };
            assert(entries[i] == rest[i]);
            assert forall|j: int| i < j < entries.len() implies crate::uuids::parsed_uuid(
                (#[trigger] entries[j]).0@,
            ) != Some(uuid) by {
                if j < last {
                    assert(entries[j] == rest[j]);
                }
            }
        } else {
            assert forall|i: int| 0 <= i < entries.len() implies crate::uuids::parsed_uuid(
                (#[trigger] entries[i]).0@,
            ) != Some(uuid) by {
                if i < last {
                    assert(entries[i] == rest[i]);
                }
            }
        }
    }
}

/// A manufacturer-data field of two bytes or more is its company identifier,
/// the low byte first, followed by the payload; a shorter one says nothing.
pub proof fn law_vendor_data_is_the_field(field: Seq<u8>)
    ensures
        field.len() < 2 <==> vendor_data(field) is None,
        vendor_data(field) matches Some((company, payload)) ==> field == seq![
            (company % 256) as u8,
            (company / 256) as u8,
        ] + payload,
{
    if field.len() >= 2 {
        let (company, payload) = vendor_data(field).unwrap();
        assert(company == field[0] + 256 * field[1]);
        assert(field =~= seq![(company % 256) as u8, (company / 256) as u8] + payload);
    }
}

/// What is reported of an advertisement is what it says: its own name before
/// the cached one, its signal strength, one service for each of its UUIDs, its
/// service data, and its vendor data and no other.
pub proof fn law_device_is_what_was_advertised(
    device: BleDevice,
    id: Seq<char>,
    advertisement: Advertisement,
)
    requires
        describes(device, id, advertisement),
    ensures
        device.id@ == id,
        crate::uuids::values(device.services@) == uuids_among(advertisement.service_uuids@),
        device.service_data@ == service_data_of(advertisement.service_data@),
        advertisement.local_name is Some ==> device.name == advertisement.local_name,
        advertisement.local_name is None ==> device.name == advertisement.cached_name,
        -0x8000 <= advertisement.rssi <= 0x7fff ==> device.rssi is Some && device.rssi.unwrap()
            == advertisement.rssi,
        device.services@.len() == advertisement.service_uuids@.filter(
            |text: String| crate::uuids::parsed_uuid(text@) is Some,
        ).len(),
        (forall|i: int|
            0 <= i < advertisement.service_uuids@.len() ==> crate::uuids::parsed_uuid(
                (#[trigger] advertisement.service_uuids@[i])@,
            ) is Some) ==> forall|i: int|
            0 <= i < advertisement.service_uuids@.len() ==> crate::uuids::parsed_uuid(
                (#[trigger] advertisement.service_uuids@[i])@,
            ) == Some(device.services@[i]@),
        forall|uuid: u128, i: int|
            #![trigger device.service_data@.contains_key(uuid), advertisement.service_data@[i]]
            0 <= i < advertisement.service_data@.len() && crate::uuids::parsed_uuid(
                advertisement.service_data@[i].0@,
            ) == Some(uuid) ==> device.service_data@.contains_key(uuid),
        match advertisement.manufacturer_data {
            Some(field) => {
                &&& field@.len() < 2 ==> device.manufacturer_data@.dom().is_empty()
                &&& field@.len() >= 2 ==> forall|company: u16| #[trigger]
                    device.manufacturer_data@.contains_key(company) <==> company % 256
                        == field@[0] && company / 256 == field@[1]
                &&& field@.len() >= 2 ==> forall|company: u16| #[trigger]
                    device.manufacturer_data@.contains_key(company)
                        ==> device.manufacturer_data@[company]@ == field@.subrange(
                        2,
                        field@.len() as int,
                    )
            },
            None => device.manufacturer_data@.dom().is_empty(),
        },
{
    let texts = advertisement.service_uuids@;
    law_no_uuid_is_lost(texts);
    let values = crate::uuids::values(device.services@);
    assert(values.len() == device.services@.len());
    assert forall|i: int| 0 <= i < device.services@.len() implies device.services@[i]@
        == #[trigger] values[i] by {}
    if forall|i: int|
        0 <= i < texts.len() ==> crate::uuids::parsed_uuid((#[trigger] texts[i])@) is Some {
        assert forall|i: int| 0 <= i < texts.len() implies crate::uuids::parsed_uuid(
            (#[trigger] texts[i])@,
        ) == Some(device.services@[i]@) by {
            assert(values[i] == device.services@[i]@);
        }
    }
    assert forall|uuid: u128, i: int|
        #![trigger device.service_data@.contains_key(uuid), advertisement.service_data@[i]]
        0 <= i < advertisement.service_data@.len() && crate::uuids::parsed_uuid(
            advertisement.service_data@[i].0@,
        ) == Some(uuid) implies device.service_data@.contains_key(uuid) by {
        law_service_data_is_the_latest(advertisement.service_data@, uuid);
    }
    if let Some(field) = advertisement.manufacturer_data {
        law_vendor_data_is_the_field(field@);
        if field@.len() >= 2 {
            let (company, payload) = vendor_data(field@).unwrap();
            assert(field@[0] == (company % 256) as u8);
            assert(field@[1] == (company / 256) as u8);
            assert(payload =~= field@.subrange(2, field@.len() as int));
            assert forall|other: u16| #[trigger]
                device.manufacturer_data@.contains_key(other) <==> other % 256 == field@[0]
                    && other / 256 == field@[1] by {
                assert(set![company].contains(other) <==> other == company);
            }
        }
    }
}

/// As many reports of characteristics are awaited as services were found with a
/// readable UUID.
pub proof fn law_a_report_is_awaited_for_each_service(
    first: Seq<FoundService>,
    service: FoundService,
)
    ensures
        with_uuid(first.push(service)) == with_uuid(first) + if service.uuid is Some {
            1int
        } else {
            0
        },
        with_uuid(Seq::empty()) == 0,
        with_uuid(first) == first.filter(|f: FoundService| f.uuid is Some).len(),
    decreases first.len(),
{
    reveal(Seq::filter);
    assert(first.push(service).drop_last() =~= first);
    if first.len() > 0 {
        law_a_report_is_awaited_for_each_service(first.drop_last(), service);
    }
}

/// A discovery knows the services that it knew and those that were found with a
/// readable UUID, and no others. One that was found is as it was found last,
/// without characteristics; another is as it was.
pub proof fn law_found_services_are_known(
    services: Map<u128, ServiceView>,
    found: Seq<FoundService>,
    uuid: u128,
)
    ensures
        if exists|i: int|
            0 <= i < found.len() && (#[trigger] found[i]).uuid is Some && found[i].uuid.unwrap()@ == uuid {
            &&& with_found(services, found).contains_key(uuid)
            &&& with_found(services, found)[uuid].uuid == uuid
            &&& with_found(services, found)[uuid].characteristics.len() == 0
            &&& exists|i: int|
                {
                    &&& 0 <= i < found.len()
                    &&& (#[trigger] found[i]).uuid is Some && found[i].uuid.unwrap()@ == uuid
                    &&& with_found(services, found)[uuid].primary == found[i].primary
                    &&& forall|j: int|
                        i < j < found.len() ==> !((#[trigger] found[j]).uuid is Some && found[j].uuid.unwrap()@ == uuid)
                }
        } else {
            &&& with_found(services, found).contains_key(uuid) == services.contains_key(uuid)
            &&& services.contains_key(uuid) ==> with_found(services, found)[uuid] == services[uuid]
        },
    decreases found.len(),
{
    if found.len() > 0 {
        let rest = found.drop_last();
        let last = found.len() - 1;
        law_found_services_are_known(services, rest, uuid);
        let is_last = found[last].uuid is Some && found[last].uuid.unwrap()@ == uuid;
        if is_last {
            assert(found[last].uuid is Some);
        } else if exists|i: int|
            0 <= i < rest.len() && (#[trigger] rest[i]).uuid is Some && rest[i].uuid.unwrap()@ == uuid {
            let i = choose|i: int|
                {
                    &&& 0 <= i < rest.len()
                    &&& (#[trigger] rest[i]).uuid is Some && rest[i].uuid.unwrap()@ == uuid
                    &&& with_found(services, rest)[uuid].primary == rest[i].primary
                    &&& forall|j: int|
                        i < j < rest.len() ==> !((#[trigger] rest[j]).uuid is Some && rest[j].uuid.unwrap()@ == uuid)
                };
            assert(found[i] == rest[i]);
            assert forall|j: int| i < j < found.len() implies !((#[trigger] found[j]).uuid is Some && found[j].uuid.unwrap()@ == uuid) by {
                if j < last {
                    assert(found[j] == rest[j]);
                }
            }
        } else {
            if exists|i: int|
                0 <= i < found.len() && (#[trigger] found[i]).uuid is Some && found[i].uuid.unwrap()@ == uuid {
                let i = choose|i: int|
                    0 <= i < found.len() && (#[trigger] found[i]).uuid is Some && found[i].uuid.unwrap()@ == uuid;
                assert(found[i] == rest[i]);
            }
        }
    }
}

/// A report of characteristics gives the service that it is about those
/// characteristics, each as it is, in order; that service is otherwise as it
/// was, and so is every other. A report for a service that was not found, or of
/// nothing, changes no service.
pub proof fn law_characteristics_go_to_their_service(
    discovery: DiscoveryView,
    uuid: u128,
    characteristics: Option<Vec<GattCharacteristic>>,
    other: u128,
    i: int,
)
    requires
        other != uuid,
    ensures
        ({
            let after = discovery.reported(uuid, characteristics);
            &&& after.tx == discovery.tx
            &&& after.services.dom() == discovery.services.dom()
            &&& discovery.services.contains_key(other) ==> after.services[other]
                == discovery.services[other]
            &&& discovery.services.contains_key(uuid) ==> {
                &&& after.services[uuid].uuid == discovery.services[uuid].uuid
                &&& after.services[uuid].primary == discovery.services[uuid].primary
                &&& characteristics is None ==> after.services[uuid] == discovery.services[uuid]
                &&& characteristics matches Some(chars) ==> {
                    &&& after.services[uuid].characteristics.len() == chars@.len()
                    &&& 0 <= i < chars@.len() ==> {
                        let ch = after.services[uuid].characteristics[i];
                        &&& ch.uuid == chars@[i].uuid@
                        &&& ch.properties == chars@[i].properties@
                        &&& ch.permissions == chars@[i].permissions@
                        &&& ch.value == chars@[i].value@
                    }
                }
            }
        }),
{
    assert(discovery.reported(uuid, characteristics).services.dom()
        =~= discovery.services.dom());
}

/// Whoever asked for the services gets each service that was found, once, and
/// no other.
pub proof fn law_every_service_is_given_once(
    answer: Outgoing<BlewResult<Vec<GattService>>>,
    list: Vec<GattService>,
    tx: Replier<BlewResult<Vec<GattService>>>,
    services: Map<u128, ServiceView>,
    uuid: u128,
    i: int,
)
    requires
        gives_services(Some(answer), tx, services),
        answer.value == Ok::<Vec<GattService>, BlewError>(list),
    ensures
        answer.to == tx,
        services.dom().finite(),
        list@.len() == services.dom().len(),
        services.contains_key(uuid) ==> exists|k: int|
            0 <= k < list@.len() && (#[trigger] list@[k])@ == services[uuid],
        0 <= i < list@.len() ==> exists|u: u128| #[trigger]
            services.contains_key(u) && services[u] == list@[i]@,
{
    let views = crate::gatt::service::service_views(list@);
    crate::util::callback_slots::law_enumeration_is_complete(views, services, uuid, i);
    if services.contains_key(uuid) {
        let k = choose|k: int| 0 <= k < views.len() && views[k] == services[uuid];
        assert(list@[k]@ == views[k]);
    }
}

/// A discovery that is over is answered with services, not with an error.
pub proof fn law_a_finished_discovery_succeeds(
    answer: Option<Outgoing<BlewResult<Vec<GattService>>>>,
    tx: Replier<BlewResult<Vec<GattService>>>,
    services: Map<u128, ServiceView>,
)
    requires
        gives_services(answer, tx, services),
    ensures
        answer is Some,
        answer.unwrap().to == tx,
        answer.unwrap().value is Ok,
{
}

/// The properties that CoreBluetooth knows are those with these bits of the GATT
/// layout, each on its own.
pub proof fn law_properties_are_their_bits(ours: CharacteristicProperties, theirs: CbProperties)
    requires
        same_properties(ours, theirs),
    ensures
        theirs.broadcast == (ours@ & 0x01 != 0),
        theirs.read == (ours@ & 0x02 != 0),
        theirs.write_without_response == (ours@ & 0x04 != 0),
        theirs.write == (ours@ & 0x08 != 0),
        theirs.notify == (ours@ & 0x10 != 0),
        theirs.indicate == (ours@ & 0x20 != 0),
{
    let b = ours@;
    assert((b & 0x01u16 == 0x01u16) == (b & 0x01u16 != 0) && (b & 0x02u16 == 0x02u16) == (b
        & 0x02u16 != 0) && (b & 0x04u16 == 0x04u16) == (b & 0x04u16 != 0) && (b & 0x08u16
        == 0x08u16) == (b & 0x08u16 != 0) && (b & 0x10u16 == 0x10u16) == (b & 0x10u16 != 0) && (b
        & 0x20u16 == 0x20u16) == (b & 0x20u16 != 0)) by (bit_vector);
}

/// A result that CoreBluetooth reports is the value where it names no error, and
/// its words where it does.
pub proof fn law_a_report_is_value_or_error<T>(
    result: BlewResult<T>,
    value: T,
    error: Option<String>,
)
    requires
        is_reported(result, value, error),
    ensures
        error is None ==> result == Ok::<T, BlewError>(value),
        error matches Some(text) ==> result matches Err(BlewError::Internal(words)) && words@
            == text@,
{
}

/// After a disconnect everyone who waited for something of the device is told,
/// once each and with its name, and what waits for other devices still waits.
pub proof fn law_a_disconnect_answers_its_own<T>(
    answers: Seq<Outgoing<BlewResult<T>>>,
    pending: Map<(Seq<char>, u128), Replier<BlewResult<T>>>,
    id: Seq<char>,
    other: Seq<char>,
    uuid: u128,
)
    requires
        fails_all(answers, pending, id),
        other != id,
    ensures
        pending.contains_key((id, uuid)) ==> exists|i: int|
            {
                &&& 0 <= i < answers.len()
                &&& (#[trigger] answers[i]).to == pending[(id, uuid)]
            },
        forall|i: int|
            0 <= i < answers.len() ==> ((#[trigger] answers[i]).value matches Err(e) && e@
                == crate::error::ErrorView::DisconnectedDuringOperation(id)) && exists|u: u128|
                pending.contains_key((id, u)) && answers[i].to == #[trigger] pending[(id, u)],
        !others(pending, id).contains_key((id, uuid)),
        others(pending, id).contains_key((other, uuid)) == pending.contains_key((other, uuid)),
        pending.contains_key((other, uuid)) ==> others(pending, id)[(other, uuid)]
            == pending[(other, uuid)],
{
    let uuids = choose|uuids: Seq<u128>| fails_listed(answers, pending, id, uuids);
    if pending.contains_key((id, uuid)) {
        let i = choose|i: int| 0 <= i < uuids.len() && #[trigger] uuids[i] == uuid;
        assert(answers[i].to == pending[(id, uuids[i])]);
    }
    assert forall|i: int| 0 <= i < answers.len() implies ((#[trigger] answers[i]).value matches Err(
        e,
    ) && e@ == crate::error::ErrorView::DisconnectedDuringOperation(id)) && exists|u: u128|
        pending.contains_key((id, u)) && answers[i].to == #[trigger] pending[(id, u)] by {
        assert(pending.contains_key((id, uuids[i])));
        assert(answers[i].to == pending[(id, uuids[i])]);
    }
}

/// One who waits for a device that disconnects is told so; where nobody waits,
/// nobody is.
pub proof fn law_a_disconnect_answers_who_waits<T>(
    answer: Option<Outgoing<BlewResult<T>>>,
    pending: Map<Seq<char>, Replier<BlewResult<T>>>,
    id: Seq<char>,
)
    requires
        fails_one(answer, pending, id),
    ensures
        match answer {
            Some(out) => pending.contains_key(id) && out.to == pending[id] && (
            out.value matches Err(e) && e@
                == crate::error::ErrorView::DisconnectedDuringOperation(id)),
            None => !pending.contains_key(id),
        },
{
}

/// An operation is refused by a device that is not connected as not connected,
/// and otherwise for want of its characteristic.
pub proof fn law_refusals_name_their_reason(device_id: Seq<char>, char_uuid: u128)
    ensures
        operation_error(false, device_id, char_uuid) == crate::error::ErrorView::NotConnected(
            device_id,
        ),
        operation_error(true, device_id, char_uuid) == (
        crate::error::ErrorView::CharacteristicNotFound { device_id, char_uuid }),
{
}

/// A service has a characteristic exactly where its UUID is among those that
/// were discovered, wherever it stands; one whose characteristics were not
/// discovered has none.
pub proof fn law_a_characteristic_is_found_anywhere(chars: Vec<Uuid>, target: Uuid)
    ensures
        lists_uuid(Some(chars), target@) <==> crate::uuids::values(chars@).contains(target@),
        !lists_uuid(None, target@),
{
    let values = crate::uuids::values(chars@);
    if lists_uuid(Some(chars), target@) {
        let j = choose|j: int| 0 <= j < chars@.len() && (#[trigger] chars@[j])@ == target@;
        assert(values[j] == target@);
        assert(values.contains(values[j]));
    }
    if values.contains(target@) {
        let j = choose|j: int| 0 <= j < values.len() && values[j] == target@;
        assert(values.len() == chars@.len());
        let service = Some(chars);
        assert(service->Some_0@[j]@ == target@);
    }
}

/// What is held under a key is what was put there last, and other keys do not
/// matter.
pub proof fn law_what_is_held_is_what_was_put<K, V>(map: Map<K, V>, key: K, value: V, other: K)
    requires
        other != key,
    ensures
        held(map.insert(key, value), key) == Some(value),
        held(map.remove(key), key) is None,
        held(map.insert(other, value), key) == held(map, key),
        held(map, key) is Some <==> map.contains_key(key),
{
}

} // verus!
