//! What the callbacks of the Kotlin side mean. A callback whose strings cannot
//! be read, or whose UUIDs are none, is dropped.
use super::central::{read_key_text, write_key_text, CentralState};
use super::services_json::parse_services_json;
use crate::bits::{low_i16, low_u16};
use crate::central::types::{CentralEvent, DisconnectCause};
use crate::error::{BlewError, BlewResult};
use crate::gatt::service::GattService;
use crate::l2cap::types::Psm;
use crate::peripheral::types::{
    PeripheralRequest, PeripheralStateEvent, ReadAnswer, ReadResponder, WriteResponder,
};
use crate::text::{contains_text, decimal_text};
use crate::types::{BleDevice, DeviceId};
use crate::util::key_map::KeyMap;
use crate::util::notify_gate::NotifyGates;
use crate::util::reply::{Outgoing, Reply};
use crate::uuids::{parse_list, Uuid};
use vstd::prelude::*;

verus! {

/// The UUID that `text` gives.
pub open spec fn given_uuid(text: Option<String>) -> Option<u128> {
    match text {
        Some(t) => crate::uuids::parsed_uuid(t@),
        None => None,
    }
}

/// The UUID that `text` gives.
fn uuid_from(text: &Option<String>) -> (uuid: Option<Uuid>)
    ensures
        match uuid {
            Some(u) => given_uuid(*text) == Some(u@),
            None => given_uuid(*text) is None,
        },
{
    match text {
        Some(t) => Uuid::parse_str(t.as_str()),
        None => None,
    }
}

/// A central reads a characteristic: the request for the application, and
/// where its answer arrives.
pub fn on_read_request(
    device_addr: Option<String>,
    service_uuid: Option<String>,
    char_uuid: Option<String>,
    offset: i32,
) -> (taken: Option<(PeripheralRequest, Reply<ReadAnswer>)>)
    ensures
        taken is Some <==> device_addr is Some && given_uuid(service_uuid) is Some && given_uuid(
            char_uuid,
        ) is Some,
        taken matches Some((request, reply)) ==> {
            &&& request matches PeripheralRequest::Read {
                client_id,
                service_uuid: svc,
                char_uuid: chr,
                offset: at,
                responder,
            }
            &&& client_id@ == device_addr.unwrap()@
            &&& Some(svc@) == given_uuid(service_uuid)
            &&& Some(chr@) == given_uuid(char_uuid)
            &&& at == crate::bits::low16(offset as int)
            &&& responder.asker() matches Some(tx)
            &&& tx.channel() == reply.channel()
            &&& responder.drop_answer() == Some(Err::<Vec<u8>, ()>(()))
        },
{
    match (device_addr, uuid_from(&service_uuid), uuid_from(&char_uuid)) {
        (Some(addr), Some(svc), Some(chr)) => {
            let (responder, reply) = ReadResponder::channel();
            let request = PeripheralRequest::Read {
                client_id: DeviceId::from(addr),
                service_uuid: svc,
                char_uuid: chr,
                offset: low_u16(offset as i64),
                responder,
            };
            Some((request, reply))
        },
        _ => None,
    }
}

/// A central writes a characteristic: the request for the application, and,
/// where a response is needed, where its answer arrives.
pub fn on_write_request(
    device_addr: Option<String>,
    service_uuid: Option<String>,
    char_uuid: Option<String>,
    value: Vec<u8>,
    response_needed: bool,
) -> (taken: Option<(PeripheralRequest, Option<Reply<bool>>)>)
    ensures
        taken is Some <==> device_addr is Some && given_uuid(service_uuid) is Some && given_uuid(
            char_uuid,
        ) is Some,
        taken matches Some((request, reply)) ==> {
            &&& request matches PeripheralRequest::Write {
                client_id,
                service_uuid: svc,
                char_uuid: chr,
                offset,
                value: written,
                responder,
            }
            &&& client_id@ == device_addr.unwrap()@
            &&& Some(svc@) == given_uuid(service_uuid)
            &&& Some(chr@) == given_uuid(char_uuid)
            &&& offset == 0
            &&& written == value
            &&& responder is Some <==> response_needed
            &&& reply is Some <==> response_needed
            &&& responder matches Some(r) ==> {
                &&& r.drop_answer() == Some(false)
                &&& r.asker() matches Some(tx)
                &&& tx.channel() == reply.unwrap().channel()
            }
        },
{
    match (device_addr, uuid_from(&service_uuid), uuid_from(&char_uuid)) {
        (Some(addr), Some(svc), Some(chr)) => {
            let (responder, reply) = if response_needed {
                let (responder, reply) = WriteResponder::channel();
                (Some(responder), Some(reply))
            } else {
                (None, None)
            };
            let request = PeripheralRequest::Write {
                client_id: DeviceId::from(addr),
                service_uuid: svc,
                char_uuid: chr,
                offset: 0,
                value,
                responder,
            };
            Some((request, reply))
        },
        _ => None,
    }
}

/// A central subscribed to a characteristic, or unsubscribed from it.
pub fn on_subscription_changed(
    device_addr: Option<String>,
    char_uuid: Option<String>,
    subscribed: bool,
) -> (event: Option<PeripheralStateEvent>)
    ensures
        event is Some <==> device_addr is Some && given_uuid(char_uuid) is Some,
        event matches Some(e) ==> {
            &&& e matches PeripheralStateEvent::SubscriptionChanged {
                client_id,
                char_uuid: chr,
                subscribed: now,
            }
            &&& client_id@ == device_addr.unwrap()@
            &&& Some(chr@) == given_uuid(char_uuid)
            &&& now == subscribed
        },
{
    match (device_addr, uuid_from(&char_uuid)) {
        (Some(addr), Some(chr)) => Some(
            PeripheralStateEvent::SubscriptionChanged {
                client_id: DeviceId::from(addr),
                char_uuid: chr,
                subscribed,
            },
        ),
        _ => None,
    }
}

/// The stack reported the notification in flight to a device: its send is told
/// that it completed, or with which status it failed.
pub fn on_notification_sent(gates: &mut NotifyGates, device_addr: Option<String>, status: i32)
    ensures
        match device_addr {
            None => *final(gates) == *old(gates),
            Some(addr) => {
                &&& final(gates).tidied(*old(gates), old(gates)@.clear(addr@), addr@)
                &&& match old(gates)@.waiter(addr@) {
                    None => final(gates).told() == old(gates).told(),
                    Some(waiter) => {
                        let result = final(gates).told().last().value;
                        &&& crate::util::reply::adds_answer(
                            old(gates).told(),
                            final(gates).told(),
                            waiter,
                            result,
                        )
                        &&& match result {
                            Ok(_) => status == 0,
                            Err(e) => status != 0 && e@ == (crate::error::ErrorView::Peripheral {
                                source: "notification failed: status "@
                                    + crate::text::signed_decimal(status as int),
                            }),
                        }
                    },
                }
            },
        },
{
    match device_addr {
        None => {},
        Some(addr) => {
            let result = if status == 0 {
                Ok(())
            } else {
                Err(
                    BlewError::Peripheral {
                        source: "notification failed: status ".to_owned().concat(
                            decimal_text(status as i128).as_str(),
                        ),
                    },
                )
            };
            gates.complete(addr.as_str(), result);
        },
    }
}

/// A central connected to the peripheral, or disconnected from it, which ends
/// the notification in flight to it: no report of it will come.
pub fn on_central_state_changed(
    gates: &mut NotifyGates,
    device_addr: Option<String>,
    connected: bool,
)
    ensures
        connected || device_addr is None ==> *final(gates) == *old(gates),
        !connected ==> (device_addr matches Some(addr) ==> {
            &&& final(gates).tidied(*old(gates), old(gates)@.clear(addr@), addr@)
            &&& match old(gates)@.waiter(addr@) {
                None => final(gates).told() == old(gates).told(),
                Some(waiter) => {
                    let result = final(gates).told().last().value;
                    &&& crate::util::reply::adds_answer(
                        old(gates).told(),
                        final(gates).told(),
                        waiter,
                        result,
                    )
                    &&& result matches Err(e)
                    &&& e@ == crate::error::ErrorView::DisconnectedDuringOperation(addr@)
                },
            }
        }),
{
    match device_addr {
        Some(addr) => {
            if !connected {
                gates.disconnect(addr.as_str());
            }
        },
        None => {},
    }
}

/// A device was seen. Its services come as a comma-separated list.
pub fn on_device_discovered(
    device_addr: Option<String>,
    device_name: Option<String>,
    rssi: i32,
    service_uuids: Option<String>,
) -> (device: Option<BleDevice>)
    ensures
        device is Some <==> device_addr is Some,
        device matches Some(d) ==> {
            &&& d.id@ == device_addr.unwrap()@
            &&& d.name == device_name
            &&& d.rssi matches Some(low) && low == crate::bits::low16_signed(rssi as int)
            &&& crate::uuids::values(d.services@) == (match service_uuids {
                Some(list) => crate::uuids::uuids_in(crate::text::pieces(list@, ',')),
                None => Seq::empty(),
            })
            &&& d.manufacturer_data@ == Map::<u16, Vec<u8>>::empty()
            &&& d.service_data@ == Map::<u128, Vec<u8>>::empty()
        },
{
    match device_addr {
        None => None,
        Some(addr) => {
            let services = match service_uuids {
                Some(list) => parse_list(list.as_str()),
                None => Vec::new(),
            };
            assert(service_uuids is None ==> crate::uuids::values(services@) =~= Seq::empty());
            Some(
                BleDevice {
                    id: DeviceId::from(addr),
                    name: device_name,
                    rssi: Some(low_i16(rssi as i64)),
                    services,
                    manufacturer_data: KeyMap::new(),
                    service_data: KeyMap::new(),
                },
            )
        },
    }
}

/// What the change of a connection comes to.
pub struct ConnectionChange {
    /// The answer to a connect in flight.
    pub connect: Option<Outgoing<BlewResult<()>>>,
    /// The answer to a disconnect in flight.
    pub disconnect: Option<Outgoing<()>>,
    /// What is announced.
    pub event: CentralEvent,
}

/// A device connected, or disconnected for `cause`. A connection is reported
/// only after its MTU was negotiated, so a disconnect also fails a connect that
/// is still in flight; it is what a disconnect in flight waits for; and no read
/// or write of the device in flight will be reported any more.
pub fn on_connection_state_changed(
    state: &mut CentralState,
    device_addr: Option<String>,
    connected: bool,
    cause: DisconnectCause,
) -> (change: Option<ConnectionChange>)
    ensures
        change is Some <==> device_addr is Some,
        match change {
            None => final(state)@ == old(state)@,
            Some(c) => {
                let addr = device_addr.unwrap()@;
                let before = old(state)@;
                if connected {
                    &&& c.connect == crate::util::request_map::reply_at(
                        before.connects,
                        addr,
                        Ok::<(), BlewError>(()),
                    )
                    &&& c.disconnect is None
                    &&& c.event matches CentralEvent::DeviceConnected { device_id }
                    &&& device_id@ == addr
                    &&& final(state)@ == (super::central::CentralView {
                        connects: before.connects.remove(addr),
                        ..before
                    })
                } else {
                    &&& c.connect is Some <==> before.connects.contains_key(addr)
                    &&& c.connect matches Some(out) ==> {
                        &&& out.to == before.connects[addr]
                        &&& out.value matches Err(e)
                        &&& e@ == crate::error::ErrorView::NotConnected(addr)
                    }
                    &&& c.disconnect == crate::util::request_map::reply_at(
                        before.disconnects,
                        addr,
                        (),
                    )
                    &&& c.event matches CentralEvent::DeviceDisconnected { device_id, cause: why }
                    &&& device_id@ == addr
                    &&& why == cause
                    &&& final(state)@ == (super::central::CentralView {
                        connects: before.connects.remove(addr),
                        disconnects: before.disconnects.remove(addr),
                        ..before.retire(addr)
                    })
                }
            },
        },
{
    match device_addr {
        None => None,
        Some(addr) => {
            if connected {
                let connect = state.complete_connect(addr.as_str(), Ok(()));
                Some(
                    ConnectionChange {
                        connect,
                        disconnect: None,
                        event: CentralEvent::DeviceConnected { device_id: DeviceId::from(addr) },
                    },
                )
            } else {
                let connect = state.complete_connect(
                    addr.as_str(),
                    Err(BlewError::NotConnected(DeviceId::from(addr.as_str()))),
                );
                let disconnect = state.complete_disconnect(addr.as_str());
                state.retire(addr.as_str());
                Some(
                    ConnectionChange {
                        connect,
                        disconnect,
                        event: CentralEvent::DeviceDisconnected {
                            device_id: DeviceId::from(addr),
                            cause,
                        },
                    },
                )
            }
        },
    }
}

/// The services of a device were discovered: the answer to the discovery in
/// flight.
pub fn on_services_discovered(
    state: &mut CentralState,
    device_addr: Option<String>,
    services_json: Option<String>,
) -> (answer: Option<Outgoing<BlewResult<Vec<GattService>>>>)
    ensures
        device_addr is None || services_json is None ==> answer is None && final(state)@ == old(
            state,
        )@,
        device_addr is Some && services_json is Some ==> {
            let addr = device_addr.unwrap()@;
            let before = old(state)@;
            &&& final(state)@ == (super::central::CentralView {
                discoveries: before.discoveries.remove(addr),
                ..before
            })
            &&& answer is Some <==> before.discoveries.contains_key(addr)
            &&& answer matches Some(out) ==> {
                &&& out.to == before.discoveries[addr]
                &&& out.value matches Ok(services)
                &&& match super::services_json::parsed_array(services_json.unwrap()@) {
                    Some(trees) => super::services_json::are_reported_services(
                        services@,
                        super::services_json::reported_services(trees),
                    ),
                    None => services@.len() == 0,
                }
            }
        },
{
    match (device_addr, services_json) {
        (Some(addr), Some(json)) => {
            let services = parse_services_json(json.as_str());
            state.complete_discover_services(addr.as_str(), Ok(services))
        },
        _ => None,
    }
}

/// The result of a read or a write that Kotlin reports with `status`: `data`
/// where it succeeded; `failed`, with the status, where it did not.
pub open spec fn is_operation_report(
    result: BlewResult<Vec<u8>>,
    status: i32,
    addr: Seq<char>,
    data: Seq<u8>,
    failed: Seq<char>,
) -> bool {
    match result {
        Ok(value) => status == 0 && value@ == data,
        Err(e) => status != 0 && e@ == (crate::error::ErrorView::Gatt {
            device_id: addr,
            source: failed + crate::text::signed_decimal(status as int),
        }),
    }
}

/// The result of a read or a write that Kotlin reports with `status`.
fn operation_report(status: i32, addr: &str, data: Vec<u8>, failed: &str) -> (result: BlewResult<
    Vec<u8>,
>)
    ensures
        is_operation_report(result, status, addr@, data@, failed@),
{
    if status == 0 {
        Ok(data)
    } else {
        Err(
            BlewError::Gatt {
                device_id: DeviceId::from(addr),
                source: failed.to_owned().concat(decimal_text(status as i128).as_str()),
            },
        )
    }
}

/// A read was reported: the one that holds the characteristic's key is told.
/// `false` where none holds it, or its caller had stopped waiting.
pub fn on_characteristic_read(
    state: &mut CentralState,
    device_addr: Option<String>,
    char_uuid: Option<String>,
    value: Vec<u8>,
    status: i32,
) -> (delivered: bool)
    ensures
        device_addr is None || char_uuid is None ==> !delivered && final(state)@ == old(state)@,
        device_addr is Some && char_uuid is Some ==> {
            let addr = device_addr.unwrap()@;
            let key = super::central::read_key(
                addr,
                old(state)@.epoch(addr),
                char_uuid.unwrap()@,
            );
            let held = old(state)@.ops.contains_key(key);
            let result = final(state)@.op_results.last().value;
            &&& final(state)@ == old(state)@.report(key, result, delivered)
            &&& delivered ==> held
            &&& held ==> is_operation_report(
                result,
                status,
                addr,
                value@,
                "GATT read failed: status "@,
            )
        },
{
    match (device_addr, char_uuid) {
        (Some(addr), Some(chr)) => {
            let result = operation_report(
                status,
                addr.as_str(),
                value,
                "GATT read failed: status ",
            );
            let epoch: u64 = state.epoch(addr.as_str());
            let key = read_key_text(addr.as_str(), epoch, chr.as_str());
            state.complete_pending(key.as_str(), result)
        },
        _ => false,
    }
}

/// A write was reported: the one that holds the characteristic's key is told.
/// `false` where none holds it, or its caller had stopped waiting.
pub fn on_characteristic_write(
    state: &mut CentralState,
    device_addr: Option<String>,
    char_uuid: Option<String>,
    status: i32,
) -> (delivered: bool)
    ensures
        device_addr is None || char_uuid is None ==> !delivered && final(state)@ == old(state)@,
        device_addr is Some && char_uuid is Some ==> {
            let addr = device_addr.unwrap()@;
            let key = super::central::write_key(
                addr,
                old(state)@.epoch(addr),
                char_uuid.unwrap()@,
            );
            let held = old(state)@.ops.contains_key(key);
            let result = final(state)@.op_results.last().value;
            &&& final(state)@ == old(state)@.report(key, result, delivered)
            &&& delivered ==> held
            &&& held ==> is_operation_report(
                result,
                status,
                addr,
                Seq::empty(),
                "GATT write failed: status "@,
            )
        },
{
    match (device_addr, char_uuid) {
        (Some(addr), Some(chr)) => {
            let value: Vec<u8> = Vec::new();
            let result = operation_report(
                status,
                addr.as_str(),
                value,
                "GATT write failed: status ",
            );
            let epoch: u64 = state.epoch(addr.as_str());
            let key = write_key_text(addr.as_str(), epoch, chr.as_str());
            state.complete_pending(key.as_str(), result)
        },
        _ => false,
    }
}

/// A subscribed characteristic sent a value.
pub fn on_characteristic_changed(
    device_addr: Option<String>,
    char_uuid: Option<String>,
    value: Vec<u8>,
) -> (event: Option<CentralEvent>)
    ensures
        event is Some <==> device_addr is Some && given_uuid(char_uuid) is Some,
        event matches Some(e) ==> {
            &&& e matches CentralEvent::CharacteristicNotification {
                device_id,
                char_uuid: chr,
                value: sent,
            }
            &&& device_id@ == device_addr.unwrap()@
            &&& Some(chr@) == given_uuid(char_uuid)
            &&& sent == value
        },
{
    match (device_addr, uuid_from(&char_uuid)) {
        (Some(addr), Some(chr)) => Some(
            CentralEvent::CharacteristicNotification {
                device_id: DeviceId::from(addr),
                char_uuid: chr,
                value,
            },
        ),
        _ => None,
    }
}

/// An MTU was negotiated.
pub fn on_mtu_changed(state: &mut CentralState, device_addr: Option<String>, mtu: i32)
    ensures
        final(state)@ == (match device_addr {
            Some(addr) => super::central::CentralView {
                mtus: old(state)@.mtus.insert(addr@, crate::bits::low16(mtu as int) as u16),
                ..old(state)@
            },
            None => old(state)@,
        }),
{
    match device_addr {
        Some(addr) => state.set_mtu(addr.as_str(), low_u16(mtu as i64)),
        None => {},
    }
}

/// The PSM of an L2CAP server that opened.
pub fn on_l2cap_server_opened(psm: i32) -> (result: BlewResult<Psm>)
    ensures
        result matches Ok(opened) && opened.0 == crate::bits::low16(psm as int),
{
    Ok(Psm(low_u16(psm as i64)))
}

/// What an L2CAP server failed with: on an Android without L2CAP sockets, that
/// it is not supported.
pub fn on_l2cap_server_error(error_message: Option<String>) -> (result: BlewResult<Psm>)
    ensures
        result matches Err(e) && e@ == ({
            let message = match error_message {
                Some(m) => m@,
                None => Seq::empty(),
            };
            if crate::text::occurs("API 29"@, message) {
                crate::error::ErrorView::NotSupported
            } else {
                crate::error::ErrorView::L2cap { source: message }
            }
        }),
{
    let message = match error_message {
        Some(message) => message,
        None => String::new(),
    };
    if contains_text(message.as_str(), "API 29") {
        Err(BlewError::NotSupported)
    } else {
        Err(BlewError::L2cap { source: message })
    }
}

/// An operation succeeded with its data exactly where the status is zero, and
/// failed otherwise, with the device and the status.
pub proof fn law_a_report_is_data_or_status(
    result: BlewResult<Vec<u8>>,
    status: i32,
    addr: Seq<char>,
    data: Seq<u8>,
    failed: Seq<char>,
)
    requires
        is_operation_report(result, status, addr, data, failed),
    ensures
        result is Ok <==> status == 0,
        result matches Ok(value) ==> value@ == data,
        result matches Err(e) ==> e@ == (crate::error::ErrorView::Gatt {
            device_id: addr,
            source: failed + crate::text::signed_decimal(status as int),
        }),
{
}

/// A text gives the UUID that it reads as, and no text gives none.
pub proof fn law_a_text_gives_its_uuid(text: String)
    ensures
        given_uuid(Some(text)) == crate::uuids::parsed_uuid(text@),
        given_uuid(None) is None,
{
}

} // verus!
