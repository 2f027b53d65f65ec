use blew::central::backend::operation_result;
use blew::central::types::{CentralEvent, DisconnectCause, ScanFilter, ScanMode, WriteType};
use blew::error::BlewError;
use blew::gatt::props::{AttributePermissions, CharacteristicProperties};
use blew::gatt::service::{GattCharacteristic, GattService};
use blew::l2cap::types::{L2capCloseReason, L2capConfig, L2capEncryption, Psm};
use blew::peripheral::types::{
    AdvertisingConfig, Delivery, LocalName, PeripheralRequest, PeripheralStateEvent,
};
use blew::platform::android::central::{
    disconnect_callback_timeout, gatt_status_to_error, jni_err, operation_status, refreshed, start_scan, write_result, AndroidCentral, CentralState,
};
use blew::platform::android::jni_globals::{init_jvm, is_initialized, JniGlobals, JvmInit};
use blew::platform::android::jni_hooks::{
    on_characteristic_changed, on_characteristic_read, on_characteristic_write,
    on_central_state_changed, on_connection_state_changed, on_device_discovered, on_notification_sent, on_l2cap_server_error,
    on_l2cap_server_opened, on_mtu_changed, on_read_request, on_services_discovered,
    on_subscription_changed, on_write_request,
};
use blew::platform::android::l2cap_state::{
    after_outbound_read, queue_capacity, CloseStep, read_buffer_size, secure_flag, L2capState, OutboundStep,
    Route,
};
use blew::platform::android::peripheral::{
    adapter_name, advertise_plan, advertising_started, after_notify, begin_advertising, blew_perms_to_android, blew_props_to_android,
    l2cap_server_cancelled, notify_timeout, service_arrays, stop_advertising, AndroidPeripheral,
    NotifyAttempt,
};
use blew::platform::android::services_json::{parse_services_json, services_of, Json};
use blew::platform::android::{are_ble_permissions_granted, is_emulator, may_construct};
use blew::types::DeviceId;
use blew::util::advertise_state::AdvertiseState;
use blew::util::notify_gate::{enter, GateWait, Handoff, NotifyGates};
use blew::util::reply::Waited;
use blew::uuids::Uuid;
use std::time::Duration;

const A: &str = "AA:BB:CC:DD:EE:FF";
const U: &str = "0000180f-0000-1000-8000-00805f9b34fb";
const U_VALUE: u128 = 0x0000180f_0000_1000_8000_00805f9b34fb;

fn id() -> DeviceId {
    DeviceId::from(A)
}

fn some(text: &str) -> Option<String> {
    Some(text.to_string())
}

#[test]
fn status_codes_are_errors() {
    let uuid = Uuid::from_u128(U_VALUE);
    assert!(operation_status(0, &id(), uuid).is_ok());
    assert!(matches!(
        gatt_status_to_error(1, &id(), uuid),
        BlewError::NotConnected(d) if d.as_str() == A
    ));
    assert!(matches!(
        gatt_status_to_error(2, &id(), uuid),
        BlewError::CharacteristicNotFound { char_uuid, .. } if char_uuid == uuid
    ));
    assert!(matches!(
        gatt_status_to_error(3, &id(), uuid),
        BlewError::GattBusy(_)
    ));
    assert!(matches!(
        gatt_status_to_error(4, &id(), uuid),
        BlewError::Gatt { source, .. } if source == "GATT operation returned failure"
    ));
    assert!(matches!(
        operation_status(-7, &id(), uuid),
        Err(BlewError::Internal(text)) if text == "unknown GATT status -7"
    ));
    assert!(matches!(jni_err("x"), BlewError::Internal(t) if t == "JNI error: x"));
    assert!(refreshed(true).is_ok());
    assert!(matches!(refreshed(false), Err(BlewError::NotSupported)));
}

#[test]
fn a_scan_carries_its_services_as_text() {
    let plan = start_scan(&ScanFilter {
        services: vec![Uuid::from_u128(U_VALUE)],
        mode: ScanMode::LowPower,
    })
    .unwrap();
    assert!(plan.low_power);
    assert_eq!(plan.services, [U]);
    assert!(!start_scan(&ScanFilter::default()).unwrap().low_power);
}

#[test]
fn a_connect_is_single_flight() {
    let mut state = CentralState::new(Some(Duration::from_secs(3)));
    assert_eq!(state.connect_timeout(), Some(Duration::from_secs(3)));
    let rx = state.begin_connect(&id()).unwrap();
    assert!(matches!(
        state.begin_connect(&id()),
        Err(BlewError::ConnectInFlight(d)) if d.as_str() == A
    ));
    let change =
        on_connection_state_changed(&mut state, some(A), true, DisconnectCause::LocalClose)
            .unwrap();
    assert!(matches!(
        change.event,
        CentralEvent::DeviceConnected { device_id } if device_id.as_str() == A
    ));
    assert!(change.disconnect.is_none());
    assert!(change.connect.unwrap().deliver().0);
    assert!(rx.into_receiver().try_recv().unwrap().is_ok());
    assert!(state.begin_connect(&id()).is_ok());
}

#[test]
fn a_disconnect_fails_a_connect_in_flight() {
    let mut state = CentralState::new(None);
    let rx = state.begin_connect(&id()).unwrap();
    let closing = state.begin_disconnect(A).unwrap();
    assert!(state.begin_disconnect(A).is_none());
    let change = on_connection_state_changed(&mut state, some(A), false, DisconnectCause::Gatt133)
        .unwrap();
    assert!(change.connect.unwrap().deliver().0);
    assert!(change.disconnect.unwrap().deliver().0);
    assert!(matches!(
        rx.into_receiver().try_recv().unwrap(),
        Err(BlewError::NotConnected(d)) if d.as_str() == A
    ));
    assert!(closing.into_receiver().try_recv().is_ok());
    assert!(matches!(
        change.event,
        CentralEvent::DeviceDisconnected {
            cause: DisconnectCause::Gatt133,
            ..
        }
    ));
    assert!(
        on_connection_state_changed(&mut state, None, true, DisconnectCause::LocalClose).is_none()
    );
}

#[test]
fn the_ends_of_a_connect() {
    let mut state = CentralState::new(None);
    state.set_connect_timeout(Some(Duration::from_secs(1)));
    assert_eq!(state.connect_timeout(), Some(Duration::from_secs(1)));
    let _rx = state.begin_connect(&id()).unwrap();
    let end = state.finish_connect(&id(), Waited::TimedOut);
    assert!(matches!(end.result, Err(BlewError::ConnectTimedOut(d)) if d.as_str() == A));
    assert!(end.force_close);
    assert!(matches!(
        end.event,
        Some(CentralEvent::DeviceDisconnected {
            cause: DisconnectCause::Timeout,
            ..
        })
    ));
    let _rx = state.begin_connect(&id()).unwrap();
    assert!(state.begin_connect(&id()).is_err());
    state.connect_cancelled(&id());
    let _rx = state.begin_connect(&id()).unwrap();
    let end = state.finish_connect(&id(), Waited::Dropped);
    assert!(matches!(
        end.result,
        Err(BlewError::DisconnectedDuringOperation(_))
    ));
    assert!(!end.force_close && end.event.is_none());
    let end = state.finish_connect(&id(), Waited::Answered(Ok(())));
    assert!(end.result.is_ok());
    assert!(matches!(
        state.connect_not_dispatched(&id(), "boom"),
        BlewError::Internal(text) if text == "JNI error: boom"
    ));
    assert!(state.begin_connect(&id()).is_ok());
}

#[test]
fn the_ends_of_a_disconnect() {
    assert_eq!(disconnect_callback_timeout(), Duration::from_secs(2));
    let mut state = CentralState::new(None);
    let _rx = state.begin_disconnect(A).unwrap();
    assert!(!state.finish_disconnect(A, Waited::Answered(())));
    assert!(state.begin_disconnect(A).is_none());
    assert!(state.finish_disconnect(A, Waited::TimedOut));
    let _rx = state.begin_disconnect(A).unwrap();
    let _ = state.disconnect_not_dispatched(A, false, "x");
    assert!(state.begin_disconnect(A).is_none());
    let _ = state.disconnect_not_dispatched(A, true, "x");
    assert!(state.begin_disconnect(A).is_some());
}

#[test]
fn a_read_reported_under_its_uuid_is_answered() {
    let mut state = CentralState::new(None);
    let uuid = Uuid::from_u128(U_VALUE);
    let (key, rx) = state.begin_read(&id(), uuid).unwrap();
    assert_eq!(key, format!("{A}:0:read:{U}"));
    assert!(state.read_dispatched(&id(), uuid, &key, 0).is_ok());
    // A write report does not answer the read.
    assert!(!on_characteristic_write(&mut state, some(A), some(U), 0));
    assert!(!on_characteristic_read(&mut state, None, some(U), vec![], 0));
    assert!(on_characteristic_read(&mut state, some(A), some(U), b"val".to_vec(), 0));
    let result = operation_result(&id(), Some(rx.into_receiver().try_recv().unwrap()));
    assert_eq!(result.unwrap(), b"val");

    let (_, rx) = state.begin_read(&id(), uuid).unwrap();
    assert!(on_characteristic_read(&mut state, some(A), some(U), vec![], 133));
    assert!(matches!(
        rx.into_receiver().try_recv().unwrap(),
        Err(BlewError::Gatt { source, .. }) if source == "GATT read failed: status 133"
    ));
}

#[test]
fn a_second_read_waits_for_the_report_of_the_first() {
    let mut state = CentralState::new(None);
    let uuid = Uuid::from_u128(U_VALUE);
    let (key, first) = state.begin_read(&id(), uuid).unwrap();
    assert!(state.begin_read(&id(), uuid).is_none());
    let (_other, _rx) = state.begin_read(&id(), Uuid::from_u128(1)).unwrap();
    let runtime = tokio::runtime::Builder::new_current_thread()
        .build()
        .unwrap();
    let freed = state.key_freed();
    runtime.block_on(async {
        let waiting = freed.notified();
        assert!(on_characteristic_read(&mut state, some(A), some(U), b"1".to_vec(), 0));
        waiting.await;
    });
    assert_eq!(first.into_receiver().try_recv().unwrap().unwrap(), b"1");
    let (again, _second) = state.begin_read(&id(), uuid).unwrap();
    assert_eq!(again, key);
    assert!(matches!(
        state.read_dispatched(&id(), uuid, &again, 2),
        Err(BlewError::CharacteristicNotFound { .. })
    ));
    assert!(!on_characteristic_read(&mut state, some(A), some(U), vec![], 0));
    // A caller that gave up still holds its key.
    drop(state.begin_read(&id(), uuid).unwrap());
    assert!(state.begin_read(&id(), uuid).is_none());
    assert!(!on_characteristic_read(&mut state, some(A), some(U), vec![], 0));
    let (key, _rx) = state.begin_read(&id(), uuid).unwrap();
    state.not_dispatched(&key);
    assert!(state.begin_read(&id(), uuid).is_some());
}

#[test]
fn a_disconnect_ends_the_operations_in_flight() {
    let mut state = CentralState::new(None);
    let uuid = Uuid::from_u128(U_VALUE);
    let (key, rx) = state.begin_read(&id(), uuid).unwrap();
    let other = DeviceId::from("11:22:33:44:55:66");
    let (_, other_rx) = state.begin_read(&other, uuid).unwrap();
    on_connection_state_changed(&mut state, some(A), false, DisconnectCause::LinkLoss).unwrap();
    assert!(matches!(
        operation_result(&id(), rx.into_receiver().try_recv().ok()),
        Err(BlewError::DisconnectedDuringOperation(_))
    ));
    assert!(other_rx.into_receiver().try_recv().is_err());
    assert!(state.begin_read(&other, uuid).is_none());
    // What comes later has keys of its own: the end of the first read does not
    // touch the second.
    let (later, _rx) = state.begin_read(&id(), uuid).unwrap();
    assert_eq!(later, format!("{A}:1:read:{U}"));
    assert!(state.read_dispatched(&id(), uuid, &key, 1).is_err());
    assert!(state.begin_read(&id(), uuid).is_none());
    assert_eq!(state.epoch(A), 1);
    assert!(state.finish_disconnect(A, Waited::TimedOut));
    assert!(state.begin_read(&id(), uuid).is_some());
}

#[test]
fn only_a_write_with_response_waits() {
    let mut state = CentralState::new(None);
    let uuid = Uuid::from_u128(U_VALUE);
    let begun = state.begin_write(&id(), uuid, WriteType::WithoutResponse).unwrap();
    assert_eq!(begun.android_write_type, 1);
    assert!(begun.claimed.is_none());
    let begun = state.begin_write(&id(), uuid, WriteType::WithResponse).unwrap();
    assert_eq!(begun.android_write_type, 2);
    let (key, rx) = begun.claimed.unwrap();
    assert_eq!(key, format!("{A}:0:write:{U}"));
    assert!(state.begin_write(&id(), uuid, WriteType::WithResponse).is_none());
    assert!(state.begin_write(&id(), uuid, WriteType::WithoutResponse).is_some());
    assert!(on_characteristic_write(&mut state, some(A), some(U), 5));
    let result = write_result(&id(), rx.into_receiver().try_recv().ok());
    assert!(matches!(
        result,
        Err(BlewError::Gatt { source, .. }) if source == "GATT write failed: status 5"
    ));
    let begun = state.begin_write(&id(), uuid, WriteType::WithResponse).unwrap();
    let (key, _rx) = begun.claimed.unwrap();
    assert!(matches!(
        state.write_dispatched(&id(), uuid, Some(&key), 3),
        Err(BlewError::GattBusy(_))
    ));
    assert!(state.write_dispatched(&id(), uuid, None, 0).is_ok());
    assert!(!on_characteristic_write(&mut state, some(A), some(U), 0));
    assert!(write_result(&id(), Some(Ok(vec![]))).is_ok());
    assert!(matches!(
        write_result(&id(), None),
        Err(BlewError::DisconnectedDuringOperation(_))
    ));
}

#[test]
fn a_new_scan_forgets_the_devices_seen_before() {
    let mut state = CentralState::new(None);
    let seen = |addr: &str, rssi: i32| on_device_discovered(some(addr), None, rssi, None).unwrap();
    state.update_discovered(seen("a", -1));
    assert_eq!(state.discovered_devices().len(), 1);
    state.begin_scan(&ScanFilter::default()).unwrap();
    assert!(state.discovered_devices().is_empty());
    state.update_discovered(seen("b", -2));
    state.update_discovered(seen("c", -3));
    state.update_discovered(seen("b", -4));
    let listed: Vec<_> = state
        .discovered_devices()
        .iter()
        .map(|d| (d.id.as_str().to_string(), d.rssi))
        .collect();
    assert_eq!(
        listed,
        [("b".to_string(), Some(-4)), ("c".to_string(), Some(-3))]
    );
}

#[test]
fn advertising_is_single_flight() {
    let mut state = AdvertiseState::default();
    let config = AdvertisingConfig::default();
    let temporary = AdvertisingConfig {
        local_name: LocalName::Temporary("n".into()),
        service_uuids: vec![],
    };
    assert!(matches!(
        begin_advertising(&mut state, &temporary),
        Err(BlewError::LocalNameUnsupported)
    ));
    let begun = begin_advertising(&mut state, &config).unwrap();
    assert!(begun.plan.adapter_name.is_none());
    assert!(matches!(
        begin_advertising(&mut state, &config),
        Err(BlewError::AlreadyAdvertising)
    ));
    assert!(advertising_started(&mut state, begun.request_id + 1, Ok(())).is_none());
    let told = advertising_started(&mut state, begun.request_id, Ok(())).unwrap();
    assert!(told.deliver().0);
    assert!(begun.reply.into_receiver().try_recv().unwrap().is_ok());
    assert!(matches!(
        begin_advertising(&mut state, &temporary),
        Err(BlewError::AlreadyAdvertising)
    ));
    assert!(stop_advertising(&mut state).is_none());
    let begun = begin_advertising(&mut state, &config).unwrap();
    assert!(stop_advertising(&mut state).unwrap().deliver().0);
    assert!(matches!(
        begun.reply.into_receiver().try_recv().unwrap(),
        Err(BlewError::Peripheral { source })
            if source == "advertising was stopped before it started"
    ));
    let begun = begin_advertising(&mut state, &config).unwrap();
    let failed = advertising_started(&mut state, begun.request_id, Err(jni_err("x")));
    assert!(failed.is_some());
    assert!(begin_advertising(&mut state, &config).is_ok());
}

#[test]
fn a_notification_is_in_flight_until_the_stack_reports_it() {
    let mut gates = NotifyGates::default();
    let mut begin = |gates: &mut NotifyGates| {
        let permit = gates.gate(A).try_acquire_owned().unwrap();
        enter(gates, A, GateWait::Acquired(permit), notify_timeout()).unwrap()
    };
    let (_, reply) = begin(&mut gates);
    on_notification_sent(&mut gates, None, 0);
    on_central_state_changed(&mut gates, some(A), true);
    assert!(gates.is_busy(A));
    assert!(gates.gate(A).try_acquire_owned().is_err());
    on_notification_sent(&mut gates, some(A), 0);
    assert!(reply.into_receiver().try_recv().unwrap().is_ok());
    assert!(!gates.knows(A));

    let (_, reply) = begin(&mut gates);
    on_notification_sent(&mut gates, some(A), 13);
    assert!(matches!(
        reply.into_receiver().try_recv().unwrap(),
        Err(BlewError::Peripheral { source }) if source == "notification failed: status 13"
    ));

    let (_, reply) = begin(&mut gates);
    on_central_state_changed(&mut gates, some(A), false);
    assert!(matches!(
        reply.into_receiver().try_recv().unwrap(),
        Err(BlewError::DisconnectedDuringOperation(d)) if d.as_str() == A
    ));
}

#[test]
fn discovery_is_answered_with_the_reported_services() {
    let mut state = CentralState::new(None);
    let (first, _) = state.begin_discover_services(&id());
    let (rx, evicted) = state.begin_discover_services(&id());
    assert!(evicted.unwrap().deliver().0);
    assert!(matches!(
        first.into_receiver().try_recv().unwrap(),
        Err(BlewError::GattBusy(_))
    ));
    assert!(state.discover_dispatched(&id(), 0).is_ok());
    let json = format!(
        r#"[{{"uuid":"{U}","characteristics":[{{"uuid":"{U}","properties":18}}]}}]"#
    );
    let answer = on_services_discovered(&mut state, some(A), Some(json)).unwrap();
    assert!(answer.deliver().0);
    let services = rx.into_receiver().try_recv().unwrap().unwrap();
    assert_eq!(services.len(), 1);
    assert_eq!(services[0].uuid, Uuid::from_u128(U_VALUE));
    assert!(services[0].primary);
    assert_eq!(services[0].characteristics[0].properties.bits(), 18);

    let _ = state.begin_discover_services(&id());
    assert!(matches!(
        state.discover_dispatched(&id(), 1),
        Err(BlewError::NotConnected(_))
    ));
    assert!(on_services_discovered(&mut state, some(A), some("[]")).is_none());
}

#[test]
fn a_report_skips_what_it_cannot_read() {
    assert!(parse_services_json("not json").is_empty());
    assert!(parse_services_json("{}").is_empty());
    assert!(parse_services_json("[1, null, {}]").is_empty());
    let text = format!(
        r#"[{{"uuid":"nope","characteristics":[]}},
            {{"uuid":"{U}"}},
            {{"uuid":"{U}","characteristics":"x"}},
            {{"uuid":"{U}","characteristics":[
                {{"uuid":"{U}"}},
                {{"uuid":"bad","properties":1}},
                {{"uuid":"{U}","properties":"many"}},
                {{"uuid":"{U}","properties":-1}},
                {{"uuid":"{U}","properties":65536}},
                {{"uuid":"{U}","properties":1.5}},
                {{"uuid":"{U}","properties":65535}}]}}]"#
    );
    let services = parse_services_json(&text);
    assert_eq!(services.len(), 1);
    let bits: Vec<u16> = services[0]
        .characteristics
        .iter()
        .map(|c| c.properties.bits())
        .collect();
    assert_eq!(bits, [0, 0, 0, 0, 0xff]);
    assert!(services[0].characteristics[0].value.is_empty());
    assert!(services[0].characteristics[0].permissions.is_empty());
}

#[test]
fn services_come_out_of_a_tree() {
    let tree = Json::Object(vec![
        ("uuid".to_string(), Json::Text(U.to_string())),
        (
            "characteristics".to_string(),
            Json::Array(vec![Json::Object(vec![
                ("uuid".to_string(), Json::Text(U.to_string())),
                ("properties".to_string(), Json::Number(Some(2))),
            ])]),
        ),
    ]);
    let services = services_of(&vec![Json::Null, tree, Json::Bool(true)]);
    assert_eq!(services.len(), 1);
    assert_eq!(services[0].characteristics.len(), 1);
    assert_eq!(services[0].characteristics[0].properties.bits(), 2);
}

#[test]
fn a_device_seen_again_is_replaced() {
    let mut state = CentralState::new(None);
    let list = format!("{U},,junk,{U}");
    let device = on_device_discovered(some(A), some("n"), -300, Some(list)).unwrap();
    assert_eq!(device.rssi, Some(-300));
    assert_eq!(device.services, [Uuid::from_u128(U_VALUE); 2]);
    state.update_discovered(device);
    state.update_discovered(on_device_discovered(some("other"), None, 1, None).unwrap());
    state.update_discovered(on_device_discovered(some(A), None, 70000, some("")).unwrap());
    let seen = state.discovered_devices();
    assert_eq!(seen.len(), 2);
    assert_eq!(seen[0].id.as_str(), A);
    assert_eq!(seen[0].name, None);
    assert_eq!(seen[0].rssi, Some(4464));
    assert!(seen[0].services.is_empty());
    assert!(on_device_discovered(None, None, 0, None).is_none());
}

#[test]
fn the_mtu_is_remembered() {
    let mut state = CentralState::new(None);
    assert_eq!(state.mtu(A), 23);
    on_mtu_changed(&mut state, some(A), 517);
    assert_eq!(state.mtu(A), 517);
    on_mtu_changed(&mut state, None, 100);
    assert_eq!(state.mtu(A), 517);
    assert_eq!(state.mtu("other"), 23);
}

#[test]
fn requests_of_centrals_reach_the_application() {
    let (request, reply) = on_read_request(some(A), some(U), some(U), 65537).unwrap();
    match request {
        PeripheralRequest::Read {
            client_id,
            service_uuid,
            offset,
            responder,
            ..
        } => {
            assert_eq!(client_id.as_str(), A);
            assert_eq!(service_uuid, Uuid::from_u128(U_VALUE));
            assert_eq!(offset, 1);
            drop(responder);
        }
        _ => panic!("a read"),
    }
    assert_eq!(reply.into_receiver().try_recv().unwrap(), Err(()));
    assert!(on_read_request(some(A), some("x"), some(U), 0).is_none());
    assert!(on_read_request(None, some(U), some(U), 0).is_none());

    let (request, reply) =
        on_write_request(some(A), some(U), some(U), b"w".to_vec(), true).unwrap();
    let reply = reply.unwrap();
    match request {
        PeripheralRequest::Write {
            value, responder, ..
        } => {
            assert_eq!(value, b"w");
            responder.unwrap().success();
        }
        _ => panic!("a write"),
    }
    assert!(reply.into_receiver().try_recv().unwrap());
    let (_, reply) = on_write_request(some(A), some(U), some(U), vec![], false).unwrap();
    assert!(reply.is_none());
    assert!(on_write_request(some(A), some(U), None, vec![], true).is_none());
}

#[test]
fn events_of_centrals_are_announced() {
    assert!(matches!(
        on_subscription_changed(some(A), some(U), false),
        Some(PeripheralStateEvent::SubscriptionChanged {
            subscribed: false,
            ..
        })
    ));
    assert!(on_subscription_changed(some(A), some("?"), true).is_none());
    assert!(matches!(
        on_characteristic_changed(some(A), some(U), b"v".to_vec()),
        Some(CentralEvent::CharacteristicNotification { value, .. }) if value == b"v"
    ));
    assert!(on_characteristic_changed(None, some(U), vec![]).is_none());
}

#[test]
fn l2cap_server_results() {
    assert_eq!(on_l2cap_server_opened(0x80).unwrap(), Psm(0x80));
    assert!(matches!(
        on_l2cap_server_error(some("L2CAP needs API 29 or later")),
        Err(BlewError::NotSupported)
    ));
    assert!(matches!(
        on_l2cap_server_error(some("socket closed")),
        Err(BlewError::L2cap { source }) if source == "socket closed"
    ));
    assert!(matches!(
        on_l2cap_server_error(None),
        Err(BlewError::L2cap { source }) if source.is_empty()
    ));
    assert_eq!(
        l2cap_server_cancelled().message(),
        "internal error: L2CAP server open cancelled"
    );
}

#[test]
fn properties_and_permissions_become_android_bits() {
    let all = CharacteristicProperties::from_bits_truncate(0xffff);
    assert_eq!(all.bits(), 0xff);
    assert_eq!(blew_props_to_android(all), 0x3f);
    assert_eq!(
        blew_props_to_android(CharacteristicProperties::from_bits_truncate(
            CharacteristicProperties::READ | CharacteristicProperties::INDICATE
        )),
        0x22
    );
    assert_eq!(
        blew_perms_to_android(AttributePermissions::from_bits_truncate(0xffff)),
        0x33
    );
    assert_eq!(
        blew_perms_to_android(AttributePermissions::from_bits_truncate(
            AttributePermissions::WRITE
        )),
        0x10
    );
    assert_eq!(
        blew_perms_to_android(AttributePermissions::from_bits_truncate(
            AttributePermissions::READ_ENCRYPTED
        )),
        0x02
    );
    assert_eq!(blew_perms_to_android(AttributePermissions::empty()), 0);
}

#[test]
fn a_service_becomes_arrays() {
    let service = GattService {
        uuid: Uuid::from_u128(U_VALUE),
        primary: true,
        characteristics: vec![GattCharacteristic {
            uuid: Uuid::from_u128(1),
            properties: CharacteristicProperties::from_bits_truncate(0x0a),
            permissions: AttributePermissions::from_bits_truncate(AttributePermissions::READ),
            value: b"v".to_vec(),
            descriptors: vec![],
        }],
    };
    let arrays = service_arrays(&service);
    assert_eq!(arrays.uuid, U);
    assert_eq!(
        arrays.char_uuids,
        ["00000000-0000-0000-0000-000000000001"]
    );
    assert_eq!(arrays.properties, [0x0a]);
    assert_eq!(arrays.permissions, [1]);
    assert_eq!(arrays.values, [b"v".to_vec()]);
}

#[test]
fn only_a_permanent_name_can_be_advertised() {
    assert_eq!(adapter_name(&LocalName::NoName).unwrap(), None);
    assert!(matches!(
        adapter_name(&LocalName::Temporary("t".into())),
        Err(BlewError::LocalNameUnsupported)
    ));
    let config = AdvertisingConfig {
        local_name: LocalName::AllowPermanent("p".into()),
        service_uuids: vec![Uuid::from_u128(U_VALUE)],
    };
    let plan = advertise_plan(&config).unwrap();
    assert_eq!(plan.adapter_name.as_deref(), Some("p"));
    assert_eq!(plan.service_uuids, [U]);
    assert!(advertise_plan(&AdvertisingConfig {
        local_name: LocalName::Temporary("t".into()),
        service_uuids: vec![],
    })
    .is_err());
}

#[test]
fn a_busy_notification_is_retried_a_bounded_number_of_times() {
    let uuid = Uuid::from_u128(1);
    let mut attempt = 0;
    let result = loop {
        match after_notify(attempt, 1, uuid) {
            Handoff::Declined(Ok(NotifyAttempt::Retry)) => attempt += 1,
            Handoff::Declined(result) => break result,
            Handoff::Accepted(_) => panic!("a busy stack takes nothing"),
        }
    };
    assert_eq!(attempt, 49);
    assert!(matches!(
        result,
        Err(BlewError::Peripheral { source }) if source == "notification busy after retries"
    ));
    assert!(matches!(
        after_notify(3, 0, uuid),
        Handoff::Accepted(NotifyAttempt::Ended(Delivery::Sent))
    ));
    assert!(matches!(
        after_notify(3, 2, uuid),
        Handoff::Declined(Ok(NotifyAttempt::Ended(Delivery::NoSubscriber)))
    ));
    assert!(matches!(
        after_notify(3, 3, uuid),
        Handoff::Declined(Err(BlewError::LocalCharacteristicNotFound { char_uuid }))
            if char_uuid == uuid
    ));
    assert!(matches!(
        after_notify(3, 42, uuid),
        Handoff::Declined(Err(BlewError::Peripheral { source }))
            if source == "notify returned unknown status 42"
    ));
}

#[test]
fn the_queue_of_a_socket_holds_the_buffer() {
    assert_eq!(queue_capacity(&L2capConfig::default()), 16);
    let tiny = L2capConfig {
        buffer_size: 0,
        read_chunk_size: 4096,
        ..Default::default()
    };
    assert_eq!(queue_capacity(&tiny), 2);
    let odd = L2capConfig {
        buffer_size: 1025,
        read_chunk_size: 100,
        ..Default::default()
    };
    assert_eq!(queue_capacity(&odd), 11);
    assert_eq!(read_buffer_size(&odd), 100);
    let huge = L2capConfig {
        read_chunk_size: usize::MAX,
        ..Default::default()
    };
    assert_eq!(read_buffer_size(&huge), i32::MAX);
}

#[test]
fn security_rounds_up() {
    assert!(!secure_flag(L2capEncryption::Insecure));
    assert!(secure_flag(L2capEncryption::RequireEncryption));
    assert!(secure_flag(L2capEncryption::RequireAuthentication));
}

type Sockets = L2capState<&'static str, u8, u16>;

#[test]
fn an_opened_channel_goes_to_whoever_waits() {
    let mut state = Sockets::new();
    assert_eq!(
        state.set_server_config(L2capConfig {
            read_chunk_size: 128,
            linger_timeout: None,
            ..Default::default()
        }),
        128
    );
    assert_eq!(state.bridge_plan(true).read_chunk, 128);
    assert_eq!(state.bridge_plan(true).linger, None);
    assert_eq!(state.bridge_plan(false).read_chunk, 4096);
    assert_eq!(state.bridge_plan(false).buffer_size, 65536);
    assert_eq!(state.bridge_plan(false).queue, 16);

    assert!(matches!(
        state.on_channel_opened(A, 1, true, 10, 100, "ch"),
        Route::Discard("ch")
    ));
    state.set_accepting();
    assert!(matches!(
        state.on_channel_opened(A, 2, true, 20, 200, "ch"),
        Route::Accept(Ok((d, "ch"))) if d.as_str() == A
    ));
    assert!(matches!(
        state.on_channel_opened(A, 3, false, 30, 300, "ch"),
        Route::Discard("ch")
    ));
    assert_eq!(state.on_channel_data(2), Some(&20));

    let steps = state.on_channel_closed(2, some("reset"));
    assert!(matches!(
        &steps[..],
        [
            CloseStep::LeaveReason(200, L2capCloseReason::TransportError(text)),
            CloseStep::EndQueue(20),
        ] if text == "reset"
    ));
    assert_eq!(state.on_channel_data(2), None);
    let steps = state.on_channel_closed(3, None);
    assert!(matches!(
        &steps[..],
        [CloseStep::LeaveReason(300, L2capCloseReason::Closed), ..]
    ));
    assert!(state.on_channel_closed(3, some("late")).is_empty());
}

#[test]
fn outbound_bytes_are_written_until_the_end() {
    assert_eq!(after_outbound_read(Some(5)), OutboundStep::Write(5));
    assert_eq!(after_outbound_read(Some(0)), OutboundStep::Close);
    assert_eq!(after_outbound_read(None), OutboundStep::Close);
}

#[test]
fn roles_need_the_jvm_and_the_permissions() {
    let all = JniGlobals {
        jvm: true,
        central_class: true,
        peripheral_class: true,
    };
    let none = JniGlobals {
        jvm: false,
        ..all
    };
    assert!(is_initialized(&all));
    assert!(!is_initialized(&none));
    assert_eq!(init_jvm(&none), JvmInit::SetUp);
    assert_eq!(init_jvm(&all), JvmInit::Keep);
    let mut globals = JniGlobals::new();
    assert!(!is_initialized(&globals));
    globals.store();
    assert_eq!(globals, all);
    assert!(may_construct(&all, Some(true)).is_ok());
    assert!(matches!(
        may_construct(&none, Some(true)),
        Err(BlewError::NotInitialized)
    ));
    assert!(matches!(
        may_construct(&all, Some(false)),
        Err(BlewError::PermissionDenied)
    ));
    assert!(!are_ble_permissions_granted(None));
    assert_eq!(AndroidCentral, AndroidCentral);
    assert_eq!(AndroidPeripheral, AndroidPeripheral);
}

#[test]
fn emulators_are_told_by_their_fingerprint() {
    assert!(is_emulator(Some("google/SDK_gphone/generic_x86:13")));
    assert!(is_emulator(Some("EMULATOR")));
    assert!(!is_emulator(Some("google/oriole/oriole:13")));
    assert!(!is_emulator(None));
}
