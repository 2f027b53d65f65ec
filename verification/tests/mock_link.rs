use blew::central::types::{CentralEvent, DisconnectCause, ScanFilter, WriteType};
use blew::error::BlewError;
use blew::gatt::props::{AttributePermissions, CharacteristicProperties};
use blew::gatt::service::{GattCharacteristic, GattDescriptor, GattService};
use blew::l2cap::types::Psm;
use blew::peripheral::types::{
    AdvertisingConfig, LocalName, PeripheralRequest, PeripheralStateEvent,
};
use blew::testing::{
    open_result, read_result, write_result, LinkState, MockErrorKind, MockL2capPolicy,
    MockReadStep,
};
use blew::types::DeviceId;
use blew::util::reply::Waited;
use blew::uuids::Uuid;

fn link() -> LinkState<&'static str> {
    LinkState::new(MockL2capPolicy::default())
}

fn peripheral_id() -> DeviceId {
    DeviceId::from("mock-peripheral")
}

fn service_of(svc_uuid: Uuid, char_uuid: Uuid, props: u16, perms: u16, value: &[u8]) -> GattService {
    GattService {
        uuid: svc_uuid,
        primary: true,
        characteristics: vec![GattCharacteristic {
            uuid: char_uuid,
            properties: CharacteristicProperties::from_bits_truncate(props),
            permissions: AttributePermissions::from_bits_truncate(perms),
            value: value.to_vec(),
            descriptors: vec![],
        }],
    }
}

fn service_with(char_uuid: Uuid, value: &[u8]) -> GattService {
    service_of(
        Uuid::from_u128(0x1234),
        char_uuid,
        CharacteristicProperties::READ,
        AttributePermissions::READ,
        value,
    )
}

fn named(name: &str) -> AdvertisingConfig {
    AdvertisingConfig {
        local_name: LocalName::Temporary(name.to_string()),
        service_uuids: vec![],
    }
}

#[test]
fn test_mock_link_discovery() {
    let mut link = link();
    assert!(link.start_scan(&ScanFilter::default()).is_none());
    let svc_uuid = Uuid::from_u128(0x1234);
    link.add_service(&GattService {
        uuid: svc_uuid,
        primary: true,
        characteristics: vec![],
    });
    link.start_advertising(&AdvertisingConfig {
        service_uuids: vec![svc_uuid],
        ..named("test")
    })
    .unwrap();
    match link.start_scan(&ScanFilter::default()) {
        Some(CentralEvent::DeviceDiscovered(device)) => {
            assert_eq!(device.id.as_str(), "mock-peripheral");
            assert_eq!(device.name.as_deref(), Some("test"));
            assert_eq!(device.rssi, Some(-50));
            assert!(device.services.contains(&svc_uuid));
        }
        other => panic!("expected DeviceDiscovered, got {other:?}"),
    }
    assert_eq!(link.discovered_devices().len(), 1);
    assert_eq!(link.discovered_devices()[0].name.as_deref(), Some("test"));
}

#[test]
fn a_scan_only_reports_what_its_filter_wants() {
    let mut link = link();
    link.add_service(&GattService {
        uuid: Uuid::from_u128(1),
        primary: true,
        characteristics: vec![],
    });
    link.start_advertising(&named("n")).unwrap();
    let wanting = |uuids: &[u128]| ScanFilter {
        services: uuids.iter().map(|u| Uuid::from_u128(*u)).collect(),
        ..ScanFilter::default()
    };
    assert!(link.start_scan(&wanting(&[2, 1])).is_some());
    assert_eq!(link.discovered_devices().len(), 1);
    assert!(link.start_scan(&wanting(&[2, 3])).is_none());
    assert!(link.discovered_devices().is_empty());
}

#[test]
fn test_mock_link_connect_disconnect() {
    let mut link = link();
    let ev = link.connect(peripheral_id());
    assert!(matches!(ev, CentralEvent::DeviceConnected { .. }));
    let ev = link.disconnect(peripheral_id());
    assert!(matches!(
        ev,
        CentralEvent::DeviceDisconnected {
            cause: DisconnectCause::Unknown(0),
            ..
        }
    ));
}

#[test]
fn test_mock_link_read_static_value() {
    let mut link = link();
    let char_uuid = Uuid::from_u128(0xAAAA);
    link.add_service(&service_with(char_uuid, b"static-data"));
    match link.read_characteristic(&peripheral_id(), char_uuid) {
        MockReadStep::Answer(data) => assert_eq!(data, b"static-data"),
        _ => panic!("a static value"),
    }
    link.add_service(&service_with(char_uuid, b"newer"));
    match link.read_characteristic(&peripheral_id(), char_uuid) {
        MockReadStep::Answer(data) => assert_eq!(data, b"newer"),
        _ => panic!("a static value"),
    }
}

#[test]
fn test_mock_link_read_dynamic_value() {
    let mut link = link();
    let char_uuid = Uuid::from_u128(0xBBBB);
    link.add_service(&service_with(char_uuid, b""));
    let device_id = peripheral_id();
    match link.read_characteristic(&device_id, char_uuid) {
        MockReadStep::Ask { request, reply } => {
            match request {
                PeripheralRequest::Read { responder, .. } => {
                    responder.respond(b"dynamic-response".to_vec());
                }
                _ => panic!("a read"),
            }
            let answer = reply.into_receiver().try_recv().unwrap();
            let data = read_result(&device_id, Waited::Answered(answer)).unwrap();
            assert_eq!(data, b"dynamic-response");
        }
        _ => panic!("the application is asked"),
    }
}

#[test]
fn test_mock_link_write_with_response() {
    let mut link = link();
    let char_uuid = Uuid::from_u128(0xCCCC);
    link.add_service(&service_of(
        Uuid::from_u128(0x1234),
        char_uuid,
        CharacteristicProperties::WRITE,
        AttributePermissions::WRITE,
        b"",
    ));
    let step = link.write_characteristic(char_uuid, b"hello".to_vec(), WriteType::WithResponse);
    match step.request {
        PeripheralRequest::Write {
            client_id,
            service_uuid,
            value,
            responder,
            ..
        } => {
            assert_eq!(client_id.as_str(), "mock-central");
            assert_eq!(service_uuid, Uuid::nil());
            assert_eq!(value, b"hello");
            responder.unwrap().success();
        }
        _ => panic!("a write"),
    }
    let answer = step.reply.unwrap().into_receiver().try_recv().unwrap();
    assert!(write_result(Some(Waited::Answered(answer))).is_ok());
}

#[test]
fn test_mock_link_write_without_response() {
    let link = link();
    let char_uuid = Uuid::from_u128(0xDDDD);
    let step = link.write_characteristic(
        char_uuid,
        b"fire-and-forget".to_vec(),
        WriteType::WithoutResponse,
    );
    match step.request {
        PeripheralRequest::Write {
            value, responder, ..
        } => {
            assert_eq!(value, b"fire-and-forget");
            assert!(responder.is_none());
        }
        _ => panic!("a write"),
    }
}

#[test]
fn test_mock_link_notifications() {
    let mut link = link();
    let char_uuid = Uuid::from_u128(0xEEEE);
    link.subscribe_characteristic(char_uuid);
    match link.notify_characteristic(char_uuid, b"notify-data".to_vec()) {
        Some(CentralEvent::CharacteristicNotification { value, .. }) => {
            assert_eq!(&value[..], b"notify-data");
        }
        other => panic!("expected notification, got {other:?}"),
    }
    link.unsubscribe_characteristic(char_uuid);
    assert!(link
        .notify_characteristic(char_uuid, b"late".to_vec())
        .is_none());
}

#[test]
fn test_mock_peripheral_already_advertising() {
    let mut link = link();
    let config = named("test");
    link.start_advertising(&config).unwrap();
    let result = link.start_advertising(&config);
    assert!(matches!(result, Err(BlewError::AlreadyAdvertising)));
}

#[test]
fn test_mock_link_discover_services() {
    let mut link = link();
    let svc_uuid = Uuid::from_u128(0x1111);
    let char_uuid = Uuid::from_u128(0x2222);
    link.add_service(&service_of(
        svc_uuid,
        char_uuid,
        CharacteristicProperties::READ | CharacteristicProperties::WRITE,
        AttributePermissions::READ | AttributePermissions::WRITE,
        b"",
    ));
    let services = link.discover_services();
    assert_eq!(services.len(), 1);
    assert_eq!(services[0].uuid, svc_uuid);
    assert_eq!(services[0].characteristics.len(), 1);
    assert_eq!(services[0].characteristics[0].uuid, char_uuid);
}

#[test]
fn discovery_keeps_properties_and_descriptors() {
    let mut link = link();
    let mut service = service_with(Uuid::from_u128(0x2222), b"v");
    service.characteristics[0].descriptors = vec![GattDescriptor {
        uuid: Uuid::from_u128(0x2902),
        value: vec![1, 0],
    }];
    link.add_service(&service);
    let found = &link.discover_services()[0].characteristics[0];
    assert_eq!(found.properties.bits(), CharacteristicProperties::READ);
    assert_eq!(found.value, b"v");
    assert_eq!(found.descriptors.len(), 1);
    assert_eq!(found.descriptors[0].value, [1, 0]);
}

#[test]
fn contract_write_without_response_returns_immediately() {
    let link = link();
    let step = link.write_characteristic(
        Uuid::from_u128(0x1234),
        b"data".to_vec(),
        WriteType::WithoutResponse,
    );
    assert!(step.reply.is_none(), "write-without-response must not block");
    assert!(write_result(None).is_ok());
}

#[test]
fn contract_write_with_response_blocks_until_ack() {
    let link = link();
    let char_uuid = Uuid::from_u128(0x5555);
    let step = link.write_characteristic(char_uuid, b"need-ack".to_vec(), WriteType::WithResponse);
    let mut reply = step.reply.unwrap().into_receiver();
    assert!(
        reply.try_recv().is_err(),
        "write-with-response should block until ACK"
    );
    match step.request {
        PeripheralRequest::Write { responder, .. } => {
            responder.unwrap().success();
        }
        _ => panic!("a write"),
    }
    assert!(reply.try_recv().unwrap());
}

#[test]
fn contract_read_request_routed_to_peripheral() {
    let mut link = link();
    let expected_char = Uuid::from_u128(0x6666);
    link.add_service(&service_with(expected_char, b""));
    match link.read_characteristic(&peripheral_id(), expected_char) {
        MockReadStep::Ask { request, reply } => {
            match request {
                PeripheralRequest::Read {
                    char_uuid,
                    responder,
                    ..
                } => {
                    if char_uuid == expected_char {
                        responder.respond(b"correct-char".to_vec());
                    } else {
                        responder.error();
                    }
                }
                _ => panic!("a read"),
            }
            assert_eq!(
                reply.into_receiver().try_recv().unwrap(),
                Ok(b"correct-char".to_vec())
            );
        }
        _ => panic!("the application is asked"),
    }
}

#[test]
fn contract_subscribe_emits_subscription_event() {
    let mut link = link();
    let char_uuid = Uuid::from_u128(0x7777);
    match link.subscribe_characteristic(char_uuid) {
        PeripheralStateEvent::SubscriptionChanged {
            char_uuid: uuid,
            subscribed,
            ..
        } => {
            assert_eq!(uuid, char_uuid);
            assert!(subscribed, "should indicate subscription");
        }
        other => panic!("expected SubscriptionChanged, got {other:?}"),
    }
}

#[test]
fn contract_notification_before_subscribe_is_dropped() {
    let mut link = link();
    let char_uuid = Uuid::from_u128(0x8888);
    assert!(
        link.notify_characteristic(char_uuid, b"too-early".to_vec())
            .is_none(),
        "notification before subscribe should not arrive"
    );
    link.subscribe_characteristic(char_uuid);
    match link.notify_characteristic(char_uuid, b"after-sub".to_vec()) {
        Some(CentralEvent::CharacteristicNotification { value, .. }) => {
            assert_eq!(&value[..], b"after-sub");
        }
        other => panic!("expected notification, got {other:?}"),
    }
    assert!(link
        .notify_characteristic(Uuid::from_u128(0x8889), vec![])
        .is_none());
}

#[test]
fn contract_stop_then_restart_advertising() {
    let mut link = link();
    let config = named("test");
    link.start_advertising(&config).unwrap();
    link.stop_advertising();
    assert!(link.start_scan(&ScanFilter::default()).is_none());
    link.start_advertising(&config).unwrap();
    assert!(link.start_scan(&ScanFilter::default()).is_some());
}

#[test]
fn contract_disconnect_clears_subscriptions() {
    let mut link = link();
    let char_uuid = Uuid::from_u128(0x9999);
    link.subscribe_characteristic(char_uuid);
    link.disconnect(peripheral_id());
    assert!(
        link.notify_characteristic(char_uuid, b"after-disconnect".to_vec())
            .is_none(),
        "notification should not arrive after disconnect"
    );
    link.connect(peripheral_id());
    assert!(link.notify_characteristic(char_uuid, vec![]).is_none());
}

#[test]
fn contract_read_unknown_characteristic_errors() {
    let link = link();
    let unknown_uuid = Uuid::from_u128(0xDEAD_BEEF);
    match link.read_characteristic(&peripheral_id(), unknown_uuid) {
        MockReadStep::Fail(BlewError::CharacteristicNotFound { char_uuid, .. }) => {
            assert_eq!(char_uuid, unknown_uuid);
        }
        _ => panic!("expected CharacteristicNotFound"),
    }
}

#[test]
fn contract_dropped_read_responder_returns_error() {
    let mut link = link();
    let char_uuid = Uuid::from_u128(0xAAAA);
    link.add_service(&service_with(char_uuid, b""));
    let device_id = peripheral_id();
    match link.read_characteristic(&device_id, char_uuid) {
        MockReadStep::Ask { request, reply } => {
            drop(request);
            let answer = reply.into_receiver().try_recv().unwrap();
            let result = read_result(&device_id, Waited::Answered(answer));
            assert!(
                matches!(result, Err(BlewError::Gatt { source, .. }) if source == "read failed"),
                "dropped responder should cause read to fail"
            );
        }
        _ => panic!("the application is asked"),
    }
    assert!(read_result(&device_id, Waited::Dropped).is_err());
    assert!(matches!(
        write_result(Some(Waited::Dropped)),
        Err(BlewError::Gatt { source, device_id })
            if source == "write rejected" && device_id.as_str() == "mock-central"
    ));
    assert!(write_result(Some(Waited::Answered(false))).is_err());
}

#[test]
fn l2cap_listener_returns_psm_and_stream() {
    let mut link = link();
    let psm = link.l2cap_listener("stream").unwrap();
    assert!(psm.value() >= 0x1001, "psm should be in the dynamic range");
    assert_eq!(psm, Psm(0x1001));
}

#[test]
fn l2cap_listener_respects_policy_error() {
    let policy = MockL2capPolicy {
        listener_error: Some(MockErrorKind::NotSupported),
        ..Default::default()
    };
    let mut link = LinkState::new(policy);
    let result = link.l2cap_listener("stream");
    assert!(matches!(result, Err(BlewError::NotSupported)));
    assert_eq!(
        MockErrorKind::Internal.to_error().message(),
        "internal error: mock l2cap policy rejected"
    );
}

#[test]
fn contract_notifications_arrive_in_order() {
    let mut link = link();
    let char_uuid = Uuid::from_u128(0xBBBB);
    link.subscribe_characteristic(char_uuid);
    let mut events = Vec::new();
    for i in 0..10_u8 {
        events.extend(link.notify_characteristic(char_uuid, vec![i]));
    }
    assert_eq!(events.len(), 10);
    for (expected, ev) in (0..10_u8).zip(events) {
        match ev {
            CentralEvent::CharacteristicNotification { value, .. } => {
                assert_eq!(&value[..], &[expected]);
            }
            other => panic!("expected notification {expected}, got {other:?}"),
        }
    }
}

#[test]
fn open_l2cap_channel_delivers_pair_to_listener() {
    let mut link = link();
    let psm = link.l2cap_listener("listener").unwrap();
    assert_eq!(*link.open_l2cap_channel(psm).unwrap(), "listener");
    assert!(matches!(open_result(7, true), Ok(7)));
    assert!(matches!(
        open_result(7, false),
        Err(BlewError::Internal(text)) if text == "listener stream closed"
    ));
    assert!(link.open_l2cap_channel(Psm(0x1002)).is_err());
}

#[test]
fn open_l2cap_channel_respects_policy_error() {
    let policy = MockL2capPolicy {
        open_error: Some(MockErrorKind::NotSupported),
        ..Default::default()
    };
    let mut link = LinkState::new(policy);
    let psm = link.l2cap_listener("listener").unwrap();
    let result = link.open_l2cap_channel(psm);
    assert!(matches!(result, Err(BlewError::NotSupported)));
}

#[test]
fn open_l2cap_channel_fails_when_no_listener() {
    let link = link();
    assert!(matches!(
        link.open_l2cap_channel(Psm(0x1001)),
        Err(BlewError::Internal(text)) if text == "no l2cap listener for psm Psm(4097)"
    ));
}
