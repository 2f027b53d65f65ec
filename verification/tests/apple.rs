use blew::central::types::{CentralEvent, DisconnectCause, ScanFilter};
use blew::error::BlewError;
use blew::gatt::props::{AttributePermissions, CharacteristicProperties};
use blew::gatt::service::{GattCharacteristic, GattService};
use blew::l2cap::types::{L2capConfig, L2capEncryption, Psm};
use blew::peripheral::types::{AdvertisingConfig, LocalName, PeripheralRequest};
use blew::platform::apple::central::{
    advertised_device, cb_props_to_ours, central_power_step, check_disconnect,
    disconnect_cause, discovered_characteristic, find_characteristic, l2cap_result, mtu,
    parse_uuids, power_up_timeout, restored_device, retry_when_ready, scan_services,
    split_manufacturer_data,
    try_write_without_response, write_ready_timeout, write_without_response, AdapterState,
    Advertisement, CbProperties, CentralState, FoundService, L2capOpened, LinkError, PowerEvent,
    PowerStep, RetryEvent, RetryStep, ServicesFound, ValueStep, WriteAttempt,
};
use blew::platform::apple::l2cap::{
    after_outbound_read, after_read, after_write, bridge_l2cap_channel, write_chunk, BridgeCmd,
    BridgePlan, Input, OutboundStep, Pump, PumpEvent, PumpStep, ReadStep, WriteProgress,
};
use blew::platform::apple::peripheral::{
    advertise_plan, incoming_channel, on_read_request, on_write_request,
    our_perms_to_cb, our_props_to_cb, peripheral_power_step, plan_characteristics,
    publish_encryption, read_outcome, request_result, write_outcome, AttResult, CbPermissions,
    NotifyTarget, PeripheralState, Unanswered,
};
use blew::types::DeviceId;
use blew::util::reply::Waited;
use blew::uuids::Uuid;
use std::time::Duration;

type State = CentralState<&'static str, u32>;

fn id(text: &str) -> DeviceId {
    DeviceId::from(text)
}

fn state() -> State {
    State::new(Some(Duration::from_secs(9)), L2capConfig::default())
}

fn known() -> State {
    let mut s = state();
    s.on_discovered(id("a"), "periph", restored_device(id("a"), None));
    s
}

const NONE: CbProperties = CbProperties {
    broadcast: false,
    read: false,
    write_without_response: false,
    write: false,
    notify: false,
    indicate: false,
};

#[test]
fn properties_round_trip() {
    assert!(cb_props_to_ours(NONE).is_empty());
    for bits in 0..=0xffu16 {
        let ours = CharacteristicProperties::from_bits_truncate(bits);
        assert_eq!(cb_props_to_ours(our_props_to_cb(ours)).bits(), bits & 0x3f);
    }
    assert_eq!(
        our_perms_to_cb(AttributePermissions::from_bits_truncate(
            AttributePermissions::WRITE | AttributePermissions::READ_ENCRYPTED
        )),
        CbPermissions {
            readable: false,
            writeable: true,
            read_encryption_required: true,
            write_encryption_required: false,
        }
    );
}

#[test]
fn the_cause_of_a_disconnect() {
    assert_eq!(
        disconnect_cause(false, Some(LinkError::ConnectionTimeout)),
        DisconnectCause::AdapterOff
    );
    assert_eq!(disconnect_cause(true, None), DisconnectCause::LocalClose);
    assert_eq!(
        disconnect_cause(true, Some(LinkError::ConnectionTimeout)),
        DisconnectCause::Timeout
    );
    assert_eq!(
        disconnect_cause(true, Some(LinkError::PeripheralDisconnected)),
        DisconnectCause::RemoteClose
    );
    assert_eq!(
        disconnect_cause(true, Some(LinkError::ConnectionFailed)),
        DisconnectCause::LinkLoss
    );
    assert_eq!(
        disconnect_cause(true, Some(LinkError::Other(-5))),
        DisconnectCause::Unknown(-5)
    );
    assert_eq!(
        disconnect_cause(true, Some(LinkError::Other(1 << 40))),
        DisconnectCause::Unknown(i32::MIN)
    );
}

#[test]
fn manufacturer_data_starts_with_the_company() {
    assert_eq!(
        split_manufacturer_data(&vec![0x4c, 0x00, 1, 2]),
        Some((0x004c, vec![1, 2]))
    );
    assert_eq!(
        split_manufacturer_data(&vec![0x01, 0xff]),
        Some((0xff01, vec![]))
    );
    assert_eq!(split_manufacturer_data(&vec![0x4c]), None);
    assert_eq!(split_manufacturer_data(&vec![]), None);
}

#[test]
fn an_advertisement_describes_a_device() {
    let uuid = "0000180f-0000-1000-8000-00805f9b34fb".to_string();
    let device = advertised_device(
        id("a"),
        Advertisement {
            local_name: None,
            cached_name: Some("cached".into()),
            service_uuids: vec![uuid.clone(), "180F".into()],
            manufacturer_data: Some(vec![7, 0, 9]),
            service_data: vec![(uuid.clone(), vec![1]), ("zz".into(), vec![2])],
            rssi: -70,
        },
    );
    assert_eq!(device.id.as_str(), "a");
    assert_eq!(device.name.as_deref(), Some("cached"));
    assert_eq!(device.rssi, Some(-70));
    assert_eq!(device.services, [Uuid::parse_str(&uuid).unwrap()]);
    assert_eq!(device.manufacturer_data.get(&7), Some(&vec![9]));
    assert_eq!(
        device.service_data.get(&Uuid::parse_str(&uuid).unwrap()),
        Some(&vec![1])
    );
    let device = advertised_device(
        id("a"),
        Advertisement {
            local_name: Some("fresh".into()),
            cached_name: Some("cached".into()),
            service_uuids: vec![],
            manufacturer_data: Some(vec![7]),
            service_data: vec![],
            rssi: 0,
        },
    );
    assert_eq!(device.name.as_deref(), Some("fresh"));
    assert!(device.manufacturer_data.get(&7).is_none());
    assert!(parse_uuids(&vec!["?".to_string()]).is_empty());
}

#[test]
fn a_characteristic_is_found_in_the_first_service_that_has_it() {
    let u = Uuid::from_u128;
    let services = vec![
        None,
        Some(vec![u(1)]),
        Some(vec![u(2), u(3)]),
        Some(vec![u(3)]),
    ];
    assert_eq!(find_characteristic(&services, u(3)), Some((2, 1)));
    assert_eq!(find_characteristic(&services, u(1)), Some((1, 0)));
    assert_eq!(find_characteristic(&services, u(9)), None);
}

#[test]
fn a_role_waits_for_power() {
    let wait = |powered, state| PowerEvent::Changed { powered, state };
    assert!(matches!(
        central_power_step(wait(true, AdapterState::NotYet)),
        PowerStep::Ready
    ));
    assert!(matches!(
        central_power_step(wait(false, AdapterState::NotYet)),
        PowerStep::Wait
    ));
    assert!(matches!(
        central_power_step(wait(false, AdapterState::Unauthorized)),
        PowerStep::Fail(BlewError::AdapterNotFound)
    ));
    assert!(matches!(
        central_power_step(PowerEvent::Closed {
            state: AdapterState::NotYet
        }),
        PowerStep::Ready
    ));
    assert!(matches!(
        central_power_step(PowerEvent::TimedOut {
            state: AdapterState::NotYet
        }),
        PowerStep::Fail(BlewError::NotPowered)
    ));
    assert!(matches!(
        peripheral_power_step(wait(true, AdapterState::NotYet)),
        PowerStep::Wait
    ));
    assert!(matches!(
        peripheral_power_step(wait(false, AdapterState::PoweredOn)),
        PowerStep::Ready
    ));
    assert!(matches!(
        peripheral_power_step(PowerEvent::Closed {
            state: AdapterState::Unsupported
        }),
        PowerStep::Fail(BlewError::AdapterNotFound)
    ));
    assert!(matches!(
        peripheral_power_step(PowerEvent::TimedOut {
            state: AdapterState::PoweredOn
        }),
        PowerStep::Ready
    ));
    assert_eq!(power_up_timeout(), Duration::from_secs(15));
    assert_eq!(write_ready_timeout(), Duration::from_secs(5));
}

#[test]
fn a_ready_write_goes_out_at_once() {
    assert!(matches!(
        retry_when_ready(RetryEvent::Attempted(Ok(true))),
        RetryStep::Done(Ok(true))
    ));
}

#[test]
fn a_write_waits_for_the_ready_callback() {
    assert!(matches!(
        retry_when_ready(RetryEvent::Attempted(Ok(false))),
        RetryStep::Wait
    ));
    assert!(matches!(
        retry_when_ready(RetryEvent::Ready),
        RetryStep::Attempt
    ));
}

#[test]
fn a_ready_callback_that_never_comes_times_out() {
    assert!(matches!(
        retry_when_ready(RetryEvent::TimedOut),
        RetryStep::Done(Ok(false))
    ));
    assert!(matches!(
        write_without_response(&id("a"), Ok(false)),
        Err(BlewError::Gatt { source, .. })
            if source == "CoreBluetooth never became ready to send a write without response"
    ));
    assert!(write_without_response(&id("a"), Ok(true)).is_ok());
}

#[test]
fn an_attempt_error_ends_the_wait() {
    let step = retry_when_ready(RetryEvent::Attempted(Err(BlewError::NotConnected(id(
        "gone",
    )))));
    match step {
        RetryStep::Done(sent) => assert!(matches!(
            write_without_response(&id("gone"), sent),
            Err(BlewError::NotConnected(_))
        )),
        _ => panic!("over"),
    }
}

#[test]
fn a_write_without_response_is_checked_before_it_is_sent() {
    let uuid = Uuid::from_u128(1);
    let ready = WriteAttempt {
        connected: true,
        found: true,
        max: 20,
        can_send: true,
    };
    assert!(matches!(
        try_write_without_response(&id("a"), uuid, 20, &ready),
        Ok(true)
    ));
    assert!(matches!(
        try_write_without_response(&id("a"), uuid, 21, &ready),
        Err(BlewError::ValueTooLarge { got: 21, max: 20 })
    ));
    assert!(matches!(
        try_write_without_response(
            &id("a"),
            uuid,
            1,
            &WriteAttempt {
                can_send: false,
                ..ready
            }
        ),
        Ok(false)
    ));
    assert!(matches!(
        try_write_without_response(
            &id("a"),
            uuid,
            99,
            &WriteAttempt {
                connected: true,
                found: false,
                max: 0,
                can_send: true,
            }
        ),
        Err(BlewError::CharacteristicNotFound { .. })
    ));
    assert!(matches!(
        try_write_without_response(
            &id("a"),
            uuid,
            99,
            &WriteAttempt {
                connected: false,
                found: false,
                max: 0,
                can_send: true,
            }
        ),
        Err(BlewError::NotConnected(_))
    ));
}

#[test]
fn the_mtu_includes_the_header() {
    assert_eq!(mtu(None), 23);
    assert_eq!(mtu(Some(20)), 23);
    assert_eq!(mtu(Some(512)), 515);
    assert_eq!(mtu(Some(65535)), 65535);
    assert_eq!(mtu(Some(65536)), 3);
}

#[test]
fn a_connect_needs_a_known_device() {
    let mut s = state();
    assert_eq!(s.connect_timeout(), Some(Duration::from_secs(9)));
    assert!(matches!(
        s.begin_connect(&id("a")),
        Err(BlewError::DeviceNotFound(_))
    ));
    let mut s = known();
    let rx = s.begin_connect(&id("a")).unwrap();
    assert!(matches!(
        s.begin_connect(&id("a")),
        Err(BlewError::ConnectInFlight(_))
    ));
    let (answer, event) = s.on_connected(id("a"));
    assert!(answer.unwrap().deliver().0);
    assert!(rx.into_receiver().try_recv().unwrap().is_ok());
    assert!(matches!(event, CentralEvent::DeviceConnected { .. }));

    let rx = s.begin_connect(&id("a")).unwrap();
    assert!(s.on_connect_failed(&id("a"), None).unwrap().deliver().0);
    assert!(matches!(
        rx.into_receiver().try_recv().unwrap(),
        Err(BlewError::Internal(text)) if text == "connection failed"
    ));
    let _rx = s.begin_connect(&id("a")).unwrap();
    let end = s.finish_connect(&id("a"), Waited::TimedOut);
    assert!(end.cancel);
    assert!(matches!(end.result, Err(BlewError::ConnectTimedOut(_))));
    assert!(s.begin_connect(&id("a")).is_ok());
    let end = s.finish_connect(&id("a"), Waited::Dropped);
    assert!(matches!(
        end.result,
        Err(BlewError::DisconnectedDuringOperation(_))
    ));
    assert!(check_disconnect(&id("a"), true).is_ok());
    assert!(matches!(
        check_disconnect(&id("a"), false),
        Err(BlewError::NotConnected(_))
    ));
}

#[test]
fn a_disconnect_fails_everything_pending_on_the_device() {
    let mut s = known();
    s.on_discovered(id("b"), "other", restored_device(id("b"), None));
    let u = Uuid::from_u128;
    let connect = s.begin_connect(&id("a")).unwrap();
    let discover = s.begin_discover_services(&id("a")).unwrap().reply;
    let read1 = s.begin_read(&id("a"), u(1), true).unwrap().reply;
    let read2 = s.begin_read(&id("a"), u(2), true).unwrap().reply;
    let other = s.begin_read(&id("b"), u(1), true).unwrap().reply;
    let write = s.begin_write(&id("a"), u(1), true, 1, 20).unwrap().reply;
    let notify = s.begin_set_notify(&id("a"), u(1), true).unwrap().reply;
    let open = s.begin_open_l2cap(&id("a")).unwrap().reply;

    let (failures, event) = s.on_disconnected(id("a"), true, None);
    assert!(matches!(
        event,
        CentralEvent::DeviceDisconnected {
            cause: DisconnectCause::LocalClose,
            ..
        }
    ));
    assert_eq!(failures.reads.len(), 2);
    assert!(failures.connect.unwrap().deliver().0);
    assert!(failures.discovery.unwrap().deliver().0);
    for out in failures.reads {
        assert!(out.deliver().0);
    }
    for out in failures.writes {
        assert!(out.deliver().0);
    }
    for out in failures.notify_states {
        assert!(out.deliver().0);
    }
    assert!(failures.l2cap.unwrap().deliver().0);
    assert!(connect.into_receiver().try_recv().unwrap().is_err());
    assert!(discover.into_receiver().try_recv().unwrap().is_err());
    assert!(matches!(
        read1.into_receiver().try_recv().unwrap(),
        Err(BlewError::DisconnectedDuringOperation(d)) if d.as_str() == "a"
    ));
    assert!(read2.into_receiver().try_recv().unwrap().is_err());
    assert!(write.into_receiver().try_recv().unwrap().is_err());
    assert!(notify.into_receiver().try_recv().unwrap().is_err());
    assert!(open.into_receiver().try_recv().unwrap().is_err());
    assert!(s.peripheral(&id("a")).is_none());

    // The other device is not affected.
    match s.on_value(id("b"), u(1), b"x".to_vec(), None) {
        ValueStep::Answer(out) => assert!(out.deliver().0),
        _ => panic!("the read is still pending"),
    }
    assert_eq!(other.into_receiver().try_recv().unwrap().unwrap(), b"x");
}

fn found(uuid: u128) -> FoundService {
    FoundService {
        uuid: Some(Uuid::from_u128(uuid)),
        primary: true,
    }
}

#[test]
fn a_discovery_ends_with_the_last_service() {
    let mut s = known();
    let rx = s.begin_discover_services(&id("a")).unwrap().reply;
    let unreadable = FoundService {
        uuid: None,
        primary: true,
    };
    let step = s.on_services_discovered(
        &id("a"),
        ServicesFound::Found(vec![found(1), unreadable, found(2)]),
    );
    assert!(step.answer.is_none());
    assert_eq!(step.fetch, [true, false, true]);
    let ch = discovered_characteristic(Uuid::from_u128(7), NONE, b"v".to_vec());
    assert!(s
        .on_characteristics_discovered(&id("a"), Uuid::from_u128(2), Some(vec![ch]))
        .is_none());
    let answer = s
        .on_characteristics_discovered(&id("a"), Uuid::from_u128(1), None)
        .unwrap();
    assert!(answer.deliver().0);
    let mut services = rx.into_receiver().try_recv().unwrap().unwrap();
    services.sort_by_key(|s| s.uuid.as_u128());
    assert_eq!(services.len(), 2);
    assert!(services[0].characteristics.is_empty());
    assert_eq!(services[1].characteristics[0].value, b"v");
    assert!(s
        .on_characteristics_discovered(&id("a"), Uuid::from_u128(1), None)
        .is_none());
}

#[test]
fn a_discovery_can_end_early() {
    let mut s = known();
    let rx = s.begin_discover_services(&id("a")).unwrap().reply;
    let step = s.on_services_discovered(&id("a"), ServicesFound::Failed("why".into()));
    assert!(step.answer.unwrap().deliver().0);
    assert!(matches!(
        rx.into_receiver().try_recv().unwrap(),
        Err(BlewError::DiscoveryFailed { reason, .. }) if reason == "why"
    ));
    let rx = s.begin_discover_services(&id("a")).unwrap().reply;
    let step = s.on_services_discovered(&id("a"), ServicesFound::Found(vec![]));
    assert!(step.answer.unwrap().deliver().0);
    assert!(rx.into_receiver().try_recv().unwrap().unwrap().is_empty());
    let rx = s.begin_discover_services(&id("a")).unwrap().reply;
    let step = s.on_services_discovered(
        &id("a"),
        ServicesFound::Found(vec![FoundService {
            uuid: None,
            primary: false,
        }]),
    );
    assert!(step.answer.unwrap().deliver().0);
    assert!(rx.into_receiver().try_recv().unwrap().unwrap().is_empty());
    let step = s.on_services_discovered(&id("a"), ServicesFound::Found(vec![found(1)]));
    assert!(step.answer.is_none() && step.fetch.is_empty());
    assert!(matches!(
        s.begin_discover_services(&id("zz")),
        Err(BlewError::NotConnected(_))
    ));
}

#[test]
fn values_answer_reads_or_are_announced() {
    let mut s = known();
    let u = Uuid::from_u128(1);
    let rx = s.begin_read(&id("a"), u, true).unwrap().reply;
    match s.on_value(id("a"), u, vec![], Some("denied".into())) {
        ValueStep::Answer(out) => assert!(out.deliver().0),
        _ => panic!("a read"),
    }
    assert!(matches!(
        rx.into_receiver().try_recv().unwrap(),
        Err(BlewError::Internal(text)) if text == "denied"
    ));
    assert!(matches!(
        s.on_value(id("a"), u, b"n".to_vec(), None),
        ValueStep::Notify(CentralEvent::CharacteristicNotification { value, .. }) if value == b"n"
    ));
    assert!(matches!(
        s.on_value(id("a"), u, vec![], Some("x".into())),
        ValueStep::Ignore
    ));
    assert!(matches!(
        s.begin_read(&id("a"), u, false),
        Err(BlewError::CharacteristicNotFound { .. })
    ));
    assert!(matches!(
        s.begin_read(&id("zz"), u, true),
        Err(BlewError::NotConnected(_))
    ));
}

#[test]
fn writes_and_subscriptions_are_answered() {
    let mut s = known();
    let u = Uuid::from_u128(1);
    assert!(matches!(
        s.begin_write(&id("a"), u, true, 21, 20),
        Err(BlewError::ValueTooLarge { got: 21, max: 20 })
    ));
    let rx = s.begin_write(&id("a"), u, true, 20, 20).unwrap().reply;
    assert!(s.on_written(id("a"), u, None).unwrap().deliver().0);
    assert!(rx.into_receiver().try_recv().unwrap().is_ok());
    assert!(s.on_written(id("a"), u, None).is_none());
    let rx = s.begin_set_notify(&id("a"), u, true).unwrap().reply;
    assert!(s
        .on_notify_state(id("a"), u, Some("no".into()))
        .unwrap()
        .deliver()
        .0);
    assert!(rx.into_receiver().try_recv().unwrap().is_err());
}

#[test]
fn an_apple_central_cannot_demand_security() {
    let mut s = State::new(
        None,
        L2capConfig {
            encryption: L2capEncryption::RequireEncryption,
            ..Default::default()
        },
    );
    assert!(matches!(
        s.begin_open_l2cap(&id("a")),
        Err(BlewError::L2capEncryptionUnsupported {
            requested: L2capEncryption::RequireEncryption,
            ..
        })
    ));
    let mut s = state();
    assert!(matches!(
        s.begin_open_l2cap(&id("a")),
        Err(BlewError::DeviceNotFound(_))
    ));
    let mut s = known();
    let rx = s.begin_open_l2cap(&id("a")).unwrap().reply;
    let waiter = s.on_l2cap_opened(&id("a")).unwrap();
    let mut log = blew::util::reply::SentLog::new();
    assert!(waiter.send(l2cap_result(L2capOpened::Channel(5)), &mut log));
    assert_eq!(rx.into_receiver().try_recv().unwrap().unwrap(), 5);
    assert!(s.on_l2cap_opened(&id("a")).is_none());
    assert!(matches!(
        l2cap_result::<u8>(L2capOpened::Missing),
        Err(BlewError::Internal(text)) if text == "no L2CAP channel"
    ));
    assert!(matches!(
        l2cap_result::<u8>(L2capOpened::Failed("f".into())),
        Err(BlewError::Internal(text)) if text == "f"
    ));
    assert!(matches!(
        l2cap_result::<u8>(L2capOpened::Unbridged("u".into())),
        Err(BlewError::L2cap { source }) if source == "u"
    ));
}

#[test]
fn what_was_restored_is_handed_out_once() {
    let mut s = state();
    assert!(s.take_restored().is_none());
    s.on_restored(vec![restored_device(id("a"), Some("n".into()))]);
    let devices = s.take_restored().unwrap();
    assert_eq!(devices[0].name.as_deref(), Some("n"));
    assert!(devices[0].rssi.is_none());
    assert!(s.take_restored().is_none());
}

#[test]
fn publishing_demands_what_it_can() {
    assert!(matches!(
        publish_encryption(L2capEncryption::Insecure),
        Ok(false)
    ));
    assert!(matches!(
        publish_encryption(L2capEncryption::RequireEncryption),
        Ok(true)
    ));
    assert!(matches!(
        publish_encryption(L2capEncryption::RequireAuthentication),
        Err(BlewError::L2capEncryptionUnsupported { .. })
    ));
}

#[test]
fn a_service_is_registered_and_answered() {
    let service = GattService {
        uuid: Uuid::from_u128(1),
        primary: true,
        characteristics: vec![
            GattCharacteristic {
                uuid: Uuid::from_u128(2),
                properties: CharacteristicProperties::from_bits_truncate(
                    CharacteristicProperties::READ,
                ),
                permissions: AttributePermissions::from_bits_truncate(AttributePermissions::READ),
                value: b"s".to_vec(),
                descriptors: vec![],
            },
            GattCharacteristic {
                uuid: Uuid::from_u128(3),
                properties: CharacteristicProperties::empty(),
                permissions: AttributePermissions::empty(),
                value: vec![],
                descriptors: vec![],
            },
        ],
    };
    let plans = plan_characteristics(&service);
    assert_eq!(plans.len(), 2);
    assert!(plans[0].properties.read && !plans[0].properties.write);
    assert!(plans[0].permissions.readable);
    assert_eq!(plans[0].value.as_deref(), Some(&b"s"[..]));
    assert!(plans[1].value.is_none());

    let mut s = PeripheralState::<u8, char>::new();
    let u = Uuid::from_u128;
    let rx = s
        .begin_add_service(u(1), vec![(u(2), 20), (u(3), 30), (u(2), 21)])
        .unwrap();
    assert!(matches!(
        s.begin_add_service(u(1), vec![(u(2), 99)]),
        Err(BlewError::Peripheral { source })
            if source == "an earlier add_service of the service is still unanswered"
    ));
    let _other = s.begin_add_service(u(5), vec![]).unwrap();
    assert_eq!(*s.characteristic(u(2)).unwrap(), 21);
    assert!(matches!(
        s.characteristic(u(9)),
        Err(BlewError::LocalCharacteristicNotFound { char_uuid }) if char_uuid == u(9)
    ));
    assert!(s.on_service_added(u(4), None).is_none());
    assert!(s
        .on_service_added(u(1), Some("bad".into()))
        .unwrap()
        .deliver()
        .0);
    let answer = rx.into_receiver().try_recv().ok();
    assert!(matches!(
        request_result(Unanswered::AddService, answer),
        Err(BlewError::Internal(text)) if text == "bad"
    ));
    assert!(matches!(
        request_result::<()>(Unanswered::AddService, None),
        Err(BlewError::Internal(text)) if text == "add_service channel dropped"
    ));
    assert!(matches!(
        request_result::<()>(Unanswered::StartAdvertising, None),
        Err(BlewError::Internal(text)) if text == "start_advertising channel dropped"
    ));
    assert!(matches!(
        request_result::<()>(Unanswered::Publish, None),
        Err(BlewError::Internal(text)) if text == "l2cap_publish channel dropped"
    ));
}

#[test]
fn advertising_and_publishing_are_answered() {
    let mut s = PeripheralState::<u8, char>::new();
    assert!(matches!(
        s.begin_advertising(true),
        Err(BlewError::AlreadyAdvertising)
    ));
    let rx = s.begin_advertising(false).unwrap();
    assert!(matches!(
        s.begin_advertising(false),
        Err(BlewError::AlreadyAdvertising)
    ));
    assert!(s.on_advertising_started(None).unwrap().deliver().0);
    assert!(rx.into_receiver().try_recv().unwrap().is_ok());
    assert!(s.on_advertising_started(None).is_none());
    // A caller that gave up leaves its request owed.
    drop(s.begin_advertising(false).unwrap());
    assert!(s.begin_advertising(false).is_err());
    assert!(!s.on_advertising_started(None).unwrap().deliver().0);
    assert!(s.begin_advertising(false).is_ok());
    let rx = s.begin_publish().unwrap();
    assert!(matches!(
        s.begin_publish(),
        Err(BlewError::Peripheral { source })
            if source == "an earlier L2CAP publish is still unanswered"
    ));
    assert!(s.on_published(0x90, None).unwrap().deliver().0);
    assert_eq!(rx.into_receiver().try_recv().unwrap().unwrap(), Psm(0x90));
    let plan = advertise_plan(&AdvertisingConfig {
        local_name: LocalName::AllowPermanent("n".into()),
        service_uuids: vec![Uuid::nil()],
    });
    assert_eq!(plan.local_name.as_deref(), Some("n"));
    assert_eq!(plan.service_uuids, [Uuid::nil()]);
}

#[test]
fn requests_become_att_results() {
    let u = Uuid::from_u128;
    let (request, reply) = on_read_request(id("c"), None, Some(u(2)), 65536 + 3).unwrap();
    match request {
        PeripheralRequest::Read {
            service_uuid,
            offset,
            responder,
            ..
        } => {
            assert_eq!(service_uuid, Uuid::nil());
            assert_eq!(offset, 3);
            responder.respond(b"r".to_vec());
        }
        _ => panic!("a read"),
    }
    let answer = reply.into_receiver().try_recv().unwrap();
    assert_eq!(
        read_outcome(answer),
        (AttResult::Success, Some(b"r".to_vec()))
    );
    assert_eq!(read_outcome(Err(())), (AttResult::AttributeNotFound, None));
    assert!(on_read_request(id("c"), None, None, 0).is_none());
    let (request, reply) =
        on_write_request(id("c"), Some(u(1)), Some(u(2)), 0, b"w".to_vec()).unwrap();
    drop(request);
    let success = reply.into_receiver().try_recv().unwrap();
    assert_eq!(write_outcome(success), AttResult::WriteNotPermitted);
    assert_eq!(write_outcome(true), AttResult::Success);
    assert!(on_write_request(id("c"), None, None, 0, vec![]).is_none());
    assert!(matches!(incoming_channel(Some(1), None), Some(Ok(1))));
    assert!(matches!(
        incoming_channel(Some(1), Some("e".into())),
        Some(Err(BlewError::Internal(text))) if text == "e"
    ));
    assert!(incoming_channel::<u8>(None, None).is_none());
}

#[test]
fn a_chunk_is_written_piece_by_piece() {
    assert_eq!(write_chunk(0), WriteProgress::Done);
    assert_eq!(write_chunk(10), WriteProgress::At(0));
    assert_eq!(after_write(10, 0, 4), WriteProgress::At(4));
    assert_eq!(after_write(10, 4, 6), WriteProgress::Done);
    assert_eq!(after_write(10, 4, 0), WriteProgress::Failed);
    assert_eq!(after_write(10, 4, -1), WriteProgress::Failed);
    assert_eq!(after_read(0), ReadStep::Stop);
    assert_eq!(after_read(-1), ReadStep::Stop);
    assert_eq!(after_read(7), ReadStep::Forward(7));
    assert_eq!(after_outbound_read(Some(3)), OutboundStep::Write(3));
    assert_eq!(after_outbound_read(Some(0)), OutboundStep::End);
    assert_eq!(after_outbound_read(None), OutboundStep::End);
    assert_eq!(
        bridge_l2cap_channel(true, true, &L2capConfig::default()),
        BridgePlan::Worker {
            buffer_size: 65536,
            read_chunk: 4096,
            queue: 16,
            linger: L2capConfig::default().linger_timeout,
        }
    );
    assert_eq!(
        bridge_l2cap_channel(true, false, &L2capConfig::default()),
        BridgePlan::Dead { buffer_size: 64 }
    );
}

#[test]
fn a_worker_obeys_commands_before_it_reads() {
    let mut pump = Pump::new();
    assert!(matches!(pump.pump(PumpEvent::Turn), PumpStep::TakeCommand));
    assert!(matches!(
        pump.pump(write(b"w")),
        PumpStep::Write(data) if data == b"w"
    ));
    assert!(matches!(
        pump.pump(PumpEvent::Wrote(true)),
        PumpStep::TakeCommand
    ));
    assert!(matches!(
        pump.pump(PumpEvent::Command(None)),
        PumpStep::Forward
    ));
    assert!(matches!(
        pump.pump(PumpEvent::Forwarded(Input::Forwarded)),
        PumpStep::Poll
    ));
    assert!(matches!(
        pump.pump(PumpEvent::Deadline),
        PumpStep::TakeCommand
    ));
    for end in [
        PumpEvent::Wrote(false),
        PumpEvent::Forwarded(Input::Ended),
    ] {
        assert!(matches!(pump.pump(end), PumpStep::Stop));
    }
}

fn write(data: &[u8]) -> PumpEvent {
    PumpEvent::Command(Some(BridgeCmd::Write(data.to_vec())))
}

#[test]
fn a_closed_channel_writes_what_is_still_on_its_way() {
    let mut pump = Pump::new();
    let mut written = Vec::new();
    for event in [
        write(b"a"),
        PumpEvent::Wrote(true),
        PumpEvent::Command(Some(BridgeCmd::Close)),
        PumpEvent::Turn,
        write(b"b"),
        PumpEvent::Wrote(true),
        // The queue is empty for a moment; the rest is on its way.
        PumpEvent::Command(None),
        PumpEvent::Turn,
        write(b"c"),
        PumpEvent::Wrote(true),
        PumpEvent::Command(Some(BridgeCmd::End)),
    ] {
        match pump.pump(event) {
            PumpStep::Write(data) => written.extend(data),
            PumpStep::Stop => panic!("stopped early"),
            _ => {}
        }
    }
    assert_eq!(written, b"abc");
    assert!(matches!(
        pump.pump(PumpEvent::Command(None)),
        PumpStep::Stop
    ));
}

#[test]
fn a_dropped_channel_lingers_until_its_deadline() {
    let mut pump = Pump::new();
    assert!(matches!(
        pump.pump(PumpEvent::Forwarded(Input::Unwanted)),
        PumpStep::Linger
    ));
    assert!(matches!(
        pump.pump(PumpEvent::Command(Some(BridgeCmd::Close))),
        PumpStep::TakeCommand
    ));
    assert!(matches!(pump.pump(PumpEvent::Command(None)), PumpStep::Poll));
    assert!(matches!(pump.pump(write(b"x")), PumpStep::Write(_)));
    assert!(matches!(pump.pump(PumpEvent::Deadline), PumpStep::Stop));
}

#[test]
fn a_displaced_request_is_handed_back() {
    let mut s = known();
    let u = Uuid::from_u128(1);
    let first = s.begin_read(&id("a"), u, true).unwrap();
    assert!(first.displaced.is_none());
    let second = s.begin_read(&id("a"), u, true).unwrap();
    drop(second.displaced.unwrap());
    assert!(first.reply.into_receiver().try_recv().is_err());
    assert!(s.begin_write(&id("a"), u, true, 1, 2).unwrap().displaced.is_none());
    assert!(s.begin_write(&id("a"), u, true, 1, 2).unwrap().displaced.is_some());
    assert!(s.begin_set_notify(&id("a"), u, true).unwrap().displaced.is_none());
    assert!(s.begin_set_notify(&id("a"), u, true).unwrap().displaced.is_some());
    assert!(s.begin_discover_services(&id("a")).unwrap().displaced.is_none());
    assert!(s.begin_discover_services(&id("a")).unwrap().displaced.is_some());
    assert!(s.begin_open_l2cap(&id("a")).unwrap().displaced.is_none());
    assert!(s.begin_open_l2cap(&id("a")).unwrap().displaced.is_some());
}

#[test]
fn an_empty_filter_scans_for_everything() {
    assert!(scan_services(&ScanFilter::default()).is_none());
    let filter = ScanFilter {
        services: vec![Uuid::from_u128(1)],
        ..Default::default()
    };
    assert_eq!(scan_services(&filter).unwrap().len(), 1);
}

#[test]
fn a_value_is_sent_to_the_one_central_that_subscribed() {
    let mut s = PeripheralState::<u8, char>::new();
    let u = Uuid::from_u128;
    let _rx = s.begin_add_service(u(1), vec![(u(2), 20)]).unwrap();
    assert!(s.on_subscription(id("c"), 'c', Some(u(2)), true).is_some());
    assert!(s.on_subscription(id("d"), 'd', Some(u(2)), true).is_some());
    assert!(s.on_subscription(id("c"), 'x', None, true).is_none());
    assert!(matches!(
        s.notify_target(&id("c"), u(2)),
        Ok(NotifyTarget::Central(20, 'c'))
    ));
    assert!(matches!(
        s.notify_target(&id("d"), u(2)),
        Ok(NotifyTarget::Central(20, 'd'))
    ));
    assert!(matches!(
        s.notify_target(&id("e"), u(2)),
        Ok(NotifyTarget::NoSubscriber)
    ));
    assert!(matches!(
        s.notify_target(&id("c"), u(3)),
        Err(BlewError::LocalCharacteristicNotFound { char_uuid }) if char_uuid == u(3)
    ));
    assert!(s.on_subscription(id("c"), 'c', Some(u(2)), false).is_some());
    assert!(matches!(
        s.notify_target(&id("c"), u(2)),
        Ok(NotifyTarget::NoSubscriber)
    ));
}

#[test]
fn losing_power_answers_every_request() {
    let mut s = PeripheralState::<u8, char>::new();
    let u = Uuid::from_u128;
    let a = s.begin_add_service(u(1), vec![]).unwrap();
    let b = s.begin_add_service(u(2), vec![]).unwrap();
    let c = s.begin_advertising(false).unwrap();
    let d = s.begin_publish().unwrap();
    let dropped = s.on_power_lost();
    assert_eq!(dropped.services.len(), 2);
    for out in dropped.services.into_iter().chain(dropped.advertising) {
        assert!(out.deliver().0);
    }
    for out in dropped.publishing {
        assert!(out.deliver().0);
    }
    for rx in [a, b, c] {
        assert!(matches!(
            rx.into_receiver().try_recv().unwrap(),
            Err(BlewError::NotPowered)
        ));
    }
    assert!(matches!(
        d.into_receiver().try_recv().unwrap(),
        Err(BlewError::NotPowered)
    ));
    assert!(s.begin_publish().is_ok());
}

#[test]
fn a_new_scan_forgets_what_was_seen() {
    let mut s = known();
    assert!(s.discovered().contains_key(&id("a")));
    let filter = ScanFilter {
        services: vec![Uuid::from_u128(1)],
        ..Default::default()
    };
    assert_eq!(s.begin_scan(&filter).unwrap().len(), 1);
    assert!(!s.discovered().contains_key(&id("a")));
    assert!(s.peripheral(&id("a")).is_some(), "it can still be connected to");
    assert!(s.begin_scan(&ScanFilter::default()).is_none());
}
