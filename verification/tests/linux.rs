use blew::error::BlewError;
use blew::gatt::props::{AttributePermissions, CharacteristicProperties};
use blew::gatt::service::{GattCharacteristic, GattService};
use blew::l2cap::types::{L2capEncryption, Psm};
use blew::peripheral::types::{
    AdvertisingConfig, Delivery, LocalName, PeripheralRequest, PeripheralStateEvent,
};
use blew::platform::linux::l2cap::{
    accepted, accepts_again, bind_l2cap_listener, bound, socket_security, SecurityLevel,
};
use blew::platform::linux::peripheral::{
    adapter_error, adapter_event, build_characteristic, build_service, indication_pacing_bound, pacing_wait,
    keeps_session, notify_flags, notify_outcome, on_read, on_write, static_read, AdapterFailure,
    AdvertisementKind, NotifyError, NotifyErrorKind, NotifyTally, PeripheralState, ReadPlan,
    ReadStep, SessionOutcome, StartAction, StartEvent, WritePlan,
};
use blew::uuids::Uuid;
use std::time::Duration;

fn props(bits: u16) -> CharacteristicProperties {
    CharacteristicProperties::from_bits_truncate(bits)
}

#[test]
fn notify_flags_follow_the_declared_properties() {
    assert_eq!(notify_flags(props(CharacteristicProperties::READ)), None);
    assert_eq!(
        notify_flags(props(CharacteristicProperties::NOTIFY)),
        Some((true, false))
    );
    assert_eq!(
        notify_flags(props(CharacteristicProperties::INDICATE)),
        Some((false, true))
    );
    assert_eq!(
        notify_flags(props(
            CharacteristicProperties::NOTIFY | CharacteristicProperties::INDICATE
        )),
        Some((true, true))
    );
}

#[test]
fn the_indication_wait_stays_a_pacing_bound() {
    assert!(indication_pacing_bound() < Duration::from_secs(30));
    assert!(indication_pacing_bound() >= Duration::from_secs(4));
    assert_eq!(indication_pacing_bound(), Duration::from_secs(5));
    assert_eq!(pacing_wait(true), Some(Duration::from_secs(5)));
    assert_eq!(pacing_wait(false), None);
}

fn bluez_error(kind: NotifyErrorKind) -> NotifyError {
    NotifyError {
        kind,
        message: String::new(),
    }
}

#[test]
fn every_ending_after_the_emit_is_sent() {
    assert!(matches!(notify_outcome(Some(Ok(())), false), Ok(true)));
    assert!(matches!(notify_outcome(None, false), Ok(true)));
    assert!(matches!(
        notify_outcome(
            Some(Err(bluez_error(NotifyErrorKind::IndicationUnconfirmed))),
            true
        ),
        Ok(true)
    ));
}

#[test]
fn a_stopped_session_sends_nothing_and_a_failed_emit_is_an_error() {
    assert!(matches!(
        notify_outcome(
            Some(Err(bluez_error(NotifyErrorKind::NotificationSessionStopped))),
            true
        ),
        Ok(false)
    ));
    assert!(matches!(
        notify_outcome(
            Some(Err(bluez_error(NotifyErrorKind::NotificationSessionStopped))),
            false
        ),
        Err(BlewError::Peripheral { .. })
    ));
    assert!(matches!(
        notify_outcome(
            Some(Err(NotifyError {
                kind: NotifyErrorKind::Other,
                message: "org.bluez.Error".to_string()
            })),
            true
        ),
        Err(BlewError::Peripheral { source }) if source == "org.bluez.Error"
    ));
}

fn characteristic(uuid: u128, bits: u16, value: &[u8]) -> GattCharacteristic {
    GattCharacteristic {
        uuid: Uuid::from_u128(uuid),
        properties: props(bits),
        permissions: AttributePermissions::empty(),
        value: value.to_vec(),
        descriptors: vec![],
    }
}

#[test]
fn a_characteristic_registers_what_it_declares() {
    let svc = Uuid::from_u128(1);
    let plan = build_characteristic(
        &characteristic(2, CharacteristicProperties::READ, b"static"),
        svc,
    );
    assert_eq!(plan.uuid, Uuid::from_u128(2));
    assert_eq!(plan.service_uuid, svc);
    assert!(matches!(&plan.read, Some(ReadPlan::Static(v)) if v == b"static"));
    assert!(plan.write.is_none());
    assert!(plan.notify.is_none());

    let plan = build_characteristic(
        &characteristic(
            3,
            CharacteristicProperties::READ
                | CharacteristicProperties::WRITE
                | CharacteristicProperties::NOTIFY,
            b"",
        ),
        svc,
    );
    assert!(matches!(plan.read, Some(ReadPlan::Ask)));
    assert_eq!(
        plan.write,
        Some(WritePlan {
            request: true,
            command: false
        })
    );
    assert_eq!(plan.notify, Some((true, false)));

    let plan = build_characteristic(
        &characteristic(4, CharacteristicProperties::WRITE_WITHOUT_RESPONSE, b""),
        svc,
    );
    assert!(plan.read.is_none());
    assert_eq!(
        plan.write,
        Some(WritePlan {
            request: false,
            command: true
        })
    );
}

#[test]
fn a_static_read_honours_its_offset() {
    let value = b"hello".to_vec();
    assert_eq!(static_read(&value, 0), b"hello");
    assert_eq!(static_read(&value, 2), b"llo");
    assert_eq!(static_read(&value, 4), b"o");
    assert_eq!(static_read(&value, 5), b"hello");
    assert_eq!(static_read(&value, 600), b"hello");
    assert_eq!(static_read(&vec![], 1), b"");
}

#[test]
fn reads_are_answered_or_put_to_the_application() {
    let svc = Uuid::from_u128(1);
    let plan = build_characteristic(
        &characteristic(2, CharacteristicProperties::READ, b"abc"),
        svc,
    );
    assert!(matches!(on_read(&plan, "AA", 1), ReadStep::Answer(v) if v == b"bc"));

    let plan = build_characteristic(&characteristic(2, CharacteristicProperties::READ, b""), svc);
    match on_read(&plan, "AA", 7) {
        ReadStep::Ask { request, reply } => match request {
            PeripheralRequest::Read {
                client_id,
                service_uuid,
                char_uuid,
                offset,
                responder,
            } => {
                assert_eq!(client_id.as_str(), "AA");
                assert_eq!(service_uuid, svc);
                assert_eq!(char_uuid, Uuid::from_u128(2));
                assert_eq!(offset, 7);
                responder.respond(b"dyn".to_vec());
                assert_eq!(
                    reply.into_receiver().try_recv().unwrap(),
                    Ok(b"dyn".to_vec())
                );
            }
            _ => panic!("a read"),
        },
        _ => panic!("the application is asked"),
    }

    let plan = build_characteristic(&characteristic(2, 0, b"abc"), svc);
    assert!(matches!(on_read(&plan, "AA", 0), ReadStep::Refuse));
}

#[test]
fn only_a_write_request_waits_for_a_reply() {
    let plan = build_characteristic(
        &characteristic(2, CharacteristicProperties::WRITE, b""),
        Uuid::from_u128(1),
    );
    let step = on_write(&plan, "AA", 3, b"xyz".to_vec(), true);
    let reply = step.reply.unwrap();
    match step.request {
        PeripheralRequest::Write {
            client_id,
            offset,
            value,
            responder,
            ..
        } => {
            assert_eq!(client_id.as_str(), "AA");
            assert_eq!(offset, 3);
            assert_eq!(value, b"xyz");
            responder.unwrap().success();
        }
        _ => panic!("a write"),
    }
    assert!(reply.into_receiver().try_recv().unwrap());

    let step = on_write(&plan, "AA", 0, vec![], false);
    assert!(step.reply.is_none());
    assert!(matches!(
        step.request,
        PeripheralRequest::Write {
            responder: None,
            ..
        }
    ));
}

type State = PeripheralState<u8, &'static str, &'static str>;

fn service(uuid: u128) -> GattService {
    GattService {
        uuid: Uuid::from_u128(uuid),
        primary: true,
        characteristics: vec![characteristic(
            uuid * 10,
            CharacteristicProperties::READ,
            b"v",
        )],
    }
}

#[test]
fn advertising_serves_then_advertises_then_falls_back() {
    let mut state = State::new();
    state.add_service(service(1));
    state.add_service(service(2));
    state.add_service(service(1));
    let config = AdvertisingConfig {
        local_name: LocalName::Temporary("name".into()),
        service_uuids: vec![Uuid::from_u128(1)],
    };
    match state.start_advertising(&config, StartEvent::Asked) {
        StartAction::Serve(plans) => {
            assert_eq!(plans.len(), 2);
            assert_eq!(plans[0].uuid, Uuid::from_u128(1));
            assert_eq!(plans[1].characteristics[0].uuid, Uuid::from_u128(20));
        }
        _ => panic!("serve first"),
    }
    match state.start_advertising(&config, StartEvent::Served(Ok("app"))) {
        StartAction::Advertise(plan) => {
            assert_eq!(plan.kind, AdvertisementKind::Extended);
            assert_eq!(plan.local_name.as_deref(), Some("name"));
            assert_eq!(plan.service_uuids, [Uuid::from_u128(1)]);
        }
        _ => panic!("then advertise"),
    }
    let failed = StartEvent::Advertised(AdvertisementKind::Extended, Err("no".to_string()));
    assert!(matches!(
        state.start_advertising(&config, failed),
        StartAction::Advertise(plan) if plan.kind == AdvertisementKind::Legacy
    ));
    let up = StartEvent::Advertised(AdvertisementKind::Legacy, Ok("adv"));
    assert!(matches!(
        state.start_advertising(&config, up),
        StartAction::Finish(Ok(()))
    ));
    assert!(matches!(
        state.start_advertising(&config, StartEvent::Asked),
        StartAction::Finish(Err(BlewError::AlreadyAdvertising))
    ));
    state.stop_advertising();
    assert!(matches!(
        state.start_advertising(&config, StartEvent::Asked),
        StartAction::Serve(plans) if plans.len() == 2
    ));
}

#[test]
fn a_failure_to_serve_or_to_advertise_is_final() {
    let mut state = State::new();
    let config = AdvertisingConfig::default();
    assert!(matches!(
        state.start_advertising(&config, StartEvent::Served(Err("serve".to_string()))),
        StartAction::Finish(Err(BlewError::Peripheral { source })) if source == "serve"
    ));
    let failed = StartEvent::Advertised(AdvertisementKind::Legacy, Err("adv".to_string()));
    assert!(matches!(
        state.start_advertising(&config, failed),
        StartAction::Finish(Err(BlewError::Peripheral { source })) if source == "adv"
    ));
}

#[test]
fn subscriptions_last_until_they_stop_or_advertising_does() {
    let mut state = State::new();
    let uuid = Uuid::from_u128(9);
    assert!(state.notifiers_of(uuid).is_none());
    let event = state.subscribe(uuid, 1);
    assert!(matches!(
        event,
        PeripheralStateEvent::SubscriptionChanged { client_id, char_uuid, subscribed: true }
            if client_id.as_str().is_empty() && char_uuid == uuid
    ));
    state.subscribe(uuid, 2);
    state.subscribe(uuid, 3);
    assert_eq!(state.notifiers_of(uuid).unwrap(), &vec![1, 2, 3]);
    let live = vec![
        keeps_session(Some(false)),
        keeps_session(Some(true)),
        keeps_session(None),
    ];
    state.prune(uuid, &live);
    assert_eq!(state.notifiers_of(uuid).unwrap(), &vec![1, 3]);
    state.stop_advertising();
    assert!(state.notifiers_of(uuid).is_none());
}

#[test]
fn a_tally_reports_the_first_failure_or_whether_anything_was_sent() {
    let tally = NotifyTally::new();
    assert!(!tally.saw_stopped());
    assert!(matches!(tally.finish(), Ok(Delivery::NoSubscriber)));

    let mut tally = NotifyTally::new();
    tally.record(SessionOutcome::Stopped);
    tally.record(SessionOutcome::Notified(Ok(true)));
    assert!(tally.saw_stopped());
    assert!(matches!(tally.finish(), Ok(Delivery::Sent)));

    let mut tally = NotifyTally::new();
    tally.record(SessionOutcome::Notified(Ok(true)));
    tally.record(SessionOutcome::Notified(Err(BlewError::Internal(
        "first".into(),
    ))));
    tally.record(SessionOutcome::Notified(Err(BlewError::Internal(
        "second".into(),
    ))));
    tally.record(SessionOutcome::Notified(Ok(false)));
    assert!(tally.saw_stopped());
    assert!(matches!(
        tally.finish(),
        Err(BlewError::Internal(text)) if text == "first"
    ));
}

#[test]
fn a_service_keeps_the_order_of_its_characteristics() {
    let mut svc = service(1);
    svc.primary = false;
    svc.characteristics
        .push(characteristic(77, CharacteristicProperties::WRITE, b""));
    let plan = build_service(&svc);
    assert!(!plan.primary);
    assert_eq!(plan.characteristics.len(), 2);
    assert_eq!(plan.characteristics[1].uuid, Uuid::from_u128(77));
}

#[test]
fn the_adapter_is_reported() {
    assert!(matches!(
        adapter_error(AdapterFailure::NoAdapter),
        BlewError::AdapterNotFound
    ));
    assert!(matches!(
        adapter_error(AdapterFailure::NoSession("dbus".into())),
        BlewError::Peripheral { source } if source == "dbus"
    ));
    assert!(adapter_event(None).is_none());
    assert!(matches!(
        adapter_event(Some(true)),
        Some(PeripheralStateEvent::AdapterStateChanged { powered: true })
    ));
}

#[test]
fn sockets_demand_the_requested_security() {
    assert_eq!(
        socket_security(L2capEncryption::Insecure).level,
        SecurityLevel::Low
    );
    assert_eq!(
        socket_security(L2capEncryption::RequireEncryption).level,
        SecurityLevel::Medium
    );
    let plan = bind_l2cap_listener(L2capEncryption::RequireAuthentication);
    assert_eq!(plan.security.level, SecurityLevel::High);
    assert_eq!(plan.security.key_size, 0);
    assert_eq!(plan.recv_mtu, 65535);
    assert_eq!(plan.backlog, 1);
    assert_eq!(plan.queue, 16);
}

#[test]
fn a_listener_ends_with_its_first_error() {
    assert_eq!(bound(Ok(0x81)).unwrap(), Psm(0x81));
    assert!(matches!(
        bound(Err("in use".into())),
        Err(BlewError::L2cap { source }) if source == "in use"
    ));
    let (id, channel) = accepted(Ok(("AA".to_string(), 5))).unwrap();
    assert_eq!((id.as_str(), channel), ("AA", 5));
    assert!(matches!(
        accepted::<u8>(Err("gone".into())),
        Err(BlewError::L2cap { source }) if source == "gone"
    ));
    assert!(accepts_again(false, true));
    assert!(!accepts_again(false, false));
    assert!(!accepts_again(true, true));
}
