use blew::central::backend as central_backend;
use blew::central::types::CentralEvent;
use blew::error::BlewError;
use blew::gatt::props::{AttributePermissions, CharacteristicProperties};
use blew::l2cap::types::L2capEncryption;
use blew::l2cap::{CloseHook, StreamTransport};
use blew::peripheral::backend as peripheral_backend;
use blew::peripheral::types::{
    read_reply, write_reply, PeripheralStateEvent, ReadResponder, ResponderInner, WriteResponder,
};
use blew::plugin::{
    are_ble_permissions_granted, is_emulator, request_ble_permissions, BlewPluginConfig, Host,
};
use blew::ready::{wait_ready, ReadyEvent, ReadyStep};
use blew::types::DeviceId;
use blew::util::reply::{channel, Waited};
use blew::util::take_once::TakeOnce;
use blew::uuids::{parse_list, Uuid};

#[test]
fn uuids_are_written_and_read_back() {
    let uuid = Uuid::from_u128(0x550e8400_e29b_41d4_a716_446655440000);
    assert_eq!(uuid.text(), "550e8400-e29b-41d4-a716-446655440000");
    assert_eq!(Uuid::parse_str(&uuid.text()), Some(uuid));
    assert_eq!(
        Uuid::parse_str("550E8400E29B41D4A716446655440000"),
        Some(uuid)
    );
    assert_eq!(Uuid::parse_str("550e8400"), None);
    assert_eq!(Uuid::nil().text(), "00000000-0000-0000-0000-000000000000");
    assert_eq!(Uuid::from_u128(u128::MAX).as_u128(), u128::MAX);
}

#[test]
fn lists_of_uuids_skip_what_is_none() {
    let a = "550e8400-e29b-41d4-a716-446655440000";
    let b = "00000000-0000-0000-0000-000000000001";
    assert!(parse_list("").is_empty());
    assert!(parse_list(",,").is_empty());
    assert_eq!(
        parse_list(&format!("{a},x,,{b}")),
        [
            Uuid::parse_str(a).unwrap(),
            Uuid::parse_str(b).unwrap()
        ]
    );
    assert_eq!(parse_list(a).len(), 1);
}

#[test]
fn device_ids_are_text() {
    let id = DeviceId::from("AA:BB");
    assert_eq!(id.as_str(), "AA:BB");
    assert_eq!(id.text(), "AA:BB");
    assert!(id.same(&DeviceId::from("AA:BB".to_string())));
    assert!(!id.same(&DeviceId::from("AA:BC")));
    assert_eq!(id.clone(), id);
}

#[test]
fn flags_form_sets() {
    let mut set = CharacteristicProperties::from_bits_truncate(0xff00 | 0x12);
    assert_eq!(set.bits(), 0x12);
    assert!(set.contains(CharacteristicProperties::READ));
    assert!(!set.contains(CharacteristicProperties::READ | CharacteristicProperties::WRITE));
    assert!(set.intersects(CharacteristicProperties::READ | CharacteristicProperties::WRITE));
    assert!(!set.intersects(CharacteristicProperties::WRITE));
    set.insert(CharacteristicProperties::WRITE | 0x100);
    assert_eq!(set.bits(), 0x1a);
    assert!(CharacteristicProperties::empty().is_empty());
    let perms = AttributePermissions::from_bits_truncate(0xffff);
    assert_eq!(perms.bits(), 0x3f);
}

#[test]
fn every_error_has_words() {
    let id = || DeviceId::from("d");
    let uuid = Uuid::from_u128(1);
    let text = "00000000-0000-0000-0000-000000000001";
    let cases = [
        (BlewError::AdapterNotFound, "Bluetooth adapter not found".to_string()),
        (
            BlewError::NotSupported,
            "not supported on this platform or not yet implemented".to_string(),
        ),
        (
            BlewError::NotPowered,
            "Bluetooth adapter is not powered on".to_string(),
        ),
        (
            BlewError::PermissionDenied,
            "required Android BLE permissions are not granted".to_string(),
        ),
        (
            BlewError::DeviceNotFound(id()),
            "device not found: d".to_string(),
        ),
        (
            BlewError::NotConnected(id()),
            "not connected to device: d".to_string(),
        ),
        (
            BlewError::CharacteristicNotFound {
                device_id: id(),
                char_uuid: uuid,
            },
            format!("characteristic {text} not found on device d"),
        ),
        (
            BlewError::LocalCharacteristicNotFound { char_uuid: uuid },
            format!("local characteristic {text} not found"),
        ),
        (
            BlewError::AlreadyAdvertising,
            "already advertising".to_string(),
        ),
        (BlewError::Timeout, "operation timed out".to_string()),
        (
            BlewError::ConnectTimedOut(id()),
            "connect to d timed out".to_string(),
        ),
        (
            BlewError::ConnectInFlight(id()),
            "connect to d already in flight".to_string(),
        ),
        (
            BlewError::GattBusy(id()),
            "GATT busy on device d (another operation in flight)".to_string(),
        ),
        (
            BlewError::ValueTooLarge { got: 600, max: 20 },
            "value too large for current MTU: got 600 bytes, max 20".to_string(),
        ),
        (
            BlewError::AlreadySubscribed {
                device_id: id(),
                char_uuid: uuid,
            },
            format!("already subscribed to characteristic {text} on d"),
        ),
        (
            BlewError::StreamClosed,
            "event stream closed unexpectedly".to_string(),
        ),
        (
            BlewError::DisconnectedDuringOperation(id()),
            "device d disconnected during operation".to_string(),
        ),
        (
            BlewError::DiscoveryFailed {
                device_id: id(),
                reason: "r".into(),
            },
            "GATT discovery failed on d: r".to_string(),
        ),
        (
            BlewError::Gatt {
                device_id: id(),
                source: "s".into(),
            },
            "GATT error on device d: s".to_string(),
        ),
        (
            BlewError::Peripheral { source: "s".into() },
            "peripheral error: s".to_string(),
        ),
        (
            BlewError::Central { source: "s".into() },
            "central error: s".to_string(),
        ),
        (
            BlewError::L2cap { source: "s".into() },
            "L2CAP error: s".to_string(),
        ),
        (
            BlewError::Internal("i".into()),
            "internal error: i".to_string(),
        ),
    ];
    for (error, words) in cases {
        assert_eq!(error.message(), words);
    }
    assert!(BlewError::L2capEncryptionUnsupported {
        requested: L2capEncryption::RequireEncryption,
        reason: "why".into(),
    }
    .message()
    .ends_with("why"));
    assert!(!BlewError::NotInitialized.message().is_empty());
    assert!(!BlewError::LocalNameUnsupported.message().is_empty());
}

#[test]
fn test_read_responder_respond() {
    let (responder, rx) = ReadResponder::channel();
    responder.respond(b"hello".to_vec());
    assert_eq!(
        rx.into_receiver().try_recv().unwrap().unwrap(),
        b"hello".to_vec()
    );
}

#[test]
fn test_write_responder_success() {
    let (responder, rx) = WriteResponder::channel();
    responder.success();
    assert!(rx.into_receiver().try_recv().unwrap());
}

#[test]
fn a_responder_delivers_exactly_one_value() {
    let (responder, rx) = ReadResponder::channel();
    drop(responder);
    let mut rx = rx.into_receiver();
    assert_eq!(rx.try_recv().unwrap(), Err(()));
    assert!(rx.try_recv().is_err());

    let (responder, rx) = ReadResponder::channel();
    responder.error();
    assert_eq!(rx.into_receiver().try_recv().unwrap(), Err(()));

    let (responder, rx) = WriteResponder::channel();
    drop(responder);
    assert!(!rx.into_receiver().try_recv().unwrap());

    let (responder, rx) = WriteResponder::channel();
    responder.error();
    assert!(!rx.into_receiver().try_recv().unwrap());

    let (tx, rx) = channel();
    let mut responder = ResponderInner::new(tx, 0);
    responder.send(1);
    responder.send(2);
    drop(responder);
    let mut rx = rx.into_receiver();
    assert_eq!(rx.try_recv().unwrap(), 1);
    assert!(rx.try_recv().is_err());

    let (tx, rx) = channel();
    drop(ResponderInner::new(tx, 7));
    assert_eq!(rx.into_receiver().try_recv().unwrap(), 7);
}

#[test]
fn an_unanswered_request_fails() {
    assert_eq!(
        read_reply(Waited::Answered(Ok(b"v".to_vec()))),
        Ok(b"v".to_vec())
    );
    assert_eq!(read_reply(Waited::Answered(Err(()))), Err(()));
    assert_eq!(read_reply(Waited::Dropped), Err(()));
    assert!(write_reply(Waited::Answered(true)));
    assert!(!write_reply(Waited::Answered(false)));
    assert!(!write_reply(Waited::Dropped));
    assert!(!write_reply(Waited::TimedOut));
}

#[test]
fn explicit_close_triggers_hook_once() {
    let mut runs = 0;
    {
        let mut hook = CloseHook::new(Some(|| runs += 1));
        assert!(hook.trigger_close());
        assert!(!hook.trigger_close());
    }
    assert_eq!(runs, 1);
    let mut none: CloseHook<fn()> = CloseHook::new(None);
    assert!(!none.trigger_close());
    assert_eq!(StreamTransport::new(5).into_inner(), 5);
}

#[test]
fn central_wait_ready_returns_immediately_when_already_powered() {
    assert!(matches!(
        wait_ready(ReadyEvent::Asked(Some(true))),
        ReadyStep::Done(Ok(()))
    ));
}

#[test]
fn central_wait_ready_waits_for_power_on_event() {
    assert!(matches!(
        wait_ready(ReadyEvent::Asked(None)),
        ReadyStep::Wait
    ));
    assert!(matches!(
        wait_ready(ReadyEvent::Asked(Some(false))),
        ReadyStep::Wait
    ));
    let off = CentralEvent::AdapterStateChanged { powered: false };
    assert!(matches!(
        wait_ready(central_backend::ready_event(Some(&off))),
        ReadyStep::Wait
    ));
    let on = CentralEvent::AdapterStateChanged { powered: true };
    assert!(matches!(
        wait_ready(central_backend::ready_event(Some(&on))),
        ReadyStep::Done(Ok(()))
    ));
    assert!(matches!(
        wait_ready(central_backend::ready_event(None)),
        ReadyStep::Done(Err(BlewError::StreamClosed))
    ));
}

#[test]
fn central_wait_ready_times_out_if_never_powered() {
    assert!(matches!(
        wait_ready(ReadyEvent::TimedOut),
        ReadyStep::Done(Err(BlewError::Timeout))
    ));
}

#[test]
fn peripheral_wait_ready_waits_for_power_on_event() {
    let other = PeripheralStateEvent::SubscriptionChanged {
        client_id: DeviceId::from("c"),
        char_uuid: Uuid::nil(),
        subscribed: true,
    };
    assert!(matches!(
        wait_ready(peripheral_backend::ready_event(Some(&other))),
        ReadyStep::Wait
    ));
    let on = PeripheralStateEvent::AdapterStateChanged { powered: true };
    assert!(matches!(
        wait_ready(peripheral_backend::ready_event(Some(&on))),
        ReadyStep::Done(Ok(()))
    ));
    assert!(matches!(
        wait_ready(peripheral_backend::ready_event(None)),
        ReadyStep::Done(Err(BlewError::StreamClosed))
    ));
}

#[test]
fn the_plugin_asks_only_android() {
    assert!(BlewPluginConfig::default().auto_request_permissions);
    assert!(are_ble_permissions_granted(Host::Desktop, None));
    assert!(are_ble_permissions_granted(Host::Ios, None));
    assert!(!are_ble_permissions_granted(Host::Android, None));
    assert!(are_ble_permissions_granted(Host::Android, Some(true)));
    assert!(request_ble_permissions(Host::Android));
    assert!(!request_ble_permissions(Host::Ios));
    assert!(!request_ble_permissions(Host::Desktop));
    assert!(is_emulator(Host::Ios, None, true));
    assert!(!is_emulator(Host::Ios, None, false));
    assert!(!is_emulator(Host::Desktop, None, true));
    assert!(!is_emulator(Host::Desktop, Some("generic"), true));
    assert!(!is_emulator(Host::Android, Some("real"), true));
    assert!(is_emulator(Host::Android, Some("generic"), false));
}

#[test]
fn what_is_taken_once_is_gone() {
    let mut once = TakeOnce::new(3);
    assert_eq!(once.take(), Some(3));
    assert_eq!(once.take(), None);
}
