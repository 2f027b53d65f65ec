use blew::gatt::props::{AttributePermissions, CharacteristicProperties};
use blew::gatt::service::{GattCharacteristic, GattService};
use blew::util::service_queue::queue_service;
use blew::uuids::Uuid;

fn service(uuid: u128, chars: &[u128]) -> GattService {
    GattService {
        uuid: Uuid::from_u128(uuid),
        primary: true,
        characteristics: chars
            .iter()
            .map(|&c| GattCharacteristic {
                uuid: Uuid::from_u128(c),
                properties: CharacteristicProperties::from_bits_truncate(
                    CharacteristicProperties::READ,
                ),
                permissions: AttributePermissions::from_bits_truncate(AttributePermissions::READ),
                value: vec![],
                descriptors: vec![],
            })
            .collect(),
    }
}

fn uuids(pending: &[GattService]) -> Vec<Uuid> {
    pending.iter().map(|s| s.uuid).collect()
}

#[test]
fn distinct_services_queue_in_order() {
    let mut pending = Vec::new();
    queue_service(&mut pending, service(1, &[10]));
    queue_service(&mut pending, service(2, &[20]));

    assert_eq!(uuids(&pending), [Uuid::from_u128(1), Uuid::from_u128(2)]);
}

/// The reported bug: re-adding after a power cycle served every service twice.
#[test]
fn re_adding_every_service_converges() {
    let mut pending = Vec::new();
    for _cycle in 0..3 {
        queue_service(&mut pending, service(1, &[10]));
        queue_service(&mut pending, service(2, &[20]));
    }

    assert_eq!(uuids(&pending), [Uuid::from_u128(1), Uuid::from_u128(2)]);
}

#[test]
fn re_adding_one_service_keeps_its_place_and_takes_the_new_definition() {
    let mut pending = Vec::new();
    queue_service(&mut pending, service(1, &[10]));
    queue_service(&mut pending, service(2, &[20]));
    queue_service(&mut pending, service(3, &[30]));

    queue_service(&mut pending, service(2, &[21, 22]));

    assert_eq!(
        uuids(&pending),
        [Uuid::from_u128(1), Uuid::from_u128(2), Uuid::from_u128(3)]
    );
    let replaced: Vec<Uuid> = pending[1].characteristics.iter().map(|c| c.uuid).collect();
    assert_eq!(replaced, [Uuid::from_u128(21), Uuid::from_u128(22)]);
}
