//! Services, characteristics and descriptors.
use super::props::{AttributePermissions, CharacteristicProperties};
use crate::uuids::Uuid;
use vstd::prelude::*;

verus! {

#[derive(Debug, Clone)]
pub struct GattDescriptor {
    pub uuid: Uuid,
    pub value: Vec<u8>,
}

/// A GATT characteristic.
///
/// **Apple:** If `value` is non-empty **and** `properties` includes
/// [`CharacteristicProperties::WRITE`], CoreBluetooth treats the characteristic as
/// static and raises an exception when a central writes to it. For any writable
/// characteristic set `value: vec![]` and answer reads as they come.
#[derive(Debug, Clone)]
pub struct GattCharacteristic {
    pub uuid: Uuid,
    pub properties: CharacteristicProperties,
    pub permissions: AttributePermissions,
    /// Static value for server-side characteristics; empty for client-discovered ones.
    pub value: Vec<u8>,
    pub descriptors: Vec<GattDescriptor>,
}

#[derive(Debug, Clone)]
pub struct GattService {
    pub uuid: Uuid,
    pub primary: bool,
    pub characteristics: Vec<GattCharacteristic>,
}

/// The mathematical value of a [`GattDescriptor`].
#[verifier::ext_equal]
pub struct DescriptorView {
    pub uuid: u128,
    pub value: Seq<u8>,
}

impl View for GattDescriptor {
    type V = DescriptorView;

    open spec fn view(&self) -> DescriptorView {
        DescriptorView { uuid: self.uuid@, value: self.value@ }
    }
}

/// The mathematical value of a [`GattCharacteristic`].
#[verifier::ext_equal]
pub struct CharacteristicView {
    pub uuid: u128,
    pub properties: u16,
    pub permissions: u16,
    pub value: Seq<u8>,
    pub descriptors: Seq<DescriptorView>,
}

impl View for GattCharacteristic {
    type V = CharacteristicView;

    open spec fn view(&self) -> CharacteristicView {
        CharacteristicView {
            uuid: self.uuid@,
            properties: self.properties@,
            permissions: self.permissions@,
            value: self.value@,
            descriptors: self.descriptors@.map_values(|d: GattDescriptor| d@),
        }
    }
}

/// The mathematical values of `characteristics`.
pub open spec fn characteristic_views(characteristics: Seq<GattCharacteristic>) -> Seq<
    CharacteristicView,
> {
    characteristics.map_values(|c: GattCharacteristic| c@)
}

/// The mathematical value of a [`GattService`].
#[verifier::ext_equal]
pub struct ServiceView {
    pub uuid: u128,
    pub primary: bool,
    pub characteristics: Seq<CharacteristicView>,
}

impl View for GattService {
    type V = ServiceView;

    open spec fn view(&self) -> ServiceView {
        ServiceView {
            uuid: self.uuid@,
            primary: self.primary,
            characteristics: characteristic_views(self.characteristics@),
        }
    }
}

impl GattCharacteristic {
    /// The same characteristic again.
    pub fn duplicate(&self) -> (copy: GattCharacteristic)
        ensures
            copy@ == self@,
    {
        let mut descriptors: Vec<GattDescriptor> = Vec::new();
        let mut i: usize = 0;
        while i < self.descriptors.len()
            invariant
                i <= self.descriptors@.len(),
                descriptors@.len() == i,
                forall|j: int| 0 <= j < i ==> (#[trigger] descriptors@[j])@ == self.descriptors@[j]@,
            decreases self.descriptors@.len() - i,
        {
            let value = self.descriptors[i].value.clone();
            assert(value@ =~= self.descriptors@[i as int].value@);
            descriptors.push(GattDescriptor { uuid: self.descriptors[i].uuid, value });
            i += 1;
        }
        let value = self.value.clone();
        assert(value@ =~= self.value@);
        let copy = GattCharacteristic {
            uuid: self.uuid,
            properties: self.properties,
            permissions: self.permissions,
            value,
            descriptors,
        };
        assert(copy@.descriptors =~= self@.descriptors);
        copy
    }
}

impl GattService {
    /// The same service again.
    pub fn duplicate(&self) -> (copy: GattService)
        ensures
            copy@ == self@,
    {
        let mut characteristics: Vec<GattCharacteristic> = Vec::new();
        let mut i: usize = 0;
        while i < self.characteristics.len()
            invariant
                i <= self.characteristics@.len(),
                characteristics@.len() == i,
                forall|j: int|
                    0 <= j < i ==> (#[trigger] characteristics@[j])@ == self.characteristics@[j]@,
            decreases self.characteristics@.len() - i,
        {
            characteristics.push(self.characteristics[i].duplicate());
            i += 1;
        }
        let copy = GattService { uuid: self.uuid, primary: self.primary, characteristics };
        assert(copy@.characteristics =~= self@.characteristics);
        copy
    }
}

/// The mathematical values of `services`.
pub open spec fn service_views(services: Seq<GattService>) -> Seq<ServiceView> {
    services.map_values(|s: GattService| s@)
}

/// What contracts say of services is all there is to them: services that are
/// equal there have the same UUID, kind and characteristics, in order, and those
/// the same UUID, flags, value and descriptors.
pub proof fn law_services_are_known_in_full(
    a: Seq<GattService>,
    b: Seq<GattService>,
    i: int,
    j: int,
    k: int,
)
    requires
        service_views(a) == service_views(b),
    ensures
        a.len() == b.len(),
        0 <= i < a.len() ==> {
            &&& a[i].uuid@ == b[i].uuid@
            &&& a[i].primary == b[i].primary
            &&& a[i].characteristics@.len() == b[i].characteristics@.len()
        },
        0 <= i < a.len() && 0 <= j < a[i].characteristics@.len() ==> {
            let x = a[i].characteristics@[j];
            let y = b[i].characteristics@[j];
            &&& x.uuid@ == y.uuid@
            &&& x.properties@ == y.properties@
            &&& x.permissions@ == y.permissions@
            &&& x.value@ == y.value@
            &&& x.descriptors@.len() == y.descriptors@.len()
            &&& 0 <= k < x.descriptors@.len() ==> x.descriptors@[k].uuid@ == y.descriptors@[k].uuid@
                && x.descriptors@[k].value@ == y.descriptors@[k].value@
        },
{
    assert(service_views(a).len() == a.len() && service_views(b).len() == b.len());
    if 0 <= i < a.len() {
        assert(service_views(a)[i] == a[i]@ && service_views(b)[i] == b[i]@);
        let p = a[i]@.characteristics;
        let q = b[i]@.characteristics;
        assert(p.len() == a[i].characteristics@.len() && q.len() == b[i].characteristics@.len());
        if 0 <= j < a[i].characteristics@.len() {
            let x = a[i].characteristics@[j];
            let y = b[i].characteristics@[j];
            assert(p[j] == x@ && q[j] == y@);
            assert(x@.descriptors.len() == x.descriptors@.len());
            assert(y@.descriptors.len() == y.descriptors@.len());
            if 0 <= k < x.descriptors@.len() {
                assert(x@.descriptors[k] == x.descriptors@[k]@);
                assert(y@.descriptors[k] == y.descriptors@[k]@);
            }
        }
    }
}

} // verus!
