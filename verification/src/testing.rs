//! An in-memory link between a central and a peripheral, for testing without
//! BLE hardware.
use crate::central::types::{CentralEvent, DisconnectCause, ScanFilter, WriteType};
use crate::error::{BlewError, BlewResult};
use crate::gatt::service::{CharacteristicView, GattService, ServiceView};
use crate::l2cap::types::Psm;
use crate::peripheral::types::{
    AdvertisingConfig, PeripheralRequest, PeripheralStateEvent, ReadAnswer, ReadResponder,
    WriteResponder,
};
use crate::types::{BleDevice, DeviceId};
use crate::util::key_map::KeyMap;
use crate::util::reply::{Reply, Waited};
use crate::uuids::Uuid;
use vstd::prelude::*;

verus! {

/// The PSM of every listener, fixed for deterministic tests.
pub const MOCK_PSM: u16 = 0x1001;

/// The MTU of every link.
pub const MOCK_MTU: u16 = 512;

/// The signal strength of every advertisement.
pub const MOCK_RSSI: i16 = -50;

/// Error kinds for [`MockL2capPolicy`].
#[derive(Debug, Clone, Copy, PartialEq, Eq, Structural)]
pub enum MockErrorKind {
    /// Maps to [`BlewError::NotSupported`].
    NotSupported,
    /// Maps to [`BlewError::Internal`].
    Internal,
}

impl MockErrorKind {
    /// The error of this kind.
    pub open spec fn error(self) -> crate::error::ErrorView {
        match self {
            MockErrorKind::NotSupported => crate::error::ErrorView::NotSupported,
            MockErrorKind::Internal => crate::error::ErrorView::Internal(
                "mock l2cap policy rejected"@,
            ),
        }
    }

    /// The error of this kind.
    pub fn to_error(self) -> (error: BlewError)
        ensures
            error@ == self.error(),
    {
        match self {
            MockErrorKind::NotSupported => BlewError::NotSupported,
            MockErrorKind::Internal => BlewError::Internal("mock l2cap policy rejected".to_owned()),
        }
    }
}

/// Which L2CAP operations fail, and how.
#[derive(Debug, Clone, Copy, PartialEq, Eq, Structural)]
pub struct MockL2capPolicy {
    pub listener_error: Option<MockErrorKind>,
    pub open_error: Option<MockErrorKind>,
}

impl Default for MockL2capPolicy {
    fn default() -> (policy: Self)
        ensures
            policy.listener_error is None,
            policy.open_error is None,
    {
        MockL2capPolicy { listener_error: None, open_error: None }
    }
}

/// The mathematical value of a [`LinkState`].
#[verifier::ext_equal]
pub struct LinkView<A> {
    /// The services of the peripheral, in the order they were added.
    pub services: Seq<ServiceView>,
    /// The static values of characteristics, by UUID.
    pub values: Map<u128, Seq<u8>>,
    /// The characteristics that the central is subscribed to.
    pub subscriptions: Set<u128>,
    /// Where the peripheral advertises: the name on air, if there is one.
    pub advertised: Option<Option<Seq<char>>>,
    pub connected: bool,
    pub policy: MockL2capPolicy,
    /// The listener, by its PSM.
    pub listener: Option<(Psm, A)>,
    /// The peripheral was seen since the last scan started: the name and the
    /// services that it had then.
    pub seen: Option<(Option<Seq<char>>, Seq<u128>)>,
}

/// `values`, and the value of each of `characteristics`, in order, that has one.
pub open spec fn with_values(
    values: Map<u128, Seq<u8>>,
    characteristics: Seq<CharacteristicView>,
) -> Map<u128, Seq<u8>>
    decreases characteristics.len(),
{
    if characteristics.len() == 0 {
        values
    } else {
        let rest = with_values(values, characteristics.drop_last());
        let ch = characteristics.last();
        if ch.value.len() > 0 {
            rest.insert(ch.uuid, ch.value)
        } else {
            rest
        }
    }
}

impl<A> LinkView<A> {
    /// Nothing was added, and nobody does anything.
    pub open spec fn fresh(policy: MockL2capPolicy) -> Self {
        LinkView {
            services: Seq::empty(),
            values: Map::empty(),
            subscriptions: Set::empty(),
            advertised: None,
            connected: false,
            policy,
            listener: None,
            seen: None,
        }
    }

    /// The UUIDs of the services.
    pub open spec fn service_uuids(self) -> Seq<u128> {
        self.services.map_values(|s: ServiceView| s.uuid)
    }

    /// A scan for any of `wanted`, or for every device where those are none,
    /// finds the peripheral: it advertises, and has one of them.
    pub open spec fn found_by(self, wanted: Seq<u128>) -> bool {
        self.advertised is Some && (wanted.len() == 0 || exists|i: int|
            0 <= i < wanted.len() && self.service_uuids().contains(#[trigger] wanted[i]))
    }

    /// The central has started a scan for any of `wanted`.
    pub open spec fn scan(self, wanted: Seq<u128>) -> Self {
        LinkView {
            seen: if self.found_by(wanted) {
                Some((self.advertised.unwrap(), self.service_uuids()))
            } else {
                None
            },
            ..self
        }
    }

    /// `service` has been added.
    pub open spec fn add_service(self, service: ServiceView) -> Self {
        LinkView {
            services: self.services.push(service),
            values: with_values(self.values, service.characteristics),
            ..self
        }
    }

    /// The peripheral advertises, with `name` on air.
    pub open spec fn start_advertising(self, name: Option<Seq<char>>) -> Self {
        LinkView { advertised: Some(name), ..self }
    }

    /// The peripheral does not advertise.
    pub open spec fn stop_advertising(self) -> Self {
        LinkView { advertised: None, ..self }
    }

    /// The central is connected.
    pub open spec fn connect(self) -> Self {
        LinkView { connected: true, ..self }
    }

    /// The central is not connected, and thus not subscribed to anything.
    pub open spec fn disconnect(self) -> Self {
        LinkView { connected: false, subscriptions: Set::empty(), ..self }
    }

    /// The central is subscribed to `uuid`.
    pub open spec fn subscribe(self, uuid: u128) -> Self {
        LinkView { subscriptions: self.subscriptions.insert(uuid), ..self }
    }

    /// The central is not subscribed to `uuid`.
    pub open spec fn unsubscribe(self, uuid: u128) -> Self {
        LinkView { subscriptions: self.subscriptions.remove(uuid), ..self }
    }

    /// `accept` takes the channels that are opened.
    pub open spec fn listen(self, accept: A) -> Self {
        LinkView { listener: Some((Psm(MOCK_PSM), accept)), ..self }
    }

    /// A notification of `uuid` reaches the central.
    pub open spec fn hears(self, uuid: u128) -> bool {
        self.subscriptions.contains(uuid)
    }

    /// A read of `uuid` is answered with this value, without asking the
    /// application.
    pub open spec fn static_value(self, uuid: u128) -> Option<Seq<u8>> {
        if self.values.contains_key(uuid) && self.values[uuid].len() > 0 {
            Some(self.values[uuid])
        } else {
            None
        }
    }

    /// One of the services has the characteristic `uuid`.
    pub open spec fn has_characteristic(self, uuid: u128) -> bool {
        exists|i: int| 0 <= i < self.services.len() && has_uuid(#[trigger] self.services[i], uuid)
    }

    /// What becomes of opening a channel to `psm`: who takes it, or why not.
    pub open spec fn opens(self, psm: Psm) -> Result<A, crate::error::ErrorView> {
        match (self.policy.open_error, self.listener) {
            (Some(kind), _) => Err(kind.error()),
            (None, Some((listening, accept))) if listening == psm => Ok(accept),
            _ => Err(
                crate::error::ErrorView::Internal(
                    "no l2cap listener for psm Psm("@ + crate::text::signed_decimal(psm.0 as int)
                        + ")"@,
                ),
            ),
        }
    }
}

/// `service` has the characteristic `uuid`.
pub open spec fn has_uuid(service: ServiceView, uuid: u128) -> bool {
    exists|i: int|
        0 <= i < service.characteristics.len() && (#[trigger] service.characteristics[i]).uuid
            == uuid
}

/// What both ends of a link share. `A` takes the channels that are opened.
pub struct LinkState<A> {
    services: Vec<GattService>,
    values: KeyMap<Uuid, Vec<u8>>,
    subscriptions: KeyMap<Uuid, ()>,
    advertised: Option<Option<String>>,
    connected: bool,
    policy: MockL2capPolicy,
    listener: Option<(Psm, A)>,
    seen: Option<(Option<String>, Vec<Uuid>)>,
}

/// The characters of `name`, if there is one.
pub open spec fn name_view(name: Option<String>) -> Option<Seq<char>> {
    match name {
        Some(text) => Some(text@),
        None => None,
    }
}

/// `device` is the peripheral of a link, seen with this name and these services.
pub open spec fn is_mock_device(
    device: BleDevice,
    name: Option<Seq<char>>,
    services: Seq<u128>,
) -> bool {
    &&& device.id@ == "mock-peripheral"@
    &&& name_view(device.name) == name
    &&& device.rssi == Some(MOCK_RSSI)
    &&& crate::uuids::values(device.services@) == services
    &&& device.manufacturer_data@ == Map::<u16, Vec<u8>>::empty()
    &&& device.service_data@ == Map::<u128, Vec<u8>>::empty()
}

impl<A> View for LinkState<A> {
    type V = LinkView<A>;

    closed spec fn view(&self) -> LinkView<A> {
        LinkView {
            services: crate::gatt::service::service_views(self.services@),
            values: self.values@.map_values(|v: Vec<u8>| v@),
            subscriptions: self.subscriptions@.dom(),
            advertised: match self.advertised {
                Some(Some(name)) => Some(Some(name@)),
                Some(None) => Some(None),
                None => None,
            },
            connected: self.connected,
            policy: self.policy,
            listener: self.listener,
            seen: match self.seen {
                Some((name, services)) => Some((name_view(name), crate::uuids::values(services@))),
                None => None,
            },
        }
    }
}

/// The peripheral of a link, seen with this name and these services.
fn mock_device(name: &Option<String>, services: &Vec<Uuid>) -> (device: BleDevice)
    ensures
        is_mock_device(device, name_view(*name), crate::uuids::values(services@)),
{
    let services = services.clone();
    BleDevice {
        id: DeviceId::from("mock-peripheral"),
        name: name.clone(),
        rssi: Some(MOCK_RSSI),
        services,
        manufacturer_data: KeyMap::new(),
        service_data: KeyMap::new(),
    }
}

/// What is done about a read.
pub enum MockReadStep {
    /// It is answered with this value.
    Answer(Vec<u8>),
    /// It fails.
    Fail(BlewError),
    /// The application is asked, and its reply awaited.
    Ask { request: PeripheralRequest, reply: Reply<ReadAnswer> },
}

/// What is done about a write: the application is told, and its reply awaited
/// where there is one.
pub struct MockWriteStep {
    pub request: PeripheralRequest,
    pub reply: Option<Reply<bool>>,
}

impl<A> LinkState<A> {
    /// A link on which nothing has happened, with L2CAP failing as `policy` says.
    pub fn new(policy: MockL2capPolicy) -> (link: Self)
        ensures
            link@ == LinkView::<A>::fresh(policy),
    {
        let link = LinkState {
            services: Vec::new(),
            values: KeyMap::new(),
            subscriptions: KeyMap::new(),
            advertised: None,
            connected: false,
            policy,
            listener: None,
            seen: None,
        };
        assert(link@ =~= LinkView::<A>::fresh(policy)) by {
            assert(link@.services =~= Seq::empty());
            assert(link@.values =~= Map::empty());
            assert(link@.subscriptions =~= Set::empty());
        }
        link
    }

    /// Add a service to the peripheral.
    pub fn add_service(&mut self, service: &GattService)
        ensures
            final(self)@ == old(self)@.add_service(service@),
    {
        let ghost before = self@;
        let ghost chars = service@.characteristics;
        let mut i: usize = 0;
        proof {
            assert(chars.take(0) =~= Seq::empty());
        }
        while i < service.characteristics.len()
            invariant
                chars == service@.characteristics,
                before == old(self)@,
                i <= service.characteristics@.len(),
                self@ == (LinkView {
                    values: with_values(before.values, chars.take(i as int)),
                    ..before
                }),
            decreases service.characteristics@.len() - i,
        {
            let ghost values = self@.values;
            proof {
                assert(chars.take(i + 1).drop_last() =~= chars.take(i as int));
                assert(chars[i as int] == service.characteristics@[i as int]@);
            }
            let ch = &service.characteristics[i];
            if ch.value.len() > 0 {
                let value = ch.value.clone();
                assert(value@ =~= ch.value@);
                self.values.insert(ch.uuid, value);
                assert(self@.values =~= values.insert(ch.uuid@, ch.value@));
            }
            i += 1;
        }
        assert(chars.take(i as int) =~= chars);
        self.services.push(service.duplicate());
        assert(self@.services =~= before.services.push(service@));
    }

    /// Start advertising. Refused where the peripheral already advertises.
    pub fn start_advertising(&mut self, config: &AdvertisingConfig) -> (result: BlewResult<()>)
        ensures
            result is Ok <==> old(self)@.advertised is None,
            match result {
                Ok(_) => final(self)@ == old(self)@.start_advertising(config.local_name.on_air()),
                Err(e) => e@ == crate::error::ErrorView::AlreadyAdvertising && final(self)@ == old(
                    self,
                )@,
            },
    {
        if self.advertised.is_some() {
            return Err(BlewError::AlreadyAdvertising);
        }
        let name = match config.local_name.name() {
            Some(name) => Some(name.to_owned()),
            None => None,
        };
        self.advertised = Some(name);
        Ok(())
    }

    /// Stop advertising.
    pub fn stop_advertising(&mut self)
        ensures
            final(self)@ == old(self)@.stop_advertising(),
    {
        self.advertised = None;
    }

    /// The UUIDs of the services.
    fn service_uuids(&self) -> (uuids: Vec<Uuid>)
        ensures
            crate::uuids::values(uuids@) == self@.service_uuids(),
    {
        let mut uuids: Vec<Uuid> = Vec::new();
        let mut i: usize = 0;
        while i < self.services.len()
            invariant
                i <= self.services@.len(),
                uuids@.len() == i,
                forall|j: int| 0 <= j < i ==> #[trigger] uuids@[j] == self.services@[j].uuid,
            decreases self.services@.len() - i,
        {
            uuids.push(self.services[i].uuid);
            i += 1;
        }
        assert(crate::uuids::values(uuids@) =~= self@.service_uuids());
        uuids
    }

    /// Whether a scan with `filter` finds the peripheral.
    fn is_found_by(&self, filter: &ScanFilter) -> (found: bool)
        ensures
            found == self@.found_by(crate::uuids::values(filter.services@)),
    {
        if self.advertised.is_none() {
            return false;
        }
        if filter.services.len() == 0 {
            return true;
        }
        let own = self.service_uuids();
        let ghost wanted = crate::uuids::values(filter.services@);
        let ghost offered = self@.service_uuids();
        let mut i: usize = 0;
        while i < filter.services.len()
            invariant
                i <= filter.services@.len(),
                wanted == crate::uuids::values(filter.services@),
                offered == crate::uuids::values(own@),
                offered == self@.service_uuids(),
                self@.advertised is Some,
                forall|j: int| 0 <= j < i ==> !offered.contains(#[trigger] wanted[j]),
            decreases filter.services@.len() - i,
        {
            let uuid: u128 = filter.services[i].as_u128();
            assert(uuid == wanted[i as int]);
            let mut k: usize = 0;
            while k < own.len()
                invariant
                    k <= own@.len(),
                    i < filter.services@.len(),
                    wanted == crate::uuids::values(filter.services@),
                    wanted[i as int] == uuid,
                    offered == crate::uuids::values(own@),
                    offered == self@.service_uuids(),
                    self@.advertised is Some,
                    forall|j: int| 0 <= j < k ==> #[trigger] offered[j] != uuid,
                decreases own@.len() - k,
            {
                if own[k].as_u128() == uuid {
                    assert(offered[k as int] == uuid);
                    assert(offered.contains(wanted[i as int]));
                    return true;
                }
                assert(offered[k as int] != uuid);
                k += 1;
            }
            i += 1;
        }
        false
    }

    /// Scan with `filter`: what the central discovers, if anything.
    pub fn start_scan(&mut self, filter: &ScanFilter) -> (discovered: Option<CentralEvent>)
        ensures
            final(self)@ == old(self)@.scan(crate::uuids::values(filter.services@)),
            match final(self)@.seen {
                Some((name, services)) => {
                    &&& discovered matches Some(CentralEvent::DeviceDiscovered(device))
                    &&& is_mock_device(device, name, services)
                },
                None => discovered is None,
            },
    {
        let found: bool = self.is_found_by(filter);
        let seen = match &self.advertised {
            Some(name) => if found {
                Some((name.clone(), self.service_uuids()))
            } else {
                None
            },
            None => None,
        };
        let event = match &seen {
            Some((name, services)) => Some(
                CentralEvent::DeviceDiscovered(mock_device(name, services)),
            ),
            None => None,
        };
        self.seen = seen;
        event
    }

    /// The devices seen since the last scan started.
    pub fn discovered_devices(&self) -> (devices: Vec<BleDevice>)
        ensures
            match self@.seen {
                Some((name, services)) => devices@.len() == 1 && is_mock_device(
                    devices@[0],
                    name,
                    services,
                ),
                None => devices@.len() == 0,
            },
    {
        let mut devices: Vec<BleDevice> = Vec::new();
        match &self.seen {
            Some((name, services)) => devices.push(mock_device(name, services)),
            None => {},
        }
        devices
    }

    /// Connect the central: what is announced to it.
    pub fn connect(&mut self, device_id: DeviceId) -> (event: CentralEvent)
        ensures
            final(self)@ == old(self)@.connect(),
            event == (CentralEvent::DeviceConnected { device_id }),
    {
        self.connected = true;
        CentralEvent::DeviceConnected { device_id }
    }

    /// Disconnect the central, which ends its subscriptions: what is announced
    /// to it.
    pub fn disconnect(&mut self, device_id: DeviceId) -> (event: CentralEvent)
        ensures
            final(self)@ == old(self)@.disconnect(),
            event == (CentralEvent::DeviceDisconnected {
                device_id,
                cause: DisconnectCause::Unknown(0),
            }),
    {
        self.connected = false;
        self.subscriptions = KeyMap::new();
        assert(self@.subscriptions =~= Set::empty());
        CentralEvent::DeviceDisconnected { device_id, cause: DisconnectCause::Unknown(0) }
    }

    /// The services that the central discovers.
    pub fn discover_services(&self) -> (services: Vec<GattService>)
        ensures
            crate::gatt::service::service_views(services@) == self@.services,
    {
        let mut services: Vec<GattService> = Vec::new();
        let mut i: usize = 0;
        while i < self.services.len()
            invariant
                i <= self.services@.len(),
                services@.len() == i,
                forall|j: int| 0 <= j < i ==> (#[trigger] services@[j])@ == self.services@[j]@,
            decreases self.services@.len() - i,
        {
            services.push(self.services[i].duplicate());
            i += 1;
        }
        assert(crate::gatt::service::service_views(services@) =~= self@.services);
        services
    }

    /// Whether one of the services has the characteristic `uuid`.
    fn finds(&self, uuid: Uuid) -> (found: bool)
        ensures
            found == self@.has_characteristic(uuid@),
    {
        let wanted: u128 = uuid.as_u128();
        let mut i: usize = 0;
        while i < self.services.len()
            invariant
                wanted == uuid@,
                i <= self.services@.len(),
                forall|k: int| 0 <= k < i ==> !has_uuid(#[trigger] self@.services[k], uuid@),
            decreases self.services@.len() - i,
        {
            let service = &self.services[i];
            let mut j: usize = 0;
            while j < service.characteristics.len()
                invariant
                    wanted == uuid@,
                    i < self.services@.len(),
                    *service == self.services@[i as int],
                    j <= service.characteristics@.len(),
                    forall|k: int|
                        0 <= k < j ==> (#[trigger] service@.characteristics[k]).uuid != uuid@,
                decreases service.characteristics@.len() - j,
            {
                if service.characteristics[j].uuid.as_u128() == wanted {
                    proof {
                        assert(service@.characteristics[j as int].uuid == uuid@);
                        assert(has_uuid(self@.services[i as int], uuid@));
                    }
                    return true;
                }
                assert(service@.characteristics[j as int].uuid != uuid@);
                j += 1;
            }
            assert(!has_uuid(self@.services[i as int], uuid@));
            i += 1;
        }
        false
    }

    /// Read a characteristic: a static value is given at once; otherwise the
    /// application is asked, if there is such a characteristic.
    pub fn read_characteristic(&self, device_id: &DeviceId, char_uuid: Uuid) -> (step: MockReadStep)
        ensures
            match self@.static_value(char_uuid@) {
                Some(value) => step matches MockReadStep::Answer(given) && given@ == value,
                None => if self@.has_characteristic(char_uuid@) {
                    &&& step matches MockReadStep::Ask { request, reply }
                    &&& request matches PeripheralRequest::Read {
                        client_id,
                        service_uuid,
                        char_uuid: asked,
                        offset,
                        responder,
                    }
                    &&& client_id@ == "mock-central"@
                    &&& service_uuid@ == 0
                    &&& asked == char_uuid
                    &&& offset == 0
                    &&& responder.asker() matches Some(tx)
                    &&& tx.channel() == reply.channel()
                    &&& responder.drop_answer() == Some(Err::<Vec<u8>, ()>(()))
                } else {
                    step matches MockReadStep::Fail(e) && e@
                        == (crate::error::ErrorView::CharacteristicNotFound {
                        device_id: device_id@,
                        char_uuid: char_uuid@,
                    })
                },
            },
    {
        match self.values.get(&char_uuid) {
            Some(value) => if value.len() > 0 {
                let given = value.clone();
                assert(given@ =~= value@);
                return MockReadStep::Answer(given);
            },
            None => {},
        }
        if !self.finds(char_uuid) {
            return MockReadStep::Fail(
                BlewError::CharacteristicNotFound { device_id: device_id.clone(), char_uuid },
            );
        }
        let (responder, reply) = ReadResponder::channel();
        let request = PeripheralRequest::Read {
            client_id: DeviceId::from("mock-central"),
            service_uuid: Uuid::nil(),
            char_uuid,
            offset: 0,
            responder,
        };
        MockReadStep::Ask { request, reply }
    }

    /// Write a characteristic: only a write with response awaits a reply.
    pub fn write_characteristic(
        &self,
        char_uuid: Uuid,
        value: Vec<u8>,
        write_type: WriteType,
    ) -> (step: MockWriteStep)
        ensures
            step.reply is Some <==> write_type == WriteType::WithResponse,
            step.request matches PeripheralRequest::Write {
                client_id,
                service_uuid,
                char_uuid: asked,
                offset,
                value: written,
                responder,
            } && {
                &&& client_id@ == "mock-central"@
                &&& service_uuid@ == 0
                &&& asked == char_uuid
                &&& offset == 0
                &&& written == value
                &&& responder is Some <==> write_type == WriteType::WithResponse
                &&& responder matches Some(r) ==> {
                    &&& r.drop_answer() == Some(false)
                    &&& r.asker() matches Some(tx)
                    &&& tx.channel() == step.reply.unwrap().channel()
                }
            },
    {
        let (responder, reply) = match write_type {
            WriteType::WithResponse => {
                let (responder, reply) = WriteResponder::channel();
                (Some(responder), Some(reply))
            },
            WriteType::WithoutResponse => (None, None),
        };
        let request = PeripheralRequest::Write {
            client_id: DeviceId::from("mock-central"),
            service_uuid: Uuid::nil(),
            char_uuid,
            offset: 0,
            value,
            responder,
        };
        MockWriteStep { request, reply }
    }

    /// Subscribe the central to a characteristic: what is announced to the
    /// peripheral.
    pub fn subscribe_characteristic(&mut self, char_uuid: Uuid) -> (event: PeripheralStateEvent)
        ensures
            final(self)@ == old(self)@.subscribe(char_uuid@),
            event matches PeripheralStateEvent::SubscriptionChanged {
                client_id,
                char_uuid: changed,
                subscribed,
            } && client_id@ == "mock-central"@ && changed == char_uuid && subscribed,
    {
        self.subscriptions.insert(char_uuid, ());
        assert(self@.subscriptions =~= old(self)@.subscriptions.insert(char_uuid@));
        PeripheralStateEvent::SubscriptionChanged {
            client_id: DeviceId::from("mock-central"),
            char_uuid,
            subscribed: true,
        }
    }

    /// End the central's subscription to a characteristic.
    pub fn unsubscribe_characteristic(&mut self, char_uuid: Uuid)
        ensures
            final(self)@ == old(self)@.unsubscribe(char_uuid@),
    {
        self.subscriptions.remove(&char_uuid);
        assert(self@.subscriptions =~= old(self)@.subscriptions.remove(char_uuid@));
    }

    /// Send a notification: what is announced to the central, where it is
    /// subscribed. Otherwise the value is dropped.
    pub fn notify_characteristic(&self, char_uuid: Uuid, value: Vec<u8>) -> (heard: Option<
        CentralEvent,
    >)
        ensures
            heard is Some <==> self@.hears(char_uuid@),
            heard matches Some(event) ==> {
                &&& event matches CentralEvent::CharacteristicNotification {
                    device_id,
                    char_uuid: from,
                    value: sent,
                }
                &&& device_id@ == "mock-peripheral"@
                &&& from == char_uuid
                &&& sent == value
            },
    {
        if self.subscriptions.contains_key(&char_uuid) {
            Some(
                CentralEvent::CharacteristicNotification {
                    device_id: DeviceId::from("mock-peripheral"),
                    char_uuid,
                    value,
                },
            )
        } else {
            None
        }
    }

    /// Listen for channels, which `accept` takes.
    pub fn l2cap_listener(&mut self, accept: A) -> (psm: BlewResult<Psm>)
        ensures
            psm is Ok <==> old(self)@.policy.listener_error is None,
            match psm {
                Ok(psm) => psm == Psm(MOCK_PSM) && final(self)@ == old(self)@.listen(accept),
                Err(e) => e@ == old(self)@.policy.listener_error.unwrap().error() && final(self)@
                    == old(self)@,
            },
    {
        match self.policy.listener_error {
            Some(kind) => Err(kind.to_error()),
            None => {
                self.listener = Some((Psm(MOCK_PSM), accept));
                Ok(Psm(MOCK_PSM))
            },
        }
    }

    /// Open a channel to `psm`: who takes it.
    pub fn open_l2cap_channel(&self, psm: Psm) -> (accept: BlewResult<&A>)
        ensures
            match accept {
                Ok(accept) => self@.opens(psm) == Ok::<A, crate::error::ErrorView>(*accept),
                Err(e) => self@.opens(psm) == Err::<A, crate::error::ErrorView>(e@),
            },
    {
        match self.policy.open_error {
            Some(kind) => {
                return Err(kind.to_error());
            },
            None => {},
        }
        match &self.listener {
            Some((listening, accept)) => if listening.0 == psm.0 {
                return Ok(accept);
            },
            None => {},
        }
        Err(
            BlewError::Internal(
                "no l2cap listener for psm Psm(".to_owned().concat(psm.text().as_str()).concat(")"),
            ),
        )
    }
}

/// What a read comes to, once the application was asked: its value, or a
/// failure where it gave none.
pub fn read_result(device_id: &DeviceId, waited: Waited<ReadAnswer>) -> (result: BlewResult<
    Vec<u8>,
>)
    ensures
        match waited {
            Waited::Answered(Ok(value)) => result == Ok::<Vec<u8>, BlewError>(value),
            _ => result matches Err(e) && e@ == (crate::error::ErrorView::Gatt {
                device_id: device_id@,
                source: "read failed"@,
            }),
        },
{
    match waited {
        Waited::Answered(Ok(value)) => Ok(value),
        _ => Err(BlewError::Gatt { device_id: device_id.clone(), source: "read failed".to_owned() }),
    }
}

/// What a write comes to; `None` where no reply is awaited.
pub fn write_result(waited: Option<Waited<bool>>) -> (result: BlewResult<()>)
    ensures
        result is Ok <==> waited is None || waited == Some(Waited::Answered(true)),
        result matches Err(e) ==> e@ == (crate::error::ErrorView::Gatt {
            device_id: "mock-central"@,
            source: "write rejected"@,
        }),
{
    match waited {
        None => Ok(()),
        Some(Waited::Answered(true)) => Ok(()),
        Some(_) => Err(
            BlewError::Gatt {
                device_id: DeviceId::from("mock-central"),
                source: "write rejected".to_owned(),
            },
        ),
    }
}

/// What opening a channel comes to, given whether the listener took it.
pub fn open_result<C>(channel: C, taken: bool) -> (result: BlewResult<C>)
    ensures
        if taken {
            result == Ok::<C, BlewError>(channel)
        } else {
            result matches Err(e) && e@ == crate::error::ErrorView::Internal(
                "listener stream closed"@,
            )
        },
{
    if taken {
        Ok(channel)
    } else {
        Err(BlewError::Internal("listener stream closed".to_owned()))
    }
}

/// A notification reaches the central exactly while it is subscribed: not
/// before, not after it unsubscribes, and not after it disconnects, even where
/// it connects again.
pub proof fn law_notifications_need_a_subscription<A>(link: LinkView<A>, uuid: u128)
    ensures
        link.subscribe(uuid).hears(uuid),
        !link.unsubscribe(uuid).hears(uuid),
        !link.disconnect().hears(uuid),
        !link.disconnect().connect().hears(uuid),
        forall|policy: MockL2capPolicy| !(#[trigger] LinkView::<A>::fresh(policy)).hears(uuid),
{
}

/// A subscription to one characteristic says nothing of another.
pub proof fn law_subscriptions_are_independent<A>(link: LinkView<A>, uuid: u128, other: u128)
    requires
        uuid != other,
    ensures
        link.subscribe(other).hears(uuid) == link.hears(uuid),
        link.unsubscribe(other).hears(uuid) == link.hears(uuid),
{
}

/// Advertising that was stopped can be started again, and is then what a scan
/// discovers.
pub proof fn law_advertising_restarts<A>(link: LinkView<A>, name: Option<Seq<char>>)
    ensures
        link.stop_advertising().advertised is None,
        link.stop_advertising().start_advertising(name) == link.start_advertising(name),
        link.start_advertising(name).advertised == Some(name),
{
}

/// The static value of an added characteristic is what a read of it gives,
/// where no later characteristic of the service has its UUID and a value too.
pub proof fn law_static_value_is_read<A>(link: LinkView<A>, service: ServiceView, i: int)
    requires
        0 <= i < service.characteristics.len(),
        service.characteristics[i].value.len() > 0,
        forall|j: int|
            i < j < service.characteristics.len() ==> (#[trigger] service.characteristics[j]).uuid
                != service.characteristics[i].uuid || service.characteristics[j].value.len() == 0,
    ensures
        link.add_service(service).static_value(service.characteristics[i].uuid) == Some(
            service.characteristics[i].value,
        ),
{
    lemma_last_value(link.values, service.characteristics, i);
}

proof fn lemma_last_value(
    values: Map<u128, Seq<u8>>,
    characteristics: Seq<CharacteristicView>,
    i: int,
)
    requires
        0 <= i < characteristics.len(),
        characteristics[i].value.len() > 0,
        forall|j: int|
            i < j < characteristics.len() ==> (#[trigger] characteristics[j]).uuid
                != characteristics[i].uuid || characteristics[j].value.len() == 0,
    ensures
        with_values(values, characteristics).contains_key(characteristics[i].uuid),
        with_values(values, characteristics)[characteristics[i].uuid] == characteristics[i].value,
    decreases characteristics.len(),
{
    if i < characteristics.len() - 1 {
        let rest = characteristics.drop_last();
        assert forall|j: int| i < j < rest.len() implies (#[trigger] rest[j]).uuid != rest[i].uuid
            || rest[j].value.len() == 0 by {
            assert(rest[j] == characteristics[j]);
        }
        lemma_last_value(values, rest, i);
    }
}

/// A channel that is opened to the PSM that listening gave goes to the
/// listener, unless the policy forbids opening; one to any other PSM does not.
pub proof fn law_opening_reaches_the_listener<A>(link: LinkView<A>, accept: A, psm: Psm)
    requires
        link.policy.open_error is None,
    ensures
        link.listen(accept).opens(psm) is Ok <==> psm == Psm(MOCK_PSM),
        link.listen(accept).opens(Psm(MOCK_PSM)) == Ok::<A, crate::error::ErrorView>(accept),
{
}

/// After a service is added, a read of a characteristic that none of the added
/// ones gives a value is answered as before; of one that they do, with the last
/// value that they give it.
pub proof fn law_adding_a_service_keeps_other_values<A>(
    link: LinkView<A>,
    service: ServiceView,
    uuid: u128,
)
    ensures
        if exists|i: int|
            0 <= i < service.characteristics.len() && (
            #[trigger] service.characteristics[i]).uuid == uuid
                && service.characteristics[i].value.len() > 0 {
            exists|i: int|
                {
                    &&& 0 <= i < service.characteristics.len()
                    &&& (#[trigger] service.characteristics[i]).uuid == uuid
                    &&& service.characteristics[i].value.len() > 0
                    &&& link.add_service(service).static_value(uuid) == Some(
                        service.characteristics[i].value,
                    )
                }
        } else {
            link.add_service(service).static_value(uuid) == link.static_value(uuid)
        },
{
    lemma_values(link.values, service.characteristics, uuid);
}

proof fn lemma_values(
    values: Map<u128, Seq<u8>>,
    characteristics: Seq<CharacteristicView>,
    uuid: u128,
)
    ensures
        if exists|i: int|
            0 <= i < characteristics.len() && (#[trigger] characteristics[i]).uuid == uuid
                && characteristics[i].value.len() > 0 {
            exists|i: int|
                {
                    &&& 0 <= i < characteristics.len()
                    &&& (#[trigger] characteristics[i]).uuid == uuid
                    &&& characteristics[i].value.len() > 0
                    &&& with_values(values, characteristics).contains_key(uuid)
                    &&& with_values(values, characteristics)[uuid] == characteristics[i].value
                }
        } else {
            &&& with_values(values, characteristics).contains_key(uuid) == values.contains_key(uuid)
            &&& values.contains_key(uuid) ==> with_values(values, characteristics)[uuid]
                == values[uuid]
        },
    decreases characteristics.len(),
{
    if characteristics.len() > 0 {
        let rest = characteristics.drop_last();
        let last = characteristics.len() - 1;
        lemma_values(values, rest, uuid);
        if characteristics[last].uuid == uuid && characteristics[last].value.len() > 0 {
            assert(with_values(values, characteristics)[uuid] == characteristics[last].value);
        } else if exists|i: int|
            0 <= i < rest.len() && (#[trigger] rest[i]).uuid == uuid && rest[i].value.len() > 0 {
            let i = choose|i: int|
                {
                    &&& 0 <= i < rest.len()
                    &&& (#[trigger] rest[i]).uuid == uuid
                    &&& rest[i].value.len() > 0
                    &&& with_values(values, rest).contains_key(uuid)
                    &&& with_values(values, rest)[uuid] == rest[i].value
                };
            assert(characteristics[i] == rest[i]);
        } else {
            if exists|i: int|
                0 <= i < characteristics.len() && (#[trigger] characteristics[i]).uuid == uuid
                    && characteristics[i].value.len() > 0 {
                let i = choose|i: int|
                    0 <= i < characteristics.len() && (#[trigger] characteristics[i]).uuid == uuid
                        && characteristics[i].value.len() > 0;
                assert(characteristics[i] == rest[i]);
            }
        }
    }
}

/// A static value that was given stays until a later service gives the
/// characteristic another, whatever services are added in between.
pub proof fn law_static_values_outlast_other_services<A>(
    link: LinkView<A>,
    first: ServiceView,
    second: ServiceView,
    uuid: u128,
)
    requires
        forall|i: int|
            0 <= i < second.characteristics.len() ==> (#[trigger] second.characteristics[i]).uuid
                != uuid || second.characteristics[i].value.len() == 0,
    ensures
        link.add_service(first).add_service(second).static_value(uuid) == link.add_service(
            first,
        ).static_value(uuid),
{
    law_adding_a_service_keeps_other_values(link.add_service(first), second, uuid);
}

/// The services are those that were added, in order, and a characteristic is
/// found exactly where one of them has it.
pub proof fn law_services_are_those_added<A>(link: LinkView<A>, service: ServiceView, uuid: u128)
    ensures
        link.add_service(service).services == link.services + seq![service],
        forall|policy: MockL2capPolicy|
            (#[trigger] LinkView::<A>::fresh(policy)).services.len() == 0,
        link.add_service(service).has_characteristic(uuid) <==> link.has_characteristic(uuid)
            || exists|i: int|
            0 <= i < service.characteristics.len() && (
            #[trigger] service.characteristics[i]).uuid == uuid,
{
    let after = link.add_service(service);
    assert(after.services =~= link.services + seq![service]);
    if link.has_characteristic(uuid) {
        let i = choose|i: int|
            0 <= i < link.services.len() && has_uuid(#[trigger] link.services[i], uuid);
        assert(after.services[i] == link.services[i]);
    }
    assert(after.services[link.services.len() as int] == service);
    if after.has_characteristic(uuid) {
        let i = choose|i: int|
            0 <= i < after.services.len() && has_uuid(#[trigger] after.services[i], uuid);
        if i < link.services.len() {
            assert(after.services[i] == link.services[i]);
        }
    }
    if exists|i: int|
        0 <= i < service.characteristics.len() && (#[trigger] service.characteristics[i]).uuid
            == uuid {
        assert(has_uuid(after.services[link.services.len() as int], uuid));
    }
}

/// A scan finds the peripheral exactly while it advertises, where it asks for
/// nothing or for one of the services, wherever that stands in the filter and
/// among the services; it then sees the name on air and every service, in
/// order. What an earlier scan saw is forgotten.
pub proof fn law_a_scan_sees_what_is_asked_for<A>(link: LinkView<A>, wanted: Seq<u128>)
    ensures
        ({
            let asked = wanted.len() == 0 || exists|i: int, k: int|
                0 <= i < wanted.len() && 0 <= k < link.services.len() && #[trigger] wanted[i] == (
                #[trigger] link.services[k]).uuid;
            match link.scan(wanted).seen {
                Some((name, uuids)) => {
                    &&& asked
                    &&& link.advertised == Some(name)
                    &&& uuids.len() == link.services.len()
                    &&& forall|k: int|
                        0 <= k < uuids.len() ==> #[trigger] uuids[k] == link.services[k].uuid
                },
                None => link.advertised is None || !asked,
            }
        }),
{
    let uuids = link.service_uuids();
    let asked = exists|i: int, k: int|
        0 <= i < wanted.len() && 0 <= k < link.services.len() && #[trigger] wanted[i] == (
        #[trigger] link.services[k]).uuid;
    if asked {
        let (i, k) = choose|i: int, k: int|
            0 <= i < wanted.len() && 0 <= k < link.services.len() && #[trigger] wanted[i] == (
            #[trigger] link.services[k]).uuid;
        assert(uuids[k] == wanted[i]);
        assert(uuids.contains(wanted[i]));
    }
    if exists|i: int| 0 <= i < wanted.len() && uuids.contains(#[trigger] wanted[i]) {
        let i = choose|i: int| 0 <= i < wanted.len() && uuids.contains(#[trigger] wanted[i]);
        let k = choose|k: int| 0 <= k < uuids.len() && uuids[k] == wanted[i];
        assert(wanted[i] == link.services[k].uuid);
    }
}

/// What is done on a link changes what it is about and nothing else: services,
/// values, subscriptions, advertising, the connection, the listener and what
/// was seen do not affect each other, but that a disconnect ends subscriptions.
pub proof fn law_operations_keep_to_themselves<A>(
    link: LinkView<A>,
    service: ServiceView,
    name: Option<Seq<char>>,
    uuid: u128,
    wanted: Seq<u128>,
    accept: A,
)
    ensures
        ({
            let after = link.add_service(service);
            after == (LinkView { services: after.services, values: after.values, ..link })
        }),
        link.start_advertising(name) == (LinkView { advertised: Some(name), ..link }),
        link.stop_advertising() == (LinkView { advertised: None, ..link }),
        link.connect() == (LinkView { connected: true, ..link }),
        link.disconnect() == (LinkView {
            connected: false,
            subscriptions: Set::empty(),
            ..link
        }),
        ({
            let after = link.subscribe(uuid);
            after == (LinkView { subscriptions: after.subscriptions, ..link })
        }),
        ({
            let after = link.unsubscribe(uuid);
            after == (LinkView { subscriptions: after.subscriptions, ..link })
        }),
        ({
            let after = link.scan(wanted);
            after == (LinkView { seen: after.seen, ..link })
        }),
        ({
            let after = link.listen(accept);
            after == (LinkView { listener: after.listener, ..link })
        }),
{
}

} // verus!
