//! The peripheral role on Linux: which GATT application is served, how its
//! requests are answered, and what becomes of notifications.
use crate::error::{BlewError, BlewResult};
use crate::gatt::props::CharacteristicProperties;
use crate::gatt::service::{GattCharacteristic, GattService};
use crate::peripheral::types::{
    AdvertisingConfig, Delivery, PeripheralRequest, PeripheralStateEvent, ReadAnswer,
    ReadResponder, WriteResponder,
};
use crate::time::seconds;
use crate::types::DeviceId;
use crate::util::key_map::KeyMap;
use crate::util::reply::Reply;
use crate::util::service_queue::queue_service;
use crate::uuids::Uuid;
use std::time::Duration;
use vstd::prelude::*;

verus! {

/// How long a send waits for BlueZ to finish an indication before it gives up
/// on pacing, in seconds. A pacing bound, not an ATT deadline: expiring is
/// `Sent` like every other ending, and BlueZ still delivers the indication (or
/// times it out after 30 s and drops the link).
///
/// It is well past an indication round trip on any link a peripheral
/// realistically has, so a live subscriber paces sends by its confirmations,
/// not by this bound. It stays this short because some waits are never
/// answered: a bonded central keeps its subscription after it disconnects, and
/// values for it are dropped without a confirmation. Every send then pays the
/// bound.
pub const INDICATION_PACING_SECS: u64 = 5;

/// How long a send waits for BlueZ to finish an indication.
pub fn indication_pacing_bound() -> (bound: Duration)
    ensures
        bound == crate::time::secs_duration(INDICATION_PACING_SECS),
{
    seconds(INDICATION_PACING_SECS)
}

/// How long a send waits for BlueZ to take a value: only that of a session that
/// confirms what it takes, one with an indicate-only characteristic, is bounded.
pub fn pacing_wait(confirming: bool) -> (bound: Option<Duration>)
    ensures
        bound == (if confirming {
            Some(crate::time::secs_duration(INDICATION_PACING_SECS))
        } else {
            None
        }),
{
    if confirming {
        Some(indication_pacing_bound())
    } else {
        None
    }
}

/// The `(notify, indicate)` flags to register with BlueZ, or `None` when the
/// characteristic supports neither. BlueZ creates the CCCD from these flags and
/// refuses a CCCD write for a kind that isn't declared, so declaring only
/// `NOTIFY` makes an indicate-only characteristic impossible to subscribe to.
pub fn notify_flags(props: CharacteristicProperties) -> (flags: Option<(bool, bool)>)
    ensures
        flags == subscription_flags(props),
{
    let notify: bool = props.contains(CharacteristicProperties::NOTIFY);
    let indicate: bool = props.contains(CharacteristicProperties::INDICATE);
    if notify || indicate {
        Some((notify, indicate))
    } else {
        None
    }
}

/// Which kinds of subscription `props` declares, if any.
pub open spec fn subscription_flags(props: CharacteristicProperties) -> Option<(bool, bool)> {
    let notify = props.has(CharacteristicProperties::NOTIFY);
    let indicate = props.has(CharacteristicProperties::INDICATE);
    if notify || indicate {
        Some((notify, indicate))
    } else {
        None
    }
}

/// Why handing a value to BlueZ failed.
#[derive(Debug, Clone, Copy, PartialEq, Eq, Structural)]
pub enum NotifyErrorKind {
    /// The indication was not confirmed.
    IndicationUnconfirmed,
    /// The session had stopped, or the D-Bus emit failed.
    NotificationSessionStopped,
    /// Anything else.
    Other,
}

/// A failure to hand a value to BlueZ, with BlueZ's own words.
#[derive(Debug)]
pub struct NotifyError {
    pub kind: NotifyErrorKind,
    pub message: String,
}

/// What one notifier's `notify()` means for the caller: `Ok(true)` if the value
/// was handed to BlueZ, `Ok(false)` if the session was already gone. `result`
/// is `None` when the pacing bound elapsed; `stopped` is read after.
///
/// Every ending after the emit is `Sent`. BlueZ confirms for a real
/// confirmation and equally when the indication fails (ATT timeout or
/// disconnect), so `Ok` says nothing about delivery, and neither does the
/// session ending mid-wait or the pacing bound. `notify` emits on its first
/// poll, before it waits, so the bound can only elapse after the emit.
///
/// A failed D-Bus emit is reported with the same kind as a session that had
/// already stopped; only the session tells them apart.
pub fn notify_outcome(result: Option<Result<(), NotifyError>>, stopped: bool) -> (outcome:
    BlewResult<bool>)
    ensures
        match result {
            None => outcome == Ok::<bool, BlewError>(true),
            Some(Ok(())) => outcome == Ok::<bool, BlewError>(true),
            Some(Err(e)) => match e.kind {
                NotifyErrorKind::IndicationUnconfirmed => outcome == Ok::<bool, BlewError>(true),
                NotifyErrorKind::NotificationSessionStopped if stopped => outcome == Ok::<
                    bool,
                    BlewError,
                >(false),
                _ => outcome matches Err(error) && error@ == (
                crate::error::ErrorView::Peripheral { source: e.message@ }),
            },
        },
{
    match result {
        None => Ok(true),
        Some(Ok(())) => Ok(true),
        Some(Err(e)) => match e.kind {
            NotifyErrorKind::IndicationUnconfirmed => Ok(true),
            NotifyErrorKind::NotificationSessionStopped => if stopped {
                Ok(false)
            } else {
                Err(BlewError::Peripheral { source: e.message })
            },
            NotifyErrorKind::Other => Err(BlewError::Peripheral { source: e.message }),
        },
    }
}

/// How reads of a characteristic are answered.
pub enum ReadPlan {
    /// With a value that never changes, without asking the application.
    Static(Vec<u8>),
    /// By asking the application.
    Ask,
}

/// Which writes of a characteristic are taken.
#[derive(Debug, Clone, Copy, PartialEq, Eq, Structural)]
pub struct WritePlan {
    /// ATT Write Requests.
    pub request: bool,
    /// ATT Write Commands.
    pub command: bool,
}

/// How a characteristic is registered with BlueZ.
pub struct CharacteristicPlan {
    pub service_uuid: Uuid,
    pub uuid: Uuid,
    /// How reads are answered; `None` where there are none.
    pub read: Option<ReadPlan>,
    /// Which writes are taken; `None` where there are none.
    pub write: Option<WritePlan>,
    /// The `(notify, indicate)` flags; `None` where there are no subscriptions.
    pub notify: Option<(bool, bool)>,
}

/// `plan` registers what `ch` of the service `service_uuid` declares: reads
/// where it is readable, answered by its static value where it has one; the
/// kinds of write and of subscription it declares, and no others.
pub open spec fn registers(
    plan: CharacteristicPlan,
    ch: GattCharacteristic,
    service_uuid: Uuid,
) -> bool {
    &&& plan.service_uuid == service_uuid
    &&& plan.uuid == ch.uuid
    &&& match plan.read {
        None => !ch.properties.has(CharacteristicProperties::READ),
        Some(ReadPlan::Static(value)) => ch.properties.has(CharacteristicProperties::READ)
            && value@ == ch.value@ && ch.value@.len() > 0,
        Some(ReadPlan::Ask) => ch.properties.has(CharacteristicProperties::READ)
            && ch.value@.len() == 0,
    }
    &&& match plan.write {
        None => !ch.properties.has(CharacteristicProperties::WRITE) && !ch.properties.has(
            CharacteristicProperties::WRITE_WITHOUT_RESPONSE,
        ),
        Some(write) => {
            &&& write.request || write.command
            &&& write.request == ch.properties.has(CharacteristicProperties::WRITE)
            &&& write.command == ch.properties.has(
                CharacteristicProperties::WRITE_WITHOUT_RESPONSE,
            )
        },
    }
    &&& plan.notify == subscription_flags(ch.properties)
}

/// How to register `ch` of the service `service_uuid` with BlueZ.
pub fn build_characteristic(ch: &GattCharacteristic, service_uuid: Uuid) -> (plan:
    CharacteristicPlan)
    ensures
        registers(plan, *ch, service_uuid),
{
    let read = if ch.properties.contains(CharacteristicProperties::READ) {
        if ch.value.len() == 0 {
            Some(ReadPlan::Ask)
        } else {
            Some(ReadPlan::Static(ch.value.clone()))
        }
    } else {
        None
    };
    let write = if ch.properties.intersects(
        CharacteristicProperties::WRITE | CharacteristicProperties::WRITE_WITHOUT_RESPONSE,
    ) {
        Some(
            WritePlan {
                request: ch.properties.contains(CharacteristicProperties::WRITE),
                command: ch.properties.contains(CharacteristicProperties::WRITE_WITHOUT_RESPONSE),
            },
        )
    } else {
        None
    };
    proof {
        let bits = ch.properties@;
        assert((bits & (0x0008u16 | 0x0004u16) != 0) == (bits & 0x0008u16 == 0x0008u16 || bits
            & 0x0004u16 == 0x0004u16)) by (bit_vector);
    }
    CharacteristicPlan {
        service_uuid,
        uuid: ch.uuid,
        read,
        write,
        notify: notify_flags(ch.properties),
    }
}

/// The part of a static value that a read at `offset` gets: its tail, or all
/// of it where the offset is zero or not inside the value.
pub open spec fn static_part(value: Seq<u8>, offset: int) -> Seq<u8> {
    if 0 < offset < value.len() {
        value.skip(offset)
    } else {
        value
    }
}

/// What a read at `offset` gets of a static value.
pub fn static_read(value: &Vec<u8>, offset: u16) -> (part: Vec<u8>)
    ensures
        part@ == static_part(value@, offset as int),
{
    let from: usize = offset as usize;
    if from > 0 && from < value.len() {
        let mut part: Vec<u8> = Vec::new();
        let mut i: usize = from;
        while i < value.len()
            invariant
                from <= i <= value@.len(),
                part@ == value@.subrange(from as int, i as int),
            decreases value@.len() - i,
        {
            part.push(value[i]);
            i += 1;
            assert(part@ =~= value@.subrange(from as int, i as int));
        }
        assert(part@ =~= value@.skip(from as int));
        part
    } else {
        let part = value.clone();
        assert(part@ =~= value@);
        part
    }
}

/// What to do about a read.
pub enum ReadStep {
    /// Answer it.
    Answer(Vec<u8>),
    /// Put it to the application and wait for the reply.
    Ask { request: PeripheralRequest, reply: Reply<ReadAnswer> },
    /// Reads are not taken.
    Refuse,
}

/// What to do about a read by `client` at `offset`.
pub fn on_read(plan: &CharacteristicPlan, client: &str, offset: u16) -> (step: ReadStep)
    ensures
        match plan.read {
            None => step is Refuse,
            Some(ReadPlan::Static(value)) => step matches ReadStep::Answer(part) && part@
                == static_part(value@, offset as int),
            Some(ReadPlan::Ask) => {
                &&& step matches ReadStep::Ask { request, reply }
                &&& request matches PeripheralRequest::Read {
                    client_id,
                    service_uuid,
                    char_uuid,
                    offset: at,
                    responder,
                }
                &&& client_id@ == client@
                &&& service_uuid == plan.service_uuid
                &&& char_uuid == plan.uuid
                &&& at == offset
                &&& responder.asker() matches Some(tx)
                &&& tx.channel() == reply.channel()
                &&& responder.drop_answer() == Some(Err::<Vec<u8>, ()>(()))
            },
        },
{
    match &plan.read {
        None => ReadStep::Refuse,
        Some(ReadPlan::Static(value)) => ReadStep::Answer(static_read(value, offset)),
        Some(ReadPlan::Ask) => {
            let (responder, reply) = ReadResponder::channel();
            let request = PeripheralRequest::Read {
                client_id: DeviceId::from(client),
                service_uuid: plan.service_uuid,
                char_uuid: plan.uuid,
                offset,
                responder,
            };
            ReadStep::Ask { request, reply }
        },
    }
}

/// What to do about a write: put it to the application, and wait for the
/// reply where there is one to wait for.
pub struct WriteStep {
    pub request: PeripheralRequest,
    pub reply: Option<Reply<bool>>,
}

/// What to do about a write of `value` by `client` at `offset`. Only a write
/// request, not a write command, waits for a reply.
pub fn on_write(
    plan: &CharacteristicPlan,
    client: &str,
    offset: u16,
    value: Vec<u8>,
    is_request: bool,
) -> (step: WriteStep)
    ensures
        step.reply is Some <==> is_request,
        step.request matches PeripheralRequest::Write {
            client_id,
            service_uuid,
            char_uuid,
            offset: at,
            value: written,
            responder,
        } && {
            &&& client_id@ == client@
            &&& service_uuid == plan.service_uuid
            &&& char_uuid == plan.uuid
            &&& at == offset
            &&& written == value
            &&& responder is Some <==> is_request
            &&& responder matches Some(r) ==> {
                &&& r.drop_answer() == Some(false)
                &&& r.asker() matches Some(tx)
                &&& tx.channel() == step.reply.unwrap().channel()
            }
        },
{
    let (responder, reply) = if is_request {
        let (responder, reply) = WriteResponder::channel();
        (Some(responder), Some(reply))
    } else {
        (None, None)
    };
    let request = PeripheralRequest::Write {
        client_id: DeviceId::from(client),
        service_uuid: plan.service_uuid,
        char_uuid: plan.uuid,
        offset,
        value,
        responder,
    };
    WriteStep { request, reply }
}

/// How a service is registered with BlueZ.
pub struct ServicePlan {
    pub uuid: Uuid,
    pub primary: bool,
    pub characteristics: Vec<CharacteristicPlan>,
}

/// `plan` registers `service`: each of its characteristics, in order.
pub open spec fn serves(plan: ServicePlan, service: GattService) -> bool {
    &&& plan.uuid == service.uuid
    &&& plan.primary == service.primary
    &&& plan.characteristics@.len() == service.characteristics@.len()
    &&& forall|i: int|
        0 <= i < plan.characteristics@.len() ==> registers(
            #[trigger] plan.characteristics@[i],
            service.characteristics@[i],
            service.uuid,
        )
}

/// How to register `service` with BlueZ.
pub fn build_service(service: &GattService) -> (plan: ServicePlan)
    ensures
        serves(plan, *service),
{
    let mut characteristics: Vec<CharacteristicPlan> = Vec::new();
    let mut i: usize = 0;
    while i < service.characteristics.len()
        invariant
            i <= service.characteristics@.len(),
            characteristics@.len() == i,
            forall|j: int|
                0 <= j < i ==> registers(
                    #[trigger] characteristics@[j],
                    service.characteristics@[j],
                    service.uuid,
                ),
        decreases service.characteristics@.len() - i,
    {
        let plan = build_characteristic(&service.characteristics[i], service.uuid);
        characteristics.push(plan);
        i += 1;
    }
    ServicePlan { uuid: service.uuid, primary: service.primary, characteristics }
}

/// Which kind of advertisement is tried.
///
/// BLE 5 extended advertising with a 2M secondary channel comes first, so that
/// BLE 5 centrals can connect at 2M PHY from the start; legacy advertising is
/// for hardware or kernels that don't support it.
#[derive(Debug, Clone, Copy, PartialEq, Eq, Structural)]
pub enum AdvertisementKind {
    Extended,
    Legacy,
}

/// An advertisement to be registered.
pub struct AdvertisementPlan {
    pub kind: AdvertisementKind,
    pub local_name: Option<String>,
    pub service_uuids: Vec<Uuid>,
}

/// The advertisement of the given kind for `config`.
pub fn advertisement(config: &AdvertisingConfig, kind: AdvertisementKind) -> (plan:
    AdvertisementPlan)
    ensures
        advertises(plan, *config, kind),
{
    let local_name = match config.local_name.name() {
        Some(name) => Some(name.to_owned()),
        None => None,
    };
    let service_uuids = config.service_uuids.clone();
    assert(service_uuids@ =~= config.service_uuids@);
    AdvertisementPlan { kind, local_name, service_uuids }
}

/// What happens while advertising starts.
pub enum StartEvent<G, A> {
    /// The application asked for it.
    Asked,
    /// The GATT application is served, or could not be.
    Served(Result<G, String>),
    /// An advertisement of this kind is on air, or could not be put there.
    Advertised(AdvertisementKind, Result<A, String>),
}

/// What to do then.
pub enum StartAction {
    /// Serve these services.
    Serve(Vec<ServicePlan>),
    /// Advertise this.
    Advertise(AdvertisementPlan),
    /// It is over, with this result.
    Finish(BlewResult<()>),
}

/// `plan` is the advertisement of the given kind for `config`.
pub open spec fn advertises(
    plan: AdvertisementPlan,
    config: AdvertisingConfig,
    kind: AdvertisementKind,
) -> bool {
    &&& plan.kind == kind
    &&& plan.service_uuids@ == config.service_uuids@
    &&& match plan.local_name {
        Some(name) => config.local_name.on_air() == Some(name@),
        None => config.local_name.on_air() is None,
    }
}

/// `action` serves all of `services`, in order.
pub open spec fn serves_all(action: StartAction, services: Seq<GattService>) -> bool {
    &&& action matches StartAction::Serve(plans)
    &&& plans@.len() == services.len()
    &&& forall|i: int|
        0 <= i < plans@.len() ==> serves(#[trigger] plans@[i], services[i])
}

/// `action` ends with BlueZ's words.
pub open spec fn fails_with(action: StartAction, source: Seq<char>) -> bool {
    &&& action matches StartAction::Finish(Err(e))
    &&& e@ == (crate::error::ErrorView::Peripheral { source })
}

/// The mathematical value of a [`PeripheralState`].
#[verifier::reject_recursive_types(N)]
#[verifier::ext_equal]
pub struct StateView<N, G, A> {
    /// The services for the next advertisement, in order.
    pub services: Seq<GattService>,
    /// The GATT application that is served.
    pub application: Option<G>,
    /// The advertisement that is on air.
    pub advertisement: Option<A>,
    /// Who is subscribed to each characteristic, by UUID.
    pub notifiers: Map<u128, Seq<N>>,
}

impl<N, G, A> StateView<N, G, A> {
    /// Who is subscribed to the characteristic `uuid`.
    pub open spec fn subscribed(self, uuid: u128) -> Seq<N> {
        if self.notifiers.contains_key(uuid) {
            self.notifiers[uuid]
        } else {
            Seq::empty()
        }
    }
}

/// What the peripheral remembers: the queued services, and, while it
/// advertises, the handles of the application and the advertisement (`G`, `A`)
/// and the sessions of its subscribers (`N`).
#[verifier::reject_recursive_types(N)]
pub struct PeripheralState<N, G, A> {
    pending_services: Vec<GattService>,
    app_handle: Option<G>,
    adv_handle: Option<A>,
    notifiers: KeyMap<Uuid, Vec<N>>,
}

impl<N, G, A> View for PeripheralState<N, G, A> {
    type V = StateView<N, G, A>;

    closed spec fn view(&self) -> StateView<N, G, A> {
        StateView {
            services: self.pending_services@,
            application: self.app_handle,
            advertisement: self.adv_handle,
            notifiers: self.notifiers@.map_values(|v: Vec<N>| v@),
        }
    }
}

impl<N, G, A> PeripheralState<N, G, A> {
    /// Nothing is queued, served or advertised.
    pub fn new() -> (state: Self)
        ensures
            state@.services == Seq::<GattService>::empty(),
            state@.application is None,
            state@.advertisement is None,
            state@.notifiers == Map::<u128, Seq<N>>::empty(),
    {
        let state = PeripheralState {
            pending_services: Vec::new(),
            app_handle: None,
            adv_handle: None,
            notifiers: KeyMap::new(),
        };
        assert(state@.notifiers =~= Map::<u128, Seq<N>>::empty());
        state
    }

    /// Queue `service` for the next advertisement; see [`queue_service`].
    pub fn add_service(&mut self, service: GattService)
        ensures
            crate::util::service_queue::queued(old(self)@.services, service, final(self)@.services),
            final(self)@ == (StateView { services: final(self)@.services, ..old(self)@ }),
    {
        queue_service(&mut self.pending_services, service);
    }

    /// What to do while advertising starts. It is refused while advertising;
    /// otherwise every queued service is served, then an extended advertisement
    /// tried, then, where that fails, a legacy one, whose failure is final.
    pub fn start_advertising(&mut self, config: &AdvertisingConfig, event: StartEvent<G, A>) -> (
    action: StartAction)
        ensures
            match event {
                StartEvent::Asked => {
                    &&& final(self)@ == old(self)@
                    &&& if old(self)@.advertisement is Some {
                        action matches StartAction::Finish(Err(e)) && e@
                            == crate::error::ErrorView::AlreadyAdvertising
                    } else {
                        serves_all(action, old(self)@.services)
                    }
                },
                StartEvent::Served(Err(source)) => fails_with(action, source@) && final(self)@
                    == old(self)@,
                StartEvent::Served(Ok(application)) => {
                    &&& final(self)@ == (StateView {
                        application: Some(application),
                        ..old(self)@
                    })
                    &&& action matches StartAction::Advertise(plan)
                    &&& advertises(plan, *config, AdvertisementKind::Extended)
                },
                StartEvent::Advertised(AdvertisementKind::Extended, Err(_)) => {
                    &&& final(self)@ == old(self)@
                    &&& action matches StartAction::Advertise(plan)
                    &&& advertises(plan, *config, AdvertisementKind::Legacy)
                },
                StartEvent::Advertised(AdvertisementKind::Legacy, Err(source)) => fails_with(
                    action,
                    source@,
                ) && final(self)@ == old(self)@,
                StartEvent::Advertised(_, Ok(advertisement)) => {
                    &&& final(self)@ == (StateView {
                        advertisement: Some(advertisement),
                        ..old(self)@
                    })
                    &&& action == StartAction::Finish(Ok(()))
                },
            },
    {
        match event {
            StartEvent::Asked => {
                if self.adv_handle.is_some() {
                    return StartAction::Finish(Err(BlewError::AlreadyAdvertising));
                }
                StartAction::Serve(self.plan_services())
            },
            StartEvent::Served(Err(source)) => StartAction::Finish(
                Err(BlewError::Peripheral { source }),
            ),
            StartEvent::Served(Ok(application)) => {
                self.app_handle = Some(application);
                StartAction::Advertise(advertisement(config, AdvertisementKind::Extended))
            },
            StartEvent::Advertised(_, Ok(advertisement)) => {
                self.adv_handle = Some(advertisement);
                StartAction::Finish(Ok(()))
            },
            StartEvent::Advertised(AdvertisementKind::Extended, Err(_)) => StartAction::Advertise(
                advertisement(config, AdvertisementKind::Legacy),
            ),
            StartEvent::Advertised(AdvertisementKind::Legacy, Err(source)) => StartAction::Finish(
                Err(BlewError::Peripheral { source }),
            ),
        }
    }

    /// The GATT application to serve: every queued service, in order.
    fn plan_services(&self) -> (plans: Vec<ServicePlan>)
        ensures
            plans@.len() == self@.services.len(),
            forall|i: int|
                0 <= i < plans@.len() ==> serves(#[trigger] plans@[i], self@.services[i]),
    {
        let mut plans: Vec<ServicePlan> = Vec::new();
        let mut i: usize = 0;
        while i < self.pending_services.len()
            invariant
                i <= self.pending_services@.len(),
                plans@.len() == i,
                forall|j: int|
                    0 <= j < i ==> serves(#[trigger] plans@[j], self.pending_services@[j]),
            decreases self.pending_services@.len() - i,
        {
            let plan = build_service(&self.pending_services[i]);
            plans.push(plan);
            i += 1;
        }
        plans
    }

    /// Stop advertising: the advertisement, the application and the
    /// subscriptions go, the queued services stay.
    pub fn stop_advertising(&mut self)
        ensures
            final(self)@ == (StateView::<N, G, A> {
                services: old(self)@.services,
                application: None,
                advertisement: None,
                notifiers: Map::<u128, Seq<N>>::empty(),
            }),
    {
        self.adv_handle = None;
        self.app_handle = None;
        self.notifiers = KeyMap::new();
        assert(self@.notifiers =~= Map::<u128, Seq<N>>::empty());
    }

    /// A central subscribed to the characteristic `uuid`: what is announced.
    /// BlueZ does not say which central it is.
    pub fn subscribe(&mut self, uuid: Uuid, notifier: N) -> (event: PeripheralStateEvent)
        ensures
            final(self)@ == (StateView {
                notifiers: old(self)@.notifiers.insert(
                    uuid@,
                    old(self)@.subscribed(uuid@).push(notifier),
                ),
                ..old(self)@
            }),
            event matches PeripheralStateEvent::SubscriptionChanged {
                client_id,
                char_uuid,
                subscribed,
            } && client_id@.len() == 0 && char_uuid == uuid && subscribed,
    {
        let ghost before = self@.notifiers;
        let mut list = match self.notifiers.remove(&uuid) {
            Some(list) => list,
            None => Vec::new(),
        };
        assert(list@ =~= old(self)@.subscribed(uuid@));
        list.push(notifier);
        let ghost view = list@;
        self.notifiers.insert(uuid, list);
        assert(self@.notifiers =~= before.insert(uuid@, view));
        PeripheralStateEvent::SubscriptionChanged {
            client_id: DeviceId::from(String::new()),
            char_uuid: uuid,
            subscribed: true,
        }
    }

    /// Who is subscribed to the characteristic `uuid`.
    pub fn notifiers_of(&self, uuid: Uuid) -> (list: Option<&Vec<N>>)
        ensures
            match list {
                Some(list) => self@.notifiers.contains_key(uuid@) && list@
                    == self@.notifiers[uuid@],
                None => !self@.notifiers.contains_key(uuid@),
            },
    {
        self.notifiers.get(&uuid)
    }

    /// Drop the sessions of the characteristic `uuid` that are not live.
    pub fn prune(&mut self, uuid: Uuid, live: &Vec<bool>)
        requires
            live@.len() == old(self)@.subscribed(uuid@).len(),
        ensures
            final(self)@ == (StateView {
                notifiers: if old(self)@.notifiers.contains_key(uuid@) {
                    old(self)@.notifiers.insert(
                        uuid@,
                        crate::util::event_fanout::kept(old(self)@.notifiers[uuid@], live@),
                    )
                } else {
                    old(self)@.notifiers
                },
                ..old(self)@
            }),
    {
        let ghost before = self@.notifiers;
        match self.notifiers.remove(&uuid) {
            None => {
                assert(self@.notifiers =~= before);
            },
            Some(list) => {
                let list = crate::util::event_fanout::keep_chosen(list, live);
                let ghost view = list@;
                self.notifiers.insert(uuid, list);
                assert(self@.notifiers =~= before.insert(uuid@, view));
            },
        }
    }
}

/// Why the adapter could not be had.
pub enum AdapterFailure {
    /// There is no session with BlueZ, in its words.
    NoSession(String),
    /// BlueZ has no adapter.
    NoAdapter,
}

/// The error for an adapter that could not be had.
pub fn adapter_error(failure: AdapterFailure) -> (error: BlewError)
    ensures
        error@ == (match failure {
            AdapterFailure::NoSession(source) => crate::error::ErrorView::Peripheral {
                source: source@,
            },
            AdapterFailure::NoAdapter => crate::error::ErrorView::AdapterNotFound,
        }),
{
    match failure {
        AdapterFailure::NoSession(source) => BlewError::Peripheral { source },
        AdapterFailure::NoAdapter => BlewError::AdapterNotFound,
    }
}

/// What the change of an adapter property announces: only that of its power is
/// announced.
pub fn adapter_event(powered: Option<bool>) -> (event: Option<PeripheralStateEvent>)
    ensures
        event == (match powered {
            Some(on) => Some(PeripheralStateEvent::AdapterStateChanged { powered: on }),
            None => None,
        }),
{
    match powered {
        Some(on) => Some(PeripheralStateEvent::AdapterStateChanged { powered: on }),
        None => None,
    }
}

/// Whether a session is kept when the stopped ones are dropped. `stopped` is
/// `None` for a session that another send holds: an indication can keep it
/// held for the whole confirmation wait, so it is live.
pub fn keeps_session(stopped: Option<bool>) -> (keep: bool)
    ensures
        keep == (stopped != Some(true)),
{
    match stopped {
        Some(stopped) => !stopped,
        None => true,
    }
}

/// What one session did with a value.
pub enum SessionOutcome {
    /// It had stopped before the value was handed to it.
    Stopped,
    /// It was handed the value, with this outcome; see [`notify_outcome`].
    Notified(BlewResult<bool>),
}

/// What the sessions did with a value, so far.
pub struct NotifyTally {
    any_stopped: bool,
    sent: bool,
    emit_failed: Option<BlewError>,
}

/// Some session of `outcomes` has stopped.
pub open spec fn some_stopped(outcomes: Seq<SessionOutcome>) -> bool {
    exists|i: int|
        0 <= i < outcomes.len() && (#[trigger] outcomes[i] is Stopped || outcomes[i]
            == SessionOutcome::Notified(Ok(false)))
}

/// Some session of `outcomes` was handed the value.
pub open spec fn some_sent(outcomes: Seq<SessionOutcome>) -> bool {
    exists|i: int|
        0 <= i < outcomes.len() && #[trigger] outcomes[i] == SessionOutcome::Notified(Ok(true))
}

/// The first failure of `outcomes`.
pub open spec fn first_failure(outcomes: Seq<SessionOutcome>) -> Option<BlewError>
    decreases outcomes.len(),
{
    if outcomes.len() == 0 {
        None
    } else {
        match first_failure(outcomes.drop_last()) {
            Some(e) => Some(e),
            None => match outcomes.last() {
                SessionOutcome::Notified(Err(e)) => Some(e),
                _ => None,
            },
        }
    }
}

impl NotifyTally {
    /// The tally counts `outcomes`.
    pub closed spec fn counts(self, outcomes: Seq<SessionOutcome>) -> bool {
        &&& self.any_stopped == some_stopped(outcomes)
        &&& self.sent == some_sent(outcomes)
        &&& self.emit_failed == first_failure(outcomes)
    }

    /// No session has been tried.
    pub fn new() -> (tally: Self)
        ensures
            tally.counts(Seq::empty()),
    {
        NotifyTally { any_stopped: false, sent: false, emit_failed: None }
    }

    /// Count what one more session did.
    pub fn record(&mut self, outcome: SessionOutcome)
        ensures
            forall|outcomes: Seq<SessionOutcome>| #[trigger]
                old(self).counts(outcomes) ==> final(self).counts(outcomes.push(outcome)),
    {
        let ghost before = *self;
        match outcome {
            SessionOutcome::Stopped => {
                self.any_stopped = true;
            },
            SessionOutcome::Notified(Ok(true)) => {
                self.sent = true;
            },
            SessionOutcome::Notified(Ok(false)) => {
                self.any_stopped = true;
            },
            SessionOutcome::Notified(Err(e)) => {
                if self.emit_failed.is_none() {
                    self.emit_failed = Some(e);
                }
            },
        }
        proof {
            assert forall|outcomes: Seq<SessionOutcome>| #[trigger]
                before.counts(outcomes) implies self.counts(outcomes.push(outcome)) by {
                let longer = outcomes.push(outcome);
                assert(longer.drop_last() =~= outcomes);
                assert(longer.last() == outcome);
                assert(longer[outcomes.len() as int] == outcome);
                if some_stopped(outcomes) {
                    let i = choose|i: int|
                        0 <= i < outcomes.len() && (#[trigger] outcomes[i] is Stopped
                            || outcomes[i] == SessionOutcome::Notified(Ok(false)));
                    assert(longer[i] == outcomes[i]);
                }
                if some_sent(outcomes) {
                    let i = choose|i: int|
                        0 <= i < outcomes.len() && #[trigger] outcomes[i]
                            == SessionOutcome::Notified(Ok(true));
                    assert(longer[i] == outcomes[i]);
                }
                if some_stopped(longer) {
                    let i = choose|i: int|
                        0 <= i < longer.len() && (#[trigger] longer[i] is Stopped || longer[i]
                            == SessionOutcome::Notified(Ok(false)));
                    if i < outcomes.len() {
                        assert(outcomes[i] == longer[i]);
                    }
                }
                if some_sent(longer) {
                    let i = choose|i: int|
                        0 <= i < longer.len() && #[trigger] longer[i]
                            == SessionOutcome::Notified(Ok(true));
                    if i < outcomes.len() {
                        assert(outcomes[i] == longer[i]);
                    }
                }
            }
        }
    }

    /// Whether stopped sessions are to be dropped.
    pub fn saw_stopped(&self) -> (stopped: bool)
        ensures
            forall|outcomes: Seq<SessionOutcome>| #[trigger]
                self.counts(outcomes) ==> stopped == some_stopped(outcomes),
    {
        self.any_stopped
    }

    /// What the notification came to: the first failure, if there was one;
    /// otherwise whether anyone was handed the value.
    pub fn finish(self) -> (result: BlewResult<Delivery>)
        ensures
            forall|outcomes: Seq<SessionOutcome>| #[trigger]
                self.counts(outcomes) ==> result == (match first_failure(outcomes) {
                    Some(e) => Err::<Delivery, BlewError>(e),
                    None => Ok::<Delivery, BlewError>(
                        if some_sent(outcomes) {
                            Delivery::Sent
                        } else {
                            Delivery::NoSubscriber
                        },
                    ),
                }),
    {
        match self.emit_failed {
            Some(e) => Err(e),
            None => Ok(
                if self.sent {
                    Delivery::Sent
                } else {
                    Delivery::NoSubscriber
                },
            ),
        }
    }
}

/// Nobody subscribed is not an error: a notification to no session is
/// answered `NoSubscriber`, and stopped sessions alone do not change that.
pub proof fn law_no_subscriber_is_no_error(outcomes: Seq<SessionOutcome>)
    requires
        forall|i: int| 0 <= i < outcomes.len() ==> #[trigger] outcomes[i] is Stopped,
    ensures
        first_failure(outcomes) is None,
        !some_sent(outcomes),
    decreases outcomes.len(),
{
    if outcomes.len() > 0 {
        assert forall|i: int|
            0 <= i < outcomes.drop_last().len() implies #[trigger] outcomes.drop_last()[i]
            is Stopped by {
            assert(outcomes[i] is Stopped);
        }
        assert(outcomes[outcomes.len() - 1] is Stopped);
        law_no_subscriber_is_no_error(outcomes.drop_last());
    }
}

/// A characteristic can be subscribed to exactly where it notifies or indicates,
/// and in exactly the ways that it declares, whatever else it declares.
pub proof fn law_subscriptions_are_as_declared(props: CharacteristicProperties)
    ensures
        subscription_flags(props) is Some <==> props@ & 0x30 != 0,
        subscription_flags(props) matches Some((notify, indicate)) ==> notify == (props@ & 0x10
            != 0) && indicate == (props@ & 0x20 != 0),
{
    let b = props@;
    assert((b & 0x10u16 == 0x10u16) == (b & 0x10u16 != 0) && (b & 0x20u16 == 0x20u16) == (b
        & 0x20u16 != 0) && (b & 0x30u16 != 0) == (b & 0x10u16 != 0 || b & 0x20u16 != 0))
        by (bit_vector);
}

/// A characteristic is registered under its own UUID and that of its service.
/// It takes reads, writes with and without response, and subscriptions exactly
/// where it declares each, whatever else it declares; reads are answered with
/// its value where it has one, and by asking where it has none.
pub proof fn law_a_characteristic_takes_what_it_declares(
    plan: CharacteristicPlan,
    ch: GattCharacteristic,
    service_uuid: Uuid,
)
    requires
        registers(plan, ch, service_uuid),
    ensures
        plan.uuid@ == ch.uuid@,
        plan.service_uuid@ == service_uuid@,
        plan.read is Some <==> ch.properties@ & 0x02 != 0,
        plan.read matches Some(ReadPlan::Static(value)) ==> value@ == ch.value@,
        plan.read is Some ==> (plan.read == Some(ReadPlan::Ask) <==> ch.value@.len() == 0),
        plan.write is Some <==> ch.properties@ & 0x0c != 0,
        plan.write matches Some(write) ==> write.request == (ch.properties@ & 0x08 != 0)
            && write.command == (ch.properties@ & 0x04 != 0),
        plan.notify is Some <==> ch.properties@ & 0x30 != 0,
        plan.notify matches Some((notify, indicate)) ==> notify == (ch.properties@ & 0x10 != 0)
            && indicate == (ch.properties@ & 0x20 != 0),
{
    let b = ch.properties@;
    law_subscriptions_are_as_declared(ch.properties);
    assert((b & 0x02u16 == 0x02u16) == (b & 0x02u16 != 0) && (b & 0x04u16 == 0x04u16) == (b
        & 0x04u16 != 0) && (b & 0x08u16 == 0x08u16) == (b & 0x08u16 != 0) && (b & 0x0cu16 != 0) == (
    b & 0x04u16 != 0 || b & 0x08u16 != 0)) by (bit_vector);
}

/// A service is served with every one of its characteristics, in order, and no
/// other.
pub proof fn law_every_characteristic_is_served(plan: ServicePlan, service: GattService, i: int)
    requires
        serves(plan, service),
    ensures
        plan.uuid@ == service.uuid@,
        plan.primary == service.primary,
        plan.characteristics@.len() == service.characteristics@.len(),
        0 <= i < service.characteristics@.len() ==> {
            &&& plan.characteristics@[i].uuid@ == service.characteristics@[i].uuid@
            &&& plan.characteristics@[i].service_uuid@ == service.uuid@
            &&& plan.characteristics@[i].read is Some <==> service.characteristics@[i].properties@
                & 0x02 != 0
        },
{
    if 0 <= i < service.characteristics@.len() {
        assert(registers(plan.characteristics@[i], service.characteristics@[i], service.uuid));
        law_a_characteristic_takes_what_it_declares(
            plan.characteristics@[i],
            service.characteristics@[i],
            service.uuid,
        );
    }
}

/// Every queued service is served, in order, and no other.
pub proof fn law_every_queued_service_is_served(
    plans: Vec<ServicePlan>,
    services: Seq<GattService>,
    i: int,
)
    requires
        serves_all(StartAction::Serve(plans), services),
    ensures
        plans@.len() == services.len(),
        0 <= i < services.len() ==> {
            &&& plans@[i].uuid@ == services[i].uuid@
            &&& plans@[i].primary == services[i].primary
            &&& plans@[i].characteristics@.len() == services[i].characteristics@.len()
        },
{
    if 0 <= i < services.len() {
        assert(serves(plans@[i], services[i]));
    }
}

/// An advertisement has the kind asked for, the name of the configuration where
/// it has one, and each of its service UUIDs, in order.
pub proof fn law_the_configuration_is_advertised(
    plan: AdvertisementPlan,
    config: AdvertisingConfig,
    kind: AdvertisementKind,
)
    requires
        advertises(plan, config, kind),
    ensures
        plan.kind == kind,
        plan.service_uuids@.len() == config.service_uuids@.len(),
        forall|i: int|
            0 <= i < config.service_uuids@.len() ==> #[trigger] plan.service_uuids@[i]
                == config.service_uuids@[i],
        config.local_name is NoName ==> plan.local_name is None,
        config.local_name matches crate::peripheral::types::LocalName::Temporary(name)
            ==> plan.local_name is Some && plan.local_name.unwrap()@ == name@,
        config.local_name matches crate::peripheral::types::LocalName::AllowPermanent(name)
            ==> plan.local_name is Some && plan.local_name.unwrap()@ == name@,
{
}

/// A read at an offset inside a value gets exactly what stands behind that many
/// bytes: what was read before and this make up the value. At an offset that is
/// not inside it, the whole value.
pub proof fn law_reads_at_offsets_make_up_the_value(value: Seq<u8>, offset: int)
    requires
        0 <= offset,
    ensures
        offset < value.len() ==> value.take(offset) + static_part(value, offset) == value,
        offset >= value.len() ==> static_part(value, offset) == value,
        static_part(value, 0) == value,
{
    if offset < value.len() {
        assert(value.take(offset) + static_part(value, offset) =~= value);
    }
}

/// Who is subscribed to a characteristic is known under its UUID alone.
pub proof fn law_subscribers_are_kept_apart<N, G, A>(
    state: StateView<N, G, A>,
    uuid: u128,
    list: Seq<N>,
    other: u128,
)
    requires
        other != uuid,
    ensures
        ({
            let after = (StateView { notifiers: state.notifiers.insert(uuid, list), ..state });
            &&& after.subscribed(uuid) == list
            &&& after.subscribed(other) == state.subscribed(other)
        }),
        (StateView { notifiers: Map::empty(), ..state }).subscribed(uuid).len() == 0,
{
}

/// A session was handed the value and failed.
pub open spec fn is_failure(outcome: SessionOutcome) -> bool {
    outcome is Notified && outcome->Notified_0 is Err
}

/// A notification fails exactly where some session failed, with the failure of
/// the first that did; it was sent exactly where some session was handed the
/// value; and sessions are to be dropped exactly where one had stopped.
pub proof fn law_every_session_counts(outcomes: Seq<SessionOutcome>)
    ensures
        match first_failure(outcomes) {
            Some(e) => exists|i: int|
                {
                    &&& 0 <= i < outcomes.len()
                    &&& #[trigger] outcomes[i] == SessionOutcome::Notified(Err(e))
                    &&& forall|j: int|
                        0 <= j < i ==> !is_failure(#[trigger] outcomes[j])
                },
            None => forall|j: int|
                0 <= j < outcomes.len() ==> !is_failure(#[trigger] outcomes[j]),
        },
        some_sent(outcomes) <==> outcomes.contains(SessionOutcome::Notified(Ok(true))),
        some_stopped(outcomes) <==> outcomes.contains(SessionOutcome::Stopped)
            || outcomes.contains(SessionOutcome::Notified(Ok(false))),
    decreases outcomes.len(),
{
    if outcomes.len() > 0 {
        let rest = outcomes.drop_last();
        let last = outcomes.len() - 1;
        law_every_session_counts(rest);
        match first_failure(rest) {
            Some(e) => {
                let i = choose|i: int|
                    {
                        &&& 0 <= i < rest.len()
                        &&& #[trigger] rest[i] == SessionOutcome::Notified(Err(e))
                        &&& forall|j: int|
                            0 <= j < i ==> !is_failure(#[trigger] rest[j])
                    };
                assert(outcomes[i] == rest[i]);
                assert forall|j: int| 0 <= j < i implies !is_failure(#[trigger] outcomes[j]) by {
                    assert(outcomes[j] == rest[j]);
                }
            },
            None => {
                assert forall|j: int| 0 <= j < last implies !is_failure(#[trigger] outcomes[j]) by {
                    assert(outcomes[j] == rest[j]);
                }
                if let SessionOutcome::Notified(Err(e)) = outcomes.last() {
                    assert(outcomes[last] == SessionOutcome::Notified(Err(e)));
                }
            },
        }
    }
    if some_sent(outcomes) {
        let i = choose|i: int|
            0 <= i < outcomes.len() && #[trigger] outcomes[i] == SessionOutcome::Notified(Ok(true));
        assert(outcomes.contains(outcomes[i]));
    }
    if some_stopped(outcomes) {
        let i = choose|i: int|
            0 <= i < outcomes.len() && (#[trigger] outcomes[i] is Stopped || outcomes[i]
                == SessionOutcome::Notified(Ok(false)));
        assert(outcomes.contains(outcomes[i]));
    }
}

/// A start that fails ends with BlueZ's words.
pub proof fn law_a_failed_start_says_why(action: StartAction, source: Seq<char>)
    requires
        fails_with(action, source),
    ensures
        action is Finish && action->Finish_0 is Err,
        action->Finish_0->Err_0@ == (crate::error::ErrorView::Peripheral { source }),
{
}

} // verus!
