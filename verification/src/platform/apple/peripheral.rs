//! The peripheral role on Apple platforms: what is handed to CoreBluetooth, and
//! what its delegate callbacks mean.
use super::central::{AdapterState, CbProperties, PowerEvent, PowerStep};
use crate::bits::low_u16_of;
use crate::error::{BlewError, BlewResult};
use crate::gatt::props::{AttributePermissions, CharacteristicProperties};
use crate::gatt::service::GattService;
use crate::l2cap::types::{L2capEncryption, Psm};
use crate::peripheral::types::{
    AdvertisingConfig, PeripheralRequest, PeripheralStateEvent, ReadAnswer, ReadResponder,
    WriteResponder,
};
use crate::types::DeviceId;
use crate::util::callback_slots::{CallbackSlots, Pending, SlotsView};
use crate::util::key_map::{KeyMap, MapKey};
use crate::util::reply::{Outgoing, Reply};
use crate::uuids::Uuid;
use vstd::prelude::*;

verus! {

/// Convert [`CharacteristicProperties`] to CoreBluetooth's properties.
pub fn our_props_to_cb(props: CharacteristicProperties) -> (out: CbProperties)
    ensures
        super::central::same_properties(props, out),
{
    CbProperties {
        broadcast: props.contains(CharacteristicProperties::BROADCAST),
        read: props.contains(CharacteristicProperties::READ),
        write_without_response: props.contains(CharacteristicProperties::WRITE_WITHOUT_RESPONSE),
        write: props.contains(CharacteristicProperties::WRITE),
        notify: props.contains(CharacteristicProperties::NOTIFY),
        indicate: props.contains(CharacteristicProperties::INDICATE),
    }
}

/// The attribute permissions that CoreBluetooth and this library share.
#[derive(Debug, Clone, Copy, PartialEq, Eq, Structural)]
pub struct CbPermissions {
    pub readable: bool,
    pub writeable: bool,
    pub read_encryption_required: bool,
    pub write_encryption_required: bool,
}

/// Convert [`AttributePermissions`] to CoreBluetooth's permissions.
pub fn our_perms_to_cb(perms: AttributePermissions) -> (out: CbPermissions)
    ensures
        out == cb_permissions(perms),
{
    CbPermissions {
        readable: perms.contains(AttributePermissions::READ),
        writeable: perms.contains(AttributePermissions::WRITE),
        read_encryption_required: perms.contains(AttributePermissions::READ_ENCRYPTED),
        write_encryption_required: perms.contains(AttributePermissions::WRITE_ENCRYPTED),
    }
}

/// CoreBluetooth's permissions for `perms`.
pub open spec fn cb_permissions(perms: AttributePermissions) -> CbPermissions {
    CbPermissions {
        readable: perms.has(AttributePermissions::READ),
        writeable: perms.has(AttributePermissions::WRITE),
        read_encryption_required: perms.has(AttributePermissions::READ_ENCRYPTED),
        write_encryption_required: perms.has(AttributePermissions::WRITE_ENCRYPTED),
    }
}

/// Properties that went to CoreBluetooth and came back are what they were, as
/// far as CoreBluetooth knows them.
pub proof fn law_properties_round_trip(
    ours: CharacteristicProperties,
    theirs: CbProperties,
    back: CharacteristicProperties,
)
    requires
        super::central::same_properties(ours, theirs),
        super::central::same_properties(back, theirs),
        back@ & 0xffc0 == 0,
    ensures
        back@ == ours@ & 0x003f,
{
    let a = ours@;
    let b = back@;
    assert(b == a & 0x003fu16) by (bit_vector)
        requires
            b & 0xffc0u16 == 0,
            (a & 0x01u16 == 0x01u16) == (b & 0x01u16 == 0x01u16),
            (a & 0x02u16 == 0x02u16) == (b & 0x02u16 == 0x02u16),
            (a & 0x04u16 == 0x04u16) == (b & 0x04u16 == 0x04u16),
            (a & 0x08u16 == 0x08u16) == (b & 0x08u16 == 0x08u16),
            (a & 0x10u16 == 0x10u16) == (b & 0x10u16 == 0x10u16),
            (a & 0x20u16 == 0x20u16) == (b & 0x20u16 == 0x20u16),
    ;
}

/// A characteristic, as it is handed to CoreBluetooth.
pub struct CharacteristicPlan {
    pub uuid: Uuid,
    pub properties: CbProperties,
    pub permissions: CbPermissions,
    /// A static value; `None` where reads are put to the application.
    pub value: Option<Vec<u8>>,
}

/// How `service` is handed to CoreBluetooth: one entry per characteristic, in
/// order.
pub fn plan_characteristics(service: &GattService) -> (plans: Vec<CharacteristicPlan>)
    ensures
        plans@.len() == service.characteristics@.len(),
        forall|i: int|
            #![trigger plans@[i]]
            0 <= i < plans@.len() ==> {
                let ch = service.characteristics@[i];
                &&& plans@[i].uuid == ch.uuid
                &&& super::central::same_properties(ch.properties, plans@[i].properties)
                &&& plans@[i].permissions == cb_permissions(ch.permissions)
                &&& match plans@[i].value {
                    Some(value) => value@ == ch.value@ && ch.value@.len() > 0,
                    None => ch.value@.len() == 0,
                }
            },
{
    let mut plans: Vec<CharacteristicPlan> = Vec::new();
    let mut i: usize = 0;
    while i < service.characteristics.len()
        invariant
            i <= service.characteristics@.len(),
            plans@.len() == i,
            forall|j: int|
                #![trigger plans@[j]]
                0 <= j < i ==> {
                    let ch = service.characteristics@[j];
                    &&& plans@[j].uuid == ch.uuid
                    &&& super::central::same_properties(ch.properties, plans@[j].properties)
                    &&& plans@[j].permissions == cb_permissions(ch.permissions)
                    &&& match plans@[j].value {
                        Some(value) => value@ == ch.value@ && ch.value@.len() > 0,
                        None => ch.value@.len() == 0,
                    }
                },
        decreases service.characteristics@.len() - i,
    {
        let ch = &service.characteristics[i];
        let value = if ch.value.len() == 0 {
            None
        } else {
            let copy = ch.value.clone();
            assert(copy@ =~= ch.value@);
            Some(copy)
        };
        plans.push(
            CharacteristicPlan {
                uuid: ch.uuid,
                properties: our_props_to_cb(ch.properties),
                permissions: our_perms_to_cb(ch.permissions),
                value,
            },
        );
        i += 1;
    }
    plans
}

/// `step` is what the peripheral does in the state `state`.
pub open spec fn follows_state(step: PowerStep, state: AdapterState) -> bool {
    match state {
        AdapterState::PoweredOn => step is Ready,
        AdapterState::NotYet => step is Wait,
        _ => step matches PowerStep::Fail(e) && e@ == crate::error::ErrorView::AdapterNotFound,
    }
}

/// What the peripheral does in the state `state`.
fn step_for(state: AdapterState) -> (step: PowerStep)
    ensures
        follows_state(step, state),
{
    match state {
        AdapterState::PoweredOn => PowerStep::Ready,
        AdapterState::NotYet => PowerStep::Wait,
        _ => PowerStep::Fail(BlewError::AdapterNotFound),
    }
}

/// What the peripheral does while it waits for the adapter to power up.
pub fn peripheral_power_step(event: PowerEvent) -> (step: PowerStep)
    ensures
        match event {
            PowerEvent::Closed { state } => follows_state(step, state),
            PowerEvent::Changed { powered: _, state } => follows_state(step, state),
            PowerEvent::TimedOut { state } => {
                if state is PoweredOn {
                    step is Ready
                } else {
                    step matches PowerStep::Fail(e) && e@ == crate::error::ErrorView::NotPowered
                }
            },
        },
{
    match event {
        PowerEvent::Closed { state } => step_for(state),
        PowerEvent::Changed { powered: _, state } => step_for(state),
        PowerEvent::TimedOut { state } => match state {
            AdapterState::PoweredOn => PowerStep::Ready,
            _ => PowerStep::Fail(BlewError::NotPowered),
        },
    }
}

/// The strongest requirement that a published PSM enforces.
pub open spec fn psm_strength(encrypted: bool) -> int {
    if encrypted {
        1
    } else {
        0
    }
}

/// Whether a published PSM is encrypted. CoreBluetooth has one switch, which
/// says nothing about whether the pairing was protected, so authentication
/// cannot be had. Where a level is accepted, the PSM is never weaker than what
/// was asked for.
pub fn publish_encryption(requested: L2capEncryption) -> (encrypted: BlewResult<bool>)
    ensures
        match encrypted {
            Ok(on) => requested != L2capEncryption::RequireAuthentication && on == (requested
                == L2capEncryption::RequireEncryption) && psm_strength(on)
                >= requested.strength(),
            Err(e) => {
                &&& requested == L2capEncryption::RequireAuthentication
                &&& e@ == (crate::error::ErrorView::L2capEncryptionUnsupported {
                    requested,
                    reason:
                        "publishing takes a single boolean, which says nothing about whether the pairing was MITM-protected"@,
                })
            },
        },
{
    match requested {
        L2capEncryption::Insecure => Ok(false),
        L2capEncryption::RequireEncryption => Ok(true),
        L2capEncryption::RequireAuthentication => Err(
            BlewError::L2capEncryptionUnsupported {
                requested,
                reason:
                    "publishing takes a single boolean, which says nothing about whether the pairing was MITM-protected".to_owned(),
            },
        ),
    }
}

/// The outcome of an ATT request.
#[derive(Debug, Clone, Copy, PartialEq, Eq, Structural)]
pub enum AttResult {
    Success,
    AttributeNotFound,
    WriteNotPermitted,
}

/// How a read is answered: with the value, or as an unknown attribute.
pub fn read_outcome(answer: ReadAnswer) -> (outcome: (AttResult, Option<Vec<u8>>))
    ensures
        outcome == (match answer {
            Ok(value) => (AttResult::Success, Some(value)),
            Err(_) => (AttResult::AttributeNotFound, None),
        }),
{
    match answer {
        Ok(value) => (AttResult::Success, Some(value)),
        Err(_) => (AttResult::AttributeNotFound, None),
    }
}

/// How a write is answered.
pub fn write_outcome(success: bool) -> (outcome: AttResult)
    ensures
        outcome == (if success {
            AttResult::Success
        } else {
            AttResult::WriteNotPermitted
        }),
{
    if success {
        AttResult::Success
    } else {
        AttResult::WriteNotPermitted
    }
}

/// A read by a central: the request for the application, and where its answer
/// arrives. `None` where the characteristic's UUID cannot be read: the read is
/// then answered as an unknown attribute.
pub fn on_read_request(
    client_id: DeviceId,
    service_uuid: Option<Uuid>,
    char_uuid: Option<Uuid>,
    offset: u64,
) -> (taken: Option<(PeripheralRequest, Reply<ReadAnswer>)>)
    ensures
        taken is Some <==> char_uuid is Some,
        taken matches Some((request, reply)) ==> {
            &&& request matches PeripheralRequest::Read {
                client_id: client,
                service_uuid: svc,
                char_uuid: chr,
                offset: at,
                responder,
            }
            &&& client == client_id
            &&& svc@ == (match service_uuid {
                Some(uuid) => uuid@,
                None => 0,
            })
            &&& Some(chr) == char_uuid
            &&& at == crate::bits::low16(offset as int)
            &&& responder.asker() matches Some(tx)
            &&& tx.channel() == reply.channel()
            &&& responder.drop_answer() == Some(Err::<Vec<u8>, ()>(()))
        },
{
    match char_uuid {
        None => None,
        Some(chr) => {
            let (responder, reply) = ReadResponder::channel();
            let svc = match service_uuid {
                Some(uuid) => uuid,
                None => Uuid::nil(),
            };
            let request = PeripheralRequest::Read {
                client_id,
                service_uuid: svc,
                char_uuid: chr,
                offset: low_u16_of(offset),
                responder,
            };
            Some((request, reply))
        },
    }
}

/// A write by a central: the request for the application, and where its answer
/// arrives. `None` where the characteristic's UUID cannot be read: the write is
/// then answered as an unknown attribute.
pub fn on_write_request(
    client_id: DeviceId,
    service_uuid: Option<Uuid>,
    char_uuid: Option<Uuid>,
    offset: u64,
    value: Vec<u8>,
) -> (taken: Option<(PeripheralRequest, Reply<bool>)>)
    ensures
        taken is Some <==> char_uuid is Some,
        taken matches Some((request, reply)) ==> {
            &&& request matches PeripheralRequest::Write {
                client_id: client,
                service_uuid: svc,
                char_uuid: chr,
                offset: at,
                value: written,
                responder,
            }
            &&& client == client_id
            &&& svc@ == (match service_uuid {
                Some(uuid) => uuid@,
                None => 0,
            })
            &&& Some(chr) == char_uuid
            &&& at == crate::bits::low16(offset as int)
            &&& written == value
            &&& responder matches Some(r)
            &&& r.asker() matches Some(tx)
            &&& tx.channel() == reply.channel()
            &&& r.drop_answer() == Some(false)
        },
{
    match char_uuid {
        None => None,
        Some(chr) => {
            let (responder, reply) = WriteResponder::channel();
            let svc = match service_uuid {
                Some(uuid) => uuid,
                None => Uuid::nil(),
            };
            let request = PeripheralRequest::Write {
                client_id,
                service_uuid: svc,
                char_uuid: chr,
                offset: low_u16_of(offset),
                value,
                responder: Some(responder),
            };
            Some((request, reply))
        },
    }
}

/// The key of the one request of its kind that can be in flight: CoreBluetooth's
/// callback says nothing of which request it answers.
pub const ONLY: u8 = 0;

/// The mathematical value of a [`PeripheralState`].
#[verifier::reject_recursive_types(K)]
#[verifier::reject_recursive_types(C)]
#[verifier::ext_equal]
pub struct StateView<K, C> {
    /// The characteristics that values can be sent for.
    pub chars: Map<u128, K>,
    /// The centrals that are subscribed, by their identifier and the
    /// characteristic.
    pub subscribers: Map<(Seq<char>, u128), C>,
    /// The start of the advertising that is owed its callback.
    pub advertising: SlotsView<u8, (), ()>,
    /// The services that are owed their callbacks, by UUID.
    pub services: SlotsView<u128, (), ()>,
    /// The publishing of a PSM that is owed its callback.
    pub publishing: SlotsView<u8, (), Psm>,
}

/// What the peripheral role remembers, with characteristics `K` and centrals
/// `C`. A request is held until the callback that answers it, whether or not
/// its caller still waits, and another of its kind is refused meanwhile.
#[verifier::reject_recursive_types(K)]
#[verifier::reject_recursive_types(C)]
pub struct PeripheralState<K, C> {
    chars: KeyMap<Uuid, K>,
    subscribers: KeyMap<(DeviceId, Uuid), C>,
    advertising: CallbackSlots<u8, (), ()>,
    services: CallbackSlots<Uuid, (), ()>,
    publishing: CallbackSlots<u8, (), Psm>,
}

impl<K, C> View for PeripheralState<K, C> {
    type V = StateView<K, C>;

    closed spec fn view(&self) -> StateView<K, C> {
        StateView {
            chars: self.chars@,
            subscribers: self.subscribers@,
            advertising: self.advertising@,
            services: self.services@,
            publishing: self.publishing@,
        }
    }
}

/// `answer` is for the request that held `key`, if one did: `value`, or
/// CoreBluetooth's `error` in its own words.
pub open spec fn answers_callback<Q, T>(
    answer: Option<Outgoing<BlewResult<T>>>,
    before: SlotsView<Q, (), T>,
    key: Q,
    value: T,
    error: Option<String>,
) -> bool {
    match answer {
        Some(out) => {
            &&& before.slots.contains_key(key)
            &&& out.to == before.slots[key].replier()
            &&& super::central::is_reported(out.value, value, error)
        },
        None => !before.slots.contains_key(key),
    }
}

/// The answer to the request that holds `key`, which is freed.
fn take_callback<Q: MapKey, T>(
    slots: &mut CallbackSlots<Q, (), T>,
    key: &Q::Query,
    value: T,
    error: Option<String>,
) -> (answer: Option<Outgoing<BlewResult<T>>>)
    ensures
        final(slots)@ == old(slots)@.take(key@),
        answers_callback(answer, old(slots)@, key@, value, error),
{
    match slots.take(key) {
        Some(pending) => Some(pending.split().1.outgoing(reported(value, error))),
        None => None,
    }
}

/// `answers` tell each request of `before`, once, that the adapter is off.
pub open spec fn answers_power_loss<Q, T>(
    answers: Seq<Outgoing<BlewResult<T>>>,
    before: SlotsView<Q, (), T>,
) -> bool {
    exists|dropped: Seq<Pending<(), T>>|
        {
            &&& #[trigger] crate::util::callback_slots::enumerates(dropped, before.slots)
            &&& answers.len() == dropped.len()
            &&& forall|i: int|
                0 <= i < answers.len() ==> {
                    &&& (#[trigger] answers[i]).to == dropped[i].replier()
                    &&& answers[i].value matches Err(e)
                    &&& e@ == crate::error::ErrorView::NotPowered
                }
        }
}

/// The answers to all requests, none of which CoreBluetooth will answer: the
/// adapter is off.
fn drop_callbacks<Q: MapKey, T>(slots: &mut CallbackSlots<Q, (), T>) -> (answers: Vec<
    Outgoing<BlewResult<T>>,
>)
    ensures
        final(slots)@ == old(slots)@.drain(),
        answers_power_loss(answers@, old(slots)@),
{
    let mut dropped = slots.drain();
    let ghost all = dropped@;
    let mut answers: Vec<Outgoing<BlewResult<T>>> = Vec::new();
    while dropped.len() > 0
        invariant
            answers@.len() + dropped@.len() == all.len(),
            dropped@ == all.skip(answers@.len() as int),
            forall|i: int|
                0 <= i < answers@.len() ==> {
                    &&& (#[trigger] answers@[i]).to == all[i].replier()
                    &&& answers@[i].value matches Err(e)
                    &&& e@ == crate::error::ErrorView::NotPowered
                },
        decreases dropped.len(),
    {
        let pending = dropped.remove(0);
        assert(pending == all[answers@.len() as int]);
        answers.push(pending.split().1.outgoing(Err(BlewError::NotPowered)));
        assert(dropped@ =~= all.skip(answers@.len() as int));
    }
    assert(crate::util::callback_slots::enumerates(all, old(slots)@.slots));
    answers
}

/// The answers to the requests that CoreBluetooth dropped.
pub struct DroppedRequests {
    pub services: Vec<Outgoing<BlewResult<()>>>,
    pub advertising: Vec<Outgoing<BlewResult<()>>>,
    pub publishing: Vec<Outgoing<BlewResult<Psm>>>,
}

/// Who a value is sent to.
pub enum NotifyTarget<'a, K, C> {
    /// The characteristic, and the one central that it is sent to.
    Central(&'a K, &'a C),
    /// The central is not subscribed to the characteristic.
    NoSubscriber,
}

/// `chars` with those of `added`, of which a later one counts before an earlier
/// one with the same UUID.
pub open spec fn extended<K>(chars: Map<u128, K>, added: Seq<(Uuid, K)>) -> Map<u128, K>
    decreases added.len(),
{
    if added.len() == 0 {
        chars
    } else {
        extended(chars, added.drop_last()).insert(added.last().0@, added.last().1)
    }
}

/// `result` is `value`, or CoreBluetooth's `error` in its own words.
fn reported<T>(value: T, error: Option<String>) -> (result: BlewResult<T>)
    ensures
        super::central::is_reported(result, value, error),
{
    match error {
        None => Ok(value),
        Some(text) => Err(BlewError::Internal(text)),
    }
}

/// A request of the same kind is still owed its callback.
fn unanswered(what: &str) -> (error: BlewError)
    ensures
        error@ == (crate::error::ErrorView::Peripheral {
            source: what@ + " is still unanswered"@,
        }),
{
    BlewError::Peripheral { source: what.to_owned().concat(" is still unanswered") }
}

impl<K, C> PeripheralState<K, C> {
    /// Nothing is in flight, and nothing known.
    pub fn new() -> (state: Self)
        ensures
            state@ == (StateView::<K, C> {
                chars: Map::empty(),
                subscribers: Map::empty(),
                advertising: SlotsView { last: 0, slots: Map::empty() },
                services: SlotsView { last: 0, slots: Map::empty() },
                publishing: SlotsView { last: 0, slots: Map::empty() },
            }),
    {
        PeripheralState {
            chars: KeyMap::new(),
            subscribers: KeyMap::new(),
            advertising: CallbackSlots::default(),
            services: CallbackSlots::default(),
            publishing: CallbackSlots::default(),
        }
    }

    /// Register a service, with its characteristics, before it is handed to
    /// CoreBluetooth. Refused while an earlier request for the service is owed
    /// its callback.
    pub fn begin_add_service(&mut self, service_uuid: Uuid, chars: Vec<(Uuid, K)>) -> (begun:
        BlewResult<Reply<BlewResult<()>>>)
        ensures
            begun is Ok <==> !old(self)@.services.slots.contains_key(service_uuid@),
            match begun {
                Ok(reply) => {
                    let pending = final(self)@.services.slots[service_uuid@];
                    &&& pending.replier().channel() == reply.channel()
                    &&& pending.ticket() == final(self)@.services.last
                    &&& final(self)@ == (StateView {
                        chars: extended(old(self)@.chars, chars@),
                        services: old(self)@.services.register(service_uuid@, pending),
                        ..old(self)@
                    })
                },
                Err(e) => {
                    &&& e@ == (crate::error::ErrorView::Peripheral {
                        source: "an earlier add_service of the service"@
                            + " is still unanswered"@,
                    })
                    &&& final(self)@ == old(self)@
                },
            },
    {
        let reply = match self.services.register(service_uuid, ()) {
            Some((_, reply)) => reply,
            None => return Err(unanswered("an earlier add_service of the service")),
        };
        let ghost registered = self@.services;
        let ghost all = chars@;
        let mut chars = chars;
        let ghost mut done: int = 0;
        proof {
            assert(all.take(0) =~= Seq::empty());
        }
        while chars.len() > 0
            invariant
                0 <= done <= all.len(),
                chars@ == all.skip(done),
                self@ == (StateView {
                    chars: extended(old(self)@.chars, all.take(done)),
                    services: registered,
                    ..old(self)@
                }),
            decreases chars.len(),
        {
            let (uuid, ch) = chars.remove(0);
            proof {
                assert((uuid, ch) == all[done]);
                assert(all.take(done + 1).drop_last() =~= all.take(done));
            }
            self.chars.insert(uuid, ch);
            proof {
                done = done + 1;
                assert(chars@ =~= all.skip(done));
            }
        }
        assert(all.take(done) =~= all);
        Ok(reply)
    }

    /// A service was added, or not: the answer to the request that is owed it.
    pub fn on_service_added(&mut self, service_uuid: Uuid, error: Option<String>) -> (answer:
        Option<Outgoing<BlewResult<()>>>)
        ensures
            final(self)@ == (StateView {
                services: old(self)@.services.take(service_uuid@),
                ..old(self)@
            }),
            answers_callback(answer, old(self)@.services, service_uuid@, (), error),
    {
        take_callback(&mut self.services, &service_uuid, (), error)
    }

    /// Register the start of the advertising before it is handed to
    /// CoreBluetooth. Refused while advertising, and while an earlier start is
    /// owed its callback.
    pub fn begin_advertising(&mut self, is_advertising: bool) -> (begun: BlewResult<
        Reply<BlewResult<()>>,
    >)
        ensures
            begun is Ok <==> !is_advertising && !old(self)@.advertising.slots.contains_key(ONLY),
            match begun {
                Ok(reply) => {
                    let pending = final(self)@.advertising.slots[ONLY];
                    &&& pending.replier().channel() == reply.channel()
                    &&& pending.ticket() == final(self)@.advertising.last
                    &&& final(self)@ == (StateView {
                        advertising: old(self)@.advertising.register(ONLY, pending),
                        ..old(self)@
                    })
                },
                Err(e) => e@ == crate::error::ErrorView::AlreadyAdvertising && final(self)@ == old(
                    self,
                )@,
            },
    {
        if is_advertising {
            return Err(BlewError::AlreadyAdvertising);
        }
        match self.advertising.register(ONLY, ()) {
            Some((_, reply)) => Ok(reply),
            None => Err(BlewError::AlreadyAdvertising),
        }
    }

    /// The advertising started, or not: the answer to the request that is owed
    /// it.
    pub fn on_advertising_started(&mut self, error: Option<String>) -> (answer: Option<
        Outgoing<BlewResult<()>>,
    >)
        ensures
            final(self)@ == (StateView {
                advertising: old(self)@.advertising.take(ONLY),
                ..old(self)@
            }),
            answers_callback(answer, old(self)@.advertising, ONLY, (), error),
    {
        take_callback(&mut self.advertising, &ONLY, (), error)
    }

    /// The adapter was switched off, so that CoreBluetooth will answer none of
    /// the requests in flight, and nobody is subscribed any more.
    pub fn on_power_lost(&mut self) -> (dropped: DroppedRequests)
        ensures
            final(self)@ == (StateView {
                subscribers: Map::empty(),
                advertising: old(self)@.advertising.drain(),
                services: old(self)@.services.drain(),
                publishing: old(self)@.publishing.drain(),
                ..old(self)@
            }),
            answers_power_loss(dropped.services@, old(self)@.services),
            answers_power_loss(dropped.advertising@, old(self)@.advertising),
            answers_power_loss(dropped.publishing@, old(self)@.publishing),
    {
        self.subscribers = KeyMap::new();
        DroppedRequests {
            services: drop_callbacks(&mut self.services),
            advertising: drop_callbacks(&mut self.advertising),
            publishing: drop_callbacks(&mut self.publishing),
        }
    }

    /// A central subscribed to a characteristic, or unsubscribed from it: what
    /// is announced. Nothing where the characteristic's UUID cannot be read.
    pub fn on_subscription(
        &mut self,
        client_id: DeviceId,
        central: C,
        char_uuid: Option<Uuid>,
        subscribed: bool,
    ) -> (event: Option<PeripheralStateEvent>)
        ensures
            event == (match char_uuid {
                Some(uuid) => Some(
                    PeripheralStateEvent::SubscriptionChanged {
                        client_id,
                        char_uuid: uuid,
                        subscribed,
                    },
                ),
                None => None,
            }),
            final(self)@ == (StateView {
                subscribers: match char_uuid {
                    Some(uuid) => if subscribed {
                        old(self)@.subscribers.insert((client_id@, uuid@), central)
                    } else {
                        old(self)@.subscribers.remove((client_id@, uuid@))
                    },
                    None => old(self)@.subscribers,
                },
                ..old(self)@
            }),
    {
        match char_uuid {
            Some(uuid) => {
                let key = (client_id.clone(), uuid);
                if subscribed {
                    self.subscribers.insert(key, central);
                } else {
                    self.subscribers.remove(&key);
                }
                Some(
                    PeripheralStateEvent::SubscriptionChanged {
                        client_id,
                        char_uuid: uuid,
                        subscribed,
                    },
                )
            },
            None => None,
        }
    }

    /// Who a value of `char_uuid` for `device_id` is sent to: that one central,
    /// if it is subscribed.
    pub fn notify_target(&self, device_id: &DeviceId, char_uuid: Uuid) -> (target: BlewResult<
        NotifyTarget<'_, K, C>,
    >)
        ensures
            match target {
                Ok(NotifyTarget::Central(ch, central)) => {
                    &&& self@.chars.contains_key(char_uuid@)
                    &&& *ch == self@.chars[char_uuid@]
                    &&& self@.subscribers.contains_key((device_id@, char_uuid@))
                    &&& *central == self@.subscribers[(device_id@, char_uuid@)]
                },
                Ok(NotifyTarget::NoSubscriber) => {
                    &&& self@.chars.contains_key(char_uuid@)
                    &&& !self@.subscribers.contains_key((device_id@, char_uuid@))
                },
                Err(e) => !self@.chars.contains_key(char_uuid@) && e@ == (
                crate::error::ErrorView::LocalCharacteristicNotFound { char_uuid: char_uuid@ }),
            },
    {
        match self.characteristic(char_uuid) {
            Err(e) => Err(e),
            Ok(ch) => {
                let key = (device_id.clone(), char_uuid);
                match self.subscribers.get(&key) {
                    Some(central) => Ok(NotifyTarget::Central(ch, central)),
                    None => Ok(NotifyTarget::NoSubscriber),
                }
            },
        }
    }

    /// The characteristic to send a value for.
    pub fn characteristic(&self, char_uuid: Uuid) -> (found: BlewResult<&K>)
        ensures
            match found {
                Ok(ch) => self@.chars.contains_key(char_uuid@) && *ch == self@.chars[char_uuid@],
                Err(e) => !self@.chars.contains_key(char_uuid@) && e@ == (
                crate::error::ErrorView::LocalCharacteristicNotFound { char_uuid: char_uuid@ }),
            },
    {
        match self.chars.get(&char_uuid) {
            Some(ch) => Ok(ch),
            None => Err(BlewError::LocalCharacteristicNotFound { char_uuid }),
        }
    }

    /// Register the publishing of a PSM before it is handed to CoreBluetooth.
    /// Refused while an earlier one is owed its callback.
    pub fn begin_publish(&mut self) -> (begun: BlewResult<Reply<BlewResult<Psm>>>)
        ensures
            begun is Ok <==> !old(self)@.publishing.slots.contains_key(ONLY),
            match begun {
                Ok(reply) => {
                    let pending = final(self)@.publishing.slots[ONLY];
                    &&& pending.replier().channel() == reply.channel()
                    &&& pending.ticket() == final(self)@.publishing.last
                    &&& final(self)@ == (StateView {
                        publishing: old(self)@.publishing.register(ONLY, pending),
                        ..old(self)@
                    })
                },
                Err(e) => {
                    &&& e@ == (crate::error::ErrorView::Peripheral {
                        source: "an earlier L2CAP publish"@ + " is still unanswered"@,
                    })
                    &&& final(self)@ == old(self)@
                },
            },
    {
        match self.publishing.register(ONLY, ()) {
            Some((_, reply)) => Ok(reply),
            None => Err(unanswered("an earlier L2CAP publish")),
        }
    }

    /// A PSM was published, or not: the answer to the request that is owed it.
    pub fn on_published(&mut self, psm: u16, error: Option<String>) -> (answer: Option<
        Outgoing<BlewResult<Psm>>,
    >)
        ensures
            final(self)@ == (StateView {
                publishing: old(self)@.publishing.take(ONLY),
                ..old(self)@
            }),
            answers_callback(answer, old(self)@.publishing, ONLY, Psm(psm), error),
    {
        take_callback(&mut self.publishing, &ONLY, Psm(psm), error)
    }
}

/// Which request was never answered.
#[derive(Debug, Clone, Copy, PartialEq, Eq, Structural)]
pub enum Unanswered {
    AddService,
    StartAdvertising,
    Publish,
}

impl Unanswered {
    /// How it is put into words.
    pub open spec fn words(self) -> Seq<char> {
        match self {
            Unanswered::AddService => "add_service channel dropped"@,
            Unanswered::StartAdvertising => "start_advertising channel dropped"@,
            Unanswered::Publish => "l2cap_publish channel dropped"@,
        }
    }
}

/// What the caller of a request is told: its answer, or, where there will be
/// none, that.
pub fn request_result<T>(request: Unanswered, answer: Option<BlewResult<T>>) -> (result: BlewResult<
    T,
>)
    ensures
        match answer {
            Some(r) => result == r,
            None => result matches Err(e) && e@ == crate::error::ErrorView::Internal(
                request.words(),
            ),
        },
{
    match answer {
        Some(result) => result,
        None => Err(
            BlewError::Internal(
                match request {
                    Unanswered::AddService => "add_service channel dropped".to_owned(),
                    Unanswered::StartAdvertising => "start_advertising channel dropped".to_owned(),
                    Unanswered::Publish => "l2cap_publish channel dropped".to_owned(),
                },
            ),
        ),
    }
}

/// An advertisement, as it is handed to CoreBluetooth.
pub struct AdvertisePlan {
    /// The name in it; `None` where it has none.
    pub local_name: Option<String>,
    pub service_uuids: Vec<Uuid>,
}

/// How an advertisement for `config` is handed to CoreBluetooth.
pub fn advertise_plan(config: &AdvertisingConfig) -> (plan: AdvertisePlan)
    ensures
        plan.service_uuids@ == config.service_uuids@,
        match plan.local_name {
            Some(name) => config.local_name.on_air() == Some(name@),
            None => config.local_name.on_air() is None,
        },
{
    let local_name = match config.local_name.name() {
        Some(name) => Some(name.to_owned()),
        None => None,
    };
    let service_uuids = config.service_uuids.clone();
    assert(service_uuids@ =~= config.service_uuids@);
    AdvertisePlan { local_name, service_uuids }
}

/// What an incoming L2CAP channel comes to: an item for whoever accepts them,
/// or nothing where there is neither a channel nor an error.
pub fn incoming_channel<C>(channel: Option<C>, error: Option<String>) -> (item: Option<
    BlewResult<C>,
>)
    ensures
        match (error, channel) {
            (Some(text), _) => item matches Some(Err(e)) && e@ == crate::error::ErrorView::Internal(
                text@,
            ),
            (None, Some(c)) => item == Some(Ok::<C, BlewError>(c)),
            (None, None) => item is None,
        },
{
    match error {
        Some(text) => Some(Err(BlewError::Internal(text))),
        None => match channel {
            Some(c) => Some(Ok(c)),
            None => None,
        },
    }
}

/// After a service is added, every characteristic known before whose UUID is not
/// among the added ones is still known, with the same handle; every added UUID
/// is known with the last handle added for it; and no other UUID is known.
pub proof fn law_adding_a_service_forgets_nothing<K>(
    chars: Map<u128, K>,
    added: Seq<(Uuid, K)>,
    uuid: u128,
)
    ensures
        if exists|i: int| 0 <= i < added.len() && (#[trigger] added[i]).0@ == uuid {
            &&& extended(chars, added).contains_key(uuid)
            &&& exists|i: int|
                {
                    &&& 0 <= i < added.len()
                    &&& (#[trigger] added[i]).0@ == uuid
                    &&& extended(chars, added)[uuid] == added[i].1
                    &&& forall|j: int| i < j < added.len() ==> (#[trigger] added[j]).0@ != uuid
                }
        } else {
            &&& extended(chars, added).contains_key(uuid) == chars.contains_key(uuid)
            &&& chars.contains_key(uuid) ==> extended(chars, added)[uuid] == chars[uuid]
        },
    decreases added.len(),
{
    if added.len() > 0 {
        let rest = added.drop_last();
        let last = added.len() - 1;
        law_adding_a_service_forgets_nothing(chars, rest, uuid);
        if added[last].0@ == uuid {
            assert(extended(chars, added)[uuid] == added[last].1);
        } else if exists|i: int| 0 <= i < rest.len() && (#[trigger] rest[i]).0@ == uuid {
            let i = choose|i: int|
                {
                    &&& 0 <= i < rest.len()
                    &&& (#[trigger] rest[i]).0@ == uuid
                    &&& extended(chars, rest)[uuid] == rest[i].1
                    &&& forall|j: int| i < j < rest.len() ==> (#[trigger] rest[j]).0@ != uuid
                };
            assert(added[i] == rest[i]);
            assert forall|j: int| i < j < added.len() implies (#[trigger] added[j]).0@ != uuid by {
                if j < last {
                    assert(added[j] == rest[j]);
                }
            }
        } else {
            if exists|i: int| 0 <= i < added.len() && (#[trigger] added[i]).0@ == uuid {
                let i = choose|i: int| 0 <= i < added.len() && (#[trigger] added[i]).0@ == uuid;
                assert(added[i] == rest[i]);
            }
        }
    }
}

/// Adding two services, one after the other, makes the characteristics of both
/// known, as adding all of them at once does.
pub proof fn law_services_add_up<K>(
    chars: Map<u128, K>,
    first: Seq<(Uuid, K)>,
    second: Seq<(Uuid, K)>,
)
    ensures
        extended(extended(chars, first), second) == extended(chars, first + second),
    decreases second.len(),
{
    if second.len() == 0 {
        assert(first + second =~= first);
    } else {
        law_services_add_up(chars, first, second.drop_last());
        assert((first + second).drop_last() =~= first + second.drop_last());
    }
}

/// Each of CoreBluetooth's permissions is set exactly where its own flag is,
/// whatever the other flags are: two sets that agree on a flag agree on its
/// permission, and the four permissions tell the four flags.
pub proof fn law_each_permission_has_its_own_flag(a: AttributePermissions, b: AttributePermissions)
    ensures
        cb_permissions(a).readable == (a@ & 0x01 != 0),
        cb_permissions(a).writeable == (a@ & 0x02 != 0),
        cb_permissions(a).read_encryption_required == (a@ & 0x04 != 0),
        cb_permissions(a).write_encryption_required == (a@ & 0x08 != 0),
        a@ & 0x01 == b@ & 0x01 <==> cb_permissions(a).readable == cb_permissions(b).readable,
        a@ & 0x02 == b@ & 0x02 <==> cb_permissions(a).writeable == cb_permissions(b).writeable,
        a@ & 0x04 == b@ & 0x04 <==> cb_permissions(a).read_encryption_required == cb_permissions(
            b,
        ).read_encryption_required,
        a@ & 0x08 == b@ & 0x08 <==> cb_permissions(a).write_encryption_required == cb_permissions(
            b,
        ).write_encryption_required,
        cb_permissions(a) == cb_permissions(b) <==> a@ & 0x0f == b@ & 0x0f,
{
    let x = a@;
    let y = b@;
    assert((x & 0x01u16 == 0x01u16) == (x & 0x01u16 != 0) && (x & 0x02u16 == 0x02u16) == (x
        & 0x02u16 != 0) && (x & 0x04u16 == 0x04u16) == (x & 0x04u16 != 0) && (x & 0x08u16
        == 0x08u16) == (x & 0x08u16 != 0)) by (bit_vector);
    assert((y & 0x01u16 == 0x01u16) == (y & 0x01u16 != 0) && (y & 0x02u16 == 0x02u16) == (y
        & 0x02u16 != 0) && (y & 0x04u16 == 0x04u16) == (y & 0x04u16 != 0) && (y & 0x08u16
        == 0x08u16) == (y & 0x08u16 != 0)) by (bit_vector);
    assert((x & 0x01u16 == y & 0x01u16) == ((x & 0x01u16 != 0) == (y & 0x01u16 != 0)) && (x
        & 0x02u16 == y & 0x02u16) == ((x & 0x02u16 != 0) == (y & 0x02u16 != 0)) && (x & 0x04u16 == y
        & 0x04u16) == ((x & 0x04u16 != 0) == (y & 0x04u16 != 0)) && (x & 0x08u16 == y & 0x08u16)
        == ((x & 0x08u16 != 0) == (y & 0x08u16 != 0)) && (x & 0x0fu16 == y & 0x0fu16) == ((x
        & 0x01u16 == y & 0x01u16) && (x & 0x02u16 == y & 0x02u16) && (x & 0x04u16 == y & 0x04u16)
        && (x & 0x08u16 == y & 0x08u16))) by (bit_vector);
}

/// A callback answers the request that is owed it, with the value or with
/// CoreBluetooth's words, and nobody where none is.
pub proof fn law_a_callback_answers_its_request<Q, T>(
    answer: Option<Outgoing<BlewResult<T>>>,
    before: SlotsView<Q, (), T>,
    key: Q,
    value: T,
    error: Option<String>,
)
    requires
        answers_callback(answer, before, key, value, error),
    ensures
        answer is Some <==> before.slots.contains_key(key),
        answer matches Some(out) ==> {
            &&& out.to == before.slots[key].replier()
            &&& error is None ==> out.value == Ok::<T, BlewError>(value)
            &&& error is Some ==> out.value is Err
        },
{
}

/// Losing power answers every request that was in flight, and no other, with
/// that.
pub proof fn law_power_loss_answers_every_request<Q, T>(
    answers: Seq<Outgoing<BlewResult<T>>>,
    before: SlotsView<Q, (), T>,
    key: Q,
)
    requires
        answers_power_loss(answers, before),
    ensures
        before.slots.dom().finite(),
        answers.len() == before.slots.dom().len(),
        before.slots.contains_key(key) ==> exists|i: int|
            0 <= i < answers.len() && (#[trigger] answers[i]).to == before.slots[key].replier(),
        forall|i: int|
            0 <= i < answers.len() ==> ((#[trigger] answers[i]).value matches Err(e) && e@
                == crate::error::ErrorView::NotPowered),
{
    let dropped = choose|dropped: Seq<Pending<(), T>>|
        {
            &&& #[trigger] crate::util::callback_slots::enumerates(dropped, before.slots)
            &&& answers.len() == dropped.len()
            &&& forall|i: int|
                0 <= i < answers.len() ==> {
                    &&& (#[trigger] answers[i]).to == dropped[i].replier()
                    &&& answers[i].value matches Err(e)
                    &&& e@ == crate::error::ErrorView::NotPowered
                }
        };
    crate::util::callback_slots::law_enumeration_is_complete(dropped, before.slots, key, 0);
    if before.slots.contains_key(key) {
        let i = choose|i: int| 0 <= i < dropped.len() && dropped[i] == before.slots[key];
        assert(answers[i].to == dropped[i].replier());
    }
}

/// The peripheral is ready in the powered-on state and no other, waits where the
/// state may still change, and fails otherwise.
pub proof fn law_power_steps_follow_the_state(step: PowerStep, state: AdapterState)
    requires
        follows_state(step, state),
    ensures
        step is Ready <==> state is PoweredOn,
        step is Wait <==> state is NotYet,
        step is Fail <==> state is Unsupported || state is Unauthorized,
{
}

/// A published PSM that is encrypted enforces encryption and no more, and one
/// that is not enforces nothing.
pub proof fn law_one_switch_is_encryption_alone()
    ensures
        psm_strength(true) == L2capEncryption::RequireEncryption.strength(),
        psm_strength(true) < L2capEncryption::RequireAuthentication.strength(),
        psm_strength(false) == L2capEncryption::Insecure.strength(),
{
}

} // verus!
