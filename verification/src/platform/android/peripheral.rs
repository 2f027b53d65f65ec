//! The peripheral role on Android: what is handed to Kotlin, and what its
//! answers mean.
use super::central::uuid_texts;
use crate::error::{BlewError, BlewResult};
use crate::gatt::props::{AttributePermissions, CharacteristicProperties};
use crate::gatt::service::GattService;
use crate::peripheral::types::{AdvertisingConfig, Delivery, LocalName};
use crate::text::decimal_text;
use crate::time::seconds;
use crate::util::advertise_state::{AdvertiseState, Advertising};
use crate::util::notify_gate::Handoff;
use crate::util::reply::{Outgoing, Reply};
use crate::uuids::Uuid;
use std::time::Duration;
use vstd::prelude::*;

verus! {

/// The Android backend of the peripheral role.
#[derive(Debug, Clone, Copy, PartialEq, Eq, Structural)]
pub struct AndroidPeripheral;

impl crate::peripheral::backend::Sealed for AndroidPeripheral {

}

/// The property bits that Android knows.
pub const ANDROID_PROPERTY_MASK: u16 = 0x003f;

/// Convert [`CharacteristicProperties`] to Android's property bits, which have
/// the same layout but no signed writes and no extended properties.
pub fn blew_props_to_android(props: CharacteristicProperties) -> (bits: i32)
    ensures
        bits == props@ & ANDROID_PROPERTY_MASK,
{
    let mut out: i32 = 0;
    if props.contains(CharacteristicProperties::BROADCAST) {
        out = out | 0x01;
    }
    if props.contains(CharacteristicProperties::READ) {
        out = out | 0x02;
    }
    if props.contains(CharacteristicProperties::WRITE_WITHOUT_RESPONSE) {
        out = out | 0x04;
    }
    if props.contains(CharacteristicProperties::WRITE) {
        out = out | 0x08;
    }
    if props.contains(CharacteristicProperties::NOTIFY) {
        out = out | 0x10;
    }
    if props.contains(CharacteristicProperties::INDICATE) {
        out = out | 0x20;
    }
    proof {
        let b = props@;
        let o0: i32 = if b & 0x01u16 == 0x01u16 { 0i32 | 0x01 } else { 0 };
        let o1: i32 = if b & 0x02u16 == 0x02u16 { o0 | 0x02 } else { o0 };
        let o2: i32 = if b & 0x04u16 == 0x04u16 { o1 | 0x04 } else { o1 };
        let o3: i32 = if b & 0x08u16 == 0x08u16 { o2 | 0x08 } else { o2 };
        let o4: i32 = if b & 0x10u16 == 0x10u16 { o3 | 0x10 } else { o3 };
        let o5: i32 = if b & 0x20u16 == 0x20u16 { o4 | 0x20 } else { o4 };
        assert(o5 == (b & 0x3fu16) as i32) by (bit_vector)
            requires
                o0 == (if b & 0x01u16 == 0x01u16 { 0i32 | 0x01i32 } else { 0i32 }),
                o1 == (if b & 0x02u16 == 0x02u16 { o0 | 0x02i32 } else { o0 }),
                o2 == (if b & 0x04u16 == 0x04u16 { o1 | 0x04i32 } else { o1 }),
                o3 == (if b & 0x08u16 == 0x08u16 { o2 | 0x08i32 } else { o2 }),
                o4 == (if b & 0x10u16 == 0x10u16 { o3 | 0x10i32 } else { o3 }),
                o5 == (if b & 0x20u16 == 0x20u16 { o4 | 0x20i32 } else { o4 }),
        ;
        assert(out == o5);
    }
    out
}

/// `flag` where `set`, nothing otherwise.
pub open spec fn bit_if(set: bool, flag: int) -> int {
    if set {
        flag
    } else {
        0
    }
}

/// Convert [`AttributePermissions`] to Android's permission bits.
pub fn blew_perms_to_android(perms: AttributePermissions) -> (bits: i32)
    ensures
        bits == bit_if(perms.has(AttributePermissions::READ), 0x01) + bit_if(
            perms.has(AttributePermissions::READ_ENCRYPTED),
            0x02,
        ) + bit_if(perms.has(AttributePermissions::WRITE), 0x10) + bit_if(
            perms.has(AttributePermissions::WRITE_ENCRYPTED),
            0x20,
        ),
{
    let mut out: i32 = 0;
    if perms.contains(AttributePermissions::READ) {
        out = out | 0x01;
    }
    if perms.contains(AttributePermissions::WRITE) {
        out = out | 0x10;
    }
    if perms.contains(AttributePermissions::READ_ENCRYPTED) {
        out = out | 0x02;
    }
    if perms.contains(AttributePermissions::WRITE_ENCRYPTED) {
        out = out | 0x20;
    }
    proof {
        let r: i32 = if perms.has(AttributePermissions::READ) { 0x01 } else { 0 };
        let w: i32 = if perms.has(AttributePermissions::WRITE) { 0x10 } else { 0 };
        let e: i32 = if perms.has(AttributePermissions::READ_ENCRYPTED) { 0x02 } else { 0 };
        let f: i32 = if perms.has(AttributePermissions::WRITE_ENCRYPTED) { 0x20 } else { 0 };
        assert(forall|x: i32| #[trigger] (x | 0i32) == x) by (bit_vector);
        assert((((0i32 | r) | w) | e) | f == r + w + e + f) by (bit_vector)
            requires
                r == 0x01i32 || r == 0,
                w == 0x10i32 || w == 0,
                e == 0x02i32 || e == 0,
                f == 0x20i32 || f == 0,
        ;
        assert(out == (((0i32 | r) | w) | e) | f);
    }
    out
}

/// A service, as it is handed to Kotlin: one entry per characteristic in each
/// list.
pub struct ServiceArrays {
    pub uuid: String,
    pub char_uuids: Vec<String>,
    pub properties: Vec<i32>,
    pub permissions: Vec<i32>,
    pub values: Vec<Vec<u8>>,
}

/// How `service` is handed to Kotlin.
pub fn service_arrays(service: &GattService) -> (arrays: ServiceArrays)
    ensures
        arrays.uuid@ == crate::uuids::uuid_text(service.uuid@),
        arrays.char_uuids@.len() == service.characteristics@.len(),
        arrays.properties@.len() == service.characteristics@.len(),
        arrays.permissions@.len() == service.characteristics@.len(),
        arrays.values@.len() == service.characteristics@.len(),
        forall|i: int|
            #![trigger service.characteristics@[i]]
            0 <= i < service.characteristics@.len() ==> {
                let ch = service.characteristics@[i];
                &&& arrays.char_uuids@[i]@ == crate::uuids::uuid_text(ch.uuid@)
                &&& arrays.properties@[i] == ch.properties@ & ANDROID_PROPERTY_MASK
                &&& arrays.permissions@[i] == bit_if(
                    ch.permissions.has(AttributePermissions::READ),
                    0x01,
                ) + bit_if(ch.permissions.has(AttributePermissions::READ_ENCRYPTED), 0x02)
                    + bit_if(ch.permissions.has(AttributePermissions::WRITE), 0x10) + bit_if(
                    ch.permissions.has(AttributePermissions::WRITE_ENCRYPTED),
                    0x20,
                )
                &&& arrays.values@[i]@ == ch.value@
            },
{
    let mut char_uuids: Vec<String> = Vec::new();
    let mut properties: Vec<i32> = Vec::new();
    let mut permissions: Vec<i32> = Vec::new();
    let mut values: Vec<Vec<u8>> = Vec::new();
    let mut i: usize = 0;
    while i < service.characteristics.len()
        invariant
            i <= service.characteristics@.len(),
            char_uuids@.len() == i,
            properties@.len() == i,
            permissions@.len() == i,
            values@.len() == i,
            forall|j: int|
                #![trigger service.characteristics@[j]]
                0 <= j < i ==> {
                    let ch = service.characteristics@[j];
                    &&& char_uuids@[j]@ == crate::uuids::uuid_text(ch.uuid@)
                    &&& properties@[j] == ch.properties@ & ANDROID_PROPERTY_MASK
                    &&& permissions@[j] == bit_if(
                        ch.permissions.has(AttributePermissions::READ),
                        0x01,
                    ) + bit_if(ch.permissions.has(AttributePermissions::READ_ENCRYPTED), 0x02)
                        + bit_if(ch.permissions.has(AttributePermissions::WRITE), 0x10) + bit_if(
                        ch.permissions.has(AttributePermissions::WRITE_ENCRYPTED),
                        0x20,
                    )
                    &&& values@[j]@ == ch.value@
                },
        decreases service.characteristics@.len() - i,
    {
        let ch = &service.characteristics[i];
        char_uuids.push(ch.uuid.text());
        properties.push(blew_props_to_android(ch.properties));
        permissions.push(blew_perms_to_android(ch.permissions));
        let value = ch.value.clone();
        assert(value@ =~= ch.value@);
        values.push(value);
        i += 1;
    }
    ServiceArrays { uuid: service.uuid.text(), char_uuids, properties, permissions, values }
}

/// The adapter name that an advertisement needs: none, or a rename that is
/// left in place. Android has no way to name a single advertisement.
pub fn adapter_name(name: &LocalName) -> (needed: BlewResult<Option<String>>)
    ensures
        match name {
            LocalName::NoName => needed == Ok::<Option<String>, BlewError>(None),
            LocalName::Temporary(_) => needed matches Err(e) && e@
                == crate::error::ErrorView::LocalNameUnsupported,
            LocalName::AllowPermanent(text) => needed matches Ok(Some(t)) && t@ == text@,
        },
{
    match name {
        LocalName::NoName => Ok(None),
        LocalName::Temporary(_) => Err(BlewError::LocalNameUnsupported),
        LocalName::AllowPermanent(text) => Ok(Some(text.clone())),
    }
}

/// An advertisement, as it is handed to Kotlin.
pub struct AdvertisePlan {
    /// The name that the adapter is given first.
    pub adapter_name: Option<String>,
    pub service_uuids: Vec<String>,
}

/// `plan` is how an advertisement for `config` is handed to Kotlin.
pub open spec fn is_advertise_plan(plan: AdvertisePlan, config: AdvertisingConfig) -> bool {
    &&& super::central::are_uuid_texts(plan.service_uuids@, config.service_uuids@)
    &&& match plan.adapter_name {
        Some(text) => config.local_name matches LocalName::AllowPermanent(t) && text@ == t@,
        None => config.local_name is NoName,
    }
}

/// How an advertisement for `config` is handed to Kotlin.
pub fn advertise_plan(config: &AdvertisingConfig) -> (plan: BlewResult<AdvertisePlan>)
    ensures
        plan is Err <==> config.local_name is Temporary,
        match plan {
            Ok(p) => is_advertise_plan(p, *config),
            Err(e) => e@ == crate::error::ErrorView::LocalNameUnsupported,
        },
{
    match adapter_name(&config.local_name) {
        Err(e) => Err(e),
        Ok(name) => Ok(
            AdvertisePlan { adapter_name: name, service_uuids: uuid_texts(&config.service_uuids) },
        ),
    }
}

/// A start of the advertising that is about to be handed to Kotlin.
pub struct AdvertiseBegun {
    /// Which request it is.
    pub request_id: i32,
    /// What Kotlin is handed.
    pub plan: AdvertisePlan,
    /// Where its outcome arrives.
    pub reply: Reply<BlewResult<()>>,
}

/// Claim the advertising slot for a start with `config`. Refused while a start
/// is in flight or the advertising active, and for a name that Android cannot
/// give a single advertisement.
pub fn begin_advertising(state: &mut AdvertiseState, config: &AdvertisingConfig) -> (begun:
    BlewResult<AdvertiseBegun>)
    ensures
        begun is Ok <==> old(state)@.current is Idle && !(config.local_name is Temporary),
        match begun {
            Ok(b) => {
                &&& b.request_id == final(state)@.last
                &&& is_advertise_plan(b.plan, *config)
                &&& final(state)@.current matches Advertising::Starting(_, waiter)
                &&& waiter.channel() == b.reply.channel()
                &&& final(state)@ == old(state)@.register(waiter)
            },
            Err(e) => {
                &&& final(state)@ == old(state)@
                &&& e@ == (if old(state)@.current is Idle {
                    crate::error::ErrorView::LocalNameUnsupported
                } else {
                    crate::error::ErrorView::AlreadyAdvertising
                })
            },
        },
{
    if state.is_taken() {
        return Err(BlewError::AlreadyAdvertising);
    }
    match advertise_plan(config) {
        Err(e) => Err(e),
        Ok(plan) => match state.register() {
            Some((request_id, reply)) => Ok(AdvertiseBegun { request_id, plan, reply }),
            None => Err(BlewError::AlreadyAdvertising),
        },
    }
}

/// The start `request_id` ended with `result`: the answer to whoever waits for
/// it, unless it was stopped before.
pub fn advertising_started(
    state: &mut AdvertiseState,
    request_id: i32,
    result: BlewResult<()>,
) -> (answer: Option<Outgoing<BlewResult<()>>>)
    ensures
        final(state)@ == old(state)@.complete(request_id, result is Ok),
        answer == (match old(state)@.current {
            Advertising::Starting(id, to) if id == request_id => Some(
                Outgoing { to, value: result },
            ),
            _ => None,
        }),
{
    match state.complete(request_id, result.is_ok()) {
        Some(to) => Some(Outgoing { to, value: result }),
        None => None,
    }
}

/// Stop the advertising: the slot is free, and a start that was in flight is
/// answered rather than left waiting.
pub fn stop_advertising(state: &mut AdvertiseState) -> (answer: Option<Outgoing<BlewResult<()>>>)
    ensures
        final(state)@ == old(state)@.take(),
        match old(state)@.current {
            Advertising::Starting(_, to) => {
                &&& answer matches Some(out)
                &&& out.to == to
                &&& out.value matches Err(e)
                &&& e@ == (crate::error::ErrorView::Peripheral {
                    source: "advertising was stopped before it started"@,
                })
            },
            _ => answer is None,
        },
{
    match state.take() {
        Advertising::Starting(_, to) => Some(
            Outgoing {
                to,
                value: Err(
                    BlewError::Peripheral {
                        source: "advertising was stopped before it started".to_owned(),
                    },
                ),
            },
        ),
        _ => None,
    }
}

/// How long a notification may take, from the wait for its turn to the report
/// of the stack, in seconds.
pub const NOTIFY_TIMEOUT_SECS: u64 = 5;

/// How long a notification may take.
pub fn notify_timeout() -> (timeout: Duration)
    ensures
        timeout == crate::time::secs_duration(NOTIFY_TIMEOUT_SECS),
{
    seconds(NOTIFY_TIMEOUT_SECS)
}

/// How often a notification is tried while the previous one is in flight.
pub const NOTIFY_ATTEMPTS: u32 = 50;

/// How long to wait before a notification is tried again, in milliseconds.
pub const NOTIFY_RETRY_MILLIS: u64 = 5;

// Kotlin status codes returned from a notification.
pub const NOTIFY_SENT: i32 = 0;

pub const NOTIFY_BUSY: i32 = 1;

pub const NOTIFY_NO_SUBSCRIBER: i32 = 2;

pub const NOTIFY_NO_CHARACTERISTIC: i32 = 3;

/// What came of one attempt to send a notification.
#[derive(Debug, Clone, Copy, PartialEq, Eq, Structural)]
pub enum NotifyAttempt {
    /// The notification is over.
    Ended(Delivery),
    /// Wait, then try again.
    Retry,
}

/// The error that ends a notification with `status`, where it is one.
pub open spec fn notify_error(status: i32, char_uuid: u128) -> Option<crate::error::ErrorView> {
    if status == NOTIFY_SENT || status == NOTIFY_NO_SUBSCRIBER {
        None
    } else if status == NOTIFY_BUSY {
        Some(
            crate::error::ErrorView::Peripheral { source: "notification busy after retries"@ },
        )
    } else if status == NOTIFY_NO_CHARACTERISTIC {
        Some(crate::error::ErrorView::LocalCharacteristicNotFound { char_uuid })
    } else {
        Some(
            crate::error::ErrorView::Peripheral {
                source: "notify returned unknown status "@ + crate::text::signed_decimal(
                    status as int,
                ),
            },
        )
    }
}

/// Whether a notification whose attempt `attempt`, counted from zero, came back
/// with `status` is tried again: while the previous notification is in flight,
/// as long as attempts are left.
pub open spec fn retries(attempt: int, status: i32) -> bool {
    status == NOTIFY_BUSY && attempt + 1 < NOTIFY_ATTEMPTS
}

/// What Kotlin did with the value that attempt `attempt`, counted from zero,
/// handed it, where it came back with `status`. A value that the stack took is
/// in flight until the stack reports it. While the previous notification is in
/// flight the attempt is repeated, as long as attempts are left. Nobody
/// subscribed is not an error.
pub fn after_notify(attempt: u32, status: i32, char_uuid: Uuid) -> (handoff: Handoff<NotifyAttempt>)
    ensures
        match handoff {
            Handoff::Accepted(end) => status == NOTIFY_SENT && end == NotifyAttempt::Ended(
                Delivery::Sent,
            ),
            Handoff::Declined(Ok(NotifyAttempt::Retry)) => retries(attempt as int, status),
            Handoff::Declined(Ok(NotifyAttempt::Ended(delivery))) => status == NOTIFY_NO_SUBSCRIBER
                && delivery == Delivery::NoSubscriber,
            Handoff::Declined(Err(e)) => {
                &&& !retries(attempt as int, status)
                &&& notify_error(status, char_uuid@) == Some(e@)
            },
        },
{
    if status == NOTIFY_SENT {
        Handoff::Accepted(NotifyAttempt::Ended(Delivery::Sent))
    } else if status == NOTIFY_NO_SUBSCRIBER {
        Handoff::Declined(Ok(NotifyAttempt::Ended(Delivery::NoSubscriber)))
    } else if status == NOTIFY_BUSY {
        if attempt < NOTIFY_ATTEMPTS - 1 {
            Handoff::Declined(Ok(NotifyAttempt::Retry))
        } else {
            Handoff::Declined(
                Err(
                    BlewError::Peripheral { source: "notification busy after retries".to_owned() },
                ),
            )
        }
    } else if status == NOTIFY_NO_CHARACTERISTIC {
        Handoff::Declined(Err(BlewError::LocalCharacteristicNotFound { char_uuid }))
    } else {
        Handoff::Declined(
            Err(
                BlewError::Peripheral {
                    source: "notify returned unknown status ".to_owned().concat(
                        decimal_text(status as i128).as_str(),
                    ),
                },
            ),
        )
    }
}

/// How many attempts a notification has taken at its end, from attempt
/// `attempt` on, where attempt `i` comes back with `statuses[i]`.
pub open spec fn attempts_taken(statuses: Seq<i32>, attempt: int) -> int
    decreases NOTIFY_ATTEMPTS - attempt,
{
    if retries(attempt, statuses[attempt]) {
        attempts_taken(statuses, attempt + 1)
    } else {
        attempt + 1
    }
}

/// A notification is tried at most [`NOTIFY_ATTEMPTS`] times; all attempts but
/// the last found the previous notification in flight, and it fails as busy
/// only after the last.
pub proof fn law_notification_attempts_are_bounded(statuses: Seq<i32>, attempt: int)
    requires
        0 <= attempt < NOTIFY_ATTEMPTS,
    ensures
        ({
            let taken = attempts_taken(statuses, attempt);
            &&& attempt < taken <= NOTIFY_ATTEMPTS
            &&& forall|i: int| attempt <= i < taken - 1 ==> statuses[i] == NOTIFY_BUSY
            &&& statuses[taken - 1] == NOTIFY_BUSY ==> taken == NOTIFY_ATTEMPTS
        }),
    decreases NOTIFY_ATTEMPTS - attempt,
{
    if retries(attempt, statuses[attempt]) {
        law_notification_attempts_are_bounded(statuses, attempt + 1);
    }
}

/// What a caller of the L2CAP listener is told where the opening of the server
/// was never answered.
pub fn l2cap_server_cancelled() -> (error: BlewError)
    ensures
        error@ == crate::error::ErrorView::Internal("L2CAP server open cancelled"@),
{
    BlewError::Internal("L2CAP server open cancelled".to_owned())
}

/// A flag counts where it is set, and not where it is not.
pub proof fn law_a_flag_counts_where_it_is_set(flag: int)
    ensures
        bit_if(true, flag) == flag,
        bit_if(false, flag) == 0,
{
}

/// Android's permission bits tell each of the four permissions that it knows,
/// whatever the others are.
pub proof fn law_android_permissions_are_their_bits(perms: AttributePermissions, bits: u16)
    requires
        bits == bit_if(perms.has(AttributePermissions::READ), 0x01) + bit_if(
            perms.has(AttributePermissions::READ_ENCRYPTED),
            0x02,
        ) + bit_if(perms.has(AttributePermissions::WRITE), 0x10) + bit_if(
            perms.has(AttributePermissions::WRITE_ENCRYPTED),
            0x20,
        ),
    ensures
        bits % 2 == 1 <==> perms@ & 0x01 != 0,
        (bits / 2) % 2 == 1 <==> perms@ & 0x04 != 0,
        (bits / 16) % 2 == 1 <==> perms@ & 0x02 != 0,
        (bits / 32) % 2 == 1 <==> perms@ & 0x08 != 0,
        bits <= 0x33,
{
    let b = perms@;
    assert((b & 0x01u16 == 0x01u16) == (b & 0x01u16 != 0) && (b & 0x02u16 == 0x02u16) == (b
        & 0x02u16 != 0) && (b & 0x04u16 == 0x04u16) == (b & 0x04u16 != 0) && (b & 0x08u16
        == 0x08u16) == (b & 0x08u16 != 0)) by (bit_vector);
}

/// The first six properties are the bits that Android is handed, each where it
/// was, and the others are not.
pub proof fn law_android_properties_are_the_first_six(bits: u16)
    ensures
        bits & ANDROID_PROPERTY_MASK == bits % 64,
{
    assert(bits & 0x003fu16 == bits % 64) by (bit_vector);
}

/// An advertisement is handed over with one text for each service UUID, in
/// order, and with the name exactly where it may be left in place.
pub proof fn law_the_configuration_is_handed_over(
    plan: AdvertisePlan,
    config: AdvertisingConfig,
    i: int,
)
    requires
        is_advertise_plan(plan, config),
    ensures
        plan.service_uuids@.len() == config.service_uuids@.len(),
        0 <= i < plan.service_uuids@.len() ==> plan.service_uuids@[i]@ == crate::uuids::uuid_text(
            config.service_uuids@[i]@,
        ),
        plan.adapter_name is Some <==> config.local_name is AllowPermanent,
        config.local_name matches LocalName::AllowPermanent(name) ==> plan.adapter_name is Some
            && plan.adapter_name.unwrap()@ == name@,
{
}

/// A notification that was sent, or that nobody subscribed to, is no error;
/// everything else is, each with its own.
pub proof fn law_only_failures_are_errors(status: i32, char_uuid: u128)
    ensures
        notify_error(status, char_uuid) is None <==> status == 0 || status == 2,
        notify_error(1, char_uuid) is Some && notify_error(1, char_uuid).unwrap() is Peripheral,
        notify_error(3, char_uuid) == Some(
            (crate::error::ErrorView::LocalCharacteristicNotFound { char_uuid }),
        ),
        retries(0, 1) && !retries(49, 1) && !retries(0, 0) && !retries(0, 3),
{
}

} // verus!
