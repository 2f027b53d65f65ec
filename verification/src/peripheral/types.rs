//! Configuration, events and requests of the peripheral role.
use crate::l2cap::types::L2capConfig;
use crate::types::DeviceId;
use crate::util::reply::{reply_channel, Replier, Reply, Sent, SentLog, Waited};
use crate::uuids::Uuid;
use vstd::prelude::*;

verus! {

/// Configuration for initialising the peripheral role.
#[derive(Debug, Clone)]
pub struct PeripheralConfig {
    /// On Apple platforms, the identifier under which the app's background
    /// peripheral session is restored. Ignored on all other platforms.
    pub restore_identifier: Option<String>,
    /// Tuning applied to L2CAP channels accepted by this peripheral.
    pub l2cap: L2capConfig,
}

impl Default for PeripheralConfig {
    fn default() -> (config: Self)
        ensures
            config.restore_identifier is None,
            config.l2cap.is_default(),
    {
        PeripheralConfig { restore_identifier: None, l2cap: L2capConfig::default() }
    }
}

/// Non-request events from the peripheral role. Clone-able; multiple subscribers welcome.
#[derive(Debug, Clone)]
pub enum PeripheralStateEvent {
    /// The local Bluetooth adapter was powered on or off.
    AdapterStateChanged { powered: bool },
    /// A remote central subscribed to or unsubscribed from a characteristic's notifications.
    SubscriptionChanged { client_id: DeviceId, char_uuid: Uuid, subscribed: bool },
}

/// Inbound GATT requests from remote centrals.
///
/// Each variant carries an owned responder that must be consumed exactly once,
/// or dropped (which sends an ATT Application Error automatically).
pub enum PeripheralRequest {
    /// A remote central sent an ATT Read Request.
    Read {
        client_id: DeviceId,
        service_uuid: Uuid,
        char_uuid: Uuid,
        offset: u16,
        responder: ReadResponder,
    },
    /// A remote central sent an ATT Write Request or Write Command.
    /// `responder` is `Some` for Write Request (needs an ATT response) and
    /// `None` for Write Without Response.
    Write {
        client_id: DeviceId,
        service_uuid: Uuid,
        char_uuid: Uuid,
        /// Byte offset into the characteristic value at which `value` starts.
        ///
        /// Zero for an ordinary write. A central writing a payload larger than
        /// `MTU - 3` splits it across several requests with ascending offsets,
        /// so an application reassembling long writes must splice `value` in at
        /// `offset` rather than treating each request as a whole value.
        offset: u16,
        value: Vec<u8>,
        responder: Option<WriteResponder>,
    },
}

/// What is answered to a read: the value, or an ATT Application Error.
pub type ReadAnswer = Result<Vec<u8>, ()>;

/// The mathematical value of a responder.
#[verifier::reject_recursive_types(T)]
#[verifier::ext_equal]
pub struct ResponderView<T> {
    /// While no answer has been given: who is answered, and what they get where
    /// the responder is dropped.
    pub pending: Option<(Replier<T>, T)>,
    /// What was sent.
    pub sent: Seq<Sent<T>>,
}

impl<T> ResponderView<T> {
    /// `tx` is to be answered, with `error_value` where nothing else is.
    pub open spec fn new(tx: Replier<T>, error_value: T) -> Self {
        ResponderView { pending: Some((tx, error_value)), sent: Seq::empty() }
    }

    /// Who is answered, while no answer has been given.
    pub open spec fn asker(self) -> Option<Replier<T>> {
        match self.pending {
            Some((tx, _)) => Some(tx),
            None => None,
        }
    }

    /// What is answered where the responder is dropped.
    pub open spec fn drop_answer(self) -> Option<T> {
        match self.pending {
            Some((_, error_value)) => Some(error_value),
            None => None,
        }
    }

    /// The answer `value` has been given, unless one was before.
    pub open spec fn send(self, value: T, delivered: bool) -> Self {
        match self.pending {
            Some((to, _)) => ResponderView {
                pending: None,
                sent: self.sent.push(Sent { to, value, delivered }),
            },
            None => self,
        }
    }

    /// The responder has been dropped: the error value has been given, unless
    /// an answer was before.
    pub open spec fn dropped(self, delivered: bool) -> Self {
        match self.drop_answer() {
            Some(value) => self.send(value, delivered),
            None => self,
        }
    }

    /// Each of `answers` has been tried, in order: a value, and whether someone
    /// would take it.
    pub open spec fn after(self, answers: Seq<(T, bool)>) -> Self
        decreases answers.len(),
    {
        if answers.len() == 0 {
            self
        } else {
            self.after(answers.drop_last()).send(answers.last().0, answers.last().1)
        }
    }
}

/// Whatever is done with a responder before it is dropped -- any number of
/// answers, or none -- the asker gets exactly one answer: the first one given,
/// or the error value where none was.
pub proof fn law_exactly_one_answer<T>(
    tx: Replier<T>,
    error_value: T,
    answers: Seq<(T, bool)>,
    delivered: bool,
)
    ensures
        ({
            let end = ResponderView::new(tx, error_value).after(answers).dropped(delivered);
            &&& end.pending is None
            &&& end.sent == seq![
                if answers.len() > 0 {
                    Sent { to: tx, value: answers[0].0, delivered: answers[0].1 }
                } else {
                    Sent { to: tx, value: error_value, delivered }
                },
            ]
        }),
    decreases answers.len(),
{
    let start = ResponderView::new(tx, error_value);
    if answers.len() == 0 {
        assert(start.dropped(delivered).sent =~= seq![Sent { to: tx, value: error_value, delivered }]);
    } else if answers.len() == 1 {
        assert(start.after(answers.drop_last()) == start);
        assert(start.after(answers).sent =~= seq![
            Sent { to: tx, value: answers[0].0, delivered: answers[0].1 },
        ]);
    } else {
        law_exactly_one_answer(tx, error_value, answers.drop_last(), delivered);
        lemma_answered(tx, error_value, answers.drop_last());
    }
}

proof fn lemma_answered<T>(tx: Replier<T>, error_value: T, answers: Seq<(T, bool)>)
    requires
        answers.len() > 0,
    ensures
        ResponderView::new(tx, error_value).after(answers).pending is None,
    decreases answers.len(),
{
    let start = ResponderView::new(tx, error_value);
    if answers.len() == 1 {
        assert(start.after(answers.drop_last()) == start);
    } else {
        lemma_answered(tx, error_value, answers.drop_last());
    }
}

/// Who a request is answered to. It is answered once: with a value of the
/// application's, or with an error value where it is dropped unanswered.
#[verifier::reject_recursive_types(T)]
pub struct ResponderInner<T> {
    pending: Option<(Replier<T>, T)>,
    log: SentLog<T>,
}

impl<T> View for ResponderInner<T> {
    type V = ResponderView<T>;

    closed spec fn view(&self) -> ResponderView<T> {
        ResponderView { pending: self.pending, sent: self.log@ }
    }
}

impl<T> ResponderInner<T> {
    /// Answer to `tx`, with `error_value` if nothing else is answered before
    /// the drop.
    pub fn new(tx: Replier<T>, error_value: T) -> (responder: Self)
        ensures
            responder@ == ResponderView::new(tx, error_value),
    {
        ResponderInner { pending: Some((tx, error_value)), log: SentLog::new() }
    }

    /// Answer with `value`, if no answer was given before.
    pub fn send(&mut self, value: T)
        ensures
            final(self)@ == old(self)@.send(value, final(self)@.sent.last().delivered),
    {
        let mut pending = None;
        std::mem::swap(&mut pending, &mut self.pending);
        match pending {
            Some((tx, _)) => {
                tx.send(value, &mut self.log);
            },
            None => {},
        }
    }

    /// The record of what was sent.
    fn take_log(&mut self) -> (log: SentLog<T>)
        ensures
            log@ == old(self)@.sent,
            final(self)@.pending == old(self)@.pending,
    {
        let mut log = SentLog::new();
        std::mem::swap(&mut log, &mut self.log);
        log
    }
}

impl<T> Drop for ResponderInner<T> {
    fn drop(&mut self)
        ensures
            final(self)@ == old(self)@.dropped(final(self)@.sent.last().delivered),
        opens_invariants none
        no_unwind
    {
        let mut pending = None;
        std::mem::swap(&mut pending, &mut self.pending);
        match pending {
            Some((tx, error_value)) => {
                tx.send(error_value, &mut self.log);
            },
            None => {},
        }
    }
}

/// Owned handle for responding to a GATT read request.
///
/// Call [`respond`](Self::respond) to send a value or [`error`](Self::error) to send an ATT
/// Application Error. If this is dropped without being consumed, an ATT Application Error is
/// sent automatically.
pub struct ReadResponder(ResponderInner<ReadAnswer>);

impl View for ReadResponder {
    type V = ResponderView<ReadAnswer>;

    closed spec fn view(&self) -> ResponderView<ReadAnswer> {
        self.0@
    }
}

impl ReadResponder {
    /// Who is answered, while no answer has been given.
    pub open spec fn asker(self) -> Option<Replier<ReadAnswer>> {
        self@.asker()
    }

    /// What is answered where the responder is dropped.
    pub open spec fn drop_answer(self) -> Option<ReadAnswer> {
        self@.drop_answer()
    }

    /// Answer to `tx`.
    pub fn new(tx: Replier<ReadAnswer>) -> (responder: Self)
        ensures
            responder@ == ResponderView::new(tx, Err::<Vec<u8>, ()>(())),
    {
        ReadResponder(ResponderInner::new(tx, Err(())))
    }

    /// A responder, and where its answer arrives.
    pub fn channel() -> (halves: (Self, Reply<ReadAnswer>))
        ensures
            halves.0.asker() matches Some(tx) && tx.channel() == halves.1.channel() && halves.0@
                == ResponderView::new(tx, Err::<Vec<u8>, ()>(())),
    {
        let (tx, rx) = reply_channel();
        (ReadResponder::new(tx), rx)
    }

    /// Send `value` as the read response. The record of what was sent comes back.
    pub fn respond(self, value: Vec<u8>) -> (log: SentLog<ReadAnswer>)
        ensures
            log@ == self@.send(Ok::<Vec<u8>, ()>(value), log@.last().delivered).sent,
    {
        let mut this = self;
        this.0.send(Ok(value));
        this.0.take_log()
    }

    /// Send an ATT Application Error response. The record of what was sent comes back.
    pub fn error(self) -> (log: SentLog<ReadAnswer>)
        ensures
            log@ == self@.send(Err::<Vec<u8>, ()>(()), log@.last().delivered).sent,
    {
        let mut this = self;
        this.0.send(Err(()));
        this.0.take_log()
    }
}

/// Owned handle for acknowledging a GATT write request.
///
/// Call [`success`](Self::success) or [`error`](Self::error). Dropping without consuming
/// sends an error response automatically.
pub struct WriteResponder(ResponderInner<bool>);

impl View for WriteResponder {
    type V = ResponderView<bool>;

    closed spec fn view(&self) -> ResponderView<bool> {
        self.0@
    }
}

impl WriteResponder {
    /// Who is answered, while no answer has been given.
    pub open spec fn asker(self) -> Option<Replier<bool>> {
        self@.asker()
    }

    /// What is answered where the responder is dropped.
    pub open spec fn drop_answer(self) -> Option<bool> {
        self@.drop_answer()
    }

    /// Answer to `tx`.
    pub fn new(tx: Replier<bool>) -> (responder: Self)
        ensures
            responder@ == ResponderView::new(tx, false),
    {
        WriteResponder(ResponderInner::new(tx, false))
    }

    /// A responder, and where its answer arrives.
    pub fn channel() -> (halves: (Self, Reply<bool>))
        ensures
            halves.0.asker() matches Some(tx) && tx.channel() == halves.1.channel() && halves.0@
                == ResponderView::new(tx, false),
    {
        let (tx, rx) = reply_channel();
        (WriteResponder::new(tx), rx)
    }

    /// Acknowledge the write successfully. The record of what was sent comes back.
    pub fn success(self) -> (log: SentLog<bool>)
        ensures
            log@ == self@.send(true, log@.last().delivered).sent,
    {
        let mut this = self;
        this.0.send(true);
        this.0.take_log()
    }

    /// Send an ATT Application Error response. The record of what was sent comes back.
    pub fn error(self) -> (log: SentLog<bool>)
        ensures
            log@ == self@.send(false, log@.last().delivered).sent,
    {
        let mut this = self;
        this.0.send(false);
        this.0.take_log()
    }
}

/// What a central is told of its read, given what came of waiting for the
/// application's answer: the value, or an ATT error in every other case.
pub fn read_reply(waited: Waited<ReadAnswer>) -> (reply: ReadAnswer)
    ensures
        reply == (match waited {
            Waited::Answered(answer) => answer,
            _ => Err::<Vec<u8>, ()>(()),
        }),
{
    match waited {
        Waited::Answered(answer) => answer,
        Waited::Dropped => Err(()),
        Waited::TimedOut => Err(()),
    }
}

/// Whether a central's write succeeds, given what came of waiting for the
/// application's answer: only where it was acknowledged.
pub fn write_reply(waited: Waited<bool>) -> (success: bool)
    ensures
        success == (waited == Waited::Answered(true)),
{
    match waited {
        Waited::Answered(success) => success,
        Waited::Dropped => false,
        Waited::TimedOut => false,
    }
}

/// Configuration for a BLE advertisement.
///
/// Manufacturer-specific data is deliberately absent: an Apple peripheral
/// cannot advertise it at all.
#[derive(Debug, Clone)]
pub struct AdvertisingConfig {
    /// Name to advertise, and how long it may last. See [`LocalName`].
    pub local_name: LocalName,
    pub service_uuids: Vec<Uuid>,
}

impl Default for AdvertisingConfig {
    fn default() -> (config: Self)
        ensures
            config.local_name is NoName,
            config.service_uuids@.len() == 0,
    {
        AdvertisingConfig { local_name: LocalName::NoName, service_uuids: Vec::new() }
    }
}

/// Name to advertise, and how long its effects may last.
///
/// Apple and Linux put the name in the advertisement itself, so it lasts only
/// as long as the advertisement. Android can only rename the adapter, which
/// every other app and device sees, and which persists until something changes
/// it back; so the variants differ in how long the name is allowed to last.
///
/// | | `NoName` | `Temporary` | `AllowPermanent` |
/// |---|---|---|---|
/// | Apple | no name | name in the advertisement | as `Temporary` |
/// | Linux | no name | name in the advertisement | as `Temporary` |
/// | Android | no name | unsupported | adapter rename, left in place |
#[derive(Debug, Clone, PartialEq, Eq)]
pub enum LocalName {
    /// No name in the advertising data, which leaves its bytes for the service
    /// UUIDs; peers identify the peripheral by those.
    NoName,
    /// Advertise the name only in the advertisement, with no effect beyond it.
    ///
    /// Unsupported on Android, which has no way to name a single advertisement.
    Temporary(String),
    /// Advertise the name, even if a platform has to rename the whole device
    /// to do it, and leave that rename in place.
    AllowPermanent(String),
}

impl Default for LocalName {
    fn default() -> (name: Self)
        ensures
            name is NoName,
    {
        LocalName::NoName
    }
}

impl LocalName {
    /// The name to put on air, where both naming variants mean the same thing.
    pub open spec fn on_air(self) -> Option<Seq<char>> {
        match self {
            LocalName::NoName => None,
            LocalName::Temporary(name) => Some(name@),
            LocalName::AllowPermanent(name) => Some(name@),
        }
    }

    /// The name to put on air, for backends where both naming variants mean
    /// the same thing. Android distinguishes them, so it doesn't use this.
    pub fn name(&self) -> (name: Option<&str>)
        ensures
            match name {
                Some(text) => self.on_air() == Some(text@),
                None => self.on_air() is None,
            },
    {
        match self {
            LocalName::NoName => None,
            LocalName::Temporary(name) => Some(name.as_str()),
            LocalName::AllowPermanent(name) => Some(name.as_str()),
        }
    }
}

/// What became of a notification.
#[derive(Debug, Clone, Copy, PartialEq, Eq, Structural)]
pub enum Delivery {
    /// The value was handed to the platform for at least one subscriber.
    Sent,
    /// Nobody was subscribed.
    NoSubscriber,
}

/// What is on air is the name, however long it may last, and nothing where there
/// is none.
pub proof fn law_both_ways_of_naming_put_the_name_on_air(name: String)
    ensures
        LocalName::Temporary(name).on_air() == Some(name@),
        LocalName::AllowPermanent(name).on_air() == Some(name@),
        LocalName::NoName.on_air() is None,
{
}

} // verus!
