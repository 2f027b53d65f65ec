//! One notification send per device, held until the stack reports it.
//!
//! The Android stack takes one value per device until `onNotificationSent`, and
//! that callback names only the device, so a callback belongs to whichever
//! send is registered for the device when it arrives. That is only true while
//! no second send can register before the first one's callback or a
//! disconnect clears it. A send whose caller stopped waiting -- timed out, or
//! dropped -- therefore stays registered as *abandoned*, still holding the
//! device's gate, rather than being withdrawn.
use crate::error::{BlewError, BlewResult};
use crate::types::DeviceId;
use crate::util::key_map::KeyMap;
use crate::util::reply::{reply_channel, Outgoing, Replier, Reply, Sent, SentLog, Waited};
use std::sync::Arc;
use std::time::Duration;
use tokio::sync::{OwnedSemaphorePermit, Semaphore};
use vstd::prelude::*;

verus! {

/// `tokio::sync::Semaphore`, carried as an opaque value.
#[verifier::external_type_specification]
#[verifier::external_body]
pub struct ExSemaphore(Semaphore);

/// `tokio::sync::OwnedSemaphorePermit`, carried as an opaque value.
#[verifier::external_type_specification]
#[verifier::external_body]
pub struct ExOwnedSemaphorePermit(OwnedSemaphorePermit);

/// A device's gate: whoever sends to the device holds one of its permits.
struct Gate {
    semaphore: Arc<Semaphore>,
    permits: Ghost<usize>,
}

/// `tokio::sync::Semaphore::new`: a semaphore with `permits` permits, none of
/// them taken. It panics for more permits than it can count.
#[verifier::external_body]
fn new_gate(permits: usize) -> (gate: Gate)
    requires
        permits <= usize::MAX / 8,
    ensures
        gate.permits@ == permits,
{
    Gate { semaphore: Arc::new(Semaphore::new(permits)), permits: Ghost(permits) }
}

/// A record, for contracts only, of how many held a semaphore when they were
/// counted.
pub struct CountLog {
    counts: Ghost<Seq<(Semaphore, usize)>>,
}

impl View for CountLog {
    type V = Seq<(Semaphore, usize)>;

    closed spec fn view(&self) -> Seq<(Semaphore, usize)> {
        self.counts@
    }
}

/// `std::sync::Arc::strong_count`: how many hold this semaphore now, this holder
/// included. Other threads decide how many those are; `log` records the count.
#[verifier::external_body]
fn holders(semaphore: &Arc<Semaphore>, log: &mut CountLog) -> (count: usize)
    ensures
        count >= 1,
        final(log)@ == old(log)@.push((**semaphore, count)),
{
    Arc::strong_count(semaphore)
}

/// `Duration`'s `Debug` form.
pub uninterp spec fn duration_text(duration: Duration) -> Seq<char>;

/// `std::time::Duration`'s `Debug`: the duration in words.
#[verifier::external_body]
fn write_duration(duration: Duration) -> (text: String)
    ensures
        text@ == duration_text(duration),
{
    format!("{duration:?}")
}

/// What the platform did with a value it was handed.
pub enum Handoff<T> {
    /// The stack took the value. Its callback, or a disconnect, resolves the
    /// send, which then returns `T` on success.
    Accepted(T),
    /// The stack didn't take the value, so no callback will follow.
    Declined(BlewResult<T>),
}

struct Device {
    gate: Gate,
    in_flight: Option<InFlight>,
}

struct InFlight {
    token: u64,
    /// `None` once the caller stopped waiting.
    waiter: Option<Replier<BlewResult<()>>>,
    permit: OwnedSemaphorePermit,
}

/// The mathematical value of a registered send.
pub struct FlightView {
    /// Which send this is.
    pub token: u64,
    /// Who waits for it; nobody once it is abandoned.
    pub waiter: Option<Replier<BlewResult<()>>>,
    /// The permit it holds.
    pub permit: OwnedSemaphorePermit,
}

/// The mathematical value of a device that something is sent to.
pub struct DeviceView {
    /// The device's gate.
    pub gate: Semaphore,
    /// How many sends it lets through at a time.
    pub permits: usize,
    /// The send that is registered.
    pub in_flight: Option<FlightView>,
}

impl View for InFlight {
    type V = FlightView;

    closed spec fn view(&self) -> FlightView {
        FlightView { token: self.token, waiter: self.waiter, permit: self.permit }
    }
}

impl View for Device {
    type V = DeviceView;

    closed spec fn view(&self) -> DeviceView {
        DeviceView {
            gate: *self.gate.semaphore,
            permits: self.gate.permits@,
            in_flight: match self.in_flight {
                Some(flight) => Some(flight@),
                None => None,
            },
        }
    }
}

/// The mathematical value of [`NotifyGates`].
#[verifier::ext_equal]
pub struct GatesView {
    /// The token that the next send gets.
    pub next_token: u64,
    /// The devices that something is sent to, by address.
    pub devices: Map<Seq<char>, DeviceView>,
}

impl GatesView {
    /// The send `token` is registered for `addr`.
    pub open spec fn registered(self, addr: Seq<char>, token: u64) -> bool {
        &&& self.devices.contains_key(addr)
        &&& self.devices[addr].in_flight matches Some(flight)
        &&& flight.token == token
    }

    /// Nothing is sent to `addr`.
    pub open spec fn idle(self, addr: Seq<char>) -> bool {
        self.devices.contains_key(addr) && self.devices[addr].in_flight is None
    }

    /// Who waits for the send that is registered for `addr`.
    pub open spec fn waiter(self, addr: Seq<char>) -> Option<Replier<BlewResult<()>>> {
        if self.devices.contains_key(addr) {
            match self.devices[addr].in_flight {
                Some(flight) => flight.waiter,
                None => None,
            }
        } else {
            None
        }
    }

    /// `addr` has been given the device `device`, unless it had one.
    pub open spec fn known(self, addr: Seq<char>, device: DeviceView) -> Self {
        if self.devices.contains_key(addr) {
            self
        } else {
            GatesView { devices: self.devices.insert(addr, device), ..self }
        }
    }

    /// What is registered for `addr` has been replaced.
    pub open spec fn with_flight(self, addr: Seq<char>, in_flight: Option<FlightView>) -> Self {
        GatesView {
            devices: self.devices.insert(addr, DeviceView { in_flight, ..self.devices[addr] }),
            ..self
        }
    }

    /// A send has been registered for the known device `addr`.
    pub open spec fn begin(
        self,
        addr: Seq<char>,
        waiter: Replier<BlewResult<()>>,
        permit: OwnedSemaphorePermit,
    ) -> Self {
        GatesView {
            next_token: (self.next_token + 1) as u64,
            ..self.with_flight(
                addr,
                Some(FlightView { token: self.next_token, waiter: Some(waiter), permit }),
            )
        }
    }

    /// The send `token` has been cleared, if it was registered.
    pub open spec fn withdraw(self, addr: Seq<char>, token: u64) -> Self {
        if self.registered(addr, token) {
            self.with_flight(addr, None)
        } else {
            self
        }
    }

    /// The caller of the send `token` has stopped waiting.
    pub open spec fn abandon(self, addr: Seq<char>, token: u64) -> Self {
        if self.registered(addr, token) {
            self.with_flight(
                addr,
                Some(FlightView { waiter: None, ..self.devices[addr].in_flight.unwrap() }),
            )
        } else {
            self
        }
    }

    /// Whatever was registered for `addr` has been cleared.
    pub open spec fn clear(self, addr: Seq<char>) -> Self {
        if self.devices.contains_key(addr) && self.devices[addr].in_flight is Some {
            self.with_flight(addr, None)
        } else {
            self
        }
    }

    /// A whole send to `addr` has gone as `run` says.
    pub open spec fn send(self, addr: Seq<char>, run: SendRun) -> Self {
        match run {
            SendRun::GateTimedOut { holders } => self.forget(addr, holders),
            SendRun::GateClosed => self,
            SendRun::Declined { device, waiter, permit, holders } => self.known(addr, device).begin(
                addr,
                waiter,
                permit,
            ).withdraw(addr, self.next_token).forget(addr, holders),
            SendRun::Reported { device, waiter, permit, holders } => self.known(addr, device).begin(
                addr,
                waiter,
                permit,
            ).clear(addr).forget(addr, holders).abandon(addr, self.next_token),
            SendRun::GaveUp { device, waiter, permit } => self.known(addr, device).begin(
                addr,
                waiter,
                permit,
            ).abandon(addr, self.next_token),
        }
    }

    /// `addr` has been forgotten, if it is idle and `holders`, the number of
    /// holders of its gate, is one: the device itself.
    pub open spec fn forget(self, addr: Seq<char>, holders: usize) -> Self {
        if self.idle(addr) && holders == 1 {
            GatesView { devices: self.devices.remove(addr), ..self }
        } else {
            self
        }
    }
}

/// How a whole send goes while nothing else concerns its device: from the wait
/// for its turn to what the caller is told.
pub enum SendRun {
    /// Its time passed while it waited for its turn; so many held the semaphore then.
    GateTimedOut { holders: usize },
    /// The semaphore was closed.
    GateClosed,
    /// It had its turn, and the platform declined the value that it was handed.
    Declined {
        device: DeviceView,
        waiter: Replier<BlewResult<()>>,
        permit: OwnedSemaphorePermit,
        holders: usize,
    },
    /// It had its turn, the platform took the value, and reported it in time;
    /// so many held the semaphore then.
    Reported {
        device: DeviceView,
        waiter: Replier<BlewResult<()>>,
        permit: OwnedSemaphorePermit,
        holders: usize,
    },
    /// It had its turn, the platform took the value, and the caller stopped
    /// waiting for the report.
    GaveUp { device: DeviceView, waiter: Replier<BlewResult<()>>, permit: OwnedSemaphorePermit },
}

impl SendRun {
    /// The platform was handed the value.
    pub open spec fn hands_off(self) -> bool {
        self is Declined || self is Reported || self is GaveUp
    }
}

/// The sends in flight, one per device.
pub struct NotifyGates {
    devices: KeyMap<String, Device>,
    next_token: u64,
    told: SentLog<BlewResult<()>>,
    counted: CountLog,
}

impl View for NotifyGates {
    type V = GatesView;

    closed spec fn view(&self) -> GatesView {
        GatesView {
            next_token: self.next_token,
            devices: self.devices@.map_values(|d: Device| d@),
        }
    }
}

impl Default for NotifyGates {
    fn default() -> (gates: Self)
        ensures
            gates@ == (GatesView { next_token: 0, devices: Map::empty() }),
            gates.told() == Seq::<Sent<BlewResult<()>>>::empty(),
            gates.counted() == Seq::<(Semaphore, usize)>::empty(),
    {
        let gates = NotifyGates {
            devices: KeyMap::new(),
            next_token: 0,
            told: SentLog::new(),
            counted: CountLog { counts: Ghost(Seq::empty()) },
        };
        assert(gates@.devices =~= Map::empty());
        gates
    }
}

impl NotifyGates {
    /// What those who waited for a send were told, in order.
    pub closed spec fn told(self) -> Seq<Sent<BlewResult<()>>> {
        self.told@
    }

    /// The gates whose holders were counted, and how many they were, in order.
    pub closed spec fn counted(self) -> Seq<(Semaphore, usize)> {
        self.counted@
    }

    /// Since `before`, when they were `freed`, those who hold the semaphore of
    /// `addr` were counted, and `addr` was forgotten if it was idle and the
    /// count was one.
    pub open spec fn tidied(self, before: Self, freed: GatesView, addr: Seq<char>) -> bool {
        if freed.devices.contains_key(addr) {
            let count = self.counted().last().1;
            &&& count >= 1
            &&& self.counted() == before.counted().push((freed.devices[addr].gate, count))
            &&& self@ == freed.forget(addr, count)
        } else {
            self.counted() == before.counted() && self@ == freed
        }
    }

    /// The token that the next send gets.
    pub fn next_token(&self) -> (token: u64)
        ensures
            token == self@.next_token,
    {
        self.next_token
    }

    /// Whether a send is registered for `addr`.
    pub fn is_busy(&self, addr: &str) -> (busy: bool)
        ensures
            busy == (self@.devices.contains_key(addr@) && !self@.idle(addr@)),
    {
        match self.devices.get(addr) {
            Some(device) => device.in_flight.is_some(),
            None => false,
        }
    }

    /// Whether the send registered for `addr` has been abandoned.
    pub fn is_abandoned(&self, addr: &str) -> (abandoned: bool)
        ensures
            abandoned == (self@.devices.contains_key(addr@) && (self@.devices[addr@].in_flight
                matches Some(flight) && flight.waiter is None)),
    {
        match self.devices.get(addr) {
            Some(device) => match &device.in_flight {
                Some(flight) => flight.waiter.is_none(),
                None => false,
            },
            None => false,
        }
    }

    /// Whether `addr` is known: something is sent to it, or waits to be.
    pub fn knows(&self, addr: &str) -> (known: bool)
        ensures
            known == self@.devices.contains_key(addr@),
    {
        self.devices.contains_key(addr)
    }

    /// Make `addr` known, with a gate for one send at a time.
    fn device(&mut self, addr: &str)
        ensures
            final(self).told() == old(self).told(),
            final(self).counted() == old(self).counted(),
            final(self)@.devices.contains_key(addr@),
            final(self)@ == old(self)@.known(addr@, final(self)@.devices[addr@]),
            !old(self)@.devices.contains_key(addr@) ==> final(self)@.devices[addr@].permits == 1
                && final(self)@.devices[addr@].in_flight is None,
    {
        if !self.devices.contains_key(addr) {
            let device = Device { gate: new_gate(1), in_flight: None };
            let ghost view = device@;
            self.devices.insert(addr.to_owned(), device);
            assert(self@.devices =~= old(self)@.devices.insert(addr@, view));
        }
    }

    /// The semaphore of `addr`, to acquire a permit from before a send begins.
    pub fn gate(&mut self, addr: &str) -> (gate: Arc<Semaphore>)
        ensures
            final(self).told() == old(self).told(),
            final(self).counted() == old(self).counted(),
            final(self)@.devices.contains_key(addr@),
            *gate == final(self)@.devices[addr@].gate,
            final(self)@ == old(self)@.known(addr@, final(self)@.devices[addr@]),
            !old(self)@.devices.contains_key(addr@) ==> final(self)@.devices[addr@].permits == 1
                && final(self)@.devices[addr@].in_flight is None,
    {
        self.device(addr);
        match self.devices.get(addr) {
            Some(device) => device.gate.semaphore.clone(),
            None => new_gate(1).semaphore,
        }
    }

    /// Register a send for `addr`, to be reported to `waiter`.
    pub fn begin_for(
        &mut self,
        addr: &str,
        permit: OwnedSemaphorePermit,
        waiter: Replier<BlewResult<()>>,
    ) -> (token: u64)
        requires
            old(self)@.next_token < u64::MAX,
        ensures
            final(self).told() == old(self).told(),
            final(self).counted() == old(self).counted(),
            token == old(self)@.next_token,
            final(self)@.devices.contains_key(addr@),
            exists|device: DeviceView|
                {
                    &&& device.permits == 1 && device.in_flight is None
                    &&& final(self)@ == #[trigger] old(self)@.known(addr@, device).begin(
                        addr@,
                        waiter,
                        permit,
                    )
                },
    {
        self.device(addr);
        let ghost known = self@;
        let token: u64 = self.next_token;
        self.next_token = self.next_token + 1;
        match self.devices.remove(addr) {
            None => {},
            Some(mut device) => {
                assert(device@ == known.devices[addr@]);
                device.in_flight = Some(InFlight { token, waiter: Some(waiter), permit });
                let ghost view = device@;
                self.devices.insert(addr.to_owned(), device);
                proof {
                    let flight = FlightView { token, waiter: Some(waiter), permit };
                    assert(view == DeviceView { in_flight: Some(flight), ..known.devices[addr@] });
                    assert(self@.devices =~= known.devices.insert(addr@, view));
                    let fresh = if old(self)@.devices.contains_key(addr@) {
                        DeviceView { gate: known.devices[addr@].gate, permits: 1, in_flight: None }
                    } else {
                        known.devices[addr@]
                    };
                    assert(known == old(self)@.known(addr@, fresh));
                    assert(self@ == old(self)@.known(addr@, fresh).begin(addr@, waiter, permit));
                }
            },
        }
        token
    }

    /// Register a send for `addr`. Called before the value is handed to the
    /// platform, whose callback can arrive before the hand-off returns. The
    /// permit guarantees that no other send is registered.
    pub fn begin(&mut self, addr: &str, permit: OwnedSemaphorePermit) -> (begun: (
        u64,
        Reply<BlewResult<()>>,
    ))
        requires
            old(self)@.next_token < u64::MAX,
        ensures
            final(self).told() == old(self).told(),
            final(self).counted() == old(self).counted(),
            begun.0 == old(self)@.next_token,
            final(self)@.registered(addr@, begun.0),
            final(self)@.devices[addr@].in_flight.unwrap().waiter matches Some(waiter)
                && waiter.channel() == begun.1.channel() && exists|device: DeviceView|
                {
                    &&& device.permits == 1 && device.in_flight is None
                    &&& final(self)@ == #[trigger] old(self)@.known(addr@, device).begin(
                        addr@,
                        waiter,
                        permit,
                    )
                },
    {
        let (tx, rx) = reply_channel();
        let token: u64 = self.begin_for(addr, permit, tx);
        assert(self@.devices[addr@].in_flight == Some(
            FlightView { token, waiter: Some(tx), permit },
        ));
        (token, rx)
    }

    /// Clear a send the platform never took, releasing its permit.
    pub fn withdraw(&mut self, addr: &str, token: u64)
        ensures
            final(self).told() == old(self).told(),
            final(self).tidied(*old(self), old(self)@.withdraw(addr@, token), addr@),
    {
        self.clear_token(addr, token);
        self.forget_if_idle(addr);
    }

    /// Clear the send `token`, if it is registered for `addr`.
    pub fn clear_token(&mut self, addr: &str, token: u64)
        ensures
            final(self).told() == old(self).told(),
            final(self).counted() == old(self).counted(),
            final(self)@ == old(self)@.withdraw(addr@, token),
    {
        let ghost before = self@.devices;
        match self.devices.remove(addr) {
            None => {
                assert(self@.devices =~= before);
            },
            Some(mut device) => {
                assert(device@ == before[addr@]);
                let registered = match &device.in_flight {
                    Some(flight) => flight.token == token,
                    None => false,
                };
                if registered {
                    device.in_flight = None;
                }
                let ghost view = device@;
                self.devices.insert(addr.to_owned(), device);
                assert(self@.devices =~= before.insert(addr@, view));
                assert(!registered ==> self@.devices =~= before);
            },
        }
    }

    /// The caller stopped waiting. The send stays registered, holding its permit,
    /// until its callback or a disconnect.
    pub fn abandon(&mut self, addr: &str, token: u64)
        ensures
            final(self).told() == old(self).told(),
            final(self).counted() == old(self).counted(),
            final(self)@ == old(self)@.abandon(addr@, token),
    {
        let ghost before = self@.devices;
        match self.devices.remove(addr) {
            None => {
                assert(self@.devices =~= before);
            },
            Some(mut device) => {
                assert(device@ == before[addr@]);
                match device.in_flight.take() {
                    None => {},
                    Some(mut flight) => {
                        if flight.token == token {
                            flight.waiter = None;
                        }
                        device.in_flight = Some(flight);
                    },
                }
                let ghost view = device@;
                self.devices.insert(addr.to_owned(), device);
                assert(self@.devices =~= before.insert(addr@, view));
                assert(view == before[addr@] ==> self@.devices =~= before);
            },
        }
    }

    /// Clear whatever is registered for `addr`: what is to be delivered, if
    /// somebody waits for it.
    pub fn take_completed(&mut self, addr: &str, result: BlewResult<()>) -> (delivery: Option<
        Outgoing<BlewResult<()>>,
    >)
        ensures
            final(self).told() == old(self).told(),
            final(self).counted() == old(self).counted(),
            final(self)@ == old(self)@.clear(addr@),
            delivery == (match old(self)@.waiter(addr@) {
                Some(waiter) => Some(Outgoing { to: waiter, value: result }),
                None => None,
            }),
    {
        let ghost before = self@.devices;
        match self.devices.remove(addr) {
            None => {
                assert(self@.devices =~= before);
                None
            },
            Some(mut device) => {
                assert(device@ == before[addr@]);
                let flight = device.in_flight.take();
                let ghost view = device@;
                self.devices.insert(addr.to_owned(), device);
                assert(self@.devices =~= before.insert(addr@, view));
                assert(view == before[addr@] ==> self@.devices =~= before);
                match flight {
                    None => None,
                    Some(flight) => match flight.waiter {
                        Some(waiter) => Some(Outgoing { to: waiter, value: result }),
                        None => None,
                    },
                }
            },
        }
    }

    /// The platform reported the send registered for `addr`. An abandoned send
    /// is cleared without a result.
    pub fn complete(&mut self, addr: &str, result: BlewResult<()>)
        ensures
            final(self).tidied(*old(self), old(self)@.clear(addr@), addr@),
            match old(self)@.waiter(addr@) {
                Some(waiter) => crate::util::reply::adds_answer(
                    old(self).told(),
                    final(self).told(),
                    waiter,
                    result,
                ),
                None => final(self).told() == old(self).told(),
            },
    {
        match self.take_completed(addr, result) {
            Some(delivery) => {
                delivery.send(&mut self.told);
            },
            None => {},
        }
        self.forget_if_idle(addr);
    }

    /// The device disconnected, so no callback will arrive for its send.
    pub fn disconnect(&mut self, addr: &str)
        ensures
            final(self).tidied(*old(self), old(self)@.clear(addr@), addr@),
            match old(self)@.waiter(addr@) {
                Some(waiter) => {
                    let last = final(self).told().last();
                    &&& final(self).told() == old(self).told().push(last)
                    &&& last.to == waiter
                    &&& last.value matches Err(e)
                    &&& e@ == crate::error::ErrorView::DisconnectedDuringOperation(addr@)
                },
                None => final(self).told() == old(self).told(),
            },
    {
        self.complete(addr, disconnected(addr));
    }

    /// Forget `addr` if nothing is sent to it and its gate has one holder.
    pub fn forget_at(&mut self, addr: &str, holders: usize)
        ensures
            final(self).told() == old(self).told(),
            final(self).counted() == old(self).counted(),
            final(self)@ == old(self)@.forget(addr@, holders),
    {
        if holders == 1 && self.devices.contains_key(addr) && !self.is_busy(addr) {
            self.devices.remove(addr);
            assert(self@.devices =~= old(self)@.devices.remove(addr@));
        }
    }

    /// Forget a device nothing is sending to or waiting on. Clones of its gate
    /// are only taken under the lock this is called under.
    pub fn forget_if_idle(&mut self, addr: &str)
        ensures
            final(self).told() == old(self).told(),
            final(self).tidied(*old(self), old(self)@, addr@),
    {
        match self.devices.get(addr) {
            Some(device) => {
                let count: usize = holders(&device.gate.semaphore, &mut self.counted);
                self.forget_at(addr, count);
            },
            None => {},
        }
    }
}

/// What the send to a device that disconnected is told.
pub fn disconnected(addr: &str) -> (result: BlewResult<()>)
    ensures
        result matches Err(e) && e@ == crate::error::ErrorView::DisconnectedDuringOperation(addr@),
{
    Err(BlewError::DisconnectedDuringOperation(DeviceId::from(addr)))
}

/// What a send is told that did not complete within `timeout`.
pub fn timed_out(timeout: Duration) -> (error: BlewError)
    ensures
        error@ == (crate::error::ErrorView::Peripheral {
            source: "notification did not complete within "@ + duration_text(timeout),
        }),
{
    BlewError::Peripheral {
        source: "notification did not complete within ".to_owned().concat(
            write_duration(timeout).as_str(),
        ),
    }
}

/// What came of waiting for a device's gate.
pub enum GateWait {
    /// The send holds a permit.
    Acquired(OwnedSemaphorePermit),
    /// The semaphore was closed.
    Closed,
    /// The time allowed for the send passed first.
    TimedOut,
}

/// A send that waited for its turn at `addr` begins, or fails without
/// registering anything. Where it ran out of time, the device is forgotten if
/// nothing else concerns it.
pub fn enter(gates: &mut NotifyGates, addr: &str, waited: GateWait, timeout: Duration) -> (entered:
    BlewResult<(u64, Reply<BlewResult<()>>)>)
    requires
        waited is Acquired ==> old(gates)@.next_token < u64::MAX,
    ensures
        final(gates).told() == old(gates).told(),
        match waited {
            GateWait::Acquired(permit) => {
                &&& final(gates).counted() == old(gates).counted()
                &&& entered matches Ok((token, reply))
                &&& token == old(gates)@.next_token
                &&& final(gates)@.registered(addr@, token)
                &&& final(gates)@.devices[addr@].in_flight.unwrap().waiter matches Some(waiter)
                &&& waiter.channel() == reply.channel()
                &&& exists|device: DeviceView|
                    {
                        &&& device.permits == 1 && device.in_flight is None
                        &&& final(gates)@ == #[trigger] old(gates)@.known(addr@, device).begin(
                            addr@,
                            waiter,
                            permit,
                        )
                    }
            },
            GateWait::Closed => {
                &&& entered matches Err(e)
                &&& e@ == crate::error::ErrorView::Internal("notification gate closed"@)
                &&& final(gates)@ == old(gates)@
                &&& final(gates).counted() == old(gates).counted()
            },
            GateWait::TimedOut => {
                &&& entered matches Err(e)
                &&& e@ == (crate::error::ErrorView::Peripheral {
                    source: "notification did not complete within "@ + duration_text(timeout),
                })
                &&& final(gates).tidied(*old(gates), old(gates)@, addr@)
            },
        },
{
    match waited {
        GateWait::Acquired(permit) => Ok(gates.begin(addr, permit)),
        GateWait::Closed => Err(BlewError::Internal("notification gate closed".to_owned())),
        GateWait::TimedOut => {
            gates.forget_if_idle(addr);
            Err(timed_out(timeout))
        },
    }
}

/// The platform was handed the value of the send `token`. A value it took
/// leaves the send registered; one it declined clears it at once, and the
/// send ends with what the platform said.
pub fn handed_off<T>(gates: &mut NotifyGates, addr: &str, token: u64, handoff: Handoff<T>) -> (
outcome: Result<T, BlewResult<T>>)
    ensures
        final(gates).told() == old(gates).told(),
        match handoff {
            Handoff::Accepted(value) => outcome == Ok::<T, BlewResult<T>>(value) && final(gates)@
                == old(gates)@ && final(gates).counted() == old(gates).counted(),
            Handoff::Declined(result) => {
                &&& outcome == Err::<T, BlewResult<T>>(result)
                &&& final(gates).tidied(*old(gates), old(gates)@.withdraw(addr@, token), addr@)
            },
        },
{
    match handoff {
        Handoff::Accepted(value) => Ok(value),
        Handoff::Declined(result) => {
            gates.withdraw(addr, token);
            Err(result)
        },
    }
}

/// A send that the platform took ends, with what came of waiting for its
/// report. Unless the send was reported or withdrawn before, it stays
/// registered, abandoned.
pub fn leave<T>(
    gates: &mut NotifyGates,
    addr: &str,
    token: u64,
    waited: Waited<BlewResult<()>>,
    value: T,
    timeout: Duration,
) -> (result: BlewResult<T>)
    ensures
        final(gates).told() == old(gates).told(),
        final(gates).counted() == old(gates).counted(),
        final(gates)@ == old(gates)@.abandon(addr@, token),
        match waited {
            Waited::Answered(Ok(())) => result == Ok::<T, BlewError>(value),
            Waited::Answered(Err(e)) => result == Err::<T, BlewError>(e),
            Waited::Dropped => result matches Err(e) && e@ == crate::error::ErrorView::Internal(
                "peripheral shut down before the notification completed"@,
            ),
            Waited::TimedOut => result matches Err(e) && e@ == (
            crate::error::ErrorView::Peripheral {
                source: "notification did not complete within "@ + duration_text(timeout),
            }),
        },
{
    gates.abandon(addr, token);
    match waited {
        Waited::Answered(Ok(())) => Ok(value),
        Waited::Answered(Err(e)) => Err(e),
        Waited::Dropped => Err(
            BlewError::Internal(
                "peripheral shut down before the notification completed".to_owned(),
            ),
        ),
        Waited::TimedOut => Err(timed_out(timeout)),
    }
}

/// A token that is not registered withdraws and abandons nothing.
pub proof fn law_stale_tokens_change_nothing(state: GatesView, addr: Seq<char>, token: u64)
    requires
        !state.registered(addr, token),
    ensures
        state.withdraw(addr, token) == state,
        state.abandon(addr, token) == state,
{
}

/// An abandoned send stays registered under its token and keeps its permit, so
/// that the next report for the device is still taken to be its own; the
/// report then clears it and reaches nobody.
pub proof fn law_abandoned_send_keeps_the_gate(state: GatesView, addr: Seq<char>, token: u64)
    requires
        state.registered(addr, token),
    ensures
        state.abandon(addr, token).registered(addr, token),
        state.abandon(addr, token).devices[addr].in_flight.unwrap().permit
            == state.devices[addr].in_flight.unwrap().permit,
        state.abandon(addr, token).devices[addr].in_flight.unwrap().waiter is None,
        state.abandon(addr, token).clear(addr).idle(addr),
{
}

/// A send that runs out of time while it waits for a device to which an earlier
/// one was handed over hands nothing over and registers nothing: the earlier send is
/// still the one registered, waited for by whoever waited for it, and the next
/// report for the device belongs to it.
pub proof fn law_send_that_times_out_at_the_gate_does_nothing(
    state: GatesView,
    addr: Seq<char>,
    token: u64,
    holders: usize,
)
    requires
        state.registered(addr, token),
    ensures
        ({
            let run = SendRun::GateTimedOut { holders };
            let after = state.send(addr, run);
            &&& !run.hands_off()
            &&& after == state
            &&& after.registered(addr, token)
            &&& after.waiter(addr) == state.waiter(addr)
            &&& after.clear(addr) == state.clear(addr)
        }),
{
}

/// A send that the platform took and reported in time, or declined, leaves
/// nothing registered: where nobody else holds the semaphore, its device is
/// forgotten, and other devices are as they were.
pub proof fn law_finished_send_leaves_no_trace(
    state: GatesView,
    addr: Seq<char>,
    run: SendRun,
    other: Seq<char>,
)
    requires
        run is Reported || run is Declined,
        state.next_token < u64::MAX,
        other != addr,
    ensures
        ({
            let after = state.send(addr, run);
            let holders = match run {
                SendRun::Reported { holders, .. } => holders,
                SendRun::Declined { holders, .. } => holders,
                _ => 0,
            };
            &&& run.hands_off()
            &&& after.devices.contains_key(addr) <==> holders != 1
            &&& holders != 1 ==> after.idle(addr)
            &&& after.waiter(addr) is None
            &&& after.devices.contains_key(other) == state.devices.contains_key(other)
            &&& state.devices.contains_key(other) ==> after.devices[other] == state.devices[other]
        }),
{
}

/// A send that was handed over stays registered after its caller gave up, and
/// keeps doing so while later ones run out of time before their turn:
/// whatever was registered before them still is.
pub proof fn law_abandoned_send_outlasts_later_ones(
    state: GatesView,
    addr: Seq<char>,
    run: SendRun,
    holders: usize,
)
    requires
        run is GaveUp,
        state.next_token < u64::MAX,
    ensures
        ({
            let gave_up = state.send(addr, run);
            &&& gave_up.registered(addr, state.next_token)
            &&& gave_up.waiter(addr) is None
            &&& gave_up.send(addr, SendRun::GateTimedOut { holders }) == gave_up
        }),
{
}

/// A report, a disconnect and a withdrawal free the device, and a device that
/// nothing concerns any more is forgotten.
pub proof fn law_resolved_send_leaves_nothing(state: GatesView, addr: Seq<char>, token: u64)
    requires
        state.registered(addr, token),
    ensures
        state.clear(addr).idle(addr),
        state.withdraw(addr, token).idle(addr),
        !state.clear(addr).forget(addr, 1).devices.contains_key(addr),
        !state.withdraw(addr, token).forget(addr, 1).devices.contains_key(addr),
{
}

/// A device is never forgotten while a send to it is registered or its gate is
/// held by someone else.
pub proof fn law_used_device_is_not_forgotten(state: GatesView, addr: Seq<char>, holders: usize)
    requires
        state.devices.contains_key(addr),
        !state.idle(addr) || holders != 1,
    ensures
        state.forget(addr, holders) == state,
{
}

/// What happens to one device leaves the sends to all others as they are, and
/// only the start of a send uses up a token.
pub proof fn law_other_sends_are_untouched(
    state: GatesView,
    addr: Seq<char>,
    token: u64,
    holders: usize,
    device: DeviceView,
    waiter: Replier<BlewResult<()>>,
    permit: OwnedSemaphorePermit,
)
    ensures
        state.known(addr, device).devices.remove(addr) == state.devices.remove(addr),
        state.begin(addr, waiter, permit).devices.remove(addr) == state.devices.remove(addr),
        state.withdraw(addr, token).devices.remove(addr) == state.devices.remove(addr),
        state.abandon(addr, token).devices.remove(addr) == state.devices.remove(addr),
        state.clear(addr).devices.remove(addr) == state.devices.remove(addr),
        state.forget(addr, holders).devices.remove(addr) == state.devices.remove(addr),
        state.withdraw(addr, token).next_token == state.next_token,
        state.abandon(addr, token).next_token == state.next_token,
        state.clear(addr).next_token == state.next_token,
        state.forget(addr, holders).next_token == state.next_token,
        state.known(addr, device).next_token == state.next_token,
        state.next_token < u64::MAX ==> state.begin(addr, waiter, permit).next_token
            == state.next_token + 1,
        state.begin(addr, waiter, permit).registered(addr, state.next_token),
        state.begin(addr, waiter, permit).waiter(addr) == Some(waiter),
        state.begin(addr, waiter, permit).devices[addr].in_flight.unwrap().permit == permit,
        state.begin(addr, waiter, permit).devices[addr].gate == state.devices[addr].gate,
{
    assert(state.known(addr, device).devices.remove(addr) =~= state.devices.remove(addr));
    assert(state.begin(addr, waiter, permit).devices.remove(addr) =~= state.devices.remove(addr));
    assert(state.withdraw(addr, token).devices.remove(addr) =~= state.devices.remove(addr));
    assert(state.abandon(addr, token).devices.remove(addr) =~= state.devices.remove(addr));
    assert(state.clear(addr).devices.remove(addr) =~= state.devices.remove(addr));
    assert(state.forget(addr, holders).devices.remove(addr) =~= state.devices.remove(addr));
}

/// Clearing, withdrawing and abandoning a send keep the semaphore of its device,
/// so that those who wait for their turn still do.
pub proof fn law_the_semaphore_outlasts_a_send(state: GatesView, addr: Seq<char>, token: u64)
    requires
        state.devices.contains_key(addr),
    ensures
        state.clear(addr).devices.contains_key(addr),
        state.clear(addr).devices[addr].gate == state.devices[addr].gate,
        state.withdraw(addr, token).devices.contains_key(addr),
        state.withdraw(addr, token).devices[addr].gate == state.devices[addr].gate,
        state.abandon(addr, token).devices.contains_key(addr),
        state.abandon(addr, token).devices[addr].gate == state.devices[addr].gate,
{
}

/// After a send ended, its device's holders are counted once; the device is then
/// forgotten exactly where nothing is sent to it and the count is one.
pub proof fn law_tidying_forgets_what_is_done(
    before: NotifyGates,
    after: NotifyGates,
    freed: GatesView,
    addr: Seq<char>,
)
    requires
        after.tidied(before, freed, addr),
    ensures
        after@.next_token == freed.next_token,
        after@.devices.remove(addr) == freed.devices.remove(addr),
        if freed.devices.contains_key(addr) {
            &&& after.counted().len() == before.counted().len() + 1
            &&& after.counted().drop_last() == before.counted()
            &&& after.counted().last().0 == freed.devices[addr].gate
            &&& after.counted().last().1 >= 1
            &&& after@.devices.contains_key(addr) <==> freed.devices[addr].in_flight is Some
                || after.counted().last().1 != 1
            &&& after@.devices.contains_key(addr) ==> after@.devices[addr] == freed.devices[addr]
        } else {
            after.counted() == before.counted() && !after@.devices.contains_key(addr)
        },
{
    assert(after@.devices.remove(addr) =~= freed.devices.remove(addr));
    if freed.devices.contains_key(addr) {
        assert(after.counted().drop_last() =~= before.counted());
    }
}

} // verus!
