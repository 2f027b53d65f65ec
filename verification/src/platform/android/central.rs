//! The central role on Android: the operations in flight, and what their
//! results mean.
use crate::central::backend::operation_result;
use crate::central::types::{CentralEvent, DisconnectCause, ScanFilter, ScanMode, WriteType};
use crate::error::{BlewError, BlewResult};
use crate::gatt::service::GattService;
use crate::text::{decimal_text, starts_with};
use crate::time::seconds;
use crate::types::{BleDevice, DeviceId};
use crate::util::key_map::KeyMap;
use crate::util::op_slots::OpSlots;
use crate::util::reply::{reply_channel, Outgoing, Replier, Reply, Sent, Waited};
use crate::util::request_map::{displace, take_reply, KeyedRequestMap};
use crate::uuids::Uuid;
use std::sync::Arc;
use std::time::Duration;
use tokio::sync::Notify;
use vstd::prelude::*;

verus! {

/// The Android backend of the central role. What it remembers is shared by all
/// of them in the process: see [`CentralState`].
#[derive(Debug, Clone, Copy, PartialEq, Eq, Structural)]
pub struct AndroidCentral;

impl crate::central::backend::Sealed for AndroidCentral {

}

/// How long a disconnect waits for the Kotlin-side callback before the GATT
/// handle is force-closed, in seconds. Short: only enough time for a
/// well-behaved stack to dispatch the callback; a dead callback is exactly the
/// case this guards against.
pub const DISCONNECT_CALLBACK_SECS: u64 = 2;

/// How long a disconnect waits for the Kotlin-side callback.
pub fn disconnect_callback_timeout() -> (timeout: Duration)
    ensures
        timeout == crate::time::secs_duration(DISCONNECT_CALLBACK_SECS),
{
    seconds(DISCONNECT_CALLBACK_SECS)
}

/// The ATT MTU of a link on which none was negotiated.
pub const DEFAULT_MTU: u16 = 23;

// Kotlin status codes returned from GATT operations.
pub const STATUS_SUCCESS: i32 = 0;

pub const STATUS_NOT_CONNECTED: i32 = 1;

pub const STATUS_CHAR_NOT_FOUND: i32 = 2;

pub const STATUS_GATT_BUSY: i32 = 3;

pub const STATUS_GATT_FAILED: i32 = 4;

/// The error that a Kotlin GATT status code other than success stands for.
pub open spec fn status_error(
    status: i32,
    device_id: Seq<char>,
    char_uuid: u128,
) -> crate::error::ErrorView {
    if status == STATUS_NOT_CONNECTED {
        crate::error::ErrorView::NotConnected(device_id)
    } else if status == STATUS_CHAR_NOT_FOUND {
        crate::error::ErrorView::CharacteristicNotFound { device_id, char_uuid }
    } else if status == STATUS_GATT_BUSY {
        crate::error::ErrorView::GattBusy(device_id)
    } else if status == STATUS_GATT_FAILED {
        crate::error::ErrorView::Gatt { device_id, source: "GATT operation returned failure"@ }
    } else {
        crate::error::ErrorView::Internal(
            "unknown GATT status "@ + crate::text::signed_decimal(status as int),
        )
    }
}

/// Map a Kotlin GATT status code to a [`BlewError`].
pub fn gatt_status_to_error(status: i32, device_id: &DeviceId, char_uuid: Uuid) -> (error:
    BlewError)
    ensures
        error@ == status_error(status, device_id@, char_uuid@),
{
    if status == STATUS_NOT_CONNECTED {
        BlewError::NotConnected(device_id.clone())
    } else if status == STATUS_CHAR_NOT_FOUND {
        BlewError::CharacteristicNotFound { device_id: device_id.clone(), char_uuid }
    } else if status == STATUS_GATT_BUSY {
        BlewError::GattBusy(device_id.clone())
    } else if status == STATUS_GATT_FAILED {
        BlewError::Gatt {
            device_id: device_id.clone(),
            source: "GATT operation returned failure".to_owned(),
        }
    } else {
        BlewError::Internal(
            "unknown GATT status ".to_owned().concat(decimal_text(status as i128).as_str()),
        )
    }
}

/// What a Kotlin GATT status code means for an operation without an answer of
/// its own, such as a subscription.
pub fn operation_status(status: i32, device_id: &DeviceId, char_uuid: Uuid) -> (result: BlewResult<
    (),
>)
    ensures
        result is Ok <==> status == STATUS_SUCCESS,
        result matches Err(e) ==> e@ == status_error(status, device_id@, char_uuid@),
{
    if status == STATUS_SUCCESS {
        Ok(())
    } else {
        Err(gatt_status_to_error(status, device_id, char_uuid))
    }
}

/// A call into the JVM failed, in its own words.
pub fn jni_err(text: &str) -> (error: BlewError)
    ensures
        error@ == crate::error::ErrorView::Internal("JNI error: "@ + text@),
{
    BlewError::Internal("JNI error: ".to_owned().concat(text))
}

/// Whether the hidden cache refresh worked.
pub fn refreshed(ok: bool) -> (result: BlewResult<()>)
    ensures
        result is Ok <==> ok,
        result matches Err(e) ==> e@ == crate::error::ErrorView::NotSupported,
{
    if ok {
        Ok(())
    } else {
        Err(BlewError::NotSupported)
    }
}

/// A scan, as it is handed to Kotlin.
pub struct ScanPlan {
    pub low_power: bool,
    /// The service UUIDs to filter by, in text form.
    pub services: Vec<String>,
}

/// The text forms of `uuids`.
pub open spec fn are_uuid_texts(texts: Seq<String>, uuids: Seq<Uuid>) -> bool {
    &&& texts.len() == uuids.len()
    &&& forall|i: int|
        0 <= i < texts.len() ==> (#[trigger] texts[i])@ == crate::uuids::uuid_text(uuids[i]@)
}

/// The text forms of `uuids`, in order.
pub fn uuid_texts(uuids: &Vec<Uuid>) -> (texts: Vec<String>)
    ensures
        are_uuid_texts(texts@, uuids@),
{
    let mut texts: Vec<String> = Vec::new();
    let mut i: usize = 0;
    while i < uuids.len()
        invariant
            i <= uuids@.len(),
            texts@.len() == i,
            forall|j: int|
                0 <= j < i ==> (#[trigger] texts@[j])@ == crate::uuids::uuid_text(uuids@[j]@),
        decreases uuids@.len() - i,
    {
        texts.push(uuids[i].text());
        i += 1;
    }
    texts
}

/// `plan` is how a scan with `filter` is handed to Kotlin, which is refused
/// where Kotlin cannot count the services.
pub open spec fn is_scan_plan(plan: BlewResult<ScanPlan>, filter: ScanFilter) -> bool {
    match plan {
        Ok(p) => {
            &&& filter.services@.len() <= i32::MAX
            &&& p.low_power == (filter.mode == ScanMode::LowPower)
            &&& are_uuid_texts(p.services@, filter.services@)
        },
        Err(e) => {
            &&& filter.services@.len() > i32::MAX
            &&& e@ == crate::error::ErrorView::Internal("scan filter has too many services"@)
        },
    }
}

/// How to scan with `filter`. Refused where Kotlin cannot count the services.
pub fn start_scan(filter: &ScanFilter) -> (plan: BlewResult<ScanPlan>)
    ensures
        is_scan_plan(plan, *filter),
{
    if filter.services.len() > 0x7fff_ffff {
        return Err(BlewError::Internal("scan filter has too many services".to_owned()));
    }
    Ok(
        ScanPlan {
            low_power: filter.mode == ScanMode::LowPower,
            services: uuid_texts(&filter.services),
        },
    )
}

/// What the keys of all operations of a device begin with, while it has
/// disconnected `epoch` times.
pub open spec fn epoch_prefix(addr: Seq<char>, epoch: u64) -> Seq<char> {
    addr + ":"@ + crate::text::signed_decimal(epoch as int) + ":"@
}

/// The key that the read of a characteristic holds.
pub open spec fn read_key(addr: Seq<char>, epoch: u64, uuid_text: Seq<char>) -> Seq<char> {
    epoch_prefix(addr, epoch) + "read:"@ + uuid_text
}

/// The key that the write of a characteristic holds.
pub open spec fn write_key(addr: Seq<char>, epoch: u64, uuid_text: Seq<char>) -> Seq<char> {
    epoch_prefix(addr, epoch) + "write:"@ + uuid_text
}

/// What the keys of all operations of a device begin with.
fn epoch_prefix_text(addr: &str, epoch: u64) -> (prefix: String)
    ensures
        prefix@ == epoch_prefix(addr@, epoch),
{
    addr.to_owned().concat(":").concat(decimal_text(epoch as i128).as_str()).concat(":")
}

/// The key that the read of a characteristic holds.
pub fn read_key_text(addr: &str, epoch: u64, uuid_text: &str) -> (key: String)
    ensures
        key@ == read_key(addr@, epoch, uuid_text@),
{
    epoch_prefix_text(addr, epoch).concat("read:").concat(uuid_text)
}

/// The key that the write of a characteristic holds.
pub fn write_key_text(addr: &str, epoch: u64, uuid_text: &str) -> (key: String)
    ensures
        key@ == write_key(addr@, epoch, uuid_text@),
{
    epoch_prefix_text(addr, epoch).concat("write:").concat(uuid_text)
}

/// Android's number for a write type.
pub fn android_write_type(write_type: WriteType) -> (number: i32)
    ensures
        number == (match write_type {
            WriteType::WithResponse => 2i32,
            WriteType::WithoutResponse => 1i32,
        }),
{
    match write_type {
        WriteType::WithResponse => 2,
        WriteType::WithoutResponse => 1,
    }
}

/// Where the device `id` stands in `list`: before the end exactly where it is
/// listed.
pub open spec fn place_of(list: Seq<BleDevice>, id: Seq<char>) -> int
    decreases list.len(),
{
    if list.len() == 0 || list[0].id@ == id {
        0
    } else {
        1 + place_of(list.skip(1), id)
    }
}

/// `list` with `device` in the place of the first entry with its id, or behind
/// all others where there is none.
pub open spec fn noted(list: Seq<BleDevice>, device: BleDevice) -> Seq<BleDevice> {
    let at = place_of(list, device.id@);
    if at < list.len() {
        list.update(at, device)
    } else {
        list.push(device)
    }
}

proof fn lemma_place(list: Seq<BleDevice>, id: Seq<char>, at: int)
    requires
        0 <= at <= list.len(),
        forall|j: int| 0 <= j < at ==> (#[trigger] list[j]).id@ != id,
        at < list.len() ==> list[at].id@ == id,
    ensures
        place_of(list, id) == at,
    decreases list.len(),
{
    if at > 0 {
        let rest = list.skip(1);
        assert forall|j: int| 0 <= j < at - 1 implies (#[trigger] rest[j]).id@ != id by {
            assert(rest[j] == list[j + 1]);
        }
        lemma_place(rest, id, at - 1);
    }
}

proof fn lemma_placed(list: Seq<BleDevice>, id: Seq<char>)
    ensures
        0 <= place_of(list, id) <= list.len(),
        place_of(list, id) < list.len() ==> list[place_of(list, id)].id@ == id,
        forall|j: int| 0 <= j < place_of(list, id) ==> (#[trigger] list[j]).id@ != id,
    decreases list.len(),
{
    if list.len() > 0 && list[0].id@ != id {
        let rest = list.skip(1);
        lemma_placed(rest, id);
        let at = place_of(list, id);
        assert forall|j: int| 0 <= j < at implies (#[trigger] list[j]).id@ != id by {
            if j > 0 {
                assert(list[j] == rest[j - 1]);
            }
        }
    }
}

/// What is listed after a scan started and `reports` came in, in order.
pub open spec fn listed(reports: Seq<BleDevice>) -> Seq<BleDevice>
    decreases reports.len(),
{
    if reports.len() == 0 {
        Seq::empty()
    } else {
        noted(listed(reports.drop_last()), reports.last())
    }
}

/// `device` is the latest that `reports` have of it.
pub open spec fn latest_in(reports: Seq<BleDevice>, device: BleDevice) -> bool {
    exists|r: int|
        {
            &&& 0 <= r < reports.len()
            &&& #[trigger] reports[r] == device
            &&& forall|q: int| r < q < reports.len() ==> (#[trigger] reports[q]).id@ != device.id@
        }
}

/// A scan lists each device reported since it started once, with what was
/// reported of it last, and no other device.
pub proof fn law_a_scan_lists_what_was_reported_since(reports: Seq<BleDevice>)
    ensures
        forall|i: int, j: int|
            0 <= i < j < listed(reports).len() ==> (#[trigger] listed(reports)[i]).id@ != (
            #[trigger] listed(reports)[j]).id@,
        forall|i: int|
            0 <= i < listed(reports).len() ==> latest_in(reports, #[trigger] listed(reports)[i]),
        forall|r: int|
            0 <= r < reports.len() ==> place_of(
                listed(reports),
                (#[trigger] reports[r]).id@,
            ) < listed(reports).len(),
    decreases reports.len(),
{
    if reports.len() > 0 {
        let earlier = reports.drop_last();
        let device = reports.last();
        let before = listed(earlier);
        let after = listed(reports);
        let at = place_of(before, device.id@);
        law_a_scan_lists_what_was_reported_since(earlier);
        lemma_placed(before, device.id@);
        assert(after[at] == device);
        assert forall|i: int| 0 <= i < after.len() && i != at implies after[i] == before[i]
            && before[i].id@ != device.id@ by {
            if i > at {
                assert(before[at].id@ != before[i].id@);
            }
        }
        assert(latest_in(reports, device)) by {
            assert(reports[reports.len() - 1] == device);
        }
        assert forall|i: int| 0 <= i < after.len() implies latest_in(
            reports,
            #[trigger] after[i],
        ) by {
            if i != at {
                assert(latest_in(earlier, before[i]));
                let r = choose|r: int|
                    {
                        &&& 0 <= r < earlier.len()
                        &&& #[trigger] earlier[r] == before[i]
                        &&& forall|q: int|
                            r < q < earlier.len() ==> (#[trigger] earlier[q]).id@ != before[i].id@
                    };
                assert(reports[r] == after[i]);
                assert forall|q: int| r < q < reports.len() implies (#[trigger] reports[q]).id@
                    != after[i].id@ by {
                    if q < earlier.len() {
                        assert(reports[q] == earlier[q]);
                    }
                }
            }
        }
        assert forall|r: int| 0 <= r < reports.len() implies place_of(
            after,
            (#[trigger] reports[r]).id@,
        ) < after.len() by {
            let id = reports[r].id@;
            lemma_placed(after, id);
            if id == device.id@ {
                assert(after[at].id@ == id);
            } else {
                assert(reports[r] == earlier[r]);
                let k = place_of(before, id);
                lemma_placed(before, id);
                assert(k != at);
                assert(after[k].id@ == id);
            }
        }
    }
}

/// The mathematical value of a [`CentralState`].
#[verifier::ext_equal]
pub struct CentralView {
    /// The read or write that holds each key.
    pub ops: Map<Seq<char>, Replier<BlewResult<Vec<u8>>>>,
    /// The results of reads and writes that were handed over.
    pub op_results: Seq<Sent<BlewResult<Vec<u8>>>>,
    /// What a read or write waits on while its key is held.
    pub key_freed: Notify,
    /// Each time that those who wait for a key were woken.
    pub wakes: Seq<Notify>,
    /// How often each device has disconnected, wrapping.
    pub epochs: Map<Seq<char>, u64>,
    /// The connects in flight, by address.
    pub connects: Map<Seq<char>, Replier<BlewResult<()>>>,
    /// The disconnects in flight, by address.
    pub disconnects: Map<Seq<char>, Replier<()>>,
    /// The service discoveries in flight, by address.
    pub discoveries: Map<Seq<char>, Replier<BlewResult<Vec<GattService>>>>,
    /// The devices seen since the last scan started, in the order in which they
    /// were first seen.
    pub discovered: Seq<BleDevice>,
    /// The negotiated MTU of each device.
    pub mtus: Map<Seq<char>, u16>,
    /// The deadline of a connect.
    pub connect_timeout: Option<Duration>,
}

/// How often a device has disconnected after one more time.
pub open spec fn next_epoch(epoch: u64) -> u64 {
    if epoch == u64::MAX {
        0
    } else {
        (epoch + 1) as u64
    }
}

impl CentralView {
    /// How often `addr` has disconnected.
    pub open spec fn epoch(self, addr: Seq<char>) -> u64 {
        if self.epochs.contains_key(addr) {
            self.epochs[addr]
        } else {
            0
        }
    }

    /// An operation to be reported to `waiter` holds `key`.
    pub open spec fn claim(self, key: Seq<char>, waiter: Replier<BlewResult<Vec<u8>>>) -> Self {
        CentralView { ops: self.ops.insert(key, waiter), ..self }
    }

    /// `key` is free, and those who wait for one have been woken.
    pub open spec fn free(self, key: Seq<char>) -> Self {
        CentralView {
            ops: self.ops.remove(key),
            wakes: self.wakes.push(self.key_freed),
            ..self
        }
    }

    /// Kotlin has reported `result` for the operation that held `key`.
    pub open spec fn report(
        self,
        key: Seq<char>,
        value: BlewResult<Vec<u8>>,
        delivered: bool,
    ) -> Self {
        CentralView {
            op_results: if self.ops.contains_key(key) {
                self.op_results.push(Sent { to: self.ops[key], value, delivered })
            } else {
                self.op_results
            },
            ..self.free(key)
        }
    }

    /// `addr` has disconnected: every key of its operations is free, those who
    /// wait for one have been woken, and what it does from now on has keys of
    /// its own.
    pub open spec fn retire(self, addr: Seq<char>) -> Self {
        CentralView {
            ops: without_prefix(self.ops, epoch_prefix(addr, self.epoch(addr))),
            wakes: self.wakes.push(self.key_freed),
            epochs: self.epochs.insert(addr, next_epoch(self.epoch(addr))),
            ..self
        }
    }
}

/// `map` without the keys that begin with `prefix`.
pub open spec fn without_prefix<V>(map: Map<Seq<char>, V>, prefix: Seq<char>) -> Map<Seq<char>, V> {
    map.restrict(map.dom().filter(|key: Seq<char>| !crate::text::begins_with(key, prefix)))
}

/// What the central role remembers.
pub struct CentralState {
    ops: OpSlots<BlewResult<Vec<u8>>>,
    epochs: KeyMap<String, u64>,
    pending_connects: KeyedRequestMap<String, Replier<BlewResult<()>>>,
    pending_disconnects: KeyedRequestMap<String, Replier<()>>,
    pending_discover: KeyedRequestMap<String, Replier<BlewResult<Vec<GattService>>>>,
    discovered: Vec<BleDevice>,
    mtu_cache: KeyMap<String, u16>,
    connect_timeout: Option<Duration>,
}

impl View for CentralState {
    type V = CentralView;

    closed spec fn view(&self) -> CentralView {
        CentralView {
            ops: self.ops@,
            op_results: self.ops.told(),
            key_freed: self.ops.wakes(),
            wakes: self.ops.woken(),
            epochs: self.epochs@,
            connects: self.pending_connects@,
            disconnects: self.pending_disconnects@,
            discoveries: self.pending_discover@,
            discovered: self.discovered@,
            mtus: self.mtu_cache@,
            connect_timeout: self.connect_timeout,
        }
    }
}

/// How a connect ends.
pub struct ConnectEnd {
    /// What the caller is told.
    pub result: BlewResult<()>,
    /// The GATT handle is to be force-closed.
    pub force_close: bool,
    /// What is announced.
    pub event: Option<CentralEvent>,
}

/// A write that is about to be handed to Kotlin.
pub struct WriteBegun {
    /// Android's number for the write type.
    pub android_write_type: i32,
    /// The key that it holds, and where the result arrives; `None` for a write
    /// without response.
    pub claimed: Option<(String, Reply<BlewResult<Vec<u8>>>)>,
}

/// `answer` tells the request that was pending at `key` that another
/// operation has taken its place.
pub open spec fn busy_answer<T>(
    pending: Map<Seq<char>, Replier<BlewResult<T>>>,
    key: Seq<char>,
    device_id: Seq<char>,
    answer: Option<Outgoing<BlewResult<T>>>,
) -> bool {
    &&& answer is Some <==> pending.contains_key(key)
    &&& answer matches Some(out) ==> {
        &&& out.to == pending[key]
        &&& out.value matches Err(e)
        &&& e@ == crate::error::ErrorView::GattBusy(device_id)
    }
}

impl CentralState {
    /// Nothing is in flight, and nothing known.
    pub fn new(connect_timeout: Option<Duration>) -> (state: Self)
        ensures
            state@ == (CentralView {
                ops: Map::empty(),
                op_results: Seq::empty(),
                key_freed: state@.key_freed,
                wakes: Seq::empty(),
                epochs: Map::empty(),
                connects: Map::empty(),
                disconnects: Map::empty(),
                discoveries: Map::empty(),
                discovered: Seq::empty(),
                mtus: Map::empty(),
                connect_timeout,
            }),
    {
        CentralState {
            ops: OpSlots::default(),
            epochs: KeyMap::new(),
            pending_connects: KeyedRequestMap::new(),
            pending_disconnects: KeyedRequestMap::new(),
            pending_discover: KeyedRequestMap::new(),
            discovered: Vec::new(),
            mtu_cache: KeyMap::new(),
            connect_timeout,
        }
    }

    /// The role was initialised again: only the deadline of a connect changes.
    pub fn set_connect_timeout(&mut self, connect_timeout: Option<Duration>)
        ensures
            final(self)@ == (CentralView { connect_timeout, ..old(self)@ }),
    {
        self.connect_timeout = connect_timeout;
    }

    /// The deadline of a connect.
    pub fn connect_timeout(&self) -> (timeout: Option<Duration>)
        ensures
            timeout == self@.connect_timeout,
    {
        self.connect_timeout
    }

    /// Start a scan with `filter`: how it is handed to Kotlin, unless it is
    /// refused. What was seen before is forgotten.
    pub fn begin_scan(&mut self, filter: &ScanFilter) -> (plan: BlewResult<ScanPlan>)
        ensures
            is_scan_plan(plan, *filter),
            plan is Ok ==> final(self)@ == (CentralView {
                discovered: Seq::empty(),
                ..old(self)@
            }),
            plan is Err ==> final(self)@ == old(self)@,
    {
        let plan = start_scan(filter);
        if plan.is_ok() {
            self.discovered = Vec::new();
        }
        plan
    }

    /// The devices seen since the last scan started, in the order in which they
    /// were first seen.
    pub fn discovered_devices(&self) -> (devices: &Vec<BleDevice>)
        ensures
            devices@ == self@.discovered,
    {
        &self.discovered
    }

    /// A device was seen: what was known of it is replaced.
    pub fn update_discovered(&mut self, device: BleDevice)
        ensures
            final(self)@ == (CentralView {
                discovered: noted(old(self)@.discovered, device),
                ..old(self)@
            }),
    {
        let mut i: usize = 0;
        while i < self.discovered.len()
            invariant
                i <= self.discovered@.len(),
                self@ == old(self)@,
                forall|j: int| 0 <= j < i ==> (#[trigger] self.discovered@[j]).id@ != device.id@,
            decreases self.discovered@.len() - i,
        {
            if self.discovered[i].id.same(&device.id) {
                proof {
                    lemma_place(self.discovered@, device.id@, i as int);
                }
                self.discovered.set(i, device);
                return ;
            }
            i += 1;
        }
        proof {
            lemma_place(self.discovered@, device.id@, self.discovered@.len() as int);
        }
        self.discovered.push(device);
    }

    /// The answer `result` to the connect to `addr`, if one is in flight.
    #[must_use]
    pub fn complete_connect(&mut self, addr: &str, result: BlewResult<()>) -> (answer: Option<
        Outgoing<BlewResult<()>>,
    >)
        ensures
            answer == crate::util::request_map::reply_at(old(self)@.connects, addr@, result),
            final(self)@ == (CentralView {
                connects: old(self)@.connects.remove(addr@),
                ..old(self)@
            }),
    {
        take_reply(&mut self.pending_connects, addr, result)
    }

    /// The answer to the disconnect of `addr`, if one is in flight.
    #[must_use]
    pub fn complete_disconnect(&mut self, addr: &str) -> (answer: Option<Outgoing<()>>)
        ensures
            answer == crate::util::request_map::reply_at(old(self)@.disconnects, addr@, ()),
            final(self)@ == (CentralView {
                disconnects: old(self)@.disconnects.remove(addr@),
                ..old(self)@
            }),
    {
        take_reply(&mut self.pending_disconnects, addr, ())
    }

    /// The answer `result` to the service discovery of `addr`, if one is in
    /// flight.
    #[must_use]
    pub fn complete_discover_services(
        &mut self,
        addr: &str,
        result: BlewResult<Vec<GattService>>,
    ) -> (answer: Option<Outgoing<BlewResult<Vec<GattService>>>>)
        ensures
            answer == crate::util::request_map::reply_at(old(self)@.discoveries, addr@, result),
            final(self)@ == (CentralView {
                discoveries: old(self)@.discoveries.remove(addr@),
                ..old(self)@
            }),
    {
        take_reply(&mut self.pending_discover, addr, result)
    }

    /// How often `addr` has disconnected.
    pub fn epoch(&self, addr: &str) -> (epoch: u64)
        ensures
            epoch == self@.epoch(addr@),
    {
        match self.epochs.get(addr) {
            Some(epoch) => *epoch,
            None => 0,
        }
    }

    /// What is notified whenever the key of a read or write is freed, to wait
    /// on before one that found its key held is tried again.
    pub fn key_freed(&self) -> (freed: Arc<Notify>)
        ensures
            *freed == self@.key_freed,
    {
        self.ops.released()
    }

    /// Kotlin reported `result` for the operation that holds `key`, which is
    /// freed. `false` where none held it, or its caller had stopped waiting.
    pub fn complete_pending(&mut self, key: &str, result: BlewResult<Vec<u8>>) -> (delivered: bool)
        ensures
            final(self)@ == old(self)@.report(key@, result, delivered),
            delivered ==> old(self)@.ops.contains_key(key@),
    {
        self.ops.complete(key, result)
    }

    /// Kotlin did not take the operation that holds `key`: the key is free.
    pub fn not_dispatched(&mut self, key: &str)
        ensures
            final(self)@ == old(self)@.free(key@),
    {
        self.ops.release(key);
    }

    /// `addr` disconnected: its operations in flight end without a result.
    pub fn retire(&mut self, addr: &str)
        ensures
            final(self)@ == old(self)@.retire(addr@),
    {
        let epoch: u64 = self.epoch(addr);
        let prefix = epoch_prefix_text(addr, epoch);
        let matches = |key: &str| -> (free: bool)
            ensures
                free == crate::text::begins_with(key@, prefix@),
            { starts_with(key, prefix.as_str()) };
        self.ops.release_where(matches);
        self.epochs.insert(addr.to_owned(), epoch.wrapping_add(1));
        proof {
            let left = without_prefix(old(self)@.ops, prefix@);
            assert forall|key: Seq<char>| #[trigger] self@.ops.contains_key(key)
                <==> left.contains_key(key) by {
                if old(self)@.ops.contains_key(key) && !self@.ops.contains_key(key) {
                    assert(crate::util::op_slots::answers(matches, key, true));
                }
            }
            assert(self@.ops =~= left);
        }
    }

    /// An MTU was negotiated with `addr`.
    pub fn set_mtu(&mut self, addr: &str, mtu: u16)
        ensures
            final(self)@ == (CentralView {
                mtus: old(self)@.mtus.insert(addr@, mtu),
                ..old(self)@
            }),
    {
        self.mtu_cache.insert(addr.to_owned(), mtu);
    }

    /// The MTU negotiated with `addr`, or the least there is.
    pub fn mtu(&self, addr: &str) -> (mtu: u16)
        ensures
            mtu == (if self@.mtus.contains_key(addr@) {
                self@.mtus[addr@]
            } else {
                DEFAULT_MTU
            }),
    {
        match self.mtu_cache.get(addr) {
            Some(mtu) => *mtu,
            None => DEFAULT_MTU,
        }
    }

    /// Register a connect to `device_id` before it is dispatched. Refused while
    /// one is in flight.
    pub fn begin_connect(&mut self, device_id: &DeviceId) -> (begun: BlewResult<
        Reply<BlewResult<()>>,
    >)
        ensures
            begun is Ok <==> !old(self)@.connects.contains_key(device_id@),
            match begun {
                Ok(reply) => {
                    let waiter = final(self)@.connects[device_id@];
                    &&& waiter.channel() == reply.channel()
                    &&& final(self)@ == (CentralView {
                        connects: old(self)@.connects.insert(device_id@, waiter),
                        ..old(self)@
                    })
                },
                Err(e) => e@ == crate::error::ErrorView::ConnectInFlight(device_id@)
                    && final(self)@ == old(self)@,
            },
    {
        let (tx, rx) = reply_channel();
        match self.pending_connects.try_insert(device_id.text(), tx) {
            Ok(_) => Ok(rx),
            Err(_) => Err(BlewError::ConnectInFlight(device_id.clone())),
        }
    }

    /// The connect could not be dispatched: it is no longer in flight.
    pub fn connect_not_dispatched(&mut self, device_id: &DeviceId, jni_error: &str) -> (error:
        BlewError)
        ensures
            final(self)@ == (CentralView {
                connects: old(self)@.connects.remove(device_id@),
                ..old(self)@
            }),
            error@ == crate::error::ErrorView::Internal("JNI error: "@ + jni_error@),
    {
        self.pending_connects.take(device_id.as_str());
        jni_err(jni_error)
    }

    /// The caller of a dispatched connect stopped waiting: it is no longer in
    /// flight.
    pub fn connect_cancelled(&mut self, device_id: &DeviceId)
        ensures
            final(self)@ == (CentralView {
                connects: old(self)@.connects.remove(device_id@),
                ..old(self)@.retire(device_id@)
            }),
    {
        self.pending_connects.take(device_id.as_str());
        self.retire(device_id.as_str());
    }

    /// The wait for a dispatched connect ended. One that timed out is no longer
    /// in flight, its GATT handle is force-closed, and its end announced.
    pub fn finish_connect(&mut self, device_id: &DeviceId, waited: Waited<BlewResult<()>>) -> (end:
        ConnectEnd)
        ensures
            match waited {
                Waited::Answered(result) => {
                    &&& end.result == result
                    &&& !end.force_close
                    &&& end.event is None
                    &&& final(self)@ == old(self)@
                },
                Waited::Dropped => {
                    &&& end.result matches Err(e)
                    &&& e@ == crate::error::ErrorView::DisconnectedDuringOperation(device_id@)
                    &&& !end.force_close
                    &&& end.event is None
                    &&& final(self)@ == old(self)@
                },
                Waited::TimedOut => {
                    &&& end.result matches Err(e)
                    &&& e@ == crate::error::ErrorView::ConnectTimedOut(device_id@)
                    &&& end.force_close
                    &&& end.event matches Some(
                        CentralEvent::DeviceDisconnected { device_id: id, cause },
                    )
                    &&& id@ == device_id@
                    &&& cause == DisconnectCause::Timeout
                    &&& final(self)@ == (CentralView {
                        connects: old(self)@.connects.remove(device_id@),
                        ..old(self)@.retire(device_id@)
                    })
                },
            },
    {
        match waited {
            Waited::Answered(result) => ConnectEnd { result, force_close: false, event: None },
            Waited::Dropped => ConnectEnd {
                result: Err(BlewError::DisconnectedDuringOperation(device_id.clone())),
                force_close: false,
                event: None,
            },
            Waited::TimedOut => {
                self.connect_cancelled(device_id);
                ConnectEnd {
                    result: Err(BlewError::ConnectTimedOut(device_id.clone())),
                    force_close: true,
                    event: Some(
                        CentralEvent::DeviceDisconnected {
                            device_id: device_id.clone(),
                            cause: DisconnectCause::Timeout,
                        },
                    ),
                }
            },
        }
    }

    /// Register a disconnect of `addr` before it is dispatched. `None` where
    /// one is in flight already: this one then does not wait for the callback.
    pub fn begin_disconnect(&mut self, addr: &str) -> (reply: Option<Reply<()>>)
        ensures
            reply is Some <==> !old(self)@.disconnects.contains_key(addr@),
            match reply {
                Some(r) => {
                    let waiter = final(self)@.disconnects[addr@];
                    &&& waiter.channel() == r.channel()
                    &&& final(self)@ == (CentralView {
                        disconnects: old(self)@.disconnects.insert(addr@, waiter),
                        ..old(self)@
                    })
                },
                None => final(self)@ == old(self)@,
            },
    {
        let (tx, rx) = reply_channel();
        match self.pending_disconnects.try_insert(addr.to_owned(), tx) {
            Ok(_) => Some(rx),
            Err(_) => None,
        }
    }

    /// The disconnect could not be dispatched: where it was registered, it is
    /// no longer in flight.
    pub fn disconnect_not_dispatched(
        &mut self,
        addr: &str,
        awaits_callback: bool,
        jni_error: &str,
    ) -> (error: BlewError)
        ensures
            final(self)@ == (if awaits_callback {
                CentralView { disconnects: old(self)@.disconnects.remove(addr@), ..old(self)@ }
            } else {
                old(self)@
            }),
            error@ == crate::error::ErrorView::Internal("JNI error: "@ + jni_error@),
    {
        if awaits_callback {
            self.pending_disconnects.take(addr);
        }
        jni_err(jni_error)
    }

    /// The wait for a disconnect's callback ended. `true` where the callback
    /// did not come: the disconnect is no longer in flight, and the GATT handle
    /// is to be force-closed. The disconnect succeeds either way.
    pub fn finish_disconnect(&mut self, addr: &str, waited: Waited<()>) -> (force_close: bool)
        ensures
            force_close == (waited is TimedOut),
            final(self)@ == (if force_close {
                CentralView {
                    disconnects: old(self)@.disconnects.remove(addr@),
                    ..old(self)@.retire(addr@)
                }
            } else {
                old(self)@
            }),
    {
        match waited {
            Waited::TimedOut => {
                self.pending_disconnects.take(addr);
                self.retire(addr);
                true
            },
            Waited::Answered(_) => false,
            Waited::Dropped => false,
        }
    }

    /// Register a service discovery before it is dispatched. An earlier one of
    /// the same device is told that the device is busy.
    pub fn begin_discover_services(&mut self, device_id: &DeviceId) -> (begun: (
        Reply<BlewResult<Vec<GattService>>>,
        Option<Outgoing<BlewResult<Vec<GattService>>>>,
    ))
        ensures
            busy_answer(old(self)@.discoveries, device_id@, device_id@, begun.1),
            ({
                let waiter = final(self)@.discoveries[device_id@];
                &&& waiter.channel() == begun.0.channel()
                &&& final(self)@ == (CentralView {
                    discoveries: old(self)@.discoveries.insert(device_id@, waiter),
                    ..old(self)@
                })
            }),
    {
        let (tx, rx) = reply_channel();
        let evicted = displace(
            &mut self.pending_discover,
            device_id.text(),
            tx,
            Err(BlewError::GattBusy(device_id.clone())),
        );
        (rx, evicted)
    }

    /// Kotlin said what became of the dispatch of a service discovery: where it
    /// did not take it, it is no longer in flight.
    pub fn discover_dispatched(&mut self, device_id: &DeviceId, status: i32) -> (result: BlewResult<
        (),
    >)
        ensures
            result is Ok <==> status == STATUS_SUCCESS,
            match result {
                Ok(_) => final(self)@ == old(self)@,
                Err(e) => e@ == status_error(status, device_id@, 0) && final(self)@ == (
                CentralView {
                    discoveries: old(self)@.discoveries.remove(device_id@),
                    ..old(self)@
                }),
            },
    {
        if status != STATUS_SUCCESS {
            self.pending_discover.take(device_id.as_str());
        }
        operation_status(status, device_id, Uuid::nil())
    }

    /// Claim the key of the read of a characteristic before it is dispatched.
    /// `None` while an earlier read of it is not reported yet: this one waits
    /// for the key to be freed.
    pub fn begin_read(&mut self, device_id: &DeviceId, char_uuid: Uuid) -> (claimed: Option<
        (String, Reply<BlewResult<Vec<u8>>>),
    >)
        ensures
            ({
                let key = read_key(
                    device_id@,
                    old(self)@.epoch(device_id@),
                    crate::uuids::uuid_text(char_uuid@),
                );
                &&& claimed is Some <==> !old(self)@.ops.contains_key(key)
                &&& match claimed {
                    Some((held, reply)) => {
                        let waiter = final(self)@.ops[key];
                        &&& held@ == key
                        &&& waiter.channel() == reply.channel()
                        &&& final(self)@ == old(self)@.claim(key, waiter)
                    },
                    None => final(self)@ == old(self)@,
                }
            }),
    {
        let epoch: u64 = self.epoch(device_id.as_str());
        let key = read_key_text(device_id.as_str(), epoch, char_uuid.text().as_str());
        self.ops.try_claim(key)
    }

    /// Kotlin said what became of the dispatch of the read that holds `key`:
    /// where it did not take it, the key is free.
    pub fn read_dispatched(
        &mut self,
        device_id: &DeviceId,
        char_uuid: Uuid,
        key: &str,
        status: i32,
    ) -> (result: BlewResult<()>)
        ensures
            result is Ok <==> status == STATUS_SUCCESS,
            match result {
                Ok(_) => final(self)@ == old(self)@,
                Err(e) => {
                    &&& e@ == status_error(status, device_id@, char_uuid@)
                    &&& final(self)@ == old(self)@.free(key@)
                },
            },
    {
        if status != STATUS_SUCCESS {
            self.not_dispatched(key);
        }
        operation_status(status, device_id, char_uuid)
    }

    /// Claim the key of the write of a characteristic before it is dispatched.
    /// Only a write with response waits for a result and needs the key; `None`
    /// while an earlier one of the characteristic is not reported yet: this one
    /// waits for the key to be freed.
    pub fn begin_write(
        &mut self,
        device_id: &DeviceId,
        char_uuid: Uuid,
        write_type: WriteType,
    ) -> (begun: Option<WriteBegun>)
        ensures
            ({
                let key = write_key(
                    device_id@,
                    old(self)@.epoch(device_id@),
                    crate::uuids::uuid_text(char_uuid@),
                );
                &&& begun is None <==> write_type == WriteType::WithResponse && old(
                    self,
                )@.ops.contains_key(key)
                &&& match begun {
                    None => final(self)@ == old(self)@,
                    Some(b) => {
                        &&& b.android_write_type == (match write_type {
                            WriteType::WithResponse => 2i32,
                            WriteType::WithoutResponse => 1i32,
                        })
                        &&& b.claimed is Some <==> write_type == WriteType::WithResponse
                        &&& match b.claimed {
                            None => final(self)@ == old(self)@,
                            Some((held, reply)) => {
                                let waiter = final(self)@.ops[key];
                                &&& held@ == key
                                &&& waiter.channel() == reply.channel()
                                &&& final(self)@ == old(self)@.claim(key, waiter)
                            },
                        }
                    },
                }
            }),
    {
        let number: i32 = android_write_type(write_type);
        match write_type {
            WriteType::WithResponse => {
                let epoch: u64 = self.epoch(device_id.as_str());
                let key = write_key_text(device_id.as_str(), epoch, char_uuid.text().as_str());
                match self.ops.try_claim(key) {
                    Some(claim) => Some(
                        WriteBegun { android_write_type: number, claimed: Some(claim) },
                    ),
                    None => None,
                }
            },
            WriteType::WithoutResponse => Some(
                WriteBegun { android_write_type: number, claimed: None },
            ),
        }
    }

    /// Kotlin said what became of the dispatch of a write, which holds `key` if
    /// it is one with response: where Kotlin did not take it, the key is free.
    pub fn write_dispatched(
        &mut self,
        device_id: &DeviceId,
        char_uuid: Uuid,
        key: Option<&str>,
        status: i32,
    ) -> (result: BlewResult<()>)
        ensures
            result is Ok <==> status == STATUS_SUCCESS,
            match result {
                Ok(_) => final(self)@ == old(self)@,
                Err(e) => {
                    &&& e@ == status_error(status, device_id@, char_uuid@)
                    &&& final(self)@ == (match key {
                        Some(held) => old(self)@.free(held@),
                        None => old(self)@,
                    })
                },
            },
    {
        if status != STATUS_SUCCESS {
            match key {
                Some(held) => self.not_dispatched(held),
                None => {},
            }
        }
        operation_status(status, device_id, char_uuid)
    }
}

/// What the caller of a write is told: the write's answer without its value.
pub fn write_result(device_id: &DeviceId, answer: Option<BlewResult<Vec<u8>>>) -> (result:
    BlewResult<()>)
    ensures
        match answer {
            Some(Ok(_)) => result is Ok,
            Some(Err(e)) => result == Err::<(), BlewError>(e),
            None => result matches Err(e) && e@
                == crate::error::ErrorView::DisconnectedDuringOperation(device_id@),
        },
{
    match operation_result(device_id, answer) {
        Ok(_) => Ok(()),
        Err(e) => Err(e),
    }
}

/// A read and a write of the same device never share a key, so the report of
/// one is never taken for the other's.
pub proof fn law_reads_and_writes_are_kept_apart(
    addr: Seq<char>,
    epoch: u64,
    read_uuid: Seq<char>,
    write_uuid: Seq<char>,
)
    ensures
        read_key(addr, epoch, read_uuid) != write_key(addr, epoch, write_uuid),
{
    reveal_strlit("read:");
    reveal_strlit("write:");
    let at = epoch_prefix(addr, epoch).len();
    assert(read_key(addr, epoch, read_uuid)[at as int] == 'r');
    assert(write_key(addr, epoch, write_uuid)[at as int] == 'w');
}

/// A read or write holds its key, whatever is claimed, reported or freed under
/// other keys, until its own report, its own failure to be dispatched or the
/// disconnect of its device; those free the key and wake whoever waits for it,
/// so a wait always ends.
pub proof fn law_key_held_until_reported(
    state: CentralView,
    addr: Seq<char>,
    uuid_text: Seq<char>,
    other: Seq<char>,
    waiter: Replier<BlewResult<Vec<u8>>>,
    value: BlewResult<Vec<u8>>,
    delivered: bool,
)
    ensures
        ({
            let read = read_key(addr, state.epoch(addr), uuid_text);
            let write = write_key(addr, state.epoch(addr), uuid_text);
            forall|key: Seq<char>|
                #![trigger state.ops.contains_key(key)]
                state.ops.contains_key(key) && (key == read || key == write) ==> {
                    &&& other != key ==> {
                        &&& state.claim(other, waiter).ops.contains_key(key)
                        &&& state.claim(other, waiter).ops[key] == state.ops[key]
                        &&& state.report(other, value, delivered).ops.contains_key(key)
                        &&& state.report(other, value, delivered).ops[key] == state.ops[key]
                        &&& state.free(other).ops.contains_key(key)
                        &&& state.free(other).ops[key] == state.ops[key]
                    }
                    &&& !state.report(key, value, delivered).ops.contains_key(key)
                    &&& state.report(key, value, delivered).wakes == state.wakes.push(
                        state.key_freed,
                    )
                    &&& !state.free(key).ops.contains_key(key)
                    &&& state.free(key).wakes == state.wakes.push(state.key_freed)
                    &&& !state.retire(addr).ops.contains_key(key)
                    &&& state.retire(addr).wakes == state.wakes.push(state.key_freed)
                }
        }),
{
    let prefix = epoch_prefix(addr, state.epoch(addr));
    let read = read_key(addr, state.epoch(addr), uuid_text);
    let write = write_key(addr, state.epoch(addr), uuid_text);
    assert(read.take(prefix.len() as int) =~= prefix);
    assert(write.take(prefix.len() as int) =~= prefix);
}

/// Two characteristics of a device never share a key.
pub proof fn law_characteristics_are_kept_apart(
    addr: Seq<char>,
    epoch: u64,
    a: Seq<char>,
    b: Seq<char>,
)
    ensures
        read_key(addr, epoch, a) == read_key(addr, epoch, b) <==> a == b,
        write_key(addr, epoch, a) == write_key(addr, epoch, b) <==> a == b,
{
    let r = epoch_prefix(addr, epoch) + "read:"@;
    let w = epoch_prefix(addr, epoch) + "write:"@;
    assert((r + a).skip(r.len() as int) =~= a);
    assert((r + b).skip(r.len() as int) =~= b);
    assert((w + a).skip(w.len() as int) =~= a);
    assert((w + b).skip(w.len() as int) =~= b);
}

/// A report is handed to the operation that holds the key, as the last result
/// that was handed over, and to nobody where none holds it.
pub proof fn law_a_report_reaches_the_holder(
    state: CentralView,
    key: Seq<char>,
    value: BlewResult<Vec<u8>>,
    delivered: bool,
)
    ensures
        ({
            let after = state.report(key, value, delivered);
            if state.ops.contains_key(key) {
                &&& after.op_results.len() == state.op_results.len() + 1
                &&& after.op_results.drop_last() == state.op_results
                &&& after.op_results.last().to == state.ops[key]
                &&& after.op_results.last().value == value
                &&& after.op_results.last().delivered == delivered
            } else {
                after.op_results == state.op_results
            }
        }),
{
    let after = state.report(key, value, delivered);
    if state.ops.contains_key(key) {
        assert(after.op_results.drop_last() =~= state.op_results);
    }
}

/// A disconnect frees the keys that begin with the device's address and its
/// count of disconnects, and no others, and counts on; the counts of other
/// devices stay.
pub proof fn law_a_disconnect_frees_its_own_keys(
    state: CentralView,
    addr: Seq<char>,
    other: Seq<char>,
    key: Seq<char>,
)
    requires
        other != addr,
    ensures
        ({
            let after = state.retire(addr);
            let own = exists|rest: Seq<char>|
                key == #[trigger] (epoch_prefix(addr, state.epoch(addr)) + rest);
            &&& after.ops.contains_key(key) <==> state.ops.contains_key(key) && !own
            &&& after.ops.contains_key(key) ==> after.ops[key] == state.ops[key]
            &&& after.epoch(addr) != state.epoch(addr)
            &&& after.epoch(other) == state.epoch(other)
        }),
{
    let prefix = epoch_prefix(addr, state.epoch(addr));
    if crate::text::begins_with(key, prefix) {
        assert(key =~= prefix + key.skip(prefix.len() as int)) by {
            assert(key =~= key.take(prefix.len() as int) + key.skip(prefix.len() as int));
        }
    }
    if exists|rest: Seq<char>| key == #[trigger] (prefix + rest) {
        let rest = choose|rest: Seq<char>| key == #[trigger] (prefix + rest);
        assert(key.take(prefix.len() as int) =~= prefix);
    }
}

/// Reads, writes and disconnects leave connects, disconnects and discoveries in
/// flight, the devices seen, MTUs and the deadline as they are.
pub proof fn law_operations_leave_the_rest(
    state: CentralView,
    addr: Seq<char>,
    key: Seq<char>,
    waiter: Replier<BlewResult<Vec<u8>>>,
    value: BlewResult<Vec<u8>>,
    delivered: bool,
)
    ensures
        same_rest(state, state.claim(key, waiter)),
        same_rest(state, state.free(key)),
        same_rest(state, state.report(key, value, delivered)),
        same_rest(state, state.retire(addr)),
        state.claim(key, waiter).ops.contains_key(key),
        state.claim(key, waiter).ops[key] == waiter,
        state.claim(key, waiter).op_results == state.op_results,
        state.claim(key, waiter).epochs == state.epochs,
        state.free(key).op_results == state.op_results,
        state.free(key).epochs == state.epochs,
        state.report(key, value, delivered).epochs == state.epochs,
        state.retire(addr).op_results == state.op_results,
{
}

/// What does not concern reads and writes is the same in both.
pub open spec fn same_rest(a: CentralView, b: CentralView) -> bool {
    &&& a.connects == b.connects
    &&& a.disconnects == b.disconnects
    &&& a.discoveries == b.discoveries
    &&& a.discovered == b.discovered
    &&& a.mtus == b.mtus
    &&& a.connect_timeout == b.connect_timeout
    &&& a.key_freed == b.key_freed
}

/// A request that is displaced is told that the device is busy, and nobody is
/// where none is.
pub proof fn law_a_displaced_request_is_told<T>(
    pending: Map<Seq<char>, Replier<BlewResult<T>>>,
    key: Seq<char>,
    device_id: Seq<char>,
    answer: Option<Outgoing<BlewResult<T>>>,
)
    requires
        busy_answer(pending, key, device_id, answer),
    ensures
        match answer {
            Some(out) => pending.contains_key(key) && out.to == pending[key] && (
            out.value matches Err(e) && e@ == crate::error::ErrorView::GattBusy(device_id)),
            None => !pending.contains_key(key),
        },
{
}

/// A scan is handed to Kotlin with one text for each service of the filter, in
/// order, that reads back as that service; it is refused only where those are
/// too many to count.
pub proof fn law_a_scan_asks_for_every_service(
    plan: BlewResult<ScanPlan>,
    filter: ScanFilter,
    i: int,
)
    requires
        is_scan_plan(plan, filter),
    ensures
        plan is Err <==> filter.services@.len() > 0x7fff_ffff,
        plan matches Ok(p) ==> {
            &&& p.low_power <==> filter.mode is LowPower
            &&& p.services@.len() == filter.services@.len()
            &&& 0 <= i < p.services@.len() ==> p.services@[i]@ == crate::uuids::uuid_text(
                filter.services@[i]@,
            )
        },
{
}

/// Every status but those with a meaning of their own is an error that names it,
/// and each of those names the device.
pub proof fn law_statuses_name_what_failed(status: i32, device_id: Seq<char>, char_uuid: u128)
    ensures
        status_error(1, device_id, char_uuid) == crate::error::ErrorView::NotConnected(device_id),
        status_error(2, device_id, char_uuid) == (
        crate::error::ErrorView::CharacteristicNotFound { device_id, char_uuid }),
        status_error(3, device_id, char_uuid) == crate::error::ErrorView::GattBusy(device_id),
        status_error(4, device_id, char_uuid) is Gatt,
        status < 1 || status > 4 ==> status_error(status, device_id, char_uuid)
            == crate::error::ErrorView::Internal(
            "unknown GATT status "@ + crate::text::signed_decimal(status as int),
        ),
{
}

/// Noting a device keeps every other device that is listed, in its place; the
/// device stands where it stood, or behind all others.
pub proof fn law_noting_keeps_the_others(list: Seq<BleDevice>, device: BleDevice, i: int)
    ensures
        ({
            let after = noted(list, device);
            let known = exists|j: int| 0 <= j < list.len() && (#[trigger] list[j]).id@ == device.id@;
            &&& after.len() == if known {
                list.len()
            } else {
                list.len() + 1
            }
            &&& !known ==> after.last() == device
            &&& 0 <= i < list.len() && list[i].id@ != device.id@ ==> after[i] == list[i]
            &&& 0 <= i < list.len() && list[i].id@ == device.id@ && (forall|j: int|
                0 <= j < i ==> (#[trigger] list[j]).id@ != device.id@) ==> after[i] == device
        }),
{
    let at = place_of(list, device.id@);
    lemma_placed(list, device.id@);
    if at == list.len() {
        assert(!exists|j: int| 0 <= j < list.len() && (#[trigger] list[j]).id@ == device.id@);
    } else {
        assert(list[at].id@ == device.id@);
        if 0 <= i < list.len() && list[i].id@ == device.id@ && (forall|j: int|
            0 <= j < i ==> (#[trigger] list[j]).id@ != device.id@) {
            if at < i {
                assert(list[at].id@ != device.id@);
            }
        }
    }
}

/// Two devices with addresses of the same length never share a key, whatever
/// they read or write and however often they have disconnected.
pub proof fn law_devices_are_kept_apart(
    addr: Seq<char>,
    other: Seq<char>,
    epoch: u64,
    other_epoch: u64,
    a: Seq<char>,
    b: Seq<char>,
)
    requires
        addr.len() == other.len(),
        addr != other,
    ensures
        read_key(addr, epoch, a) != read_key(other, other_epoch, b),
        write_key(addr, epoch, a) != write_key(other, other_epoch, b),
        read_key(addr, epoch, a) != write_key(other, other_epoch, b),
{
    let n = addr.len() as int;
    assert(read_key(addr, epoch, a).take(n) =~= addr);
    assert(write_key(addr, epoch, a).take(n) =~= addr);
    assert(read_key(other, other_epoch, b).take(n) =~= other);
    assert(write_key(other, other_epoch, b).take(n) =~= other);
}

} // verus!
