//! The Linux peripheral's queue of services for the next advertisement.
//!
//! Adding a service on Linux never reaches BlueZ: it queues the service, and
//! starting to advertise serves the whole queue as one GATT application.
//! Nothing removes a queued service, so an application that re-adds its
//! services -- which it has to after an adapter power cycle on Android, and is
//! told to do cross-platform -- would serve each of them twice.
use crate::gatt::service::GattService;
use vstd::prelude::*;

verus! {

/// Position `i` is the first of `pending` with the UUID `uuid`.
pub open spec fn first_with(pending: Seq<GattService>, uuid: u128, i: int) -> bool {
    &&& 0 <= i < pending.len()
    &&& pending[i].uuid@ == uuid
    &&& forall|j: int| 0 <= j < i ==> (#[trigger] pending[j]).uuid@ != uuid
}

/// No service of `pending` has the UUID `uuid`.
pub open spec fn absent(pending: Seq<GattService>, uuid: u128) -> bool {
    forall|j: int| 0 <= j < pending.len() ==> (#[trigger] pending[j]).uuid@ != uuid
}

/// `after` is `pending` with `service` queued: in the place of the service
/// with its UUID, or behind all others where there is none.
pub open spec fn queued(
    pending: Seq<GattService>,
    service: GattService,
    after: Seq<GattService>,
) -> bool {
    ||| absent(pending, service.uuid@) && after == pending.push(service)
    ||| exists|i: int| #[trigger]
        first_with(pending, service.uuid@, i) && after == pending.update(i, service)
}

/// The UUIDs of `pending`, in order.
pub open spec fn uuids(pending: Seq<GattService>) -> Seq<u128> {
    pending.map_values(|s: GattService| s.uuid@)
}

/// Queue `service` for the next advertisement.
///
/// A service whose UUID is already queued is replaced in place, keeping its
/// position, so adding the same service again converges instead of serving a
/// second copy. Replacing rather than ignoring means the latest definition
/// wins, which is what a caller re-adding a changed service expects.
pub fn queue_service(pending: &mut Vec<GattService>, service: GattService)
    ensures
        queued(old(pending)@, service, final(pending)@),
{
    let ghost before = pending@;
    let wanted: u128 = service.uuid.as_u128();
    let mut i: usize = 0;
    while i < pending.len()
        invariant
            i <= pending@.len(),
            pending@ == before,
            before == old(pending)@,
            wanted == service.uuid@,
            forall|j: int| 0 <= j < i ==> (#[trigger] pending@[j]).uuid@ != wanted,
        decreases pending@.len() - i,
    {
        if pending[i].uuid.as_u128() == wanted {
            assert(first_with(before, service.uuid@, i as int));
            pending.set(i, service);
            return ;
        }
        i += 1;
    }
    pending.push(service);
}

/// Queueing changes the order of the UUIDs only by appending a new one.
pub proof fn law_queueing_keeps_the_order(
    pending: Seq<GattService>,
    service: GattService,
    after: Seq<GattService>,
)
    requires
        queued(pending, service, after),
    ensures
        uuids(after) == (if absent(pending, service.uuid@) {
            uuids(pending).push(service.uuid@)
        } else {
            uuids(pending)
        }),
{
    if !absent(pending, service.uuid@) {
        assert(uuids(after) =~= uuids(pending));
    } else {
        assert(uuids(after) =~= uuids(pending).push(service.uuid@));
    }
}

/// No UUID is queued twice, however often services are queued.
pub proof fn law_no_service_twice(
    pending: Seq<GattService>,
    service: GattService,
    after: Seq<GattService>,
)
    requires
        uuids(pending).no_duplicates(),
        queued(pending, service, after),
    ensures
        uuids(after).no_duplicates(),
{
    law_queueing_keeps_the_order(pending, service, after);
    if absent(pending, service.uuid@) {
        let list = uuids(after);
        assert forall|i: int, j: int| 0 <= i < list.len() && 0 <= j < list.len() && i != j implies
            list[i] != list[j] by {
            if i < pending.len() {
                assert(uuids(pending)[i] == pending[i].uuid@);
            }
            if j < pending.len() {
                assert(uuids(pending)[j] == pending[j].uuid@);
            }
        }
    }
}

/// Queueing a service again leaves the queue as it is, and the definition
/// queued last is the one that is served.
pub proof fn law_re_adding_converges(
    pending: Seq<GattService>,
    service: GattService,
    once: Seq<GattService>,
    twice: Seq<GattService>,
)
    requires
        queued(pending, service, once),
        queued(once, service, twice),
    ensures
        twice == once,
        once.contains(service),
{
    if absent(pending, service.uuid@) {
        assert(once[once.len() - 1] == service);
        assert(!absent(once, service.uuid@));
        let i = choose|i: int| #[trigger]
            first_with(once, service.uuid@, i) && twice == once.update(i, service);
        if i < pending.len() {
            assert(once[i] == pending[i]);
        }
        assert(twice =~= once);
    } else {
        let k = choose|k: int| #[trigger]
            first_with(pending, service.uuid@, k) && once == pending.update(k, service);
        assert(once[k] == service);
        assert(!absent(once, service.uuid@));
        let i = choose|i: int| #[trigger]
            first_with(once, service.uuid@, i) && twice == once.update(i, service);
        if i < k {
            assert(once[i] == pending[i]);
        } else if k < i {
            assert(once[k].uuid@ != service.uuid@);
        }
        assert(twice =~= once);
    }
}

/// Queueing a service keeps every service with another UUID, in its place, and
/// leaves exactly one more or none: the queued one stands where the one with its
/// UUID stood first, or behind all others.
pub proof fn law_queueing_keeps_the_others(
    pending: Seq<GattService>,
    service: GattService,
    after: Seq<GattService>,
    i: int,
)
    requires
        queued(pending, service, after),
    ensures
        after.len() == pending.len() || after.len() == pending.len() + 1,
        after.len() == pending.len() + 1 <==> forall|j: int|
            0 <= j < pending.len() ==> (#[trigger] pending[j]).uuid@ != service.uuid@,
        after.len() == pending.len() + 1 ==> after.last() == service,
        0 <= i < pending.len() && pending[i].uuid@ != service.uuid@ ==> after[i] == pending[i],
        0 <= i < pending.len() && pending[i].uuid@ == service.uuid@ && (forall|j: int|
            0 <= j < i ==> (#[trigger] pending[j]).uuid@ != service.uuid@) ==> after[i] == service,
{
    if absent(pending, service.uuid@) {
    } else {
        let k = choose|k: int| #[trigger]
            first_with(pending, service.uuid@, k) && after == pending.update(k, service);
        assert(pending[k].uuid@ == service.uuid@);
        if 0 <= i < pending.len() && pending[i].uuid@ == service.uuid@ && (forall|j: int|
            0 <= j < i ==> (#[trigger] pending[j]).uuid@ != service.uuid@) {
            assert(i == k) by {
                if k < i {
                    assert(pending[k].uuid@ != service.uuid@);
                }
            }
        }
    }
}

} // verus!
