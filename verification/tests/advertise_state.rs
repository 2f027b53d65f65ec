use blew::util::advertise_state::{AdvertiseState, Advertising};

#[test]
fn a_second_start_is_refused_while_starting() {
    let mut state = AdvertiseState::default();
    let (_id, _rx) = state.register().expect("first start claims the slot");
    assert!(state.register().is_none());
}

#[test]
fn a_second_start_is_refused_while_active() {
    let mut state = AdvertiseState::default();
    let (id, _rx) = state.register().unwrap();
    assert!(state.complete(id, true).is_some(), "waiter");
    assert!(state.register().is_none(), "active must refuse a new start");
}

#[test]
fn ids_are_unique_across_requests() {
    let mut state = AdvertiseState::default();
    let (first, _rx) = state.register().unwrap();
    state.complete(first, false);
    let (second, _rx) = state.register().unwrap();
    assert_ne!(first, second);
}

#[test]
fn a_failed_start_frees_the_slot() {
    let mut state = AdvertiseState::default();
    let (id, _rx) = state.register().unwrap();
    assert!(state.complete(id, false).is_some(), "waiter");
    assert!(state.register().is_some());
}

#[test]
fn a_stale_verdict_is_ignored() {
    let mut state = AdvertiseState::default();
    let (first, _rx) = state.register().unwrap();
    state.release(first);
    let (second, _rx) = state.register().unwrap();

    // The abandoned request's callback arrives late.
    assert!(state.complete(first, true).is_none());
    // ...and must not have disturbed the request that owns the slot now.
    assert_eq!(state.take().request_id(), Some(second));
}

#[test]
fn release_only_applies_to_the_owner() {
    let mut state = AdvertiseState::default();
    let (id, _rx) = state.register().unwrap();
    assert!(!state.release(id.wrapping_add(7)));
    assert!(state.release(id));
    assert!(state.register().is_some());
}

#[test]
fn release_applies_to_a_confirmed_request_too() {
    // A caller dropped after confirmation still has to free the slot.
    let mut state = AdvertiseState::default();
    let (id, _rx) = state.register().unwrap();
    state.complete(id, true);
    assert!(state.release(id));
    assert!(state.register().is_some());
}

#[test]
fn stop_during_startup_yields_the_waiter() {
    let mut state = AdvertiseState::default();
    let (id, _rx) = state.register().unwrap();
    match state.take() {
        Advertising::Starting(taken, _tx) => assert_eq!(taken, id),
        _ => panic!("stop must surface the in-flight start so it can be woken"),
    }
    assert!(
        state.register().is_some(),
        "a stop during startup must not block later starts"
    );
}

#[test]
fn a_stop_during_startup_leaves_the_start_unable_to_prove_ownership() {
    let mut state = AdvertiseState::default();
    let (id, _rx) = state.register().unwrap();

    let displaced = state.take();
    assert_eq!(
        displaced.request_id(),
        Some(id),
        "stop must name what it displaced"
    );

    assert!(
        !state.release(id),
        "the stop already freed the slot, so the start cannot claim ownership"
    );
}

#[test]
fn a_stop_names_the_request_it_displaces_in_every_state() {
    let mut state = AdvertiseState::default();
    assert_eq!(
        state.take().request_id(),
        None,
        "nothing registered, nothing to stop"
    );

    let (starting, _rx) = state.register().unwrap();
    assert_eq!(state.take().request_id(), Some(starting));

    let (active, _rx) = state.register().unwrap();
    assert!(state.complete(active, true).is_some(), "waiter");
    assert_eq!(state.take().request_id(), Some(active));
}

#[test]
fn a_start_confirmed_after_a_stop_does_not_reclaim_the_slot() {
    let mut state = AdvertiseState::default();
    let (id, _rx) = state.register().unwrap();

    // Verdict arrives and moves the slot to Active...
    assert!(state.complete(id, true).is_some(), "waiter");
    // ...then a stop takes it.
    assert_eq!(state.take().request_id(), Some(id));

    // Anything the resuming task does with its own id must not resurrect it.
    assert!(!state.release(id));
    assert!(state.complete(id, true).is_none());
    assert!(
        state.register().is_some(),
        "the slot must still be free after a stop"
    );
}

#[test]
fn the_waiter_of_a_start_reaches_its_caller() {
    let mut state = AdvertiseState::default();
    let (id, rx) = state.register().unwrap();
    let mut rx = rx.into_receiver();
    assert!(rx.try_recv().is_err());
    let waiter = state.complete(id, true).unwrap();
    let mut log = blew::util::reply::SentLog::new();
    assert!(waiter.send(Ok(()), &mut log));
    assert!(rx.try_recv().unwrap().is_ok());
}
