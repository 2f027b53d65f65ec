use blew::util::op_slots::OpSlots;

#[test]
fn a_result_reaches_the_operation_holding_the_slot() {
    let mut slots = OpSlots::default();
    let (key, rx) = slots.try_claim("a".to_owned()).unwrap();
    assert!(slots.complete(&key, 1));
    assert_eq!(rx.into_receiver().try_recv().unwrap(), 1);
}

#[test]
fn a_second_operation_waits_for_the_first_ones_result() {
    let mut slots = OpSlots::default();
    let (_, first) = slots.try_claim("a".to_owned()).unwrap();
    assert!(slots.try_claim("a".to_owned()).is_none());

    assert!(slots.complete("a", 1));
    assert_eq!(first.into_receiver().try_recv().unwrap(), 1);
    let (_, second) = slots.try_claim("a".to_owned()).unwrap();
    assert!(slots.complete("a", 2));
    assert_eq!(second.into_receiver().try_recv().unwrap(), 2);
}

#[test]
fn a_caller_that_gave_up_keeps_its_slot_until_the_result() {
    let mut slots = OpSlots::default();
    drop(slots.try_claim("a".to_owned()).unwrap());
    assert!(
        slots.try_claim("a".to_owned()).is_none(),
        "the abandoned result is still owed"
    );
    assert!(!slots.complete("a", 1), "nobody is waiting for it");
    assert!(slots.try_claim("a".to_owned()).is_some());
}

#[test]
fn other_keys_do_not_wait() {
    let mut slots = OpSlots::<u8>::default();
    let _a = slots.try_claim("a".to_owned()).unwrap();
    let _b = slots.try_claim("b".to_owned()).unwrap();
}

#[test]
fn releasing_an_attempt_frees_its_slots_alone() {
    let mut slots = OpSlots::<u8>::default();
    let (_, first) = slots.try_claim("dev:1:x".to_owned()).unwrap();
    let (_, other) = slots.try_claim("dev:2:x".to_owned()).unwrap();
    let released = slots.released();
    let runtime = tokio::runtime::Builder::new_current_thread()
        .build()
        .unwrap();
    runtime.block_on(async {
        let waiting = released.notified();
        slots.release_where(|key| key.starts_with("dev:1:"));
        waiting.await;
    });
    assert!(first.into_receiver().try_recv().is_err(), "the channel closes");
    assert!(slots.try_claim("dev:1:x".to_owned()).is_some());
    assert!(slots.try_claim("dev:2:x".to_owned()).is_none());
    assert!(slots.complete("dev:2:x", 7));
    assert_eq!(other.into_receiver().try_recv().unwrap(), 7);
}

#[test]
fn a_released_slot_can_be_claimed_again() {
    let mut slots = OpSlots::<u8>::default();
    let (key, rx) = slots.try_claim("a".to_owned()).unwrap();
    slots.release(&key);
    assert!(rx.into_receiver().try_recv().is_err());
    assert!(!slots.complete("a", 1));
    assert!(slots.try_claim("a".to_owned()).is_some());
}
