use blew::error::BlewError;
use blew::util::callback_slots::{answer_of, CallbackSlots};
use blew::util::reply::{SentLog, Waited};

type Slots = CallbackSlots<u8, &'static str, u32>;

fn gave_up() -> BlewError {
    BlewError::Peripheral {
        source: "gave up".into(),
    }
}

#[test]
fn a_held_key_refuses_a_second_registration() {
    let mut slots = Slots::default();
    let _first = slots.register(1, "first").unwrap();
    assert!(slots.register(1, "second").is_none());
}

#[test]
fn keys_are_independent() {
    let mut slots = Slots::default();
    let _a = slots.register(1, "a").unwrap();
    assert!(slots.register(2, "b").is_some());
}

#[test]
fn the_callback_reaches_the_waiter_and_frees_the_slot() {
    let mut slots = Slots::default();
    let (_, rx) = slots.register(1, "chars").unwrap();
    let mut rx = rx.into_receiver();

    let (payload, answer) = slots.take(&1).unwrap().split();
    assert_eq!(payload, "chars");
    assert!(answer.send(Ok(7), &mut SentLog::new()));
    assert_eq!(rx.try_recv().unwrap().unwrap(), 7);

    assert!(slots.register(1, "again").is_some());
}

/// The case the whole type exists for: a request whose caller stopped
/// waiting still owns its key, so its late answer can't confirm the next.
#[test]
fn a_late_answer_is_consumed_by_the_request_it_answers() {
    let mut slots = Slots::default();
    let (_, abandoned) = slots.register(1, "first").unwrap();
    drop(abandoned);

    assert!(
        slots.register(1, "retry").is_none(),
        "the retry must not take a key the platform still owes an answer on"
    );

    // The first request's answer lands, is consumed, and reaches nobody.
    let (payload, answer) = slots.take(&1).unwrap().split();
    assert_eq!(payload, "first");
    assert!(!answer.send(Ok(1), &mut SentLog::new()));

    // Only now does the retry get the key, and only its own answer.
    let (_, rx) = slots.register(1, "retry").unwrap();
    let mut rx = rx.into_receiver();
    assert!(slots.take(&1).unwrap().answer(Ok(2), &mut SentLog::new()));
    assert_eq!(rx.try_recv().unwrap().unwrap(), 2);
}

#[test]
fn withdraw_removes_only_its_own_registration() {
    let mut slots = Slots::default();
    let (stale, _) = slots.register(1, "stale").unwrap();
    for pending in slots.drain() {
        pending.answer(Err(BlewError::NotPowered), &mut SentLog::new());
    }
    let (current, _rx) = slots.register(1, "current").unwrap();

    assert!(!slots.withdraw(&1, stale));
    assert!(
        slots.register(1, "third").is_none(),
        "current still holds it"
    );
    assert!(slots.withdraw(&1, current));
    assert!(slots.register(1, "third").is_some());
}

#[test]
fn drain_fails_every_waiter_and_frees_every_slot() {
    let mut slots = Slots::default();
    let (_, a) = slots.register(1, "a").unwrap();
    let mut a = a.into_receiver();
    let (_, abandoned) = slots.register(2, "b").unwrap();
    drop(abandoned);

    let drained = slots.drain();
    assert_eq!(drained.len(), 2);
    for pending in drained {
        pending.answer(Err(BlewError::NotPowered), &mut SentLog::new());
    }

    assert!(matches!(a.try_recv().unwrap(), Err(BlewError::NotPowered)));
    assert!(slots.take(&1).is_none());
    assert!(slots.register(1, "a").is_some());
    assert!(slots.register(2, "b").is_some());
}

#[test]
fn a_callback_with_nothing_registered_is_unclaimed() {
    let mut slots = Slots::default();
    assert!(slots.take(&1).is_none());
}

#[test]
fn giving_up_leaves_the_slot_held() {
    let mut slots = Slots::default();
    let (_, rx) = slots.register(1, "first").unwrap();
    drop(rx);

    let result: Result<u32, BlewError> = answer_of(Waited::TimedOut, gave_up);
    assert!(matches!(result, Err(BlewError::Peripheral { source }) if source == "gave up"));

    assert!(slots.register(1, "retry").is_none());
    assert!(!slots.take(&1).unwrap().answer(Ok(1), &mut SentLog::new()));
}

#[test]
fn an_answer_inside_the_limit_is_returned() {
    let mut slots = Slots::default();
    let (_, rx) = slots.register(1, "first").unwrap();
    assert!(slots.take(&1).unwrap().answer(Ok(9), &mut SentLog::new()));

    let waited = match rx.into_receiver().try_recv() {
        Ok(answer) => Waited::Answered(answer),
        Err(_) => Waited::Dropped,
    };
    assert_eq!(answer_of(waited, gave_up).unwrap(), 9);
}

#[test]
fn a_slot_dropped_unanswered_is_an_internal_error() {
    let result: Result<u32, BlewError> = answer_of(Waited::Dropped, gave_up);
    assert!(matches!(
        result,
        Err(BlewError::Internal(text)) if text == "callback slot dropped before it was answered"
    ));
}
