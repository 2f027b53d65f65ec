use blew::error::BlewError;
use blew::util::notify_gate::{
    disconnected, enter, handed_off, leave, timed_out, GateWait, Handoff, NotifyGates,
};
use blew::util::reply::Waited;
use std::time::Duration;

const LIMIT: Duration = Duration::from_millis(20);

#[test]
fn a_stale_token_cannot_touch_a_newer_send() {
    let mut g = NotifyGates::default();
    let permit = g.gate("A").try_acquire_owned().unwrap();
    let (old, _rx_old) = g.begin("A", permit);
    g.complete("A", Ok(()));

    let permit = g.gate("A").try_acquire_owned().unwrap();
    let (_new, rx_new) = g.begin("A", permit);
    let mut rx_new = rx_new.into_receiver();
    g.withdraw("A", old);
    g.abandon("A", old);
    assert!(g.is_busy("A") && !g.is_abandoned("A"));
    assert!(g.gate("A").try_acquire_owned().is_err());
    assert!(rx_new.try_recv().is_err());
}

#[test]
fn a_timed_out_send_stays_registered_and_keeps_its_permit() {
    let mut g = NotifyGates::default();
    let permit = g.gate("A").try_acquire_owned().unwrap();
    let (token, _rx) = enter(&mut g, "A", GateWait::Acquired(permit), LIMIT).unwrap();
    assert!(handed_off(&mut g, "A", token, Handoff::Accepted(())).is_ok());
    let result = leave(&mut g, "A", token, Waited::TimedOut, (), LIMIT);
    assert!(matches!(
        result,
        Err(BlewError::Peripheral { source })
            if source == "notification did not complete within 20ms"
    ));
    assert!(g.is_abandoned("A"));
    assert!(g.gate("A").try_acquire_owned().is_err());

    // The late callback frees the device, and resolves nothing else.
    g.complete("A", Ok(()));
    assert!(!g.is_busy("A"));
    let permit = g.gate("A").try_acquire_owned().unwrap();
    let (_, rx) = enter(&mut g, "A", GateWait::Acquired(permit), LIMIT).unwrap();
    let mut rx = rx.into_receiver();
    assert!(rx.try_recv().is_err(), "the old callback must not resolve the new send");
    g.complete("A", Err(BlewError::Internal("its own".into())));
    assert!(matches!(
        rx.try_recv().unwrap(),
        Err(BlewError::Internal(m)) if m == "its own"
    ));
}

#[test]
fn a_send_that_times_out_waiting_registers_nothing() {
    let mut g = NotifyGates::default();
    let permit = g.gate("A").try_acquire_owned().unwrap();
    let (token, _rx) = g.begin("A", permit);
    let waiting = g.gate("A");
    let before = g.next_token();
    let entered = enter(&mut g, "A", GateWait::TimedOut, LIMIT);
    assert!(matches!(entered, Err(BlewError::Peripheral { .. })));
    drop(waiting);
    assert_eq!(g.next_token(), before);
    assert!(g.is_busy("A"));
    // The send that was registered still is.
    g.abandon("A", token);
    assert!(g.is_abandoned("A"));
}

#[test]
fn a_declined_send_frees_the_device_at_once() {
    let mut g = NotifyGates::default();
    let permit = g.gate("A").try_acquire_owned().unwrap();
    let (token, _rx) = enter(&mut g, "A", GateWait::Acquired(permit), LIMIT).unwrap();
    let outcome = handed_off::<()>(
        &mut g,
        "A",
        token,
        Handoff::Declined(Err(BlewError::NotSupported)),
    );
    assert!(matches!(outcome, Err(Err(BlewError::NotSupported))));
    assert!(!g.knows("A"));
}

#[test]
fn a_disconnect_fails_a_waiting_send() {
    let mut g = NotifyGates::default();
    let permit = g.gate("A").try_acquire_owned().unwrap();
    let (token, rx) = enter(&mut g, "A", GateWait::Acquired(permit), LIMIT).unwrap();
    g.disconnect("A");
    let waited = Waited::Answered(rx.into_receiver().try_recv().unwrap());
    let result = leave(&mut g, "A", token, waited, "sent", LIMIT);
    assert!(matches!(
        result,
        Err(BlewError::DisconnectedDuringOperation(id)) if id.as_str() == "A"
    ));
}

#[test]
fn a_completed_send_leaves_nothing_behind() {
    let mut g = NotifyGates::default();
    let permit = g.gate("A").try_acquire_owned().unwrap();
    let (token, rx) = enter(&mut g, "A", GateWait::Acquired(permit), LIMIT).unwrap();
    g.complete("A", Ok(()));
    let waited = Waited::Answered(rx.into_receiver().try_recv().unwrap());
    assert_eq!(
        leave(&mut g, "A", token, waited, "sent", LIMIT).unwrap(),
        "sent"
    );
    assert!(!g.knows("A"));
}

#[test]
fn a_gate_that_closed_fails_the_send() {
    let mut g = NotifyGates::default();
    assert!(matches!(
        enter(&mut g, "A", GateWait::Closed, LIMIT),
        Err(BlewError::Internal(text)) if text == "notification gate closed"
    ));
    assert!(matches!(
        leave(&mut g, "A", 0, Waited::Dropped, (), LIMIT),
        Err(BlewError::Internal(text))
            if text == "peripheral shut down before the notification completed"
    ));
}

#[test]
fn a_device_that_someone_waits_on_is_not_forgotten() {
    let mut g = NotifyGates::default();
    let waiting = g.gate("A");
    g.forget_if_idle("A");
    assert!(g.knows("A"));
    drop(waiting);
    g.forget_if_idle("A");
    assert!(!g.knows("A"));
    g.forget_at("B", 1);
    assert!(!g.knows("B"));
}

#[test]
fn a_timeout_is_put_into_words() {
    assert_eq!(
        timed_out(Duration::from_secs(5)).message(),
        "peripheral error: notification did not complete within 5s"
    );
    assert!(matches!(
        disconnected("A"),
        Err(BlewError::DisconnectedDuringOperation(id)) if id.as_str() == "A"
    ));
}
