use blew::util::event_fanout::{keep_chosen, EventFanout};

#[test]
fn single_subscriber() {
    let mut fanout = EventFanout::<String>::new();
    let mut rx = fanout.subscribe(16).into_receiver();
    fanout.send("hello".to_string());
    assert_eq!(rx.try_recv().ok(), Some("hello".to_string()));
}

#[test]
fn multiple_subscribers() {
    let mut fanout = EventFanout::<i32>::new();
    let mut rx1 = fanout.subscribe(16).into_receiver();
    let mut rx2 = fanout.subscribe(16).into_receiver();
    fanout.send(42);
    assert_eq!(rx1.try_recv().ok(), Some(42));
    assert_eq!(rx2.try_recv().ok(), Some(42));
}

#[test]
fn slow_subscriber_dropped() {
    let mut fanout = EventFanout::<i32>::new();
    let mut rx1 = fanout.subscribe(1).into_receiver(); // overflows on the second send
    let mut rx2 = fanout.subscribe(16).into_receiver();
    assert!(fanout.send(1).is_empty());
    assert_eq!(fanout.send(2).len(), 1);
    assert_eq!(rx2.try_recv().ok(), Some(1));
    assert_eq!(rx2.try_recv().ok(), Some(2));
    // The slow one got the first event, and nothing after it was dropped.
    assert_eq!(rx1.try_recv().ok(), Some(1));
    fanout.send(3);
    assert!(rx1.try_recv().is_err());
    assert_eq!(rx2.try_recv().ok(), Some(3));
}

#[test]
fn a_closed_subscriber_does_not_affect_others() {
    let mut fanout = EventFanout::<i32>::new();
    drop(fanout.subscribe(16));
    let mut rx = fanout.subscribe(16).into_receiver();
    fanout.send(5);
    fanout.send(6);
    assert_eq!(rx.try_recv().ok(), Some(5));
    assert_eq!(rx.try_recv().ok(), Some(6));
}

#[test]
fn the_chosen_are_kept_in_order() {
    assert_eq!(
        keep_chosen(vec![1, 2, 3, 4], &vec![true, false, true, false]),
        [1, 3]
    );
    assert_eq!(keep_chosen(Vec::<u8>::new(), &vec![]), Vec::<u8>::new());
}
