//! The library driven by real waits.

use blew::central::types::DisconnectCause;
use blew::error::{BlewError, BlewResult};
use blew::l2cap::CloseHook;
use blew::platform::apple::central::{retry_when_ready, RetryEvent, RetryStep};
use blew::ready::{wait_ready, ReadyEvent, ReadyStep};
use blew::util::connect_state::{ConnectAttempts, ConnectionGuard};
use blew::util::notify_gate::{enter, handed_off, leave, GateWait, Handoff, NotifyGates};
use blew::util::op_slots::OpSlots;
use blew::util::reply::{Reply, Waited};
use std::future::Future;
use std::sync::atomic::{AtomicBool, AtomicUsize, Ordering};
use std::sync::{Arc, Mutex};
use std::time::Duration;
use tokio::sync::{oneshot, Notify};
use tokio::time::Instant;

const SHORT: Duration = Duration::from_millis(20);
const LONG: Duration = Duration::from_secs(5);

fn run<T>(future: impl Future<Output = T>) -> T {
    tokio::runtime::Builder::new_current_thread()
        .enable_time()
        .build()
        .unwrap()
        .block_on(future)
}

async fn wait_until<T>(reply: Reply<T>, deadline: Instant) -> Waited<T> {
    match tokio::time::timeout_at(deadline, reply.into_receiver()).await {
        Ok(Ok(value)) => Waited::Answered(value),
        Ok(Err(_)) => Waited::Dropped,
        Err(_) => Waited::TimedOut,
    }
}

struct Registration<'a> {
    gates: &'a Mutex<NotifyGates>,
    token: u64,
}

impl Drop for Registration<'_> {
    fn drop(&mut self) {
        self.gates.lock().unwrap().abandon("A", self.token);
    }
}

async fn send<T>(
    gates: &Mutex<NotifyGates>,
    timeout: Duration,
    hand_off: impl FnOnce() -> Handoff<T>,
) -> BlewResult<T> {
    let deadline = Instant::now() + timeout;
    let turn = gates.lock().unwrap().gate("A");
    let waited = match tokio::time::timeout_at(deadline, turn.acquire_owned()).await {
        Ok(Ok(permit)) => GateWait::Acquired(permit),
        Ok(Err(_)) => GateWait::Closed,
        Err(_) => GateWait::TimedOut,
    };
    let (token, reply) = enter(&mut gates.lock().unwrap(), "A", waited, timeout)?;
    let registration = Registration { gates, token };
    let handed = handed_off(&mut gates.lock().unwrap(), "A", token, hand_off());
    let value = match handed {
        Ok(value) => value,
        Err(result) => return result,
    };
    let waited = wait_until(reply, deadline).await;
    let result = leave(&mut gates.lock().unwrap(), "A", token, waited, value, timeout);
    drop(registration);
    result
}

fn gates() -> Arc<Mutex<NotifyGates>> {
    Arc::new(Mutex::new(NotifyGates::default()))
}

fn busy(gates: &Mutex<NotifyGates>) -> bool {
    gates.lock().unwrap().is_busy("A")
}

fn abandoned(gates: &Mutex<NotifyGates>) -> bool {
    gates.lock().unwrap().is_abandoned("A")
}

fn complete(gates: &Mutex<NotifyGates>, result: BlewResult<()>) {
    gates.lock().unwrap().complete("A", result);
}

type Sent = tokio::task::JoinHandle<BlewResult<&'static str>>;

fn spawn_send(gates: &Arc<Mutex<NotifyGates>>, timeout: Duration) -> (Arc<AtomicBool>, Sent) {
    let reached = Arc::new(AtomicBool::new(false));
    let flag = Arc::clone(&reached);
    let gates = Arc::clone(gates);
    let task = tokio::spawn(async move {
        send(&gates, timeout, move || {
            flag.store(true, Ordering::SeqCst);
            Handoff::Accepted("sent")
        })
        .await
    });
    (reached, task)
}

async fn settle() {
    tokio::time::sleep(Duration::from_millis(10)).await;
}

#[test]
fn a_timed_out_send_stays_registered_and_keeps_the_gate() {
    run(async {
        let gates = gates();
        let result = send(&gates, SHORT, || Handoff::Accepted(())).await;
        assert!(matches!(result, Err(BlewError::Peripheral { .. })));
        assert!(abandoned(&gates));
    });
}

#[test]
fn after_a_timeout_the_late_callback_frees_the_gate_and_the_next_send_waits_for_its_own() {
    run(async {
        let gates = gates();
        send(&gates, SHORT, || Handoff::Accepted(()))
            .await
            .unwrap_err();

        let (reached, task) = spawn_send(&gates, LONG);
        settle().await;
        assert!(
            !reached.load(Ordering::SeqCst),
            "a second send must not start while the abandoned one is registered"
        );

        complete(&gates, Ok(()));
        settle().await;
        assert!(reached.load(Ordering::SeqCst));
        assert!(
            !task.is_finished(),
            "the old callback must not resolve the new send"
        );

        complete(
            &gates,
            Err(BlewError::Internal("the new send's own callback".into())),
        );
        let result = task.await.unwrap();
        assert!(
            matches!(result, Err(BlewError::Internal(m)) if m == "the new send's own callback")
        );
        assert!(!busy(&gates));
    });
}

#[test]
fn after_a_timeout_a_disconnect_frees_the_gate() {
    run(async {
        let gates = gates();
        send(&gates, SHORT, || Handoff::Accepted(()))
            .await
            .unwrap_err();

        gates.lock().unwrap().disconnect("A");
        assert!(!busy(&gates));

        let (reached, task) = spawn_send(&gates, LONG);
        settle().await;
        assert!(reached.load(Ordering::SeqCst));
        complete(&gates, Ok(()));
        assert_eq!(task.await.unwrap().unwrap(), "sent");
    });
}

#[test]
fn a_send_that_times_out_waiting_for_the_gate_sends_and_registers_nothing() {
    run(async {
        let gates = gates();
        send(&gates, SHORT, || Handoff::Accepted(()))
            .await
            .unwrap_err();
        let next = gates.lock().unwrap().next_token();

        let reached = AtomicBool::new(false);
        let result = send(&gates, SHORT, || {
            reached.store(true, Ordering::SeqCst);
            Handoff::Accepted(())
        })
        .await;
        assert!(matches!(result, Err(BlewError::Peripheral { .. })));
        assert!(!reached.load(Ordering::SeqCst));
        assert_eq!(
            gates.lock().unwrap().next_token(),
            next,
            "the waiting send must not replace the abandoned entry"
        );
        assert!(abandoned(&gates));
    });
}

#[test]
fn a_dropped_send_is_abandoned_not_withdrawn() {
    run(async {
        let gates = gates();
        let (_, task) = spawn_send(&gates, LONG);
        settle().await;
        assert!(busy(&gates));

        task.abort();
        let _ = task.await;
        assert!(abandoned(&gates));

        let (reached, _next) = spawn_send(&gates, LONG);
        settle().await;
        assert!(!reached.load(Ordering::SeqCst));
        complete(&gates, Ok(()));
        settle().await;
        assert!(reached.load(Ordering::SeqCst));
    });
}

#[test]
fn a_declined_send_frees_the_gate_at_once() {
    run(async {
        let gates = gates();
        let result: BlewResult<()> = send(&gates, LONG, || {
            Handoff::Declined(Err(BlewError::NotSupported))
        })
        .await;
        assert!(matches!(result, Err(BlewError::NotSupported)));
        assert!(!gates.lock().unwrap().knows("A"));
    });
}

struct Armed<F: FnOnce(DisconnectCause)>(ConnectionGuard<F>);

impl<F: FnOnce(DisconnectCause)> Drop for Armed<F> {
    fn drop(&mut self) {
        self.0.fire();
    }
}

#[test]
fn dropping_an_inflight_future_retires_and_closes_its_attempt() {
    const A: &str = "AA:BB:CC:DD:EE:FF";
    run(async {
        let state = Arc::new(Mutex::new(ConnectAttempts::default()));
        let closes = Arc::new(Mutex::new(Vec::new()));
        let (generation, rx) = state.lock().unwrap().begin(A).unwrap();
        let worker_state = state.clone();
        let worker_closes = closes.clone();
        let (started, ready) = oneshot::channel();
        let task = tokio::spawn(async move {
            let _guard = Armed(ConnectionGuard::new(move |cause| {
                worker_state.lock().unwrap().retire(A, generation);
                worker_closes.lock().unwrap().push((generation, cause));
            }));
            started.send(()).unwrap();
            let _ = rx.into_receiver().await;
        });
        ready.await.unwrap();
        task.abort();
        assert!(task.await.unwrap_err().is_cancelled());
        assert_eq!(
            *closes.lock().unwrap(),
            [(generation, DisconnectCause::LocalClose)]
        );
        assert!(state.lock().unwrap().begin(A).is_some());
    });
}

async fn claim<T, R, E>(
    slots: &Mutex<OpSlots<T>>,
    attempt: impl Fn(&mut OpSlots<T>) -> Result<Option<R>, E>,
) -> Result<R, E> {
    let notify = slots.lock().unwrap().released();
    loop {
        let released = notify.notified();
        let claimed = attempt(&mut slots.lock().unwrap())?;
        if let Some(claimed) = claimed {
            return Ok(claimed);
        }
        released.await;
    }
}

#[test]
fn a_claim_for_a_retired_attempt_leaves_no_slot() {
    run(async {
        let slots = Mutex::new(OpSlots::<u8>::default());
        let live = Mutex::new(Some(1));
        let attempt = |slots: &mut OpSlots<u8>| {
            let live = live.lock().unwrap();
            let generation = live.ok_or("not connected")?;
            Ok(slots.try_claim(format!("dev:{generation}:x")))
        };

        {
            let mut live = live.lock().unwrap();
            *live = None;
            slots
                .lock()
                .unwrap()
                .release_where(|key| key.starts_with("dev:1:"));
        }

        assert_eq!(
            claim(&slots, attempt).await.map(|_| ()),
            Err("not connected")
        );
        assert!(slots
            .lock()
            .unwrap()
            .try_claim("dev:1:x".to_owned())
            .is_some());
    });
}

#[test]
fn releasing_an_attempt_wakes_its_waiters_to_recheck() {
    run(async {
        let slots = Arc::new(Mutex::new(OpSlots::<u8>::default()));
        let (_, first) = claim(&slots, |slots| {
            Ok::<_, ()>(slots.try_claim("dev:1:x".to_owned()))
        })
        .await
        .unwrap();
        let connected = Arc::new(Mutex::new(true));
        let second = tokio::spawn({
            let (slots, connected) = (slots.clone(), connected.clone());
            async move {
                claim(&slots, |slots| {
                    if *connected.lock().unwrap() {
                        Ok(slots.try_claim("dev:1:x".to_owned()))
                    } else {
                        Err("not connected")
                    }
                })
                .await
                .map(|_| ())
            }
        });
        tokio::task::yield_now().await;

        *connected.lock().unwrap() = false;
        slots
            .lock()
            .unwrap()
            .release_where(|key| key.starts_with("dev:1:"));

        assert!(first.into_receiver().await.is_err(), "the channel closes");
        assert_eq!(second.await.unwrap(), Err("not connected"));
    });
}

#[test]
fn a_claim_waits_for_the_slot() {
    run(async {
        let slots = Arc::new(Mutex::new(OpSlots::default()));
        let attempt = |slots: &mut OpSlots<u8>| Ok::<_, ()>(slots.try_claim("a".to_owned()));
        let (_, first) = claim(&slots, attempt).await.unwrap();
        let second = tokio::spawn({
            let slots = slots.clone();
            async move { claim(&slots, attempt).await.unwrap().1.into_receiver().await }
        });
        tokio::task::yield_now().await;
        assert!(!second.is_finished());

        assert!(slots.lock().unwrap().complete("a", 1));
        assert_eq!(first.into_receiver().await.unwrap(), 1);
        tokio::task::yield_now().await;
        assert!(slots.lock().unwrap().complete("a", 2));
        assert_eq!(second.await.unwrap().unwrap(), 2);
    });
}

async fn retry(
    ready: &Notify,
    timeout: Duration,
    mut attempt: impl FnMut() -> BlewResult<bool>,
) -> BlewResult<bool> {
    let deadline = Instant::now() + timeout;
    loop {
        let notified = ready.notified();
        match retry_when_ready(RetryEvent::Attempted(attempt())) {
            RetryStep::Done(sent) => return sent,
            RetryStep::Attempt => continue,
            RetryStep::Wait => {}
        }
        let event = match tokio::time::timeout_at(deadline, notified).await {
            Ok(()) => RetryEvent::Ready,
            Err(_) => RetryEvent::TimedOut,
        };
        if let RetryStep::Done(sent) = retry_when_ready(event) {
            return sent;
        }
    }
}

#[test]
fn a_ready_callback_between_attempt_and_wait_is_not_missed() {
    run(async {
        let ready = Notify::new();
        let mut first = true;
        let sent = retry(&ready, LONG, || {
            if first {
                first = false;
                ready.notify_waiters();
                return Ok(false);
            }
            Ok(true)
        })
        .await
        .unwrap();
        assert!(sent);
        assert!(!retry(&ready, SHORT, || Ok(false)).await.unwrap());
    });
}

#[test]
fn an_attempt_is_repeated_once_per_callback() {
    run(async {
        let ready = Arc::new(Notify::new());
        let room = Arc::new(AtomicBool::new(false));
        let attempts = Arc::new(AtomicUsize::new(0));
        let write = tokio::spawn({
            let (ready, room, attempts) = (ready.clone(), room.clone(), attempts.clone());
            async move {
                retry(&ready, LONG, || {
                    attempts.fetch_add(1, Ordering::SeqCst);
                    Ok(room.load(Ordering::SeqCst))
                })
                .await
            }
        });
        tokio::task::yield_now().await;
        assert_eq!(attempts.load(Ordering::SeqCst), 1);
        assert!(!write.is_finished());

        room.store(true, Ordering::SeqCst);
        ready.notify_waiters();
        assert!(write.await.unwrap().unwrap());
        assert_eq!(attempts.load(Ordering::SeqCst), 2);
    });
}

#[test]
fn peripheral_wait_ready_returns_immediately_when_already_powered() {
    assert!(matches!(
        wait_ready(ReadyEvent::Asked(Some(true))),
        ReadyStep::Done(Ok(()))
    ));
}

#[test]
fn peripheral_wait_ready_times_out_if_never_powered() {
    assert!(matches!(
        wait_ready(ReadyEvent::Asked(Some(false))),
        ReadyStep::Wait
    ));
    assert!(matches!(
        wait_ready(ReadyEvent::TimedOut),
        ReadyStep::Done(Err(BlewError::Timeout))
    ));
}

struct Closing<F: FnOnce()>(CloseHook<F>);

impl<F: FnOnce()> Drop for Closing<F> {
    fn drop(&mut self) {
        self.0.trigger_close();
    }
}

#[test]
fn drop_triggers_hook_once() {
    let runs = Arc::new(AtomicUsize::new(0));
    {
        let runs = Arc::clone(&runs);
        let mut closing = Closing(CloseHook::new(Some(move || {
            runs.fetch_add(1, Ordering::SeqCst);
        })));
        closing.0.trigger_close();
    }
    assert_eq!(runs.load(Ordering::SeqCst), 1);
}
