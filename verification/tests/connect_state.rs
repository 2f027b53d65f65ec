use blew::central::types::DisconnectCause;
use blew::error::BlewError;
use blew::util::connect_state::{ConnectAttempts, ConnectionGuard};
use tokio::sync::oneshot;

const A: &str = "AA:BB:CC:DD:EE:FF";

#[test]
fn timeout_cleanup_is_single_fire_and_success_disarms_it() {
    let mut causes = Vec::new();
    {
        let mut guard = ConnectionGuard::new(|cause| causes.push(cause));
        guard.timed_out();
        assert!(guard.fire());
        assert!(!guard.fire());
    }
    {
        let mut guard = ConnectionGuard::new(|cause| causes.push(cause));
        guard.disarm();
        assert!(!guard.fire());
    }
    assert_eq!(causes, [DisconnectCause::Timeout]);
}

#[test]
fn an_abandoned_attempt_is_closed_locally() {
    let mut causes = Vec::new();
    let mut guard = ConnectionGuard::new(|cause| causes.push(cause));
    assert!(guard.fire());
    assert_eq!(causes, [DisconnectCause::LocalClose]);
}

#[test]
fn overlapping_connect_is_refused() {
    let mut state = ConnectAttempts::default();
    let _first = state.begin(A).unwrap();
    assert!(state.begin(A).is_none());
    assert!(state.begin("other").is_some());
}

#[test]
fn identity_survives_connected_until_disconnect() {
    let mut state = ConnectAttempts::default();
    let (generation, rx) = state.begin(A).unwrap();
    assert!(state.connected(A, generation));
    assert!(rx.into_receiver().blocking_recv().unwrap().is_ok());
    assert_eq!(state.generation(A), Some(generation));
    assert!(
        !state.connected(A, generation),
        "duplicate connection event"
    );
    let (closing, rx) = state.disconnect(A).unwrap();
    assert_eq!(closing, generation);
    assert!(state.begin(A).is_none());
    assert!(state.retire(A, generation));
    assert!(rx.into_receiver().blocking_recv().is_ok());
    assert_eq!(state.generation(A), None);
}

#[test]
fn stale_results_do_not_reach_replacement_or_its_disconnect_waiters() {
    let mut state = ConnectAttempts::default();
    let (old, _) = state.begin(A).unwrap();
    assert!(state.retire(A, old));
    let (new, connect_rx) = state.begin(A).unwrap();
    let mut connect_rx = connect_rx.into_receiver();
    assert!(!state.connected(A, old));
    assert!(!state.retire(A, old));
    assert!(matches!(
        connect_rx.try_recv(),
        Err(oneshot::error::TryRecvError::Empty)
    ));
    assert!(state.connected(A, new));
    let (_, disconnect_rx) = state.disconnect(A).unwrap();
    let mut disconnect_rx = disconnect_rx.into_receiver();
    assert!(!state.retire(A, old));
    assert!(matches!(
        disconnect_rx.try_recv(),
        Err(oneshot::error::TryRecvError::Empty)
    ));
    assert!(state.retire(A, new));
    assert!(disconnect_rx.blocking_recv().is_ok());
}

#[test]
fn disconnect_during_mtu_suppresses_connected_and_releases_all_waiters() {
    let mut state = ConnectAttempts::default();
    let (generation, connect_rx) = state.begin(A).unwrap();
    let (_, first) = state.disconnect(A).unwrap();
    let (_, second) = state.disconnect(A).unwrap();
    assert!(!state.connected(A, generation));
    assert!(state.retire(A, generation));
    assert!(matches!(
        connect_rx.into_receiver().blocking_recv().unwrap(),
        Err(BlewError::NotConnected(id)) if id.as_str() == A
    ));
    assert!(first.into_receiver().blocking_recv().is_ok());
    assert!(second.into_receiver().blocking_recv().is_ok());
}

#[test]
fn generations_wrap_without_reusing_zero() {
    let mut state = ConnectAttempts::starting_after(-1);
    assert_eq!(state.begin(A).unwrap().0, 1);
    let mut state = ConnectAttempts::starting_after(i32::MAX);
    assert_eq!(state.begin(A).unwrap().0, i32::MIN);
}

#[test]
fn a_disconnect_of_an_unknown_device_is_refused() {
    let mut state = ConnectAttempts::default();
    assert!(state.disconnect(A).is_none());
    assert!(!state.retire(A, 1));
    assert!(!state.is_live(A, 1));
}
