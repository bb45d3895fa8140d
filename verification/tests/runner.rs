use omp_remote::client::ClientRunError;
use omp_remote::config::ReconnectPolicy;
use omp_remote::runner::{reconnect_step, RunnerAction, RunnerEvent, RunnerState};

fn policy() -> ReconnectPolicy {
    ReconnectPolicy { initial_delay_ms: 250, maximum_delay_ms: 1_000 }
}

#[test]
fn transport_failures_back_off_and_a_handshake_resets_the_wait() {
    let state = RunnerState::new(policy());
    let (state, action) = reconnect_step(&state, RunnerEvent::ConnectFailed("refused".to_owned()));
    assert!(matches!(action, RunnerAction::Wait { wait_ms: 250, pending_unsent: false, .. }));
    assert_eq!(state.delay_ms, 500);
    let (state, action) = reconnect_step(&state, RunnerEvent::HandshakeFailed("reset".to_owned()));
    assert!(matches!(action, RunnerAction::Wait { wait_ms: 500, pending_unsent: true, .. }));
    assert_eq!(state.delay_ms, 1_000);
    let (state, _) = reconnect_step(&state, RunnerEvent::ConnectFailed("refused".to_owned()));
    assert_eq!(state.delay_ms, 1_000);
    let (state, action) = reconnect_step(&state, RunnerEvent::Connected);
    assert!(matches!(action, RunnerAction::Proceed));
    assert_eq!(state.delay_ms, 250);
    let (state, action) = reconnect_step(
        &state,
        RunnerEvent::SessionReconnect { reason: Some("maintenance".to_owned()), after_ms: Some(5_000) },
    );
    assert!(matches!(action, RunnerAction::Wait { wait_ms: 5_000, pending_unsent: true, .. }));
    assert_eq!(state.delay_ms, 500);
    let (_, action) = reconnect_step(&state, RunnerEvent::WaitEnded(Ok(true)));
    assert!(matches!(action, RunnerAction::Connect));
    let (_, action) = reconnect_step(&state, RunnerEvent::WaitEnded(Ok(false)));
    assert!(matches!(action, RunnerAction::Stop(Ok(()))));
    let (_, action) = reconnect_step(
        &state,
        RunnerEvent::HandshakeRefused(ClientRunError::ServerIdentityMismatch),
    );
    assert!(matches!(action, RunnerAction::Stop(Err(ClientRunError::ServerIdentityMismatch))));
}
