use vstd::prelude::*;

use crate::client::ClientRunError;
use crate::config::{next_delay, ReconnectPolicy};

verus! {

/// Where a client's reconnect loop stands: the wait before the next
/// connection attempt and the policy that wait follows.
#[derive(Clone, Copy, Debug, PartialEq, Eq)]
pub struct RunnerState {
    pub delay_ms: u64,
    pub policy: ReconnectPolicy,
}

/// What happened in a step of the reconnect loop.
#[derive(Debug)]
pub enum RunnerEvent {
    /// The credentials to authenticate with could not be had.
    AuthenticationFailed(ClientRunError),
    /// The client was told to shut down while connecting or authenticating.
    ShutdownRequested,
    /// The connection attempt failed in transport, with the error's text.
    ConnectFailed(String),
    /// The connection attempt failed for good.
    ConnectRefused(ClientRunError),
    /// The handshake failed in transport, with the error's text.
    HandshakeFailed(String),
    /// The handshake failed for good.
    HandshakeRefused(ClientRunError),
    /// The handshake succeeded.
    Connected,
    /// Resending subscriptions and pending requests failed, with the error's text.
    InitializeFailed(String),
    /// The session ended because the client shut down.
    SessionShutdown,
    /// The session ended and asks to reconnect, after `after_ms` when the server said so.
    SessionReconnect { reason: Option<String>, after_ms: Option<u64> },
    /// The session ended for good.
    SessionFatal(ClientRunError),
    /// The wait before reconnecting ended: `Ok(true)` to reconnect,
    /// `Ok(false)` when the client shut down meanwhile.
    WaitEnded(Result<bool, ClientRunError>),
}

/// What the loop does next.
#[derive(Debug)]
pub enum RunnerAction {
    /// Closes any connection and stops the run with this result.
    Stop(Result<(), ClientRunError>),
    /// Reports the connection lost for `reason`, marks every pending request
    /// unsent when `pending_unsent`, and waits `wait_ms` before connecting again.
    Wait { reason: Option<String>, pending_unsent: bool, wait_ms: u64 },
    /// Connects again.
    Connect,
    /// Goes on with the connected session.
    Proceed,
}

/// The state after the backoff grows: twice the wait, at most the policy's maximum.
pub open spec fn backed_off(state: RunnerState) -> RunnerState {
    RunnerState {
        delay_ms: if 2 * state.delay_ms <= state.policy.maximum_delay_ms {
            (2 * state.delay_ms) as u64
        } else {
            state.policy.maximum_delay_ms
        },
        ..state
    }
}

/// The step of the reconnect loop for `event`: failures in transport wait
/// and retry with a growing backoff (a failed resend after a handshake waits
/// without growing it), a successful handshake resets the backoff, a session
/// that asks to reconnect waits what the server asked for or else the
/// backoff, and shutdowns and lasting failures stop the run.
pub open spec fn reconnect_transition(state: RunnerState, event: RunnerEvent) -> (
    RunnerState,
    RunnerAction,
) {
    match event {
        RunnerEvent::AuthenticationFailed(error) => (state, RunnerAction::Stop(Err(error))),
        RunnerEvent::ShutdownRequested => (state, RunnerAction::Stop(Ok(()))),
        RunnerEvent::ConnectFailed(text) => (
            backed_off(state),
            RunnerAction::Wait {
                reason: Some(text),
                pending_unsent: false,
                wait_ms: state.delay_ms,
            },
        ),
        RunnerEvent::ConnectRefused(error) => (state, RunnerAction::Stop(Err(error))),
        RunnerEvent::HandshakeFailed(text) => (
            backed_off(state),
            RunnerAction::Wait { reason: Some(text), pending_unsent: true, wait_ms: state.delay_ms },
        ),
        RunnerEvent::HandshakeRefused(error) => (state, RunnerAction::Stop(Err(error))),
        RunnerEvent::Connected => (
            RunnerState { delay_ms: state.policy.initial_delay_ms, ..state },
            RunnerAction::Proceed,
        ),
        RunnerEvent::InitializeFailed(text) => (
            state,
            RunnerAction::Wait { reason: Some(text), pending_unsent: true, wait_ms: state.delay_ms },
        ),
        RunnerEvent::SessionShutdown => (state, RunnerAction::Stop(Ok(()))),
        RunnerEvent::SessionReconnect { reason, after_ms } => (
            backed_off(state),
            RunnerAction::Wait {
                reason,
                pending_unsent: true,
                wait_ms: match after_ms {
                    Some(ms) => ms,
                    None => state.delay_ms,
                },
            },
        ),
        RunnerEvent::SessionFatal(error) => (state, RunnerAction::Stop(Err(error))),
        RunnerEvent::WaitEnded(Ok(true)) => (state, RunnerAction::Connect),
        RunnerEvent::WaitEnded(Ok(false)) => (state, RunnerAction::Stop(Ok(()))),
        RunnerEvent::WaitEnded(Err(error)) => (state, RunnerAction::Stop(Err(error))),
    }
}

impl RunnerState {
    /// The loop before its first attempt: the wait is the policy's first one.
    pub fn new(policy: ReconnectPolicy) -> (r: Self)
        ensures
            r.delay_ms == policy.initial_delay_ms,
            r.policy == policy,
    {
        RunnerState { delay_ms: policy.initial_delay_ms, policy }
    }
}

/// Takes one step of the reconnect loop.
pub fn reconnect_step(state: &RunnerState, event: RunnerEvent) -> (r: (RunnerState, RunnerAction))
    ensures
        r == reconnect_transition(*state, event),
{
    let state = *state;
    let grown = RunnerState {
        delay_ms: next_delay(state.delay_ms, state.policy.maximum_delay_ms),
        ..state
    };
    match event {
        RunnerEvent::AuthenticationFailed(error) => (state, RunnerAction::Stop(Err(error))),
        RunnerEvent::ShutdownRequested => (state, RunnerAction::Stop(Ok(()))),
        RunnerEvent::ConnectFailed(text) => (
            grown,
            RunnerAction::Wait {
                reason: Some(text),
                pending_unsent: false,
                wait_ms: state.delay_ms,
            },
        ),
        RunnerEvent::ConnectRefused(error) => (state, RunnerAction::Stop(Err(error))),
        RunnerEvent::HandshakeFailed(text) => (
            grown,
            RunnerAction::Wait { reason: Some(text), pending_unsent: true, wait_ms: state.delay_ms },
        ),
        RunnerEvent::HandshakeRefused(error) => (state, RunnerAction::Stop(Err(error))),
        RunnerEvent::Connected => (
            RunnerState { delay_ms: state.policy.initial_delay_ms, ..state },
            RunnerAction::Proceed,
        ),
        RunnerEvent::InitializeFailed(text) => (
            state,
            RunnerAction::Wait { reason: Some(text), pending_unsent: true, wait_ms: state.delay_ms },
        ),
        RunnerEvent::SessionShutdown => (state, RunnerAction::Stop(Ok(()))),
        RunnerEvent::SessionReconnect { reason, after_ms } => {
            let wait_ms = match after_ms {
                Some(ms) => ms,
                None => state.delay_ms,
            };
            (grown, RunnerAction::Wait { reason, pending_unsent: true, wait_ms })
        },
        RunnerEvent::SessionFatal(error) => (state, RunnerAction::Stop(Err(error))),
        RunnerEvent::WaitEnded(Ok(true)) => (state, RunnerAction::Connect),
        RunnerEvent::WaitEnded(Ok(false)) => (state, RunnerAction::Stop(Ok(()))),
        RunnerEvent::WaitEnded(Err(error)) => (state, RunnerAction::Stop(Err(error))),
    }
}

/// The backoff stays within the policy: once the wait is at most the
/// maximum, and the first wait is too, every step keeps it so.
pub proof fn lemma_backoff_bounded(state: RunnerState, event: RunnerEvent)
    requires
        state.delay_ms <= state.policy.maximum_delay_ms,
        state.policy.initial_delay_ms <= state.policy.maximum_delay_ms,
    ensures
        reconnect_transition(state, event).0.delay_ms <= state.policy.maximum_delay_ms,
        reconnect_transition(state, event).0.policy == state.policy,
{
}

/// A successful handshake resets the backoff to the policy's first wait.
pub proof fn lemma_connected_resets_backoff(state: RunnerState)
    ensures
        reconnect_transition(state, RunnerEvent::Connected).0.delay_ms
            == state.policy.initial_delay_ms,
{
}

} // verus!
