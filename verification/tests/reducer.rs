use omp_remote::ids::AgentId;
use omp_remote::protocol::{
    DeltaEnvelope, EventEnvelope, ReplayGap, ReplayGapReason, ServerFrame, StateSnapshot,
    UiInteractionEnvelope,
};
use omp_remote::reducer::{ReplicatedState, ReplicationEffect, ReplicationError};
use omp_remote::rpc::{ExtensionUiRequest, ExtensionUiRequestFrame};
use omp_remote::session::DesiredSubscriptions;
use omp_remote::state::{
    AgentLifecycle, AgentSnapshot, AgentStateChange, DeltaApplyError, EventSequence, StateDelta,
    StateRevision,
};

type Frame = ServerFrame<&'static str>;

fn agent_id() -> AgentId {
    AgentId::new("agent-1".to_owned()).unwrap()
}

fn snapshot(revision: u64, sequence: u64, lifecycle: AgentLifecycle) -> AgentSnapshot {
    let mut snapshot = AgentSnapshot::initial(agent_id());
    snapshot.revision = StateRevision(revision);
    snapshot.event_sequence = EventSequence(sequence);
    snapshot.lifecycle = lifecycle;
    snapshot
}

fn lifecycle_delta(base: u64, revision: u64, sequence: u64, lifecycle: AgentLifecycle) -> Frame {
    ServerFrame::Delta(DeltaEnvelope {
        event_sequence: EventSequence(sequence),
        delta: StateDelta {
            agent_id: agent_id(),
            base_revision: StateRevision(base),
            revision: StateRevision(revision),
            change: AgentStateChange::LifecycleChanged(lifecycle),
        },
    })
}

#[test]
fn snapshots_deltas_events_and_interactions_share_one_contiguous_cursor() {
    let mut state = ReplicatedState::default();
    state
        .apply::<&'static str>(ServerFrame::Snapshot(StateSnapshot {
            agents: vec![snapshot(3, 7, AgentLifecycle::Starting)],
        }))
        .unwrap();
    state
        .apply(lifecycle_delta(3, 4, 8, AgentLifecycle::Idle))
        .unwrap();
    state
        .apply(ServerFrame::Event(EventEnvelope {
            agent_id: agent_id(),
            event_sequence: EventSequence(9),
            event: "agent_start",
        }))
        .unwrap();
    let effects = state
        .apply::<&'static str>(ServerFrame::InteractionRequest(UiInteractionEnvelope {
            agent_id: agent_id(),
            event_sequence: EventSequence(10),
            request: ExtensionUiRequestFrame::Request {
                id: "ui-1".to_owned(),
                request: ExtensionUiRequest::Confirm {
                    title: "Continue?".to_owned(),
                    message: "Proceed".to_owned(),
                    timeout: None,
                },
            },
        }))
        .unwrap();

    assert!(matches!(
        effects.as_slice(),
        [ReplicationEffect::Interaction(_)]
    ));
    let cursor = state.cursor(&agent_id()).unwrap();
    assert_eq!(cursor.revision, StateRevision(4));
    assert_eq!(cursor.event_sequence, EventSequence(10));
}

#[test]
fn gaps_fail_closed_and_a_fresh_snapshot_replaces_local_state() {
    let mut state = ReplicatedState::default();
    state
        .apply::<&'static str>(ServerFrame::Snapshot(StateSnapshot {
            agents: vec![snapshot(1, 1, AgentLifecycle::Starting)],
        }))
        .unwrap();

    assert_eq!(
        state
            .apply(lifecycle_delta(1, 2, 3, AgentLifecycle::Running))
            .unwrap_err(),
        ReplicationError::NonContiguousEventSequence {
            local: EventSequence(1),
            incoming: EventSequence(3),
        }
    );
    assert_eq!(state.agent(&agent_id()).unwrap().revision, StateRevision(1));
    assert!(state.is_resync_required(&agent_id()));
    assert_eq!(state.cursor(&agent_id()), None);
    assert_eq!(
        state
            .apply(lifecycle_delta(1, 2, 2, AgentLifecycle::Running))
            .unwrap_err(),
        ReplicationError::ResyncPending(agent_id())
    );

    state
        .apply::<&'static str>(ServerFrame::Snapshot(StateSnapshot {
            agents: vec![snapshot(8, 20, AgentLifecycle::Interrupted)],
        }))
        .unwrap();
    assert!(!state.is_resync_required(&agent_id()));
    state
        .apply(lifecycle_delta(8, 9, 21, AgentLifecycle::Idle))
        .unwrap();

    let agent = state.agent(&agent_id()).unwrap();
    assert_eq!(agent.revision, StateRevision(9));
    assert_eq!(agent.event_sequence, EventSequence(21));
    assert_eq!(agent.lifecycle, AgentLifecycle::Idle);
}

#[test]
fn native_and_browser_targets_converge_from_identical_cbor_frames() {
    let agent_id = AgentId::new("shared-agent".to_owned()).unwrap();
    let frames: Vec<Frame> = vec![
        ServerFrame::Snapshot(StateSnapshot {
            agents: vec![AgentSnapshot::initial(agent_id.clone())],
        }),
        ServerFrame::Delta(DeltaEnvelope {
            event_sequence: EventSequence(1),
            delta: StateDelta {
                agent_id: agent_id.clone(),
                base_revision: StateRevision(0),
                revision: StateRevision(1),
                change: AgentStateChange::LifecycleChanged(AgentLifecycle::Idle),
            },
        }),
        ServerFrame::Delta(DeltaEnvelope {
            event_sequence: EventSequence(2),
            delta: StateDelta {
                agent_id: agent_id.clone(),
                base_revision: StateRevision(1),
                revision: StateRevision(2),
                change: AgentStateChange::LifecycleChanged(AgentLifecycle::Running),
            },
        }),
    ];
    let mut state = ReplicatedState::default();
    for frame in frames {
        state.apply(frame).unwrap();
    }
    let agent = state.agent(&agent_id).unwrap();
    assert_eq!(agent.revision, StateRevision(2));
    assert_eq!(agent.event_sequence, EventSequence(2));
    assert_eq!(agent.lifecycle, AgentLifecycle::Running);
}

#[test]
fn updates_before_a_snapshot_and_replay_gaps_are_reported() {
    let mut state = ReplicatedState::default();
    let error = state
        .apply(lifecycle_delta(0, 1, 1, AgentLifecycle::Idle))
        .unwrap_err();
    assert_eq!(error, ReplicationError::MissingSnapshot(agent_id()));
    assert_eq!(
        error.to_string(),
        "received an update for agent-1 before its snapshot"
    );
    assert_eq!(error.agent_id(), Some(&agent_id()));
    assert!(state.is_resync_required(&agent_id()));

    state
        .apply::<&'static str>(ServerFrame::Snapshot(StateSnapshot {
            agents: vec![snapshot(0, 0, AgentLifecycle::Starting)],
        }))
        .unwrap();
    let effects = state
        .apply::<&'static str>(ServerFrame::ReplayGap(ReplayGap {
            agent_id: agent_id(),
            current_revision: StateRevision(5),
            current_event_sequence: EventSequence(5),
            reason: ReplayGapReason::BufferExpired,
        }))
        .unwrap();
    assert!(matches!(
        effects.as_slice(),
        [ReplicationEffect::ResyncRequired(id)] if *id == agent_id()
    ));
    assert!(state.is_resync_required(&agent_id()));
    assert_eq!(
        ReplicationError::NonContiguousEventSequence {
            local: EventSequence(1),
            incoming: EventSequence(3)
        }
        .to_string(),
        "event sequence 3 does not immediately follow local sequence 1"
    );
}

#[test]
fn refused_deltas_report_the_delta_error() {
    let mut state = ReplicatedState::default();
    state
        .apply::<&'static str>(ServerFrame::Snapshot(StateSnapshot {
            agents: vec![snapshot(4, 4, AgentLifecycle::Starting)],
        }))
        .unwrap();
    let error = state
        .apply(lifecycle_delta(3, 4, 5, AgentLifecycle::Idle))
        .unwrap_err();
    assert_eq!(
        error,
        ReplicationError::Delta(DeltaApplyError::RevisionMismatch {
            local: StateRevision(4),
            base: StateRevision(3),
        })
    );
    assert_eq!(
        error.to_string(),
        "delta base revision 3 does not match local revision 4"
    );
    assert_eq!(state.agent(&agent_id()).unwrap().revision, StateRevision(4));
    assert!(state.is_resync_required(&agent_id()));
}

#[test]
fn reconnecting_resumes_only_known_agents_in_sync() {
    let mut state = ReplicatedState::default();
    state
        .apply::<&'static str>(ServerFrame::Snapshot(StateSnapshot {
            agents: vec![snapshot(3, 7, AgentLifecycle::Idle)],
        }))
        .unwrap();
    let mut wanted = DesiredSubscriptions::new();
    wanted.insert(AgentId::new("agent-unknown".to_owned()).unwrap());
    wanted.insert(agent_id());
    let cursors = wanted.resume_cursors(&state);
    assert_eq!(cursors.len(), 1);
    assert_eq!(cursors[0].agent_id.as_str(), "agent-1");
    assert_eq!(cursors[0].revision, StateRevision(3));
    assert_eq!(cursors[0].event_sequence, EventSequence(7));
}

#[test]
fn resync_marks_clear_only_for_agents_a_snapshot_lists() {
    let other = AgentId::new("agent-2".to_owned()).unwrap();
    let mut state = ReplicatedState::default();
    let mut second = snapshot(0, 0, AgentLifecycle::Starting);
    second.agent_id = other.clone();
    state
        .apply::<&'static str>(ServerFrame::Snapshot(StateSnapshot {
            agents: vec![snapshot(0, 0, AgentLifecycle::Starting), second],
        }))
        .unwrap();
    for id in [agent_id(), other.clone()] {
        state
            .apply::<&'static str>(ServerFrame::ReplayGap(ReplayGap {
                agent_id: id,
                current_revision: StateRevision(3),
                current_event_sequence: EventSequence(3),
                reason: ReplayGapReason::BufferExpired,
            }))
            .unwrap();
    }
    assert!(state.is_resync_required(&agent_id()));
    assert!(state.is_resync_required(&other));
    state
        .apply::<&'static str>(ServerFrame::Snapshot(StateSnapshot {
            agents: vec![snapshot(3, 3, AgentLifecycle::Idle)],
        }))
        .unwrap();
    assert!(!state.is_resync_required(&agent_id()));
    assert!(state.is_resync_required(&other));
    assert!(state.apply(lifecycle_delta(3, 4, 5, AgentLifecycle::Idle)).is_err());
    assert!(state.is_resync_required(&agent_id()));
}

#[test]
fn replicated_agents_are_listed_in_identifier_order() {
    let mut state = ReplicatedState::default();
    let agents: Vec<AgentSnapshot> = ["zulu", "alpha", "mike"]
        .iter()
        .map(|name| AgentSnapshot::initial(AgentId::new((*name).to_owned()).unwrap()))
        .collect();
    state.apply::<&'static str>(ServerFrame::Snapshot(StateSnapshot { agents })).unwrap();
    let listed: Vec<&str> = state.agents().iter().map(|agent| agent.agent_id.as_str()).collect();
    assert_eq!(listed, vec!["alpha", "mike", "zulu"]);
}
