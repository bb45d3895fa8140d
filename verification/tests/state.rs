use omp_remote::actor::{
    subscriber_after_send, subscription_answer, ActorState, AgentActorConfig, AgentError,
    InteractionLeaseError, SendOutcome, SubscriberFate, SubscriptionError,
};
use omp_remote::ids::{AgentId, LeaseHolderId, RunId};
use omp_remote::state::{
    apply_change, AgentLifecycle, AgentSnapshot, AgentStateChange, AgentUpdate, DeltaApplyError,
    EventSequence, InteractionState, RunLifecycle, RunSnapshot, SessionSummary, StateDelta,
    StateRevision, SubscriptionCursor, SubscriptionStart,
};

type Actor = ActorState<&'static str>;

fn agent_id() -> AgentId {
    AgentId::new("agent-1".to_owned()).unwrap()
}

fn actor(replay_capacity: usize, subscriber_capacity: usize) -> Actor {
    ActorState::new(
        AgentSnapshot::initial(agent_id()),
        AgentActorConfig { replay_capacity, subscriber_capacity },
    )
}

fn change(actor: &mut Actor, change: AgentStateChange) -> AgentUpdate<&'static str> {
    actor.apply_change(change).unwrap().unwrap();
    actor.latest_update().unwrap().clone()
}

#[test]
fn snapshot_plus_deltas_converges_to_authoritative_state() {
    let mut agent = actor(16, 16);
    let mut reduced = match agent.subscribe(None) {
        SubscriptionStart::Snapshot(snapshot) => snapshot,
        other => panic!("expected initial snapshot, got {other:?}"),
    };
    let mut updates = Vec::new();
    updates.push(change(&mut agent, AgentStateChange::LifecycleChanged(AgentLifecycle::Idle)));
    updates.push(change(
        &mut agent,
        AgentStateChange::SessionChanged(SessionSummary {
            session_id: "session-1".to_owned(),
            session_file: Some("/tmp/session.jsonl".to_owned()),
            name: Some("demo".to_owned()),
            message_count: 3,
        }),
    ));
    let run_id = RunId::new("run-1".to_owned()).unwrap();
    updates.push(change(
        &mut agent,
        AgentStateChange::RunUpserted(RunSnapshot {
            run_id: run_id.clone(),
            lifecycle: RunLifecycle::Running,
            started_at_ms: 1_000,
            ended_at_ms: None,
        }),
    ));
    updates.push(change(
        &mut agent,
        AgentStateChange::RunUpserted(RunSnapshot {
            run_id,
            lifecycle: RunLifecycle::Completed,
            started_at_ms: 1_000,
            ended_at_ms: Some(2_000),
        }),
    ));
    for update in updates {
        reduced.apply_update(update).unwrap();
    }
    assert_eq!(&reduced, agent.snapshot());
    assert_eq!(reduced.revision, StateRevision(4));
    assert_eq!(reduced.event_sequence, EventSequence(4));
}

#[test]
fn replay_gaps_and_missed_revisions_require_resynchronization() {
    let mut agent = actor(2, 8);
    let initial = match agent.subscribe(None) {
        SubscriptionStart::Snapshot(snapshot) => snapshot,
        other => panic!("expected initial snapshot, got {other:?}"),
    };
    let cursor = SubscriptionCursor {
        agent_id: initial.agent_id.clone(),
        revision: initial.revision,
        event_sequence: initial.event_sequence,
    };
    let _first = change(&mut agent, AgentStateChange::LifecycleChanged(AgentLifecycle::Idle));
    let second = change(&mut agent, AgentStateChange::LifecycleChanged(AgentLifecycle::Running));
    change(&mut agent, AgentStateChange::LifecycleChanged(AgentLifecycle::Stopping));

    let mut stale = initial;
    assert!(matches!(
        stale.apply_update(second),
        Err(DeltaApplyError::RevisionMismatch { .. })
    ));
    assert!(matches!(
        agent.subscribe(Some(cursor)),
        SubscriptionStart::ResyncRequired(snapshot) if snapshot.revision == StateRevision(3)
    ));
}

#[test]
fn recent_cursors_resume_by_replay() {
    let mut agent = actor(8, 8);
    change(&mut agent, AgentStateChange::LifecycleChanged(AgentLifecycle::Idle));
    let cursor = SubscriptionCursor {
        agent_id: agent_id(),
        revision: agent.snapshot().revision,
        event_sequence: agent.snapshot().event_sequence,
    };
    let mut resumed = agent.snapshot().clone();
    change(&mut agent, AgentStateChange::LifecycleChanged(AgentLifecycle::Running));
    agent.publish_event("agent_start").unwrap();
    match agent.subscribe(Some(cursor)) {
        SubscriptionStart::Replay(updates) => {
            assert_eq!(updates.len(), 2);
            for update in updates {
                resumed.apply_update(update).unwrap();
            }
        }
        other => panic!("expected replay, got {other:?}"),
    }
    assert_eq!(&resumed, agent.snapshot());
}

#[test]
fn event_sequences_advance_without_changing_state_revision() {
    let mut agent = actor(8, 8);
    let sequence = agent.publish_event("agent_start").unwrap();
    assert_eq!(sequence, EventSequence(1));
    assert_eq!(agent.snapshot().event_sequence, EventSequence(1));
    assert_eq!(agent.snapshot().revision, StateRevision(0));
}

#[test]
fn interaction_lease_is_exclusive_and_expires() {
    let mut agent = actor(8, 8);
    let first = LeaseHolderId::new("client-1".to_owned()).unwrap();
    let second = LeaseHolderId::new("client-2".to_owned()).unwrap();
    let lease = agent.acquire_lease(first.clone(), 10_000, 20, true).unwrap();
    assert_eq!(lease.expires_at_ms, 10_020);
    assert!(matches!(
        agent.acquire_lease(second, 10_001, 20, true),
        Err(AgentError::InteractionLease(InteractionLeaseError::HeldByOther(_)))
    ));

    agent.expire_lease();
    assert_eq!(agent.snapshot().interaction, InteractionState::Unclaimed);
    assert!(matches!(
        agent.release_lease(&first),
        Err(AgentError::InteractionLease(InteractionLeaseError::NotHeld))
    ));
}

#[test]
fn unchanged_state_is_not_recorded() {
    let mut agent = actor(8, 8);
    assert_eq!(
        agent
            .apply_change(AgentStateChange::LifecycleChanged(AgentLifecycle::Starting))
            .unwrap(),
        None
    );
    assert_eq!(agent.snapshot().revision, StateRevision(0));
    assert!(agent.latest_update().is_none());
}

#[test]
fn full_subscriber_queues_are_dropped_and_told_to_resync() {
    let fate = subscriber_after_send(SendOutcome::Full);
    assert!(!fate.keep && fate.mark_resync);
    assert_eq!(subscriber_after_send(SendOutcome::Sent), SubscriberFate { keep: true, mark_resync: false });
    assert_eq!(subscriber_after_send(SendOutcome::Closed), SubscriberFate { keep: false, mark_resync: false });
    assert_eq!(
        subscription_answer::<u8>(true, None, true),
        Err(SubscriptionError::ResyncRequired)
    );
    assert_eq!(subscription_answer::<u8>(false, None, false), Err(SubscriptionError::Closed));
    assert_eq!(subscription_answer::<u8>(false, None, true), Err(SubscriptionError::ResyncRequired));
}

#[test]
fn replays_hand_back_the_published_payloads() {
    let mut state = actor(4, 8);
    let cursor = SubscriptionCursor {
        agent_id: agent_id(),
        revision: StateRevision(0),
        event_sequence: EventSequence(0),
    };
    state.publish_event("first").unwrap();
    state.publish_event("second").unwrap();
    match state.subscribe(Some(cursor)) {
        SubscriptionStart::Replay(updates) => {
            let payloads: Vec<&str> = updates
                .iter()
                .filter_map(|update| match update {
                    AgentUpdate::Event { event, .. } => Some(*event),
                    _ => None,
                })
                .collect();
            assert_eq!(payloads, vec!["first", "second"]);
        }
        _ => panic!("a contiguous replay is handed back"),
    }
}

#[test]
fn cursors_whose_updates_left_the_replay_resync() {
    let mut state = actor(2, 8);
    let cursor = SubscriptionCursor {
        agent_id: agent_id(),
        revision: StateRevision(0),
        event_sequence: EventSequence(0),
    };
    state.apply_change(AgentStateChange::LifecycleChanged(AgentLifecycle::Idle)).unwrap();
    state.apply_change(AgentStateChange::LifecycleChanged(AgentLifecycle::Running)).unwrap();
    state.apply_change(AgentStateChange::LifecycleChanged(AgentLifecycle::Stopping)).unwrap();
    match state.subscribe(Some(cursor)) {
        SubscriptionStart::ResyncRequired(snapshot) => assert_eq!(snapshot.revision, StateRevision(3)),
        _ => panic!("missed revisions require a resync"),
    }
}

#[test]
fn deltas_that_do_not_advance_the_last_revision_are_refused() {
    let mut snapshot = AgentSnapshot::initial(agent_id());
    snapshot.revision = StateRevision(u64::MAX);
    let delta = StateDelta {
        agent_id: agent_id(),
        base_revision: StateRevision(u64::MAX),
        revision: StateRevision(u64::MAX),
        change: AgentStateChange::SessionCleared,
    };
    assert_eq!(
        snapshot.apply_delta(delta, EventSequence(1)),
        Err(DeltaApplyError::NonConsecutiveRevision {
            base: StateRevision(u64::MAX),
            revision: StateRevision(u64::MAX),
        })
    );
    assert_eq!(snapshot.revision, StateRevision(u64::MAX));
    assert_eq!(snapshot.event_sequence, EventSequence(0));
}

fn run(id: &str, lifecycle: RunLifecycle) -> RunSnapshot {
    RunSnapshot {
        run_id: RunId::new(id.to_owned()).unwrap(),
        lifecycle,
        started_at_ms: 1_000,
        ended_at_ms: None,
    }
}

#[test]
fn runs_move_from_active_to_recent_once_and_only_when_they_end() {
    let mut snapshot = AgentSnapshot::initial(agent_id());
    apply_change(&mut snapshot, AgentStateChange::RunUpserted(run("run-1", RunLifecycle::Running)));
    assert_eq!(snapshot.active_run.as_ref().unwrap().run_id.as_str(), "run-1");
    assert!(snapshot.recent_runs.is_empty());
    apply_change(&mut snapshot, AgentStateChange::RunUpserted(run("run-1", RunLifecycle::Completed)));
    assert!(snapshot.active_run.is_none());
    assert_eq!(snapshot.recent_runs.len(), 1);
    apply_change(&mut snapshot, AgentStateChange::RunUpserted(run("run-1", RunLifecycle::Aborted)));
    assert_eq!(snapshot.recent_runs.len(), 1);
    assert_eq!(snapshot.recent_runs[0].lifecycle, RunLifecycle::Aborted);
    apply_change(&mut snapshot, AgentStateChange::RunUpserted(run("run-1", RunLifecycle::Running)));
    assert!(snapshot.recent_runs.is_empty());
    assert_eq!(snapshot.active_run.as_ref().unwrap().run_id.as_str(), "run-1");
    apply_change(&mut snapshot, AgentStateChange::RunRemoved(RunId::new("run-1".to_owned()).unwrap()));
    assert!(snapshot.active_run.is_none());
    assert!(snapshot.recent_runs.is_empty());
}
