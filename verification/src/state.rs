use vstd::prelude::*;

use crate::commands::{clone_commands, commands_view, AvailableSlashCommand, SlashCommandView};
use crate::ids::{AgentId, LeaseHolderId, RunId};
use crate::text::{clone_opt_text, decimal, opt_text, push_decimal, same_opt_text, same_text};

verus! {

/// The revision of an agent's replicated state; every state change adds one.
#[derive(Clone, Copy, Debug, PartialEq, Eq, PartialOrd, Ord, Hash)]
pub struct StateRevision(pub u64);

/// The position of an update in an agent's single stream of deltas and events.
#[derive(Clone, Copy, Debug, PartialEq, Eq, PartialOrd, Ord, Hash)]
pub struct EventSequence(pub u64);

/// The lifecycle of an agent process.
#[derive(Debug, PartialEq, Eq)]
pub enum AgentLifecycle {
    Starting,
    Idle,
    Running,
    Stopping,
    Stopped,
    Interrupted,
    Failed { reason: String },
}

/// The content of an agent lifecycle.
pub enum AgentLifecycleView {
    Starting,
    Idle,
    Running,
    Stopping,
    Stopped,
    Interrupted,
    Failed { reason: Seq<char> },
}

impl View for AgentLifecycle {
    type V = AgentLifecycleView;

    open spec fn view(&self) -> AgentLifecycleView {
        match self {
            AgentLifecycle::Starting => AgentLifecycleView::Starting,
            AgentLifecycle::Idle => AgentLifecycleView::Idle,
            AgentLifecycle::Running => AgentLifecycleView::Running,
            AgentLifecycle::Stopping => AgentLifecycleView::Stopping,
            AgentLifecycle::Stopped => AgentLifecycleView::Stopped,
            AgentLifecycle::Interrupted => AgentLifecycleView::Interrupted,
            AgentLifecycle::Failed { reason } => AgentLifecycleView::Failed { reason: reason@ },
        }
    }
}

impl Clone for AgentLifecycle {
    fn clone(&self) -> (r: Self)
        ensures
            r@ == self@,
    {
        match self {
            AgentLifecycle::Starting => AgentLifecycle::Starting,
            AgentLifecycle::Idle => AgentLifecycle::Idle,
            AgentLifecycle::Running => AgentLifecycle::Running,
            AgentLifecycle::Stopping => AgentLifecycle::Stopping,
            AgentLifecycle::Stopped => AgentLifecycle::Stopped,
            AgentLifecycle::Interrupted => AgentLifecycle::Interrupted,
            AgentLifecycle::Failed { reason } => AgentLifecycle::Failed { reason: reason.clone() },
        }
    }
}

/// Compares two agent lifecycles by content.
pub fn same_agent_lifecycle(left: &AgentLifecycle, right: &AgentLifecycle) -> (r: bool)
    ensures
        r == (left@ == right@),
{
    match (left, right) {
        (AgentLifecycle::Starting, AgentLifecycle::Starting) => true,
        (AgentLifecycle::Idle, AgentLifecycle::Idle) => true,
        (AgentLifecycle::Running, AgentLifecycle::Running) => true,
        (AgentLifecycle::Stopping, AgentLifecycle::Stopping) => true,
        (AgentLifecycle::Stopped, AgentLifecycle::Stopped) => true,
        (AgentLifecycle::Interrupted, AgentLifecycle::Interrupted) => true,
        (AgentLifecycle::Failed { reason: a }, AgentLifecycle::Failed { reason: b }) => same_text(
            a,
            b,
        ),
        _ => false,
    }
}

/// The lifecycle of one prompt run.
#[derive(Debug, PartialEq, Eq)]
pub enum RunLifecycle {
    Queued,
    Running,
    Completed,
    Aborted,
    Interrupted,
    Failed { reason: String },
}

/// The content of a run lifecycle.
pub enum RunLifecycleView {
    Queued,
    Running,
    Completed,
    Aborted,
    Interrupted,
    Failed { reason: Seq<char> },
}

impl RunLifecycleView {
    /// A terminal run can no longer change: it completed, was aborted,
    /// interrupted, or failed.
    pub open spec fn is_terminal(self) -> bool {
        match self {
            RunLifecycleView::Completed => true,
            RunLifecycleView::Aborted => true,
            RunLifecycleView::Interrupted => true,
            RunLifecycleView::Failed { .. } => true,
            _ => false,
        }
    }
}

impl View for RunLifecycle {
    type V = RunLifecycleView;

    open spec fn view(&self) -> RunLifecycleView {
        match self {
            RunLifecycle::Queued => RunLifecycleView::Queued,
            RunLifecycle::Running => RunLifecycleView::Running,
            RunLifecycle::Completed => RunLifecycleView::Completed,
            RunLifecycle::Aborted => RunLifecycleView::Aborted,
            RunLifecycle::Interrupted => RunLifecycleView::Interrupted,
            RunLifecycle::Failed { reason } => RunLifecycleView::Failed { reason: reason@ },
        }
    }
}

impl RunLifecycle {
    /// Whether the run has ended.
    pub fn is_terminal(&self) -> (r: bool)
        ensures
            r == self@.is_terminal(),
    {
        match self {
            RunLifecycle::Completed | RunLifecycle::Aborted | RunLifecycle::Interrupted => true,
            RunLifecycle::Failed { .. } => true,
            _ => false,
        }
    }
}

impl Clone for RunLifecycle {
    fn clone(&self) -> (r: Self)
        ensures
            r@ == self@,
    {
        match self {
            RunLifecycle::Queued => RunLifecycle::Queued,
            RunLifecycle::Running => RunLifecycle::Running,
            RunLifecycle::Completed => RunLifecycle::Completed,
            RunLifecycle::Aborted => RunLifecycle::Aborted,
            RunLifecycle::Interrupted => RunLifecycle::Interrupted,
            RunLifecycle::Failed { reason } => RunLifecycle::Failed { reason: reason.clone() },
        }
    }
}

/// The session an agent is working in.
#[derive(Debug, PartialEq, Eq)]
pub struct SessionSummary {
    pub session_id: String,
    pub session_file: Option<String>,
    pub name: Option<String>,
    pub message_count: u64,
}

/// The content of a session summary.
pub struct SessionSummaryView {
    pub session_id: Seq<char>,
    pub session_file: Option<Seq<char>>,
    pub name: Option<Seq<char>>,
    pub message_count: u64,
}

impl View for SessionSummary {
    type V = SessionSummaryView;

    open spec fn view(&self) -> SessionSummaryView {
        SessionSummaryView {
            session_id: self.session_id@,
            session_file: opt_text(self.session_file),
            name: opt_text(self.name),
            message_count: self.message_count,
        }
    }
}

impl Clone for SessionSummary {
    fn clone(&self) -> (r: Self)
        ensures
            r@ == self@,
    {
        SessionSummary {
            session_id: self.session_id.clone(),
            session_file: clone_opt_text(&self.session_file),
            name: clone_opt_text(&self.name),
            message_count: self.message_count,
        }
    }
}

/// Compares two session summaries by content.
pub fn same_session(left: &SessionSummary, right: &SessionSummary) -> (r: bool)
    ensures
        r == (left@ == right@),
{
    same_text(&left.session_id, &right.session_id) && same_opt_text(
        &left.session_file,
        &right.session_file,
    ) && same_opt_text(&left.name, &right.name) && left.message_count == right.message_count
}

/// One prompt run of an agent.
#[derive(Debug, PartialEq, Eq)]
pub struct RunSnapshot {
    pub run_id: RunId,
    pub lifecycle: RunLifecycle,
    pub started_at_ms: u64,
    pub ended_at_ms: Option<u64>,
}

/// The content of a run snapshot.
pub struct RunSnapshotView {
    pub run_id: Seq<char>,
    pub lifecycle: RunLifecycleView,
    pub started_at_ms: u64,
    pub ended_at_ms: Option<u64>,
}

impl View for RunSnapshot {
    type V = RunSnapshotView;

    open spec fn view(&self) -> RunSnapshotView {
        RunSnapshotView {
            run_id: self.run_id@,
            lifecycle: self.lifecycle@,
            started_at_ms: self.started_at_ms,
            ended_at_ms: self.ended_at_ms,
        }
    }
}

impl Clone for RunSnapshot {
    fn clone(&self) -> (r: Self)
        ensures
            r@ == self@,
    {
        RunSnapshot {
            run_id: self.run_id.clone(),
            lifecycle: self.lifecycle.clone(),
            started_at_ms: self.started_at_ms,
            ended_at_ms: self.ended_at_ms,
        }
    }
}

/// The content of a list of runs.
pub open spec fn runs_view(runs: Seq<RunSnapshot>) -> Seq<RunSnapshotView> {
    runs.map_values(|run: RunSnapshot| run@)
}

/// An exclusive right to answer an agent's interactive questions until a deadline.
#[derive(Debug, PartialEq, Eq)]
pub struct InteractionLease {
    pub holder: LeaseHolderId,
    pub expires_at_ms: u64,
}

/// The content of an interaction lease.
pub struct InteractionLeaseView {
    pub holder: Seq<char>,
    pub expires_at_ms: u64,
}

impl View for InteractionLease {
    type V = InteractionLeaseView;

    open spec fn view(&self) -> InteractionLeaseView {
        InteractionLeaseView { holder: self.holder@, expires_at_ms: self.expires_at_ms }
    }
}

impl Clone for InteractionLease {
    fn clone(&self) -> (r: Self)
        ensures
            r@ == self@,
    {
        InteractionLease { holder: self.holder.clone(), expires_at_ms: self.expires_at_ms }
    }
}

/// Whether some client holds the interaction lease of an agent.
#[derive(Debug, PartialEq, Eq)]
pub enum InteractionState {
    Unclaimed,
    Leased { lease: InteractionLease },
}

/// The content of an interaction state.
pub enum InteractionStateView {
    Unclaimed,
    Leased { lease: InteractionLeaseView },
}

impl View for InteractionState {
    type V = InteractionStateView;

    open spec fn view(&self) -> InteractionStateView {
        match self {
            InteractionState::Unclaimed => InteractionStateView::Unclaimed,
            InteractionState::Leased { lease } => InteractionStateView::Leased { lease: lease@ },
        }
    }
}

impl Clone for InteractionState {
    fn clone(&self) -> (r: Self)
        ensures
            r@ == self@,
    {
        match self {
            InteractionState::Unclaimed => InteractionState::Unclaimed,
            InteractionState::Leased { lease } => InteractionState::Leased { lease: lease.clone() },
        }
    }
}

/// Compares two interaction states by content.
pub fn same_interaction(left: &InteractionState, right: &InteractionState) -> (r: bool)
    ensures
        r == (left@ == right@),
{
    match (left, right) {
        (InteractionState::Unclaimed, InteractionState::Unclaimed) => true,
        (InteractionState::Leased { lease: a }, InteractionState::Leased { lease: b }) => {
            a.holder == b.holder && a.expires_at_ms == b.expires_at_ms
        },
        _ => false,
    }
}

/// The authoritative state of one agent at one revision.
#[derive(Debug, PartialEq)]
pub struct AgentSnapshot {
    pub agent_id: AgentId,
    pub revision: StateRevision,
    pub event_sequence: EventSequence,
    pub lifecycle: AgentLifecycle,
    pub session: Option<SessionSummary>,
    pub active_run: Option<RunSnapshot>,
    pub recent_runs: Vec<RunSnapshot>,
    pub interaction: InteractionState,
    pub available_commands: Vec<AvailableSlashCommand>,
}

/// The content of an agent snapshot.
pub struct AgentSnapshotView {
    pub agent_id: Seq<char>,
    pub revision: u64,
    pub event_sequence: u64,
    pub lifecycle: AgentLifecycleView,
    pub session: Option<SessionSummaryView>,
    pub active_run: Option<RunSnapshotView>,
    pub recent_runs: Seq<RunSnapshotView>,
    pub interaction: InteractionStateView,
    pub available_commands: Seq<SlashCommandView>,
}

impl View for AgentSnapshot {
    type V = AgentSnapshotView;

    open spec fn view(&self) -> AgentSnapshotView {
        AgentSnapshotView {
            agent_id: self.agent_id@,
            revision: self.revision.0,
            event_sequence: self.event_sequence.0,
            lifecycle: self.lifecycle@,
            session: match self.session {
                Some(session) => Some(session@),
                None => None,
            },
            active_run: match self.active_run {
                Some(run) => Some(run@),
                None => None,
            },
            recent_runs: runs_view(self.recent_runs@),
            interaction: self.interaction@,
            available_commands: commands_view(self.available_commands@),
        }
    }
}

/// Copies a list of runs.
pub fn clone_runs(values: &Vec<RunSnapshot>) -> (r: Vec<RunSnapshot>)
    ensures
        runs_view(r@) == runs_view(values@),
{
    let mut out: Vec<RunSnapshot> = Vec::new();
    let mut i: usize = 0;
    while i < values.len()
        invariant
            i <= values.len(),
            out@.len() == i,
            forall|j: int| 0 <= j < i ==> #[trigger] out@[j]@ == values@[j]@,
        decreases values.len() - i,
    {
        out.push(values[i].clone());
        i = i + 1;
    }
    proof {
        assert(runs_view(out@) =~= runs_view(values@));
    }
    out
}

impl Clone for AgentSnapshot {
    fn clone(&self) -> (r: Self)
        ensures
            r@ == self@,
    {
        let session = match &self.session {
            Some(session) => Some(session.clone()),
            None => None,
        };
        let active_run = match &self.active_run {
            Some(run) => Some(run.clone()),
            None => None,
        };
        AgentSnapshot {
            agent_id: self.agent_id.clone(),
            revision: self.revision,
            event_sequence: self.event_sequence,
            lifecycle: self.lifecycle.clone(),
            session,
            active_run,
            recent_runs: clone_runs(&self.recent_runs),
            interaction: self.interaction.clone(),
            available_commands: clone_commands(&self.available_commands),
        }
    }
}

/// One change to an agent's state.
#[derive(Debug, PartialEq)]
pub enum AgentStateChange {
    LifecycleChanged(AgentLifecycle),
    SessionChanged(SessionSummary),
    SessionCleared,
    RunUpserted(RunSnapshot),
    RunRemoved(RunId),
    InteractionChanged(InteractionState),
    AvailableCommandsChanged(Vec<AvailableSlashCommand>),
}

/// The content of a state change.
pub enum AgentStateChangeView {
    LifecycleChanged(AgentLifecycleView),
    SessionChanged(SessionSummaryView),
    SessionCleared,
    RunUpserted(RunSnapshotView),
    RunRemoved(Seq<char>),
    InteractionChanged(InteractionStateView),
    AvailableCommandsChanged(Seq<SlashCommandView>),
}

impl View for AgentStateChange {
    type V = AgentStateChangeView;

    open spec fn view(&self) -> AgentStateChangeView {
        match self {
            AgentStateChange::LifecycleChanged(l) => AgentStateChangeView::LifecycleChanged(l@),
            AgentStateChange::SessionChanged(s) => AgentStateChangeView::SessionChanged(s@),
            AgentStateChange::SessionCleared => AgentStateChangeView::SessionCleared,
            AgentStateChange::RunUpserted(r) => AgentStateChangeView::RunUpserted(r@),
            AgentStateChange::RunRemoved(id) => AgentStateChangeView::RunRemoved(id@),
            AgentStateChange::InteractionChanged(i) => AgentStateChangeView::InteractionChanged(
                i@,
            ),
            AgentStateChange::AvailableCommandsChanged(c) =>
                AgentStateChangeView::AvailableCommandsChanged(commands_view(c@)),
        }
    }
}

impl Clone for AgentStateChange {
    fn clone(&self) -> (r: Self)
        ensures
            r@ == self@,
    {
        match self {
            AgentStateChange::LifecycleChanged(l) => AgentStateChange::LifecycleChanged(l.clone()),
            AgentStateChange::SessionChanged(s) => AgentStateChange::SessionChanged(s.clone()),
            AgentStateChange::SessionCleared => AgentStateChange::SessionCleared,
            AgentStateChange::RunUpserted(r) => AgentStateChange::RunUpserted(r.clone()),
            AgentStateChange::RunRemoved(id) => AgentStateChange::RunRemoved(id.clone()),
            AgentStateChange::InteractionChanged(i) => AgentStateChange::InteractionChanged(
                i.clone(),
            ),
            AgentStateChange::AvailableCommandsChanged(c) =>
                AgentStateChange::AvailableCommandsChanged(clone_commands(c)),
        }
    }
}

/// The runs of `runs` whose ID is not `id`, in their order.
pub open spec fn without_run(runs: Seq<RunSnapshotView>, id: Seq<char>) -> Seq<RunSnapshotView>
    decreases runs.len(),
{
    if runs.len() == 0 {
        runs
    } else {
        let rest = without_run(runs.drop_last(), id);
        if runs.last().run_id == id {
            rest
        } else {
            rest.push(runs.last())
        }
    }
}

/// Whether the active run, if any, has the given ID.
pub open spec fn active_has_id(active: Option<RunSnapshotView>, id: Seq<char>) -> bool {
    match active {
        Some(run) => run.run_id == id,
        None => false,
    }
}

/// The agent state after one change.
///
/// An upserted run replaces any earlier run with its ID: a terminal run is
/// appended to the recent runs and stops being the active run, any other run
/// becomes the active run. A removed run disappears from both places.
pub open spec fn apply_change_view(
    s: AgentSnapshotView,
    change: AgentStateChangeView,
) -> AgentSnapshotView {
    match change {
        AgentStateChangeView::LifecycleChanged(lifecycle) => AgentSnapshotView { lifecycle, ..s },
        AgentStateChangeView::SessionChanged(session) => AgentSnapshotView {
            session: Some(session),
            ..s
        },
        AgentStateChangeView::SessionCleared => AgentSnapshotView { session: None, ..s },
        AgentStateChangeView::RunUpserted(run) => {
            let recent = without_run(s.recent_runs, run.run_id);
            if run.lifecycle.is_terminal() {
                AgentSnapshotView {
                    active_run: if active_has_id(s.active_run, run.run_id) {
                        None
                    } else {
                        s.active_run
                    },
                    recent_runs: recent.push(run),
                    ..s
                }
            } else {
                AgentSnapshotView { active_run: Some(run), recent_runs: recent, ..s }
            }
        },
        AgentStateChangeView::RunRemoved(id) => AgentSnapshotView {
            active_run: if active_has_id(s.active_run, id) {
                None
            } else {
                s.active_run
            },
            recent_runs: without_run(s.recent_runs, id),
            ..s
        },
        AgentStateChangeView::InteractionChanged(interaction) => AgentSnapshotView {
            interaction,
            ..s
        },
        AgentStateChangeView::AvailableCommandsChanged(commands) => AgentSnapshotView {
            available_commands: commands,
            ..s
        },
    }
}

/// Whether applying `change` is taken to alter the snapshot: lifecycle, session
/// and interaction changes are compared with the current value, every other
/// change counts as an alteration.
pub open spec fn changes(s: AgentSnapshotView, change: AgentStateChangeView) -> bool {
    match change {
        AgentStateChangeView::LifecycleChanged(l) => l != s.lifecycle,
        AgentStateChangeView::SessionChanged(session) => Some(session) != s.session,
        AgentStateChangeView::SessionCleared => s.session is Some,
        AgentStateChangeView::InteractionChanged(i) => i != s.interaction,
        _ => true,
    }
}

/// Removes every run with the given ID, keeping the order of the rest.
fn remove_run(runs: &Vec<RunSnapshot>, id: &RunId) -> (r: Vec<RunSnapshot>)
    ensures
        runs_view(r@) == without_run(runs_view(runs@), id@),
{
    let mut out: Vec<RunSnapshot> = Vec::new();
    let mut i: usize = 0;
    while i < runs.len()
        invariant
            i <= runs.len(),
            runs_view(out@) == without_run(runs_view(runs@).take(i as int), id@),
        decreases runs.len() - i,
    {
        let ghost before = out@;
        proof {
            assert(runs_view(runs@).take(i + 1).drop_last() =~= runs_view(runs@).take(i as int));
        }
        if !(runs[i].run_id == *id) {
            out.push(runs[i].clone());
            proof {
                assert(runs_view(out@) =~= runs_view(before).push(runs@[i as int]@));
            }
        }
        i = i + 1;
    }
    proof {
        assert(runs_view(runs@).take(runs.len() as int) =~= runs_view(runs@));
    }
    out
}

/// Applies one change to a snapshot, leaving revision and sequence as they are.
pub fn apply_change(snapshot: &mut AgentSnapshot, change: AgentStateChange)
    ensures
        final(snapshot)@ == apply_change_view(old(snapshot)@, change@),
{
    match change {
        AgentStateChange::LifecycleChanged(lifecycle) => {
            snapshot.lifecycle = lifecycle;
        },
        AgentStateChange::SessionChanged(session) => {
            snapshot.session = Some(session);
        },
        AgentStateChange::SessionCleared => {
            snapshot.session = None;
        },
        AgentStateChange::RunUpserted(run) => {
            let recent = remove_run(&snapshot.recent_runs, &run.run_id);
            snapshot.recent_runs = recent;
            if run.lifecycle.is_terminal() {
                let clear = match &snapshot.active_run {
                    Some(active) => active.run_id == run.run_id,
                    None => false,
                };
                if clear {
                    snapshot.active_run = None;
                }
                let ghost kept = snapshot.recent_runs@;
                let ghost run_view = run@;
                snapshot.recent_runs.push(run);
                proof {
                    assert(runs_view(snapshot.recent_runs@) =~= runs_view(kept).push(run_view));
                }
            } else {
                snapshot.active_run = Some(run);
            }
        },
        AgentStateChange::RunRemoved(run_id) => {
            let clear = match &snapshot.active_run {
                Some(active) => active.run_id == run_id,
                None => false,
            };
            if clear {
                snapshot.active_run = None;
            }
            let recent = remove_run(&snapshot.recent_runs, &run_id);
            snapshot.recent_runs = recent;
        },
        AgentStateChange::InteractionChanged(interaction) => {
            snapshot.interaction = interaction;
        },
        AgentStateChange::AvailableCommandsChanged(commands) => {
            snapshot.available_commands = commands;
        },
    }
}


/// One state change of one agent, taking it from `base_revision` to `revision`.
#[derive(Debug, PartialEq)]
pub struct StateDelta {
    pub agent_id: AgentId,
    pub base_revision: StateRevision,
    pub revision: StateRevision,
    pub change: AgentStateChange,
}

/// The content of a state delta.
pub struct StateDeltaView {
    pub agent_id: Seq<char>,
    pub base_revision: u64,
    pub revision: u64,
    pub change: AgentStateChangeView,
}

impl View for StateDelta {
    type V = StateDeltaView;

    open spec fn view(&self) -> StateDeltaView {
        StateDeltaView {
            agent_id: self.agent_id@,
            base_revision: self.base_revision.0,
            revision: self.revision.0,
            change: self.change@,
        }
    }
}

impl Clone for StateDelta {
    fn clone(&self) -> (r: Self)
        ensures
            r@ == self@,
    {
        StateDelta {
            agent_id: self.agent_id.clone(),
            base_revision: self.base_revision,
            revision: self.revision,
            change: self.change.clone(),
        }
    }
}

/// One entry of an agent's update stream: a state delta or an opaque event,
/// each at its own event sequence.
#[derive(Debug, PartialEq)]
pub enum AgentUpdate<E> {
    Delta { event_sequence: EventSequence, delta: StateDelta },
    Event { agent_id: AgentId, event_sequence: EventSequence, event: E },
}

/// The content of an update, apart from an event's payload.
pub enum AgentUpdateView {
    Delta { event_sequence: u64, delta: StateDeltaView },
    Event { agent_id: Seq<char>, event_sequence: u64 },
}

impl AgentUpdateView {
    /// The sequence number the update carries.
    pub open spec fn sequence(self) -> u64 {
        match self {
            AgentUpdateView::Delta { event_sequence, .. } => event_sequence,
            AgentUpdateView::Event { event_sequence, .. } => event_sequence,
        }
    }
}

impl<E> View for AgentUpdate<E> {
    type V = AgentUpdateView;

    open spec fn view(&self) -> AgentUpdateView {
        match self {
            AgentUpdate::Delta { event_sequence, delta } => AgentUpdateView::Delta {
                event_sequence: event_sequence.0,
                delta: delta@,
            },
            AgentUpdate::Event { agent_id, event_sequence, .. } => AgentUpdateView::Event {
                agent_id: agent_id@,
                event_sequence: event_sequence.0,
            },
        }
    }
}

impl<E: Clone> Clone for AgentUpdate<E> {
    fn clone(&self) -> (r: Self)
        ensures
            r@ == self@,
            r matches AgentUpdate::Event { event: copy, .. } ==> (
            self matches AgentUpdate::Event { event, .. } && cloned(*event, copy)),
    {
        match self {
            AgentUpdate::Delta { event_sequence, delta } => AgentUpdate::Delta {
                event_sequence: *event_sequence,
                delta: delta.clone(),
            },
            AgentUpdate::Event { agent_id, event_sequence, event } => AgentUpdate::Event {
                agent_id: agent_id.clone(),
                event_sequence: *event_sequence,
                event: event.clone(),
            },
        }
    }
}

impl<E> AgentUpdate<E> {
    /// The sequence number of the update.
    pub fn event_sequence(&self) -> (r: EventSequence)
        ensures
            r.0 == self@.sequence(),
    {
        match self {
            AgentUpdate::Delta { event_sequence, .. } => *event_sequence,
            AgentUpdate::Event { event_sequence, .. } => *event_sequence,
        }
    }
}

/// The content of a list of updates.
pub open spec fn updates_view<E>(updates: Seq<AgentUpdate<E>>) -> Seq<AgentUpdateView> {
    updates.map_values(|u: AgentUpdate<E>| u@)
}

/// Where a subscriber stands in an agent's update stream.
#[derive(Debug, PartialEq, Eq)]
pub struct SubscriptionCursor {
    pub agent_id: AgentId,
    pub revision: StateRevision,
    pub event_sequence: EventSequence,
}

/// The content of a subscription cursor.
pub struct CursorView {
    pub agent_id: Seq<char>,
    pub revision: u64,
    pub event_sequence: u64,
}

impl View for SubscriptionCursor {
    type V = CursorView;

    open spec fn view(&self) -> CursorView {
        CursorView {
            agent_id: self.agent_id@,
            revision: self.revision.0,
            event_sequence: self.event_sequence.0,
        }
    }
}

impl Clone for SubscriptionCursor {
    fn clone(&self) -> (r: Self)
        ensures
            r@ == self@,
    {
        SubscriptionCursor {
            agent_id: self.agent_id.clone(),
            revision: self.revision,
            event_sequence: self.event_sequence,
        }
    }
}

/// How a new subscription begins: with the full snapshot, with the updates
/// after the subscriber's cursor, or with a fresh snapshot because the cursor
/// cannot be resumed.
#[derive(Debug, PartialEq)]
pub enum SubscriptionStart<E> {
    Snapshot(AgentSnapshot),
    Replay(Vec<AgentUpdate<E>>),
    ResyncRequired(AgentSnapshot),
}

/// Why an update cannot be applied to a snapshot.
#[allow(inconsistent_fields)]
#[derive(Debug, PartialEq, Eq)]
pub enum DeltaApplyError {
    WrongAgent { expected: AgentId, actual: AgentId },
    RevisionMismatch { local: StateRevision, base: StateRevision },
    NonConsecutiveRevision { base: StateRevision, revision: StateRevision },
    StaleEventSequence { local: EventSequence, incoming: EventSequence },
}

/// The content of a delta application error.
pub enum DeltaApplyErrorView {
    WrongAgent { expected: Seq<char>, actual: Seq<char> },
    RevisionMismatch { local: u64, base: u64 },
    NonConsecutiveRevision { base: u64, revision: u64 },
    StaleEventSequence { local: u64, incoming: u64 },
}

impl View for DeltaApplyError {
    type V = DeltaApplyErrorView;

    open spec fn view(&self) -> DeltaApplyErrorView {
        match self {
            DeltaApplyError::WrongAgent { expected, actual } => DeltaApplyErrorView::WrongAgent {
                expected: expected@,
                actual: actual@,
            },
            DeltaApplyError::RevisionMismatch { local, base } =>
                DeltaApplyErrorView::RevisionMismatch { local: local.0, base: base.0 },
            DeltaApplyError::NonConsecutiveRevision { base, revision } =>
                DeltaApplyErrorView::NonConsecutiveRevision { base: base.0, revision: revision.0 },
            DeltaApplyError::StaleEventSequence { local, incoming } =>
                DeltaApplyErrorView::StaleEventSequence { local: local.0, incoming: incoming.0 },
        }
    }
}

impl Clone for DeltaApplyError {
    fn clone(&self) -> (r: Self)
        ensures
            r@ == self@,
    {
        match self {
            DeltaApplyError::WrongAgent { expected, actual } => DeltaApplyError::WrongAgent {
                expected: expected.clone(),
                actual: actual.clone(),
            },
            DeltaApplyError::RevisionMismatch { local, base } => DeltaApplyError::RevisionMismatch {
                local: *local,
                base: *base,
            },
            DeltaApplyError::NonConsecutiveRevision { base, revision } =>
                DeltaApplyError::NonConsecutiveRevision { base: *base, revision: *revision },
            DeltaApplyError::StaleEventSequence { local, incoming } =>
                DeltaApplyError::StaleEventSequence { local: *local, incoming: *incoming },
        }
    }
}

/// The message of a delta application error.
pub open spec fn delta_error_message(e: DeltaApplyErrorView) -> Seq<char> {
    match e {
        DeltaApplyErrorView::WrongAgent { expected, actual } => "delta is for agent "@ + actual
            + ", expected "@ + expected,
        DeltaApplyErrorView::RevisionMismatch { local, base } => "delta base revision "@
            + decimal(base as nat) + " does not match local revision "@ + decimal(local as nat),
        DeltaApplyErrorView::NonConsecutiveRevision { base, revision } => "delta revision "@
            + decimal(revision as nat) + " does not immediately follow base "@ + decimal(
            base as nat,
        ),
        DeltaApplyErrorView::StaleEventSequence { local, incoming } => "event sequence "@
            + decimal(incoming as nat) + " does not advance local sequence "@ + decimal(
            local as nat,
        ),
    }
}

impl DeltaApplyError {
    /// The human-readable message of the error.
    pub fn to_string(&self) -> (r: String)
        ensures
            r@ == delta_error_message(self@),
    {
        let mut out = String::new();
        match self {
            DeltaApplyError::WrongAgent { expected, actual } => {
                out.append("delta is for agent ");
                out.append(actual.as_str());
                out.append(", expected ");
                out.append(expected.as_str());
            },
            DeltaApplyError::RevisionMismatch { local, base } => {
                out.append("delta base revision ");
                push_decimal(&mut out, base.0);
                out.append(" does not match local revision ");
                push_decimal(&mut out, local.0);
            },
            DeltaApplyError::NonConsecutiveRevision { base, revision } => {
                out.append("delta revision ");
                push_decimal(&mut out, revision.0);
                out.append(" does not immediately follow base ");
                push_decimal(&mut out, base.0);
            },
            DeltaApplyError::StaleEventSequence { local, incoming } => {
                out.append("event sequence ");
                push_decimal(&mut out, incoming.0);
                out.append(" does not advance local sequence ");
                push_decimal(&mut out, local.0);
            },
        }
        proof {
            assert(out@ =~= delta_error_message(self@));
        }
        out
    }
}

/// Whether `revision` immediately follows `base`; nothing follows the largest revision.
pub open spec fn immediately_follows(base: u64, revision: u64) -> bool {
    base < u64::MAX && revision == base + 1
}

/// Why an update for `agent_id` at `sequence` cannot follow the snapshot, if it cannot.
pub open spec fn cursor_fault(s: AgentSnapshotView, agent_id: Seq<char>, sequence: u64) -> Option<
    DeltaApplyErrorView,
> {
    if agent_id != s.agent_id {
        Some(DeltaApplyErrorView::WrongAgent { expected: s.agent_id, actual: agent_id })
    } else if sequence <= s.event_sequence {
        Some(DeltaApplyErrorView::StaleEventSequence { local: s.event_sequence, incoming: sequence })
    } else {
        None
    }
}

/// The snapshot after a delta at `sequence`, or why the delta does not apply.
pub open spec fn delta_outcome(s: AgentSnapshotView, d: StateDeltaView, sequence: u64) -> Result<
    AgentSnapshotView,
    DeltaApplyErrorView,
> {
    match cursor_fault(s, d.agent_id, sequence) {
        Some(e) => Err(e),
        None => if d.base_revision != s.revision {
            Err(DeltaApplyErrorView::RevisionMismatch { local: s.revision, base: d.base_revision })
        } else if !immediately_follows(d.base_revision, d.revision) {
            Err(
                DeltaApplyErrorView::NonConsecutiveRevision {
                    base: d.base_revision,
                    revision: d.revision,
                },
            )
        } else {
            Ok(
                AgentSnapshotView {
                    revision: d.revision,
                    event_sequence: sequence,
                    ..apply_change_view(s, d.change)
                },
            )
        },
    }
}

/// The snapshot after an update, or why the update does not apply.
pub open spec fn update_outcome(s: AgentSnapshotView, u: AgentUpdateView) -> Result<
    AgentSnapshotView,
    DeltaApplyErrorView,
> {
    match u {
        AgentUpdateView::Delta { event_sequence, delta } => delta_outcome(s, delta, event_sequence),
        AgentUpdateView::Event { agent_id, event_sequence } => match cursor_fault(
            s,
            agent_id,
            event_sequence,
        ) {
            Some(e) => Err(e),
            None => Ok(AgentSnapshotView { event_sequence, ..s }),
        },
    }
}

impl AgentSnapshot {
    /// The state of a newly created agent: starting, at revision and sequence zero.
    pub fn initial(agent_id: AgentId) -> (r: Self)
        ensures
            r@ == (AgentSnapshotView {
                agent_id: agent_id@,
                revision: 0,
                event_sequence: 0,
                lifecycle: AgentLifecycleView::Starting,
                session: None,
                active_run: None,
                recent_runs: Seq::empty(),
                interaction: InteractionStateView::Unclaimed,
                available_commands: Seq::empty(),
            }),
            runs_consistent(r@),
    {
        let r = AgentSnapshot {
            agent_id,
            revision: StateRevision(0),
            event_sequence: EventSequence(0),
            lifecycle: AgentLifecycle::Starting,
            session: None,
            active_run: None,
            recent_runs: Vec::new(),
            interaction: InteractionState::Unclaimed,
            available_commands: Vec::new(),
        };
        proof {
            assert(runs_view(r.recent_runs@) =~= Seq::empty());
            assert(commands_view(r.available_commands@) =~= Seq::empty());
        }
        r
    }

    /// Applies one update of the agent's stream; on error the snapshot is unchanged.
    pub fn apply_update<E>(&mut self, update: AgentUpdate<E>) -> (r: Result<(), DeltaApplyError>)
        ensures
            match r {
                Ok(()) => update_outcome(old(self)@, update@) == Ok::<
                    AgentSnapshotView,
                    DeltaApplyErrorView,
                >(final(self)@),
                Err(e) => update_outcome(old(self)@, update@) == Err::<
                    AgentSnapshotView,
                    DeltaApplyErrorView,
                >(e@) && final(self)@ == old(self)@,
            },
    {
        match update {
            AgentUpdate::Delta { event_sequence, delta } => self.apply_delta(delta, event_sequence),
            AgentUpdate::Event { agent_id, event_sequence, .. } => {
                self.validate_update_cursor(&agent_id, event_sequence)?;
                self.event_sequence = event_sequence;
                Ok(())
            },
        }
    }

    /// Applies a delta delivered at `event_sequence`; on error the snapshot is unchanged.
    pub fn apply_delta(&mut self, delta: StateDelta, event_sequence: EventSequence) -> (r: Result<
        (),
        DeltaApplyError,
    >)
        ensures
            match r {
                Ok(()) => delta_outcome(old(self)@, delta@, event_sequence.0) == Ok::<
                    AgentSnapshotView,
                    DeltaApplyErrorView,
                >(final(self)@),
                Err(e) => delta_outcome(old(self)@, delta@, event_sequence.0) == Err::<
                    AgentSnapshotView,
                    DeltaApplyErrorView,
                >(e@) && final(self)@ == old(self)@,
            },
    {
        self.validate_update_cursor(&delta.agent_id, event_sequence)?;
        if delta.base_revision.0 != self.revision.0 {
            return Err(
                DeltaApplyError::RevisionMismatch { local: self.revision, base: delta.base_revision },
            );
        }
        if delta.base_revision.0 == u64::MAX || delta.revision.0 != delta.base_revision.0 + 1 {
            return Err(
                DeltaApplyError::NonConsecutiveRevision {
                    base: delta.base_revision,
                    revision: delta.revision,
                },
            );
        }
        apply_change(self, delta.change);
        self.revision = delta.revision;
        self.event_sequence = event_sequence;
        Ok(())
    }

    /// Checks that an update for `agent_id` at `event_sequence` may follow this snapshot.
    pub fn validate_update_cursor(&self, agent_id: &AgentId, event_sequence: EventSequence) -> (r:
        Result<(), DeltaApplyError>)
        ensures
            match r {
                Ok(()) => cursor_fault(self@, agent_id@, event_sequence.0) is None,
                Err(e) => cursor_fault(self@, agent_id@, event_sequence.0) == Some(e@),
            },
    {
        if !(*agent_id == self.agent_id) {
            return Err(
                DeltaApplyError::WrongAgent {
                    expected: self.agent_id.clone(),
                    actual: agent_id.clone(),
                },
            );
        }
        if event_sequence.0 <= self.event_sequence.0 {
            return Err(
                DeltaApplyError::StaleEventSequence {
                    local: self.event_sequence,
                    incoming: event_sequence,
                },
            );
        }
        Ok(())
    }

    /// Whether applying `change` could alter the snapshot. A change reported as
    /// no alteration leaves the snapshot exactly as it is; lifecycle, session
    /// and interaction changes are reported exactly.
    pub fn would_change(&self, change: &AgentStateChange) -> (r: bool)
        ensures
            r == changes(self@, change@),
            !r ==> apply_change_view(self@, change@) == self@,
    {
        match change {
            AgentStateChange::LifecycleChanged(lifecycle) => !same_agent_lifecycle(
                &self.lifecycle,
                lifecycle,
            ),
            AgentStateChange::SessionChanged(session) => match &self.session {
                Some(current) => !same_session(current, session),
                None => true,
            },
            AgentStateChange::SessionCleared => self.session.is_some(),
            AgentStateChange::InteractionChanged(interaction) => !same_interaction(
                &self.interaction,
                interaction,
            ),
            _ => true,
        }
    }
}

/// How the runs of an agent hang together: the recent runs have distinct IDs
/// and have all ended, and the active run, if any, has not ended and is not
/// among the recent runs.
pub open spec fn runs_consistent(s: AgentSnapshotView) -> bool {
    &&& forall|i: int, j: int|
        0 <= i < j < s.recent_runs.len() ==> #[trigger] s.recent_runs[i].run_id
            != #[trigger] s.recent_runs[j].run_id
    &&& forall|i: int| 0 <= i < s.recent_runs.len() ==> #[trigger] s.recent_runs[i].lifecycle.is_terminal()
    &&& match s.active_run {
        Some(run) => !run.lifecycle.is_terminal() && forall|i: int|
            0 <= i < s.recent_runs.len() ==> #[trigger] s.recent_runs[i].run_id != run.run_id,
        None => true,
    }
}

/// Every run kept by `without_run` was among the given runs and does not carry
/// the removed ID; runs with distinct IDs stay distinct.
proof fn lemma_without_run(runs: Seq<RunSnapshotView>, id: Seq<char>)
    ensures
        forall|k: int|
            0 <= k < without_run(runs, id).len() ==> #[trigger] without_run(runs, id)[k].run_id
                != id && runs.contains(without_run(runs, id)[k]),
        (forall|i: int, j: int|
            0 <= i < j < runs.len() ==> #[trigger] runs[i].run_id != #[trigger] runs[j].run_id)
            ==> (forall|i: int, j: int|
            0 <= i < j < without_run(runs, id).len() ==> #[trigger] without_run(runs, id)[i].run_id
                != #[trigger] without_run(runs, id)[j].run_id),
    decreases runs.len(),
{
    if runs.len() > 0 {
        let init = runs.drop_last();
        let rest = without_run(init, id);
        lemma_without_run(init, id);
        assert forall|k: int| 0 <= k < rest.len() implies runs.contains(#[trigger] rest[k]) by {
            assert(rest[k].run_id != id);
            assert(init.contains(rest[k]));
            let j = choose|j: int| 0 <= j < init.len() && init[j] == rest[k];
            assert(runs[j] == init[j]);
        }
        assert(runs[runs.len() - 1] == runs.last());
        if forall|i: int, j: int|
            0 <= i < j < runs.len() ==> #[trigger] runs[i].run_id != #[trigger] runs[j].run_id {
            assert forall|i: int, j: int|
                0 <= i < j < init.len() implies #[trigger] init[i].run_id
                    != #[trigger] init[j].run_id by {
                assert(init[i] == runs[i] && init[j] == runs[j]);
            }
            assert forall|k: int| 0 <= k < rest.len() implies #[trigger] rest[k].run_id
                != runs.last().run_id by {
                assert(rest[k].run_id != id);
                assert(init.contains(rest[k]));
                let j = choose|j: int| 0 <= j < init.len() && init[j] == rest[k];
                assert(init[j] == runs[j]);
            }
        }
    }
}

/// Every state change keeps the runs of an agent consistent: a recent run
/// never appears twice, only ended runs are recent, and the active run has
/// not ended and is not among the recent runs.
pub proof fn lemma_changes_keep_runs_consistent(s: AgentSnapshotView, change: AgentStateChangeView)
    requires
        runs_consistent(s),
    ensures
        runs_consistent(apply_change_view(s, change)),
{
    match change {
        AgentStateChangeView::RunUpserted(run) => {
            let recent = without_run(s.recent_runs, run.run_id);
            lemma_without_run(s.recent_runs, run.run_id);
            assert forall|k: int| 0 <= k < recent.len() implies #[trigger] recent[k].lifecycle.is_terminal()
                && (s.active_run matches Some(active) ==> recent[k].run_id != active.run_id) by {
                assert(recent[k].run_id != run.run_id);
                assert(s.recent_runs.contains(recent[k]));
                let j = choose|j: int| 0 <= j < s.recent_runs.len() && s.recent_runs[j] == recent[k];
                assert(s.recent_runs[j].lifecycle.is_terminal());
            }
            if run.lifecycle.is_terminal() {
                let after = recent.push(run);
                assert forall|i: int, j: int| 0 <= i < j < after.len() implies #[trigger] after[i].run_id
                    != #[trigger] after[j].run_id by {
                    if j == recent.len() {
                        assert(after[i] == recent[i]);
                    } else {
                        assert(after[i] == recent[i] && after[j] == recent[j]);
                    }
                }
                assert forall|i: int| 0 <= i < after.len() implies #[trigger] after[i].lifecycle.is_terminal() by {
                    if i < recent.len() {
                        assert(after[i] == recent[i]);
                    }
                }
                if let Some(active) = s.active_run {
                    if active.run_id != run.run_id {
                        assert forall|i: int| 0 <= i < after.len() implies #[trigger] after[i].run_id
                            != active.run_id by {
                            if i < recent.len() {
                                assert(after[i] == recent[i]);
                            }
                        }
                    }
                }
            }
        },
        AgentStateChangeView::RunRemoved(id) => {
            let recent = without_run(s.recent_runs, id);
            lemma_without_run(s.recent_runs, id);
            assert forall|k: int| 0 <= k < recent.len() implies #[trigger] recent[k].lifecycle.is_terminal()
                && (s.active_run matches Some(active) ==> recent[k].run_id != active.run_id) by {
                assert(recent[k].run_id != id);
                assert(s.recent_runs.contains(recent[k]));
                let j = choose|j: int| 0 <= j < s.recent_runs.len() && s.recent_runs[j] == recent[k];
                assert(s.recent_runs[j].lifecycle.is_terminal());
            }
        },
        _ => {},
    }
}

/// Removing the runs with one ID keeps every run with another ID.
proof fn lemma_without_run_keeps(runs: Seq<RunSnapshotView>, id: Seq<char>, x: RunSnapshotView)
    requires
        runs.contains(x),
        x.run_id != id,
    ensures
        without_run(runs, id).contains(x),
    decreases runs.len(),
{
    let init = runs.drop_last();
    let rest = without_run(init, id);
    if runs.last() == x {
        assert(without_run(runs, id) == rest.push(x));
        assert(without_run(runs, id)[rest.len() as int] == x);
    } else {
        let j = choose|j: int| 0 <= j < runs.len() && runs[j] == x;
        assert(j < runs.len() - 1);
        assert(init[j] == x);
        lemma_without_run_keeps(init, id, x);
        let k = choose|k: int| 0 <= k < rest.len() && rest[k] == x;
        if runs.last().run_id != id {
            assert(without_run(runs, id)[k] == x);
        }
    }
}

/// The recent runs after a change that removes every run with `id`, and
/// perhaps adds one: exactly the earlier runs with another ID remain.
proof fn lemma_without_run_contents(runs: Seq<RunSnapshotView>, id: Seq<char>)
    ensures
        forall|x: RunSnapshotView|
            #[trigger] without_run(runs, id).contains(x) <==> runs.contains(x) && x.run_id != id,
{
    lemma_without_run(runs, id);
    assert forall|x: RunSnapshotView|
        #[trigger] without_run(runs, id).contains(x) <==> runs.contains(x) && x.run_id != id by {
        if without_run(runs, id).contains(x) {
            let k = choose|k: int|
                0 <= k < without_run(runs, id).len() && without_run(runs, id)[k] == x;
            assert(without_run(runs, id)[k].run_id != id);
        }
        if runs.contains(x) && x.run_id != id {
            lemma_without_run_keeps(runs, id, x);
        }
    }
}

/// What each change does to a snapshot: it never touches the agent's
/// identity, revision or event sequence; a lifecycle, session, interaction
/// or command change sets exactly that part to the new value, whatever it
/// was before; clearing the session leaves none; an upserted run that has
/// not ended becomes the active run and leaves the recent runs, one that
/// has ended becomes the last recent run (and stops being active); a removed
/// run is neither active nor recent afterwards. Every other recent run stays.
pub proof fn lemma_change_effects(s: AgentSnapshotView, change: AgentStateChangeView)
    ensures
        apply_change_view(s, change).agent_id == s.agent_id,
        apply_change_view(s, change).revision == s.revision,
        apply_change_view(s, change).event_sequence == s.event_sequence,
        change matches AgentStateChangeView::LifecycleChanged(lifecycle) ==> apply_change_view(
            s,
            change,
        ) == (AgentSnapshotView { lifecycle, ..s }),
        change matches AgentStateChangeView::SessionChanged(session) ==> apply_change_view(
            s,
            change,
        ).session == Some(session) && apply_change_view(s, change) == (AgentSnapshotView {
            session: Some(session),
            ..s
        }),
        change is SessionCleared ==> apply_change_view(s, change).session is None
            && apply_change_view(s, change) == (AgentSnapshotView { session: None, ..s }),
        change matches AgentStateChangeView::InteractionChanged(interaction) ==> apply_change_view(
            s,
            change,
        ) == (AgentSnapshotView { interaction, ..s }),
        change matches AgentStateChangeView::AvailableCommandsChanged(commands)
            ==> apply_change_view(s, change) == (AgentSnapshotView {
            available_commands: commands,
            ..s
        }),
        change matches AgentStateChangeView::RunUpserted(run) ==> {
            let r = apply_change_view(s, change);
            &&& r.lifecycle == s.lifecycle && r.session == s.session && r.interaction
                == s.interaction && r.available_commands == s.available_commands
            &&& !run.lifecycle.is_terminal() ==> r.active_run == Some(run) && forall|x: RunSnapshotView|
                #[trigger] r.recent_runs.contains(x) <==> s.recent_runs.contains(x) && x.run_id
                    != run.run_id
            &&& run.lifecycle.is_terminal() ==> {
                &&& r.recent_runs.len() > 0 && r.recent_runs.last() == run
                &&& forall|k: int|
                    0 <= k < r.recent_runs.len() - 1 ==> #[trigger] r.recent_runs[k].run_id
                        != run.run_id
                &&& forall|x: RunSnapshotView|
                    x.run_id != run.run_id ==> (#[trigger] r.recent_runs.contains(x)
                        <==> s.recent_runs.contains(x))
                &&& r.active_run == (if s.active_run matches Some(active) && active.run_id
                    == run.run_id {
                    None
                } else {
                    s.active_run
                })
            }
        },
        change matches AgentStateChangeView::RunRemoved(id) ==> {
            let r = apply_change_view(s, change);
            &&& r.lifecycle == s.lifecycle && r.session == s.session && r.interaction
                == s.interaction && r.available_commands == s.available_commands
            &&& forall|x: RunSnapshotView|
                #[trigger] r.recent_runs.contains(x) <==> s.recent_runs.contains(x) && x.run_id != id
            &&& r.active_run == (if s.active_run matches Some(active) && active.run_id == id {
                None
            } else {
                s.active_run
            })
        },
{
    match change {
        AgentStateChangeView::RunUpserted(run) => {
            let recent = without_run(s.recent_runs, run.run_id);
            lemma_without_run(s.recent_runs, run.run_id);
            lemma_without_run_contents(s.recent_runs, run.run_id);
            if run.lifecycle.is_terminal() {
                let after = recent.push(run);
                assert forall|k: int| 0 <= k < after.len() - 1 implies #[trigger] after[k].run_id
                    != run.run_id by {
                    assert(after[k] == recent[k]);
                }
                assert forall|x: RunSnapshotView|
                    x.run_id != run.run_id implies (#[trigger] after.contains(x)
                        <==> s.recent_runs.contains(x)) by {
                    if after.contains(x) {
                        let k = choose|k: int| 0 <= k < after.len() && after[k] == x;
                        assert(k < recent.len());
                        assert(recent[k] == x);
                        assert(recent.contains(x));
                    }
                    if s.recent_runs.contains(x) {
                        assert(recent.contains(x));
                        let k = choose|k: int| 0 <= k < recent.len() && recent[k] == x;
                        assert(after[k] == x);
                    }
                }
            }
        },
        AgentStateChangeView::RunRemoved(id) => {
            lemma_without_run_contents(s.recent_runs, id);
        },
        _ => {},
    }
}

/// A lifecycle, session or interaction change counts as a change exactly
/// when it alters the snapshot; run and command changes always count. So a
/// change that is dropped as no change leaves the snapshot as it is, and
/// every change that alters the snapshot is recorded.
pub proof fn lemma_changes_exactly_when_altered(s: AgentSnapshotView, change: AgentStateChangeView)
    ensures
        (change is LifecycleChanged || change is SessionChanged || change is SessionCleared
            || change is InteractionChanged) ==> (changes(s, change) <==> apply_change_view(
            s,
            change,
        ) != s),
        (change is RunUpserted || change is RunRemoved || change is AvailableCommandsChanged)
            ==> changes(s, change),
        !changes(s, change) ==> apply_change_view(s, change) == s,
{
    match change {
        AgentStateChangeView::LifecycleChanged(l) => {
            if apply_change_view(s, change) == s {
                assert(apply_change_view(s, change).lifecycle == l);
            }
        },
        AgentStateChangeView::SessionChanged(x) => {
            if apply_change_view(s, change) == s {
                assert(apply_change_view(s, change).session == Some(x));
            }
        },
        AgentStateChangeView::SessionCleared => {
            if apply_change_view(s, change) == s {
                assert(apply_change_view(s, change).session is None);
            }
        },
        AgentStateChangeView::InteractionChanged(i) => {
            if apply_change_view(s, change) == s {
                assert(apply_change_view(s, change).interaction == i);
            }
        },
        _ => {},
    }
}

/// A delta applies to a snapshot exactly when it is for the same agent,
/// arrives at a later event sequence, starts from the snapshot's revision and
/// moves to the one right after it. Then the snapshot takes the delta's
/// revision and event sequence and the change's effect, and nothing else.
/// Otherwise the first failing condition, in that order, is reported with
/// the values involved.
pub proof fn lemma_delta_applies_exactly(s: AgentSnapshotView, d: StateDeltaView, sequence: u64)
    ensures
        delta_outcome(s, d, sequence) is Ok <==> (d.agent_id == s.agent_id && sequence
            > s.event_sequence && d.base_revision == s.revision && s.revision < u64::MAX
            && d.revision == s.revision + 1),
        delta_outcome(s, d, sequence) matches Ok(a) ==> a.revision == s.revision + 1
            && a.event_sequence == sequence && (AgentSnapshotView {
            revision: s.revision,
            event_sequence: s.event_sequence,
            ..a
        }) == apply_change_view(s, d.change),
        d.agent_id != s.agent_id ==> delta_outcome(s, d, sequence) == Err::<
            AgentSnapshotView,
            DeltaApplyErrorView,
        >(DeltaApplyErrorView::WrongAgent { expected: s.agent_id, actual: d.agent_id }),
        d.agent_id == s.agent_id && sequence <= s.event_sequence ==> delta_outcome(s, d, sequence)
            == Err::<AgentSnapshotView, DeltaApplyErrorView>(
            DeltaApplyErrorView::StaleEventSequence { local: s.event_sequence, incoming: sequence },
        ),
        d.agent_id == s.agent_id && sequence > s.event_sequence && d.base_revision != s.revision
            ==> delta_outcome(s, d, sequence) == Err::<AgentSnapshotView, DeltaApplyErrorView>(
            DeltaApplyErrorView::RevisionMismatch { local: s.revision, base: d.base_revision },
        ),
        d.agent_id == s.agent_id && sequence > s.event_sequence && d.base_revision == s.revision
            && !(s.revision < u64::MAX && d.revision == s.revision + 1) ==> delta_outcome(
            s,
            d,
            sequence,
        ) == Err::<AgentSnapshotView, DeltaApplyErrorView>(
            DeltaApplyErrorView::NonConsecutiveRevision { base: d.base_revision, revision: d.revision },
        ),
{
    lemma_change_effects(s, d.change);
}

/// An event applies to a snapshot exactly when it is for the same agent and
/// arrives at a later event sequence; it then moves only the event sequence.
pub proof fn lemma_event_moves_only_the_sequence(s: AgentSnapshotView, agent_id: Seq<char>, sequence: u64)
    ensures
        update_outcome(s, AgentUpdateView::Event { agent_id, event_sequence: sequence }) is Ok
            <==> (agent_id == s.agent_id && sequence > s.event_sequence),
        update_outcome(s, AgentUpdateView::Event { agent_id, event_sequence: sequence }) matches Ok(a)
            ==> a.event_sequence == sequence && (AgentSnapshotView {
            event_sequence: s.event_sequence,
            ..a
        }) == s,
{
}

} // verus!
