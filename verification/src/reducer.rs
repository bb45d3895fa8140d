use vstd::prelude::*;

use crate::ids::AgentId;
use crate::protocol::{DeltaEnvelope, EventEnvelope, ServerFrame, StateSnapshot, UiInteractionEnvelope};
use crate::state::{
    delta_error_message, delta_outcome, AgentSnapshot, AgentSnapshotView, CursorView,
    DeltaApplyError, DeltaApplyErrorView, EventSequence, StateDeltaView, SubscriptionCursor,
};
use crate::registry::{id_before, id_bytes};
use crate::text::{
    decimal, lemma_bytes_le_antisymmetric, lemma_bytes_le_total, lemma_bytes_le_transitive,
    push_decimal, text_le,
};

verus! {

broadcast use vstd::utf8::encode_utf8_decode_utf8;

/// The content of a replicated state: the latest snapshot of each agent, by
/// agent identifier, and the agents whose updates must wait for a fresh snapshot.
pub struct ReplicatedStateView {
    pub agents: Map<Seq<char>, AgentSnapshotView>,
    pub resync_required: Set<Seq<char>>,
}

/// The contents of a list of snapshots.
pub open spec fn snapshots_view(agents: Seq<AgentSnapshot>) -> Seq<AgentSnapshotView> {
    agents.map_values(|agent: AgentSnapshot| agent@)
}

/// The texts of a list of agent identifiers.
pub open spec fn agent_ids_view(ids: Seq<AgentId>) -> Seq<Seq<char>> {
    ids.map_values(|id: AgentId| id@)
}

/// The snapshots of a list by agent identifier; a later snapshot of the same
/// agent replaces an earlier one.
pub open spec fn agent_map(agents: Seq<AgentSnapshotView>) -> Map<Seq<char>, AgentSnapshotView>
    decreases agents.len(),
{
    if agents.len() == 0 {
        Map::empty()
    } else {
        agent_map(agents.drop_last()).insert(agents.last().agent_id, agents.last())
    }
}

/// No two snapshots of the list belong to the same agent.
pub open spec fn distinct_agents(agents: Seq<AgentSnapshotView>) -> bool {
    forall|i: int, j: int|
        0 <= i < j < agents.len() ==> agents[i].agent_id != agents[j].agent_id
}

/// The state after a full snapshot of some agents: each listed snapshot
/// replaces the local one and clears the agent's pending resync.
pub open spec fn install_snapshots(
    s: ReplicatedStateView,
    agents: Seq<AgentSnapshotView>,
) -> ReplicatedStateView
    decreases agents.len(),
{
    if agents.len() == 0 {
        s
    } else {
        let before = install_snapshots(s, agents.drop_last());
        let agent = agents.last();
        ReplicatedStateView {
            agents: before.agents.insert(agent.agent_id, agent),
            resync_required: before.resync_required.remove(agent.agent_id),
        }
    }
}

/// The content of a replication error.
pub enum ReplicationErrorView {
    MissingSnapshot(Seq<char>),
    ResyncPending(Seq<char>),
    NonContiguousEventSequence { local: u64, incoming: u64 },
    EventSequenceExhausted,
    Delta(DeltaApplyErrorView),
}

/// Why an update at `incoming` cannot follow a local sequence `current`, if it cannot.
pub open spec fn sequence_fault(current: u64, incoming: u64) -> Option<ReplicationErrorView> {
    if current == u64::MAX {
        Some(ReplicationErrorView::EventSequenceExhausted)
    } else if incoming != current + 1 {
        Some(ReplicationErrorView::NonContiguousEventSequence { local: current, incoming })
    } else {
        None
    }
}

/// Why an update of agent `id` at `sequence` cannot be applied, if it cannot:
/// the agent has no snapshot, waits for a fresh one, or the sequence does not
/// follow the local one directly.
pub open spec fn update_fault(s: ReplicatedStateView, id: Seq<char>, sequence: u64) -> Option<
    ReplicationErrorView,
> {
    if !s.agents.dom().contains(id) {
        Some(ReplicationErrorView::MissingSnapshot(id))
    } else if s.resync_required.contains(id) {
        Some(ReplicationErrorView::ResyncPending(id))
    } else {
        sequence_fault(s.agents[id].event_sequence, sequence)
    }
}

/// The agent's snapshot after a delta at `sequence`, or why it was refused.
pub open spec fn delta_step(s: ReplicatedStateView, delta: StateDeltaView, sequence: u64) -> Result<
    AgentSnapshotView,
    ReplicationErrorView,
> {
    match update_fault(s, delta.agent_id, sequence) {
        Some(e) => Err(e),
        None => match delta_outcome(s.agents[delta.agent_id], delta, sequence) {
            Ok(agent) => Ok(agent),
            Err(e) => Err(ReplicationErrorView::Delta(e)),
        },
    }
}

/// The agent's snapshot after an event or interaction at `sequence`, or why it
/// was refused.
pub open spec fn sequence_step(s: ReplicatedStateView, id: Seq<char>, sequence: u64) -> Result<
    AgentSnapshotView,
    ReplicationErrorView,
> {
    match update_fault(s, id, sequence) {
        Some(e) => Err(e),
        None => Ok(AgentSnapshotView { event_sequence: sequence, ..s.agents[id] }),
    }
}

/// The state after an update of agent `id`: the new snapshot when it was
/// accepted, otherwise the agent marked as needing a fresh snapshot.
pub open spec fn settle(
    s: ReplicatedStateView,
    id: Seq<char>,
    step: Result<AgentSnapshotView, ReplicationErrorView>,
) -> ReplicatedStateView {
    match step {
        Ok(agent) => ReplicatedStateView {
            agents: s.agents.insert(id, agent),
            resync_required: s.resync_required,
        },
        Err(_) => ReplicatedStateView {
            agents: s.agents,
            resync_required: s.resync_required.insert(id),
        },
    }
}

/// The state after a replay gap for agent `id`.
pub open spec fn mark_resync(s: ReplicatedStateView, id: Seq<char>) -> ReplicatedStateView {
    ReplicatedStateView { agents: s.agents, resync_required: s.resync_required.insert(id) }
}

/// The replicated state after one server frame, as `ReplicatedState::apply`
/// leaves it.
pub open spec fn replicated_after<E>(s: ReplicatedStateView, frame: ServerFrame<E>) -> ReplicatedStateView {
    match frame {
        ServerFrame::Snapshot(snapshot) => install_snapshots(s, snapshots_view(snapshot.agents@)),
        ServerFrame::Delta(envelope) => settle(
            s,
            envelope.delta.agent_id@,
            delta_step(s, envelope.delta@, envelope.event_sequence.0),
        ),
        ServerFrame::Event(envelope) => settle(
            s,
            envelope.agent_id@,
            sequence_step(s, envelope.agent_id@, envelope.event_sequence.0),
        ),
        ServerFrame::InteractionRequest(envelope) => settle(
            s,
            envelope.agent_id@,
            sequence_step(s, envelope.agent_id@, envelope.event_sequence.0),
        ),
        ServerFrame::ReplayGap(gap) => mark_resync(s, gap.agent_id@),
        _ => s,
    }
}

/// The message of a replication error.
pub open spec fn replication_error_message(e: ReplicationErrorView) -> Seq<char> {
    match e {
        ReplicationErrorView::MissingSnapshot(id) => "received an update for "@ + id
            + " before its snapshot"@,
        ReplicationErrorView::ResyncPending(id) => "updates for "@ + id
            + " require a fresh snapshot"@,
        ReplicationErrorView::NonContiguousEventSequence { local, incoming } => "event sequence "@
            + decimal(incoming as nat) + " does not immediately follow local sequence "@
            + decimal(local as nat),
        ReplicationErrorView::EventSequenceExhausted =>
            "event sequence cannot advance beyond u64::MAX"@,
        ReplicationErrorView::Delta(e) => delta_error_message(e),
    }
}

/// Whether the agent has a snapshot in `agents`.
proof fn lemma_agent_map_domain(agents: Seq<AgentSnapshotView>, id: Seq<char>)
    ensures
        agent_map(agents).dom().contains(id) <==> exists|i: int|
            0 <= i < agents.len() && #[trigger] agents[i].agent_id == id,
    decreases agents.len(),
{
    if agents.len() > 0 {
        lemma_agent_map_domain(agents.drop_last(), id);
        if agent_map(agents).dom().contains(id) && id != agents.last().agent_id {
            let i = choose|i: int|
                0 <= i < agents.drop_last().len() && #[trigger] agents.drop_last()[i].agent_id
                    == id;
            assert(agents[i].agent_id == id);
        }
        if exists|i: int| 0 <= i < agents.len() && #[trigger] agents[i].agent_id == id {
            let i = choose|i: int| 0 <= i < agents.len() && #[trigger] agents[i].agent_id == id;
            if i < agents.len() - 1 {
                assert(agents.drop_last()[i].agent_id == id);
            }
        }
    }
}

/// In a list of distinct agents, each snapshot is the one found under its agent.
proof fn lemma_agent_map_get(agents: Seq<AgentSnapshotView>, i: int)
    requires
        distinct_agents(agents),
        0 <= i < agents.len(),
    ensures
        agent_map(agents).dom().contains(agents[i].agent_id),
        agent_map(agents)[agents[i].agent_id] == agents[i],
    decreases agents.len(),
{
    if i < agents.len() - 1 {
        assert(agents.drop_last()[i] == agents[i]);
        lemma_agent_map_get(agents.drop_last(), i);
        assert(agents.last().agent_id != agents[i].agent_id);
    }
}

/// Replacing the snapshot of one agent in a list of distinct agents replaces
/// it in the map.
pub proof fn lemma_agent_map_update(agents: Seq<AgentSnapshotView>, i: int, agent: AgentSnapshotView)
    requires
        distinct_agents(agents),
        0 <= i < agents.len(),
        agent.agent_id == agents[i].agent_id,
    ensures
        agent_map(agents.update(i, agent)) == agent_map(agents).insert(agent.agent_id, agent),
    decreases agents.len(),
{
    let updated = agents.update(i, agent);
    if i == agents.len() - 1 {
        assert(updated.drop_last() =~= agents.drop_last());
        lemma_agent_map_domain(agents.drop_last(), agent.agent_id);
        assert(agent_map(updated) =~= agent_map(agents).insert(agent.agent_id, agent));
    } else {
        assert(updated.drop_last() =~= agents.drop_last().update(i, agent));
        assert(agents.drop_last()[i] == agents[i]);
        lemma_agent_map_update(agents.drop_last(), i, agent);
        assert(updated.last() == agents.last());
        assert(agents.last().agent_id != agent.agent_id);
        assert(agent_map(updated) =~= agent_map(agents).insert(agent.agent_id, agent));
    }
}

/// Inserting the snapshot of an agent not yet listed, anywhere in a list of
/// distinct agents, adds it to the map and keeps the agents distinct.
pub proof fn lemma_agent_map_insert(agents: Seq<AgentSnapshotView>, p: int, agent: AgentSnapshotView)
    requires
        distinct_agents(agents),
        0 <= p <= agents.len(),
        forall|i: int| 0 <= i < agents.len() ==> #[trigger] agents[i].agent_id != agent.agent_id,
    ensures
        distinct_agents(agents.insert(p, agent)),
        agent_map(agents.insert(p, agent)) == agent_map(agents).insert(agent.agent_id, agent),
{
    let longer = agents.insert(p, agent);
    assert forall|i: int, j: int| 0 <= i < j < longer.len() implies longer[i].agent_id
        != longer[j].agent_id by {
        if i < p && j < p {
            assert(longer[i] == agents[i] && longer[j] == agents[j]);
        } else if i < p && j == p {
            assert(longer[i] == agents[i]);
        } else if i < p {
            assert(longer[i] == agents[i] && longer[j] == agents[j - 1]);
        } else if i == p {
            assert(longer[j] == agents[j - 1]);
        } else {
            assert(longer[i] == agents[i - 1] && longer[j] == agents[j - 1]);
        }
    }
    let expected = agent_map(agents).insert(agent.agent_id, agent);
    assert forall|id: Seq<char>| #[trigger] agent_map(longer).dom().contains(id)
        == expected.dom().contains(id) by {
        lemma_agent_map_domain(longer, id);
        lemma_agent_map_domain(agents, id);
        if exists|i: int| 0 <= i < longer.len() && #[trigger] longer[i].agent_id == id {
            let i = choose|i: int| 0 <= i < longer.len() && #[trigger] longer[i].agent_id == id;
            if i < p {
                assert(agents[i] == longer[i]);
            } else if i > p {
                assert(agents[i - 1] == longer[i]);
            }
        }
        if exists|i: int| 0 <= i < agents.len() && #[trigger] agents[i].agent_id == id {
            let i = choose|i: int| 0 <= i < agents.len() && #[trigger] agents[i].agent_id == id;
            if i < p {
                assert(longer[i] == agents[i]);
            } else {
                assert(longer[i + 1] == agents[i]);
            }
        }
        assert(longer[p] == agent);
    }
    assert forall|id: Seq<char>| #[trigger] agent_map(longer).dom().contains(id) implies agent_map(
        longer,
    )[id] == expected[id] by {
        lemma_agent_map_domain(longer, id);
        let i = choose|i: int| 0 <= i < longer.len() && #[trigger] longer[i].agent_id == id;
        lemma_agent_map_get(longer, i);
        if i < p {
            assert(longer[i] == agents[i]);
            lemma_agent_map_get(agents, i);
        } else if i > p {
            assert(longer[i] == agents[i - 1]);
            lemma_agent_map_get(agents, i - 1);
        }
    }
    assert(agent_map(longer) =~= expected);
}

/// Where the snapshot of `agent_id` is in `agents`, if anywhere.
pub fn snapshot_position(agents: &Vec<AgentSnapshot>, agent_id: &AgentId) -> (r: Option<usize>)
    ensures
        match r {
            Some(i) => i < agents.len() && agents@[i as int].agent_id@ == agent_id@,
            None => forall|i: int|
                0 <= i < agents.len() ==> #[trigger] agents@[i].agent_id@ != agent_id@,
        },
{
    let mut i: usize = 0;
    while i < agents.len()
        invariant
            i <= agents.len(),
            forall|k: int| 0 <= k < i ==> #[trigger] agents@[k].agent_id@ != agent_id@,
        decreases agents.len() - i,
    {
        if agents[i].agent_id == *agent_id {
            return Some(i);
        }
        i = i + 1;
    }
    None
}

/// The snapshots are listed in strictly ascending identifier order.
pub open spec fn agents_in_order(agents: Seq<AgentSnapshot>) -> bool {
    forall|i: int, j: int|
        0 <= i < j < agents.len() ==> id_before(agents[i].agent_id@, agents[j].agent_id@)
}

/// Where the snapshot of `agent_id` is in an ordered list, or where it would
/// go to keep the order.
fn agent_slot(agents: &Vec<AgentSnapshot>, agent_id: &AgentId) -> (r: (usize, bool))
    requires
        agents_in_order(agents@),
    ensures
        r.0 <= agents.len(),
        r.1 ==> r.0 < agents.len() && agents@[r.0 as int].agent_id@ == agent_id@,
        !r.1 ==> (forall|j: int| 0 <= j < r.0 ==> id_before(agents@[j].agent_id@, agent_id@)) && (
        forall|j: int| r.0 <= j < agents.len() ==> id_before(agent_id@, agents@[j].agent_id@)),
{
    let mut i: usize = 0;
    while i < agents.len()
        invariant
            i <= agents.len(),
            agents_in_order(agents@),
            forall|j: int| 0 <= j < i ==> id_before(agents@[j].agent_id@, agent_id@),
        decreases agents.len() - i,
    {
        let at = agents[i].agent_id.as_str();
        let below = text_le(at, agent_id.as_str());
        let above = text_le(agent_id.as_str(), at);
        let ghost here = agents@[i as int].agent_id@;
        if below && above {
            proof {
                lemma_bytes_le_antisymmetric(id_bytes(here), id_bytes(agent_id@));
                assert(vstd::utf8::decode_utf8(id_bytes(here)) == vstd::utf8::decode_utf8(
                    id_bytes(agent_id@),
                ));
            }
            return (i, true);
        }
        if above {
            proof {
                assert forall|j: int| i <= j < agents.len() implies id_before(
                    agent_id@,
                    agents@[j].agent_id@,
                ) by {
                    if j > i {
                        let mid = id_bytes(here);
                        assert(id_before(here, agents@[j].agent_id@));
                        lemma_bytes_le_transitive(id_bytes(agent_id@), mid, id_bytes(agents@[j].agent_id@));
                        if id_bytes(agent_id@) == id_bytes(agents@[j].agent_id@) {
                            lemma_bytes_le_antisymmetric(mid, id_bytes(agents@[j].agent_id@));
                        }
                    }
                }
            }
            return (i, false);
        }
        proof {
            lemma_bytes_le_total(id_bytes(here), id_bytes(agent_id@));
        }
        i = i + 1;
    }
    (i, false)
}

/// Stores `agent` in `agents` as the snapshot of its agent, replacing any
/// earlier one and keeping the list in ascending identifier order.
pub fn store_snapshot(agents: &mut Vec<AgentSnapshot>, agent: AgentSnapshot)
    requires
        distinct_agents(snapshots_view(old(agents)@)),
        agents_in_order(old(agents)@),
    ensures
        distinct_agents(snapshots_view(final(agents)@)),
        agents_in_order(final(agents)@),
        agent_map(snapshots_view(final(agents)@)) == agent_map(snapshots_view(old(agents)@)).insert(
            agent@.agent_id,
            agent@,
        ),
{
    let ghost entries = agents@;
    let ghost views = snapshots_view(entries);
    let ghost value = agent@;
    let (position, found) = agent_slot(agents, &agent.agent_id);
    if found {
        proof {
            lemma_agent_map_update(views, position as int, value);
        }
        agents.set(position, agent);
        proof {
            assert(snapshots_view(agents@) =~= views.update(position as int, value));
            assert forall|i: int, j: int|
                0 <= i < j < agents.len() implies id_before(
                agents@[i].agent_id@,
                agents@[j].agent_id@,
            ) by {
                assert(agents@[i].agent_id@ == entries[i].agent_id@);
                assert(agents@[j].agent_id@ == entries[j].agent_id@);
            }
            assert forall|i: int, j: int|
                0 <= i < j < snapshots_view(agents@).len() implies snapshots_view(
                agents@,
            )[i].agent_id != snapshots_view(agents@)[j].agent_id by {
                assert(views[i].agent_id == snapshots_view(agents@)[i].agent_id);
                assert(views[j].agent_id == snapshots_view(agents@)[j].agent_id);
            }
        }
    } else {
        proof {
            assert forall|j: int| 0 <= j < views.len() implies #[trigger] views[j].agent_id
                != value.agent_id by {
                assert(id_before(entries[j].agent_id@, value.agent_id) || id_before(
                    value.agent_id,
                    entries[j].agent_id@,
                ));
            }
            lemma_agent_map_insert(views, position as int, value);
        }
        agents.insert(position, agent);
        proof {
            assert(snapshots_view(agents@) =~= views.insert(position as int, value));
            assert forall|i: int, j: int|
                0 <= i < j < agents.len() implies id_before(
                agents@[i].agent_id@,
                agents@[j].agent_id@,
            ) by {
                if j < position {
                    assert(agents@[i] == entries[i]);
                    assert(agents@[j] == entries[j]);
                } else if j == position {
                    assert(agents@[i] == entries[i]);
                } else if i < position {
                    assert(agents@[i] == entries[i]);
                    assert(agents@[j] == entries[j - 1]);
                } else if i == position {
                    assert(agents@[j] == entries[j - 1]);
                } else {
                    assert(agents@[i] == entries[i - 1]);
                    assert(agents@[j] == entries[j - 1]);
                }
            }
        }
    }
}

/// The client's copy of the server's agent state, kept current by applying
/// server frames in order.
pub struct ReplicatedState {
    agents: Vec<AgentSnapshot>,
    resync_required: Vec<AgentId>,
}

impl View for ReplicatedState {
    type V = ReplicatedStateView;

    closed spec fn view(&self) -> ReplicatedStateView {
        ReplicatedStateView {
            agents: agent_map(snapshots_view(self.agents@)),
            resync_required: agent_ids_view(self.resync_required@).to_set(),
        }
    }
}

/// What applying a frame means for the client.
#[derive(Debug, PartialEq)]
pub enum ReplicationEffect<E> {
    StateChanged(AgentId),
    Event(EventEnvelope<E>),
    Interaction(UiInteractionEnvelope),
    ResyncRequired(AgentId),
}

/// Why a server frame could not be applied.
#[derive(Debug, PartialEq, Eq)]
pub enum ReplicationError {
    MissingSnapshot(AgentId),
    ResyncPending(AgentId),
    NonContiguousEventSequence { local: EventSequence, incoming: EventSequence },
    EventSequenceExhausted,
    Delta(DeltaApplyError),
}

impl View for ReplicationError {
    type V = ReplicationErrorView;

    open spec fn view(&self) -> ReplicationErrorView {
        match self {
            ReplicationError::MissingSnapshot(id) => ReplicationErrorView::MissingSnapshot(id@),
            ReplicationError::ResyncPending(id) => ReplicationErrorView::ResyncPending(id@),
            ReplicationError::NonContiguousEventSequence { local, incoming } =>
                ReplicationErrorView::NonContiguousEventSequence {
                    local: local.0,
                    incoming: incoming.0,
                },
            ReplicationError::EventSequenceExhausted =>
                ReplicationErrorView::EventSequenceExhausted,
            ReplicationError::Delta(e) => ReplicationErrorView::Delta(e@),
        }
    }
}

impl ReplicationError {
    /// The agent the error is about, where it names one.
    pub fn agent_id(&self) -> (r: Option<&AgentId>)
        ensures
            match self {
                ReplicationError::MissingSnapshot(id) => r == Some(id),
                ReplicationError::ResyncPending(id) => r == Some(id),
                ReplicationError::Delta(DeltaApplyError::WrongAgent { actual, .. }) => r == Some(
                    actual,
                ),
                _ => r is None,
            },
    {
        match self {
            ReplicationError::MissingSnapshot(id) => Some(id),
            ReplicationError::ResyncPending(id) => Some(id),
            ReplicationError::Delta(DeltaApplyError::WrongAgent { actual, .. }) => Some(actual),
            _ => None,
        }
    }

    /// The human-readable message of the error.
    pub fn to_string(&self) -> (r: String)
        ensures
            r@ == replication_error_message(self@),
    {
        match self {
            ReplicationError::MissingSnapshot(id) => {
                let mut out = String::from_str("received an update for ");
                out.append(id.as_str());
                out.append(" before its snapshot");
                out
            },
            ReplicationError::ResyncPending(id) => {
                let mut out = String::from_str("updates for ");
                out.append(id.as_str());
                out.append(" require a fresh snapshot");
                out
            },
            ReplicationError::NonContiguousEventSequence { local, incoming } => {
                let mut out = String::from_str("event sequence ");
                push_decimal(&mut out, incoming.0);
                out.append(" does not immediately follow local sequence ");
                push_decimal(&mut out, local.0);
                out
            },
            ReplicationError::EventSequenceExhausted => String::from_str(
                "event sequence cannot advance beyond u64::MAX",
            ),
            ReplicationError::Delta(e) => e.to_string(),
        }
    }
}

impl ReplicatedState {
    /// No two stored snapshots belong to the same agent.
    pub closed spec fn wf(&self) -> bool {
        &&& distinct_agents(snapshots_view(self.agents@))
        &&& agents_in_order(self.agents@)
    }

    /// A state that knows of no agent.
    pub fn new() -> (r: Self)
        ensures
            r.wf(),
            r@.agents == Map::<Seq<char>, AgentSnapshotView>::empty(),
            r@.resync_required == Set::<Seq<char>>::empty(),
    {
        let r = ReplicatedState { agents: Vec::new(), resync_required: Vec::new() };
        proof {
            assert(snapshots_view(r.agents@) =~= Seq::<AgentSnapshotView>::empty());
            assert(agent_ids_view(r.resync_required@).to_set() =~= Set::<Seq<char>>::empty());
        }
        r
    }

    /// The stored snapshots, one per agent, in ascending identifier order.
    pub fn agents(&self) -> (r: &Vec<AgentSnapshot>)
        requires
            self.wf(),
        ensures
            agent_map(snapshots_view(r@)) == self@.agents,
            distinct_agents(snapshots_view(r@)),
            agents_in_order(r@),
    {
        &self.agents
    }

    /// Where the snapshot of `agent_id` is stored, if anywhere.
    fn position(&self, agent_id: &AgentId) -> (r: Option<usize>)
        ensures
            match r {
                Some(i) => i < self.agents.len() && self.agents@[i as int].agent_id@ == agent_id@,
                None => forall|i: int|
                    0 <= i < self.agents.len() ==> #[trigger] self.agents@[i].agent_id@
                        != agent_id@,
            },
    {
        snapshot_position(&self.agents, agent_id)
    }

    /// The latest snapshot of `agent_id`, if the agent is known.
    pub fn agent(&self, agent_id: &AgentId) -> (r: Option<&AgentSnapshot>)
        requires
            self.wf(),
        ensures
            match r {
                Some(agent) => self@.agents.dom().contains(agent_id@) && agent@
                    == self@.agents[agent_id@] && agent@.agent_id == agent_id@,
                None => !self@.agents.dom().contains(agent_id@),
            },
    {
        proof {
            lemma_agent_map_domain(snapshots_view(self.agents@), agent_id@);
        }
        match self.position(agent_id) {
            Some(i) => {
                proof {
                    lemma_agent_map_get(snapshots_view(self.agents@), i as int);
                }
                Some(&self.agents[i])
            },
            None => {
                proof {
                    assert forall|k: int| 0 <= k < snapshots_view(self.agents@).len() implies #[trigger] snapshots_view(
                        self.agents@,
                    )[k].agent_id != agent_id@ by {
                        assert(self.agents@[k].agent_id@ != agent_id@);
                    }
                }
                None
            },
        }
    }

    /// Whether updates of `agent_id` wait for a fresh snapshot.
    pub fn is_resync_required(&self, agent_id: &AgentId) -> (r: bool)
        ensures
            r == self@.resync_required.contains(agent_id@),
    {
        let mut i: usize = 0;
        while i < self.resync_required.len()
            invariant
                i <= self.resync_required.len(),
                forall|k: int|
                    0 <= k < i ==> #[trigger] self.resync_required@[k]@ != agent_id@,
            decreases self.resync_required.len() - i,
        {
            if self.resync_required[i] == *agent_id {
                proof {
                    assert(agent_ids_view(self.resync_required@)[i as int] == agent_id@);
                }
                return true;
            }
            i = i + 1;
        }
        proof {
            if agent_ids_view(self.resync_required@).contains(agent_id@) {
                let k = choose|k: int|
                    0 <= k < agent_ids_view(self.resync_required@).len() && agent_ids_view(
                        self.resync_required@,
                    )[k] == agent_id@;
                assert(self.resync_required@[k]@ == agent_id@);
            }
        }
        false
    }

    /// Where a subscription of `agent_id` would resume: the stored snapshot's
    /// position, unless the agent is unknown or waits for a fresh snapshot.
    pub fn cursor(&self, agent_id: &AgentId) -> (r: Option<SubscriptionCursor>)
        requires
            self.wf(),
        ensures
            match r {
                Some(cursor) => self@.agents.dom().contains(agent_id@)
                    && !self@.resync_required.contains(agent_id@) && cursor@ == (CursorView {
                    agent_id: agent_id@,
                    revision: self@.agents[agent_id@].revision,
                    event_sequence: self@.agents[agent_id@].event_sequence,
                }),
                None => !self@.agents.dom().contains(agent_id@)
                    || self@.resync_required.contains(agent_id@),
            },
    {
        if self.is_resync_required(agent_id) {
            return None;
        }
        match self.position(agent_id) {
            Some(i) => {
                proof {
                    lemma_agent_map_get(snapshots_view(self.agents@), i as int);
                }
                let agent = &self.agents[i];
                Some(
                    SubscriptionCursor {
                        agent_id: agent.agent_id.clone(),
                        revision: agent.revision,
                        event_sequence: agent.event_sequence,
                    },
                )
            },
            None => {
                proof {
                    lemma_agent_map_domain(snapshots_view(self.agents@), agent_id@);
                    assert forall|k: int| 0 <= k < snapshots_view(self.agents@).len() implies #[trigger] snapshots_view(
                        self.agents@,
                    )[k].agent_id != agent_id@ by {
                        assert(self.agents@[k].agent_id@ != agent_id@);
                    }
                }
                None
            },
        }
    }
}

impl ReplicatedState {
    /// Marks `agent_id` as waiting for a fresh snapshot.
    fn require_resync(&mut self, agent_id: AgentId)
        requires
            old(self).wf(),
        ensures
            final(self).wf(),
            final(self)@ == mark_resync(old(self)@, agent_id@),
    {
        if self.is_resync_required(&agent_id) {
            proof {
                assert(old(self)@.resync_required.insert(agent_id@) =~= old(
                    self,
                )@.resync_required);
            }
        } else {
            let ghost id = agent_id@;
            self.resync_required.push(agent_id);
            proof {
                assert(agent_ids_view(self.resync_required@) =~= agent_ids_view(
                    old(self).resync_required@,
                ).push(id));
                agent_ids_view(old(self).resync_required@).lemma_push_to_set_commute(id);
            }
        }
    }

    /// Clears the pending resync of `agent_id`.
    fn clear_resync(&mut self, agent_id: &AgentId)
        requires
            old(self).wf(),
        ensures
            final(self).wf(),
            final(self)@ == (ReplicatedStateView {
                agents: old(self)@.agents,
                resync_required: old(self)@.resync_required.remove(agent_id@),
            }),
    {
        let mut kept: Vec<AgentId> = Vec::new();
        let mut i: usize = 0;
        while i < self.resync_required.len()
            invariant
                i <= self.resync_required.len(),
                agent_ids_view(kept@).to_set() == agent_ids_view(self.resync_required@).take(
                    i as int,
                ).to_set().remove(agent_id@),
            decreases self.resync_required.len() - i,
        {
            let ghost before = agent_ids_view(kept@);
            let ghost prefix = agent_ids_view(self.resync_required@).take(i as int);
            let ghost x = self.resync_required@[i as int]@;
            proof {
                assert(agent_ids_view(self.resync_required@).take(i + 1) =~= prefix.push(x));
                prefix.lemma_push_to_set_commute(x);
            }
            if !(self.resync_required[i] == *agent_id) {
                kept.push(self.resync_required[i].clone());
                proof {
                    assert(agent_ids_view(kept@) =~= before.push(x));
                    before.lemma_push_to_set_commute(x);
                    assert(before.push(x).to_set() =~= prefix.push(x).to_set().remove(agent_id@));
                }
            } else {
                proof {
                    assert(before.to_set() =~= prefix.push(x).to_set().remove(agent_id@));
                }
            }
            i = i + 1;
        }
        proof {
            assert(agent_ids_view(self.resync_required@).take(self.resync_required.len() as int)
                =~= agent_ids_view(self.resync_required@));
        }
        self.resync_required = kept;
    }

    /// Stores `agent` as the snapshot of its agent, replacing any earlier one.
    fn store(&mut self, agent: AgentSnapshot)
        requires
            old(self).wf(),
        ensures
            final(self).wf(),
            final(self)@ == (ReplicatedStateView {
                agents: old(self)@.agents.insert(agent@.agent_id, agent@),
                resync_required: old(self)@.resync_required,
            }),
    {
        store_snapshot(&mut self.agents, agent);
    }

    /// Finds the stored snapshot that an update of `agent_id` at `sequence`
    /// applies to, or says why the update is refused.
    fn locate(&self, agent_id: &AgentId, sequence: EventSequence) -> (r: Result<
        usize,
        ReplicationError,
    >)
        requires
            self.wf(),
        ensures
            match r {
                Ok(i) => i < self.agents.len() && update_fault(self@, agent_id@, sequence.0) is None
                    && self.agents@[i as int].agent_id@ == agent_id@ && self@.agents.dom().contains(
                    agent_id@,
                ) && self@.agents[agent_id@] == self.agents@[i as int]@,
                Err(e) => update_fault(self@, agent_id@, sequence.0) == Some(e@),
            },
    {
        proof {
            lemma_agent_map_domain(snapshots_view(self.agents@), agent_id@);
        }
        match self.position(agent_id) {
            None => {
                proof {
                    assert forall|k: int| 0 <= k < snapshots_view(self.agents@).len() implies #[trigger] snapshots_view(
                        self.agents@,
                    )[k].agent_id != agent_id@ by {
                        assert(self.agents@[k].agent_id@ != agent_id@);
                    }
                }
                Err(ReplicationError::MissingSnapshot(agent_id.clone()))
            },
            Some(i) => {
                proof {
                    lemma_agent_map_get(snapshots_view(self.agents@), i as int);
                }
                if self.is_resync_required(agent_id) {
                    return Err(ReplicationError::ResyncPending(agent_id.clone()));
                }
                match require_next_sequence(self.agents[i].event_sequence, sequence) {
                    Ok(()) => Ok(i),
                    Err(e) => Err(e),
                }
            },
        }
    }

    /// Applies a full snapshot: every listed agent's snapshot replaces the
    /// local one and its pending resync is cleared.
    fn apply_snapshot<E>(&mut self, snapshot: StateSnapshot) -> (r: Vec<ReplicationEffect<E>>)
        requires
            old(self).wf(),
        ensures
            final(self).wf(),
            final(self)@ == install_snapshots(old(self)@, snapshots_view(snapshot.agents@)),
            r.len() == snapshot.agents.len(),
            forall|k: int|
                0 <= k < r.len() ==> (#[trigger] r@[k] matches ReplicationEffect::StateChanged(id)
                    && id@ == snapshot.agents@[k].agent_id@),
    {
        let mut effects: Vec<ReplicationEffect<E>> = Vec::new();
        let ghost start = self@;
        let ghost listed = snapshots_view(snapshot.agents@);
        let mut i: usize = 0;
        while i < snapshot.agents.len()
            invariant
                i <= snapshot.agents.len(),
                listed == snapshots_view(snapshot.agents@),
                self.wf(),
                self@ == install_snapshots(start, listed.take(i as int)),
                effects.len() == i,
                forall|k: int|
                    0 <= k < i ==> (#[trigger] effects@[k] matches ReplicationEffect::StateChanged(
                        id,
                    ) && id@ == snapshot.agents@[k].agent_id@),
            decreases snapshot.agents.len() - i,
        {
            let agent = snapshot.agents[i].clone();
            let agent_id = agent.agent_id.clone();
            proof {
                assert(listed.take(i + 1).drop_last() =~= listed.take(i as int));
                assert(listed.take(i + 1).last() == agent@);
            }
            self.clear_resync(&agent_id);
            self.store(agent);
            effects.push(ReplicationEffect::StateChanged(agent_id));
            i = i + 1;
        }
        proof {
            assert(listed.take(snapshot.agents.len() as int) =~= listed);
        }
        effects
    }
}

impl ReplicatedState {
    /// Stores `agent` at position `i`, where the same agent's snapshot is.
    fn replace_at(&mut self, i: usize, agent: AgentSnapshot)
        requires
            old(self).wf(),
            i < old(self).agents.len(),
            old(self).agents@[i as int].agent_id@ == agent@.agent_id,
        ensures
            final(self).wf(),
            final(self)@ == (ReplicatedStateView {
                agents: old(self)@.agents.insert(agent@.agent_id, agent@),
                resync_required: old(self)@.resync_required,
            }),
    {
        let ghost views = snapshots_view(self.agents@);
        proof {
            lemma_agent_map_update(views, i as int, agent@);
        }
        self.agents.set(i, agent);
        proof {
            let updated = snapshots_view(self.agents@);
            assert(updated =~= views.update(i as int, agent@));
            assert forall|j: int, k: int|
                0 <= j < k < updated.len() implies updated[j].agent_id != updated[k].agent_id by {
                assert(views[j].agent_id != views[k].agent_id);
            }
            assert forall|j: int, k: int|
                0 <= j < k < self.agents.len() implies id_before(
                self.agents@[j].agent_id@,
                self.agents@[k].agent_id@,
            ) by {
                assert(self.agents@[j].agent_id@ == old(self).agents@[j].agent_id@);
                assert(self.agents@[k].agent_id@ == old(self).agents@[k].agent_id@);
            }
        }
    }

    /// Applies a delta; a refused delta marks its agent as waiting for a fresh snapshot.
    fn apply_delta_envelope<E>(&mut self, envelope: DeltaEnvelope) -> (r: Result<
        Vec<ReplicationEffect<E>>,
        ReplicationError,
    >)
        requires
            old(self).wf(),
        ensures
            final(self).wf(),
            final(self)@ == settle(
                old(self)@,
                envelope.delta.agent_id@,
                delta_step(old(self)@, envelope.delta@, envelope.event_sequence.0),
            ),
            match delta_step(old(self)@, envelope.delta@, envelope.event_sequence.0) {
                Ok(_) => (r matches Ok(effects) && effects.len() == 1 && (
                effects@[0] matches ReplicationEffect::StateChanged(id) && id@
                    == envelope.delta.agent_id@)),
                Err(e) => (r matches Err(err) && err@ == e),
            },
    {
        let agent_id = envelope.delta.agent_id.clone();
        match self.locate(&agent_id, envelope.event_sequence) {
            Err(e) => {
                self.require_resync(agent_id);
                Err(e)
            },
            Ok(i) => {
                let mut agent = self.agents[i].clone();
                match agent.apply_delta(envelope.delta, envelope.event_sequence) {
                    Ok(()) => {
                        self.replace_at(i, agent);
                        Ok(vec![ReplicationEffect::StateChanged(agent_id)])
                    },
                    Err(e) => {
                        self.require_resync(agent_id);
                        Err(ReplicationError::Delta(e))
                    },
                }
            },
        }
    }

    /// Advances the event sequence of `agent_id` to `sequence`; a refused
    /// update marks the agent as waiting for a fresh snapshot.
    fn advance_sequence(&mut self, agent_id: AgentId, sequence: EventSequence) -> (r: Result<
        (),
        ReplicationError,
    >)
        requires
            old(self).wf(),
        ensures
            final(self).wf(),
            final(self)@ == settle(
                old(self)@,
                agent_id@,
                sequence_step(old(self)@, agent_id@, sequence.0),
            ),
            match sequence_step(old(self)@, agent_id@, sequence.0) {
                Ok(_) => r is Ok,
                Err(e) => (r matches Err(err) && err@ == e),
            },
    {
        match self.locate(&agent_id, sequence) {
            Err(e) => {
                self.require_resync(agent_id);
                Err(e)
            },
            Ok(i) => {
                let mut agent = self.agents[i].clone();
                agent.event_sequence = sequence;
                proof {
                    assert(agent@ == (AgentSnapshotView {
                        event_sequence: sequence.0,
                        ..old(self)@.agents[agent_id@]
                    }));
                }
                self.replace_at(i, agent);
                Ok(())
            },
        }
    }

    /// Applies one server frame in stream order. Snapshots replace local state,
    /// deltas, events and interaction requests must each directly follow the
    /// agent's local event sequence, and a refused update or a replay gap
    /// leaves the agent waiting for a fresh snapshot.
    pub fn apply<E>(&mut self, frame: ServerFrame<E>) -> (r: Result<
        Vec<ReplicationEffect<E>>,
        ReplicationError,
    >)
        requires
            old(self).wf(),
        ensures
            final(self).wf(),
            final(self)@ == replicated_after(old(self)@, frame),
            match frame {
                ServerFrame::Snapshot(snapshot) => final(self)@ == install_snapshots(
                    old(self)@,
                    snapshots_view(snapshot.agents@),
                ) && (r matches Ok(effects) && effects.len() == snapshot.agents.len() && forall|
                    k: int,
                | 0 <= k < effects.len() ==> (#[trigger] effects@[k] matches ReplicationEffect::StateChanged(
                    id,
                ) && id@ == snapshot.agents@[k].agent_id@)),
                ServerFrame::Delta(envelope) => final(self)@ == settle(
                    old(self)@,
                    envelope.delta.agent_id@,
                    delta_step(old(self)@, envelope.delta@, envelope.event_sequence.0),
                ) && match delta_step(old(self)@, envelope.delta@, envelope.event_sequence.0) {
                    Ok(_) => (r matches Ok(effects) && effects.len() == 1 && (
                    effects@[0] matches ReplicationEffect::StateChanged(id) && id@
                        == envelope.delta.agent_id@)),
                    Err(e) => (r matches Err(err) && err@ == e),
                },
                ServerFrame::Event(envelope) => final(self)@ == settle(
                    old(self)@,
                    envelope.agent_id@,
                    sequence_step(old(self)@, envelope.agent_id@, envelope.event_sequence.0),
                ) && match sequence_step(
                    old(self)@,
                    envelope.agent_id@,
                    envelope.event_sequence.0,
                ) {
                    Ok(_) => (r matches Ok(effects) && effects.len() == 1 && (
                    effects@[0] matches ReplicationEffect::Event(e) && e == envelope)),
                    Err(e) => (r matches Err(err) && err@ == e),
                },
                ServerFrame::InteractionRequest(envelope) => final(self)@ == settle(
                    old(self)@,
                    envelope.agent_id@,
                    sequence_step(old(self)@, envelope.agent_id@, envelope.event_sequence.0),
                ) && match sequence_step(
                    old(self)@,
                    envelope.agent_id@,
                    envelope.event_sequence.0,
                ) {
                    Ok(_) => (r matches Ok(effects) && effects.len() == 1 && (
                    effects@[0] matches ReplicationEffect::Interaction(e) && e == envelope)),
                    Err(e) => (r matches Err(err) && err@ == e),
                },
                ServerFrame::ReplayGap(gap) => final(self)@ == mark_resync(
                    old(self)@,
                    gap.agent_id@,
                ) && (r matches Ok(effects) && effects.len() == 1 && (
                effects@[0] matches ReplicationEffect::ResyncRequired(id) && id@
                    == gap.agent_id@)),
                _ => final(self)@ == old(self)@ && (r matches Ok(effects) && effects.len() == 0),
            },
    {
        match frame {
            ServerFrame::Snapshot(snapshot) => Ok(self.apply_snapshot(snapshot)),
            ServerFrame::Delta(envelope) => self.apply_delta_envelope(envelope),
            ServerFrame::Event(envelope) => {
                let agent_id = envelope.agent_id.clone();
                match self.advance_sequence(agent_id, envelope.event_sequence) {
                    Ok(()) => Ok(vec![ReplicationEffect::Event(envelope)]),
                    Err(e) => Err(e),
                }
            },
            ServerFrame::InteractionRequest(envelope) => {
                let agent_id = envelope.agent_id.clone();
                match self.advance_sequence(agent_id, envelope.event_sequence) {
                    Ok(()) => Ok(vec![ReplicationEffect::Interaction(envelope)]),
                    Err(e) => Err(e),
                }
            },
            ServerFrame::ReplayGap(gap) => {
                let agent_id = gap.agent_id.clone();
                self.require_resync(gap.agent_id);
                Ok(vec![ReplicationEffect::ResyncRequired(agent_id)])
            },
            _ => Ok(Vec::new()),
        }
    }
}

impl Default for ReplicatedState {
    fn default() -> (r: Self)
        ensures
            r.wf(),
            r@.agents == Map::<Seq<char>, AgentSnapshotView>::empty(),
            r@.resync_required == Set::<Seq<char>>::empty(),
    {
        ReplicatedState::new()
    }
}

/// Snapshots, deltas, events and interaction requests share one contiguous
/// cursor per agent: an accepted delta moves the agent's event sequence
/// forward by exactly one and its revision to the next one, an accepted event
/// or interaction request
/// moves its event sequence forward by exactly one and keeps its revision.
pub proof fn lemma_accepted_updates_advance_by_one(
    s: ReplicatedStateView,
    delta: StateDeltaView,
    id: Seq<char>,
    sequence: u64,
)
    ensures
        delta_step(s, delta, sequence) matches Ok(agent) ==> s.agents.dom().contains(
            delta.agent_id,
        ) && agent.event_sequence == s.agents[delta.agent_id].event_sequence + 1
            && s.agents[delta.agent_id].revision < u64::MAX && agent.revision
                == s.agents[delta.agent_id].revision + 1,
        sequence_step(s, id, sequence) matches Ok(agent) ==> s.agents.dom().contains(id)
            && agent.event_sequence == s.agents[id].event_sequence + 1 && agent.revision
            == s.agents[id].revision,
{
}

/// Gaps fail closed: an update whose event sequence does not directly follow
/// the agent's local one is refused, keeps every stored snapshot as it was,
/// and leaves the agent waiting for a fresh snapshot.
pub proof fn lemma_gaps_fail_closed(
    s: ReplicatedStateView,
    delta: StateDeltaView,
    id: Seq<char>,
    sequence: u64,
)
    ensures
        s.agents.dom().contains(delta.agent_id) && sequence != s.agents[delta.agent_id].event_sequence
            + 1 ==> delta_step(s, delta, sequence) is Err && settle(
            s,
            delta.agent_id,
            delta_step(s, delta, sequence),
        ).agents == s.agents && settle(
            s,
            delta.agent_id,
            delta_step(s, delta, sequence),
        ).resync_required.contains(delta.agent_id),
        s.agents.dom().contains(id) && sequence != s.agents[id].event_sequence + 1
            ==> sequence_step(s, id, sequence) is Err && settle(
            s,
            id,
            sequence_step(s, id, sequence),
        ).agents == s.agents && settle(
            s,
            id,
            sequence_step(s, id, sequence),
        ).resync_required.contains(id),
{
}

/// An agent waiting for a fresh snapshot has every update refused with that
/// reason, and stays waiting, until a snapshot of it arrives.
pub proof fn lemma_resync_blocks_updates(
    s: ReplicatedStateView,
    delta: StateDeltaView,
    id: Seq<char>,
    sequence: u64,
)
    ensures
        s.agents.dom().contains(delta.agent_id) && s.resync_required.contains(delta.agent_id)
            ==> delta_step(s, delta, sequence) == Err::<AgentSnapshotView, ReplicationErrorView>(
            ReplicationErrorView::ResyncPending(delta.agent_id),
        ) && settle(s, delta.agent_id, delta_step(s, delta, sequence)) == s,
        s.agents.dom().contains(id) && s.resync_required.contains(id) ==> sequence_step(
            s,
            id,
            sequence,
        ) == Err::<AgentSnapshotView, ReplicationErrorView>(
            ReplicationErrorView::ResyncPending(id),
        ) && settle(s, id, sequence_step(s, id, sequence)) == s,
{
    if s.agents.dom().contains(delta.agent_id) && s.resync_required.contains(delta.agent_id) {
        assert(s.resync_required.insert(delta.agent_id) =~= s.resync_required);
    }
    if s.agents.dom().contains(id) && s.resync_required.contains(id) {
        assert(s.resync_required.insert(id) =~= s.resync_required);
    }
}

/// A fresh snapshot replaces local state: after a snapshot listing agent
/// `id`, the stored snapshot of `id` is the last one listed for it and the
/// agent no longer waits for a resync; agents the snapshot does not list keep
/// their stored snapshot and their resync state.
pub proof fn lemma_snapshot_replaces_local_state(
    s: ReplicatedStateView,
    agents: Seq<AgentSnapshotView>,
    id: Seq<char>,
)
    ensures
        forall|k: int|
            0 <= k < agents.len() && agents[k].agent_id == id && (forall|j: int|
                k < j < agents.len() ==> agents[j].agent_id != id) ==> install_snapshots(
                s,
                agents,
            ).agents.dom().contains(id) && install_snapshots(s, agents).agents[id] == agents[k]
                && !install_snapshots(s, agents).resync_required.contains(id),
        (forall|j: int| 0 <= j < agents.len() ==> agents[j].agent_id != id) ==> (
        install_snapshots(s, agents).agents.dom().contains(id) == s.agents.dom().contains(id)
            && install_snapshots(s, agents).agents[id] == s.agents[id] && install_snapshots(
            s,
            agents,
        ).resync_required.contains(id) == s.resync_required.contains(id)),
    decreases agents.len(),
{
    if agents.len() > 0 {
        let rest = agents.drop_last();
        lemma_snapshot_replaces_local_state(s, rest, id);
        assert forall|k: int|
            0 <= k < agents.len() && agents[k].agent_id == id && (forall|j: int|
                k < j < agents.len() ==> agents[j].agent_id != id) implies install_snapshots(
            s,
            agents,
        ).agents.dom().contains(id) && install_snapshots(s, agents).agents[id] == agents[k]
            && !install_snapshots(s, agents).resync_required.contains(id) by {
            if k < agents.len() - 1 {
                assert(agents.last().agent_id != id);
                assert(rest[k] == agents[k]);
                assert forall|j: int| k < j < rest.len() implies rest[j].agent_id != id by {
                    assert(rest[j] == agents[j]);
                }
            }
        }
        if forall|j: int| 0 <= j < agents.len() ==> agents[j].agent_id != id {
            assert(agents.last().agent_id != id);
            assert forall|j: int| 0 <= j < rest.len() implies rest[j].agent_id != id by {
                assert(rest[j] == agents[j]);
            }
        }
    }
}

/// Checks that an update at `incoming` directly follows the local sequence `current`.
pub fn require_next_sequence(current: EventSequence, incoming: EventSequence) -> (r: Result<
    (),
    ReplicationError,
>)
    ensures
        match sequence_fault(current.0, incoming.0) {
            Some(e) => (r matches Err(err) && err@ == e),
            None => r is Ok,
        },
{
    if current.0 == u64::MAX {
        return Err(ReplicationError::EventSequenceExhausted);
    }
    if incoming.0 != current.0 + 1 {
        return Err(ReplicationError::NonContiguousEventSequence { local: current, incoming });
    }
    Ok(())
}

/// Whether the server frame is an update of agent `id` (a delta, an event or
/// an interaction request) that is refused in state `s`.
pub open spec fn refused_update_of<E>(s: ReplicatedStateView, frame: ServerFrame<E>, id: Seq<char>) -> bool {
    match frame {
        ServerFrame::Delta(envelope) => envelope.delta.agent_id@ == id && delta_step(
            s,
            envelope.delta@,
            envelope.event_sequence.0,
        ) is Err,
        ServerFrame::Event(envelope) => envelope.agent_id@ == id && sequence_step(
            s,
            id,
            envelope.event_sequence.0,
        ) is Err,
        ServerFrame::InteractionRequest(envelope) => envelope.agent_id@ == id && sequence_step(
            s,
            id,
            envelope.event_sequence.0,
        ) is Err,
        _ => false,
    }
}

/// An agent listed by a snapshot loses its resync mark; one not listed keeps
/// whatever mark it had.
proof fn lemma_install_resync(s: ReplicatedStateView, agents: Seq<AgentSnapshotView>, id: Seq<char>)
    ensures
        install_snapshots(s, agents).resync_required.contains(id) <==> s.resync_required.contains(
            id,
        ) && (forall|j: int| 0 <= j < agents.len() ==> #[trigger] agents[j].agent_id != id),
    decreases agents.len(),
{
    if agents.len() > 0 {
        let rest = agents.drop_last();
        lemma_install_resync(s, rest, id);
        if forall|j: int| 0 <= j < rest.len() ==> #[trigger] rest[j].agent_id != id {
            if agents.last().agent_id != id {
                assert forall|j: int| 0 <= j < agents.len() implies #[trigger] agents[j].agent_id
                    != id by {
                    if j < rest.len() {
                        assert(rest[j] == agents[j]);
                    }
                }
            }
        } else {
            let j = choose|j: int| 0 <= j < rest.len() && #[trigger] rest[j].agent_id == id;
            assert(agents[j] == rest[j]);
        }
    }
}

/// When a resync mark is set or cleared: an agent comes to wait for a fresh
/// snapshot only through a replay gap for it or a refused delta, event or
/// interaction request of it, and stops waiting only through a snapshot that
/// lists it. Every other frame leaves its mark as it was.
pub proof fn lemma_resync_mark_transitions<E>(
    s: ReplicatedStateView,
    frame: ServerFrame<E>,
    id: Seq<char>,
)
    ensures
        !s.resync_required.contains(id) && replicated_after(s, frame).resync_required.contains(id)
            ==> (frame matches ServerFrame::ReplayGap(gap) && gap.agent_id@ == id)
            || refused_update_of(s, frame, id),
        s.resync_required.contains(id) && !replicated_after(s, frame).resync_required.contains(id)
            ==> (frame matches ServerFrame::Snapshot(snapshot) && exists|k: int|
            0 <= k < snapshot.agents.len() && #[trigger] snapshot.agents@[k].agent_id@ == id),
{
    match frame {
        ServerFrame::Snapshot(snapshot) => {
            let agents = snapshots_view(snapshot.agents@);
            lemma_install_resync(s, agents, id);
            if s.resync_required.contains(id) && !replicated_after(
                s,
                frame,
            ).resync_required.contains(id) {
                let j = choose|j: int| 0 <= j < agents.len() && #[trigger] agents[j].agent_id == id;
                assert(snapshot.agents@[j].agent_id@ == id);
            }
        },
        _ => {},
    }
}

} // verus!
