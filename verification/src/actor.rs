use vstd::prelude::*;

use std::collections::VecDeque;

use crate::ids::{AgentId, LeaseHolderId};
use crate::text::{decimal, push_decimal};
use crate::state::{
    apply_change_view, changes, cursor_fault, delta_outcome, update_outcome, updates_view,
    AgentSnapshot, AgentSnapshotView, AgentStateChange, AgentUpdate, AgentUpdateView,
    CursorView, DeltaApplyErrorView, EventSequence, InteractionLease, InteractionLeaseView,
    InteractionState, InteractionStateView, StateDelta, StateDeltaView, StateRevision,
    SubscriptionCursor, SubscriptionStart,
};

verus! {

/// Capacities of an agent actor: how many updates it keeps for replay and how
/// many updates a subscriber may have queued.
#[derive(Clone, Copy, Debug, PartialEq, Eq)]
pub struct AgentActorConfig {
    pub replay_capacity: usize,
    pub subscriber_capacity: usize,
}

impl Default for AgentActorConfig {
    fn default() -> (r: Self)
        ensures
            r.replay_capacity == 1024,
            r.subscriber_capacity == 256,
    {
        AgentActorConfig { replay_capacity: 1024, subscriber_capacity: 256 }
    }
}

/// Why a subscription stopped delivering updates.
#[derive(Clone, Copy, Debug, PartialEq, Eq)]
pub enum SubscriptionError {
    ResyncRequired,
    Closed,
}

impl SubscriptionError {
    /// The human-readable message of the error.
    pub fn to_string(&self) -> (r: String)
        ensures
            r@ == (match self {
                SubscriptionError::ResyncRequired => "subscriber fell behind; resync required"@,
                SubscriptionError::Closed => "agent subscription closed"@,
            }),
    {
        match self {
            SubscriptionError::ResyncRequired => String::from_str(
                "subscriber fell behind; resync required",
            ),
            SubscriptionError::Closed => String::from_str("agent subscription closed"),
        }
    }
}

/// What handing an update to a subscriber's bounded queue came to.
#[derive(Clone, Copy, Debug, PartialEq, Eq)]
pub enum SendOutcome {
    Sent,
    Full,
    Closed,
}

/// What becomes of a subscriber after an update was handed to it: whether
/// it stays subscribed, and whether it is marked as needing a resync.
#[derive(Clone, Copy, Debug, PartialEq, Eq)]
pub struct SubscriberFate {
    pub keep: bool,
    pub mark_resync: bool,
}

/// Decides a subscriber's fate after a send: one that took the update stays;
/// one whose queue was full is dropped and marked for resync, so that it
/// learns it missed updates; one that went away is dropped.
pub fn subscriber_after_send(outcome: SendOutcome) -> (r: SubscriberFate)
    ensures
        r.keep == (outcome == SendOutcome::Sent),
        r.mark_resync == (outcome == SendOutcome::Full),
{
    match outcome {
        SendOutcome::Sent => SubscriberFate { keep: true, mark_resync: false },
        SendOutcome::Full => SubscriberFate { keep: false, mark_resync: true },
        SendOutcome::Closed => SubscriberFate { keep: false, mark_resync: false },
    }
}

/// What a subscriber receives: `marked_before` says whether it was marked
/// for resync when it asked, `received` is what its queue gave (none once
/// the queue ended) and `marked_after` whether it was marked by then. A
/// marked subscriber is told to resync rather than given further updates; an
/// ended queue is a resync when marked and a closed subscription otherwise.
pub fn subscription_answer<E>(
    marked_before: bool,
    received: Option<AgentUpdate<E>>,
    marked_after: bool,
) -> (r: Result<AgentUpdate<E>, SubscriptionError>)
    ensures
        marked_before ==> r == Err::<AgentUpdate<E>, SubscriptionError>(
            SubscriptionError::ResyncRequired,
        ),
        !marked_before ==> r == match received {
            Some(update) => Ok::<AgentUpdate<E>, SubscriptionError>(update),
            None => if marked_after {
                Err::<AgentUpdate<E>, SubscriptionError>(SubscriptionError::ResyncRequired)
            } else {
                Err::<AgentUpdate<E>, SubscriptionError>(SubscriptionError::Closed)
            },
        },
{
    if marked_before {
        return Err(SubscriptionError::ResyncRequired);
    }
    match received {
        Some(update) => Ok(update),
        None => if marked_after {
            Err(SubscriptionError::ResyncRequired)
        } else {
            Err(SubscriptionError::Closed)
        },
    }
}

/// Why an interaction lease was refused.
#[derive(Debug, PartialEq, Eq)]
pub enum InteractionLeaseError {
    HeldByOther(InteractionLease),
    NotHeld,
    NotHolder { current: LeaseHolderId },
    ExpiryOverflow,
    DurationTooLarge,
}

/// The content of an interaction lease error.
pub enum InteractionLeaseErrorView {
    HeldByOther(InteractionLeaseView),
    NotHeld,
    NotHolder { current: Seq<char> },
    ExpiryOverflow,
    DurationTooLarge,
}

impl View for InteractionLeaseError {
    type V = InteractionLeaseErrorView;

    open spec fn view(&self) -> InteractionLeaseErrorView {
        match self {
            InteractionLeaseError::HeldByOther(lease) => InteractionLeaseErrorView::HeldByOther(
                lease@,
            ),
            InteractionLeaseError::NotHeld => InteractionLeaseErrorView::NotHeld,
            InteractionLeaseError::NotHolder { current } => InteractionLeaseErrorView::NotHolder {
                current: current@,
            },
            InteractionLeaseError::ExpiryOverflow => InteractionLeaseErrorView::ExpiryOverflow,
            InteractionLeaseError::DurationTooLarge => InteractionLeaseErrorView::DurationTooLarge,
        }
    }
}

/// Why an agent actor refused a command.
#[derive(Debug, PartialEq, Eq)]
pub enum AgentError {
    Stopped,
    RevisionExhausted,
    EventSequenceExhausted,
    InteractionLease(InteractionLeaseError),
}

/// The content of an agent error.
pub enum AgentErrorView {
    Stopped,
    RevisionExhausted,
    EventSequenceExhausted,
    InteractionLease(InteractionLeaseErrorView),
}

impl View for AgentError {
    type V = AgentErrorView;

    open spec fn view(&self) -> AgentErrorView {
        match self {
            AgentError::Stopped => AgentErrorView::Stopped,
            AgentError::RevisionExhausted => AgentErrorView::RevisionExhausted,
            AgentError::EventSequenceExhausted => AgentErrorView::EventSequenceExhausted,
            AgentError::InteractionLease(e) => AgentErrorView::InteractionLease(e@),
        }
    }
}

/// The message of an interaction lease error.
pub open spec fn lease_error_message(e: InteractionLeaseErrorView) -> Seq<char> {
    match e {
        InteractionLeaseErrorView::HeldByOther(lease) => "interaction lease is held by "@
            + lease.holder + " until "@ + decimal(lease.expires_at_ms as nat),
        InteractionLeaseErrorView::NotHeld => "interaction lease is not held"@,
        InteractionLeaseErrorView::NotHolder { current } => "interaction lease is held by "@
            + current,
        InteractionLeaseErrorView::ExpiryOverflow => "interaction lease expiry overflowed"@,
        InteractionLeaseErrorView::DurationTooLarge => "interaction lease duration is too large"@,
    }
}

impl InteractionLeaseError {
    /// The human-readable message of the error.
    pub fn to_string(&self) -> (r: String)
        ensures
            r@ == lease_error_message(self@),
    {
        match self {
            InteractionLeaseError::HeldByOther(lease) => {
                let mut out = String::from_str("interaction lease is held by ");
                out.append(lease.holder.as_str());
                out.append(" until ");
                push_decimal(&mut out, lease.expires_at_ms);
                out
            },
            InteractionLeaseError::NotHeld => String::from_str("interaction lease is not held"),
            InteractionLeaseError::NotHolder { current } => {
                let mut out = String::from_str("interaction lease is held by ");
                out.append(current.as_str());
                out
            },
            InteractionLeaseError::ExpiryOverflow => String::from_str(
                "interaction lease expiry overflowed",
            ),
            InteractionLeaseError::DurationTooLarge => String::from_str(
                "interaction lease duration is too large",
            ),
        }
    }
}

impl Clone for InteractionLeaseError {
    fn clone(&self) -> (r: Self)
        ensures
            r@ == self@,
    {
        match self {
            InteractionLeaseError::HeldByOther(lease) => InteractionLeaseError::HeldByOther(
                lease.clone(),
            ),
            InteractionLeaseError::NotHeld => InteractionLeaseError::NotHeld,
            InteractionLeaseError::NotHolder { current } => InteractionLeaseError::NotHolder {
                current: current.clone(),
            },
            InteractionLeaseError::ExpiryOverflow => InteractionLeaseError::ExpiryOverflow,
            InteractionLeaseError::DurationTooLarge => InteractionLeaseError::DurationTooLarge,
        }
    }
}

/// The message of an agent error.
pub open spec fn agent_error_message(e: AgentErrorView) -> Seq<char> {
    match e {
        AgentErrorView::Stopped => "agent actor stopped"@,
        AgentErrorView::RevisionExhausted => "agent state revision exhausted"@,
        AgentErrorView::EventSequenceExhausted => "agent event sequence exhausted"@,
        AgentErrorView::InteractionLease(e) => lease_error_message(e),
    }
}

impl AgentError {
    /// The human-readable message of the error.
    pub fn to_string(&self) -> (r: String)
        ensures
            r@ == agent_error_message(self@),
    {
        match self {
            AgentError::Stopped => String::from_str("agent actor stopped"),
            AgentError::RevisionExhausted => String::from_str("agent state revision exhausted"),
            AgentError::EventSequenceExhausted => String::from_str(
                "agent event sequence exhausted",
            ),
            AgentError::InteractionLease(e) => e.to_string(),
        }
    }
}

impl Clone for AgentError {
    fn clone(&self) -> (r: Self)
        ensures
            r@ == self@,
    {
        match self {
            AgentError::Stopped => AgentError::Stopped,
            AgentError::RevisionExhausted => AgentError::RevisionExhausted,
            AgentError::EventSequenceExhausted => AgentError::EventSequenceExhausted,
            AgentError::InteractionLease(e) => AgentError::InteractionLease(e.clone()),
        }
    }
}

/// Why the agent registry refused a request.
#[derive(Debug, PartialEq, Eq)]
pub enum RegistryError {
    AlreadyExists(AgentId),
    NotFound(AgentId),
    Actor(AgentError),
}

impl RegistryError {
    /// The human-readable message of the error.
    pub fn to_string(&self) -> (r: String)
        ensures
            r@ == match self {
                RegistryError::AlreadyExists(agent_id) => "agent "@ + agent_id@ + " already exists"@,
                RegistryError::NotFound(agent_id) => "agent "@ + agent_id@ + " was not found"@,
                RegistryError::Actor(error) => agent_error_message(error@),
            },
    {
        match self {
            RegistryError::AlreadyExists(agent_id) => {
                let mut out = String::from_str("agent ");
                out.append(agent_id.as_str());
                out.append(" already exists");
                out
            },
            RegistryError::NotFound(agent_id) => {
                let mut out = String::from_str("agent ");
                out.append(agent_id.as_str());
                out.append(" was not found");
                out
            },
            RegistryError::Actor(error) => error.to_string(),
        }
    }
}

impl From<InteractionLeaseError> for AgentError {
    fn from(error: InteractionLeaseError) -> (r: Self) {
        AgentError::InteractionLease(error)
    }
}

impl vstd::std_specs::convert::FromSpecImpl<InteractionLeaseError> for AgentError {
    open spec fn obeys_from_spec() -> bool {
        true
    }

    open spec fn from_spec(error: InteractionLeaseError) -> Self {
        AgentError::InteractionLease(error)
    }
}

/// The state after applying a sequence of updates in order, or the first error.
pub open spec fn apply_updates(s: AgentSnapshotView, updates: Seq<AgentUpdateView>) -> Result<
    AgentSnapshotView,
    DeltaApplyErrorView,
>
    decreases updates.len(),
{
    if updates.len() == 0 {
        Ok(s)
    } else {
        match apply_updates(s, updates.drop_last()) {
            Ok(t) => update_outcome(t, updates.last()),
            Err(e) => Err(e),
        }
    }
}

/// The replay buffer after recording one update: the oldest entry leaves when
/// the buffer is full.
pub open spec fn recorded(
    replay: Seq<AgentUpdateView>,
    update: AgentUpdateView,
    capacity: nat,
) -> Seq<AgentUpdateView> {
    if replay.len() == capacity {
        replay.drop_first().push(update)
    } else {
        replay.push(update)
    }
}

/// Whether the interaction of an agent is leased to someone other than
/// `holder` at `now_ms`.
pub open spec fn lease_blocks(interaction: InteractionStateView, holder: Seq<char>, now_ms: u64) -> bool {
    match interaction {
        InteractionStateView::Leased { lease } => lease.expires_at_ms > now_ms && lease.holder
            != holder,
        InteractionStateView::Unclaimed => false,
    }
}

/// The check `replay_reaches_snapshot` performs on a prefix of updates: the
/// next expected sequence and the revision reached so far, while the updates
/// are contiguous and chain from the cursor.
pub open spec fn replay_walk(c: CursorView, updates: Seq<AgentUpdateView>) -> Option<(u64, u64)>
    decreases updates.len(),
{
    if updates.len() == 0 {
        if c.event_sequence < u64::MAX {
            Some(((c.event_sequence + 1) as u64, c.revision))
        } else {
            None
        }
    } else {
        match replay_walk(c, updates.drop_last()) {
            None => None,
            Some((expected, revision)) => {
                let u = updates.last();
                if u.sequence() != expected {
                    None
                } else if expected == u64::MAX {
                    None
                } else {
                    match u {
                        AgentUpdateView::Delta { delta, .. } => if delta.agent_id != c.agent_id
                            || delta.base_revision != revision {
                            None
                        } else {
                            Some(((expected + 1) as u64, delta.revision))
                        },
                        AgentUpdateView::Event { agent_id, .. } => if agent_id != c.agent_id {
                            None
                        } else {
                            Some(((expected + 1) as u64, revision))
                        },
                    }
                }
            },
        }
    }
}

/// Whether the updates lead contiguously from the cursor to the snapshot's
/// revision and sequence.
pub open spec fn replay_reaches(
    c: CursorView,
    updates: Seq<AgentUpdateView>,
    s: AgentSnapshotView,
) -> bool {
    match replay_walk(c, updates) {
        Some((expected, revision)) => revision == s.revision && expected - 1 == s.event_sequence,
        None => false,
    }
}

/// Whether the updates lead contiguously from `cursor` to the revision and
/// sequence of `snapshot`.
pub fn replay_reaches_snapshot<E>(
    cursor: &SubscriptionCursor,
    updates: &Vec<AgentUpdate<E>>,
    snapshot: &AgentSnapshot,
) -> (r: bool)
    ensures
        r == replay_reaches(cursor@, updates_view(updates@), snapshot@),
{
    if cursor.event_sequence.0 == u64::MAX {
        proof {
            lemma_walk_fails_from(cursor@, updates_view(updates@), 0);
        }
        return false;
    }
    let mut expected: u64 = cursor.event_sequence.0 + 1;
    let mut revision = cursor.revision;
    let mut i: usize = 0;
    while i < updates.len()
        invariant
            i <= updates.len(),
            replay_walk(cursor@, updates_view(updates@).take(i as int)) == Some(
                (expected, revision.0),
            ),
        decreases updates.len() - i,
    {
        let ghost prefix = updates_view(updates@).take(i as int);
        proof {
            assert(updates_view(updates@).take(i + 1).drop_last() =~= prefix);
        }
        let update = &updates[i];
        if update.event_sequence().0 != expected {
            proof {
                lemma_walk_fails_from(cursor@, updates_view(updates@), i + 1);
            }
            return false;
        }
        match update {
            AgentUpdate::Delta { delta, .. } => {
                if !(delta.agent_id == cursor.agent_id) || delta.base_revision.0 != revision.0 {
                    proof {
                        lemma_walk_fails_from(cursor@, updates_view(updates@), i + 1);
                    }
                    return false;
                }
                revision = delta.revision;
            },
            AgentUpdate::Event { agent_id, .. } => {
                if !(*agent_id == cursor.agent_id) {
                    proof {
                        lemma_walk_fails_from(cursor@, updates_view(updates@), i + 1);
                    }
                    return false;
                }
            },
        }
        if expected == u64::MAX {
            proof {
                lemma_walk_fails_from(cursor@, updates_view(updates@), i + 1);
            }
            return false;
        }
        expected = expected + 1;
        i = i + 1;
    }
    proof {
        assert(updates_view(updates@).take(updates.len() as int) =~= updates_view(updates@));
    }
    revision.0 == snapshot.revision.0 && expected - 1 == snapshot.event_sequence.0
}

/// Once the walk fails on a prefix, it fails on every longer prefix.
proof fn lemma_walk_fails_from(c: CursorView, updates: Seq<AgentUpdateView>, n: int)
    requires
        0 <= n <= updates.len(),
        replay_walk(c, updates.take(n)) is None,
    ensures
        replay_walk(c, updates) is None,
    decreases updates.len() - n,
{
    if n < updates.len() {
        assert(updates.take(n + 1).drop_last() =~= updates.take(n));
        lemma_walk_fails_from(c, updates, n + 1);
    } else {
        assert(updates.take(n) =~= updates);
    }
}

/// The replicated state of one agent as its actor holds it: the snapshot, the
/// most recent updates kept for replay, and the capacities.
pub struct ActorState<E> {
    snapshot: AgentSnapshot,
    replay: VecDeque<AgentUpdate<E>>,
    replay_capacity: usize,
    subscriber_capacity: usize,
    past: Ghost<Seq<AgentSnapshotView>>,
}

impl<E: Clone> ActorState<E> {
    /// The snapshots the agent passed through, from the one before the oldest
    /// replayable update up to the current one.
    pub closed spec fn past(&self) -> Seq<AgentSnapshotView> {
        self.past@
    }

    /// The content of the updates kept for replay, oldest first.
    pub closed spec fn replay_view(&self) -> Seq<AgentUpdateView> {
        updates_view(self.replay@)
    }

    /// The updates kept for replay, payloads included, oldest first.
    pub closed spec fn replay_updates(&self) -> Seq<AgentUpdate<E>> {
        self.replay@
    }

    /// The content of the kept updates is the replay view.
    pub proof fn lemma_replay_updates(&self)
        ensures
            updates_view(self.replay_updates()) == self.replay_view(),
    {
    }

    /// How a subscription resuming from cursor `c` begins: a fresh snapshot
    /// when the cursor is for another agent or ahead of the actor, nothing to
    /// replay when it is current, copies of the kept updates after it when
    /// they lead contiguously to the snapshot, and a fresh snapshot otherwise.
    pub open spec fn resumes_as(&self, c: CursorView, r: SubscriptionStart<E>) -> bool {
        let s = self.snapshot_view();
        if c.agent_id != s.agent_id || c.revision > s.revision || c.event_sequence
            > s.event_sequence {
            r matches SubscriptionStart::ResyncRequired(snapshot) && snapshot@ == s
        } else if c.revision == s.revision && c.event_sequence == s.event_sequence {
            r matches SubscriptionStart::Replay(updates) && updates@.len() == 0
        } else if replay_reaches(c, after(self.replay_view(), c.event_sequence), s) {
            r matches SubscriptionStart::Replay(updates) && updates_view(updates@) == after(
                self.replay_view(),
                c.event_sequence,
            ) && copies(kept_after(self.replay_updates(), c.event_sequence), updates@)
        } else {
            r matches SubscriptionStart::ResyncRequired(snapshot) && snapshot@ == s
        }
    }

    /// The content of the current snapshot.
    pub closed spec fn snapshot_view(&self) -> AgentSnapshotView {
        self.snapshot@
    }

    /// How many updates are kept for replay.
    pub closed spec fn capacity(&self) -> nat {
        self.replay_capacity as nat
    }

    /// How many updates a subscriber may have queued.
    pub closed spec fn queue_capacity(&self) -> nat {
        self.subscriber_capacity as nat
    }

    /// Every clause but the last ties the replay to the snapshots it leads
    /// through: each replayed update applies to the snapshot before it and
    /// yields the one after it, one sequence number further.
    pub closed spec fn history_wf(&self) -> bool {
        let past = self.past@;
        let rv = updates_view(self.replay@);
        &&& self.replay_capacity > 0
        &&& self.replay@.len() <= self.replay_capacity
        &&& past.len() == self.replay@.len() + 1
        &&& forall|i: int|
            0 <= i < past.len() ==> #[trigger] past[i].event_sequence == past[0].event_sequence
                + i
        &&& forall|i: int|
            0 <= i < rv.len() ==> #[trigger] rv[i].sequence() == past[i].event_sequence + 1
        &&& forall|i: int|
            0 <= i < rv.len() ==> update_outcome(past[i], #[trigger] rv[i]) == Ok::<
                AgentSnapshotView,
                DeltaApplyErrorView,
            >(past[i + 1])
    }

    /// The actor's invariant: the history is consistent and ends at the current snapshot.
    pub closed spec fn wf(&self) -> bool {
        &&& self.history_wf()
        &&& self.past@.last() == self.snapshot@
    }

    /// A new actor state with no replay history.
    pub fn new(snapshot: AgentSnapshot, config: AgentActorConfig) -> (r: Self)
        requires
            config.replay_capacity > 0,
        ensures
            r.wf(),
            r.snapshot_view() == snapshot@,
            r.replay_view() == Seq::<AgentUpdateView>::empty(),
            r.capacity() == config.replay_capacity,
            r.queue_capacity() == config.subscriber_capacity,
    {
        let ghost first = snapshot@;
        let r = ActorState {
            snapshot,
            replay: VecDeque::new(),
            replay_capacity: config.replay_capacity,
            subscriber_capacity: config.subscriber_capacity,
            past: Ghost(Seq::empty().push(first)),
        };
        proof {
            assert(updates_view(r.replay@) =~= Seq::<AgentUpdateView>::empty());
        }
        r
    }

    /// The current snapshot.
    pub fn snapshot(&self) -> (r: &AgentSnapshot)
        ensures
            r@ == self.snapshot_view(),
    {
        &self.snapshot
    }

    /// The capacity of a subscriber's update queue.
    pub fn subscriber_capacity(&self) -> (r: usize)
        ensures
            r == self.queue_capacity(),
    {
        self.subscriber_capacity
    }

    /// The most recently recorded update, if any.
    pub fn latest_update(&self) -> (r: Option<&AgentUpdate<E>>)
        ensures
            match r {
                Some(u) => self.replay_view().len() > 0 && u@ == self.replay_view().last(),
                None => self.replay_view().len() == 0,
            },
    {
        if self.replay.len() == 0 {
            None
        } else {
            Some(&self.replay[self.replay.len() - 1])
        }
    }

    /// The sequence number the next update will carry.
    pub fn next_event_sequence(&self) -> (r: Result<EventSequence, AgentError>)
        ensures
            self.snapshot_view().event_sequence < u64::MAX ==> (r matches Ok(s) && s.0
                == self.snapshot_view().event_sequence + 1),
            self.snapshot_view().event_sequence == u64::MAX ==> r matches Err(
                AgentError::EventSequenceExhausted,
            ),
    {
        if self.snapshot.event_sequence.0 == u64::MAX {
            Err(AgentError::EventSequenceExhausted)
        } else {
            Ok(EventSequence(self.snapshot.event_sequence.0 + 1))
        }
    }

    /// Keeps `update`, which took the previous snapshot to the current one, for replay.
    fn record(&mut self, update: AgentUpdate<E>)
        requires
            old(self).history_wf(),
            update@.sequence() == old(self).past@.last().event_sequence + 1,
            update_outcome(old(self).past@.last(), update@) == Ok::<
                AgentSnapshotView,
                DeltaApplyErrorView,
            >(old(self).snapshot@),
        ensures
            final(self).wf(),
            final(self).snapshot@ == old(self).snapshot@,
            final(self).replay_capacity == old(self).replay_capacity,
            final(self).subscriber_capacity == old(self).subscriber_capacity,
            updates_view(final(self).replay@) == recorded(
                updates_view(old(self).replay@),
                update@,
                old(self).replay_capacity as nat,
            ),
            final(self).replay@.len() > 0 && final(self).replay@.last() == update,
    {
        let ghost update_view = update@;
        let ghost kept = update;
        if self.replay.len() == self.replay_capacity {
            let ghost before = self.replay@;
            let ghost past_before = self.past@;
            let _oldest = self.replay.pop_front();
            self.past = Ghost(self.past@.drop_first());
            proof {
                assert(updates_view(self.replay@) =~= updates_view(before).drop_first());
                assert forall|i: int| 0 <= i < self.past@.len() implies #[trigger] self.past@[i].event_sequence
                    == self.past@[0].event_sequence + i by {
                    assert(self.past@[i] == past_before[i + 1]);
                    assert(past_before[i + 1].event_sequence == past_before[0].event_sequence + i
                        + 1);
                    assert(past_before[1].event_sequence == past_before[0].event_sequence + 1);
                }
                assert forall|i: int| 0 <= i < updates_view(self.replay@).len() implies #[trigger] updates_view(
                    self.replay@,
                )[i].sequence() == self.past@[i].event_sequence + 1 by {
                    assert(updates_view(self.replay@)[i] == updates_view(before)[i + 1]);
                }
                assert forall|i: int| 0 <= i < updates_view(self.replay@).len() implies update_outcome(
                    self.past@[i],
                    #[trigger] updates_view(self.replay@)[i],
                ) == Ok::<AgentSnapshotView, DeltaApplyErrorView>(self.past@[i + 1]) by {
                    assert(updates_view(self.replay@)[i] == updates_view(before)[i + 1]);
                }
            }
        }
        let ghost before = self.replay@;
        let ghost past_before = self.past@;
        self.replay.push_back(update);
        self.past = Ghost(self.past@.push(self.snapshot@));
        proof {
            assert(updates_view(self.replay@) =~= updates_view(before).push(update_view));
            assert forall|i: int| 0 <= i < self.past@.len() implies #[trigger] self.past@[i].event_sequence
                == self.past@[0].event_sequence + i by {
                if i < past_before.len() {
                    assert(self.past@[i] == past_before[i]);
                } else {
                    let last = past_before.len() - 1;
                    assert(past_before[last].event_sequence == past_before[0].event_sequence
                        + last);
                }
            }
            assert forall|i: int| 0 <= i < updates_view(self.replay@).len() implies #[trigger] updates_view(
                self.replay@,
            )[i].sequence() == self.past@[i].event_sequence + 1 by {
                if i < before.len() {
                    assert(updates_view(self.replay@)[i] == updates_view(before)[i]);
                }
            }
            assert forall|i: int| 0 <= i < updates_view(self.replay@).len() implies update_outcome(
                self.past@[i],
                #[trigger] updates_view(self.replay@)[i],
            ) == Ok::<AgentSnapshotView, DeltaApplyErrorView>(self.past@[i + 1]) by {
                if i < before.len() {
                    assert(updates_view(self.replay@)[i] == updates_view(before)[i]);
                }
            }
            let old_replay = updates_view(old(self).replay@);
            if old_replay.len() == old(self).replay_capacity {
                assert(updates_view(self.replay@) =~= recorded(
                    old_replay,
                    update_view,
                    old(self).replay_capacity as nat,
                ));
            } else {
                assert(updates_view(self.replay@) =~= recorded(
                    old_replay,
                    update_view,
                    old(self).replay_capacity as nat,
                ));
            }
        }
    }

    /// Applies a state change. A change that would not alter the snapshot is
    /// dropped; otherwise it becomes the next revision and the next event
    /// sequence and is recorded for replay.
    pub fn apply_change(&mut self, change: AgentStateChange) -> (r: Result<
        Option<StateDelta>,
        AgentError,
    >)
        requires
            old(self).wf(),
        ensures
            final(self).wf(),
            final(self).capacity() == old(self).capacity(),
            final(self).queue_capacity() == old(self).queue_capacity(),
            !changes(old(self).snapshot_view(), change@) ==> (r matches Ok(None)
                && final(self).snapshot_view() == old(self).snapshot_view()
                && final(self).replay_view() == old(self).replay_view()),
            changes(old(self).snapshot_view(), change@) && old(self).snapshot_view().revision
                == u64::MAX ==> (r matches Err(AgentError::RevisionExhausted)
                && final(self).snapshot_view() == old(self).snapshot_view()
                && final(self).replay_view() == old(self).replay_view()),
            changes(old(self).snapshot_view(), change@) && old(self).snapshot_view().revision
                < u64::MAX && old(self).snapshot_view().event_sequence == u64::MAX ==> (r matches Err(
                AgentError::EventSequenceExhausted,
            ) && final(self).snapshot_view() == old(self).snapshot_view()
                && final(self).replay_view() == old(self).replay_view()),
            changes(old(self).snapshot_view(), change@) && old(self).snapshot_view().revision
                < u64::MAX && old(self).snapshot_view().event_sequence < u64::MAX ==> (r matches Ok(
                Some(d),
            ) && d@ == (StateDeltaView {
                agent_id: old(self).snapshot_view().agent_id,
                base_revision: old(self).snapshot_view().revision,
                revision: (old(self).snapshot_view().revision + 1) as u64,
                change: change@,
            }) && final(self).snapshot_view() == (AgentSnapshotView {
                revision: (old(self).snapshot_view().revision + 1) as u64,
                event_sequence: (old(self).snapshot_view().event_sequence + 1) as u64,
                ..apply_change_view(old(self).snapshot_view(), change@)
            }) && update_outcome(
                old(self).snapshot_view(),
                AgentUpdateView::Delta {
                    event_sequence: (old(self).snapshot_view().event_sequence + 1) as u64,
                    delta: d@,
                },
            ) == Ok::<AgentSnapshotView, DeltaApplyErrorView>(final(self).snapshot_view())
                && final(self).replay_view() == recorded(
                old(self).replay_view(),
                AgentUpdateView::Delta {
                    event_sequence: (old(self).snapshot_view().event_sequence + 1) as u64,
                    delta: d@,
                },
                old(self).capacity(),
            )),
    {
        if !self.snapshot.would_change(&change) {
            return Ok(None);
        }
        if self.snapshot.revision.0 == u64::MAX {
            return Err(AgentError::RevisionExhausted);
        }
        let revision = StateRevision(self.snapshot.revision.0 + 1);
        let event_sequence = self.next_event_sequence()?;
        let delta = StateDelta {
            agent_id: self.snapshot.agent_id.clone(),
            base_revision: self.snapshot.revision,
            revision,
            change,
        };
        match self.snapshot.apply_delta(delta.clone(), event_sequence) {
            Ok(()) => {},
            Err(_) => {
                proof {
                    assert(false);
                }
            },
        }
        let recorded_delta = delta.clone();
        self.record(AgentUpdate::Delta { event_sequence, delta: recorded_delta });
        Ok(Some(delta))
    }

    /// Records an event at the next event sequence without changing the
    /// revision, and returns that sequence.
    pub fn publish_event(&mut self, event: E) -> (r: Result<EventSequence, AgentError>)
        requires
            old(self).wf(),
        ensures
            final(self).wf(),
            final(self).capacity() == old(self).capacity(),
            final(self).queue_capacity() == old(self).queue_capacity(),
            r matches Ok(s) ==> final(self).replay_updates().len() > 0
                && (final(self).replay_updates().last() matches AgentUpdate::Event {
                event: e,
                event_sequence: q,
                ..
            } && e == event && q == s),
            r is Err ==> final(self).replay_updates() == old(self).replay_updates(),
            old(self).snapshot_view().event_sequence == u64::MAX ==> (r matches Err(
                AgentError::EventSequenceExhausted,
            ) && final(self).snapshot_view() == old(self).snapshot_view()
                && final(self).replay_view() == old(self).replay_view()),
            old(self).snapshot_view().event_sequence < u64::MAX ==> (r matches Ok(s) && s.0
                == old(self).snapshot_view().event_sequence + 1 && final(self).snapshot_view() == (
            AgentSnapshotView { event_sequence: s.0, ..old(self).snapshot_view() })
                && update_outcome(
                old(self).snapshot_view(),
                AgentUpdateView::Event {
                    agent_id: old(self).snapshot_view().agent_id,
                    event_sequence: s.0,
                },
            ) == Ok::<AgentSnapshotView, DeltaApplyErrorView>(final(self).snapshot_view())
                && final(self).replay_view() == recorded(
                old(self).replay_view(),
                AgentUpdateView::Event {
                    agent_id: old(self).snapshot_view().agent_id,
                    event_sequence: s.0,
                },
                old(self).capacity(),
            )),
    {
        let event_sequence = self.next_event_sequence()?;
        self.snapshot.event_sequence = event_sequence;
        let agent_id = self.snapshot.agent_id.clone();
        self.record(AgentUpdate::Event { agent_id, event_sequence, event });
        Ok(event_sequence)
    }

    /// How a subscription that resumes from `cursor` begins: a fresh snapshot
    /// when the cursor is for another agent or ahead of the actor, nothing to
    /// replay when it is current, the kept updates after it when they lead
    /// contiguously to the snapshot, and a fresh snapshot otherwise.
    pub fn subscription_start(&self, cursor: &SubscriptionCursor) -> (r: SubscriptionStart<E>)
        requires
            self.wf(),
        ensures
            self.resumes_as(cursor@, r),
            r matches SubscriptionStart::Replay(updates) ==> exists|k: int|
                0 <= k < self.past().len() && #[trigger] self.past()[k].revision == cursor@.revision
                    && self.past()[k].event_sequence == cursor@.event_sequence
                    && self.past()[k].agent_id == cursor@.agent_id && apply_updates(
                    self.past()[k],
                    updates_view(updates@),
                ) == Ok::<AgentSnapshotView, DeltaApplyErrorView>(self.snapshot_view()),
    {
        if !(cursor.agent_id == self.snapshot.agent_id) || cursor.revision.0
            > self.snapshot.revision.0 || cursor.event_sequence.0 > self.snapshot.event_sequence.0 {
            return SubscriptionStart::ResyncRequired(self.snapshot.clone());
        }
        if cursor.revision.0 == self.snapshot.revision.0 && cursor.event_sequence.0
            == self.snapshot.event_sequence.0 {
            let none: Vec<AgentUpdate<E>> = Vec::new();
            proof {
                let last = self.past@.len() - 1;
                assert(self.past@[last] == self.snapshot@);
                assert(updates_view(none@) =~= Seq::<AgentUpdateView>::empty());
                assert(apply_updates(self.past@[last], updates_view(none@)) == Ok::<
                    AgentSnapshotView,
                    DeltaApplyErrorView,
                >(self.snapshot@));
                assert(self.past()[last].revision == cursor@.revision);
            }
            return SubscriptionStart::Replay(none);
        }
        let mut updates: Vec<AgentUpdate<E>> = Vec::new();
        let mut i: usize = 0;
        while i < self.replay.len()
            invariant
                i <= self.replay.len(),
                updates_view(updates@) == after(
                    updates_view(self.replay@).take(i as int),
                    cursor.event_sequence.0,
                ),
                copies(kept_after(self.replay@.take(i as int), cursor.event_sequence.0), updates@),
            decreases self.replay.len() - i,
        {
            let ghost before = updates@;
            proof {
                assert(updates_view(self.replay@).take(i + 1).drop_last() =~= updates_view(
                    self.replay@,
                ).take(i as int));
                assert(self.replay@.take(i + 1).drop_last() =~= self.replay@.take(i as int));
                assert(self.replay@.take(i + 1).last() == self.replay@[i as int]);
            }
            if self.replay[i].event_sequence().0 > cursor.event_sequence.0 {
                let copy = self.replay[i].clone();
                updates.push(copy);
                proof {
                    assert(updates_view(updates@) =~= updates_view(before).push(
                        self.replay@[i as int]@,
                    ));
                    let kept = kept_after(self.replay@.take(i as int), cursor.event_sequence.0);
                    assert(kept_after(self.replay@.take(i + 1), cursor.event_sequence.0) == kept.push(
                        self.replay@[i as int],
                    ));
                    assert forall|j: int| 0 <= j < updates@.len() implies copies_update(
                        kept.push(self.replay@[i as int])[j],
                        #[trigger] updates@[j],
                    ) by {
                        if j < before.len() {
                            assert(updates@[j] == before[j]);
                        }
                    }
                }
            }
            i = i + 1;
        }
        proof {
            assert(updates_view(self.replay@).take(self.replay.len() as int) =~= updates_view(
                self.replay@,
            ));
            assert(self.replay@.take(self.replay.len() as int) =~= self.replay@);
        }
        if replay_reaches_snapshot(cursor, &updates, &self.snapshot) {
            proof {
                self.lemma_replay_converges(cursor@);
            }
            SubscriptionStart::Replay(updates)
        } else {
            SubscriptionStart::ResyncRequired(self.snapshot.clone())
        }
    }

    /// Grants the interaction lease to `holder` for `ttl_ms` from `now_ms`.
    /// `deadline_fits` tells whether the local clock can represent the moment
    /// the lease runs out. Renewing one's own lease, or taking over an expired
    /// one, is allowed; a live lease of someone else is not.
    pub fn acquire_lease(
        &mut self,
        holder: LeaseHolderId,
        now_ms: u64,
        ttl_ms: u64,
        deadline_fits: bool,
    ) -> (r: Result<InteractionLease, AgentError>)
        requires
            old(self).wf(),
            ttl_ms > 0,
        ensures
            final(self).wf(),
            final(self).capacity() == old(self).capacity(),
            final(self).queue_capacity() == old(self).queue_capacity(),
            r is Err ==> final(self).snapshot_view() == old(self).snapshot_view()
                && final(self).replay_view() == old(self).replay_view(),
            lease_blocks(old(self).snapshot_view().interaction, holder@, now_ms) ==> (r matches Err(
                AgentError::InteractionLease(InteractionLeaseError::HeldByOther(current)),
            ) && old(self).snapshot_view().interaction == (InteractionStateView::Leased {
                lease: current@,
            })),
            !lease_blocks(old(self).snapshot_view().interaction, holder@, now_ms) && now_ms
                + ttl_ms > u64::MAX ==> (r matches Err(
                AgentError::InteractionLease(InteractionLeaseError::ExpiryOverflow),
            )),
            !lease_blocks(old(self).snapshot_view().interaction, holder@, now_ms) && now_ms
                + ttl_ms <= u64::MAX && !deadline_fits ==> (r matches Err(
                AgentError::InteractionLease(InteractionLeaseError::DurationTooLarge),
            )),
            ({
                let granted = InteractionStateView::Leased {
                    lease: InteractionLeaseView {
                        holder: holder@,
                        expires_at_ms: (now_ms + ttl_ms) as u64,
                    },
                };
                let change = crate::state::AgentStateChangeView::InteractionChanged(granted);
                let s = old(self).snapshot_view();
                !lease_blocks(s.interaction, holder@, now_ms) && now_ms + ttl_ms <= u64::MAX
                    && deadline_fits ==> {
                    &&& changes(s, change) && s.revision == u64::MAX ==> (r matches Err(
                        AgentError::RevisionExhausted,
                    ))
                    &&& changes(s, change) && s.revision < u64::MAX && s.event_sequence
                        == u64::MAX ==> (r matches Err(AgentError::EventSequenceExhausted))
                    &&& (!changes(s, change) || (s.revision < u64::MAX && s.event_sequence
                        < u64::MAX)) ==> (r matches Ok(lease) && lease@ == (InteractionLeaseView {
                        holder: holder@,
                        expires_at_ms: (now_ms + ttl_ms) as u64,
                    }) && final(self).snapshot_view().interaction == granted)
                }
            }),
    {
        match &self.snapshot.interaction {
            InteractionState::Leased { lease } => {
                if lease.expires_at_ms > now_ms && !(lease.holder == holder) {
                    return Err(
                        AgentError::InteractionLease(
                            InteractionLeaseError::HeldByOther(lease.clone()),
                        ),
                    );
                }
            },
            InteractionState::Unclaimed => {},
        }
        if now_ms > u64::MAX - ttl_ms {
            return Err(AgentError::InteractionLease(InteractionLeaseError::ExpiryOverflow));
        }
        let expires_at_ms = now_ms + ttl_ms;
        if !deadline_fits {
            return Err(AgentError::InteractionLease(InteractionLeaseError::DurationTooLarge));
        }
        let lease = InteractionLease { holder, expires_at_ms };
        let granted = InteractionState::Leased { lease: lease.clone() };
        self.apply_change(AgentStateChange::InteractionChanged(granted))?;
        Ok(lease)
    }

    /// Gives up the interaction lease held by `holder`.
    pub fn release_lease(&mut self, holder: &LeaseHolderId) -> (r: Result<(), AgentError>)
        requires
            old(self).wf(),
        ensures
            final(self).wf(),
            final(self).capacity() == old(self).capacity(),
            final(self).queue_capacity() == old(self).queue_capacity(),
            r is Err ==> final(self).snapshot_view() == old(self).snapshot_view()
                && final(self).replay_view() == old(self).replay_view(),
            old(self).snapshot_view().interaction is Unclaimed ==> (r matches Err(
                AgentError::InteractionLease(InteractionLeaseError::NotHeld),
            )),
            old(self).snapshot_view().interaction matches InteractionStateView::Leased { lease }
                ==> {
                &&& lease.holder != holder@ ==> (r matches Err(
                    AgentError::InteractionLease(InteractionLeaseError::NotHolder { current }),
                ) && current@ == lease.holder)
                &&& lease.holder == holder@ && old(self).snapshot_view().revision == u64::MAX
                    ==> (r matches Err(AgentError::RevisionExhausted))
                &&& lease.holder == holder@ && old(self).snapshot_view().revision < u64::MAX
                    && old(self).snapshot_view().event_sequence == u64::MAX ==> (r matches Err(
                    AgentError::EventSequenceExhausted,
                ))
                &&& lease.holder == holder@ && old(self).snapshot_view().revision < u64::MAX
                    && old(self).snapshot_view().event_sequence < u64::MAX ==> r is Ok
                    && final(self).snapshot_view().interaction is Unclaimed
            },
    {
        match &self.snapshot.interaction {
            InteractionState::Unclaimed => {
                return Err(AgentError::InteractionLease(InteractionLeaseError::NotHeld));
            },
            InteractionState::Leased { lease } => {
                if !(lease.holder == *holder) {
                    return Err(
                        AgentError::InteractionLease(
                            InteractionLeaseError::NotHolder { current: lease.holder.clone() },
                        ),
                    );
                }
            },
        }
        self.apply_change(AgentStateChange::InteractionChanged(InteractionState::Unclaimed))?;
        Ok(())
    }

    /// Ends the interaction lease when its deadline passes; the lease becomes
    /// unclaimed unless the revision or sequence space is exhausted.
    pub fn expire_lease(&mut self)
        requires
            old(self).wf(),
        ensures
            final(self).wf(),
            final(self).capacity() == old(self).capacity(),
            final(self).queue_capacity() == old(self).queue_capacity(),
            old(self).snapshot_view().revision < u64::MAX && old(self).snapshot_view().event_sequence
                < u64::MAX ==> final(self).snapshot_view().interaction is Unclaimed,
    {
        let _ = self.apply_change(AgentStateChange::InteractionChanged(InteractionState::Unclaimed));
    }

    /// How a new subscription begins: with the current snapshot when it has
    /// no cursor, otherwise as `subscription_start` decides.
    pub fn subscribe(&self, cursor: Option<SubscriptionCursor>) -> (r: SubscriptionStart<E>)
        requires
            self.wf(),
        ensures
            cursor is None ==> (r matches SubscriptionStart::Snapshot(snapshot) && snapshot@
                == self.snapshot_view()),
            cursor matches Some(c) ==> self.resumes_as(c@, r),
            r matches SubscriptionStart::Replay(updates) ==> exists|k: int|
                0 <= k < self.past().len() && #[trigger] self.past()[k].revision
                    == cursor.unwrap()@.revision && self.past()[k].event_sequence
                    == cursor.unwrap()@.event_sequence && apply_updates(
                    self.past()[k],
                    updates_view(updates@),
                ) == Ok::<AgentSnapshotView, DeltaApplyErrorView>(self.snapshot_view()),
    {
        match cursor {
            None => SubscriptionStart::Snapshot(self.snapshot.clone()),
            Some(cursor) => self.subscription_start(&cursor),
        }
    }

    /// Replaying the kept updates after a cursor that they reach leads from the
    /// snapshot the agent had at that cursor to its current snapshot.
    proof fn lemma_replay_converges(&self, c: CursorView)
        requires
            self.wf(),
            c.agent_id == self.snapshot@.agent_id,
            replay_reaches(c, after(self.replay_view(), c.event_sequence), self.snapshot@),
        ensures
            exists|k: int|
                0 <= k < self.past().len() && #[trigger] self.past()[k].revision == c.revision
                    && self.past()[k].event_sequence == c.event_sequence
                    && self.past()[k].agent_id == c.agent_id && apply_updates(
                    self.past()[k],
                    after(self.replay_view(), c.event_sequence),
                ) == Ok::<AgentSnapshotView, DeltaApplyErrorView>(self.snapshot_view()),
    {
        let rv = self.replay_view();
        let past = self.past@;
        let len = rv.len() as int;
        let base = past[0].event_sequence as int;
        let k: int = if c.event_sequence <= base {
            0
        } else if c.event_sequence - base > len {
            len
        } else {
            c.event_sequence - base
        };
        self.lemma_after_is_suffix(c.event_sequence, k, len);
        assert(rv.take(len) =~= rv);
        assert(rv.subrange(k, len) == after(rv, c.event_sequence));
        self.lemma_history_consistent(k, len);
        if k == len {
            assert(rv.subrange(k, len) =~= Seq::<AgentUpdateView>::empty());
            assert(past[len] == self.snapshot@);
        } else {
            assert(rv.subrange(k, len).take(1) =~= rv.subrange(k, k + 1));
            assert(rv.subrange(k, k + 1).drop_last() =~= Seq::<AgentUpdateView>::empty());
            if replay_walk(c, rv.subrange(k, k + 1)) is None {
                lemma_walk_fails_from(c, rv.subrange(k, len), 1);
            }
            assert(rv.subrange(k, k + 1).last() == rv[k]);
            assert(replay_walk(c, rv.subrange(k, k + 1)) is Some);
            assert(replay_walk(c, rv.subrange(k, k + 1).drop_last()) is Some);
            assert(rv[k].sequence() == c.event_sequence + 1);
            assert(rv[k].sequence() == past[k].event_sequence + 1);
            assert(past[k].event_sequence == c.event_sequence);
            self.lemma_walk_tracks_history(c, k, len);
            assert(past[len] == self.snapshot@);
        }
        assert(self.past()[k].revision == c.revision);
    }

    /// The kept updates after sequence `n` are exactly the suffix that starts at
    /// the first one above `n`.
    proof fn lemma_after_is_suffix(&self, n: u64, k: int, j: int)
        requires
            self.wf(),
            0 <= j <= self.replay@.len(),
            k == (if n <= self.past@[0].event_sequence {
                0
            } else if n - self.past@[0].event_sequence > self.replay@.len() {
                self.replay@.len() as int
            } else {
                n - self.past@[0].event_sequence
            }),
        ensures
            after(self.replay_view().take(j), n) == self.replay_view().subrange(
                if k < j {
                    k
                } else {
                    j
                },
                j,
            ),
        decreases j,
    {
        let rv = self.replay_view();
        if j == 0 {
            assert(rv.take(0) =~= Seq::<AgentUpdateView>::empty());
            assert(rv.subrange(0, 0) =~= Seq::<AgentUpdateView>::empty());
        } else {
            self.lemma_after_is_suffix(n, k, j - 1);
            assert(rv.take(j).drop_last() =~= rv.take(j - 1));
            assert(rv.take(j).last() == rv[j - 1]);
            assert(rv[j - 1].sequence() == self.past@[j - 1].event_sequence + 1);
            assert(self.past@[j - 1].event_sequence == self.past@[0].event_sequence + (j - 1));
            if k < j {
                assert(rv.subrange(k, j) =~= rv.subrange(
                    if k < j - 1 {
                        k
                    } else {
                        j - 1
                    },
                    j - 1,
                ).push(rv[j - 1]));
            } else {
                assert(rv.subrange(j, j) =~= rv.subrange(j - 1, j - 1));
            }
        }
    }

    /// The updates kept from position `k` on lead from the snapshot at `k` to
    /// the snapshot at `j`, for the same agent.
    proof fn lemma_history_consistent(&self, k: int, j: int)
        requires
            self.wf(),
            0 <= k <= j <= self.replay@.len(),
        ensures
            apply_updates(self.past@[k], self.replay_view().subrange(k, j)) == Ok::<
                AgentSnapshotView,
                DeltaApplyErrorView,
            >(self.past@[j]),
            self.past@[j].agent_id == self.past@[k].agent_id,
        decreases j - k,
    {
        let rv = self.replay_view();
        if j == k {
            assert(rv.subrange(k, j) =~= Seq::<AgentUpdateView>::empty());
        } else {
            self.lemma_history_consistent(k, j - 1);
            assert(rv.subrange(k, j).drop_last() =~= rv.subrange(k, j - 1));
            assert(rv.subrange(k, j).last() == rv[j - 1]);
            assert(update_outcome(self.past@[j - 1], rv[j - 1]) == Ok::<
                AgentSnapshotView,
                DeltaApplyErrorView,
            >(self.past@[j]));
        }
    }

    /// While the walk from a cursor at the snapshot of position `k` succeeds,
    /// it expects the sequence after the snapshot at `j` and tracks its revision.
    proof fn lemma_walk_tracks_history(&self, c: CursorView, k: int, j: int)
        requires
            self.wf(),
            0 <= k <= j <= self.replay@.len(),
            self.past@[k].event_sequence == c.event_sequence,
        ensures
            replay_walk(c, self.replay_view().subrange(k, j)) matches Some((expected, revision))
                ==> {
                &&& expected == self.past@[j].event_sequence + 1
                &&& c.revision == self.past@[k].revision ==> revision == self.past@[j].revision
                &&& c.revision != self.past@[k].revision ==> revision == c.revision
                    && self.past@[j].revision == self.past@[k].revision
            },
        decreases j - k,
    {
        let rv = self.replay_view();
        let past = self.past@;
        if j == k {
            assert(rv.subrange(k, j) =~= Seq::<AgentUpdateView>::empty());
        } else {
            self.lemma_walk_tracks_history(c, k, j - 1);
            assert(rv.subrange(k, j).drop_last() =~= rv.subrange(k, j - 1));
            assert(rv.subrange(k, j).last() == rv[j - 1]);
            assert(update_outcome(past[j - 1], rv[j - 1]) == Ok::<
                AgentSnapshotView,
                DeltaApplyErrorView,
            >(past[j]));
            assert(past[j].event_sequence == past[0].event_sequence + j);
            assert(past[j - 1].event_sequence == past[0].event_sequence + (j - 1));
        }
    }
}

/// The updates of `updates` whose sequence is above `n`, in order.
pub open spec fn after(updates: Seq<AgentUpdateView>, n: u64) -> Seq<AgentUpdateView>
    decreases updates.len(),
{
    if updates.len() == 0 {
        updates
    } else {
        let rest = after(updates.drop_last(), n);
        if updates.last().sequence() > n {
            rest.push(updates.last())
        } else {
            rest
        }
    }
}

/// The kept updates after event sequence `n`, payloads included.
pub open spec fn kept_after<E>(updates: Seq<AgentUpdate<E>>, n: u64) -> Seq<AgentUpdate<E>>
    decreases updates.len(),
{
    if updates.len() == 0 {
        updates
    } else {
        let rest = kept_after(updates.drop_last(), n);
        if updates.last()@.sequence() > n {
            rest.push(updates.last())
        } else {
            rest
        }
    }
}

/// Whether `copy` is a clone of `original`: the same content, and an event
/// payload cloned from the original's.
pub open spec fn copies_update<E: Clone>(original: AgentUpdate<E>, copy: AgentUpdate<E>) -> bool {
    &&& copy@ == original@
    &&& copy matches AgentUpdate::Event { event: c, .. } ==> (original matches AgentUpdate::Event {
        event: o,
        ..
    } && cloned(o, c))
}

/// Whether `copies` clones `originals` one by one, in order.
pub open spec fn copies<E: Clone>(originals: Seq<AgentUpdate<E>>, copies: Seq<AgentUpdate<E>>) -> bool {
    &&& copies.len() == originals.len()
    &&& forall|i: int| 0 <= i < copies.len() ==> copies_update(originals[i], #[trigger] copies[i])
}

/// An interaction lease excludes every other holder until it expires, and
/// never excludes its own holder, who may renew it.
pub proof fn lemma_lease_is_exclusive(
    holder: Seq<char>,
    other: Seq<char>,
    now_ms: u64,
    ttl_ms: u64,
    later_ms: u64,
)
    requires
        holder != other,
        now_ms + ttl_ms <= u64::MAX,
    ensures
        ({
            let leased = InteractionStateView::Leased {
                lease: InteractionLeaseView { holder, expires_at_ms: (now_ms + ttl_ms) as u64 },
            };
            &&& later_ms < now_ms + ttl_ms ==> lease_blocks(leased, other, later_ms)
            &&& later_ms >= now_ms + ttl_ms ==> !lease_blocks(leased, other, later_ms)
            &&& !lease_blocks(leased, holder, later_ms)
        }),
{
}

} // verus!
