use vstd::prelude::*;

use std::collections::BTreeMap;

use crate::assoc::{
    assoc_map, distinct_keys, lemma_assoc_domain, lemma_assoc_get, lemma_assoc_insert,
    lemma_assoc_remove, lemma_assoc_update,
};
use crate::keyset::{ascending, ascending_keys};
use crate::ids::{AgentId, LeaseHolderId, OperationId, RequestId};
use crate::protocol::{
    same_control_request, ClientFrame, ControlRequest, RequestEnvelope, UiResponseEnvelope,
};
use crate::reducer::{ReplicatedState, ReplicatedStateView};
use crate::registry::{id_before, id_bytes};
use crate::text::{lemma_bytes_le_antisymmetric, lemma_bytes_le_total, lemma_bytes_le_transitive, text_le};
use crate::rpc::ExtensionUiResponseFrame;
use crate::state::{CursorView, SubscriptionCursor};

verus! {

broadcast use vstd::utf8::encode_utf8_decode_utf8;

/// What a pending request asks of the server.
#[derive(Debug, PartialEq)]
pub enum PendingPayload {
    Request(ControlRequest),
    UiResponse { agent_id: AgentId, holder: LeaseHolderId, response: ExtensionUiResponseFrame },
}

/// A request waiting for its response: what it asks, the operation identifier
/// that stays the same across retries, the request identifier it was last
/// sent under on the current connection, and where its response goes.
pub struct PendingRequest<R> {
    pub payload: PendingPayload,
    pub operation_id: Option<OperationId>,
    pub sent_request_id: Option<RequestId>,
    pub response: R,
}

/// The text of an optional operation identifier.
pub open spec fn opt_operation(id: Option<OperationId>) -> Option<Seq<char>> {
    match id {
        Some(id) => Some(id@),
        None => None,
    }
}

/// Whether `frame` sends `request` under `request_id`, with the request's
/// own operation identifier.
pub open spec fn sends<R>(request: PendingRequest<R>, request_id: RequestId, frame: ClientFrame) -> bool {
    match request.payload {
        PendingPayload::Request(control) => (frame matches ClientFrame::Request(envelope)
            && envelope.request_id == request_id && opt_operation(envelope.operation_id)
            == opt_operation(request.operation_id) && same_control_request(envelope.request, control)),
        PendingPayload::UiResponse { agent_id, holder, response } => (
        frame matches ClientFrame::UiResponse(envelope) && envelope.agent_id == agent_id
            && envelope.request_id == request_id && Some(envelope.operation_id@) == opt_operation(
            request.operation_id,
        ) && envelope.holder == holder && envelope.response == response),
    }
}

impl<R> PendingRequest<R> {
    /// A request carries an operation identifier when it answers a question.
    pub open spec fn well_formed(&self) -> bool {
        self.payload is UiResponse ==> self.operation_id is Some
    }

    /// The frame that sends this request under `request_id`, with its own
    /// operation identifier.
    pub fn frame(&self, request_id: RequestId) -> (r: ClientFrame)
        requires
            self.well_formed(),
        ensures
            sends(*self, request_id, r),
    {
        match &self.payload {
            PendingPayload::Request(request) => {
                let operation_id = match &self.operation_id {
                    Some(id) => Some(id.clone()),
                    None => None,
                };
                ClientFrame::Request(RequestEnvelope { request_id, operation_id, request: request.clone() })
            },
            PendingPayload::UiResponse { agent_id, holder, response } => {
                let operation_id = self.operation_id.as_ref().unwrap().clone();
                ClientFrame::UiResponse(
                    UiResponseEnvelope {
                        agent_id: agent_id.clone(),
                        request_id,
                        operation_id,
                        holder: holder.clone(),
                        response: response.clone(),
                    },
                )
            },
        }
    }
}

/// The request-identifier index of a list by identifier text.
pub open spec fn index_pairs(index: Seq<(RequestId, u64)>) -> Seq<(Seq<char>, u64)> {
    index.map_values(|e: (RequestId, u64)| (e.0@, e.1))
}

/// The request as it stands after its connection was lost: not sent anywhere.
pub open spec fn unsent<R>(request: PendingRequest<R>) -> PendingRequest<R> {
    PendingRequest { sent_request_id: None, ..request }
}

/// The request as it stands after being sent under `request_id`.
pub open spec fn sent_as<R>(request: PendingRequest<R>, request_id: RequestId) -> PendingRequest<R> {
    PendingRequest { sent_request_id: Some(request_id), ..request }
}

/// The requests a client has in flight, by key, and which request identifier
/// of the current connection stands for which key.
pub struct PendingRequests<R> {
    entries: BTreeMap<u64, PendingRequest<R>>,
    index: Vec<(RequestId, u64)>,
    next_key: u64,
}

impl<R> PendingRequests<R> {
    /// No request identifier is indexed twice, and every request that
    /// answers a question has an operation identifier.
    pub closed spec fn wf(&self) -> bool {
        &&& distinct_keys(index_pairs(self.index@))
        &&& forall|k: u64| #[trigger] self.entries@.contains_key(k) ==> self.entries@[k].well_formed()
    }

    /// The pending requests by key.
    pub closed spec fn requests(&self) -> Map<u64, PendingRequest<R>> {
        self.entries@
    }

    /// The request identifiers of the current connection and the keys they stand for.
    pub closed spec fn sent(&self) -> Map<Seq<char>, u64> {
        assoc_map(index_pairs(self.index@))
    }

    /// The key the next request gets.
    pub closed spec fn next(&self) -> u64 {
        self.next_key
    }

    /// No request is pending.
    pub fn new() -> (r: Self)
        ensures
            r.wf(),
            r.requests() == Map::<u64, PendingRequest<R>>::empty(),
            r.sent() == Map::<Seq<char>, u64>::empty(),
            r.next() == 0,
    {
        let r = PendingRequests { entries: BTreeMap::new(), index: Vec::new(), next_key: 0 };
        proof {
            assert(index_pairs(r.index@) =~= Seq::empty());
        }
        r
    }

    /// Adds a request; its key is the next key, and the next key after it
    /// wraps around at the end of the key space.
    pub fn insert(&mut self, payload: PendingPayload, operation_id: Option<OperationId>, response: R) -> (r: u64)
        requires
            old(self).wf(),
            payload is UiResponse ==> operation_id is Some,
        ensures
            final(self).wf(),
            r == old(self).next(),
            final(self).next() == if old(self).next() == u64::MAX {
                0
            } else {
                (old(self).next() + 1) as u64
            },
            final(self).requests() == old(self).requests().insert(
                r,
                PendingRequest { payload, operation_id, sent_request_id: None, response },
            ),
            final(self).sent() == old(self).sent(),
    {
        let key = self.next_key;
        self.next_key = self.next_key.wrapping_add(1);
        let request = PendingRequest { payload, operation_id, sent_request_id: None, response };
        let _ = self.entries.insert(key, request);
        key
    }

    /// The pending keys in ascending order, each once.
    pub fn keys(&self) -> (r: Vec<u64>)
        requires
            self.wf(),
        ensures
            r@.to_set() == self.requests().dom(),
            r@.len() == self.requests().dom().len(),
            ascending(r@),
    {
        ascending_keys(&self.entries)
    }

    /// The frame that sends the request of `key` under `request_id`, if it is pending.
    pub fn frame(&self, key: u64, request_id: RequestId) -> (r: Option<ClientFrame>)
        requires
            self.wf(),
        ensures
            r is Some <==> self.requests().dom().contains(key),
            r matches Some(frame) ==> sends(self.requests()[key], request_id, frame),
    {
        match self.entries.get(&key) {
            Some(request) => {
                proof {
                    assert(self.entries@.contains_key(key));
                }
                Some(request.frame(request_id))
            },
            None => None,
        }
    }

    /// Where `request_id` is in the index, if anywhere.
    fn index_position(&self, request_id: &RequestId) -> (r: Option<usize>)
        ensures
            match r {
                Some(i) => i < self.index.len() && self.index@[i as int].0@ == request_id@,
                None => forall|i: int| 0 <= i < self.index.len() ==> #[trigger] self.index@[i].0@ != request_id@,
            },
    {
        let mut i: usize = 0;
        while i < self.index.len()
            invariant
                i <= self.index.len(),
                forall|k: int| 0 <= k < i ==> #[trigger] self.index@[k].0@ != request_id@,
            decreases self.index.len() - i,
        {
            if self.index[i].0 == *request_id {
                return Some(i);
            }
            i = i + 1;
        }
        None
    }


    /// Records that the request of `key` was sent under `request_id` on the
    /// current connection; a key that is not pending changes nothing.
    pub fn mark_sent(&mut self, key: u64, request_id: RequestId)
        requires
            old(self).wf(),
        ensures
            final(self).wf(),
            final(self).next() == old(self).next(),
            old(self).requests().dom().contains(key) ==> final(self).requests() == old(
                self,
            ).requests().insert(key, sent_as(old(self).requests()[key], request_id))
                && final(self).sent() == old(self).sent().insert(request_id@, key),
            !old(self).requests().dom().contains(key) ==> final(self).requests() == old(
                self,
            ).requests() && final(self).sent() == old(self).sent(),
    {
        let ghost pairs = index_pairs(self.index@);
        let mut request = match self.entries.remove(&key) {
            Some(request) => request,
            None => {
                proof {
                    assert(self.entries@ =~= old(self).entries@);
                }
                return;
            },
        };
        proof {
            assert(old(self).entries@.contains_key(key));
        }
        request.sent_request_id = Some(request_id.clone());
        let _ = self.entries.insert(key, request);
        proof {
            assert(self.entries@ =~= old(self).entries@.insert(key, sent_as(old(self).entries@[key], request_id)));
            lemma_assoc_domain(pairs, request_id@);
        }
        match self.index_position(&request_id) {
            Some(i) => {
                let (id, _) = self.index.remove(i);
                self.index.insert(i, (id, key));
                proof {
                    assert(index_pairs(self.index@) =~= pairs.update(i as int, (pairs[i as int].0, key)));
                    lemma_assoc_update(pairs, i as int, key);
                }
            },
            None => {
                let ghost id = request_id@;
                let at = self.index.len();
                self.index.insert(at, (request_id, key));
                proof {
                    assert forall|j: int| 0 <= j < pairs.len() implies #[trigger] pairs[j].0 != id by {
                        assert(old(self).index@[j].0@ != id);
                    }
                    assert(index_pairs(self.index@) =~= pairs.insert(at as int, (id, key)));
                    lemma_assoc_insert(pairs, at as int, id, key);
                }
            },
        }
    }

    /// Takes the request that `request_id` stands for on the current
    /// connection, if it is still pending; the identifier is forgotten either way.
    pub fn complete(&mut self, request_id: &RequestId) -> (r: Option<PendingRequest<R>>)
        requires
            old(self).wf(),
        ensures
            final(self).wf(),
            final(self).next() == old(self).next(),
            final(self).sent() == old(self).sent().remove(request_id@),
            !old(self).sent().dom().contains(request_id@) ==> r is None && final(self).requests()
                == old(self).requests(),
            old(self).sent().dom().contains(request_id@) ==> ({
                let key = old(self).sent()[request_id@];
                if old(self).requests().dom().contains(key) {
                    r == Some(old(self).requests()[key]) && final(self).requests() == old(
                        self,
                    ).requests().remove(key)
                } else {
                    r is None && final(self).requests() == old(self).requests()
                }
            }),
    {
        let ghost pairs = index_pairs(self.index@);
        proof {
            lemma_assoc_domain(pairs, request_id@);
        }
        let key = match self.index_position(request_id) {
            None => {
                proof {
                    assert forall|j: int| 0 <= j < pairs.len() implies #[trigger] pairs[j].0 != request_id@ by {
                        assert(self.index@[j].0@ != request_id@);
                    }
                    assert(assoc_map(pairs).remove(request_id@) =~= assoc_map(pairs));
                }
                return None;
            },
            Some(i) => {
                proof {
                    lemma_assoc_get(pairs, i as int);
                }
                let (_, key) = self.index.remove(i);
                proof {
                    assert(index_pairs(self.index@) =~= pairs.remove(i as int));
                    lemma_assoc_remove(pairs, i as int);
                }
                key
            },
        };
        let removed = self.entries.remove(&key);
        proof {
            if removed is None {
                assert(self.entries@ =~= old(self).entries@);
            }
        }
        removed
    }

    /// Forgets every request identifier of the lost connection; the requests
    /// stay pending, with their operation identifiers, to be sent again.
    pub fn mark_disconnected(&mut self)
        requires
            old(self).wf(),
        ensures
            final(self).wf(),
            final(self).next() == old(self).next(),
            final(self).sent() == Map::<Seq<char>, u64>::empty(),
            final(self).requests().dom() == old(self).requests().dom(),
            forall|k: u64|
                old(self).requests().dom().contains(k) ==> #[trigger] final(self).requests()[k]
                    == unsent(old(self).requests()[k]),
    {
        self.index = Vec::new();
        let ghost start = self.entries@;
        let keys = ascending_keys(&self.entries);
        let mut i: usize = 0;
        while i < keys.len()
            invariant
                i <= keys.len(),
                keys@.to_set() == start.dom(),
                ascending(keys@),
                self.index@.len() == 0,
                self.next_key == old(self).next_key,
                self.entries@.dom() == start.dom(),
                forall|k: u64| #[trigger] start.contains_key(k) ==> start[k].well_formed(),
                forall|k: u64|
                    #[trigger] start.contains_key(k) ==> self.entries@[k] == if keys@.take(
                        i as int,
                    ).contains(k) {
                        unsent(start[k])
                    } else {
                        start[k]
                    },
            decreases keys.len() - i,
        {
            let key = keys[i];
            proof {
                assert(keys@.to_set().contains(key));
                assert(!keys@.take(i as int).contains(key)) by {
                    if keys@.take(i as int).contains(key) {
                        let k = choose|k: int| 0 <= k < i && #[trigger] keys@.take(i as int)[k] == key;
                        assert(keys@[k] < keys@[i as int]);
                    }
                }
            }
            let ghost before = self.entries@;
            match self.entries.remove(&key) {
                Some(mut request) => {
                    request.sent_request_id = None;
                    let _ = self.entries.insert(key, request);
                    proof {
                        assert(self.entries@ =~= before.insert(key, unsent(before[key])));
                    }
                },
                None => {
                    proof {
                        assert(false);
                    }
                },
            }
            proof {
                assert(keys@.take(i + 1) =~= keys@.take(i as int).push(key));
                assert forall|k: u64| #[trigger] start.contains_key(k) implies self.entries@[k] == if keys@.take(
                    i + 1,
                ).contains(k) {
                    unsent(start[k])
                } else {
                    start[k]
                } by {
                    if k != key {
                        assert(keys@.take(i + 1).contains(k) == keys@.take(i as int).contains(k)) by {
                            if keys@.take(i + 1).contains(k) {
                                let m = choose|m: int| 0 <= m < i + 1 && #[trigger] keys@.take(i + 1)[m] == k;
                                assert(keys@.take(i as int)[m] == k);
                            }
                            if keys@.take(i as int).contains(k) {
                                let m = choose|m: int| 0 <= m < i && #[trigger] keys@.take(i as int)[m] == k;
                                assert(keys@.take(i + 1)[m] == k);
                            }
                        }
                    } else {
                        assert(keys@.take(i + 1)[i as int] == key);
                    }
                }
                assert(self.entries@.dom() =~= start.dom());
            }
            i = i + 1;
        }
        proof {
            assert(index_pairs(self.index@) =~= Seq::empty());
            assert(keys@.take(keys.len() as int) =~= keys@);
            assert forall|k: u64| #[trigger] start.contains_key(k) implies keys@.contains(k) by {
                assert(keys@.to_set().contains(k));
            }
            assert forall|k: u64| #[trigger] self.entries@.contains_key(k) implies self.entries@[k].well_formed() by {
                assert(start.contains_key(k));
            }
        }
    }

    /// Takes every pending request, in ascending key order, and forgets every
    /// request identifier.
    pub fn take_all(&mut self) -> (r: Vec<PendingRequest<R>>)
        requires
            old(self).wf(),
        ensures
            final(self).wf(),
            final(self).next() == old(self).next(),
            final(self).requests() == Map::<u64, PendingRequest<R>>::empty(),
            final(self).sent() == Map::<Seq<char>, u64>::empty(),
            exists|keys: Seq<u64>|
                {
                    &&& keys.to_set() == old(self).requests().dom()
                    &&& keys.len() == r@.len()
                    &&& ascending(keys)
                    &&& forall|i: int|
                        0 <= i < r@.len() ==> #[trigger] r@[i] == old(self).requests()[keys[i]]
                },
    {
        self.index = Vec::new();
        let ghost start = self.entries@;
        let keys = ascending_keys(&self.entries);
        let mut out: Vec<PendingRequest<R>> = Vec::new();
        let mut i: usize = 0;
        while i < keys.len()
            invariant
                i <= keys.len(),
                keys@.to_set() == start.dom(),
                ascending(keys@),
                self.index@.len() == 0,
                self.next_key == old(self).next_key,
                out@.len() == i,
                forall|j: int| 0 <= j < i ==> #[trigger] out@[j] == start[keys@[j]],
                forall|k: u64|
                    #[trigger] self.entries@.contains_key(k) <==> start.contains_key(k)
                        && !keys@.take(i as int).contains(k),
                forall|k: u64| #[trigger] self.entries@.contains_key(k) ==> self.entries@[k] == start[k],
            decreases keys.len() - i,
        {
            let key = keys[i];
            proof {
                assert(keys@.to_set().contains(key));
                assert(!keys@.take(i as int).contains(key)) by {
                    if keys@.take(i as int).contains(key) {
                        let k = choose|k: int| 0 <= k < i && #[trigger] keys@.take(i as int)[k] == key;
                        assert(keys@[k] < keys@[i as int]);
                    }
                }
                assert(self.entries@.contains_key(key));
            }
            let ghost before = self.entries@;
            match self.entries.remove(&key) {
                Some(request) => {
                    out.push(request);
                },
                None => {
                    proof {
                        assert(false);
                    }
                },
            }
            proof {
                assert(self.entries@ =~= before.remove(key));
                assert(keys@.take(i + 1) =~= keys@.take(i as int).push(key));
                assert forall|k: u64| #[trigger] self.entries@.contains_key(k) <==> start.contains_key(k)
                    && !keys@.take(i + 1).contains(k) by {
                    if keys@.take(i + 1).contains(k) && k != key {
                        let m = choose|m: int| 0 <= m < i + 1 && #[trigger] keys@.take(i + 1)[m] == k;
                        assert(keys@.take(i as int)[m] == k);
                    }
                    if keys@.take(i as int).contains(k) {
                        let m = choose|m: int| 0 <= m < i && #[trigger] keys@.take(i as int)[m] == k;
                        assert(keys@.take(i + 1)[m] == k);
                    }
                    if k == key {
                        assert(keys@.take(i + 1)[i as int] == key);
                    }
                }
            }
            i = i + 1;
        }
        proof {
            assert(index_pairs(self.index@) =~= Seq::empty());
            assert(keys@.take(keys.len() as int) =~= keys@);
            assert forall|k: u64| !#[trigger] self.entries@.contains_key(k) by {
                if self.entries@.contains_key(k) {
                    assert(keys@.to_set().contains(k));
                }
            }
            assert(self.entries@ =~= Map::<u64, PendingRequest<R>>::empty());
            assert(keys@.len() == out@.len());
        }
        out
    }
}

/// Pending requests keep what they ask and their operation identifiers
/// through a lost connection and through being sent again, so a retried
/// request carries the same operation identifier under a new request identifier.
pub proof fn lemma_retries_keep_operation_ids<R>(request: PendingRequest<R>, request_id: RequestId)
    ensures
        unsent(request).payload == request.payload,
        unsent(request).operation_id == request.operation_id,
        sent_as(unsent(request), request_id).payload == request.payload,
        sent_as(unsent(request), request_id).operation_id == request.operation_id,
        sent_as(unsent(request), request_id).sent_request_id == Some(request_id),
{
}

/// A pending control request is sent as the same kind of request under the
/// request identifier it is given, with its own operation identifier, so
/// every send and every retry of it is judged alike as changing something
/// or only reading.
pub proof fn lemma_sent_requests_keep_their_kind<R>(
    request: PendingRequest<R>,
    request_id: RequestId,
    frame: ClientFrame,
)
    requires
        sends(request, request_id, frame),
    ensures
        request.payload matches PendingPayload::Request(control) ==> (frame matches ClientFrame::Request(
            envelope,
        ) && envelope.request_id == request_id && envelope.request.mutating() == control.mutating()
            && opt_operation(envelope.operation_id) == opt_operation(request.operation_id)),
        request.payload is UiResponse ==> (frame matches ClientFrame::UiResponse(envelope)
            && envelope.request_id == request_id && Some(envelope.operation_id@) == opt_operation(
            request.operation_id,
        )),
{
}

/// After a lost connection no response completes a request until the
/// request is sent again: the index of request identifiers is empty.
pub proof fn lemma_no_response_matches_after_disconnect(sent: Map<Seq<char>, u64>, request_id: Seq<char>)
    requires
        sent == Map::<Seq<char>, u64>::empty(),
    ensures
        !sent.dom().contains(request_id),
{
}

/// The agents a client wants to follow, each once.
pub struct DesiredSubscriptions {
    agents: Vec<AgentId>,
}

/// The texts of a list of agent identifiers.
pub open spec fn agent_texts(agents: Seq<AgentId>) -> Seq<Seq<char>> {
    agents.map_values(|id: AgentId| id@)
}

impl DesiredSubscriptions {
    /// The agents are listed in strictly ascending identifier order, so none twice.
    pub closed spec fn wf(&self) -> bool {
        forall|i: int, j: int|
            0 <= i < j < self.agents.len() ==> id_before(self.agents@[i]@, self.agents@[j]@)
    }

    /// The agents wanted, by identifier text.
    pub closed spec fn wanted(&self) -> Set<Seq<char>> {
        agent_texts(self.agents@).to_set()
    }

    /// The agents wanted, in ascending identifier order.
    pub closed spec fn in_order(&self) -> Seq<Seq<char>> {
        agent_texts(self.agents@)
    }

    /// The order lists each wanted agent once, ascending.
    pub proof fn lemma_order_distinct(&self)
        requires
            self.wf(),
        ensures
            self.in_order().to_set() == self.wanted(),
            forall|i: int, j: int|
                0 <= i < j < self.in_order().len() ==> id_before(self.in_order()[i], self.in_order()[j]),
    {
    }

    /// No agent is wanted.
    pub fn new() -> (r: Self)
        ensures
            r.wf(),
            r.wanted() == Set::<Seq<char>>::empty(),
    {
        let r = DesiredSubscriptions { agents: Vec::new() };
        proof {
            assert(agent_texts(r.agents@).to_set() =~= Set::<Seq<char>>::empty());
        }
        r
    }

    /// Where `agent_id` is, or where it would go to keep the order.
    fn slot(&self, agent_id: &AgentId) -> (r: (usize, bool))
        requires
            self.wf(),
        ensures
            r.0 <= self.agents.len(),
            r.1 ==> r.0 < self.agents.len() && self.agents@[r.0 as int]@ == agent_id@,
            !r.1 ==> (forall|j: int| 0 <= j < r.0 ==> id_before(self.agents@[j]@, agent_id@)) && (
            forall|j: int| r.0 <= j < self.agents.len() ==> id_before(agent_id@, self.agents@[j]@)),
    {
        let mut i: usize = 0;
        while i < self.agents.len()
            invariant
                i <= self.agents.len(),
                forall|j: int| 0 <= j < i ==> id_before(self.agents@[j]@, agent_id@),
                forall|a: int, b: int|
                    0 <= a < b < self.agents.len() ==> id_before(self.agents@[a]@, self.agents@[b]@),
            decreases self.agents.len() - i,
        {
            let at = self.agents[i].as_str();
            let below = text_le(at, agent_id.as_str());
            let above = text_le(agent_id.as_str(), at);
            if below && above {
                proof {
                    lemma_bytes_le_antisymmetric(id_bytes(self.agents@[i as int]@), id_bytes(agent_id@));
                    assert(vstd::utf8::decode_utf8(id_bytes(self.agents@[i as int]@))
                        == vstd::utf8::decode_utf8(id_bytes(agent_id@)));
                }
                return (i, true);
            }
            if above {
                proof {
                    assert forall|j: int| i <= j < self.agents.len() implies id_before(
                        agent_id@,
                        self.agents@[j]@,
                    ) by {
                        if j > i {
                            let mid = id_bytes(self.agents@[i as int]@);
                            assert(id_before(self.agents@[i as int]@, self.agents@[j]@));
                            lemma_bytes_le_transitive(id_bytes(agent_id@), mid, id_bytes(self.agents@[j]@));
                            if id_bytes(agent_id@) == id_bytes(self.agents@[j]@) {
                                lemma_bytes_le_antisymmetric(mid, id_bytes(self.agents@[j]@));
                            }
                        }
                    }
                }
                return (i, false);
            }
            proof {
                lemma_bytes_le_total(id_bytes(self.agents@[i as int]@), id_bytes(agent_id@));
            }
            i = i + 1;
        }
        (i, false)
    }

    /// Wants `agent_id`; says whether it was not wanted before.
    pub fn insert(&mut self, agent_id: AgentId) -> (r: bool)
        requires
            old(self).wf(),
        ensures
            final(self).wf(),
            r == !old(self).wanted().contains(agent_id@),
            final(self).wanted() == old(self).wanted().insert(agent_id@),
    {
        let ghost texts = agent_texts(self.agents@);
        let ghost before = self.agents@;
        let (position, found) = self.slot(&agent_id);
        if found {
            proof {
                assert(texts[position as int] == agent_id@);
                assert(texts.to_set().insert(agent_id@) =~= texts.to_set());
            }
            return false;
        }
        let ghost id = agent_id@;
        proof {
            if texts.contains(id) {
                let k = choose|k: int| 0 <= k < texts.len() && texts[k] == id;
                assert(id_before(before[k]@, id) || id_before(id, before[k]@));
            }
        }
        self.agents.insert(position, agent_id);
        proof {
            let after = agent_texts(self.agents@);
            assert(after =~= texts.insert(position as int, id));
            assert forall|x: Seq<char>| after.contains(x) <==> texts.to_set().insert(id).contains(x) by {
                if after.contains(x) {
                    let k = choose|k: int| 0 <= k < after.len() && after[k] == x;
                    if k < position {
                        assert(texts[k] == x);
                    } else if k > position {
                        assert(texts[k - 1] == x);
                    }
                }
                if texts.contains(x) {
                    let k = choose|k: int| 0 <= k < texts.len() && texts[k] == x;
                    if k < position {
                        assert(after[k] == x);
                    } else {
                        assert(after[k + 1] == x);
                    }
                }
                if x == id {
                    assert(after[position as int] == x);
                }
            }
            assert(after.to_set() =~= texts.to_set().insert(id));
            assert forall|i: int, j: int|
                0 <= i < j < self.agents.len() implies id_before(self.agents@[i]@, self.agents@[j]@) by {
                if j < position {
                    assert(self.agents@[i] == before[i]);
                    assert(self.agents@[j] == before[j]);
                } else if j == position {
                    assert(self.agents@[i] == before[i]);
                } else if i < position {
                    assert(self.agents@[i] == before[i]);
                    assert(self.agents@[j] == before[j - 1]);
                } else if i == position {
                    assert(self.agents@[j] == before[j - 1]);
                } else {
                    assert(self.agents@[i] == before[i - 1]);
                    assert(self.agents@[j] == before[j - 1]);
                }
            }
        }
        true
    }

    /// Stops wanting `agent_id`; says whether it was wanted.
    pub fn remove(&mut self, agent_id: &AgentId) -> (r: bool)
        requires
            old(self).wf(),
        ensures
            final(self).wf(),
            r == old(self).wanted().contains(agent_id@),
            final(self).wanted() == old(self).wanted().remove(agent_id@),
    {
        let ghost texts = agent_texts(self.agents@);
        let ghost before = self.agents@;
        let (i, found) = self.slot(agent_id);
        if found {
            self.agents.remove(i);
            proof {
                assert(texts[i as int] == agent_id@);
                let after = agent_texts(self.agents@);
                assert(after =~= texts.remove(i as int));
                assert forall|x: Seq<char>| after.contains(x) <==> texts.to_set().remove(agent_id@).contains(x) by {
                    if after.contains(x) {
                        let k = choose|k: int| 0 <= k < after.len() && after[k] == x;
                        if k < i {
                            assert(texts[k] == x);
                            assert(id_before(before[k]@, before[i as int]@));
                        } else {
                            assert(texts[k + 1] == x);
                            assert(id_before(before[i as int]@, before[k + 1]@));
                        }
                    }
                    if texts.to_set().remove(agent_id@).contains(x) {
                        let k = choose|k: int| 0 <= k < texts.len() && texts[k] == x;
                        if k < i {
                            assert(after[k] == x);
                        } else {
                            assert(k != i);
                            assert(after[k - 1] == x);
                        }
                    }
                }
                assert(after.to_set() =~= texts.to_set().remove(agent_id@));
                assert forall|a: int, b: int|
                    0 <= a < b < self.agents.len() implies id_before(self.agents@[a]@, self.agents@[b]@) by {
                    if b < i {
                    } else if a < i {
                        assert(self.agents@[b] == before[b + 1]);
                    } else {
                        assert(self.agents@[a] == before[a + 1]);
                        assert(self.agents@[b] == before[b + 1]);
                    }
                }
            }
            true
        } else {
            proof {
                if texts.contains(agent_id@) {
                    let k = choose|k: int| 0 <= k < texts.len() && texts[k] == agent_id@;
                    assert(id_before(before[k]@, agent_id@) || id_before(agent_id@, before[k]@));
                }
                assert(texts.to_set().remove(agent_id@) =~= texts.to_set());
            }
            false
        }
    }

    /// The wanted agents, in ascending identifier order.
    pub fn list(&self) -> (r: Vec<AgentId>)
        requires
            self.wf(),
        ensures
            agent_texts(r@) == self.in_order(),
    {
        let mut out: Vec<AgentId> = Vec::new();
        let mut i: usize = 0;
        while i < self.agents.len()
            invariant
                i <= self.agents.len(),
                out@.len() == i,
                forall|j: int| 0 <= j < i ==> #[trigger] out@[j] == self.agents@[j],
            decreases self.agents.len() - i,
        {
            let agent = self.agents[i].clone();
            out.push(agent);
            i = i + 1;
        }
        proof {
            assert(out@ =~= self.agents@);
        }
        out
    }
}

/// Where a subscription of `agent` resumes in `state`: at its stored
/// snapshot, unless it has none or waits for a fresh one.
pub open spec fn resume_position(state: ReplicatedStateView, agent: Seq<char>) -> Option<CursorView> {
    if state.agents.dom().contains(agent) && !state.resync_required.contains(agent) {
        Some(
            CursorView {
                agent_id: agent,
                revision: state.agents[agent].revision,
                event_sequence: state.agents[agent].event_sequence,
            },
        )
    } else {
        None
    }
}

/// The resume positions of `agents` that have one, in order.
pub open spec fn resume_positions(state: ReplicatedStateView, agents: Seq<Seq<char>>) -> Seq<CursorView>
    decreases agents.len(),
{
    if agents.len() == 0 {
        Seq::empty()
    } else {
        let rest = resume_positions(state, agents.drop_last());
        match resume_position(state, agents.last()) {
            Some(cursor) => rest.push(cursor),
            None => rest,
        }
    }
}

/// The contents of a list of cursors.
pub open spec fn cursor_views(cursors: Seq<SubscriptionCursor>) -> Seq<CursorView> {
    cursors.map_values(|cursor: SubscriptionCursor| cursor@)
}

impl DesiredSubscriptions {
    /// The cursors a reconnecting client resumes its wanted agents from:
    /// those of the wanted agents with a resume position in `state`.
    pub fn resume_cursors(&self, state: &ReplicatedState) -> (r: Vec<SubscriptionCursor>)
        requires
            state.wf(),
        ensures
            cursor_views(r@) == resume_positions(state@, self.in_order()),
    {
        let mut out: Vec<SubscriptionCursor> = Vec::new();
        let mut i: usize = 0;
        proof {
            assert(agent_texts(self.agents@).take(0) =~= Seq::<Seq<char>>::empty());
            assert(cursor_views(out@) =~= Seq::<CursorView>::empty());
        }
        while i < self.agents.len()
            invariant
                state.wf(),
                i <= self.agents.len(),
                cursor_views(out@) == resume_positions(state@, agent_texts(self.agents@).take(i as int)),
            decreases self.agents.len() - i,
        {
            let ghost before = out@;
            let ghost texts = agent_texts(self.agents@);
            proof {
                assert(texts.take(i + 1).drop_last() =~= texts.take(i as int));
                assert(texts.take(i + 1).last() == self.agents@[i as int]@);
            }
            match state.cursor(&self.agents[i]) {
                Some(cursor) => {
                    out.push(cursor);
                    proof {
                        assert(cursor_views(out@) =~= cursor_views(before).push(cursor@));
                    }
                },
                None => {},
            }
            i = i + 1;
        }
        proof {
            assert(agent_texts(self.agents@).take(self.agents.len() as int) =~= agent_texts(self.agents@));
        }
        out
    }
}

} // verus!
