use vstd::prelude::*;

use crate::actor::{AgentActorConfig, RegistryError};
use crate::assoc::{
    assoc_map, distinct_keys, lemma_assoc_domain, lemma_assoc_get, lemma_assoc_insert,
    lemma_assoc_remove,
};
use crate::ids::AgentId;
use crate::text::{
    bytes_le, lemma_bytes_le_antisymmetric, lemma_bytes_le_total, lemma_bytes_le_transitive,
    text_le,
};

verus! {

broadcast use vstd::utf8::encode_utf8_decode_utf8;

/// The bytes an agent is ordered by: its identifier in UTF-8.
pub open spec fn id_bytes(agent_id: Seq<char>) -> Seq<u8> {
    vstd::utf8::encode_utf8(agent_id)
}

/// Whether identifier `a` comes strictly before identifier `b`.
pub open spec fn id_before(a: Seq<char>, b: Seq<char>) -> bool {
    bytes_le(id_bytes(a), id_bytes(b)) && id_bytes(a) != id_bytes(b)
}

/// The identifiers and handles of a list, by identifier text.
pub open spec fn agent_pairs<H>(agents: Seq<(AgentId, H)>) -> Seq<(Seq<char>, H)> {
    agents.map_values(|e: (AgentId, H)| (e.0@, e.1))
}

/// The identifiers of a list, in order.
pub open spec fn agent_order<H>(agents: Seq<(AgentId, H)>) -> Seq<Seq<char>> {
    agents.map_values(|e: (AgentId, H)| e.0@)
}

/// The texts of a list of identifiers.
pub open spec fn id_texts(ids: Seq<AgentId>) -> Seq<Seq<char>> {
    ids.map_values(|id: AgentId| id@)
}

/// The agents a daemon runs, each under its own identifier, with the actor
/// capacities new agents get; `H` is what reaches a running agent.
pub struct AgentRegistry<H> {
    config: AgentActorConfig,
    agents: Vec<(AgentId, H)>,
}

impl<H> AgentRegistry<H> {
    /// The agents are kept in strictly ascending identifier order.
    pub closed spec fn wf(&self) -> bool {
        forall|i: int, j: int|
            0 <= i < j < self.agents.len() ==> id_before(self.agents@[i].0@, self.agents@[j].0@)
    }

    /// The running agents by identifier.
    pub closed spec fn agents(&self) -> Map<Seq<char>, H> {
        assoc_map(agent_pairs(self.agents@))
    }

    /// The identifiers of the running agents, in ascending order.
    pub closed spec fn order(&self) -> Seq<Seq<char>> {
        agent_order(self.agents@)
    }

    /// The capacities new agents get.
    pub closed spec fn capacities(&self) -> AgentActorConfig {
        self.config
    }

    /// A strict order has distinct keys.
    proof fn lemma_distinct(&self)
        requires
            self.wf(),
        ensures
            distinct_keys(agent_pairs(self.agents@)),
    {
        assert forall|i: int, j: int|
            0 <= i < j < agent_pairs(self.agents@).len() implies agent_pairs(self.agents@)[i].0
            != agent_pairs(self.agents@)[j].0 by {
            assert(id_before(self.agents@[i].0@, self.agents@[j].0@));
        }
    }

    /// The order lists every running agent once, ascending.
    pub proof fn lemma_order(&self)
        requires
            self.wf(),
        ensures
            forall|i: int, j: int|
                0 <= i < j < self.order().len() ==> id_before(self.order()[i], self.order()[j]),
            forall|k: Seq<char>| self.agents().dom().contains(k) <==> self.order().contains(k),
            self.order().len() == self.agents().dom().len(),
    {
        self.lemma_distinct();
        crate::assoc::lemma_assoc_len(agent_pairs(self.agents@));
        assert forall|k: Seq<char>| self.agents().dom().contains(k) <==> self.order().contains(
            k,
        ) by {
            lemma_assoc_domain(agent_pairs(self.agents@), k);
            if self.order().contains(k) {
                let i = choose|i: int| 0 <= i < self.order().len() && self.order()[i] == k;
                assert(agent_pairs(self.agents@)[i].0 == k);
            }
            if self.agents().dom().contains(k) {
                let i = choose|i: int|
                    0 <= i < agent_pairs(self.agents@).len() && #[trigger] agent_pairs(
                        self.agents@,
                    )[i].0 == k;
                assert(self.order()[i] == k);
            }
        }
    }

    /// No agent runs yet.
    pub fn new(config: AgentActorConfig) -> (r: Self)
        ensures
            r.wf(),
            r.agents() == Map::<Seq<char>, H>::empty(),
            r.capacities() == config,
    {
        let r = AgentRegistry { config, agents: Vec::new() };
        proof {
            assert(agent_pairs(r.agents@) =~= Seq::<(Seq<char>, H)>::empty());
        }
        r
    }

    /// The capacities new agents get.
    pub fn config(&self) -> (r: AgentActorConfig)
        ensures
            r == self.capacities(),
    {
        self.config
    }

    /// Where `agent_id` is, or where it would go to keep the order.
    fn slot(&self, agent_id: &AgentId) -> (r: (usize, bool))
        requires
            self.wf(),
        ensures
            r.0 <= self.agents.len(),
            r.1 ==> r.0 < self.agents.len() && self.agents@[r.0 as int].0@ == agent_id@,
            !r.1 ==> (forall|j: int| 0 <= j < r.0 ==> id_before(self.agents@[j].0@, agent_id@)) && (
            forall|j: int| r.0 <= j < self.agents.len() ==> id_before(agent_id@, self.agents@[j].0@)),
    {
        let mut i: usize = 0;
        while i < self.agents.len()
            invariant
                i <= self.agents.len(),
                forall|j: int| 0 <= j < i ==> id_before(self.agents@[j].0@, agent_id@),
                forall|a: int, b: int|
                    0 <= a < b < self.agents.len() ==> id_before(
                        self.agents@[a].0@,
                        self.agents@[b].0@,
                    ),
            decreases self.agents.len() - i,
        {
            let at = self.agents[i].0.as_str();
            let below = text_le(at, agent_id.as_str());
            let above = text_le(agent_id.as_str(), at);
            if below && above {
                proof {
                    lemma_bytes_le_antisymmetric(id_bytes(self.agents@[i as int].0@), id_bytes(agent_id@));
                    assert(vstd::utf8::decode_utf8(id_bytes(self.agents@[i as int].0@))
                        == vstd::utf8::decode_utf8(id_bytes(agent_id@)));
                }
                return (i, true);
            }
            if above {
                proof {
                    assert forall|j: int| i <= j < self.agents.len() implies id_before(
                        agent_id@,
                        self.agents@[j].0@,
                    ) by {
                        if j > i {
                            let mid = id_bytes(self.agents@[i as int].0@);
                            assert(id_before(self.agents@[i as int].0@, self.agents@[j].0@));
                            lemma_bytes_le_transitive(id_bytes(agent_id@), mid, id_bytes(self.agents@[j].0@));
                            if id_bytes(agent_id@) == id_bytes(self.agents@[j].0@) {
                                lemma_bytes_le_antisymmetric(mid, id_bytes(self.agents@[j].0@));
                            }
                        }
                    }
                }
                return (i, false);
            }
            proof {
                lemma_bytes_le_total(id_bytes(self.agents@[i as int].0@), id_bytes(agent_id@));
            }
            i = i + 1;
        }
        (i, false)
    }

    /// Whether `agent_id` runs.
    pub fn contains(&self, agent_id: &AgentId) -> (r: bool)
        requires
            self.wf(),
        ensures
            r == self.agents().dom().contains(agent_id@),
    {
        let (position, found) = self.slot(agent_id);
        proof {
            lemma_assoc_domain(agent_pairs(self.agents@), agent_id@);
            if self.agents().dom().contains(agent_id@) && !found {
                let i = choose|i: int|
                    0 <= i < agent_pairs(self.agents@).len() && #[trigger] agent_pairs(
                        self.agents@,
                    )[i].0 == agent_id@;
                assert(self.agents@[i].0@ == agent_id@);
            }
            if found {
                assert(agent_pairs(self.agents@)[position as int].0 == agent_id@);
            }
            if !found {
                assert forall|j: int| 0 <= j < self.agents.len() implies self.agents@[j].0@ != agent_id@ by {
                    assert(id_before(self.agents@[j].0@, agent_id@) || id_before(agent_id@, self.agents@[j].0@));
                }
            }
        }
        found
    }
    /// Adds `handle` under `agent_id`, unless that agent already runs; then
    /// nothing changes and `handle` is dropped.
    pub fn create(&mut self, agent_id: AgentId, handle: H) -> (r: Result<(), RegistryError>)
        requires
            old(self).wf(),
        ensures
            final(self).wf(),
            final(self).capacities() == old(self).capacities(),
            old(self).agents().dom().contains(agent_id@) ==> (r matches Err(
                RegistryError::AlreadyExists(id),
            ) && id@ == agent_id@ && final(self).agents() == old(self).agents()),
            !old(self).agents().dom().contains(agent_id@) ==> r is Ok && final(self).agents()
                == old(self).agents().insert(agent_id@, handle),
    {
        let ghost entries = self.agents@;
        let ghost pairs = agent_pairs(entries);
        let ghost id = agent_id@;
        let (position, found) = self.slot(&agent_id);
        proof {
            self.lemma_distinct();
            lemma_assoc_domain(pairs, id);
        }
        if found {
            proof {
                assert(pairs[position as int].0 == id);
            }
            return Err(RegistryError::AlreadyExists(agent_id));
        }
        proof {
            assert forall|j: int| 0 <= j < pairs.len() implies pairs[j].0 != id by {
                assert(id_before(entries[j].0@, id) || id_before(id, entries[j].0@));
            }
            if pairs.len() > 0 {
                assert(!(exists|j: int| 0 <= j < pairs.len() && #[trigger] pairs[j].0 == id));
            }
        }
        let ghost value = handle;
        self.agents.insert(position, (agent_id, handle));
        proof {
            assert(agent_pairs(self.agents@) =~= pairs.insert(position as int, (id, value)));
            lemma_assoc_insert(pairs, position as int, id, value);
            assert forall|i: int, j: int|
                0 <= i < j < self.agents.len() implies id_before(
                self.agents@[i].0@,
                self.agents@[j].0@,
            ) by {
                if j < position {
                    assert(self.agents@[i] == entries[i]);
                    assert(self.agents@[j] == entries[j]);
                } else if j == position {
                    assert(self.agents@[i] == entries[i]);
                } else if i < position {
                    assert(self.agents@[i] == entries[i]);
                    assert(self.agents@[j] == entries[j - 1]);
                } else if i == position {
                    assert(self.agents@[j] == entries[j - 1]);
                } else {
                    assert(self.agents@[i] == entries[i - 1]);
                    assert(self.agents@[j] == entries[j - 1]);
                }
            }
        }
        Ok(())
    }

    /// The handle of `agent_id`, if it runs.
    pub fn get(&self, agent_id: &AgentId) -> (r: Option<&H>)
        requires
            self.wf(),
        ensures
            match r {
                Some(handle) => self.agents().dom().contains(agent_id@) && *handle
                    == self.agents()[agent_id@],
                None => !self.agents().dom().contains(agent_id@),
            },
    {
        let (position, found) = self.slot(agent_id);
        proof {
            self.lemma_distinct();
            lemma_assoc_domain(agent_pairs(self.agents@), agent_id@);
        }
        if found {
            proof {
                lemma_assoc_get(agent_pairs(self.agents@), position as int);
            }
            Some(&self.agents[position].1)
        } else {
            proof {
                assert forall|j: int| 0 <= j < agent_pairs(self.agents@).len() implies #[trigger] agent_pairs(
                    self.agents@,
                )[j].0 != agent_id@ by {
                    assert(id_before(self.agents@[j].0@, agent_id@) || id_before(agent_id@, self.agents@[j].0@));
                }
            }
            None
        }
    }

    /// The identifiers of the running agents, in ascending order.
    pub fn list(&self) -> (r: Vec<AgentId>)
        requires
            self.wf(),
        ensures
            id_texts(r@) == self.order(),
    {
        let mut out: Vec<AgentId> = Vec::new();
        let mut i: usize = 0;
        while i < self.agents.len()
            invariant
                i <= self.agents.len(),
                out@.len() == i,
                forall|j: int| 0 <= j < i ==> #[trigger] out@[j] == self.agents@[j].0,
            decreases self.agents.len() - i,
        {
            let id = self.agents[i].0.clone();
            out.push(id);
            i = i + 1;
        }
        proof {
            assert(id_texts(out@) =~= agent_order(self.agents@));
        }
        out
    }

    /// Takes `agent_id` out and hands back its handle, or reports that it
    /// does not run.
    pub fn remove(&mut self, agent_id: &AgentId) -> (r: Result<H, RegistryError>)
        requires
            old(self).wf(),
        ensures
            final(self).wf(),
            final(self).capacities() == old(self).capacities(),
            old(self).agents().dom().contains(agent_id@) ==> r == Ok::<H, RegistryError>(
                old(self).agents()[agent_id@],
            ) && final(self).agents() == old(self).agents().remove(agent_id@),
            !old(self).agents().dom().contains(agent_id@) ==> (r matches Err(
                RegistryError::NotFound(id),
            ) && id@ == agent_id@ && final(self).agents() == old(self).agents()),
    {
        let ghost entries = self.agents@;
        let ghost pairs = agent_pairs(entries);
        let (position, found) = self.slot(agent_id);
        proof {
            self.lemma_distinct();
            lemma_assoc_domain(pairs, agent_id@);
        }
        if !found {
            proof {
                assert forall|j: int| 0 <= j < pairs.len() implies #[trigger] pairs[j].0 != agent_id@ by {
                    assert(id_before(entries[j].0@, agent_id@) || id_before(agent_id@, entries[j].0@));
                }
            }
            return Err(RegistryError::NotFound(agent_id.clone()));
        }
        proof {
            lemma_assoc_get(pairs, position as int);
        }
        let (_, handle) = self.agents.remove(position);
        proof {
            assert(agent_pairs(self.agents@) =~= pairs.remove(position as int));
            lemma_assoc_remove(pairs, position as int);
            assert forall|i: int, j: int|
                0 <= i < j < self.agents.len() implies id_before(
                self.agents@[i].0@,
                self.agents@[j].0@,
            ) by {
                if j < position {
                } else if i < position {
                    assert(self.agents@[j] == entries[j + 1]);
                } else {
                    assert(self.agents@[i] == entries[i + 1]);
                    assert(self.agents@[j] == entries[j + 1]);
                }
            }
        }
        Ok(handle)
    }
}

/// One agent per identifier: after an agent is created it runs, so creating
/// it again is refused with the registry unchanged, and every other agent
/// keeps its handle.
pub proof fn lemma_one_agent_per_id<H>(
    running: Map<Seq<char>, H>,
    agent_id: Seq<char>,
    handle: H,
    other: Seq<char>,
)
    requires
        !running.dom().contains(agent_id),
    ensures
        running.insert(agent_id, handle).dom().contains(agent_id),
        running.insert(agent_id, handle)[agent_id] == handle,
        other != agent_id && running.dom().contains(other) ==> running.insert(agent_id, handle)[other]
            == running[other],
{
}

} // verus!
