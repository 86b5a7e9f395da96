//! The arena that holds the agents and pseudo-agents of one simulation.

use crate::agent::{Agent, FlockError, PseudoBoid};
use crate::vector::Vec2;
use vstd::prelude::*;

verus! {

/// Whether some agent of `agents` is called `id`.
pub open spec fn has_agent(agents: Seq<Agent>, id: u64) -> bool {
    exists|i: int| 0 <= i < agents.len() && #[trigger] agents[i].id == id
}

/// Whether some pseudo-agent of `pseudo` is called `id`.
pub open spec fn has_pseudo(pseudo: Seq<PseudoBoid>, id: u64) -> bool {
    exists|k: int| 0 <= k < pseudo.len() && #[trigger] pseudo[k].id == id
}

/// No identifier is used twice, whatever the kind of its bearers.
pub open spec fn distinct_ids(agents: Seq<Agent>, pseudo: Seq<PseudoBoid>) -> bool {
    &&& forall|i: int, j: int|
        0 <= i < j < agents.len() ==> #[trigger] agents[i].id != #[trigger] agents[j].id
    &&& forall|k: int, l: int|
        0 <= k < l < pseudo.len() ==> #[trigger] pseudo[k].id != #[trigger] pseudo[l].id
    &&& forall|i: int, k: int|
        0 <= i < agents.len() && 0 <= k < pseudo.len() ==> #[trigger] agents[i].id
            != #[trigger] pseudo[k].id
}

/// What holds of every flock: identifiers are distinct and every agent is valid.
pub open spec fn well_formed(agents: Seq<Agent>, pseudo: Seq<PseudoBoid>) -> bool {
    &&& distinct_ids(agents, pseudo)
    &&& forall|i: int| 0 <= i < agents.len() ==> (#[trigger] agents[i]).valid()
}

/// Where the entity called `id` is, if the flock knows it.
pub open spec fn position_of(agents: Seq<Agent>, pseudo: Seq<PseudoBoid>, id: u64) -> Option<
    Vec2,
> {
    if has_agent(agents, id) {
        let i = choose|i: int| 0 <= i < agents.len() && #[trigger] agents[i].id == id;
        Some(agents[i].position)
    } else if has_pseudo(pseudo, id) {
        let k = choose|k: int| 0 <= k < pseudo.len() && #[trigger] pseudo[k].id == id;
        Some(pseudo[k].position)
    } else {
        None
    }
}

/// The agents and pseudo-agents of one simulation, each under an identifier
/// that no other bears. Agents are never removed.
pub struct Flock {
    agents: Vec<Agent>,
    pseudo: Vec<PseudoBoid>,
}

impl Flock {
    /// The agents, in the order in which they were added.
    pub closed spec fn agents(&self) -> Seq<Agent> {
        self.agents@
    }

    /// The pseudo-agents, in the order in which they were added.
    pub closed spec fn pseudo_agents(&self) -> Seq<PseudoBoid> {
        self.pseudo@
    }

    #[verifier::type_invariant]
    pub closed spec fn inv(&self) -> bool {
        well_formed(self.agents@, self.pseudo@)
    }

    /// A flock with nothing in it.
    pub fn new() -> (flock: Flock)
        ensures
            flock.agents() == Seq::<Agent>::empty(),
            flock.pseudo_agents() == Seq::<PseudoBoid>::empty(),
    {
        Flock { agents: Vec::new(), pseudo: Vec::new() }
    }

    /// The agents and, with them, the fact that the flock is well formed.
    pub fn agent_list(&self) -> (list: &Vec<Agent>)
        ensures
            list@ == self.agents(),
            well_formed(self.agents(), self.pseudo_agents()),
    {
        proof {
            use_type_invariant(self);
        }
        &self.agents
    }

    /// The pseudo-agents and, with them, the fact that the flock is well formed.
    pub fn pseudo_agent_list(&self) -> (list: &Vec<PseudoBoid>)
        ensures
            list@ == self.pseudo_agents(),
            well_formed(self.agents(), self.pseudo_agents()),
    {
        proof {
            use_type_invariant(self);
        }
        &self.pseudo
    }

    /// The place of the agent called `id` in the arena.
    pub fn agent_index(&self, id: u64) -> (found: Option<usize>)
        ensures
            match found {
                Some(i) => i < self.agents().len() && self.agents()[i as int].id == id,
                None => !has_agent(self.agents(), id),
            },
    {
        let mut i: usize = 0;
        while i < self.agents.len()
            invariant
                i <= self.agents@.len(),
                forall|j: int| 0 <= j < i ==> (#[trigger] self.agents@[j]).id != id,
            decreases self.agents@.len() - i,
        {
            if self.agents[i].id == id {
                return Some(i);
            }
            i += 1;
        }
        None
    }

    /// The place of the pseudo-agent called `id` in the arena.
    pub fn pseudo_agent_index(&self, id: u64) -> (found: Option<usize>)
        ensures
            match found {
                Some(k) => k < self.pseudo_agents().len() && self.pseudo_agents()[k as int].id
                    == id,
                None => !has_pseudo(self.pseudo_agents(), id),
            },
    {
        let mut k: usize = 0;
        while k < self.pseudo.len()
            invariant
                k <= self.pseudo@.len(),
                forall|l: int| 0 <= l < k ==> (#[trigger] self.pseudo@[l]).id != id,
            decreases self.pseudo@.len() - k,
        {
            if self.pseudo[k].id == id {
                return Some(k);
            }
            k += 1;
        }
        None
    }

    /// The agent called `id`, as it is now.
    pub fn agent(&self, id: u64) -> (found: Option<Agent>)
        ensures
            match found {
                Some(agent) => agent.id == id && self.agents().contains(agent),
                None => !has_agent(self.agents(), id),
            },
    {
        match self.agent_index(id) {
            Some(i) => Some(self.agents[i]),
            None => None,
        }
    }

    /// Whether an agent or a pseudo-agent is called `id`.
    pub fn knows(&self, id: u64) -> (b: bool)
        ensures
            b == (has_agent(self.agents(), id) || has_pseudo(self.pseudo_agents(), id)),
    {
        self.agent_index(id).is_some() || self.pseudo_agent_index(id).is_some()
    }

    /// Where the entity called `id` is.
    pub fn locate(&self, id: u64) -> (found: Option<Vec2>)
        ensures
            found == position_of(self.agents(), self.pseudo_agents(), id),
    {
        proof {
            use_type_invariant(self);
        }
        match self.agent_index(id) {
            Some(i) => Some(self.agents[i].position),
            None => match self.pseudo_agent_index(id) {
                Some(k) => Some(self.pseudo[k].position),
                None => None,
            },
        }
    }

    /// Admits an agent. An invalid one is turned away first, then one whose
    /// identifier is taken.
    pub fn add_agent(&mut self, agent: Agent) -> (r: Result<(), FlockError>)
        ensures
            final(self).pseudo_agents() == old(self).pseudo_agents(),
            match r {
                Ok(()) => {
                    &&& agent.valid()
                    &&& !has_agent(old(self).agents(), agent.id)
                    &&& !has_pseudo(old(self).pseudo_agents(), agent.id)
                    &&& final(self).agents() == old(self).agents().push(agent)
                },
                Err(e) => {
                    &&& final(self).agents() == old(self).agents()
                    &&& if !agent.valid() {
                        e == FlockError::InvalidConfiguration
                    } else {
                        &&& e == FlockError::DuplicateId(agent.id)
                        &&& has_agent(old(self).agents(), agent.id) || has_pseudo(
                            old(self).pseudo_agents(),
                            agent.id,
                        )
                    }
                },
            },
    {
        proof {
            use_type_invariant(&*self);
        }
        if !agent.is_valid() {
            return Err(FlockError::InvalidConfiguration);
        }
        if self.knows(agent.id) {
            return Err(FlockError::DuplicateId(agent.id));
        }
        let mut agents: Vec<Agent> = self.take_agents();
        agents.push(agent);
        self.replace_agents(agents);
        Ok(())
    }

    /// Admits a pseudo-agent, unless its identifier is taken.
    pub fn add_pseudo_agent(&mut self, pseudo: PseudoBoid) -> (r: Result<(), FlockError>)
        ensures
            final(self).agents() == old(self).agents(),
            match r {
                Ok(()) => {
                    &&& !has_agent(old(self).agents(), pseudo.id)
                    &&& !has_pseudo(old(self).pseudo_agents(), pseudo.id)
                    &&& final(self).pseudo_agents() == old(self).pseudo_agents().push(pseudo)
                },
                Err(e) => {
                    &&& final(self).pseudo_agents() == old(self).pseudo_agents()
                    &&& e == FlockError::DuplicateId(pseudo.id)
                    &&& has_agent(old(self).agents(), pseudo.id) || has_pseudo(
                        old(self).pseudo_agents(),
                        pseudo.id,
                    )
                },
            },
    {
        proof {
            use_type_invariant(&*self);
        }
        if self.knows(pseudo.id) {
            return Err(FlockError::DuplicateId(pseudo.id));
        }
        let mut list: Vec<PseudoBoid> = self.take_pseudo_agents();
        list.push(pseudo);
        self.replace_pseudo_agents(list);
        Ok(())
    }

    /// Moves the pseudo-agent called `id` to `position`.
    pub fn set_pseudo_agent_position(&mut self, id: u64, position: Vec2) -> (r: Result<
        (),
        FlockError,
    >)
        ensures
            final(self).agents() == old(self).agents(),
            match r {
                Ok(()) => exists|k: int|
                    {
                        &&& 0 <= k < old(self).pseudo_agents().len()
                        &&& #[trigger] old(self).pseudo_agents()[k].id == id
                        &&& final(self).pseudo_agents() == old(self).pseudo_agents().update(
                            k,
                            PseudoBoid { id, position },
                        )
                    },
                Err(e) => {
                    &&& !has_pseudo(old(self).pseudo_agents(), id)
                    &&& e == FlockError::AgentNotFound(id)
                    &&& final(self).pseudo_agents() == old(self).pseudo_agents()
                },
            },
    {
        proof {
            use_type_invariant(&*self);
        }
        match self.pseudo_agent_index(id) {
            Some(k) => {
                let mut list: Vec<PseudoBoid> = self.take_pseudo_agents();
                list.set(k, PseudoBoid { id, position });
                self.replace_pseudo_agents(list);
                Ok(())
            },
            None => Err(FlockError::AgentNotFound(id)),
        }
    }

    /// Moves every pseudo-agent to `position`.
    pub fn gather_pseudo_agents(&mut self, position: Vec2)
        ensures
            final(self).agents() == old(self).agents(),
            final(self).pseudo_agents().len() == old(self).pseudo_agents().len(),
            forall|k: int|
                #![trigger final(self).pseudo_agents()[k]]
                0 <= k < old(self).pseudo_agents().len() ==> final(self).pseudo_agents()[k] == (
                PseudoBoid { id: old(self).pseudo_agents()[k].id, position }),
    {
        proof {
            use_type_invariant(&*self);
        }
        let mut list: Vec<PseudoBoid> = self.take_pseudo_agents();
        let n: usize = list.len();
        let mut k: usize = 0;
        while k < n
            invariant
                k <= n,
                n == list@.len(),
                n == old(self).pseudo@.len(),
                forall|l: int|
                    0 <= l < n ==> (#[trigger] list@[l]).id == old(self).pseudo@[l].id,
                forall|l: int| 0 <= l < k ==> (#[trigger] list@[l]).position == position,
            decreases n - k,
        {
            let id: u64 = list[k].id;
            list.set(k, PseudoBoid { id, position });
            k += 1;
        }
        self.replace_pseudo_agents(list);
    }

    /// Records the direction in which the agent called `id` faces.
    pub fn set_forward(&mut self, id: u64, forward: Vec2) -> (r: Result<(), FlockError>)
        ensures
            final(self).pseudo_agents() == old(self).pseudo_agents(),
            match r {
                Ok(()) => exists|i: int|
                    {
                        &&& 0 <= i < old(self).agents().len()
                        &&& #[trigger] old(self).agents()[i].id == id
                        &&& final(self).agents() == old(self).agents().update(
                            i,
                            Agent { forward, ..old(self).agents()[i] },
                        )
                    },
                Err(e) => {
                    &&& !has_agent(old(self).agents(), id)
                    &&& e == FlockError::AgentNotFound(id)
                    &&& final(self).agents() == old(self).agents()
                },
            },
    {
        proof {
            use_type_invariant(&*self);
        }
        match self.agent_index(id) {
            Some(i) => {
                let mut agents: Vec<Agent> = self.take_agents();
                let agent: Agent = agents[i];
                agents.set(i, Agent { forward, ..agent });
                self.replace_agents(agents);
                Ok(())
            },
            None => Err(FlockError::AgentNotFound(id)),
        }
    }

    /// Hands out the agents and leaves none behind, for `replace_agents` to
    /// bring them back.
    pub(crate) fn take_agents(&mut self) -> (agents: Vec<Agent>)
        ensures
            agents@ == old(self).agents(),
            final(self).agents().len() == 0,
            final(self).pseudo_agents() == old(self).pseudo_agents(),
            well_formed(agents@, old(self).pseudo_agents()),
    {
        proof {
            use_type_invariant(&*self);
        }
        let mut agents: Vec<Agent> = Vec::new();
        std::mem::swap(&mut agents, &mut self.agents);
        agents
    }

    /// Puts `agents` in the place of the flock's agents.
    pub(crate) fn replace_agents(&mut self, agents: Vec<Agent>)
        requires
            well_formed(agents@, old(self).pseudo_agents()),
        ensures
            final(self).agents() == agents@,
            final(self).pseudo_agents() == old(self).pseudo_agents(),
    {
        self.agents = agents;
    }

    fn take_pseudo_agents(&mut self) -> (list: Vec<PseudoBoid>)
        ensures
            list@ == old(self).pseudo_agents(),
            final(self).pseudo_agents().len() == 0,
            final(self).agents() == old(self).agents(),
            well_formed(old(self).agents(), list@),
    {
        proof {
            use_type_invariant(&*self);
        }
        let mut list: Vec<PseudoBoid> = Vec::new();
        std::mem::swap(&mut list, &mut self.pseudo);
        list
    }

    fn replace_pseudo_agents(&mut self, list: Vec<PseudoBoid>)
        requires
            well_formed(old(self).agents(), list@),
        ensures
            final(self).pseudo_agents() == list@,
            final(self).agents() == old(self).agents(),
    {
        self.pseudo = list;
    }
}

} // verus!
