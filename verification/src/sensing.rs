//! Sensing: who is near whom.
//!
//! Every agent is held against every other, so a pass costs on the order of
//! n * n distance tests for n agents, and n * p identifiers for p pseudo-agents.

use crate::agent::{Agent, PseudoBoid};
use crate::flock::{has_agent, well_formed, Flock};
use crate::vector::within;
use std::collections::HashMap;
use vstd::prelude::*;

verus! {

broadcast use vstd::std_specs::hash::group_hash_axioms;

/// Whether `me` senses `other` within `radius`. An agent senses itself only
/// where `include_self` says so.
pub open spec fn senses(me: Agent, other: Agent, radius: int, include_self: bool) -> bool {
    (include_self || other.id != me.id) && within(me.position@, other.position@, radius)
}

/// The agents that `me` senses within `radius`, by their identifiers and in
/// arena order.
pub open spec fn agents_in_reach(
    agents: Seq<Agent>,
    me: Agent,
    radius: int,
    include_self: bool,
) -> Seq<u64> {
    agents.filter(|other: Agent| senses(me, other, radius, include_self)).map_values(
        |other: Agent| other.id,
    )
}

/// The identifiers of the pseudo-agents, in arena order.
pub open spec fn pseudo_ids(pseudo: Seq<PseudoBoid>) -> Seq<u64> {
    pseudo.map_values(|p: PseudoBoid| p.id)
}

/// All that `me` senses within `radius`: the agents in reach, then every
/// pseudo-agent, however far away.
pub open spec fn sensed_ids(
    agents: Seq<Agent>,
    pseudo: Seq<PseudoBoid>,
    me: Agent,
    radius: int,
    include_self: bool,
) -> Seq<u64> {
    agents_in_reach(agents, me, radius, include_self) + pseudo_ids(pseudo)
}

/// What one pass of sensing found: for each agent, whom it has for neighbours
/// and who is too close to it.
pub struct SensoryData {
    pub neighbor_map: HashMap<u64, Vec<u64>>,
    pub too_close_map: HashMap<u64, Vec<u64>>,
}

impl SensoryData {
    /// The neighbours recorded for the agent called `id`.
    pub open spec fn neighbors_of(&self, id: u64) -> Option<Seq<u64>> {
        if self.neighbor_map@.contains_key(id) {
            Some(self.neighbor_map@[id]@)
        } else {
            None
        }
    }

    /// Those recorded as too close to the agent called `id`.
    pub open spec fn too_close_of(&self, id: u64) -> Option<Seq<u64>> {
        if self.too_close_map@.contains_key(id) {
            Some(self.too_close_map@[id]@)
        } else {
            None
        }
    }

    /// Whether this is what sensing finds in a flock of these agents and
    /// pseudo-agents.
    pub open spec fn is_sensing_of(
        &self,
        agents: Seq<Agent>,
        pseudo: Seq<PseudoBoid>,
        include_self: bool,
    ) -> bool {
        &&& forall|i: int|
            0 <= i < agents.len() ==> self.neighbors_of((#[trigger] agents[i]).id) == Some(
                sensed_ids(
                    agents,
                    pseudo,
                    agents[i],
                    agents[i].boid.neighbor_radius as int,
                    include_self,
                ),
            )
        &&& forall|i: int|
            0 <= i < agents.len() ==> self.too_close_of((#[trigger] agents[i]).id) == Some(
                sensed_ids(
                    agents,
                    pseudo,
                    agents[i],
                    agents[i].boid.personal_radius as int,
                    include_self,
                ),
            )
        &&& forall|id: u64|
            !has_agent(agents, id) ==> (#[trigger] self.neighbors_of(id)) is None
        &&& forall|id: u64|
            !has_agent(agents, id) ==> (#[trigger] self.too_close_of(id)) is None
    }

    pub fn neighbors(&self, id: u64) -> (found: Option<&Vec<u64>>)
        ensures
            match found {
                Some(ids) => self.neighbors_of(id) == Some(ids@),
                None => self.neighbors_of(id) is None,
            },
    {
        self.neighbor_map.get(&id)
    }

    pub fn too_close(&self, id: u64) -> (found: Option<&Vec<u64>>)
        ensures
            match found {
                Some(ids) => self.too_close_of(id) == Some(ids@),
                None => self.too_close_of(id) is None,
            },
    {
        self.too_close_map.get(&id)
    }
}

/// Sensing one more agent adds its identifier, or nothing.
pub proof fn lemma_reach_push(
    agents: Seq<Agent>,
    other: Agent,
    me: Agent,
    radius: int,
    include_self: bool,
)
    ensures
        agents_in_reach(agents.push(other), me, radius, include_self) == if senses(
            me,
            other,
            radius,
            include_self,
        ) {
            agents_in_reach(agents, me, radius, include_self).push(other.id)
        } else {
            agents_in_reach(agents, me, radius, include_self)
        },
{
    let pred = |o: Agent| senses(me, o, radius, include_self);
    let name = |o: Agent| o.id;
    agents.lemma_filter_push(other, pred);
    agents.filter(pred).lemma_push_map_commute(name, other);
}

/// What the agent `me` senses: its neighbours, and those too close to it.
fn sense_one(
    agents: &Vec<Agent>,
    pseudo: &Vec<PseudoBoid>,
    me: &Agent,
    include_self: bool,
) -> (found: (Vec<u64>, Vec<u64>))
    ensures
        found.0@ == sensed_ids(
            agents@,
            pseudo@,
            *me,
            me.boid.neighbor_radius as int,
            include_self,
        ),
        found.1@ == sensed_ids(
            agents@,
            pseudo@,
            *me,
            me.boid.personal_radius as int,
            include_self,
        ),
{
    let mut neighbor_boids: Vec<u64> = Vec::new();
    let mut too_close_boids: Vec<u64> = Vec::new();
    let n: usize = agents.len();
    let mut j: usize = 0;
    while j < n
        invariant
            j <= n,
            n == agents@.len(),
            neighbor_boids@ == agents_in_reach(
                agents@.take(j as int),
                *me,
                me.boid.neighbor_radius as int,
                include_self,
            ),
            too_close_boids@ == agents_in_reach(
                agents@.take(j as int),
                *me,
                me.boid.personal_radius as int,
                include_self,
            ),
        decreases n - j,
    {
        let other: &Agent = &agents[j];
        proof {
            assert(agents@.take(j + 1) =~= agents@.take(j as int).push(*other));
            lemma_reach_push(
                agents@.take(j as int),
                *other,
                *me,
                me.boid.neighbor_radius as int,
                include_self,
            );
            lemma_reach_push(
                agents@.take(j as int),
                *other,
                *me,
                me.boid.personal_radius as int,
                include_self,
            );
        }
        if include_self || other.id != me.id {
            if me.position.is_within(&other.position, me.boid.neighbor_radius) {
                neighbor_boids.push(other.id);
            }
            if me.position.is_within(&other.position, me.boid.personal_radius) {
                too_close_boids.push(other.id);
            }
        }
        j += 1;
    }
    assert(agents@.take(n as int) =~= agents@);
    let p: usize = pseudo.len();
    let mut k: usize = 0;
    let ghost near = neighbor_boids@;
    let ghost close = too_close_boids@;
    while k < p
        invariant
            k <= p,
            p == pseudo@.len(),
            neighbor_boids@ == near + pseudo_ids(pseudo@.take(k as int)),
            too_close_boids@ == close + pseudo_ids(pseudo@.take(k as int)),
        decreases p - k,
    {
        proof {
            assert(pseudo@.take(k + 1) =~= pseudo@.take(k as int).push(pseudo@[k as int]));
        }
        neighbor_boids.push(pseudo[k].id);
        too_close_boids.push(pseudo[k].id);
        k += 1;
    }
    assert(pseudo@.take(p as int) =~= pseudo@);
    (neighbor_boids, too_close_boids)
}

/// Finds, for every agent of the flock, its neighbours and those too close to
/// it. All of it is read off the flock as it stands; nothing moves meanwhile.
pub fn boid_sense(flock: &Flock, include_self: bool) -> (data: SensoryData)
    ensures
        data.is_sensing_of(flock.agents(), flock.pseudo_agents(), include_self),
{
    let agents: &Vec<Agent> = flock.agent_list();
    let pseudo: &Vec<PseudoBoid> = flock.pseudo_agent_list();
    let mut neighbor_map: HashMap<u64, Vec<u64>> = HashMap::new();
    let mut too_close_map: HashMap<u64, Vec<u64>> = HashMap::new();
    let n: usize = agents.len();
    let mut i: usize = 0;
    while i < n
        invariant
            i <= n,
            n == agents@.len(),
            well_formed(agents@, pseudo@),
            forall|id: u64|
                neighbor_map@.contains_key(id) <==> has_agent(agents@.take(i as int), id),
            forall|id: u64|
                too_close_map@.contains_key(id) <==> has_agent(agents@.take(i as int), id),
            forall|h: int|
                0 <= h < i ==> (#[trigger] neighbor_map@[agents@[h].id])@ == sensed_ids(
                    agents@,
                    pseudo@,
                    agents@[h],
                    agents@[h].boid.neighbor_radius as int,
                    include_self,
                ),
            forall|h: int|
                0 <= h < i ==> (#[trigger] too_close_map@[agents@[h].id])@ == sensed_ids(
                    agents@,
                    pseudo@,
                    agents@[h],
                    agents@[h].boid.personal_radius as int,
                    include_self,
                ),
        decreases n - i,
    {
        let me: &Agent = &agents[i];
        let (neighbor_boids, too_close_boids) = sense_one(agents, pseudo, me, include_self);
        proof {
            let before = agents@.take(i as int);
            let after = agents@.take(i + 1);
            assert(after =~= before.push(*me));
            assert forall|id: u64| has_agent(after, id) <==> (has_agent(before, id) || id
                == me.id) by {
                if has_agent(before, id) {
                    let h = choose|h: int| 0 <= h < before.len() && #[trigger] before[h].id == id;
                    assert(after[h].id == id);
                }
                if id == me.id {
                    assert(after[i as int].id == id);
                }
                if has_agent(after, id) {
                    let h = choose|h: int| 0 <= h < after.len() && #[trigger] after[h].id == id;
                    if h < i {
                        assert(before[h].id == id);
                    }
                }
            }
        }
        neighbor_map.insert(me.id, neighbor_boids);
        too_close_map.insert(me.id, too_close_boids);
        i += 1;
    }
    let data = SensoryData { neighbor_map, too_close_map };
    proof {
        assert(agents@.take(n as int) =~= agents@);
        assert forall|h: int| 0 <= h < agents@.len() implies has_agent(
            agents@,
            (#[trigger] agents@[h]).id,
        ) by {
            assert(agents@[h].id == agents@[h].id);
        }
    }
    data
}

} // verus!
