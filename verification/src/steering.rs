//! Steering: from what an agent senses to the rate at which it turns.

use crate::agent::{Agent, FlockError, PseudoBoid};
use crate::flock::{has_agent, has_pseudo, position_of, well_formed, Flock};
use crate::sensing::SensoryData;
use crate::vector::{lemma_product_bound, Pull, Vec2, Vector};
use std::collections::HashMap;
use vstd::prelude::*;

verus! {

broadcast use vstd::std_specs::hash::group_hash_axioms;

/// The sum of the positions `boids`.
pub open spec fn sum_of(boids: Seq<Vec2>) -> Vector
    decreases boids.len(),
{
    if boids.len() == 0 {
        Vector::zero()
    } else {
        sum_of(boids.drop_last()).plus(boids.last()@)
    }
}

/// The pull from `this` towards the centroid of `boids`: the centroid less
/// `this`, times the number of boids, so that it is exact. It is zero where
/// there are no boids and where their centroid is `this` itself.
pub open spec fn cohesion_pull(this: Vector, boids: Seq<Vec2>) -> Vector {
    sum_of(boids).minus(this.scaled(boids.len() as int))
}

/// The pull from the centroid of `boids` away, through `this`: the opposite
/// of the pull towards it.
pub open spec fn separation_pull(this: Vector, boids: Seq<Vec2>) -> Vector {
    this.scaled(boids.len() as int).minus(sum_of(boids))
}

/// The turn from `forward` to `desired`, where the angle between the two
/// measures `angle`: none where nothing pulls, `angle` where the cross product
/// of `forward` and `desired` is positive, `-angle` where it is not.
pub open spec fn signed_angle(forward: Vector, desired: Vector, angle: int) -> int {
    if desired.is_zero() {
        0
    } else if forward.cross(desired) > 0 {
        angle
    } else {
        -angle
    }
}

/// Half of `a + b`, rounded towards zero.
pub open spec fn half_sum(a: int, b: int) -> int {
    if a + b >= 0 {
        (a + b) / 2
    } else {
        -((-(a + b)) / 2)
    }
}

/// The angles that the host measured for one agent: between its forward
/// direction and each of the two pulls on it. What it gives for a zero pull
/// is never looked at.
#[derive(Clone, Copy, Debug, PartialEq, Eq, Structural)]
pub struct Bearing {
    pub cohesion_angle: u32,
    pub separation_angle: u32,
}

/// The rate at which an agent turns that faces `forward` and is pulled as
/// `cohesion` and `separation` say: the mean of the two signed turns.
pub open spec fn turn_rate(
    forward: Vector,
    cohesion: Vector,
    separation: Vector,
    bearing: Bearing,
) -> int {
    half_sum(
        signed_angle(forward, cohesion, bearing.cohesion_angle as int),
        signed_angle(forward, separation, bearing.separation_angle as int),
    )
}

/// The positions summed, with the bound that keeps what follows in range.
fn sum_positions(boids: &Vec<Vec2>) -> (sum: Pull)
    ensures
        sum@ == sum_of(boids@),
        -(boids@.len() * 0x8000_0000) <= sum.x <= boids@.len() * 0x8000_0000,
        -(boids@.len() * 0x8000_0000) <= sum.y <= boids@.len() * 0x8000_0000,
{
    let n: usize = boids.len();
    let mut x: i128 = 0;
    let mut y: i128 = 0;
    let mut i: usize = 0;
    while i < n
        invariant
            i <= n,
            n == boids@.len(),
            n <= 0xffff_ffff_ffff_ffff,
            x == sum_of(boids@.take(i as int)).x,
            y == sum_of(boids@.take(i as int)).y,
            -(i * 0x8000_0000) <= x <= i * 0x8000_0000,
            -(i * 0x8000_0000) <= y <= i * 0x8000_0000,
        decreases n - i,
    {
        proof {
            assert(boids@.take(i + 1).drop_last() =~= boids@.take(i as int));
        }
        x = x + boids[i].x as i128;
        y = y + boids[i].y as i128;
        i += 1;
    }
    proof {
        assert(boids@.take(n as int) =~= boids@);
    }
    Pull { x, y }
}

/// The direction in which `this` is drawn to `boids`: towards their centroid.
/// Nothing pulls where there are no boids or their centroid is `this`.
pub fn cohesion(this: &Vec2, boids: &Vec<Vec2>) -> (pull: Pull)
    ensures
        pull@ == cohesion_pull(this@, boids@),
{
    let sum: Pull = sum_positions(boids);
    let n: i128 = boids.len() as i128;
    proof {
        lemma_product_bound(n as int, this.x as int, 0x1_0000_0000_0000_0000, 0x8000_0000);
        lemma_product_bound(n as int, this.y as int, 0x1_0000_0000_0000_0000, 0x8000_0000);
    }
    Pull { x: sum.x - n * (this.x as i128), y: sum.y - n * (this.y as i128) }
}

/// The direction in which `this` is driven from `boids`: away from their
/// centroid. Nothing pushes where there are no boids or their centroid is
/// `this`.
pub fn separation(this: &Vec2, boids: &Vec<Vec2>) -> (pull: Pull)
    ensures
        pull@ == separation_pull(this@, boids@),
{
    let sum: Pull = sum_positions(boids);
    let n: i128 = boids.len() as i128;
    proof {
        lemma_product_bound(n as int, this.x as int, 0x1_0000_0000_0000_0000, 0x8000_0000);
        lemma_product_bound(n as int, this.y as int, 0x1_0000_0000_0000_0000, 0x8000_0000);
    }
    Pull { x: n * (this.x as i128) - sum.x, y: n * (this.y as i128) - sum.y }
}

/// The signed turn from `forward` to `desired`, given the angle between them.
pub fn signed_turn(forward: &Vec2, desired: &Pull, angle_between: u32) -> (turn: i64)
    ensures
        turn == signed_angle(forward@, desired@, angle_between as int),
{
    if desired.is_zero() {
        0
    } else if forward.cross_is_positive(desired) {
        angle_between as i64
    } else {
        -(angle_between as i64)
    }
}

/// The rate at which to turn: the mean of the turn to `cohesion` and the turn
/// to `separation`.
pub fn combined_turn(
    forward: &Vec2,
    cohesion: &Pull,
    separation: &Pull,
    bearing: &Bearing,
) -> (rate: i64)
    ensures
        rate == turn_rate(forward@, cohesion@, separation@, *bearing),
{
    let cohesion_angle: i64 = signed_turn(forward, cohesion, bearing.cohesion_angle);
    let separation_angle: i64 = signed_turn(forward, separation, bearing.separation_angle);
    (cohesion_angle + separation_angle) / 2
}

/// Whether the flock has an agent or a pseudo-agent called `id`.
pub open spec fn knows(agents: Seq<Agent>, pseudo: Seq<PseudoBoid>, id: u64) -> bool {
    has_agent(agents, id) || has_pseudo(pseudo, id)
}

/// Whether each of `ids` names something in the flock.
pub open spec fn all_known(agents: Seq<Agent>, pseudo: Seq<PseudoBoid>, ids: Seq<u64>) -> bool {
    forall|k: int| 0 <= k < ids.len() ==> knows(agents, pseudo, #[trigger] ids[k])
}

/// Where the entity called `id` is; the origin where nothing is called so.
pub open spec fn place_of(agents: Seq<Agent>, pseudo: Seq<PseudoBoid>, id: u64) -> Vec2 {
    match position_of(agents, pseudo, id) {
        Some(place) => place,
        None => Vec2 { x: 0, y: 0 },
    }
}

/// Where the entities called `ids` are, one by one.
pub open spec fn positions_of(agents: Seq<Agent>, pseudo: Seq<PseudoBoid>, ids: Seq<u64>) -> Seq<
    Vec2,
> {
    ids.map_values(|id: u64| place_of(agents, pseudo, id))
}

/// Whether `owner`'s list of neighbours, or of those too close, holds `id`.
pub open spec fn listed(data: SensoryData, owner: u64, id: u64) -> bool {
    ||| data.neighbors_of(owner) matches Some(ids) && ids.contains(id)
    ||| data.too_close_of(owner) matches Some(ids) && ids.contains(id)
}

/// Whether `data` has all that planning for `me` needs: both of its lists,
/// with nothing on them that the flock does not know.
pub open spec fn plannable_for(
    agents: Seq<Agent>,
    pseudo: Seq<PseudoBoid>,
    data: SensoryData,
    me: Agent,
) -> bool {
    &&& data.neighbors_of(me.id) matches Some(ids) && all_known(agents, pseudo, ids)
    &&& data.too_close_of(me.id) matches Some(ids) && all_known(agents, pseudo, ids)
}

/// Whether `data` has all that planning needs, for every agent.
pub open spec fn plannable(
    agents: Seq<Agent>,
    pseudo: Seq<PseudoBoid>,
    data: SensoryData,
) -> bool {
    forall|i: int|
        0 <= i < agents.len() ==> plannable_for(agents, pseudo, data, #[trigger] agents[i])
}

/// Whether `id` is one of the names that keep planning for `me` from going
/// through: `me` itself where a list of it is missing, or an unknown name on
/// one of its lists.
pub open spec fn unplannable_by(
    agents: Seq<Agent>,
    pseudo: Seq<PseudoBoid>,
    data: SensoryData,
    me: Agent,
    id: u64,
) -> bool {
    ||| id == me.id && (data.neighbors_of(id) is None || data.too_close_of(id) is None)
    ||| !knows(agents, pseudo, id) && listed(data, me.id, id)
}

/// The pull of cohesion on `me`, by the neighbours that `data` lists for it.
pub open spec fn planned_cohesion(
    agents: Seq<Agent>,
    pseudo: Seq<PseudoBoid>,
    data: SensoryData,
    me: Agent,
) -> Vector {
    cohesion_pull(me.position@, positions_of(agents, pseudo, data.neighbors_of(me.id).unwrap()))
}

/// The pull of separation on `me`, by those that `data` lists as too close.
pub open spec fn planned_separation(
    agents: Seq<Agent>,
    pseudo: Seq<PseudoBoid>,
    data: SensoryData,
    me: Agent,
) -> Vector {
    separation_pull(me.position@, positions_of(agents, pseudo, data.too_close_of(me.id).unwrap()))
}

/// What the host is to measure for one agent: the angles between `forward`
/// and each of the two pulls.
#[derive(Clone, Copy, Debug, PartialEq, Eq, Structural)]
pub struct Steering {
    pub id: u64,
    pub forward: Vec2,
    pub cohesion: Pull,
    pub separation: Pull,
}

/// Whether `steering` is what planning gives for `me`.
pub open spec fn steers(
    steering: Steering,
    agents: Seq<Agent>,
    pseudo: Seq<PseudoBoid>,
    data: SensoryData,
    me: Agent,
) -> bool {
    &&& steering.id == me.id
    &&& steering.forward == me.forward
    &&& steering.cohesion@ == planned_cohesion(agents, pseudo, data, me)
    &&& steering.separation@ == planned_separation(agents, pseudo, data, me)
}

/// Looks up where each of `ids` is.
fn resolve(flock: &Flock, ids: &Vec<u64>) -> (r: Result<Vec<Vec2>, FlockError>)
    ensures
        match r {
            Ok(places) => {
                &&& all_known(flock.agents(), flock.pseudo_agents(), ids@)
                &&& places@ == positions_of(flock.agents(), flock.pseudo_agents(), ids@)
            },
            Err(e) => exists|k: int|
                {
                    &&& 0 <= k < ids@.len()
                    &&& !knows(flock.agents(), flock.pseudo_agents(), #[trigger] ids@[k])
                    &&& e == FlockError::AgentNotFound(ids@[k])
                },
        },
{
    let mut places: Vec<Vec2> = Vec::new();
    let n: usize = ids.len();
    let mut k: usize = 0;
    while k < n
        invariant
            k <= n,
            n == ids@.len(),
            all_known(flock.agents(), flock.pseudo_agents(), ids@.take(k as int)),
            places@ == positions_of(flock.agents(), flock.pseudo_agents(), ids@.take(k as int)),
        decreases n - k,
    {
        let id: u64 = ids[k];
        match flock.locate(id) {
            Some(place) => {
                proof {
                    assert(ids@.take(k + 1) =~= ids@.take(k as int).push(id));
                }
                places.push(place);
            },
            None => {
                assert(ids@[k as int] == id);
                return Err(FlockError::AgentNotFound(id));
            },
        }
        k += 1;
    }
    proof {
        assert(ids@.take(n as int) =~= ids@);
    }
    Ok(places)
}

/// Plans for one agent: resolves what it senses and works out the two pulls.
fn plan_one(flock: &Flock, data: &SensoryData, me: &Agent) -> (r: Result<Steering, FlockError>)
    ensures
        match r {
            Ok(steering) => {
                &&& plannable_for(flock.agents(), flock.pseudo_agents(), *data, *me)
                &&& steers(steering, flock.agents(), flock.pseudo_agents(), *data, *me)
            },
            Err(e) => exists|id: u64|
                {
                    &&& e == FlockError::AgentNotFound(id)
                    &&& #[trigger] unplannable_by(
                        flock.agents(),
                        flock.pseudo_agents(),
                        *data,
                        *me,
                        id,
                    )
                },
        },
{
    let neighbor_ids: &Vec<u64> = match data.neighbors(me.id) {
        Some(ids) => ids,
        None => {
            assert(unplannable_by(flock.agents(), flock.pseudo_agents(), *data, *me, me.id));
            return Err(FlockError::AgentNotFound(me.id));
        },
    };
    let too_close_ids: &Vec<u64> = match data.too_close(me.id) {
        Some(ids) => ids,
        None => {
            assert(unplannable_by(flock.agents(), flock.pseudo_agents(), *data, *me, me.id));
            return Err(FlockError::AgentNotFound(me.id));
        },
    };
    let neighbors: Vec<Vec2> = match resolve(flock, neighbor_ids) {
        Ok(places) => places,
        Err(e) => {
            proof {
                let k = choose|k: int|
                    {
                        &&& 0 <= k < neighbor_ids@.len()
                        &&& !knows(
                            flock.agents(),
                            flock.pseudo_agents(),
                            #[trigger] neighbor_ids@[k],
                        )
                        &&& e == FlockError::AgentNotFound(neighbor_ids@[k])
                    };
                assert(neighbor_ids@.contains(neighbor_ids@[k]));
                assert(unplannable_by(
                    flock.agents(),
                    flock.pseudo_agents(),
                    *data,
                    *me,
                    neighbor_ids@[k],
                ));
            }
            return Err(e);
        },
    };
    let too_close: Vec<Vec2> = match resolve(flock, too_close_ids) {
        Ok(places) => places,
        Err(e) => {
            proof {
                let k = choose|k: int|
                    {
                        &&& 0 <= k < too_close_ids@.len()
                        &&& !knows(
                            flock.agents(),
                            flock.pseudo_agents(),
                            #[trigger] too_close_ids@[k],
                        )
                        &&& e == FlockError::AgentNotFound(too_close_ids@[k])
                    };
                assert(too_close_ids@.contains(too_close_ids@[k]));
                assert(unplannable_by(
                    flock.agents(),
                    flock.pseudo_agents(),
                    *data,
                    *me,
                    too_close_ids@[k],
                ));
            }
            return Err(e);
        },
    };
    Ok(
        Steering {
            id: me.id,
            forward: me.forward,
            cohesion: cohesion(&me.position, &neighbors),
            separation: separation(&me.position, &too_close),
        },
    )
}

/// An agent for which planning fails keeps all of it from going through.
pub proof fn lemma_unplannable(
    agents: Seq<Agent>,
    pseudo: Seq<PseudoBoid>,
    data: SensoryData,
    me: Agent,
    id: u64,
)
    requires
        unplannable_by(agents, pseudo, data, me, id),
    ensures
        !plannable_for(agents, pseudo, data, me),
{
    if plannable_for(agents, pseudo, data, me) {
        let near = data.neighbors_of(me.id).unwrap();
        let close = data.too_close_of(me.id).unwrap();
        if near.contains(id) {
            let k = choose|k: int| 0 <= k < near.len() && near[k] == id;
            assert(knows(agents, pseudo, near[k]));
        }
        if close.contains(id) {
            let k = choose|k: int| 0 <= k < close.len() && close[k] == id;
            assert(knows(agents, pseudo, close[k]));
        }
    }
}

/// Works out, for every agent, the directions in which cohesion and
/// separation pull it. It fails where `data` leaves an agent out, or names
/// what the flock does not know.
pub fn boid_steering(flock: &Flock, data: &SensoryData) -> (r: Result<Vec<Steering>, FlockError>)
    ensures
        r is Ok <==> plannable(flock.agents(), flock.pseudo_agents(), *data),
        match r {
            Ok(plan) => {
                &&& plan@.len() == flock.agents().len()
                &&& forall|i: int|
                    0 <= i < plan@.len() ==> steers(
                        #[trigger] plan@[i],
                        flock.agents(),
                        flock.pseudo_agents(),
                        *data,
                        flock.agents()[i],
                    )
            },
            Err(e) => exists|i: int, id: u64|
                {
                    &&& 0 <= i < flock.agents().len()
                    &&& e == FlockError::AgentNotFound(id)
                    &&& #[trigger] unplannable_by(
                        flock.agents(),
                        flock.pseudo_agents(),
                        *data,
                        flock.agents()[i],
                        id,
                    )
                },
        },
{
    let agents: &Vec<Agent> = flock.agent_list();
    let mut plan: Vec<Steering> = Vec::new();
    let n: usize = agents.len();
    let mut i: usize = 0;
    while i < n
        invariant
            i <= n,
            n == agents@.len(),
            agents@ == flock.agents(),
            plan@.len() == i,
            forall|h: int|
                0 <= h < i ==> plannable_for(
                    flock.agents(),
                    flock.pseudo_agents(),
                    *data,
                    #[trigger] agents@[h],
                ),
            forall|h: int|
                0 <= h < i ==> steers(
                    #[trigger] plan@[h],
                    flock.agents(),
                    flock.pseudo_agents(),
                    *data,
                    agents@[h],
                ),
        decreases n - i,
    {
        match plan_one(flock, data, &agents[i]) {
            Ok(steering) => {
                plan.push(steering);
            },
            Err(e) => {
                proof {
                    let id = choose|id: u64|
                        {
                            &&& e == FlockError::AgentNotFound(id)
                            &&& #[trigger] unplannable_by(
                                flock.agents(),
                                flock.pseudo_agents(),
                                *data,
                                agents@[i as int],
                                id,
                            )
                        };
                    lemma_unplannable(
                        flock.agents(),
                        flock.pseudo_agents(),
                        *data,
                        agents@[i as int],
                        id,
                    );
                }
                return Err(e);
            },
        }
        i += 1;
    }
    Ok(plan)
}

/// Whether the host has measured every agent.
pub open spec fn measured(agents: Seq<Agent>, bearings: Map<u64, Bearing>) -> bool {
    forall|i: int| 0 <= i < agents.len() ==> bearings.contains_key((#[trigger] agents[i]).id)
}

/// The rate at which `me` is to turn, by what `data` lists for it and where
/// those are, given the angles that the host measured.
pub open spec fn planned_turn(
    agents: Seq<Agent>,
    pseudo: Seq<PseudoBoid>,
    data: SensoryData,
    me: Agent,
    bearing: Bearing,
) -> int {
    turn_rate(
        me.forward@,
        planned_cohesion(agents, pseudo, data, me),
        planned_separation(agents, pseudo, data, me),
        bearing,
    )
}

/// Whether `id` is one of the names that keep control of `me` from going
/// through: one that stops planning for it, or `me` itself where the host
/// has not measured it.
pub open spec fn uncontrollable_by(
    agents: Seq<Agent>,
    pseudo: Seq<PseudoBoid>,
    data: SensoryData,
    bearings: Map<u64, Bearing>,
    me: Agent,
    id: u64,
) -> bool {
    ||| unplannable_by(agents, pseudo, data, me, id)
    ||| id == me.id && !bearings.contains_key(id)
}

/// The agent with `rate` for its angular speed.
pub open spec fn steered(agent: Agent, rate: i64) -> Agent {
    Agent { angular_speed: rate, ..agent }
}

/// Whether `after` is `before` but for its angular speed, which is `rate`.
pub open spec fn turns_at(before: Agent, after: Agent, rate: int) -> bool {
    &&& after.angular_speed == rate
    &&& after == steered(before, after.angular_speed)
}

/// Sets every agent's angular speed to the rate that its surroundings call
/// for. The old speed plays no part in the new one. Every rate is worked out
/// before any is written; where one cannot be, none is written.
pub fn boid_control(
    flock: &mut Flock,
    data: &SensoryData,
    bearings: &HashMap<u64, Bearing>,
) -> (r: Result<(), FlockError>)
    ensures
        final(flock).pseudo_agents() == old(flock).pseudo_agents(),
        final(flock).agents().len() == old(flock).agents().len(),
        r is Ok <==> plannable(old(flock).agents(), old(flock).pseudo_agents(), *data) && measured(
            old(flock).agents(),
            bearings@,
        ),
        match r {
            Ok(()) => forall|i: int|
                0 <= i < old(flock).agents().len() ==> turns_at(
                    old(flock).agents()[i],
                    #[trigger] final(flock).agents()[i],
                    planned_turn(
                        old(flock).agents(),
                        old(flock).pseudo_agents(),
                        *data,
                        old(flock).agents()[i],
                        bearings@[old(flock).agents()[i].id],
                    ),
                ),
            Err(e) => {
                &&& final(flock).agents() == old(flock).agents()
                &&& exists|i: int, id: u64|
                    {
                        &&& 0 <= i < old(flock).agents().len()
                        &&& e == FlockError::AgentNotFound(id)
                        &&& #[trigger] uncontrollable_by(
                            old(flock).agents(),
                            old(flock).pseudo_agents(),
                            *data,
                            bearings@,
                            old(flock).agents()[i],
                            id,
                        )
                    }
            },
        },
{
    let ghost before = flock.agents();
    let ghost pseudo = flock.pseudo_agents();
    let mut rates: Vec<i64> = Vec::new();
    let n: usize = flock.agent_list().len();
    let mut i: usize = 0;
    while i < n
        invariant
            i <= n,
            n == before.len(),
            flock.agents() == before,
            flock.pseudo_agents() == pseudo,
            *flock == *old(flock),
            rates@.len() == i,
            forall|h: int|
                0 <= h < i ==> plannable_for(before, pseudo, *data, #[trigger] before[h]),
            forall|h: int| 0 <= h < i ==> bearings@.contains_key((#[trigger] before[h]).id),
            forall|h: int|
                0 <= h < i ==> (#[trigger] rates@[h]) == planned_turn(
                    before,
                    pseudo,
                    *data,
                    before[h],
                    bearings@[before[h].id],
                ),
        decreases n - i,
    {
        let me: &Agent = &flock.agent_list()[i];
        let steering: Steering = match plan_one(flock, data, me) {
            Ok(steering) => steering,
            Err(e) => {
                proof {
                    let id = choose|id: u64|
                        {
                            &&& e == FlockError::AgentNotFound(id)
                            &&& #[trigger] unplannable_by(
                                before,
                                pseudo,
                                *data,
                                before[i as int],
                                id,
                            )
                        };
                    lemma_unplannable(before, pseudo, *data, before[i as int], id);
                    assert(uncontrollable_by(
                        before,
                        pseudo,
                        *data,
                        bearings@,
                        before[i as int],
                        id,
                    ));
                }
                return Err(e);
            },
        };
        let bearing: &Bearing = match bearings.get(&me.id) {
            Some(bearing) => bearing,
            None => {
                proof {
                    assert(uncontrollable_by(
                        before,
                        pseudo,
                        *data,
                        bearings@,
                        before[i as int],
                        me.id,
                    ));
                }
                return Err(FlockError::AgentNotFound(me.id));
            },
        };
        let rate: i64 = combined_turn(
            &steering.forward,
            &steering.cohesion,
            &steering.separation,
            bearing,
        );
        rates.push(rate);
        i += 1;
    }
    let mut agents: Vec<Agent> = flock.take_agents();
    let mut i: usize = 0;
    while i < n
        invariant
            i <= n,
            n == before.len(),
            n == agents@.len(),
            n == rates@.len(),
            forall|h: int|
                0 <= h < i ==> turns_at(before[h], #[trigger] agents@[h], rates@[h] as int),
            forall|h: int| i <= h < n ==> #[trigger] agents@[h] == before[h],
            well_formed(before, pseudo),
        decreases n - i,
    {
        let agent: Agent = agents[i];
        agents.set(i, Agent { angular_speed: rates[i], ..agent });
        i += 1;
    }
    proof {
        assert forall|h: int| 0 <= h < n implies (#[trigger] agents@[h]).valid() by {
            assert(before[h].valid());
        }
        assert forall|h: int| 0 <= h < n implies (#[trigger] agents@[h]).id == before[h].id by {}
    }
    flock.replace_agents(agents);
    Ok(())
}

} // verus!
