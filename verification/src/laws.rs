//! What holds of sensing, steering and motion taken together.

use crate::agent::{Agent, PseudoBoid};
use crate::flock::has_pseudo;
use crate::motion::turned;
use crate::sensing::{
    agents_in_reach, lemma_reach_push, pseudo_ids, sensed_ids, senses, SensoryData,
};
use crate::steering::{
    all_known, cohesion_pull, half_sum, knows, place_of, plannable, plannable_for,
    planned_cohesion, planned_separation, planned_turn, positions_of, separation_pull,
    signed_angle, steered, sum_of, turn_rate, Bearing,
};
use crate::vector::{Vec2, Vector};
use vstd::prelude::*;

verus! {

/// An agent senses exactly the agents that it `senses` within the radius,
/// and every pseudo-agent.
pub proof fn lemma_sensed_membership(
    agents: Seq<Agent>,
    pseudo: Seq<PseudoBoid>,
    me: Agent,
    radius: int,
    include_self: bool,
    id: u64,
)
    ensures
        sensed_ids(agents, pseudo, me, radius, include_self).contains(id) <==> {
            ||| exists|j: int|
                0 <= j < agents.len() && (#[trigger] agents[j]).id == id && senses(
                    me,
                    agents[j],
                    radius,
                    include_self,
                )
            ||| has_pseudo(pseudo, id)
        },
{
    let pred = |other: Agent| senses(me, other, radius, include_self);
    let kept = agents.filter(pred);
    let near = agents_in_reach(agents, me, radius, include_self);
    let far = pseudo_ids(pseudo);
    let all = sensed_ids(agents, pseudo, me, radius, include_self);
    assert(near.len() == kept.len());
    if all.contains(id) {
        let k = choose|k: int| 0 <= k < all.len() && all[k] == id;
        if k < near.len() {
            agents.lemma_filter_pred(pred, k);
            assert(kept.contains(kept[k]));
            agents.lemma_filter_contains_rev(pred, kept[k]);
            let j = choose|j: int| 0 <= j < agents.len() && agents[j] == kept[k];
            assert(agents[j].id == id && senses(me, agents[j], radius, include_self));
        } else {
            assert(pseudo[k - near.len()].id == id);
        }
    }
    if exists|j: int|
        0 <= j < agents.len() && (#[trigger] agents[j]).id == id && senses(
            me,
            agents[j],
            radius,
            include_self,
        ) {
        let j = choose|j: int|
            0 <= j < agents.len() && (#[trigger] agents[j]).id == id && senses(
                me,
                agents[j],
                radius,
                include_self,
            );
        agents.lemma_filter_contains(pred, j);
        let k = choose|k: int| 0 <= k < kept.len() && kept[k] == agents[j];
        assert(all[k] == id);
    }
    if has_pseudo(pseudo, id) {
        let k = choose|k: int| 0 <= k < pseudo.len() && #[trigger] pseudo[k].id == id;
        assert(all[near.len() + k] == id);
    }
}

/// Every agent has every pseudo-agent among its neighbours and among those
/// too close to it, wherever the two are and whatever the radii.
pub proof fn lemma_pseudo_agents_always_sensed(
    data: SensoryData,
    agents: Seq<Agent>,
    pseudo: Seq<PseudoBoid>,
    include_self: bool,
    i: int,
    k: int,
)
    requires
        data.is_sensing_of(agents, pseudo, include_self),
        0 <= i < agents.len(),
        0 <= k < pseudo.len(),
    ensures
        data.neighbors_of(agents[i].id) matches Some(ids) && ids.contains(pseudo[k].id),
        data.too_close_of(agents[i].id) matches Some(ids) && ids.contains(pseudo[k].id),
{
    let me = agents[i];
    assert(has_pseudo(pseudo, pseudo[k].id));
    lemma_sensed_membership(
        agents,
        pseudo,
        me,
        me.boid.neighbor_radius as int,
        include_self,
        pseudo[k].id,
    );
    lemma_sensed_membership(
        agents,
        pseudo,
        me,
        me.boid.personal_radius as int,
        include_self,
        pseudo[k].id,
    );
}

/// The rim of a radius belongs to it: another agent at the distance `d` is
/// sensed within `radius` exactly where `d <= radius`.
pub proof fn lemma_boundary_inclusive(
    me: Agent,
    other: Agent,
    d: int,
    radius: int,
    include_self: bool,
)
    requires
        d >= 0,
        me.position@.minus(other.position@).norm_sq() == d * d,
        include_self || other.id != me.id,
    ensures
        senses(me, other, radius, include_self) <==> d <= radius,
{
    if radius >= 0 {
        assert(d * d <= radius * radius <==> d <= radius) by (nonlinear_arith)
            requires
                d >= 0,
                radius >= 0,
        ;
    }
}

/// What sensing finds in a flock, planning can work with: it names nothing
/// that the flock does not know, and leaves no agent out.
pub proof fn lemma_sensing_is_plannable(
    data: SensoryData,
    agents: Seq<Agent>,
    pseudo: Seq<PseudoBoid>,
    include_self: bool,
)
    requires
        data.is_sensing_of(agents, pseudo, include_self),
    ensures
        plannable(agents, pseudo, data),
{
    assert forall|i: int| 0 <= i < agents.len() implies plannable_for(
        agents,
        pseudo,
        data,
        #[trigger] agents[i],
    ) by {
        let me = agents[i];
        let near = sensed_ids(agents, pseudo, me, me.boid.neighbor_radius as int, include_self);
        let close = sensed_ids(agents, pseudo, me, me.boid.personal_radius as int, include_self);
        assert(data.neighbors_of(me.id) == Some(near));
        assert(data.too_close_of(me.id) == Some(close));
        assert forall|k: int| 0 <= k < near.len() implies knows(
            agents,
            pseudo,
            #[trigger] near[k],
        ) by {
            assert(near.contains(near[k]));
            lemma_sensed_membership(
                agents,
                pseudo,
                me,
                me.boid.neighbor_radius as int,
                include_self,
                near[k],
            );
        }
        assert forall|k: int| 0 <= k < close.len() implies knows(
            agents,
            pseudo,
            #[trigger] close[k],
        ) by {
            assert(close.contains(close[k]));
            lemma_sensed_membership(
                agents,
                pseudo,
                me,
                me.boid.personal_radius as int,
                include_self,
                close[k],
            );
        }
        assert(all_known(agents, pseudo, near));
        assert(all_known(agents, pseudo, close));
    }
}

/// Positions that are all one position sum to so many times that position.
pub proof fn lemma_sum_of_copies(this: Vec2, boids: Seq<Vec2>)
    requires
        forall|i: int| 0 <= i < boids.len() ==> boids[i] == this,
    ensures
        sum_of(boids) == this@.scaled(boids.len() as int),
    decreases boids.len(),
{
    if boids.len() > 0 {
        lemma_sum_of_copies(this, boids.drop_last());
        let n = boids.len() as int;
        let x = this.x as int;
        let y = this.y as int;
        assert((n - 1) * x + x == n * x) by (nonlinear_arith);
        assert((n - 1) * y + y == n * y) by (nonlinear_arith);
        assert(boids.last() == this);
    }
}

/// Boids that sit exactly where an agent is neither draw it nor drive it
/// away: both pulls are zero, and so is the turn, whatever was measured.
pub proof fn lemma_coincident_no_pull(
    this: Vec2,
    boids: Seq<Vec2>,
    forward: Vector,
    bearing: Bearing,
)
    requires
        forall|i: int| 0 <= i < boids.len() ==> boids[i] == this,
    ensures
        cohesion_pull(this@, boids).is_zero(),
        separation_pull(this@, boids).is_zero(),
        turn_rate(forward, cohesion_pull(this@, boids), separation_pull(this@, boids), bearing)
            == 0,
{
    lemma_sum_of_copies(this, boids);
}

/// An agent that is alone in its flock does not turn: its angular speed is
/// set to zero at every tick, and its heading stays as it is.
pub proof fn lemma_lone_agent_goes_straight(
    data: SensoryData,
    agents: Seq<Agent>,
    pseudo: Seq<PseudoBoid>,
    include_self: bool,
    bearing: Bearing,
    dt: int,
)
    requires
        agents.len() == 1,
        pseudo.len() == 0,
        data.is_sensing_of(agents, pseudo, include_self),
    ensures
        plannable(agents, pseudo, data),
        planned_turn(agents, pseudo, data, agents[0], bearing) == 0,
        turned(steered(agents[0], 0), dt).heading == agents[0].heading,
{
    let me = agents[0];
    lemma_sensing_is_plannable(data, agents, pseudo, include_self);
    let near = sensed_ids(agents, pseudo, me, me.boid.neighbor_radius as int, include_self);
    let close = sensed_ids(agents, pseudo, me, me.boid.personal_radius as int, include_self);
    assert(data.neighbors_of(me.id) == Some(near));
    assert(data.too_close_of(me.id) == Some(close));
    assert forall|k: int| 0 <= k < near.len() implies positions_of(agents, pseudo, near)[k]
        == me.position by {
        assert(near.contains(near[k]));
        lemma_sensed_membership(
            agents,
            pseudo,
            me,
            me.boid.neighbor_radius as int,
            include_self,
            near[k],
        );
        assert(place_of(agents, pseudo, me.id) == me.position);
    }
    assert forall|k: int| 0 <= k < close.len() implies positions_of(agents, pseudo, close)[k]
        == me.position by {
        assert(close.contains(close[k]));
        lemma_sensed_membership(
            agents,
            pseudo,
            me,
            me.boid.personal_radius as int,
            include_self,
            close[k],
        );
        assert(place_of(agents, pseudo, me.id) == me.position);
    }
    lemma_sum_of_copies(me.position, positions_of(agents, pseudo, near));
    lemma_sum_of_copies(me.position, positions_of(agents, pseudo, close));
}

/// Mirrored positions sum to the mirror image of the sum.
pub proof fn lemma_mirror_sum(left: Seq<Vec2>, right: Seq<Vec2>)
    requires
        left.len() == right.len(),
        forall|i: int| 0 <= i < left.len() ==> right[i]@ == left[i]@.mirrored(),
    ensures
        sum_of(right) == sum_of(left).mirrored(),
    decreases left.len(),
{
    if left.len() > 0 {
        lemma_mirror_sum(left.drop_last(), right.drop_last());
        assert(right.last()@ == left.last()@.mirrored());
    }
}

/// Where an agent and what it senses are mirrored, so are the pulls on it.
pub proof fn lemma_mirror_pulls(this: Vector, boids: Seq<Vec2>, image: Vector, images: Seq<Vec2>)
    requires
        image == this.mirrored(),
        images.len() == boids.len(),
        sum_of(images) == sum_of(boids).mirrored(),
    ensures
        cohesion_pull(image, images) == cohesion_pull(this, boids).mirrored(),
        separation_pull(image, images) == separation_pull(this, boids).mirrored(),
{
    let n = boids.len() as int;
    let x = this.x;
    assert(n * (-x) == -(n * x)) by (nonlinear_arith);
}

/// A mirrored agent under mirrored pulls turns at the opposite rate, where
/// the same angles were measured for both. Left out are the pulls that point
/// straight ahead or straight behind at a measured angle other than zero:
/// there, both agents turn the same way.
pub proof fn lemma_mirror_turns_opposite(
    forward: Vector,
    cohesion: Vector,
    separation: Vector,
    bearing: Bearing,
)
    requires
        cohesion.is_zero() || forward.cross(cohesion) != 0 || bearing.cohesion_angle == 0,
        separation.is_zero() || forward.cross(separation) != 0 || bearing.separation_angle == 0,
    ensures
        turn_rate(forward.mirrored(), cohesion.mirrored(), separation.mirrored(), bearing)
            == -turn_rate(forward, cohesion, separation, bearing),
{
    lemma_mirror_cross(forward, cohesion);
    lemma_mirror_cross(forward, separation);
    let a = signed_angle(forward, cohesion, bearing.cohesion_angle as int);
    let b = signed_angle(forward, separation, bearing.separation_angle as int);
    assert(signed_angle(forward.mirrored(), cohesion.mirrored(), bearing.cohesion_angle as int)
        == -a);
    assert(signed_angle(
        forward.mirrored(),
        separation.mirrored(),
        bearing.separation_angle as int,
    ) == -b);
    assert(half_sum(-a, -b) == -half_sum(a, b));
}

/// A reflection turns the sign of the cross product.
pub proof fn lemma_mirror_cross(a: Vector, b: Vector)
    ensures
        a.mirrored().cross(b.mirrored()) == -a.cross(b),
{
    assert((-a.x) * b.y - a.y * (-b.x) == -(a.x * b.y - a.y * b.x)) by (nonlinear_arith);
}

/// What one of a pair senses within `radius`, written out.
proof fn lemma_reach_of_pair(p: Agent, q: Agent, me: Agent, radius: int, include_self: bool)
    ensures
        agents_in_reach(seq![p, q], me, radius, include_self) == (if senses(
            me,
            p,
            radius,
            include_self,
        ) {
            seq![p.id]
        } else {
            Seq::<u64>::empty()
        }) + (if senses(me, q, radius, include_self) {
            seq![q.id]
        } else {
            Seq::<u64>::empty()
        }),
{
    let none = Seq::<Agent>::empty();
    assert(agents_in_reach(none, me, radius, include_self) =~= Seq::<u64>::empty());
    lemma_reach_push(none, p, me, radius, include_self);
    lemma_reach_push(none.push(p), q, me, radius, include_self);
    assert(none.push(p).push(q) =~= seq![p, q]);
    let first = agents_in_reach(none.push(p), me, radius, include_self);
    assert(first =~= if senses(me, p, radius, include_self) {
        seq![p.id]
    } else {
        Seq::<u64>::empty()
    });
    assert(agents_in_reach(seq![p, q], me, radius, include_self) =~= first + (if senses(
        me,
        q,
        radius,
        include_self,
    ) {
        seq![q.id]
    } else {
        Seq::<u64>::empty()
    }));
}

/// In a flock of two agents that are mirror images of each other, what the
/// one senses within `radius` is the mirror image of what the other senses:
/// as many positions, with the mirrored sum.
proof fn lemma_mirrored_pair_senses_alike(
    agents: Seq<Agent>,
    pseudo: Seq<PseudoBoid>,
    radius: int,
    include_self: bool,
)
    requires
        agents.len() == 2,
        pseudo.len() == 0,
        agents[0].id != agents[1].id,
        agents[1].position@ == agents[0].position@.mirrored(),
    ensures
        ({
            let left = positions_of(
                agents,
                pseudo,
                sensed_ids(agents, pseudo, agents[0], radius, include_self),
            );
            let right = positions_of(
                agents,
                pseudo,
                sensed_ids(agents, pseudo, agents[1], radius, include_self),
            );
            &&& left.len() == right.len()
            &&& sum_of(right) == sum_of(left).mirrored()
        }),
{
    let p = agents[0];
    let q = agents[1];
    assert(agents =~= seq![p, q]);
    lemma_reach_of_pair(p, q, p, radius, include_self);
    lemma_reach_of_pair(p, q, q, radius, include_self);
    let ids_p = sensed_ids(agents, pseudo, p, radius, include_self);
    let ids_q = sensed_ids(agents, pseudo, q, radius, include_self);
    let left = positions_of(agents, pseudo, ids_p);
    let right = positions_of(agents, pseudo, ids_q);
    assert(pseudo_ids(pseudo) =~= Seq::<u64>::empty());
    assert(place_of(agents, pseudo, p.id) == p.position);
    assert(place_of(agents, pseudo, q.id) == q.position);
    let px = p.position.x as int;
    assert((px - (-px)) * (px - (-px)) == ((-px) - px) * ((-px) - px)) by (nonlinear_arith);
    assert(senses(p, q, radius, include_self) == senses(q, p, radius, include_self));
    assert(senses(p, p, radius, include_self) == senses(q, q, radius, include_self));
    reveal_with_fuel(sum_of, 3);
    if senses(p, p, radius, include_self) {
        if senses(p, q, radius, include_self) {
            assert(ids_p =~= seq![p.id, q.id]);
            assert(ids_q =~= seq![p.id, q.id]);
            assert(left =~= seq![p.position, q.position]);
            assert(right =~= seq![p.position, q.position]);
            assert(left.drop_last() =~= seq![p.position]);
            assert(left.drop_last().drop_last() =~= Seq::<Vec2>::empty());
        } else {
            assert(ids_p =~= seq![p.id]);
            assert(ids_q =~= seq![q.id]);
            assert(left =~= seq![p.position]);
            assert(right =~= seq![q.position]);
            assert(left.drop_last() =~= Seq::<Vec2>::empty());
            assert(right.drop_last() =~= Seq::<Vec2>::empty());
        }
    } else {
        if senses(p, q, radius, include_self) {
            assert(ids_p =~= seq![q.id]);
            assert(ids_q =~= seq![p.id]);
            assert(left =~= seq![q.position]);
            assert(right =~= seq![p.position]);
            assert(left.drop_last() =~= Seq::<Vec2>::empty());
            assert(right.drop_last() =~= Seq::<Vec2>::empty());
        } else {
            assert(ids_p =~= Seq::<u64>::empty());
            assert(ids_q =~= Seq::<u64>::empty());
            assert(left =~= Seq::<Vec2>::empty());
            assert(right =~= Seq::<Vec2>::empty());
        }
    }
}

/// Two agents that are mirror images of each other, with the same radii and
/// nothing else around, are set to turn at opposite rates, where the same
/// angles were measured for both. Left out is the pair of which one has a
/// pull straight ahead or straight behind at a measured angle other than
/// zero: there, both turn the same way.
pub proof fn lemma_mirrored_pair_turns_opposite(
    data: SensoryData,
    agents: Seq<Agent>,
    pseudo: Seq<PseudoBoid>,
    include_self: bool,
    bearing: Bearing,
)
    requires
        agents.len() == 2,
        pseudo.len() == 0,
        agents[0].id != agents[1].id,
        data.is_sensing_of(agents, pseudo, include_self),
        agents[1].position@ == agents[0].position@.mirrored(),
        agents[1].forward@ == agents[0].forward@.mirrored(),
        agents[1].boid.neighbor_radius == agents[0].boid.neighbor_radius,
        agents[1].boid.personal_radius == agents[0].boid.personal_radius,
        ({
            let pull = planned_cohesion(agents, pseudo, data, agents[0]);
            pull.is_zero() || agents[0].forward@.cross(pull) != 0 || bearing.cohesion_angle == 0
        }),
        ({
            let pull = planned_separation(agents, pseudo, data, agents[0]);
            pull.is_zero() || agents[0].forward@.cross(pull) != 0 || bearing.separation_angle
                == 0
        }),
    ensures
        planned_turn(agents, pseudo, data, agents[1], bearing) == -planned_turn(
            agents,
            pseudo,
            data,
            agents[0],
            bearing,
        ),
{
    let p = agents[0];
    let q = agents[1];
    let near = p.boid.neighbor_radius as int;
    let close = p.boid.personal_radius as int;
    lemma_mirrored_pair_senses_alike(agents, pseudo, near, include_self);
    lemma_mirrored_pair_senses_alike(agents, pseudo, close, include_self);
    assert(data.neighbors_of(p.id) == Some(sensed_ids(agents, pseudo, p, near, include_self)));
    assert(data.neighbors_of(q.id) == Some(sensed_ids(agents, pseudo, q, near, include_self)));
    assert(data.too_close_of(p.id) == Some(sensed_ids(agents, pseudo, p, close, include_self)));
    assert(data.too_close_of(q.id) == Some(sensed_ids(agents, pseudo, q, close, include_self)));
    lemma_mirror_pulls(
        p.position@,
        positions_of(agents, pseudo, sensed_ids(agents, pseudo, p, near, include_self)),
        q.position@,
        positions_of(agents, pseudo, sensed_ids(agents, pseudo, q, near, include_self)),
    );
    lemma_mirror_pulls(
        p.position@,
        positions_of(agents, pseudo, sensed_ids(agents, pseudo, p, close, include_self)),
        q.position@,
        positions_of(agents, pseudo, sensed_ids(agents, pseudo, q, close, include_self)),
    );
    lemma_mirror_turns_opposite(
        p.forward@,
        planned_cohesion(agents, pseudo, data, p),
        planned_separation(agents, pseudo, data, p),
        bearing,
    );
}

} // verus!
