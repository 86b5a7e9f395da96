//! The tick: sense, plan, then move.
//!
//! A tick has two halves, with the host in between. `boid_plan` senses and
//! works out where each agent is pulled. The host measures the angles between
//! each agent's forward direction and its pulls. `advance` turns the measured
//! angles into angular speeds and carries out the step.

use crate::agent::FlockError;
use crate::flock::Flock;
use crate::laws::lemma_sensing_is_plannable;
use crate::motion::{angular_velocity, moved, turned, velocity};
use crate::sensing::{boid_sense, SensoryData};
use crate::steering::{
    boid_control, boid_steering, measured, plannable, planned_turn, steered, steers,
    uncontrollable_by, Bearing, Steering,
};
use std::collections::HashMap;
use vstd::prelude::*;

verus! {

/// Senses, and plans on what was sensed. Planning on one's own sensing
/// cannot fail.
pub fn boid_plan(flock: &Flock, include_self: bool) -> (planned: (SensoryData, Vec<Steering>))
    ensures
        planned.0.is_sensing_of(flock.agents(), flock.pseudo_agents(), include_self),
        plannable(flock.agents(), flock.pseudo_agents(), planned.0),
        planned.1@.len() == flock.agents().len(),
        forall|i: int|
            0 <= i < planned.1@.len() ==> steers(
                #[trigger] planned.1@[i],
                flock.agents(),
                flock.pseudo_agents(),
                planned.0,
                flock.agents()[i],
            ),
{
    let data: SensoryData = boid_sense(flock, include_self);
    proof {
        lemma_sensing_is_plannable(data, flock.agents(), flock.pseudo_agents(), include_self);
    }
    let plan: Vec<Steering> = match boid_steering(flock, &data) {
        Ok(plan) => plan,
        Err(_) => {
            // never reached: the data is plannable
            assert(false);
            Vec::new()
        },
    };
    (data, plan)
}

/// One tick, from what was sensed and measured to the new poses: every agent
/// gets its new angular speed, then moves and turns for `dt` time units.
/// Where the angular speeds cannot all be worked out, nothing changes.
pub fn advance(
    flock: &mut Flock,
    data: &SensoryData,
    bearings: &HashMap<u64, Bearing>,
    dt: u32,
) -> (r: Result<(), FlockError>)
    ensures
        final(flock).pseudo_agents() == old(flock).pseudo_agents(),
        final(flock).agents().len() == old(flock).agents().len(),
        r is Ok <==> plannable(old(flock).agents(), old(flock).pseudo_agents(), *data) && measured(
            old(flock).agents(),
            bearings@,
        ),
        match r {
            Ok(()) => forall|i: int|
                0 <= i < old(flock).agents().len() ==> {
                    let rate = planned_turn(
                        old(flock).agents(),
                        old(flock).pseudo_agents(),
                        *data,
                        old(flock).agents()[i],
                        bearings@[old(flock).agents()[i].id],
                    );
                    &&& (#[trigger] final(flock).agents()[i]).angular_speed == rate
                    &&& final(flock).agents()[i] == turned(
                        moved(
                            steered(old(flock).agents()[i], final(flock).agents()[i].angular_speed),
                            dt as int,
                        ),
                        dt as int,
                    )
                },
            Err(e) => {
                &&& final(flock).agents() == old(flock).agents()
                &&& exists|i: int, id: u64|
                    {
                        &&& 0 <= i < old(flock).agents().len()
                        &&& e == FlockError::AgentNotFound(id)
                        &&& #[trigger] uncontrollable_by(
                            old(flock).agents(),
                            old(flock).pseudo_agents(),
                            *data,
                            bearings@,
                            old(flock).agents()[i],
                            id,
                        )
                    }
            },
        },
{
    match boid_control(flock, data, bearings) {
        Ok(()) => {},
        Err(e) => {
            return Err(e);
        },
    }
    let ghost steered_agents = flock.agents();
    velocity(flock, dt);
    let ghost moved_agents = flock.agents();
    angular_velocity(flock, dt);
    proof {
        assert forall|i: int| 0 <= i < old(flock).agents().len() implies {
            &&& (#[trigger] flock.agents()[i]).angular_speed == steered_agents[i].angular_speed
            &&& flock.agents()[i] == turned(
                moved(
                    steered(old(flock).agents()[i], flock.agents()[i].angular_speed),
                    dt as int,
                ),
                dt as int,
            )
        } by {
            assert(moved_agents[i] == moved(steered_agents[i], dt as int));
            assert(flock.agents()[i] == turned(moved_agents[i], dt as int));
        }
    }
    Ok(())
}

} // verus!
