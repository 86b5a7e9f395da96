//! Motion: one explicit Euler step of position and of heading.

use crate::agent::{Agent, FORWARD_ONE, TICKS_PER_SECOND};
use crate::flock::Flock;
use crate::vector::{lemma_product_bound, Vec2};
use vstd::prelude::*;

verus! {

/// `n / d` rounded towards zero, for a positive `d`.
pub open spec fn quotient(n: int, d: int) -> int {
    if n >= 0 {
        n / d
    } else {
        -((-n) / d)
    }
}

/// The coordinate nearest to `v` that a position can hold.
pub open spec fn clamped(v: int) -> int {
    if v < i32::MIN {
        i32::MIN as int
    } else if v > i32::MAX {
        i32::MAX as int
    } else {
        v
    }
}

/// How far an agent gets along one axis in `dt` time units, at `speed` and
/// facing `forward` along that axis.
pub open spec fn displacement(speed: int, forward: int, dt: int) -> int {
    quotient(dt * speed * forward, TICKS_PER_SECOND * FORWARD_ONE)
}

/// One coordinate of an agent after `dt` time units of going straight on at
/// `speed`, facing `forward` along that axis. It stops at the edge of what a
/// position can hold.
pub open spec fn moved_coordinate(coordinate: i32, speed: i64, forward: i32, dt: int) -> int {
    clamped(coordinate + displacement(speed as int, forward as int, dt))
}

/// Where an agent is after `dt` time units of going straight on.
pub open spec fn moved_position(agent: Agent, dt: int) -> Vec2 {
    Vec2 {
        x: moved_coordinate(agent.position.x, agent.linear_speed, agent.forward.x, dt) as i32,
        y: moved_coordinate(agent.position.y, agent.linear_speed, agent.forward.y, dt) as i32,
    }
}

/// The agent after `dt` time units of going straight on.
pub open spec fn moved(agent: Agent, dt: int) -> Agent {
    Agent { position: moved_position(agent, dt), ..agent }
}

/// The heading of an agent after `dt` time units of turning at its angular
/// speed. Headings wrap at the full turn.
pub open spec fn turned_heading(agent: Agent, dt: int) -> int {
    (agent.heading + quotient(agent.angular_speed * dt, TICKS_PER_SECOND as int)) % 0x1_0000_0000
}

/// The agent after `dt` time units of turning.
pub open spec fn turned(agent: Agent, dt: int) -> Agent {
    Agent { heading: turned_heading(agent, dt) as u32, ..agent }
}

/// One coordinate after the step.
fn advance_coordinate(coordinate: i32, speed: i64, forward: i32, dt: u32) -> (r: i32)
    ensures
        r == moved_coordinate(coordinate, speed, forward, dt as int),
{
    proof {
        lemma_product_bound(dt as int, speed as int, 0x1_0000_0000, 0x8000_0000_0000_0000);
    }
    let run: i128 = (dt as i128) * (speed as i128);
    proof {
        lemma_product_bound(
            run as int,
            forward as int,
            0x8000_0000_0000_0000_0000_0000,
            0x8000_0000,
        );
    }
    let scaled: i128 = run * (forward as i128);
    let scale: i128 = 1_073_741_824_000_000;
    assert(scale == TICKS_PER_SECOND * FORWARD_ONE) by (nonlinear_arith)
        requires
            scale == 1_073_741_824_000_000,
            TICKS_PER_SECOND == 1_000_000,
            FORWARD_ONE == 0x4000_0000,
    ;
    let step: i128 = scaled / scale;
    let target: i128 = coordinate as i128 + step;
    if target < i32::MIN as i128 {
        i32::MIN
    } else if target > i32::MAX as i128 {
        i32::MAX
    } else {
        target as i32
    }
}

/// The agent moved along its forward direction for `dt` time units.
pub fn move_agent(agent: &Agent, dt: u32) -> (r: Agent)
    ensures
        r == moved(*agent, dt as int),
{
    let x: i32 = advance_coordinate(agent.position.x, agent.linear_speed, agent.forward.x, dt);
    let y: i32 = advance_coordinate(agent.position.y, agent.linear_speed, agent.forward.y, dt);
    Agent { position: Vec2 { x, y }, ..*agent }
}

/// The agent turned at its angular speed for `dt` time units.
pub fn turn_agent(agent: &Agent, dt: u32) -> (r: Agent)
    ensures
        r == turned(*agent, dt as int),
{
    proof {
        lemma_product_bound(
            agent.angular_speed as int,
            dt as int,
            0x8000_0000_0000_0000,
            0x1_0000_0000,
        );
    }
    let swept: i128 = (agent.angular_speed as i128) * (dt as i128);
    assert(TICKS_PER_SECOND == 1_000_000);
    let turn: i128 = swept / (TICKS_PER_SECOND as i128);
    assert(turn == quotient(agent.angular_speed * dt, TICKS_PER_SECOND as int));
    let target: i128 = agent.heading as i128 + turn;
    let rest: i128 = target % 0x1_0000_0000;
    let heading: u32 = if rest < 0 {
        (rest + 0x1_0000_0000) as u32
    } else {
        rest as u32
    };
    Agent { heading, ..*agent }
}

/// Moves every agent along its forward direction for `dt` time units.
pub fn velocity(flock: &mut Flock, dt: u32)
    ensures
        final(flock).pseudo_agents() == old(flock).pseudo_agents(),
        final(flock).agents().len() == old(flock).agents().len(),
        forall|i: int|
            0 <= i < old(flock).agents().len() ==> #[trigger] final(flock).agents()[i] == moved(
                old(flock).agents()[i],
                dt as int,
            ),
{
    let ghost before = flock.agents();
    let mut agents: Vec<Agent> = flock.take_agents();
    let n: usize = agents.len();
    let mut i: usize = 0;
    while i < n
        invariant
            i <= n,
            n == before.len(),
            n == agents@.len(),
            forall|h: int| 0 <= h < i ==> #[trigger] agents@[h] == moved(before[h], dt as int),
            forall|h: int| i <= h < n ==> #[trigger] agents@[h] == before[h],
        decreases n - i,
    {
        let agent: Agent = move_agent(&agents[i], dt);
        agents.set(i, agent);
        i += 1;
    }
    proof {
        assert forall|h: int| 0 <= h < n implies (#[trigger] agents@[h]).valid() by {
            assert(before[h].valid());
        }
        assert forall|h: int| 0 <= h < n implies (#[trigger] agents@[h]).id == before[h].id by {}
    }
    flock.replace_agents(agents);
}

/// Turns every agent at its angular speed for `dt` time units.
pub fn angular_velocity(flock: &mut Flock, dt: u32)
    ensures
        final(flock).pseudo_agents() == old(flock).pseudo_agents(),
        final(flock).agents().len() == old(flock).agents().len(),
        forall|i: int|
            0 <= i < old(flock).agents().len() ==> #[trigger] final(flock).agents()[i] == turned(
                old(flock).agents()[i],
                dt as int,
            ),
{
    let ghost before = flock.agents();
    let mut agents: Vec<Agent> = flock.take_agents();
    let n: usize = agents.len();
    let mut i: usize = 0;
    while i < n
        invariant
            i <= n,
            n == before.len(),
            n == agents@.len(),
            forall|h: int| 0 <= h < i ==> #[trigger] agents@[h] == turned(before[h], dt as int),
            forall|h: int| i <= h < n ==> #[trigger] agents@[h] == before[h],
        decreases n - i,
    {
        let agent: Agent = turn_agent(&agents[i], dt);
        agents.set(i, agent);
        i += 1;
    }
    proof {
        assert forall|h: int| 0 <= h < n implies (#[trigger] agents@[h]).valid() by {
            assert(before[h].valid());
        }
        assert forall|h: int| 0 <= h < n implies (#[trigger] agents@[h]).id == before[h].id by {}
    }
    flock.replace_agents(agents);
}

} // verus!
