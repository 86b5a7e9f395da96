use boids::agent::{Agent, Boid, FlockError, PseudoBoid};
use boids::flock::Flock;
use boids::sensing::boid_sense;
use boids::steering::{Bearing, Steering};
use boids::tick::{advance, boid_plan};
use boids::vector::{Pull, Vec2};
use std::collections::HashMap;

const UP: Vec2 = Vec2 { x: 0, y: 1 << 30 };
const SECOND: u32 = 1_000_000;

/// The angle between two directions, as a host would measure it.
fn angle_between(forward: Vec2, pull: Pull) -> u32 {
    let (fx, fy) = (forward.x as f64, forward.y as f64);
    let (px, py) = (pull.x as f64, pull.y as f64);
    let cosine = (fx * px + fy * py) / ((fx * fx + fy * fy).sqrt() * (px * px + py * py).sqrt());
    let radians = cosine.clamp(-1.0, 1.0).acos();
    (radians / std::f64::consts::TAU * 4_294_967_296.0).round() as u32
}

fn measure(plan: &[Steering]) -> HashMap<u64, Bearing> {
    let mut bearings = HashMap::new();
    for steering in plan {
        bearings.insert(
            steering.id,
            Bearing {
                cohesion_angle: angle_between(steering.forward, steering.cohesion),
                separation_angle: angle_between(steering.forward, steering.separation),
            },
        );
    }
    bearings
}

fn still_boid(id: u64, x: i32, y: i32) -> Agent {
    Agent {
        id,
        position: Vec2::new(x, y),
        heading: 0,
        forward: UP,
        linear_speed: 0,
        angular_speed: 0,
        boid: Boid { neighbor_radius: 20, personal_radius: 2, coverage_angle: 0 },
    }
}

fn triangle() -> Flock {
    let mut flock = Flock::new();
    assert_eq!(flock.add_agent(still_boid(1, 0, 0)), Ok(()));
    assert_eq!(flock.add_agent(still_boid(2, 5, 5)), Ok(()));
    assert_eq!(flock.add_agent(still_boid(3, -5, 5)), Ok(()));
    flock
}

#[test]
fn planning_senses_and_steers() {
    let flock = triangle();
    let (data, plan) = boid_plan(&flock, false);
    let sensed = boid_sense(&flock, false);
    assert_eq!(data.neighbor_map, sensed.neighbor_map);
    assert_eq!(data.too_close_map, sensed.too_close_map);
    assert_eq!(data.neighbors(1), Some(&vec![2, 3]));
    assert_eq!(data.neighbors(2), Some(&vec![1, 3]));
    assert_eq!(data.neighbors(3), Some(&vec![1, 2]));
    for id in 1..=3 {
        assert_eq!(data.too_close(id), Some(&vec![]));
    }
    assert_eq!(plan.len(), 3);
    assert_eq!(plan[0].cohesion, Pull::new(0, 10));
    assert_eq!(plan[1].cohesion, Pull::new(-15, -5));
    assert_eq!(plan[2].cohesion, Pull::new(15, -5));
}

#[test]
fn three_agents_turn_towards_the_centroid_of_the_others() {
    let mut flock = triangle();
    let (data, plan) = boid_plan(&flock, false);
    let bearings = measure(&plan);
    // 108.43 degrees lie between straight up and the pull on agent 2.
    assert_eq!(bearings[&2].cohesion_angle, 1_293_679_330);
    assert_eq!(bearings[&3].cohesion_angle, 1_293_679_330);
    assert_eq!(bearings[&1].cohesion_angle, 0);
    assert_eq!(advance(&mut flock, &data, &bearings, SECOND), Ok(()));
    let agents = flock.agent_list();
    // Agent 1 has the two others straight ahead.
    assert_eq!(agents[0].angular_speed, 0);
    assert_eq!(agents[0].heading, 0);
    // The sign of each turn is that of the cross product with the pull.
    assert!(UP.cross_is_positive(&plan[1].cohesion));
    assert!(!UP.cross_is_positive(&plan[2].cohesion));
    assert_eq!(agents[1].angular_speed, 646_839_665);
    assert_eq!(agents[2].angular_speed, -646_839_665);
    assert_eq!(agents[1].heading, 646_839_665);
    assert_eq!(agents[2].heading, 3_648_127_631);
    // Nobody moves at speed zero.
    assert_eq!(agents[0].position, Vec2::new(0, 0));
    assert_eq!(agents[1].position, Vec2::new(5, 5));
    assert_eq!(agents[2].position, Vec2::new(-5, 5));
}

#[test]
fn a_tick_moves_by_the_old_forward_direction_and_turns_by_the_new_speed() {
    let mut flock = Flock::new();
    let mut agent = still_boid(1, 0, 0);
    agent.linear_speed = 100;
    agent.angular_speed = 999;
    agent.heading = 50;
    assert_eq!(flock.add_agent(agent), Ok(()));
    assert_eq!(
        flock.add_pseudo_agent(PseudoBoid { id: 2, position: Vec2::new(-30, 0) }),
        Ok(())
    );
    let (data, plan) = boid_plan(&flock, true);
    assert_eq!(plan[0].cohesion, Pull::new(-30, 0));
    assert_eq!(plan[0].separation, Pull::new(30, 0));
    let mut bearings = HashMap::new();
    bearings.insert(1, Bearing { cohesion_angle: 4000, separation_angle: 1000 });
    assert_eq!(advance(&mut flock, &data, &bearings, SECOND / 2), Ok(()));
    let mut expected = agent;
    expected.angular_speed = 1500;
    expected.position = Vec2::new(0, 50);
    expected.heading = 800;
    assert_eq!(flock.agent_list()[0], expected);
    assert_eq!(
        *flock.pseudo_agent_list(),
        vec![PseudoBoid { id: 2, position: Vec2::new(-30, 0) }]
    );
}

#[test]
fn a_lone_agent_keeps_its_heading_tick_after_tick() {
    let mut flock = Flock::new();
    let mut agent = still_boid(1, 0, 0);
    agent.linear_speed = 1000;
    agent.heading = 12345;
    agent.angular_speed = 1 << 29;
    assert_eq!(flock.add_agent(agent), Ok(()));
    for tick in 1..=5 {
        let (data, plan) = boid_plan(&flock, tick % 2 == 0);
        let bearings = measure(&plan);
        assert_eq!(advance(&mut flock, &data, &bearings, SECOND / 10), Ok(()));
        let now = flock.agent_list()[0];
        assert_eq!(now.angular_speed, 0);
        assert_eq!(now.heading, 12345);
        assert_eq!(now.position, Vec2::new(0, 100 * tick));
    }
}

#[test]
fn a_tick_on_stale_data_changes_nothing() {
    let mut flock = triangle();
    let (data, plan) = boid_plan(&flock, false);
    let bearings = measure(&plan);
    let mut other = Flock::new();
    let mut mover = still_boid(1, 0, 0);
    mover.linear_speed = 100;
    assert_eq!(other.add_agent(mover), Ok(()));
    assert_eq!(advance(&mut other, &data, &bearings, SECOND), Err(FlockError::AgentNotFound(2)));
    assert_eq!(*other.agent_list(), vec![mover]);
    let mut unmeasured = bearings.clone();
    unmeasured.remove(&1);
    let before: Vec<Agent> = flock.agent_list().clone();
    assert_eq!(
        advance(&mut flock, &data, &unmeasured, SECOND),
        Err(FlockError::AgentNotFound(1))
    );
    assert_eq!(*flock.agent_list(), before);
}

#[test]
fn an_empty_flock_ticks() {
    let mut flock = Flock::new();
    let (data, plan) = boid_plan(&flock, true);
    assert!(plan.is_empty());
    assert_eq!(advance(&mut flock, &data, &HashMap::new(), SECOND), Ok(()));
    assert!(flock.agent_list().is_empty());
}
