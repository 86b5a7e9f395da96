use boids::agent::{Agent, Boid, FlockError, PseudoBoid};
use boids::flock::Flock;
use boids::vector::Vec2;

fn boid_at(id: u64, x: i32, y: i32) -> Agent {
    Agent {
        id,
        position: Vec2::new(x, y),
        heading: 0,
        forward: Vec2::new(0, 1 << 30),
        linear_speed: 100,
        angular_speed: 0,
        boid: Boid { neighbor_radius: 20, personal_radius: 2, coverage_angle: 0 },
    }
}

#[test]
fn a_new_flock_is_empty() {
    let flock = Flock::new();
    assert!(flock.agent_list().is_empty());
    assert!(flock.pseudo_agent_list().is_empty());
    assert!(!flock.knows(0));
    assert_eq!(flock.locate(0), None);
}

#[test]
fn agents_are_kept_in_the_order_of_arrival() {
    let mut flock = Flock::new();
    assert_eq!(flock.add_agent(boid_at(7, 1, 2)), Ok(()));
    assert_eq!(flock.add_agent(boid_at(3, 4, 5)), Ok(()));
    assert_eq!(flock.agent_list().len(), 2);
    assert_eq!(flock.agent_list()[0], boid_at(7, 1, 2));
    assert_eq!(flock.agent_list()[1], boid_at(3, 4, 5));
    assert_eq!(flock.agent_index(3), Some(1));
    assert_eq!(flock.agent_index(7), Some(0));
    assert_eq!(flock.agent_index(8), None);
    assert_eq!(flock.locate(3), Some(Vec2::new(4, 5)));
}

#[test]
fn a_negative_neighbor_radius_is_turned_away() {
    let mut flock = Flock::new();
    let mut agent = boid_at(1, 0, 0);
    agent.boid.neighbor_radius = -1;
    assert_eq!(flock.add_agent(agent), Err(FlockError::InvalidConfiguration));
    assert!(flock.agent_list().is_empty());
}

#[test]
fn a_negative_personal_radius_is_turned_away() {
    let mut flock = Flock::new();
    let mut agent = boid_at(1, 0, 0);
    agent.boid.personal_radius = -1;
    assert_eq!(flock.add_agent(agent), Err(FlockError::InvalidConfiguration));
    assert!(flock.agent_list().is_empty());
}

#[test]
fn a_negative_speed_is_turned_away() {
    let mut flock = Flock::new();
    let mut agent = boid_at(1, 0, 0);
    agent.linear_speed = -1;
    assert_eq!(flock.add_agent(agent), Err(FlockError::InvalidConfiguration));
    assert!(flock.agent_list().is_empty());
}

#[test]
fn zero_radii_and_zero_speed_are_valid() {
    let mut flock = Flock::new();
    let mut agent = boid_at(1, 0, 0);
    agent.boid.neighbor_radius = 0;
    agent.boid.personal_radius = 0;
    agent.linear_speed = 0;
    agent.angular_speed = -5;
    assert!(agent.is_valid());
    assert_eq!(flock.add_agent(agent), Ok(()));
}

#[test]
fn a_personal_radius_above_the_neighbor_radius_is_let_in() {
    let mut flock = Flock::new();
    let mut agent = boid_at(1, 0, 0);
    agent.boid.neighbor_radius = 2;
    agent.boid.personal_radius = 20;
    assert_eq!(flock.add_agent(agent), Ok(()));
}

#[test]
fn a_taken_identifier_is_turned_away() {
    let mut flock = Flock::new();
    assert_eq!(flock.add_agent(boid_at(1, 0, 0)), Ok(()));
    assert_eq!(
        flock.add_pseudo_agent(PseudoBoid { id: 2, position: Vec2::new(9, 9) }),
        Ok(())
    );
    assert_eq!(flock.add_agent(boid_at(1, 5, 5)), Err(FlockError::DuplicateId(1)));
    assert_eq!(flock.add_agent(boid_at(2, 5, 5)), Err(FlockError::DuplicateId(2)));
    assert_eq!(
        flock.add_pseudo_agent(PseudoBoid { id: 1, position: Vec2::new(0, 0) }),
        Err(FlockError::DuplicateId(1))
    );
    assert_eq!(
        flock.add_pseudo_agent(PseudoBoid { id: 2, position: Vec2::new(0, 0) }),
        Err(FlockError::DuplicateId(2))
    );
    assert_eq!(flock.agent_list().len(), 1);
    assert_eq!(flock.pseudo_agent_list().len(), 1);
    assert_eq!(flock.agent_list()[0], boid_at(1, 0, 0));
    assert_eq!(flock.locate(2), Some(Vec2::new(9, 9)));
}

#[test]
fn an_invalid_agent_is_turned_away_before_its_identifier_is_looked_at() {
    let mut flock = Flock::new();
    assert_eq!(flock.add_agent(boid_at(1, 0, 0)), Ok(()));
    let mut agent = boid_at(1, 0, 0);
    agent.linear_speed = -7;
    assert_eq!(flock.add_agent(agent), Err(FlockError::InvalidConfiguration));
}

#[test]
fn a_pseudo_agent_moves_where_it_is_told() {
    let mut flock = Flock::new();
    assert_eq!(flock.add_agent(boid_at(1, 0, 0)), Ok(()));
    assert_eq!(
        flock.add_pseudo_agent(PseudoBoid { id: 10, position: Vec2::new(0, 0) }),
        Ok(())
    );
    assert_eq!(
        flock.add_pseudo_agent(PseudoBoid { id: 11, position: Vec2::new(1, 1) }),
        Ok(())
    );
    assert_eq!(flock.set_pseudo_agent_position(11, Vec2::new(-40, 70)), Ok(()));
    assert_eq!(flock.pseudo_agent_index(11), Some(1));
    assert_eq!(
        flock.pseudo_agent_list()[1],
        PseudoBoid { id: 11, position: Vec2::new(-40, 70) }
    );
    assert_eq!(
        flock.pseudo_agent_list()[0],
        PseudoBoid { id: 10, position: Vec2::new(0, 0) }
    );
    assert_eq!(flock.agent_list()[0], boid_at(1, 0, 0));
}

#[test]
fn moving_an_unknown_pseudo_agent_fails() {
    let mut flock = Flock::new();
    assert_eq!(flock.add_agent(boid_at(1, 0, 0)), Ok(()));
    assert_eq!(
        flock.add_pseudo_agent(PseudoBoid { id: 10, position: Vec2::new(3, 3) }),
        Ok(())
    );
    assert_eq!(
        flock.set_pseudo_agent_position(12, Vec2::new(5, 5)),
        Err(FlockError::AgentNotFound(12))
    );
    // An agent is no pseudo-agent.
    assert_eq!(
        flock.set_pseudo_agent_position(1, Vec2::new(5, 5)),
        Err(FlockError::AgentNotFound(1))
    );
    assert_eq!(flock.agent_list()[0], boid_at(1, 0, 0));
    assert_eq!(flock.locate(10), Some(Vec2::new(3, 3)));
}

#[test]
fn gathering_moves_every_pseudo_agent() {
    let mut flock = Flock::new();
    assert_eq!(flock.add_agent(boid_at(1, 0, 0)), Ok(()));
    for id in 10..15 {
        assert_eq!(
            flock.add_pseudo_agent(PseudoBoid { id, position: Vec2::new(0, 0) }),
            Ok(())
        );
    }
    flock.gather_pseudo_agents(Vec2::new(-250, 125));
    assert_eq!(flock.pseudo_agent_list().len(), 5);
    for (k, pseudo) in flock.pseudo_agent_list().iter().enumerate() {
        assert_eq!(*pseudo, PseudoBoid { id: 10 + k as u64, position: Vec2::new(-250, 125) });
    }
    assert_eq!(flock.agent_list()[0], boid_at(1, 0, 0));
}

#[test]
fn the_forward_direction_is_recorded() {
    let mut flock = Flock::new();
    assert_eq!(flock.add_agent(boid_at(1, 0, 0)), Ok(()));
    assert_eq!(flock.add_agent(boid_at(2, 1, 1)), Ok(()));
    assert_eq!(flock.set_forward(2, Vec2::new(1 << 30, 0)), Ok(()));
    let mut expected = boid_at(2, 1, 1);
    expected.forward = Vec2::new(1 << 30, 0);
    assert_eq!(flock.agent_list()[1], expected);
    assert_eq!(flock.agent_list()[0], boid_at(1, 0, 0));
    assert_eq!(flock.set_forward(3, Vec2::new(0, 0)), Err(FlockError::AgentNotFound(3)));
}

#[test]
fn an_agent_is_found_by_its_identifier() {
    let mut flock = Flock::new();
    assert_eq!(flock.add_agent(boid_at(7, 1, 2)), Ok(()));
    assert_eq!(flock.add_agent(boid_at(3, 4, 5)), Ok(()));
    assert_eq!(
        flock.add_pseudo_agent(PseudoBoid { id: 10, position: Vec2::new(3, 3) }),
        Ok(())
    );
    assert_eq!(flock.agent(3), Some(boid_at(3, 4, 5)));
    assert_eq!(flock.agent(7), Some(boid_at(7, 1, 2)));
    assert_eq!(flock.agent(10), None);
    assert_eq!(flock.agent(0), None);
}

#[test]
fn knows_tells_of_either_kind() {
    let mut flock = Flock::new();
    assert_eq!(flock.add_agent(boid_at(1, 0, 0)), Ok(()));
    assert_eq!(
        flock.add_pseudo_agent(PseudoBoid { id: 10, position: Vec2::new(3, 3) }),
        Ok(())
    );
    assert!(flock.knows(1));
    assert!(flock.knows(10));
    assert!(!flock.knows(2));
    assert_eq!(flock.agent_index(10), None);
    assert_eq!(flock.pseudo_agent_index(1), None);
}
