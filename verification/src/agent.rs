//! The entities of a flock and the ways in which handling them can fail.

use crate::vector::Vec2;
use vstd::prelude::*;

verus! {

/// How far a boid senses. Radii are in the units of positions.
#[derive(Clone, Copy, Debug, PartialEq, Eq, Structural)]
pub struct Boid {
    /// Others no further away than this are neighbours.
    pub neighbor_radius: i64,
    /// Others no further away than this are too close.
    pub personal_radius: i64,
    /// The width of the field of view, in angle units. Kept with the boid;
    /// sensing looks all around whatever it holds.
    pub coverage_angle: u32,
}

/// A boid of the flock.
///
/// Angles are binary: 2^32 units make a full turn, so headings wrap by
/// themselves. Time is counted in microseconds, speeds are per second.
#[derive(Clone, Copy, Debug, PartialEq, Eq, Structural)]
pub struct Agent {
    pub id: u64,
    pub position: Vec2,
    /// The orientation, as the angle by which the reference axis is turned.
    pub heading: u32,
    /// The reference axis turned by `heading`, as the host last reported it:
    /// a vector of length `FORWARD_ONE`.
    pub forward: Vec2,
    /// Position units per second.
    pub linear_speed: i64,
    /// Angle units per second. The sign is that of the cross product of
    /// `forward` and the direction turned to.
    pub angular_speed: i64,
    pub boid: Boid,
}

/// The length that stands for 1 in a `forward` vector.
pub const FORWARD_ONE: i64 = 0x4000_0000;

/// The number of time units in a second.
pub const TICKS_PER_SECOND: i64 = 1_000_000;

impl Agent {
    /// What a flock asks of an agent it admits: no negative radius, no
    /// negative speed.
    pub open spec fn valid(&self) -> bool {
        &&& self.boid.neighbor_radius >= 0
        &&& self.boid.personal_radius >= 0
        &&& self.linear_speed >= 0
    }

    pub fn is_valid(&self) -> (b: bool)
        ensures
            b == self.valid(),
    {
        self.boid.neighbor_radius >= 0 && self.boid.personal_radius >= 0 && self.linear_speed >= 0
    }
}

/// Something that boids react to and that reacts to nothing: a position with
/// a name.
#[derive(Clone, Copy, Debug, PartialEq, Eq, Structural)]
pub struct PseudoBoid {
    pub id: u64,
    pub position: Vec2,
}

/// Why a flock turned a request down.
#[derive(Clone, Copy, Debug, PartialEq, Eq, Structural)]
pub enum FlockError {
    /// The identifier names nothing in the flock, or nothing of the kind
    /// that was asked for.
    AgentNotFound(u64),
    /// The identifier is taken.
    DuplicateId(u64),
    /// A radius or the linear speed is negative.
    InvalidConfiguration,
}

} // verus!
