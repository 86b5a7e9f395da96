//! Flocking on a fixed-point plane: sensing, steering and motion of boids.

pub mod agent;
pub mod flock;
pub mod laws;
pub mod motion;
pub mod sensing;
pub mod steering;
pub mod tick;
pub mod vector;
