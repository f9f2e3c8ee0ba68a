//! A verified boids flocking simulation.
//!
//! Agents ("boids") steer by local neighborhood rules: separation from
//! agents that are too close, alignment with and cohesion toward agents in
//! sight, and optional goal seeking. A speed limiter keeps each velocity
//! inside a configured band, and a boundary policy resolves positions that
//! leave the arena. All coordinates, velocities and rule strengths are
//! fixed-point integers: a value of `SCALE` stands for one world unit.

pub mod boid;
pub mod boundary;
pub mod params;
pub mod rng;
pub mod sim;
pub mod speed;
pub mod sqrt;
pub mod steer;
pub mod systems;
pub mod vec2;
