//! Steering and collision resolution for a flock of autonomous agents.
//!
//! Each agent moves toward a target of its own, is pushed away from its nearest
//! neighbour, is stopped by the obstacles it meets, and bobs as it goes. One
//! tick of the simulation runs, in this order: `target::follow_target`,
//! `boid::soft_collisions`, `kinematics::move_step`, `boid::hard_collisions`,
//! which must follow the soft collisions, and `boid::bob`.
//!
//! All quantities are fixed-point integers, a thousand steps to the unit
//! (`fixed::SCALE`): a position of `1500` is one and a half units, a time of
//! `16` is sixteen milliseconds. The contracts are stated over vectors of
//! unbounded integers (`vec3::V3`) and say exactly which value each operation
//! gives, roundings included.
//!
//! The library holds no spatial index and reads no clock. A function that
//! needs to know what lies near an agent or an obstacle is handed what the
//! caller's index found, and one that advances time is handed the span.

pub mod fixed;
pub mod vec3;
pub mod kinematics;
pub mod target;
pub mod terrain;
pub mod boid;
pub mod util;
pub mod player;
pub mod texture;
pub mod scene;
