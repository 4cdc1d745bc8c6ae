//! A 2-D flocking ("boids") simulation engine over fixed-point coordinates.
//!
//! All geometry is carried in thousandths of a world unit, so every quantity
//! is an integer and every tick is a pure, total function of the prior state
//! and the time step. Agents move under four composed forces — neighbor
//! repulsion, attraction toward the local centroid, velocity alignment, and
//! boundary repulsion — and are kept inside the arena and inside the speed
//! band by explicit clamps.

pub mod common;
pub mod laws;
pub mod sums;
pub mod swarm;
pub mod vec2;

pub use common::{limit, Range, Rectangle};
pub use vec2::Vec2;
