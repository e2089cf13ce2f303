//! A flocking simulation on an integer grid: agents steer by separation,
//! alignment and cohesion, find their neighbours through a quadtree, and are
//! drawn into an RGBA frame buffer.
//!
//! All quantities are integers. Agents stand on a grid of whole units;
//! velocities, radii, rectangles and the widths of fields of view are kept in
//! sixteen-bit fixed point, factors are given in thousandths, and directions
//! are measured in whole degrees.

pub mod arith;
pub mod geometry;
pub mod node;
pub mod boid;
pub mod node_lemmas;
pub mod trig;
mod random;
pub mod world;
pub mod background;
