//! Discrete core of a spacecraft simulation tick engine: the body registry,
//! the ship's tile grid and devices, the crew member, and the command queue.
//!
//! Physical quantities (masses, pressures, positions, times) are carried as
//! values of a scalar type chosen by the caller; this crate never computes
//! with them. It decides where they live, which of them a rule touches, and
//! what happens to the discrete state around them. Throughout, `Q` is the
//! scalar of the quantities inside the ship and `T` the scalar of time and
//! of the orbital quantities.
//!
//! Where a rule turns on a comparison of quantities (a reactor that still
//! holds fuel, a cell that holds no gas, a body that has left the despawn
//! radius), the caller makes the comparison and hands in its outcome.

pub mod body;
pub mod geometry;
pub mod interior;
pub mod protocol;
pub mod world;

pub use body::{BodyState, BodyType, OrbitState, ThrustType};
pub use geometry::{HullShape, Vec2};
pub use interior::InteriorWorld;
pub use world::{unordered_pairs, World};
