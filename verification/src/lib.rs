//! Swept collision detection and a kinematic character controller in
//! deterministic fixed-point arithmetic.
//!
//! The engine decides which contact queries a sweep or a frame needs and what
//! follows from their outcomes; the queries themselves are the caller's.

pub mod fixed;
pub mod vector;
pub mod bounds;
pub mod collider;
pub mod contact;
pub mod sweep;
pub mod character;
pub mod movement;
pub mod laws;

pub use collider::{Collider, CollisionEntity};
pub use contact::Intersection;
