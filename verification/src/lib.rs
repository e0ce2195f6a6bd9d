//! A discrete-time gravitational N-body simulator.
//!
//! A [`Universe`] owns an ordered collection of bodies and advances them step by step. One
//! sub-step resets the accelerations, lets every unordered pair of bodies pull on each other
//! once by Newton's law, moves every body by one unit of time, and removes the bodies that then
//! overlap with another. A tick is as many sub-steps as the speed of the universe says.
//!
//! The numbers are abstract: the library works on any [`Scalar`] and never looks inside one.
//! What a function computes is stated over the values that the operations of the scalar return
//! ([`scalar::sum_of`] and its kin). Those clauses are stated for the scalars whose operations
//! are functions of their operands ([`scalar::deterministic`]), as the operations of
//! double-precision arithmetic are; what does not depend on arithmetic is stated for every scalar.
pub mod collisions;
pub mod forces;
pub mod laws;
pub mod scalar;
pub mod universe;
pub mod vector3;

pub use scalar::Scalar;
pub use universe::{OutPlanet, Output, Planet, Universe};
pub use vector3::Vector3;
