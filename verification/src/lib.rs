//! A genetic-algorithm calibrator for combat-balance parameters.
//!
//! Given a designer-authored target matrix of time-to-kill values
//! (weapon type x enemy type), the library evolves a population of
//! candidate parameter sets until one reproduces the target matrix
//! within an acceptable squared error.
//!
//! Probabilities and fitness scores are represented exactly as
//! integers (event counts over a total of draws, and a fixed-point
//! inverse error), so every formula in the combat model and in the
//! generational loop is verified arithmetic.
//!
//! - [`dice`]: Monte-Carlo dice-sum distributions, whose masses
//!   provably add up to one.
//! - [`combat`]: weapon and enemy parameters, the damage formula and
//!   the expected time-to-kill, with its `UNKILLABLE` sentinel.
//! - [`sample`]: candidate solutions, their random generation and
//!   crossover.
//! - [`fitness`]: squared error against the target matrix and the
//!   score derived from it.
//! - [`evolve`]: the generational loop of evaluation, selection,
//!   breeding and replenishment.
//! - [`rng`]: the trusted boundary to the random number generator.

pub mod combat;
pub mod dice;
pub mod evolve;
pub mod fitness;
pub mod rng;
pub mod sample;
