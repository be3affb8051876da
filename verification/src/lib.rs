//! A small deterministic pseudo-random number generator of the xoshiro256
//! family: four 64-bit state words, seeded from one 64-bit integer, producing
//! a reproducible stream of 64-bit outputs.
//!
//! Every executable function carries a contract over the pure functions of
//! [`rotate`], [`seeding`] and [`generator`], so the stream a generator yields
//! is a mathematical function of its seed.

pub mod rotate;
pub mod seeding;
pub mod generator;

pub use crate::generator::Xoshiro256;
pub use crate::rotate::rotl;
