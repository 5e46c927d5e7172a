//! Stateless pseudorandom values for games.
//!
//! A generator is a seed and nothing else. Every draw is addressed by a key
//! chosen by the caller: the key is hashed, combined with the seed and passed
//! through an avalanche mixer. The same seed and key give the same value
//! whatever else was drawn before.

pub mod generator;
pub mod hasher;
pub mod key;
pub mod mix;

pub use crate::generator::FroggyRand;
pub use crate::key::Key;
