//! A deterministic household food-inventory simulator.
//!
//! The crate models how a shelf of food items evolves under configurable
//! consumption and replenishment strategies, scores each run with a
//! worst-case shortage penalty, and searches strategy parameters for the
//! settings with the lowest penalty.

pub mod fixed;
pub mod events;
pub mod food;
pub mod minimize;
pub mod run;
pub mod sim;
pub mod types;
pub mod xs;
