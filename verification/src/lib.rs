//! A rule-driven grid puzzle mechanics engine.
//!
//! Gameplay properties (controllability, solidity, pushability, the win
//! condition) are attached to entity kinds through an explicit rule table
//! rather than hard-coded, and a move-resolution algorithm replays
//! directional inputs against a mutable grid to produce a deterministic
//! outcome.

pub mod square;
pub mod rules;
pub mod grid;
pub mod level;
pub mod interpreter;
pub mod levels_list;
