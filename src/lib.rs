//! A discrete grid world that hosts learning agents.
//!
//! The environment owns a fixed-size grid, the set of actions an agent may
//! take, and an index of persistent elements (walls, goals, ...) keyed by
//! cell. One call of [`environment::Env::step`] runs one turn of an agent:
//! it chooses an action, computes the transition, learns from the reward and
//! commits its new state.

mod random;

pub mod agent;
pub mod environment;
pub mod grid;
pub mod position;
