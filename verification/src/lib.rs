//! Simulation engine for ternary {-1, 0, +1} agent systems.
//!
//! - `ternary`: the three values and their charges;
//! - `agent`: an agent, and its trap and tunnelling transitions;
//! - `draws`: the generator of the engine's random draws;
//! - `grid`: the wrapped square grid and the neighbourhood majority rule;
//! - `census`: population counts;
//! - `health`: the engine health diagnostic;
//! - `engine`: configuration and the tick-by-tick engine;
//! - `laws`: properties that span several functions;
//! - `rule_laws`: what each rule of a tick does, over its inputs and results.
pub mod agent;
pub mod census;
pub mod draws;
pub mod engine;
pub mod grid;
pub mod health;
pub mod laws;
pub mod ternary;

pub use agent::Agent;
pub use ternary::Ternary;
pub mod rule_laws;
