//! Predator/prey population dynamics on a bounded rectangular grid.
//!
//! The library holds the per-generation rules (movement, predation,
//! reproduction, starvation) over a double-buffered grid, the deterministic
//! sequence generator that drives direction choices, the population
//! tracker, and the decisions of the simulation driver.
use vstd::prelude::*;

pub mod cell;
pub mod engine;
pub mod grid;
pub mod population;
pub mod rng;
pub mod sim;

verus! {

} // verus!
