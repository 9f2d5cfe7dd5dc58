//! A digital-evolution simulator in the Avida style: self-replicating
//! programs on a toroidal grid, executed by a small virtual CPU, rewarded
//! for computing logic functions, and scheduled in proportion to merit.

pub mod cpu;
pub mod execute;
pub mod instruction;
pub mod organism;
pub mod rng;
pub mod tasks;
pub mod world;
