//! Grid-world artificial-life simulator: the verified core data structures
//! (cells, world grid, spatial index, actions, genomes) and the integer
//! logic of a tick.

pub mod action;
pub mod cell;
pub mod config;
pub mod genome;
pub mod lifecycle;
pub mod protocol;
mod random;
pub mod retention;
pub mod spatial;
pub mod world;
