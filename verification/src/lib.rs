//! Grid, simulation-state and rendering logic of a pheromone-trail ant simulation.

pub mod config;
pub mod grid;
pub mod simulation;
pub mod palette;
pub mod frame;
pub mod agent;
pub mod runner;
