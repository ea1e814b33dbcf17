//! A verified core for a spatial epidemic simulation: a population of agents
//! moves over an integer grid by a mean-reverting biased random walk, deposits
//! contamination where infected agents stand, and acquires infection from
//! contaminated cells, under day-ranged lockdown mobility regimes.

pub mod city;
pub mod config;
pub mod engine;
pub mod geometry;
pub mod grid;
pub mod lockdown;
pub mod person;
pub mod rng;
pub mod stats;
pub mod walk;

pub use geometry::Point;
