//! A genetic algorithm for the 0/1 knapsack problem, with the fitness
//! evaluator, tournament selection, single-point crossover, bit-flip
//! mutation and the elitist generation loop proved against their contracts.
//! Beside it, a tour module measures closed routes over a distance matrix
//! and improves a route by inversion hill climbing.

pub mod problem;
pub mod config;
pub mod individual;
pub mod random;
pub mod operators;
pub mod population;
pub mod tour;
