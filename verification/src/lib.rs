//! Types for working with the Battlesnake grid game.
//! The goal is to provide simulation tooling and fast representations that
//! enable development of efficient minimax/MCTS search on top of a compact,
//! verified move-evaluation engine.

pub mod compact_representation;
pub mod cross_product;
pub mod hazard_algorithms;
pub mod laws;
mod random_source;
pub mod types;
pub mod wire_representation;
