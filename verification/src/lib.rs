//! Simulation library of the Populous: The Beginning remake: the game's data
//! formats and the rules of its simulation (movement, buildings, combat,
//! economy and visual effects), with their contracts proved by Verus.

pub mod data;
pub mod engine;
