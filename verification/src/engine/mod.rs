//! The simulation: movement, objects, buildings, combat, economy and
//! visual effects.

pub mod movement;
pub mod objects;
pub mod economy;
pub mod buildings;
pub mod combat;
pub mod effects;
pub mod frame;
