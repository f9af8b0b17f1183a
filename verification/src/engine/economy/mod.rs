//! Tribe economy: mana, population capacity and wood costs.

pub mod mana;
pub mod population;
pub mod wood;
