//! Effect kinds and their presentation defaults.

use vstd::prelude::*;

use super::{EFFECT_GRAVITY, EFFECT_LOOP};

verus! {

/// Effect kinds, grouped by the game's value ranges.
#[derive(Clone, Copy, Debug, PartialEq, Eq, Structural)]
pub enum EffectType {
    BurnFlame,
    BlastProjectile,
    LightningBolt,
    DeathPuff,
    BloodSpray,
    HitSpark,
    KnockbackTrail,
    ConstructionDust,
    DestructionCollapse,
    BuildingFire,
}

pub open spec fn effect_type_value(t: EffectType) -> u8 {
    match t {
        EffectType::BurnFlame => 0x01,
        EffectType::BlastProjectile => 0x02,
        EffectType::LightningBolt => 0x03,
        EffectType::DeathPuff => 0x30,
        EffectType::BloodSpray => 0x32,
        EffectType::HitSpark => 0x33,
        EffectType::KnockbackTrail => 0x34,
        EffectType::ConstructionDust => 0x50,
        EffectType::DestructionCollapse => 0x51,
        EffectType::BuildingFire => 0x52,
    }
}

impl EffectType {
    /// The kind's value: spell impacts 0x01..=0x03, death and combat
    /// 0x30..=0x34, buildings 0x50..=0x52.
    pub fn value(&self) -> (r: u8)
        ensures
            r == effect_type_value(*self),
    {
        match self {
            EffectType::BurnFlame => 0x01,
            EffectType::BlastProjectile => 0x02,
            EffectType::LightningBolt => 0x03,
            EffectType::DeathPuff => 0x30,
            EffectType::BloodSpray => 0x32,
            EffectType::HitSpark => 0x33,
            EffectType::KnockbackTrail => 0x34,
            EffectType::ConstructionDust => 0x50,
            EffectType::DestructionCollapse => 0x51,
            EffectType::BuildingFire => 0x52,
        }
    }
}

/// Broad groups of effects.
#[derive(Clone, Copy, Debug, PartialEq, Eq, Structural)]
pub enum EffectCategory {
    Spell,
    Combat,
    Building,
    Particle,
}

pub open spec fn effect_defaults_spec(effect_type: u8) -> (i16, u8, i16, i16) {
    match effect_type {
        0x01 => (16i16, EFFECT_LOOP, 0x100i16, 0xC0i16),
        0x02 => (12i16, EFFECT_GRAVITY, 0x100i16, 0x100i16),
        0x03 => (8i16, 0u8, 0x100i16, 0x100i16),
        0x30 => (20i16, EFFECT_GRAVITY, 0x80i16, 0x80i16),
        0x32 => (10i16, EFFECT_GRAVITY, 0x60i16, 0xC0i16),
        0x33 => (6i16, 0u8, 0x100i16, 0x100i16),
        0x34 => (8i16, 0u8, 0x80i16, 0x80i16),
        0x50 => (24i16, 0u8, 0x100i16, 0x80i16),
        0x51 => (32i16, EFFECT_GRAVITY, 0x100i16, 0x100i16),
        0x52 => (16i16, EFFECT_LOOP, 0x100i16, 0xC0i16),
        _ => (10i16, 0u8, 0x100i16, 0x100i16),
    }
}

/// Presentation defaults of an effect kind: frame count, flags, scale and
/// opacity (0x100 is full size, fully opaque).
pub fn effect_defaults(effect_type: u8) -> (r: (i16, u8, i16, i16))
    ensures
        r == effect_defaults_spec(effect_type),
        r.0 > 0,
{
    match effect_type {
        0x01 => (16, EFFECT_LOOP, 0x100, 0xC0),
        0x02 => (12, EFFECT_GRAVITY, 0x100, 0x100),
        0x03 => (8, 0, 0x100, 0x100),
        0x30 => (20, EFFECT_GRAVITY, 0x80, 0x80),
        0x32 => (10, EFFECT_GRAVITY, 0x60, 0xC0),
        0x33 => (6, 0, 0x100, 0x100),
        0x34 => (8, 0, 0x80, 0x80),
        0x50 => (24, 0, 0x100, 0x80),
        0x51 => (32, EFFECT_GRAVITY, 0x100, 0x100),
        0x52 => (16, EFFECT_LOOP, 0x100, 0xC0),
        _ => (10, 0, 0x100, 0x100),
    }
}

} // verus!
