//! Damage dealt in melee.

use vstd::prelude::*;

use crate::engine::objects::types::ObjectHeader;

verus! {

/// Least damage a melee hit does.
pub const MIN_MELEE_DAMAGE: u16 = 32;

/// Take `damage` off an object's health, stopping at zero; report whether
/// the object died.
pub fn apply_combat_damage(header: &mut ObjectHeader, damage: u16) -> (r: bool)
    ensures
        r == (old(header).health <= damage),
        r ==> *final(header) == (ObjectHeader { health: 0, ..*old(header) }),
        !r ==> *final(header) == (ObjectHeader { health: (old(header).health - damage) as u16, ..*old(header) }),
{
    if header.health <= damage {
        header.health = 0;
        true
    } else {
        header.health = header.health - damage;
        false
    }
}

pub open spec fn fight_damage_spec(subtype: u8) -> u16 {
    match subtype {
        1 => 64,
        2 => 200,
        3 => 400,
        4 => 150,
        5 => 200,
        6 => 500,
        7 => 300,
        8 => 600,
        _ => 100,
    }
}

/// Full-health melee damage of a person subtype: wild 64, brave 200,
/// warrior 400, preacher 150, spy 200, super warrior 500, shaman 300, angel
/// of death 600, anything else 100.
pub fn fight_damage_for_subtype(subtype: u8) -> (r: u16)
    ensures
        r == fight_damage_spec(subtype),
{
    match subtype {
        1 => 64,
        2 => 200,
        3 => 400,
        4 => 150,
        5 => 200,
        6 => 500,
        7 => 300,
        8 => 600,
        _ => 100,
    }
}

pub open spec fn melee_damage_spec(attacker_subtype: u8, attacker_health: u16, max_health: u16) -> int {
    let max_hp: int = if max_health >= 1 { max_health as int } else { 1 };
    let d = fight_damage_spec(attacker_subtype) * attacker_health / max_hp;
    if d >= MIN_MELEE_DAMAGE { d } else { MIN_MELEE_DAMAGE as int }
}

/// Melee damage: the subtype's damage scaled by the attacker's share of its
/// maximum health (a zero maximum counts as one), at least 32, truncated
/// to 16 bits.
pub fn melee_damage(attacker_subtype: u8, attacker_health: u16, max_health: u16) -> (r: u16)
    ensures
        r == melee_damage_spec(attacker_subtype, attacker_health, max_health) as u16,
        attacker_health <= max_health ==> r == melee_damage_spec(attacker_subtype, attacker_health, max_health),
        r >= MIN_MELEE_DAMAGE || attacker_health > max_health,
{
    let base = fight_damage_for_subtype(attacker_subtype) as u32;
    let hp = attacker_health as u32;
    let max_hp: u32 = if max_health >= 1 { max_health as u32 } else { 1 };
    assert(base * hp <= 600 * 65535) by (nonlinear_arith)
        requires
            base <= 600,
            hp <= 65535,
    ;
    let damage = (base * hp) / max_hp;
    let d = if damage >= MIN_MELEE_DAMAGE as u32 { damage } else { MIN_MELEE_DAMAGE as u32 };
    proof {
        if hp <= max_hp {
            assert((base * hp) as int / (max_hp as int) <= base) by (nonlinear_arith)
                requires
                    hp <= max_hp,
                    max_hp >= 1,
            ;
        }
    }
    d as u16
}

} // verus!
