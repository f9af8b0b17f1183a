//! Training buildings, which convert braves into other kinds of person.

use vstd::prelude::*;

use super::types::{BuildingData, BuildingState, BuildingSubtype, MAX_OCCUPANTS};
use crate::engine::objects::handle::ObjectHandle;

verus! {

/// Conversion times in ticks.
pub const CONV_TIME_WARRIOR: u16 = 256;
pub const CONV_TIME_SPY: u16 = 192;
pub const CONV_TIME_PREACHER: u16 = 192;
pub const CONV_TIME_SUPER_WARRIOR: u16 = 384;

/// Mana costs of training.
pub const MANA_COST_WARRIOR: u32 = 500;
pub const MANA_COST_SPY: u32 = 300;
pub const MANA_COST_PREACHER: u32 = 400;
pub const MANA_COST_SUPER_WARRIOR: u32 = 800;

/// Behaviour flag of buildings that train people.
pub const TRAINING_FLAG: u32 = 0x01;

/// Person subtype of a brave, what a conversion falls back to.
pub const BRAVE_SUBTYPE: u8 = 2;

pub open spec fn training_output_spec(building_subtype: BuildingSubtype) -> Option<u8> {
    match building_subtype {
        BuildingSubtype::WarriorTrain => Some(3u8),
        BuildingSubtype::SpyTrain => Some(5u8),
        BuildingSubtype::Temple => Some(4u8),
        BuildingSubtype::SuperWarriorTrain => Some(6u8),
        _ => None,
    }
}

/// The person subtype a training building produces: warrior (3), spy (5),
/// preacher (4) or super warrior (6).
pub fn training_output_subtype(building_subtype: BuildingSubtype) -> (r: Option<u8>)
    ensures
        r == training_output_spec(building_subtype),
{
    match building_subtype {
        BuildingSubtype::WarriorTrain => Some(3),
        BuildingSubtype::SpyTrain => Some(5),
        BuildingSubtype::Temple => Some(4),
        BuildingSubtype::SuperWarriorTrain => Some(6),
        _ => None,
    }
}

pub open spec fn conversion_time_spec(target_subtype: u8) -> u16 {
    match target_subtype {
        3 => CONV_TIME_WARRIOR,
        4 => CONV_TIME_PREACHER,
        5 => CONV_TIME_SPY,
        6 => CONV_TIME_SUPER_WARRIOR,
        _ => 256,
    }
}

/// Ticks needed to convert a person into the given subtype.
pub fn conversion_time(target_subtype: u8) -> (r: u16)
    ensures
        r == conversion_time_spec(target_subtype),
        r > 0,
{
    match target_subtype {
        3 => CONV_TIME_WARRIOR,
        4 => CONV_TIME_PREACHER,
        5 => CONV_TIME_SPY,
        6 => CONV_TIME_SUPER_WARRIOR,
        _ => 256,
    }
}

/// Mana needed to train a person into the given subtype (none for others).
pub fn training_mana_cost(target_subtype: u8) -> (r: u32)
    ensures
        r == match target_subtype {
            3 => MANA_COST_WARRIOR,
            4 => MANA_COST_PREACHER,
            5 => MANA_COST_SPY,
            6 => MANA_COST_SUPER_WARRIOR,
            _ => 0u32,
        },
{
    match target_subtype {
        3 => MANA_COST_WARRIOR,
        4 => MANA_COST_PREACHER,
        5 => MANA_COST_SPY,
        6 => MANA_COST_SUPER_WARRIOR,
        _ => 0,
    }
}

/// Result of a training tick.
#[derive(Debug, Clone, Copy, PartialEq, Eq, Structural)]
pub enum ConvertAction {
    /// Nothing to do.
    Idle,
    ConvertUnit { handle: ObjectHandle, new_subtype: u8 },
}

/// The occupant in the first occupied slot at or after `i`.
pub open spec fn first_occupant_from(s: Seq<Option<ObjectHandle>>, i: int) -> Option<ObjectHandle>
    decreases s.len() - i,
{
    if i < 0 || i >= s.len() {
        None
    } else if s[i] is Some {
        s[i]
    } else {
        first_occupant_from(s, i + 1)
    }
}

/// The occupant found from slot `i` on sits in the first occupied slot at
/// or after `i`.
proof fn lemma_first_occupant_slot(s: Seq<Option<ObjectHandle>>, i: int) -> (k: int)
    requires
        0 <= i,
        first_occupant_from(s, i) is Some,
    ensures
        i <= k < s.len(),
        s[k] == first_occupant_from(s, i),
        forall|j: int| i <= j < k ==> (#[trigger] s[j]) is None,
    decreases s.len() - i,
{
    if s[i] is Some {
        i
    } else {
        lemma_first_occupant_slot(s, i + 1)
    }
}

/// An occupied slot at or after `i` means an occupant is found from `i`.
proof fn lemma_first_occupant_found(s: Seq<Option<ObjectHandle>>, i: int, k: int)
    requires
        0 <= i <= k < s.len(),
        s[k] is Some,
    ensures
        first_occupant_from(s, i) is Some,
    decreases k - i,
{
    if s[i] is None {
        lemma_first_occupant_found(s, i + 1, k);
    }
}

/// A finished conversion takes the occupant of the first occupied slot:
/// the converted handle is in slot `k` and every slot before `k` is
/// empty. A running countdown that reaches zero with somebody inside
/// always converts, into the building's output.
pub proof fn lemma_conversion_takes_first_occupant(b: BuildingData)
    ensures
        convert_step(b).0 matches ConvertAction::ConvertUnit { handle, new_subtype } ==> {
            &&& exists|k: int|
                0 <= k < MAX_OCCUPANTS && b.occupant_slots@[k] == Some(handle) && forall|j: int|
                    0 <= j < k ==> (#[trigger] b.occupant_slots@[j]) is None
            &&& new_subtype == conversion_output(b)
            &&& converts(b) && b.conversion_countdown == 1
        },
        (converts(b) && b.conversion_countdown == 1 && exists|k: int|
            0 <= k < MAX_OCCUPANTS && (#[trigger] b.occupant_slots@[k]) is Some) ==> convert_step(b).0 is ConvertUnit,
{
    let s = b.occupant_slots@;
    if first_occupant_from(s, 0) is Some {
        let k = lemma_first_occupant_slot(s, 0);
        assert(0 <= k < MAX_OCCUPANTS && s[k] == first_occupant_from(s, 0));
    }
    if converts(b) && b.conversion_countdown == 1 && exists|k: int| 0 <= k < MAX_OCCUPANTS && (#[trigger] s[k]) is Some {
        let k = choose|k: int| 0 <= k < MAX_OCCUPANTS && (#[trigger] s[k]) is Some;
        lemma_first_occupant_found(s, 0, k);
    }
}

/// Whether a building's conversion countdown runs this tick.
pub open spec fn converts(b: BuildingData) -> bool {
    (b.behavior_flags & TRAINING_FLAG) != 0 && b.state == BuildingState::Active && b.conversion_countdown != 0
}

/// The person subtype a conversion in building `b` produces.
pub open spec fn conversion_output(b: BuildingData) -> u8 {
    match training_output_spec(b.building_subtype) {
        Some(t) => t,
        None => BRAVE_SUBTYPE,
    }
}

/// The action and the new countdown of one training tick.
pub open spec fn convert_step(b: BuildingData) -> (ConvertAction, u16) {
    if !converts(b) {
        (ConvertAction::Idle, b.conversion_countdown)
    } else if b.conversion_countdown == 1 && first_occupant_from(b.occupant_slots@, 0) is Some {
        (
            ConvertAction::ConvertUnit {
                handle: first_occupant_from(b.occupant_slots@, 0)->0,
                new_subtype: conversion_output(b),
            },
            0u16,
        )
    } else {
        (ConvertAction::Idle, (b.conversion_countdown - 1) as u16)
    }
}

/// One training tick: a running countdown goes down by one; when it reaches
/// zero the first occupant is converted into the building's output.
pub fn tick_convert(building: &mut BuildingData) -> (r: ConvertAction)
    ensures
        r == convert_step(*old(building)).0,
        *final(building) == (BuildingData { conversion_countdown: convert_step(*old(building)).1, ..*old(building) }),
{
    if building.behavior_flags & TRAINING_FLAG == 0 {
        return ConvertAction::Idle;
    }
    if building.state != BuildingState::Active {
        return ConvertAction::Idle;
    }
    if building.conversion_countdown == 0 {
        return ConvertAction::Idle;
    }
    building.conversion_countdown = building.conversion_countdown - 1;
    if building.conversion_countdown == 0 {
        let mut i: usize = 0;
        while i < MAX_OCCUPANTS
            invariant
                i <= MAX_OCCUPANTS,
                converts(*old(building)),
                old(building).conversion_countdown == 1,
                *building == (BuildingData { conversion_countdown: 0, ..*old(building) }),
                first_occupant_from(building.occupant_slots@, 0) == first_occupant_from(building.occupant_slots@, i as int),
            decreases MAX_OCCUPANTS - i,
        {
            match building.occupant_slots[i] {
                Some(handle) => {
                    let target = match training_output_subtype(building.building_subtype) {
                        Some(t) => t,
                        None => BRAVE_SUBTYPE,
                    };
                    return ConvertAction::ConvertUnit { handle, new_subtype: target };
                },
                None => {},
            }
            i += 1;
        }
    }
    ConvertAction::Idle
}

/// Start a conversion in a training building by setting its countdown to
/// the conversion time of its output; other buildings are left alone.
/// Mana and wood are the caller's to check.
pub fn start_training(building: &mut BuildingData) -> (r: bool)
    ensures
        r == training_output_spec(old(building).building_subtype) is Some,
        r ==> *final(building) == (BuildingData {
            conversion_countdown: conversion_time_spec(training_output_spec(old(building).building_subtype)->0),
            ..*old(building)
        }),
        !r ==> *final(building) == *old(building),
{
    match training_output_subtype(building.building_subtype) {
        Some(target) => {
            building.conversion_countdown = conversion_time(target);
            true
        },
        None => false,
    }
}

} // verus!
