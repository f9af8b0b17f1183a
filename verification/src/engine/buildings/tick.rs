//! The per-tick update of a building and its construction stages.

use vstd::prelude::*;

use super::combat::{combat_actions_spec, tick_building_combat, BuildingCombatAction};
use super::spawning::{spawn_step, tick_spawn, SpawnAction};
use super::state_machine::{on_construction_complete, transition_building_state};
use super::training::{convert_step, tick_convert, ConvertAction};
use super::types::{behavior_flags_spec, BuildingData, BuildingState, BuildingSubtype};
use crate::engine::movement::math::{half_toward_zero, halve_toward_zero};
use crate::engine::objects::handle::ObjectHandle;
use crate::engine::objects::types::ObjectHeader;

verus! {

/// Construction units of one piece of wood.
pub const CONSTRUCTION_UNITS_PER_WOOD: u16 = 100;

/// Construction units a destroyed building loses per tick.
pub const DESTRUCTION_UNITS_PER_TICK: u16 = 4;

/// Sinking ticks before a destroyed building is torn down.
pub const SINKING_TICKS: u16 = 60;

/// Actions of one building tick.
#[derive(Debug)]
pub struct BuildingTickActions {
    pub spawn: SpawnAction,
    pub convert: ConvertAction,
    pub combat: Vec<BuildingCombatAction>,
}

impl BuildingTickActions {
    /// No action at all.
    pub fn none() -> (r: Self)
        ensures
            r.spawn == SpawnAction::Idle,
            r.convert == ConvertAction::Idle,
            r.combat@ == Seq::<BuildingCombatAction>::empty(),
    {
        BuildingTickActions { spawn: SpawnAction::Idle, convert: ConvertAction::Idle, combat: Vec::new() }
    }
}

pub open spec fn construction_target_spec(subtype: BuildingSubtype) -> u16 {
    match subtype {
        BuildingSubtype::SmallHut | BuildingSubtype::MediumHut | BuildingSubtype::LargeHut => 3,
        BuildingSubtype::DrumTower => 5,
        BuildingSubtype::Temple | BuildingSubtype::SpyTrain | BuildingSubtype::WarriorTrain
        | BuildingSubtype::SuperWarriorTrain => 8,
        _ => 4,
    }
}

/// Pieces of wood needed to complete a building: three for each hut level,
/// five for a drum tower, eight for the temple and the training buildings,
/// four for the rest.
pub fn construction_target(subtype: BuildingSubtype) -> (r: u16)
    ensures
        r == construction_target_spec(subtype),
{
    match subtype {
        BuildingSubtype::SmallHut | BuildingSubtype::MediumHut | BuildingSubtype::LargeHut => 3,
        BuildingSubtype::DrumTower => 5,
        BuildingSubtype::Temple | BuildingSubtype::SpyTrain | BuildingSubtype::WarriorTrain
        | BuildingSubtype::SuperWarriorTrain => 8,
        _ => 4,
    }
}

pub open spec fn progress_target_spec(subtype: BuildingSubtype) -> u16 {
    (construction_target_spec(subtype) * CONSTRUCTION_UNITS_PER_WOOD) as u16
}

/// Construction units needed to complete a building.
pub fn construction_progress_target(subtype: BuildingSubtype) -> (r: u16)
    ensures
        r == progress_target_spec(subtype),
        r == construction_target_spec(subtype) * CONSTRUCTION_UNITS_PER_WOOD,
        300 <= r <= 800,
{
    construction_target(subtype) * CONSTRUCTION_UNITS_PER_WOOD
}

pub open spec fn construction_phase_spec(progress: int, total: int) -> int {
    if progress == 0 || total <= 1 {
        0
    } else if progress >= total {
        4
    } else {
        let p = (4 * progress - 1) / (total - 1);
        if p < 3 { p } else { 3 }
    }
}

/// Visible stage 0..=4 of a building `progress` units into `total`: 0 with
/// nothing done, 4 when complete, and in between the quarter reached,
/// counted as (4 * progress - 1) / (total - 1) and capped at 3.
pub fn construction_phase(progress: u16, total: u16) -> (r: u8)
    ensures
        r == construction_phase_spec(progress as int, total as int),
        r <= 4,
{
    if progress == 0 || total <= 1 {
        0
    } else if progress >= total {
        4
    } else {
        let p = (4 * progress as u32 - 1) / (total as u32 - 1);
        if p < 3 {
            p as u8
        } else {
            3
        }
    }
}

pub open spec fn delivery_phase_spec(delivered: int, required: int) -> int {
    if delivered == 0 {
        0
    } else if required <= 1 {
        2
    } else {
        let p = (delivered - 1) * 2 / (required - 1);
        if p < 2 { p } else { 2 }
    }
}

/// Stage reached after `delivered` of `required` wood deliveries: 0 for the
/// first delivery, 2 from the last on, leaving stage 3 to the final build
/// interval.
pub fn construction_delivery_phase(delivered: u16, required: u16) -> (r: u8)
    ensures
        r == delivery_phase_spec(delivered as int, required as int),
        r <= 2,
{
    if delivered == 0 {
        return 0;
    }
    if required <= 1 {
        return 2;
    }
    let p = (delivered.saturating_sub(1) as u32 * 2) / (required - 1) as u32;
    if p < 2 {
        p as u8
    } else {
        2
    }
}

/// The building after the part of a tick common to every state: the damage
/// cooldown runs down and the shaking halves.
pub open spec fn decayed(b: BuildingData) -> BuildingData {
    BuildingData {
        damage_cooldown: if b.damage_cooldown > 0 { (b.damage_cooldown - 1) as u8 } else { 0u8 },
        shake_x: half_toward_zero(b.shake_x),
        shake_z: half_toward_zero(b.shake_z),
        ..b
    }
}

/// An active building: population growth, training and combat, in that
/// order; none of them reads what another writes.
pub open spec fn active_step(b: BuildingData, weighted_population: int, has_population_capacity: bool) -> BuildingData {
    BuildingData {
        construction_progress: spawn_step(b, weighted_population, has_population_capacity).1,
        conversion_countdown: convert_step(b).1,
        ..b
    }
}

/// A destroyed building crumbles four units a tick; its stage follows, and
/// at zero it starts sinking.
pub open spec fn destroying_step(b: BuildingData) -> BuildingData {
    let p = if b.construction_progress >= DESTRUCTION_UNITS_PER_TICK {
        (b.construction_progress - DESTRUCTION_UNITS_PER_TICK) as u16
    } else {
        0u16
    };
    BuildingData {
        construction_progress: p,
        construction_phase: construction_phase_spec(p as int, progress_target_spec(b.building_subtype) as int) as u8,
        state: if p == 0 { BuildingState::Sinking } else { BuildingState::Destroying },
        ..b
    }
}

/// A sinking building counts up and is torn down after sixty ticks.
pub open spec fn sinking_step(b: BuildingData) -> BuildingData {
    let p = (b.construction_progress + 1) as u16;
    BuildingData {
        construction_progress: p,
        state: if p >= SINKING_TICKS { BuildingState::FinalTeardown } else { BuildingState::Sinking },
        ..b
    }
}

/// The building after one tick.
pub open spec fn tick_step(b: BuildingData, weighted_population: int, has_population_capacity: bool) -> BuildingData {
    let d = decayed(b);
    match b.state {
        BuildingState::Init => d,
        BuildingState::ConstructionDone => BuildingData {
            behavior_flags: behavior_flags_spec(b.building_subtype),
            state: BuildingState::Active,
            ..d
        },
        BuildingState::Active => active_step(d, weighted_population, has_population_capacity),
        BuildingState::Destroying => destroying_step(d),
        BuildingState::Sinking => sinking_step(d),
        BuildingState::FinalTeardown => d,
    }
}

/// One tick of a building with no population and room for more.
pub fn tick_building(building: &mut BuildingData, header: &mut ObjectHeader, handle: ObjectHandle) -> (r: BuildingTickActions)
    requires
        old(building).state == BuildingState::Sinking ==> old(building).construction_progress < u16::MAX,
    ensures
        *final(building) == tick_step(*old(building), 0, true),
        *final(header) == *old(header),
        old(building).state == BuildingState::Active ==> {
            &&& r.spawn == spawn_step(decayed(*old(building)), 0, true).0
            &&& r.convert == convert_step(decayed(*old(building))).0
            &&& r.combat@ == combat_actions_spec(decayed(*old(building)))
        },
        old(building).state != BuildingState::Active ==> {
            &&& r.spawn == SpawnAction::Idle
            &&& r.convert == ConvertAction::Idle
            &&& r.combat@ == Seq::<BuildingCombatAction>::empty()
        },
{
    tick_building_with_population(building, header, handle, 0, true)
}

/// One tick of a building: the damage cooldown and the shaking decay, then
/// the building acts by its state. A finished building becomes active with
/// its subtype's behaviour; an active one grows population, trains and
/// fights; a destroyed one crumbles, sinks and is torn down. Construction
/// itself advances only through the work of builders, not here.
pub fn tick_building_with_population(
    building: &mut BuildingData,
    header: &mut ObjectHeader,
    handle: ObjectHandle,
    weighted_population: u32,
    has_population_capacity: bool,
) -> (r: BuildingTickActions)
    requires
        weighted_population < u32::MAX,
        old(building).state == BuildingState::Sinking ==> old(building).construction_progress < u16::MAX,
    ensures
        *final(building) == tick_step(*old(building), weighted_population as int, has_population_capacity),
        *final(header) == *old(header),
        old(building).state == BuildingState::Active ==> {
            &&& r.spawn == spawn_step(decayed(*old(building)), weighted_population as int, has_population_capacity).0
            &&& r.convert == convert_step(decayed(*old(building))).0
            &&& r.combat@ == combat_actions_spec(decayed(*old(building)))
        },
        old(building).state != BuildingState::Active ==> {
            &&& r.spawn == SpawnAction::Idle
            &&& r.convert == ConvertAction::Idle
            &&& r.combat@ == Seq::<BuildingCombatAction>::empty()
        },
{
    if building.damage_cooldown > 0 {
        building.damage_cooldown = building.damage_cooldown - 1;
    }
    building.shake_x = halve_toward_zero(building.shake_x);
    building.shake_z = halve_toward_zero(building.shake_z);
    match building.state {
        BuildingState::Init => BuildingTickActions::none(),
        BuildingState::ConstructionDone => {
            on_construction_complete(building);
            transition_building_state(building, BuildingState::Active);
            BuildingTickActions::none()
        },
        BuildingState::Active => tick_active(building, header, handle, weighted_population, has_population_capacity),
        BuildingState::Destroying => {
            tick_destroying(building, header);
            BuildingTickActions::none()
        },
        BuildingState::Sinking => {
            tick_sinking(building, header);
            BuildingTickActions::none()
        },
        BuildingState::FinalTeardown => BuildingTickActions::none(),
    }
}

fn tick_active(
    building: &mut BuildingData,
    _header: &mut ObjectHeader,
    handle: ObjectHandle,
    weighted_population: u32,
    has_population_capacity: bool,
) -> (r: BuildingTickActions)
    requires
        weighted_population < u32::MAX,
    ensures
        *final(building) == active_step(*old(building), weighted_population as int, has_population_capacity),
        *final(_header) == *old(_header),
        r.spawn == spawn_step(*old(building), weighted_population as int, has_population_capacity).0,
        r.convert == convert_step(*old(building)).0,
        r.combat@ == combat_actions_spec(*old(building)),
{
    let spawn = tick_spawn(building, weighted_population, has_population_capacity);
    let convert = tick_convert(building);
    let combat = tick_building_combat(building, handle);
    BuildingTickActions { spawn, convert, combat }
}

fn tick_destroying(building: &mut BuildingData, _header: &mut ObjectHeader)
    requires
        old(building).state == BuildingState::Destroying,
    ensures
        *final(building) == destroying_step(*old(building)),
        *final(_header) == *old(_header),
{
    building.construction_progress = building.construction_progress.saturating_sub(DESTRUCTION_UNITS_PER_TICK);
    let target = construction_progress_target(building.building_subtype);
    building.construction_phase = construction_phase(building.construction_progress, target);
    if building.construction_progress == 0 {
        transition_building_state(building, BuildingState::Sinking);
    }
}

fn tick_sinking(building: &mut BuildingData, _header: &mut ObjectHeader)
    requires
        old(building).state == BuildingState::Sinking,
        old(building).construction_progress < u16::MAX,
    ensures
        *final(building) == sinking_step(*old(building)),
        *final(_header) == *old(_header),
{
    building.construction_progress = building.construction_progress + 1;
    if building.construction_progress >= SINKING_TICKS {
        transition_building_state(building, BuildingState::FinalTeardown);
    }
}

/// A building tick never moves a building backwards in its life cycle: the
/// state after a tick is the same state or the next one.
pub proof fn lemma_tick_follows_life_cycle(b: BuildingData, weighted_population: int, has_population_capacity: bool)
    ensures
        tick_step(b, weighted_population, has_population_capacity).state == b.state
            || crate::engine::buildings::state_machine::legal_transition(
            b.state,
            tick_step(b, weighted_population, has_population_capacity).state,
        ),
        b.state == BuildingState::Init ==> tick_step(b, weighted_population, has_population_capacity).state == BuildingState::Init,
{
}

} // verus!
