use vstd::prelude::*;

use crate::engine::objects::handle::ObjectHandle;

verus! {

/// Maximum number of occupants in any building.
pub const MAX_OCCUPANTS: usize = 6;

/// Wood consumed per construction tick.
pub const CONSTRUCTION_WOOD_PER_TICK: u16 = 1;

/// Building life cycle: Init -> ConstructionDone -> Active -> Destroying ->
/// Sinking -> FinalTeardown.
#[derive(Debug, Clone, Copy, PartialEq, Eq, Structural)]
pub enum BuildingState {
    Init,
    ConstructionDone,
    Active,
    Destroying,
    Sinking,
    FinalTeardown,
}

/// The value of a building state in the game's object layout.
pub open spec fn building_state_value(s: BuildingState) -> u8 {
    match s {
        BuildingState::Init => 0x01,
        BuildingState::ConstructionDone => 0x02,
        BuildingState::Active => 0x03,
        BuildingState::Destroying => 0x04,
        BuildingState::Sinking => 0x05,
        BuildingState::FinalTeardown => 0x06,
    }
}

impl BuildingState {
    /// The state's value in the game's object layout (1..=6).
    pub fn value(&self) -> (r: u8)
        ensures
            r == building_state_value(*self),
    {
        match self {
            BuildingState::Init => 0x01,
            BuildingState::ConstructionDone => 0x02,
            BuildingState::Active => 0x03,
            BuildingState::Destroying => 0x04,
            BuildingState::Sinking => 0x05,
            BuildingState::FinalTeardown => 0x06,
        }
    }
}

/// Building kinds, with the values of the game's building type field.
#[derive(Debug, Clone, Copy, PartialEq, Eq, Structural)]
pub enum BuildingSubtype {
    SmallHut,
    MediumHut,
    LargeHut,
    DrumTower,
    Temple,
    SpyTrain,
    WarriorTrain,
    SuperWarriorTrain,
    Reconversion,
    WallPiece,
    Gateway,
    BoatHut,
    AirshipHut,
    GuardPost,
    Prison,
    Vault,
    HeadQuarters,
}

/// The value of a building subtype (1..=11 and 13..=18).
pub open spec fn subtype_value(t: BuildingSubtype) -> u8 {
    match t {
        BuildingSubtype::SmallHut => 1,
        BuildingSubtype::MediumHut => 2,
        BuildingSubtype::LargeHut => 3,
        BuildingSubtype::DrumTower => 4,
        BuildingSubtype::Temple => 5,
        BuildingSubtype::SpyTrain => 6,
        BuildingSubtype::WarriorTrain => 7,
        BuildingSubtype::SuperWarriorTrain => 8,
        BuildingSubtype::Reconversion => 9,
        BuildingSubtype::WallPiece => 10,
        BuildingSubtype::Gateway => 11,
        BuildingSubtype::BoatHut => 13,
        BuildingSubtype::AirshipHut => 14,
        BuildingSubtype::GuardPost => 15,
        BuildingSubtype::Prison => 16,
        BuildingSubtype::Vault => 17,
        BuildingSubtype::HeadQuarters => 18,
    }
}

/// Whether a value names a building subtype.
pub open spec fn is_subtype_value(v: u8) -> bool {
    1 <= v <= 18 && v != 12
}

impl BuildingSubtype {
    /// The subtype's value in the game's building type field.
    pub fn value(&self) -> (r: u8)
        ensures
            r == subtype_value(*self),
    {
        match self {
            BuildingSubtype::SmallHut => 1,
            BuildingSubtype::MediumHut => 2,
            BuildingSubtype::LargeHut => 3,
            BuildingSubtype::DrumTower => 4,
            BuildingSubtype::Temple => 5,
            BuildingSubtype::SpyTrain => 6,
            BuildingSubtype::WarriorTrain => 7,
            BuildingSubtype::SuperWarriorTrain => 8,
            BuildingSubtype::Reconversion => 9,
            BuildingSubtype::WallPiece => 10,
            BuildingSubtype::Gateway => 11,
            BuildingSubtype::BoatHut => 13,
            BuildingSubtype::AirshipHut => 14,
            BuildingSubtype::GuardPost => 15,
            BuildingSubtype::Prison => 16,
            BuildingSubtype::Vault => 17,
            BuildingSubtype::HeadQuarters => 18,
        }
    }

    /// Decode a subtype value; any other value is returned as the error.
    pub fn from_u8(value: u8) -> (r: Result<Self, u8>)
        ensures
            is_subtype_value(value) <==> r is Ok,
            r matches Ok(t) ==> subtype_value(t) == value,
            r matches Err(e) ==> e == value,
    {
        match value {
            1 => Ok(BuildingSubtype::SmallHut),
            2 => Ok(BuildingSubtype::MediumHut),
            3 => Ok(BuildingSubtype::LargeHut),
            4 => Ok(BuildingSubtype::DrumTower),
            5 => Ok(BuildingSubtype::Temple),
            6 => Ok(BuildingSubtype::SpyTrain),
            7 => Ok(BuildingSubtype::WarriorTrain),
            8 => Ok(BuildingSubtype::SuperWarriorTrain),
            9 => Ok(BuildingSubtype::Reconversion),
            10 => Ok(BuildingSubtype::WallPiece),
            11 => Ok(BuildingSubtype::Gateway),
            13 => Ok(BuildingSubtype::BoatHut),
            14 => Ok(BuildingSubtype::AirshipHut),
            15 => Ok(BuildingSubtype::GuardPost),
            16 => Ok(BuildingSubtype::Prison),
            17 => Ok(BuildingSubtype::Vault),
            18 => Ok(BuildingSubtype::HeadQuarters),
            other => Err(other),
        }
    }
}

/// Decoding a subtype's value gives the subtype back.
pub proof fn lemma_subtype_roundtrip(t: BuildingSubtype)
    ensures
        is_subtype_value(subtype_value(t)),
{
}

/// Building data of a building object.
#[derive(Debug, Clone, Copy)]
pub struct BuildingData {
    pub state: BuildingState,
    pub building_subtype: BuildingSubtype,
    pub wood_stored: u16,
    pub occupant_slots: [Option<ObjectHandle>; MAX_OCCUPANTS],
    pub occupant_count: u8,
    /// Construction progress; also the growth timer of an active hut and
    /// the sinking counter of a destroyed building.
    pub construction_progress: u16,
    /// Visible construction phase, 0..=4.
    pub construction_phase: u8,
    pub conversion_countdown: u16,
    pub training_countdown: u16,
    pub damage_accumulated: u16,
    pub damage_cooldown: u8,
    pub behavior_flags: u32,
    pub shake_x: i16,
    pub shake_z: i16,
    pub num_fighting: u8,
    pub target_person: Option<ObjectHandle>,
    /// Whether the hut's population timer runs.
    pub population_timer_enabled: bool,
}

/// A fresh small hut under construction with nothing in it.
pub open spec fn default_building_spec() -> BuildingData {
    BuildingData {
        state: BuildingState::Init,
        building_subtype: BuildingSubtype::SmallHut,
        wood_stored: 0,
        occupant_slots: [None; MAX_OCCUPANTS],
        occupant_count: 0,
        construction_progress: 0,
        construction_phase: 0,
        conversion_countdown: 0,
        training_countdown: 0,
        damage_accumulated: 0,
        damage_cooldown: 0,
        behavior_flags: 0,
        shake_x: 0,
        shake_z: 0,
        num_fighting: 0,
        target_person: None,
        population_timer_enabled: true,
    }
}

impl Default for BuildingData {
    fn default() -> (r: Self)
        ensures
            r == default_building_spec(),
    {
        BuildingData {
            state: BuildingState::Init,
            building_subtype: BuildingSubtype::SmallHut,
            wood_stored: 0,
            occupant_slots: [None; MAX_OCCUPANTS],
            occupant_count: 0,
            construction_progress: 0,
            construction_phase: 0,
            conversion_countdown: 0,
            training_countdown: 0,
            damage_accumulated: 0,
            damage_cooldown: 0,
            behavior_flags: 0,
            shake_x: 0,
            shake_z: 0,
            num_fighting: 0,
            target_person: None,
            population_timer_enabled: true,
        }
    }
}

pub open spec fn behavior_flags_spec(subtype: BuildingSubtype) -> u32 {
    match subtype {
        BuildingSubtype::SmallHut | BuildingSubtype::MediumHut | BuildingSubtype::LargeHut => 0x20,
        BuildingSubtype::SpyTrain | BuildingSubtype::WarriorTrain | BuildingSubtype::SuperWarriorTrain
        | BuildingSubtype::Reconversion => 0x01,
        BuildingSubtype::BoatHut | BuildingSubtype::AirshipHut => 0x40,
        BuildingSubtype::Temple => 0x0400,
        BuildingSubtype::DrumTower | BuildingSubtype::GuardPost => 0x08,
        _ => 0,
    }
}

/// Behaviour flags of a subtype: 0x20 houses and spawns braves, 0x01 trains
/// units, 0x40 builds vehicles, 0x400 recharges spells, 0x08 has fighting
/// occupants.
pub fn building_behavior_flags(subtype: BuildingSubtype) -> (r: u32)
    ensures
        r == behavior_flags_spec(subtype),
{
    match subtype {
        BuildingSubtype::SmallHut | BuildingSubtype::MediumHut | BuildingSubtype::LargeHut => 0x20,
        BuildingSubtype::SpyTrain | BuildingSubtype::WarriorTrain | BuildingSubtype::SuperWarriorTrain
        | BuildingSubtype::Reconversion => 0x01,
        BuildingSubtype::BoatHut | BuildingSubtype::AirshipHut => 0x40,
        BuildingSubtype::Temple => 0x0400,
        BuildingSubtype::DrumTower | BuildingSubtype::GuardPost => 0x08,
        _ => 0,
    }
}

pub open spec fn max_health_spec(subtype: BuildingSubtype) -> u16 {
    match subtype {
        BuildingSubtype::SmallHut => 600,
        BuildingSubtype::MediumHut => 800,
        BuildingSubtype::LargeHut => 1000,
        BuildingSubtype::DrumTower => 1200,
        BuildingSubtype::Temple => 1500,
        BuildingSubtype::SpyTrain => 800,
        BuildingSubtype::WarriorTrain => 800,
        BuildingSubtype::SuperWarriorTrain => 800,
        BuildingSubtype::Reconversion => 800,
        BuildingSubtype::WallPiece => 400,
        BuildingSubtype::Gateway => 600,
        BuildingSubtype::BoatHut => 800,
        BuildingSubtype::AirshipHut => 800,
        BuildingSubtype::GuardPost => 1000,
        BuildingSubtype::Prison => 600,
        BuildingSubtype::Vault => 800,
        BuildingSubtype::HeadQuarters => 2000,
    }
}

/// Maximum health of a building subtype.
pub fn building_max_health(subtype: BuildingSubtype) -> (r: u16)
    ensures
        r == max_health_spec(subtype),
        400 <= r <= 2000,
{
    match subtype {
        BuildingSubtype::SmallHut => 600,
        BuildingSubtype::MediumHut => 800,
        BuildingSubtype::LargeHut => 1000,
        BuildingSubtype::DrumTower => 1200,
        BuildingSubtype::Temple => 1500,
        BuildingSubtype::SpyTrain => 800,
        BuildingSubtype::WarriorTrain => 800,
        BuildingSubtype::SuperWarriorTrain => 800,
        BuildingSubtype::Reconversion => 800,
        BuildingSubtype::WallPiece => 400,
        BuildingSubtype::Gateway => 600,
        BuildingSubtype::BoatHut => 800,
        BuildingSubtype::AirshipHut => 800,
        BuildingSubtype::GuardPost => 1000,
        BuildingSubtype::Prison => 600,
        BuildingSubtype::Vault => 800,
        BuildingSubtype::HeadQuarters => 2000,
    }
}

} // verus!
