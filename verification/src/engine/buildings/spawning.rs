//! Population growth in huts.

use vstd::prelude::*;

use super::types::{BuildingData, BuildingState, BuildingSubtype};

verus! {

/// Base growth times of the three hut levels.
pub const HUT_SPROG_TIME_1: u16 = 4000;
pub const HUT_SPROG_TIME_2: u16 = 3000;
pub const HUT_SPROG_TIME_3: u16 = 2000;

/// Number of population bands.
pub const POPULATION_BAND_COUNT: usize = 20;

/// Behaviour flag of buildings that house people and grow population.
pub const HOUSING_FLAG: u32 = 0x20;

pub open spec fn sprog_time_spec(subtype: BuildingSubtype) -> u16 {
    match subtype {
        BuildingSubtype::SmallHut => HUT_SPROG_TIME_1,
        BuildingSubtype::MediumHut => HUT_SPROG_TIME_2,
        BuildingSubtype::LargeHut => HUT_SPROG_TIME_3,
        _ => u16::MAX,
    }
}

/// Base growth time of a hut; `u16::MAX` for buildings that do not grow.
pub fn sprog_time_for_level(subtype: BuildingSubtype) -> (r: u16)
    ensures
        r == sprog_time_spec(subtype),
{
    match subtype {
        BuildingSubtype::SmallHut => HUT_SPROG_TIME_1,
        BuildingSubtype::MediumHut => HUT_SPROG_TIME_2,
        BuildingSubtype::LargeHut => HUT_SPROG_TIME_3,
        _ => u16::MAX,
    }
}

pub open spec fn growth_weight_spec(person_subtype: u8) -> u32 {
    if person_subtype == 2 {
        15
    } else if 3 <= person_subtype <= 6 {
        4
    } else {
        0
    }
}

/// Weight of a person in the population that slows growth: 15 for a brave,
/// 4 for a warrior, preacher, spy or firewarrior, nothing for others.
pub fn population_growth_weight(person_subtype: u8) -> (r: u32)
    ensures
        r == growth_weight_spec(person_subtype),
{
    match person_subtype {
        2 => 15,
        3..=6 => 4,
        _ => 0,
    }
}

/// Growth time percentage of each population band.
pub open spec fn band_percent_spec(band: int) -> u16 {
    if band == 0 { 30 }
    else if band == 1 { 35 }
    else if band == 2 { 40 }
    else if band == 3 { 50 }
    else if band == 4 { 60 }
    else if band == 5 { 70 }
    else if band == 6 { 80 }
    else if band == 7 { 90 }
    else if band == 8 { 100 }
    else if band == 9 { 110 }
    else if band == 10 { 120 }
    else if band == 11 { 130 }
    else if band == 12 { 140 }
    else if band == 13 { 150 }
    else if band == 14 { 160 }
    else if band == 15 { 170 }
    else if band == 16 { 180 }
    else if band == 17 { 190 }
    else if band == 18 { 195 }
    else { 200 }
}

/// Growth time percentage of a population band (0..=19).
pub fn population_band_percent(band: usize) -> (r: u16)
    requires
        band < POPULATION_BAND_COUNT,
    ensures
        r == band_percent_spec(band as int),
        30 <= r <= 200,
{
    match band {
        0 => 30,
        1 => 35,
        2 => 40,
        3 => 50,
        4 => 60,
        5 => 70,
        6 => 80,
        7 => 90,
        8 => 100,
        9 => 110,
        10 => 120,
        11 => 130,
        12 => 140,
        13 => 150,
        14 => 160,
        15 => 170,
        16 => 180,
        17 => 190,
        18 => 195,
        _ => 200,
    }
}

pub open spec fn population_band_spec(weighted_population: int) -> int {
    let band = (weighted_population + 1) / 10;
    if band < POPULATION_BAND_COUNT { band } else { POPULATION_BAND_COUNT - 1 }
}

/// The band of a weighted population: one band per ten, the last band
/// taking everything above.
pub fn population_band(weighted_population: u32) -> (r: usize)
    requires
        weighted_population < u32::MAX,
    ensures
        r == population_band_spec(weighted_population as int),
        r < POPULATION_BAND_COUNT,
{
    let band = ((weighted_population + 1) / 10) as usize;
    if band < POPULATION_BAND_COUNT {
        band
    } else {
        POPULATION_BAND_COUNT - 1
    }
}

pub open spec fn population_scale_spec(weighted_population: int) -> int {
    band_percent_spec(population_band_spec(weighted_population)) * 256 / 100
}

/// The band's percentage in 8.8 fixed point, truncated.
pub fn population_scale_fixed(weighted_population: u32) -> (r: u32)
    requires
        weighted_population < u32::MAX,
    ensures
        r == population_scale_spec(weighted_population as int),
        76 <= r <= 512,
{
    let percent = population_band_percent(population_band(weighted_population)) as u32;
    percent * 256 / 100
}

pub open spec fn spawn_threshold_spec(subtype: BuildingSubtype, weighted_population: int) -> int {
    let base = sprog_time_spec(subtype);
    if base == u16::MAX {
        u16::MAX as int
    } else {
        base * population_scale_spec(weighted_population) / 256
    }
}

/// Growth needed before a hut spawns a brave: its base time scaled by the
/// population band; `u16::MAX` for buildings that do not grow.
pub fn spawn_threshold(subtype: BuildingSubtype, weighted_population: u32) -> (r: u16)
    requires
        weighted_population < u32::MAX,
    ensures
        r == spawn_threshold_spec(subtype, weighted_population as int),
{
    let base = sprog_time_for_level(subtype) as u32;
    if base == u16::MAX as u32 {
        return u16::MAX;
    }
    let scale = population_scale_fixed(weighted_population);
    assert(base * scale <= 4000 * 512) by (nonlinear_arith)
        requires
            base <= 4000,
            scale <= 512,
    ;
    (base * scale / 256) as u16
}

/// Result of a spawn tick.
#[derive(Debug, Clone, Copy, PartialEq, Eq, Structural)]
pub enum SpawnAction {
    /// Nothing to do.
    Idle,
    SpawnBrave,
}

/// Whether a building's population timer runs this tick.
pub open spec fn grows(b: BuildingData) -> bool {
    b.population_timer_enabled && (b.behavior_flags & HOUSING_FLAG) != 0 && b.state == BuildingState::Active
}

/// Growth timer after adding this tick's growth, which is two per occupant
/// plus two, saturating.
pub open spec fn grown_progress(b: BuildingData) -> int {
    let p = b.construction_progress + 2 * (b.occupant_count + 1);
    if p > u16::MAX { u16::MAX as int } else { p }
}

/// The action and the new growth timer of one population tick.
pub open spec fn spawn_step(b: BuildingData, weighted_population: int, has_population_capacity: bool) -> (SpawnAction, u16) {
    if !grows(b) {
        (SpawnAction::Idle, b.construction_progress)
    } else {
        let t = spawn_threshold_spec(b.building_subtype, weighted_population);
        let p = grown_progress(b);
        if p >= t {
            if has_population_capacity {
                (SpawnAction::SpawnBrave, 0u16)
            } else {
                (SpawnAction::Idle, t as u16)
            }
        } else {
            (SpawnAction::Idle, p as u16)
        }
    }
}

/// One population tick of a hut. The growth timer (the construction
/// progress of an active hut) grows by two per occupant plus two; on
/// reaching the threshold the hut spawns a brave and the timer restarts,
/// unless there is no room for more people, in which case the timer waits
/// at the threshold.
pub fn tick_spawn(building: &mut BuildingData, weighted_population: u32, has_population_capacity: bool) -> (r: SpawnAction)
    requires
        weighted_population < u32::MAX,
    ensures
        r == spawn_step(*old(building), weighted_population as int, has_population_capacity).0,
        *final(building) == (BuildingData {
            construction_progress: spawn_step(*old(building), weighted_population as int, has_population_capacity).1,
            ..*old(building)
        }),
{
    if !building.population_timer_enabled {
        return SpawnAction::Idle;
    }
    if building.behavior_flags & HOUSING_FLAG == 0 {
        return SpawnAction::Idle;
    }
    if building.state != BuildingState::Active {
        return SpawnAction::Idle;
    }
    let growth: u16 = 2 * (building.occupant_count as u16 + 1);
    building.construction_progress = building.construction_progress.saturating_add(growth);
    let threshold = spawn_threshold(building.building_subtype, weighted_population);
    if building.construction_progress >= threshold {
        if !has_population_capacity {
            building.construction_progress = threshold;
            return SpawnAction::Idle;
        }
        building.construction_progress = 0;
        SpawnAction::SpawnBrave
    } else {
        SpawnAction::Idle
    }
}

/// A hut's spawn threshold lies between 30% and 200% of its base growth
/// time (truncated), and buildings without a growth time never reach one.
pub proof fn lemma_threshold_bounds(subtype: BuildingSubtype, weighted_population: u32)
    requires
        weighted_population < u32::MAX,
    ensures
        subtype == BuildingSubtype::SmallHut ==> 1187 <= spawn_threshold_spec(subtype, weighted_population as int) <= 8000,
        subtype == BuildingSubtype::MediumHut ==> 890 <= spawn_threshold_spec(subtype, weighted_population as int) <= 6000,
        subtype == BuildingSubtype::LargeHut ==> 593 <= spawn_threshold_spec(subtype, weighted_population as int) <= 4000,
        sprog_time_spec(subtype) == u16::MAX ==> spawn_threshold_spec(subtype, weighted_population as int) == u16::MAX,
{
    let s = population_scale_spec(weighted_population as int);
    assert(76 <= s <= 512);
    assert(4000 * s / 256 >= 4000 * 76 / 256) by (nonlinear_arith) requires 76 <= s;
    assert(4000 * s / 256 <= 4000 * 512 / 256) by (nonlinear_arith) requires s <= 512;
    assert(3000 * s / 256 >= 3000 * 76 / 256) by (nonlinear_arith) requires 76 <= s;
    assert(3000 * s / 256 <= 3000 * 512 / 256) by (nonlinear_arith) requires s <= 512;
    assert(2000 * s / 256 >= 2000 * 76 / 256) by (nonlinear_arith) requires 76 <= s;
    assert(2000 * s / 256 <= 2000 * 512 / 256) by (nonlinear_arith) requires s <= 512;
}

} // verus!
