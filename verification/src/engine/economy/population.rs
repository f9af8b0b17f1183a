//! Population capacity of a tribe's housing.

use vstd::prelude::*;

verus! {

/// Occupants per hut level.
pub const MAX_POP_VALUE_HUT_1: u16 = 3;
pub const MAX_POP_VALUE_HUT_2: u16 = 4;
pub const MAX_POP_VALUE_HUT_3: u16 = 5;

/// Absolute population cap of a tribe.
pub const MAX_POP_VALUE: u16 = 199;

pub open spec fn hut_capacity_spec(level: u8) -> u16 {
    match level {
        1 => MAX_POP_VALUE_HUT_1,
        2 => MAX_POP_VALUE_HUT_2,
        3 => MAX_POP_VALUE_HUT_3,
        _ => 0,
    }
}

/// Occupants a hut of the given level houses (unknown levels none).
pub fn hut_capacity(level: u8) -> (r: u16)
    ensures
        r == hut_capacity_spec(level),
{
    match level {
        1 => MAX_POP_VALUE_HUT_1,
        2 => MAX_POP_VALUE_HUT_2,
        3 => MAX_POP_VALUE_HUT_3,
        _ => 0,
    }
}

/// Housing of `[level 1, level 2, level 3]` hut counts, capped at
/// `MAX_POP_VALUE`.
pub open spec fn housing_capacity_spec(hut_counts: [u16; 3]) -> int {
    let raw = hut_counts[0] * 3 + hut_counts[1] * 4 + hut_counts[2] * 5;
    if raw < MAX_POP_VALUE { raw } else { MAX_POP_VALUE as int }
}

/// Total housing capacity of the given hut counts per level, capped at the
/// tribe population cap.
pub fn calculate_housing_capacity(hut_counts: [u16; 3]) -> (r: u16)
    requires
        hut_counts[0] * 3 + hut_counts[1] * 4 + hut_counts[2] * 5 <= u16::MAX,
    ensures
        r == housing_capacity_spec(hut_counts),
        r <= MAX_POP_VALUE,
{
    let raw = hut_counts[0] * MAX_POP_VALUE_HUT_1 + hut_counts[1] * MAX_POP_VALUE_HUT_2
        + hut_counts[2] * MAX_POP_VALUE_HUT_3;
    if raw < MAX_POP_VALUE {
        raw
    } else {
        MAX_POP_VALUE
    }
}

/// Whether a tribe below its cap may grow.
pub fn can_spawn(current_population: u16, max_population: u16) -> (r: bool)
    ensures
        r == (current_population < max_population),
{
    current_population < max_population
}

/// More huts never give less housing.
pub proof fn lemma_housing_monotone(a: [u16; 3], b: [u16; 3])
    requires
        a[0] <= b[0],
        a[1] <= b[1],
        a[2] <= b[2],
    ensures
        housing_capacity_spec(a) <= housing_capacity_spec(b),
{
}

} // verus!
