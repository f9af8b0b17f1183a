//! Wood costs of construction and training, and wood totals.

use vstd::prelude::*;

verus! {

/// Construction wood costs by building subtype.
pub const WOOD_COST_SMALL_HUT: u16 = 3;
pub const WOOD_COST_MEDIUM_HUT: u16 = 5;
pub const WOOD_COST_LARGE_HUT: u16 = 7;
pub const WOOD_COST_DRUM_TOWER: u16 = 5;
pub const WOOD_COST_TEMPLE: u16 = 6;
pub const WOOD_COST_TRAINING: u16 = 5;
pub const WOOD_COST_DEFAULT: u16 = 4;

/// Training wood costs by target person subtype.
pub const WOOD_TRAIN_WARRIOR: u16 = 3;
pub const WOOD_TRAIN_SPY: u16 = 2;
pub const WOOD_TRAIN_PREACHER: u16 = 2;
pub const WOOD_TRAIN_SUPER_WARRIOR: u16 = 5;

pub open spec fn construction_wood_cost_spec(building_subtype: u8) -> u16 {
    match building_subtype {
        1 => WOOD_COST_SMALL_HUT,
        2 => WOOD_COST_MEDIUM_HUT,
        3 => WOOD_COST_LARGE_HUT,
        4 => WOOD_COST_DRUM_TOWER,
        5 => WOOD_COST_TEMPLE,
        6 | 7 | 8 => WOOD_COST_TRAINING,
        _ => WOOD_COST_DEFAULT,
    }
}

/// Wood needed to construct a building of the given subtype value.
pub fn construction_wood_cost(building_subtype: u8) -> (r: u16)
    ensures
        r == construction_wood_cost_spec(building_subtype),
{
    match building_subtype {
        1 => WOOD_COST_SMALL_HUT,
        2 => WOOD_COST_MEDIUM_HUT,
        3 => WOOD_COST_LARGE_HUT,
        4 => WOOD_COST_DRUM_TOWER,
        5 => WOOD_COST_TEMPLE,
        6 | 7 | 8 => WOOD_COST_TRAINING,
        _ => WOOD_COST_DEFAULT,
    }
}

/// Wood needed to train a person into the given subtype (none for others).
pub fn training_wood_cost(target_subtype: u8) -> (r: u16)
    ensures
        r == match target_subtype {
            3 => WOOD_TRAIN_WARRIOR,
            4 => WOOD_TRAIN_PREACHER,
            5 => WOOD_TRAIN_SPY,
            6 => WOOD_TRAIN_SUPER_WARRIOR,
            _ => 0u16,
        },
{
    match target_subtype {
        3 => WOOD_TRAIN_WARRIOR,
        4 => WOOD_TRAIN_PREACHER,
        5 => WOOD_TRAIN_SPY,
        6 => WOOD_TRAIN_SUPER_WARRIOR,
        _ => 0,
    }
}

/// Sum of a sequence of wood amounts.
pub open spec fn wood_sum(s: Seq<u16>) -> int
    decreases s.len(),
{
    if s.len() == 0 { 0 } else { wood_sum(s.drop_last()) + s.last() }
}

proof fn lemma_wood_sum_bound(s: Seq<u16>)
    ensures
        0 <= wood_sum(s) <= s.len() * 0xFFFF,
    decreases s.len(),
{
    if s.len() > 0 {
        lemma_wood_sum_bound(s.drop_last());
    }
}

/// Total wood of all the given stores.
pub fn total_wood_stored(wood_values: &[u16]) -> (r: u32)
    requires
        wood_values@.len() * 0xFFFF <= u32::MAX,
    ensures
        r == wood_sum(wood_values@),
{
    let mut total: u32 = 0;
    let mut i: usize = 0;
    while i < wood_values.len()
        invariant
            i <= wood_values@.len(),
            wood_values@.len() * 0xFFFF <= u32::MAX,
            total == wood_sum(wood_values@.take(i as int)),
        decreases wood_values@.len() - i,
    {
        proof {
            assert(wood_values@.take(i as int + 1).drop_last() == wood_values@.take(i as int));
            lemma_wood_sum_bound(wood_values@.take(i as int));
            assert((i as int) * 0xFFFF + 0xFFFF <= wood_values@.len() * 0xFFFF) by (nonlinear_arith)
                requires i < wood_values@.len();
        }
        total = total + wood_values[i] as u32;
        i += 1;
    }
    assert(wood_values@.take(wood_values@.len() as int) == wood_values@);
    total
}

} // verus!
