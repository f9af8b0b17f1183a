//! Mana generation rates and the tribe mana pool.

use vstd::prelude::*;

verus! {

/// Per-unit mana generation rates (per tick).
pub const MANA_F_BRAVE: u32 = 1;
pub const MANA_F_WARR: u32 = 1;
pub const MANA_F_SPY: u32 = 1;
pub const MANA_F_PREACH: u32 = 2;
pub const MANA_F_SWARR: u32 = 1;
pub const MANA_F_SHAMEN: u32 = 1;

/// Per-housing-level mana generation rates.
pub const MANA_F_HUT_LEVEL_1: u32 = 1;
pub const MANA_F_HUT_LEVEL_2: u32 = 2;
pub const MANA_F_HUT_LEVEL_3: u32 = 3;

/// Largest mana pool of a tribe.
pub const MAX_MANA: u32 = 1_000_000;

/// Spell mana costs in spell bar order: Burn, Blast, Lightning, Whirlwind,
/// Plague, Invisibility, Firestorm, Hypnotism, Ghost Army, Erosion, Swamp,
/// Land Bridge, Angel of Death, Earthquake, Flatten, Volcano.
pub const SPELL_MANA_COSTS: [u32; 16] = [
    20_000, 80_000, 60_000, 40_000, 50_000, 30_000, 100_000, 40_000, 60_000, 30_000, 30_000,
    40_000, 150_000, 50_000, 20_000, 120_000,
];

/// Casts of a spell of cost `cost` affordable with `mana`, at most 7.
pub open spec fn charges_for(mana: u32, cost: u32) -> u8 {
    if cost == 0 { 0 } else if mana / cost < 7 { (mana / cost) as u8 } else { 7 }
}

/// The charges of a spell are the casts the pool pays for, at most 7:
/// that many casts cost no more than the mana, and either the cap is
/// reached or one cast more would cost more than the mana. A spell that
/// costs nothing has no charges.
pub proof fn lemma_charges_affordable(mana: u32, cost: u32)
    ensures
        cost == 0 ==> charges_for(mana, cost) == 0,
        cost > 0 ==> {
            let c = charges_for(mana, cost) as int;
            &&& 0 <= c <= 7
            &&& c * cost <= mana
            &&& c == 7 || mana < (c + 1) * cost
        },
{
    if cost > 0 {
        let q = mana as int / cost as int;
        vstd::arithmetic::div_mod::lemma_fundamental_div_mod(mana as int, cost as int);
        vstd::arithmetic::div_mod::lemma_mod_bound(mana as int, cost as int);
        vstd::arithmetic::div_mod::lemma_div_pos_is_pos(mana as int, cost as int);
        let c = charges_for(mana, cost) as int;
        if q < 7 {
            assert(c == q);
            assert(c * cost <= mana && mana < (c + 1) * cost) by (nonlinear_arith)
                requires
                    mana == cost * q + mana % cost,
                    0 <= mana % cost < cost,
                    c == q,
            ;
        } else {
            assert(c == 7);
            assert(7 * cost <= mana) by (nonlinear_arith)
                requires
                    mana == cost * q + mana % cost,
                    0 <= mana % cost,
                    q >= 7,
                    cost > 0,
            ;
        }
    }
}

/// Number of casts affordable (at most 7) for each of the 16 spells.
pub fn compute_spell_charges(current_mana: u32) -> (r: [u8; 16])
    ensures
        forall|i: int| 0 <= i < 16 ==> #[trigger] r[i] == charges_for(current_mana, SPELL_MANA_COSTS[i]),
        forall|i: int|
            0 <= i < 16 ==> (#[trigger] r[i]) as int * SPELL_MANA_COSTS[i] <= current_mana && (r[i] == 7
                || current_mana < (r[i] as int + 1) * SPELL_MANA_COSTS[i]),
{
    let mut charges = [0u8; 16];
    let mut i: usize = 0;
    while i < 16
        invariant
            i <= 16,
            forall|j: int| 0 <= j < i ==> #[trigger] charges[j] == charges_for(current_mana, SPELL_MANA_COSTS[j]),
            forall|j: int| i <= j < 16 ==> #[trigger] charges[j] == 0,
        decreases 16 - i,
    {
        let cost = SPELL_MANA_COSTS[i];
        if cost > 0 {
            let n = current_mana / cost;
            charges[i] = if n < 7 { n as u8 } else { 7 };
        } else {
            assert(charges_for(current_mana, cost) == 0);
        }
        i += 1;
    }
    proof {
        assert forall|i: int| 0 <= i < 16 implies (#[trigger] charges[i]) as int * SPELL_MANA_COSTS[i] <= current_mana && (
        charges[i] == 7 || current_mana < (charges[i] as int + 1) * SPELL_MANA_COSTS[i]) by {
            lemma_charges_affordable(current_mana, SPELL_MANA_COSTS[i]);
            assert(SPELL_MANA_COSTS[i] > 0);
        }
    }
    charges
}

pub open spec fn mana_rate_for_person_spec(subtype: u8) -> u32 {
    match subtype {
        2 => MANA_F_BRAVE,
        3 => MANA_F_WARR,
        4 => MANA_F_PREACH,
        5 => MANA_F_SPY,
        6 => MANA_F_SWARR,
        7 => MANA_F_SHAMEN,
        _ => 0,
    }
}

/// Mana per tick generated by a person (1 = Wild and unknown kinds give none).
pub fn mana_rate_for_person(subtype: u8) -> (r: u32)
    ensures
        r == mana_rate_for_person_spec(subtype),
{
    match subtype {
        2 => MANA_F_BRAVE,
        3 => MANA_F_WARR,
        4 => MANA_F_PREACH,
        5 => MANA_F_SPY,
        6 => MANA_F_SWARR,
        7 => MANA_F_SHAMEN,
        _ => 0,
    }
}

/// Mana per tick generated by a hut of level 1, 2 or 3 (other levels none).
pub fn mana_rate_for_housing(hut_level: u8) -> (r: u32)
    ensures
        r == match hut_level {
            1 => MANA_F_HUT_LEVEL_1,
            2 => MANA_F_HUT_LEVEL_2,
            3 => MANA_F_HUT_LEVEL_3,
            _ => 0u32,
        },
{
    match hut_level {
        1 => MANA_F_HUT_LEVEL_1,
        2 => MANA_F_HUT_LEVEL_2,
        3 => MANA_F_HUT_LEVEL_3,
        _ => 0,
    }
}

/// Add mana to a pool, capped at `MAX_MANA`.
pub fn add_mana(current: &mut u32, amount: u32)
    requires
        *old(current) + amount <= u32::MAX,
    ensures
        *final(current) == if *old(current) + amount < MAX_MANA { (*old(current) + amount) as u32 } else { MAX_MANA },
{
    let sum = *current + amount;
    *current = if sum < MAX_MANA { sum } else { MAX_MANA };
}

/// Take `amount` from a pool when it holds that much; report whether it did.
pub fn deduct_mana(current: &mut u32, amount: u32) -> (r: bool)
    ensures
        r == (*old(current) >= amount),
        r ==> *final(current) == *old(current) - amount,
        !r ==> *final(current) == *old(current),
{
    if *current >= amount {
        *current -= amount;
        true
    } else {
        false
    }
}

/// Adding mana never takes a pool within the cap beyond the cap.
pub proof fn lemma_add_mana_keeps_cap(before: u32, amount: u32)
    requires
        before <= MAX_MANA,
        before + amount <= u32::MAX,
    ensures
        (if before + amount < MAX_MANA { (before + amount) as u32 } else { MAX_MANA }) <= MAX_MANA,
        (if before + amount < MAX_MANA { (before + amount) as u32 } else { MAX_MANA }) >= before,
{
}

/// A successful deduction undoes an addition that stayed under the cap.
pub proof fn lemma_deduct_undoes_add(before: u32, amount: u32)
    requires
        before + amount < MAX_MANA,
    ensures
        ({
            let after_add = (before + amount) as u32;
            after_add >= amount && after_add - amount == before
        }),
{
}

} // verus!
