//! Fighting occupants of guard buildings.

use vstd::prelude::*;

use super::types::{BuildingData, BuildingState, MAX_OCCUPANTS};
use crate::engine::objects::handle::ObjectHandle;

verus! {

pub const MAX_BUILDING_FIGHTERS: usize = 6;

/// Damage of one attack by a fighting occupant.
pub const BUILDING_ATTACK_DAMAGE: u16 = 100;

/// Combat action emitted by a building's combat tick.
#[derive(Debug, Clone, Copy, PartialEq, Eq, Structural)]
pub enum BuildingCombatAction {
    /// Nothing to do.
    Idle,
    AttackTarget { attacker_slot: usize, target: ObjectHandle, damage: u16 },
}

/// The attacks of the first `k` slots: each occupied slot below `fighters`
/// attacks `target`, in slot order.
pub open spec fn fighter_attacks(
    slots: Seq<Option<ObjectHandle>>,
    k: int,
    fighters: int,
    target: ObjectHandle,
) -> Seq<BuildingCombatAction>
    decreases k,
{
    if k <= 0 {
        Seq::empty()
    } else {
        let before = fighter_attacks(slots, k - 1, fighters, target);
        if slots[k - 1] is Some && k - 1 < fighters {
            before.push(
                BuildingCombatAction::AttackTarget {
                    attacker_slot: (k - 1) as usize,
                    target,
                    damage: BUILDING_ATTACK_DAMAGE,
                },
            )
        } else {
            before
        }
    }
}

/// The attacks a building makes in one tick.
pub open spec fn combat_actions_spec(b: BuildingData) -> Seq<BuildingCombatAction> {
    if b.state != BuildingState::Active || b.num_fighting == 0 || b.target_person is None {
        Seq::empty()
    } else {
        fighter_attacks(b.occupant_slots@, MAX_OCCUPANTS as int, b.num_fighting as int, b.target_person->0)
    }
}

/// An active building with fighters and a target: each occupied slot among
/// the first `num_fighting` attacks the target once.
pub fn tick_building_combat(building: &mut BuildingData, _building_handle: ObjectHandle) -> (r: Vec<BuildingCombatAction>)
    ensures
        r@ == combat_actions_spec(*old(building)),
        *final(building) == *old(building),
{
    let mut actions: Vec<BuildingCombatAction> = Vec::new();
    if building.state != BuildingState::Active {
        return actions;
    }
    if building.num_fighting == 0 {
        return actions;
    }
    match building.target_person {
        Some(target) => {
            let fighters = building.num_fighting as usize;
            let mut i: usize = 0;
            while i < MAX_OCCUPANTS
                invariant
                    i <= MAX_OCCUPANTS,
                    fighters == building.num_fighting,
                    actions@ == fighter_attacks(building.occupant_slots@, i as int, fighters as int, target),
                decreases MAX_OCCUPANTS - i,
            {
                if building.occupant_slots[i].is_some() && i < fighters {
                    actions.push(
                        BuildingCombatAction::AttackTarget {
                            attacker_slot: i,
                            target,
                            damage: BUILDING_ATTACK_DAMAGE,
                        },
                    );
                }
                i += 1;
            }
        },
        None => {},
    }
    actions
}

/// Set the number of fighting occupants, at most the number of occupants.
pub fn set_fighters(building: &mut BuildingData, count: u8)
    ensures
        *final(building) == (BuildingData {
            num_fighting: if count < old(building).occupant_count { count } else { old(building).occupant_count },
            ..*old(building)
        }),
{
    building.num_fighting = if count < building.occupant_count { count } else { building.occupant_count };
}

/// Set or clear the building's combat target.
pub fn set_building_target(building: &mut BuildingData, target: Option<ObjectHandle>)
    ensures
        *final(building) == (BuildingData { target_person: target, ..*old(building) }),
{
    building.target_person = target;
}

/// A building never makes more attacks than it has fighters or slots, and
/// each attack comes from a distinct occupied fighter slot and hits the
/// building's target.
pub proof fn lemma_attacks_from_fighters(
    slots: Seq<Option<ObjectHandle>>,
    k: int,
    fighters: int,
    target: ObjectHandle,
)
    requires
        0 <= k <= slots.len() <= MAX_OCCUPANTS,
    ensures
        fighter_attacks(slots, k, fighters, target).len() <= k,
        fighters >= 0 ==> fighter_attacks(slots, k, fighters, target).len() <= fighters,
        forall|j: int| 0 <= j < fighter_attacks(slots, k, fighters, target).len() ==> ({
            &&& (#[trigger] fighter_attacks(slots, k, fighters, target)[j]) matches BuildingCombatAction::AttackTarget {
                attacker_slot, target: t, damage }
            &&& attacker_slot < k && attacker_slot < fighters && slots[attacker_slot as int] is Some
            &&& t == target && damage == BUILDING_ATTACK_DAMAGE
        }),
    decreases k,
{
    if k > 0 {
        lemma_attacks_from_fighters(slots, k - 1, fighters, target);
        let before = fighter_attacks(slots, k - 1, fighters, target);
        let a = BuildingCombatAction::AttackTarget {
            attacker_slot: (k - 1) as usize,
            target,
            damage: BUILDING_ATTACK_DAMAGE,
        };
        if slots[k - 1] is Some && k - 1 < fighters {
            assert(fighter_attacks(slots, k, fighters, target) == before.push(a));
            assert forall|j: int| 0 <= j < before.len() + 1 implies ({
                &&& (#[trigger] before.push(a)[j]) matches BuildingCombatAction::AttackTarget {
                    attacker_slot, target: t, damage }
                &&& attacker_slot < k && attacker_slot < fighters && slots[attacker_slot as int] is Some
                &&& t == target && damage == BUILDING_ATTACK_DAMAGE
            }) by {
                if j < before.len() {
                    assert(before.push(a)[j] == before[j]);
                }
            }
        }
    }
}

} // verus!
