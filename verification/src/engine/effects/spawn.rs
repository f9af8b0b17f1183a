//! Spawning effects with their kind's defaults, and effects that follow
//! entities.

use vstd::prelude::*;

use super::types::{effect_defaults, effect_defaults_spec};
use super::{is_active, spawned_effect, Effect, EffectId, EffectPool, EFFECT_ATTACHED, MAX_EFFECTS};

verus! {

/// A freshly spawned effect with its kind's presentation defaults.
pub open spec fn spawned_with_defaults(effect_type: u8, x: i32, y: i32, z: i32, owner: u8) -> Effect {
    let d = effect_defaults_spec(effect_type);
    Effect { max_frame: d.0, flags: d.1, scale: d.2, alpha: d.3, ..spawned_effect(effect_type, x, y, z, owner) }
}

/// Spawn an effect at a position with its kind's frame count, flags, scale
/// and opacity; `None` when the pool is full.
pub fn spawn_at(pool: &mut EffectPool, effect_type: u8, x: i32, y: i32, z: i32, owner: u8) -> (r: Option<EffectId>)
    requires
        old(pool).wf(),
    ensures
        final(pool).wf(),
        r is None <==> old(pool).free_spec().len() == 0,
        r is None ==> *final(pool) == *old(pool),
        r matches Some(id) ==> {
            &&& id == old(pool).free_spec().last()
            &&& final(pool).slots_spec() == old(pool).slots_spec().update(
                id as int,
                spawned_with_defaults(effect_type, x, y, z, owner),
            )
            &&& final(pool).free_spec() == old(pool).free_spec().drop_last()
            &&& final(pool).count_spec() == old(pool).count_spec() + 1
        },
{
    let id = match pool.spawn(effect_type, x, y, z, owner) {
        Some(id) => id,
        None => return None,
    };
    let (max_frame, flags, scale, alpha) = effect_defaults(effect_type);
    match pool.get_mut(id) {
        Some(effect) => {
            effect.max_frame = max_frame;
            effect.flags = flags;
            effect.scale = scale;
            effect.alpha = alpha;
        },
        None => {},
    }
    Some(id)
}

/// Make an active effect follow entity `entity_id`.
pub fn attach_to_entity(pool: &mut EffectPool, effect_id: EffectId, entity_id: u32)
    requires
        old(pool).wf(),
    ensures
        final(pool).wf(),
        !old(pool).active_at(effect_id as int) ==> *final(pool) == *old(pool),
        old(pool).active_at(effect_id as int) ==> {
            let e = old(pool).slots_spec()[effect_id as int];
            &&& final(pool).slots_spec() == old(pool).slots_spec().update(
                effect_id as int,
                Effect { target: Some(entity_id), flags: e.flags | EFFECT_ATTACHED, ..e },
            )
            &&& final(pool).free_spec() == old(pool).free_spec()
            &&& final(pool).count_spec() == old(pool).count_spec()
        },
{
    match pool.get_mut(effect_id) {
        Some(effect) => {
            effect.target = Some(entity_id);
            effect.flags = effect.flags | EFFECT_ATTACHED;
        },
        None => {},
    }
}

/// Where an entity is, for the effects that follow it.
#[derive(Debug, Clone, Copy, PartialEq, Eq, Structural)]
pub struct EntityPosition {
    pub entity_id: u32,
    pub x: i32,
    pub y: i32,
    pub z: i32,
    pub alive: bool,
}

/// The first entity at or after index `i` with id `id`.
pub open spec fn find_entity_from(entities: Seq<EntityPosition>, id: u32, i: int) -> Option<EntityPosition>
    decreases entities.len() - i,
{
    if i < 0 || i >= entities.len() {
        None
    } else if entities[i].entity_id == id {
        Some(entities[i])
    } else {
        find_entity_from(entities, id, i + 1)
    }
}

/// An effect after following its entity: an attached effect whose target is
/// alive takes the target's position; one whose target is dead or missing is
/// detached. Other effects are unchanged.
pub open spec fn follow_entity(e: Effect, entities: Seq<EntityPosition>) -> Effect {
    if !is_active(e) || e.flags & EFFECT_ATTACHED == 0 || e.target is None {
        e
    } else {
        match find_entity_from(entities, e.target->0, 0) {
            Some(ent) => if ent.alive {
                Effect { x: ent.x, y: ent.y, z: ent.z, ..e }
            } else {
                Effect { target: None, flags: e.flags & !EFFECT_ATTACHED, ..e }
            },
            None => Effect { target: None, flags: e.flags & !EFFECT_ATTACHED, ..e },
        }
    }
}

fn find_entity(entities: &[EntityPosition], id: u32) -> (r: Option<EntityPosition>)
    ensures
        r == find_entity_from(entities@, id, 0),
{
    let mut i: usize = 0;
    while i < entities.len()
        invariant
            i <= entities@.len(),
            find_entity_from(entities@, id, 0) == find_entity_from(entities@, id, i as int),
        decreases entities@.len() - i,
    {
        if entities[i].entity_id == id {
            return Some(entities[i]);
        }
        i += 1;
    }
    None
}

/// Move each attached effect to its entity, detaching those whose entity is
/// dead or gone.
pub fn update_attached_positions(pool: &mut EffectPool, entities: &[EntityPosition])
    requires
        old(pool).wf(),
    ensures
        final(pool).wf(),
        final(pool).slots_spec() == Seq::new(
            MAX_EFFECTS as nat,
            |j: int| follow_entity(old(pool).slots_spec()[j], entities@),
        ),
        final(pool).free_spec() == old(pool).free_spec(),
        final(pool).count_spec() == old(pool).count_spec(),
{
    proof {
        old(pool).lemma_wf_counts();
    }
    let ghost s0 = pool.slots_spec();
    let mut i: usize = 0;
    while i < MAX_EFFECTS
        invariant
            i <= MAX_EFFECTS,
            s0 == old(pool).slots_spec(),
            s0.len() == MAX_EFFECTS,
            pool.wf(),
            pool.slots_spec().len() == MAX_EFFECTS,
            forall|j: int| 0 <= j < i ==> pool.slots_spec()[j] == follow_entity(s0[j], entities@),
            forall|j: int| i <= j < MAX_EFFECTS ==> pool.slots_spec()[j] == s0[j],
            pool.free_spec() == old(pool).free_spec(),
            pool.count_spec() == old(pool).count_spec(),
        decreases MAX_EFFECTS - i,
    {
        proof {
            pool.lemma_wf_counts();
        }
        match pool.get_mut(i as u16) {
            Some(effect) => {
                if effect.flags & EFFECT_ATTACHED != 0 {
                    match effect.target {
                        Some(target_id) => {
                            match find_entity(entities, target_id) {
                                Some(ent) => {
                                    if ent.alive {
                                        effect.x = ent.x;
                                        effect.y = ent.y;
                                        effect.z = ent.z;
                                    } else {
                                        effect.target = None;
                                        effect.flags = effect.flags & !EFFECT_ATTACHED;
                                    }
                                },
                                None => {
                                    effect.target = None;
                                    effect.flags = effect.flags & !EFFECT_ATTACHED;
                                },
                            }
                        },
                        None => {},
                    }
                }
            },
            None => {},
        }
        i += 1;
    }
    assert(pool.slots_spec() =~= Seq::new(MAX_EFFECTS as nat, |j: int| follow_entity(s0[j], entities@)));
}

pub open spec fn spell_effect_spec(spell_type: u8) -> Option<u8> {
    if 0x01 <= spell_type <= 0x0C {
        Some(spell_type)
    } else {
        None
    }
}

/// Spawn the visual effect of a spell's impact. Each of the twelve spells,
/// 0x01 (burn) to 0x0C (shield), has the effect of the same value; other
/// values spawn nothing.
pub fn spawn_on_spell_impact(pool: &mut EffectPool, spell_type: u8, x: i32, y: i32, z: i32, caster_tribe: u8)
    requires
        old(pool).wf(),
    ensures
        final(pool).wf(),
        spell_effect_spec(spell_type) is None || old(pool).free_spec().len() == 0 ==> *final(pool) == *old(pool),
        spell_effect_spec(spell_type) is Some && old(pool).free_spec().len() > 0 ==> {
            &&& final(pool).slots_spec() == old(pool).slots_spec().update(
                old(pool).free_spec().last() as int,
                spawned_with_defaults(spell_type, x, y, z, caster_tribe),
            )
            &&& final(pool).free_spec() == old(pool).free_spec().drop_last()
            &&& final(pool).count_spec() == old(pool).count_spec() + 1
        },
{
    let effect_type: u8 = if 0x01 <= spell_type && spell_type <= 0x0C {
        spell_type
    } else {
        return ;
    };
    let _ = spawn_at(pool, effect_type, x, y, z, caster_tribe);
}

} // verus!
