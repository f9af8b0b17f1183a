//! Projectiles in flight.

use vstd::prelude::*;

use super::knockback::dist_sq_spec;
use crate::engine::movement::math::{div_toward_zero, div_toward_zero_spec, int_sqrt, isqrt, lemma_isqrt};
use crate::engine::movement::types::WorldCoord;
use crate::engine::objects::handle::ObjectHandle;
use crate::engine::objects::types::ObjectHeader;

verus! {

/// Shot types.
pub const SHOT_STANDARD: u8 = 1;
pub const SHOT_TRAIL: u8 = 2;
pub const SHOT_FIREBALL: u8 = 4;

/// A shot in flight.
#[derive(Debug, Clone, Copy, PartialEq, Eq, Structural)]
pub struct ShotData {
    pub shot_type: u8,
    pub target_handle: Option<ObjectHandle>,
    /// Where the shot flies; used also when its target is gone.
    pub target_pos: WorldCoord,
    pub damage: u16,
    pub aoe_radius: u16,
    pub knockback_force: u16,
    pub lifetime: u16,
    /// World units per tick.
    pub speed: u16,
    /// Who fired the shot.
    pub source_handle: Option<ObjectHandle>,
}

pub open spec fn default_shot() -> ShotData {
    ShotData {
        shot_type: SHOT_STANDARD,
        target_handle: None,
        target_pos: WorldCoord { x: 0, z: 0 },
        damage: 100,
        aoe_radius: 0,
        knockback_force: 0,
        lifetime: 120,
        speed: 64,
        source_handle: None,
    }
}

impl Default for ShotData {
    /// A standard shot with no target: 100 damage, 120 ticks to live, 64
    /// units a tick.
    fn default() -> (r: Self)
        ensures
            r == default_shot(),
    {
        ShotData {
            shot_type: SHOT_STANDARD,
            target_handle: None,
            target_pos: WorldCoord { x: 0, z: 0 },
            damage: 100,
            aoe_radius: 0,
            knockback_force: 0,
            lifetime: 120,
            speed: 64,
            source_handle: None,
        }
    }
}

/// Result of a projectile tick.
#[derive(Debug, Clone, Copy, PartialEq, Eq, Structural)]
pub enum ProjectileResult {
    Continue,
    Impact { position: WorldCoord, damage: u16, aoe_radius: u16, knockback_force: u16 },
    Expired,
}

/// The step of a shot along one axis: its speed scaled by that axis's share
/// of the distance, rounded toward zero and truncated to 16 bits.
pub open spec fn shot_step(d: int, speed: u16, dist: int) -> i16 {
    div_toward_zero_spec(d * speed, dist) as i16
}

/// Whether a shot that is not yet at its target stays within the machine's
/// integers this tick.
pub open spec fn shot_in_range(shot: ShotData, pos: WorldCoord) -> bool {
    let dx = shot.target_pos.x - pos.x;
    let dz = shot.target_pos.z - pos.z;
    let d2 = dist_sq_spec(dx, dz);
    &&& i16::MIN <= dx <= i16::MAX
    &&& i16::MIN <= dz <= i16::MAX
    &&& d2 > shot.speed * shot.speed ==> i16::MIN <= pos.x + shot_step(dx, shot.speed, isqrt(d2)) <= i16::MAX
    &&& d2 > shot.speed * shot.speed ==> i16::MIN <= pos.z + shot_step(dz, shot.speed, isqrt(d2)) <= i16::MAX
}

/// One tick of a shot. A shot out of lifetime expires; otherwise it loses a
/// tick of lifetime and, when its target is within one step, lands there
/// and hits; else it moves one step, `speed` units, toward the target.
pub fn tick_projectile(shot: &mut ShotData, header: &mut ObjectHeader) -> (r: ProjectileResult)
    requires
        old(shot).lifetime > 0 ==> shot_in_range(*old(shot), old(header).position),
    ensures
        old(shot).lifetime == 0 ==> r == ProjectileResult::Expired && *final(shot) == *old(shot)
            && *final(header) == *old(header),
        old(shot).lifetime > 0 ==> *final(shot) == (ShotData { lifetime: (old(shot).lifetime - 1) as u16, ..*old(shot) }),
        old(shot).lifetime > 0 ==> ({
            let dx = old(shot).target_pos.x - old(header).position.x;
            let dz = old(shot).target_pos.z - old(header).position.z;
            let d2 = dist_sq_spec(dx, dz);
            &&& d2 <= old(shot).speed * old(shot).speed ==> r == (ProjectileResult::Impact {
                position: old(shot).target_pos,
                damage: old(shot).damage,
                aoe_radius: old(shot).aoe_radius,
                knockback_force: old(shot).knockback_force,
            }) && *final(header) == (ObjectHeader { position: old(shot).target_pos, ..*old(header) })
            &&& d2 > old(shot).speed * old(shot).speed ==> r == ProjectileResult::Continue
                && *final(header) == (ObjectHeader {
                position: WorldCoord {
                    x: (old(header).position.x + shot_step(dx, old(shot).speed, isqrt(d2))) as i16,
                    z: (old(header).position.z + shot_step(dz, old(shot).speed, isqrt(d2))) as i16,
                },
                ..*old(header)
            })
        }),
{
    if shot.lifetime == 0 {
        return ProjectileResult::Expired;
    }
    shot.lifetime = shot.lifetime - 1;
    let dx = (shot.target_pos.x - header.position.x) as i32;
    let dz = (shot.target_pos.z - header.position.z) as i32;
    assert(0 <= dx * dx <= 0x4000_0000 && 0 <= dz * dz <= 0x4000_0000) by (nonlinear_arith)
        requires
            -32768 <= dx <= 32767,
            -32768 <= dz <= 32767,
    ;
    let dist_sq = (dx as i64 * dx as i64 + dz as i64 * dz as i64) as u64;
    let speed = shot.speed as i64;
    assert(speed * speed <= 65535 * 65535) by (nonlinear_arith)
        requires
            0 <= speed <= 65535,
    ;
    if dist_sq <= (speed * speed) as u64 {
        header.position = shot.target_pos;
        return ProjectileResult::Impact {
            position: shot.target_pos,
            damage: shot.damage,
            aoe_radius: shot.aoe_radius,
            knockback_force: shot.knockback_force,
        };
    }
    let root = int_sqrt(dist_sq as u32);
    proof {
        lemma_isqrt(dist_sq as int);
        assert(root <= 46341) by (nonlinear_arith)
            requires
                root * root <= dist_sq,
                dist_sq <= 0x8000_0000,
        ;
        assert(root >= 1) by (nonlinear_arith)
            requires
                dist_sq < (root + 1) * (root + 1),
                dist_sq >= 1,
                root >= 0,
        ;
    }
    let dist = root as i32;
    assert(-32768 * 65535 <= dx * speed <= 32767 * 65535) by (nonlinear_arith)
        requires
            -32768 <= dx <= 32767,
            0 <= speed <= 65535,
    ;
    assert(-32768 * 65535 <= dz * speed <= 32767 * 65535) by (nonlinear_arith)
        requires
            -32768 <= dz <= 32767,
            0 <= speed <= 65535,
    ;
    if dist > 0 {
        let move_x = div_toward_zero(dx as i64 * speed, dist as i64) as i16;
        let move_z = div_toward_zero(dz as i64 * speed, dist as i64) as i16;
        header.position.x = header.position.x + move_x;
        header.position.z = header.position.z + move_z;
    }
    ProjectileResult::Continue
}

/// A drum tower's shot: 150 damage over a radius of 2 with a knockback of
/// 64, living 180 ticks and flying 48 units a tick.
pub fn drum_tower_shot(target_pos: WorldCoord, target_handle: Option<ObjectHandle>) -> (r: ShotData)
    ensures
        r == (ShotData {
            shot_type: SHOT_STANDARD,
            target_handle,
            target_pos,
            damage: 150,
            aoe_radius: 2,
            knockback_force: 64,
            lifetime: 180,
            speed: 48,
            source_handle: None,
        }),
{
    ShotData {
        shot_type: SHOT_STANDARD,
        target_handle,
        target_pos,
        damage: 150,
        aoe_radius: 2,
        knockback_force: 64,
        lifetime: 180,
        speed: 48,
        source_handle: None,
    }
}

} // verus!
