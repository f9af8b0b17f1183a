//! Knockback: a push away from an impact, and its decay.

use vstd::prelude::*;

use crate::engine::movement::math::{
    div_toward_zero, div_toward_zero_spec, half_toward_zero, halve_toward_zero, int_sqrt, isqrt,
    lemma_isqrt,
};
use crate::engine::movement::types::WorldCoord;

verus! {

/// Squared distance between two points given their axis differences.
pub open spec fn dist_sq_spec(dx: int, dz: int) -> int {
    dx * dx + dz * dz
}

/// The push along one axis: `force` scaled by that axis's share of the
/// distance, rounded toward zero and truncated to 16 bits.
pub open spec fn knock_component(d: int, force: u16, dist: int) -> i16 {
    div_toward_zero_spec(d * force, dist) as i16
}

/// Whether a knockback with these inputs stays within the machine's
/// integers: the axis differences fit 16 bits, their squares and their
/// products with the force fit 32 bits, and the new velocity fits 16 bits.
pub open spec fn knockback_in_range(target: WorldCoord, velocity: WorldCoord, impact: WorldCoord, force: u16) -> bool {
    let dx = target.x - impact.x;
    let dz = target.z - impact.z;
    let d2 = dist_sq_spec(dx, dz);
    &&& i16::MIN <= dx <= i16::MAX
    &&& i16::MIN <= dz <= i16::MAX
    &&& d2 <= i32::MAX
    &&& i32::MIN <= dx * force <= i32::MAX
    &&& i32::MIN <= dz * force <= i32::MAX
    &&& d2 >= 1 ==> i16::MIN <= velocity.x + knock_component(dx, force, isqrt(d2)) <= i16::MAX
    &&& d2 >= 1 ==> i16::MIN <= velocity.z + knock_component(dz, force, isqrt(d2)) <= i16::MAX
}

/// Push a target away from an impact point: its velocity gains `force`
/// along the direction from the impact to the target. A target right on
/// the impact point is not pushed.
pub fn apply_knockback(target_pos: &WorldCoord, target_velocity: &mut WorldCoord, impact_pos: &WorldCoord, force: u16)
    requires
        knockback_in_range(*target_pos, *old(target_velocity), *impact_pos, force),
    ensures
        ({
            let dx = target_pos.x - impact_pos.x;
            let dz = target_pos.z - impact_pos.z;
            let d2 = dist_sq_spec(dx, dz);
            &&& d2 < 1 ==> *final(target_velocity) == *old(target_velocity)
            &&& d2 >= 1 ==> final(target_velocity).x == old(target_velocity).x + knock_component(dx, force, isqrt(d2))
            &&& d2 >= 1 ==> final(target_velocity).z == old(target_velocity).z + knock_component(dz, force, isqrt(d2))
        }),
{
    let dx = (target_pos.x - impact_pos.x) as i32;
    let dz = (target_pos.z - impact_pos.z) as i32;
    assert(0 <= dx * dx <= 0x4000_0000 && 0 <= dz * dz <= 0x4000_0000) by (nonlinear_arith)
        requires
            -32768 <= dx <= 32767,
            -32768 <= dz <= 32767,
    ;
    let dist_sq = dx * dx + dz * dz;
    if dist_sq < 1 {
        return;
    }
    let root = int_sqrt(dist_sq as u32);
    proof {
        lemma_isqrt(dist_sq as int);
        assert(root <= 46341) by (nonlinear_arith)
            requires
                root * root <= dist_sq,
                dist_sq <= 0x7fff_ffff,
        ;
        assert(root >= 1) by (nonlinear_arith)
            requires
                dist_sq < (root + 1) * (root + 1),
                dist_sq >= 1,
                root >= 0,
        ;
    }
    let dist = root as i32;
    if dist == 0 {
        return;
    }
    let vx = div_toward_zero((dx * force as i32) as i64, dist as i64) as i16;
    let vz = div_toward_zero((dz * force as i32) as i64, dist as i64) as i16;
    target_velocity.x = target_velocity.x + vx;
    target_velocity.z = target_velocity.z + vz;
}

/// Friction: a knockback velocity halves each tick, rounding toward zero.
pub fn decay_knockback(velocity: &mut WorldCoord)
    ensures
        final(velocity).x == half_toward_zero(old(velocity).x),
        final(velocity).z == half_toward_zero(old(velocity).z),
{
    velocity.x = halve_toward_zero(velocity.x);
    velocity.z = halve_toward_zero(velocity.z);
}

/// Decay shrinks every non-zero velocity component and never changes its
/// sign, so a knockback dies out.
pub proof fn lemma_decay_shrinks(x: i16)
    ensures
        x > 0 ==> 0 <= half_toward_zero(x) < x,
        x < 0 ==> x < half_toward_zero(x) <= 0,
        x == 0 ==> half_toward_zero(x) == 0,
        x == 1 || x == -1 ==> half_toward_zero(x) == 0,
{
}

} // verus!
