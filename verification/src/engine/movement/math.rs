//! Integer math of the movement system: angle arithmetic in the 11-bit angle
//! system (2048 units per turn), fixed-point stepping, an octant arctangent,
//! an integer square root and distance on the toroidal world.

use vstd::prelude::*;
use vstd::arithmetic::power2::{lemma2_to64, pow2};

use super::constants::{
    ANGLE_FULL, ANGLE_HALF, ANGLE_MASK, RNG_INCREMENT, RNG_MULTIPLIER, WORLD_SIZE,
    WORLD_WRAP_THRESHOLD,
};
use super::tables::{cos_entry, cos_table, sin_entry, sin_table, ATAN_TABLE, SQRT_ESTIMATES};
use super::types::WorldCoord;

verus! {

pub open spec fn abs_int(v: int) -> int {
    if v < 0 { -v } else { v }
}

/// Absolute difference of two angles folded into half a turn.
pub open spec fn angle_difference_spec(a: i16, b: i16) -> int {
    let diff = abs_int(a - b);
    if diff > ANGLE_HALF { ANGLE_FULL - diff } else { diff }
}

/// Absolute angular difference, folded to 0..=0x400 for angles within one
/// turn.
pub fn angle_difference(a: i16, b: i16) -> (r: i32)
    ensures
        r == angle_difference_spec(a, b),
{
    let d = (a as i32) - (b as i32);
    let diff = if d < 0 { -d } else { d };
    if diff > ANGLE_HALF {
        ANGLE_FULL - diff
    } else {
        diff
    }
}

/// The signed difference `target - current` brought to the shortest way
/// round: a difference longer than half a turn is taken the other way.
pub open spec fn shortest_turn(target: i16, current: i16) -> int {
    let diff = target - current;
    if abs_int(diff) > ANGLE_HALF {
        if diff < 0 { diff + ANGLE_FULL } else { diff - ANGLE_FULL }
    } else {
        diff
    }
}

/// Direction of the shortest turn from `current` to `target`: +1, -1, or 0
/// when the angles are equal.
pub fn rotation_direction(target: i16, current: i16) -> (r: i16)
    ensures
        target == current ==> r == 0,
        target != current ==> (r == 1 <==> shortest_turn(target, current) >= 0),
        target != current ==> (r == -1 <==> shortest_turn(target, current) < 0),
{
    let mut diff = (target as i32) - (current as i32);
    if diff == 0 {
        return 0;
    }
    let abs_diff = if diff < 0 { -diff } else { diff };
    if abs_diff > ANGLE_HALF {
        if diff < 0 {
            diff += ANGLE_FULL;
        } else {
            diff -= ANGLE_FULL;
        }
    }
    if diff >= 0 {
        1
    } else {
        -1
    }
}

/// Fixed-point step along one axis: `(table * speed) >> 16`, truncated to 16
/// bits.
pub open spec fn fixed_step(table_value: int, speed: i16) -> i16 {
    (((table_value * speed) as i64) >> 16) as i16
}

/// Position after moving `speed` units along compass heading `angle`
/// (0 = north, +z; 512 = east, +x), wrapping on the 16-bit torus.
pub open spec fn moved_point(p: WorldCoord, angle: u16, speed: i16) -> WorldCoord {
    if speed == 0 {
        p
    } else {
        let idx = (angle & ANGLE_MASK) as int;
        WorldCoord {
            x: vstd::wrapping::i16_specs::wrapping_add(p.x, fixed_step(sin_entry(idx), speed)),
            z: vstd::wrapping::i16_specs::wrapping_add(p.z, fixed_step(cos_entry(idx), speed)),
        }
    }
}

/// Advance a point by `(sin(angle) * speed, cos(angle) * speed)` using the
/// 16.16 fixed-point tables.
pub fn move_point_by_angle(coord: &mut WorldCoord, angle: u16, speed: i16)
    ensures
        *final(coord) == moved_point(*old(coord), angle, speed),
{
    if speed == 0 {
        return;
    }
    let idx = angle & ANGLE_MASK;
    assert(idx < 2048) by (bit_vector)
        requires idx == angle & 0x7FF;
    let idx = idx as usize;
    let dist = speed as i32;
    let s = sin_table(idx);
    let c = cos_table(idx);
    proof {
        assert(-0x1_0000_0000 <= s * dist <= 0x1_0000_0000) by (nonlinear_arith)
            requires -65536 <= s <= 65536, -32768 <= dist <= 32767;
        assert(-0x1_0000_0000 <= c * dist <= 0x1_0000_0000) by (nonlinear_arith)
            requires -65536 <= c <= 65536, -32768 <= dist <= 32767;
    }
    let dx = ((s as i64 * dist as i64) >> 16) as i16;
    let dz = ((c as i64 * dist as i64) >> 16) as i16;
    coord.x = coord.x.wrapping_add(dx);
    coord.z = coord.z.wrapping_add(dz);
}

/// Arctangent table entry for a ratio scaled by 256, saturated at 255.
pub open spec fn atan_at(ratio: int) -> int {
    ATAN_TABLE[if ratio < 255 { ratio } else { 255 }] as int
}

/// The 8-octant arctangent: the ratio of the shorter to the longer absolute
/// component (scaled by 256) selects a table angle, which each octant
/// reflects and offsets. The result is reduced to one turn.
pub open spec fn atan2_spec(dx: i32, dy: i32) -> int {
    let ax = abs_int(dx as int);
    let ay = abs_int(dy as int);
    if dx == 0 && dy == 0 {
        0
    } else {
        let steep = ax < ay;
        let ratio = if !steep { ((ay * 256) % 0x1_0000_0000) / ax } else { ((ax * 256) % 0x1_0000_0000) / ay };
        let base = atan_at(ratio);
        let raw = if dx >= 0 {
            if dy >= 0 {
                if !steep { base + 0x200 } else { 0x400 - base }
            } else {
                if !steep { 0x200 - base } else { base }
            }
        } else {
            if dy >= 0 {
                if !steep { 0x600 - base } else { base + 0x400 }
            } else {
                if !steep { base + 0x600 } else { 0x800 - base }
            }
        };
        raw % 0x800
    }
}

/// Headings mirror across the north-south axis: negating `dx` reflects the
/// heading, from `a` to `0x800 - a` (within one turn). So a step to the
/// west (`dx < 0`) heads into the half turn 0x400..0x800 (or 0), a step to
/// the east into 0..=0x400.
pub proof fn lemma_atan2_mirror(dx: i32, dy: i32)
    requires
        dx != 0,
        dx != i32::MIN,
    ensures
        atan2_spec((-dx) as i32, dy) == (0x800 - atan2_spec(dx, dy)) % 0x800,
        dx > 0 ==> atan2_spec(dx, dy) <= 0x400,
        dx < 0 ==> atan2_spec(dx, dy) == 0 || 0x400 <= atan2_spec(dx, dy),
{
    lemma_atan_table_bounds();
    let ax = abs_int(dx as int);
    let ay = abs_int(dy as int);
    assert(abs_int(((-dx) as i32) as int) == ax);
    let steep = ax < ay;
    let ratio = if !steep { ((ay * 256) % 0x1_0000_0000) / ax } else { ((ax * 256) % 0x1_0000_0000) / ay };
    if !steep {
        vstd::arithmetic::div_mod::lemma_div_pos_is_pos((ay * 256) % 0x1_0000_0000, ax);
    } else {
        vstd::arithmetic::div_mod::lemma_div_pos_is_pos((ax * 256) % 0x1_0000_0000, ay);
    }
    assert(ratio >= 0);
    let idx = if ratio < 255 { ratio } else { 255 };
    assert(ATAN_TABLE[idx] <= 256);
}

/// Headings mirror across the east-west axis: negating `dy` takes the
/// heading from `a` to `0x400 - a` (within one turn). A step along the
/// axis itself heads due east (0x200) or due west (0x600).
pub proof fn lemma_atan2_flip_dy(dx: i32, dy: i32)
    requires
        dx != 0 || dy != 0,
        dy != i32::MIN,
    ensures
        atan2_spec(dx, (-dy) as i32) == (0x800 + 0x400 - atan2_spec(dx, dy)) % 0x800,
        dy == 0 && dx > 0 ==> atan2_spec(dx, dy) == 0x200,
        dy == 0 && dx < 0 ==> atan2_spec(dx, dy) == 0x600,
{
    lemma_atan_table_bounds();
    let ax = abs_int(dx as int);
    let ay = abs_int(dy as int);
    assert(abs_int(((-dy) as i32) as int) == ay);
    let steep = ax < ay;
    let ratio = if !steep { ((ay * 256) % 0x1_0000_0000) / ax } else { ((ax * 256) % 0x1_0000_0000) / ay };
    if !steep {
        vstd::arithmetic::div_mod::lemma_div_pos_is_pos((ay * 256) % 0x1_0000_0000, ax);
    } else {
        vstd::arithmetic::div_mod::lemma_div_pos_is_pos((ax * 256) % 0x1_0000_0000, ay);
    }
    if dy == 0 {
        vstd::arithmetic::div_mod::lemma_small_mod(0, ax as nat);
        assert(ratio == 0);
    }
    let idx = if ratio < 255 { ratio } else { 255 };
    assert(ATAN_TABLE[idx] <= 256);
    assert(ATAN_TABLE[0] == 0);
}

fn unsigned_abs_i32(v: i32) -> (r: u32)
    ensures
        r == abs_int(v as int),
{
    if v < 0 {
        (0i64 - v as i64) as u32
    } else {
        v as u32
    }
}

fn atan_lookup(num: u32, den: u32) -> (r: u16)
    requires
        den > 0,
    ensures
        r == atan_at(((num as int * 256) % 0x1_0000_0000) / den as int),
        r <= 256,
{
    let shifted = num << 8;
    assert(shifted == (num as int * 256) % 0x1_0000_0000) by (bit_vector)
        requires shifted == num << 8;
    let ratio = (shifted / den) as usize;
    let idx = if ratio < 255 { ratio } else { 255 };
    proof {
        lemma_atan_table_bounds();
    }
    ATAN_TABLE[idx]
}

/// Every arctangent table entry is at most 256 (an eighth of a turn).
pub proof fn lemma_atan_table_bounds()
    ensures
        forall|i: int| 0 <= i < 256 ==> #[trigger] ATAN_TABLE[i] <= 256,
{
    assert forall|i: int| 0 <= i < 256 implies #[trigger] ATAN_TABLE[i] <= 256 by {
        assert(ATAN_TABLE@.len() == 256);
    }
}

/// 8-octant arctangent of `(dx, dy)` in 11-bit angle units (0..0x800).
pub fn atan2(dx: i32, dy: i32) -> (r: u16)
    ensures
        r == atan2_spec(dx, dy),
        r < 0x800,
{
    if dx == 0 && dy == 0 {
        return 0;
    }
    let abs_dx = unsigned_abs_i32(dx);
    let abs_dy = unsigned_abs_i32(dy);
    let raw: u32 = if abs_dx >= abs_dy {
        let base = atan_lookup(abs_dy, abs_dx) as u32;
        if dx >= 0 {
            if dy >= 0 { base + 0x200 } else { 0x200 - base }
        } else {
            if dy >= 0 { 0x600 - base } else { base + 0x600 }
        }
    } else {
        let base = atan_lookup(abs_dx, abs_dy) as u32;
        if dx >= 0 {
            if dy >= 0 { 0x400 - base } else { base }
        } else {
            if dy >= 0 { base + 0x400 } else { 0x800 - base }
        }
    };
    (raw % 0x800) as u16
}

/// `r` is the integer square root of `n`.
pub open spec fn is_int_sqrt(n: int, r: int) -> bool {
    0 <= r && r * r <= n && n < (r + 1) * (r + 1)
}

proof fn lemma_newton_step(n: int, g: int, q: int, g2: int)
    requires
        g > 0,
        q == n / g,
        q < g,
        g2 == (g + q) / 2,
        n >= 0,
    ensures
        n < (g2 + 1) * (g2 + 1),
        g2 < g,
{
    assert(n < (q + 1) * g) by (nonlinear_arith)
        requires
            g > 0,
            q == n / g,
            n >= 0,
    ;
    assert(2 * g2 + 2 >= g + q + 1);
    assert(q >= 0) by (nonlinear_arith)
        requires g > 0, q == n / g, n >= 0;
    assert((g + q + 1) * (g + q + 1) >= 4 * g * (q + 1)) by (nonlinear_arith);
    let a = 2 * g2 + 2;
    let b = g + q + 1;
    assert(a * a >= b * b) by (nonlinear_arith)
        requires a >= b, b >= 0;
    assert(4 * ((g2 + 1) * (g2 + 1)) == a * a) by (nonlinear_arith)
        requires a == 2 * g2 + 2;
    assert(4 * n < 4 * ((q + 1) * g));
    assert(4 * g * (q + 1) == 4 * ((q + 1) * g)) by (nonlinear_arith);
}

proof fn lemma_sqrt_estimate(b: int, n: int)
    requires
        0 <= b < 32,
        n < 2 * pow2(b as nat),
    ensures
        n < (SQRT_ESTIMATES[b] + 1) * (SQRT_ESTIMATES[b] + 1),
        1 <= SQRT_ESTIMATES[b] <= 0xFFFF,
{
    lemma2_to64();
    assert(SQRT_ESTIMATES@.len() == 32);
    if b == 0 {
        assert(SQRT_ESTIMATES[0] == 1);
        assert(pow2(0) == 1);
    } else if b == 1 {
        assert(SQRT_ESTIMATES[1] == 2);
        assert(pow2(1) == 2);
    } else if b == 2 {
        assert(SQRT_ESTIMATES[2] == 2);
        assert(pow2(2) == 4);
    } else if b == 3 {
        assert(SQRT_ESTIMATES[3] == 4);
        assert(pow2(3) == 8);
    } else if b == 4 {
        assert(SQRT_ESTIMATES[4] == 5);
        assert(pow2(4) == 16);
    } else if b == 5 {
        assert(SQRT_ESTIMATES[5] == 8);
        assert(pow2(5) == 32);
    } else if b == 6 {
        assert(SQRT_ESTIMATES[6] == 11);
        assert(pow2(6) == 64);
    } else if b == 7 {
        assert(SQRT_ESTIMATES[7] == 16);
        assert(pow2(7) == 128);
    } else if b == 8 {
        assert(SQRT_ESTIMATES[8] == 22);
        assert(pow2(8) == 256);
    } else if b == 9 {
        assert(SQRT_ESTIMATES[9] == 32);
        assert(pow2(9) == 512);
    } else if b == 10 {
        assert(SQRT_ESTIMATES[10] == 45);
        assert(pow2(10) == 1024);
    } else if b == 11 {
        assert(SQRT_ESTIMATES[11] == 64);
        assert(pow2(11) == 2048);
    } else if b == 12 {
        assert(SQRT_ESTIMATES[12] == 90);
        assert(pow2(12) == 4096);
    } else if b == 13 {
        assert(SQRT_ESTIMATES[13] == 128);
        assert(pow2(13) == 8192);
    } else if b == 14 {
        assert(SQRT_ESTIMATES[14] == 181);
        assert(pow2(14) == 16384);
    } else if b == 15 {
        assert(SQRT_ESTIMATES[15] == 256);
        assert(pow2(15) == 32768);
    } else if b == 16 {
        assert(SQRT_ESTIMATES[16] == 362);
        assert(pow2(16) == 65536);
    } else if b == 17 {
        assert(SQRT_ESTIMATES[17] == 512);
        assert(pow2(17) == 131072);
    } else if b == 18 {
        assert(SQRT_ESTIMATES[18] == 724);
        assert(pow2(18) == 262144);
    } else if b == 19 {
        assert(SQRT_ESTIMATES[19] == 1024);
        assert(pow2(19) == 524288);
    } else if b == 20 {
        assert(SQRT_ESTIMATES[20] == 1448);
        assert(pow2(20) == 1048576);
    } else if b == 21 {
        assert(SQRT_ESTIMATES[21] == 2048);
        assert(pow2(21) == 2097152);
    } else if b == 22 {
        assert(SQRT_ESTIMATES[22] == 2896);
        assert(pow2(22) == 4194304);
    } else if b == 23 {
        assert(SQRT_ESTIMATES[23] == 4096);
        assert(pow2(23) == 8388608);
    } else if b == 24 {
        assert(SQRT_ESTIMATES[24] == 5792);
        assert(pow2(24) == 16777216);
    } else if b == 25 {
        assert(SQRT_ESTIMATES[25] == 8192);
        assert(pow2(25) == 33554432);
    } else if b == 26 {
        assert(SQRT_ESTIMATES[26] == 11585);
        assert(pow2(26) == 67108864);
    } else if b == 27 {
        assert(SQRT_ESTIMATES[27] == 16384);
        assert(pow2(27) == 134217728);
    } else if b == 28 {
        assert(SQRT_ESTIMATES[28] == 23170);
        assert(pow2(28) == 268435456);
    } else if b == 29 {
        assert(SQRT_ESTIMATES[29] == 32768);
        assert(pow2(29) == 536870912);
    } else if b == 30 {
        assert(SQRT_ESTIMATES[30] == 46340);
        assert(pow2(30) == 1073741824);
    } else {
        assert(SQRT_ESTIMATES[31] == 65535);
        assert(pow2(31) == 2147483648);
    }
}

/// The integer square root of `n`.
pub open spec fn isqrt(n: int) -> int {
    choose|r: int| is_int_sqrt(n, r)
}

/// A number has at most one integer square root.
pub proof fn lemma_int_sqrt_unique(n: int, a: int, b: int)
    requires
        is_int_sqrt(n, a),
        is_int_sqrt(n, b),
    ensures
        a == b,
{
    if a < b {
        assert((a + 1) * (a + 1) <= b * b) by (nonlinear_arith)
            requires 0 <= a, a + 1 <= b;
    }
    if b < a {
        assert((b + 1) * (b + 1) <= a * a) by (nonlinear_arith)
            requires 0 <= b, b + 1 <= a;
    }
}

/// Every natural number has an integer square root.
pub proof fn lemma_isqrt(n: int)
    requires
        n >= 0,
    ensures
        is_int_sqrt(n, isqrt(n)),
    decreases n,
{
    if n == 0 {
        assert(is_int_sqrt(0, 0));
    } else {
        lemma_isqrt(n - 1);
        let r = isqrt(n - 1);
        if (r + 1) * (r + 1) <= n {
            assert((r + 1) * (r + 1) == n) by (nonlinear_arith)
                requires (r + 1) * (r + 1) <= n, n - 1 < (r + 1) * (r + 1);
            assert(n < (r + 2) * (r + 2)) by (nonlinear_arith)
                requires (r + 1) * (r + 1) == n, r >= 0;
            assert(is_int_sqrt(n, r + 1));
        } else {
            assert(is_int_sqrt(n, r));
        }
    }
}

/// A signed value halved, rounding toward zero as Rust's `/` does.
pub open spec fn half_toward_zero(x: i16) -> i16 {
    if x >= 0 {
        (x / 2) as i16
    } else {
        (-((-x) / 2)) as i16
    }
}

/// Halve a signed value, rounding toward zero.
pub fn halve_toward_zero(x: i16) -> (r: i16)
    ensures
        r == half_toward_zero(x),
{
    let v = x as i32;
    if v >= 0 {
        (v / 2) as i16
    } else {
        (-((-v) / 2)) as i16
    }
}

/// Quotient rounded toward zero, as Rust's `/` computes it.
pub open spec fn div_toward_zero_spec(a: int, b: int) -> int {
    if a >= 0 {
        a / b
    } else {
        -((-a) / b)
    }
}

/// Divide, rounding toward zero.
pub fn div_toward_zero(a: i64, b: i64) -> (r: i64)
    requires
        b > 0,
        a > i64::MIN,
    ensures
        r == div_toward_zero_spec(a as int, b as int),
{
    if a >= 0 {
        a / b
    } else {
        -((-a) / b)
    }
}

/// Integer square root: a first estimate picked by the highest set bit,
/// refined by Newton-Raphson steps.
pub fn int_sqrt(n: u32) -> (r: u32)
    ensures
        is_int_sqrt(n as int, r as int),
        r == isqrt(n as int),
{
    if n == 0 {
        proof {
            lemma_isqrt(0);
            lemma_int_sqrt_unique(0, 0, isqrt(0));
        }
        return 0;
    }
    // Position of the highest set bit.
    let mut bsr: u32 = 0;
    let mut m: u32 = n;
    let ghost mut p: int = 1;
    proof {
        lemma2_to64();
    }
    while m > 1
        invariant
            m >= 1,
            p >= 1,
            bsr < 32,
            p == pow2(bsr as nat),
            p * m <= n,
            n < p * (m + 1),
            p * m >= 1,
        decreases m,
    {
        proof {
            vstd::arithmetic::power2::lemma_pow2_unfold((bsr + 1) as nat);
            assert(p * 2 * (m / 2) <= p * m) by (nonlinear_arith)
                requires p >= 1, m >= 1;
            assert(p * (m + 1) <= p * 2 * (m / 2 + 1)) by (nonlinear_arith)
                requires p >= 1, m >= 1;
            assert(p * 2 * (m / 2) >= 1) by (nonlinear_arith)
                requires p >= 1, m >= 2;
            if bsr >= 31 {
                lemma2_to64();
                assert(p * m >= 0x1_0000_0000) by (nonlinear_arith)
                    requires p == 0x8000_0000, m >= 2;
            }
        }
        m = m / 2;
        bsr = bsr + 1;
        proof {
            p = p * 2;
        }
    }
    proof {
        assert(p * m == p) by (nonlinear_arith)
            requires m == 1;
        lemma_sqrt_estimate(bsr as int, n as int);
    }
    let mut guess = SQRT_ESTIMATES[bsr as usize];
    loop
        invariant
            n > 0,
            1 <= guess <= 0xFFFF,
            (n as int) < (guess + 1) * (guess + 1),
        ensures
            1 <= guess <= 0xFFFF,
            guess * guess <= n,
            (n as int) < (guess + 1) * (guess + 1),
        decreases guess,
    {
        let div = n / guess;
        if div >= guess {
            proof {
                assert(guess * guess <= n) by (nonlinear_arith)
                    requires div == n / guess, div >= guess, guess >= 1;
            }
            break;
        }
        proof {
            lemma_newton_step(n as int, guess as int, div as int, ((guess + div) / 2) as int);
            if guess == 1 {
                assert(n / 1 == n);
                assert(div == n);
            }
        }
        guess = (guess + div) / 2;
    }
    proof {
        lemma_isqrt(n as int);
        lemma_int_sqrt_unique(n as int, guess as int, isqrt(n as int));
    }
    guess
}

/// Shortest signed separation along one axis of the torus: a difference
/// longer than half the world is measured the other way round (and is then
/// reported as a positive length).
pub open spec fn wrapped_delta(a: i16, b: i16) -> int {
    let d = b - a;
    if abs_int(d) > WORLD_WRAP_THRESHOLD { WORLD_SIZE - abs_int(d) } else { d }
}

/// The squared distance whose root `distance` takes.
pub open spec fn distance_squared(p1: WorldCoord, p2: WorldCoord) -> int {
    wrapped_delta(p1.x, p2.x) * wrapped_delta(p1.x, p2.x) + wrapped_delta(p1.z, p2.z)
        * wrapped_delta(p1.z, p2.z)
}

/// Euclidean distance between two positions on the toroidal world, rounded
/// down.
pub fn distance(p1: &WorldCoord, p2: &WorldCoord) -> (r: i32)
    requires
        distance_squared(*p1, *p2) <= i32::MAX,
    ensures
        is_int_sqrt(distance_squared(*p1, *p2), r as int),
{
    let mut dx = (p2.x as i32) - (p1.x as i32);
    let mut dy = (p2.z as i32) - (p1.z as i32);
    let adx = if dx < 0 { -dx } else { dx };
    let ady = if dy < 0 { -dy } else { dy };
    if adx > WORLD_WRAP_THRESHOLD {
        dx = WORLD_SIZE - adx;
    }
    if ady > WORLD_WRAP_THRESHOLD {
        dy = WORLD_SIZE - ady;
    }
    proof {
        assert(dx * dx <= 0x4000_0000) by (nonlinear_arith)
            requires -0x8000 <= dx <= 0x8000;
        assert(dy * dy <= 0x4000_0000) by (nonlinear_arith)
            requires -0x8000 <= dy <= 0x8000;
        assert(dx * dx >= 0) by (nonlinear_arith);
        assert(dy * dy >= 0) by (nonlinear_arith);
    }
    let sq = dx * dx + dy * dy;
    let r = int_sqrt(sq as u32);
    proof {
        assert(r * r <= sq);
        assert(r <= 0xB505) by (nonlinear_arith)
            requires r * r <= sq, sq <= i32::MAX, r >= 0;
    }
    r as i32
}

/// One step of the formation idle random number generator: multiply, add,
/// then rotate right by 13 bits.
pub open spec fn formation_rng_spec(state: u32) -> u32 {
    let s = vstd::wrapping::u32_specs::wrapping_add(
        vstd::wrapping::u32_specs::wrapping_mul(state, RNG_MULTIPLIER),
        RNG_INCREMENT,
    );
    (s >> 13) | (s << 19)
}

/// The wrapped separation along an axis is the same either way round, up
/// to its sign.
proof fn lemma_wrapped_delta_flip(a: i16, b: i16)
    ensures
        wrapped_delta(a, b) * wrapped_delta(a, b) == wrapped_delta(b, a) * wrapped_delta(b, a),
{
    let d = b - a;
    if abs_int(d) <= WORLD_WRAP_THRESHOLD {
        assert(d * d == (-d) * (-d)) by (nonlinear_arith);
    }
}

/// Distance is symmetric and never negative, and a position is at
/// distance zero from itself: the integer square roots of the squared
/// distance from `p1` to `p2` and from `p2` to `p1` (what `distance`
/// returns) are one and the same.
pub proof fn lemma_distance_symmetric(p1: WorldCoord, p2: WorldCoord, r12: int, r21: int)
    requires
        is_int_sqrt(distance_squared(p1, p2), r12),
        is_int_sqrt(distance_squared(p2, p1), r21),
    ensures
        r12 == r21,
        r12 >= 0,
        p1 == p2 ==> r12 == 0,
{
    lemma_wrapped_delta_flip(p1.x, p2.x);
    lemma_wrapped_delta_flip(p1.z, p2.z);
    lemma_int_sqrt_unique(distance_squared(p1, p2), r12, r21);
    if p1 == p2 {
        assert(wrapped_delta(p1.x, p2.x) == 0 && wrapped_delta(p1.z, p2.z) == 0);
        assert(distance_squared(p1, p2) == 0);
        assert(r12 == 0) by (nonlinear_arith)
            requires
                r12 >= 0,
                r12 * r12 <= 0,
        ;
    }
}

/// Multiplying by the generator's multiplier, modulo 2^32, loses nothing:
/// 2178858849 undoes it.
proof fn lemma_rng_mul_invertible(a: u32)
    ensures
        ((((a as nat * RNG_MULTIPLIER as nat) % 0x1_0000_0000) * 2178858849) % 0x1_0000_0000) == a,
{
    let m: int = 0x1_0000_0000;
    let x = a as int * 9377;
    vstd::arithmetic::div_mod::lemma_mul_mod_noop_left(x, 2178858849, m);
    assert(9377 * 2178858849 == 1 + 4757 * m);
    assert(x * 2178858849 == a + (a * 4757) * m) by (nonlinear_arith)
        requires
            x == a as int * 9377,
            9377 * 2178858849 == 1 + 4757 * m,
    ;
    vstd::arithmetic::div_mod::lemma_mod_multiples_vanish(a * 4757, a as int, m);
    vstd::arithmetic::div_mod::lemma_small_mod(a as nat, m as nat);
}

/// The formation generator never maps two states to one (its step is a
/// bijection of the 32-bit states, so a sequence of states never
/// collapses), and the state 0 does not stay 0.
pub proof fn lemma_formation_rng_injective(a: u32, b: u32)
    requires
        formation_rng_spec(a) == formation_rng_spec(b),
    ensures
        a == b,
        formation_rng_spec(0) != 0,
{
    let ma = vstd::wrapping::u32_specs::wrapping_mul(a, RNG_MULTIPLIER);
    let mb = vstd::wrapping::u32_specs::wrapping_mul(b, RNG_MULTIPLIER);
    let sa = vstd::wrapping::u32_specs::wrapping_add(ma, RNG_INCREMENT);
    let sb = vstd::wrapping::u32_specs::wrapping_add(mb, RNG_INCREMENT);
    assert(((sa >> 13) | (sa << 19)) == ((sb >> 13) | (sb << 19)) ==> sa == sb) by (bit_vector);
    assert(ma == mb);
    lemma_rng_mul_invertible(a);
    lemma_rng_mul_invertible(b);
    let s0 = vstd::wrapping::u32_specs::wrapping_add(vstd::wrapping::u32_specs::wrapping_mul(0, RNG_MULTIPLIER), RNG_INCREMENT);
    assert(s0 == 0x24DF);
    assert(((0x24DFu32 >> 13) | (0x24DFu32 << 19)) != 0) by (bit_vector);
}

/// Next state of the formation idle random number generator.
pub fn formation_rng_next(state: u32) -> (r: u32)
    ensures
        r == formation_rng_spec(state),
{
    let s = state.wrapping_mul(RNG_MULTIPLIER).wrapping_add(RNG_INCREMENT);
    (s >> 13) | (s << 19)
}

} // verus!
