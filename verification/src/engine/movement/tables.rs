//! Lookup tables of the movement math, as the game embeds them.
//! The sine table of 2048 entries, `round(sin(i * 2pi / 2048) * 65536)` in
//! 16.16 fixed point, is symmetric; its first quarter (513 entries) is kept
//! and the full sine and cosine tables are read through `sin_table` and
//! `cos_table`. `ATAN_TABLE[i]` is `round(atan(i / 256) * 2048 / 2pi)`.

use vstd::prelude::*;

verus! {

/// First quarter of the sine table (angles 0..=512), 16.16 fixed point.
pub const SIN_QUARTER: [i32; 513] = [
    0, 201, 402, 603, 804, 1005, 1206, 1407, 1608, 1809, 2010, 2211,
    2412, 2613, 2814, 3015, 3216, 3417, 3617, 3818, 4019, 4219, 4420, 4621,
    4821, 5022, 5222, 5422, 5623, 5823, 6023, 6224, 6424, 6624, 6824, 7024,
    7224, 7423, 7623, 7823, 8022, 8222, 8421, 8621, 8820, 9019, 9218, 9417,
    9616, 9815, 10014, 10212, 10411, 10609, 10808, 11006, 11204, 11402, 11600, 11798,
    11996, 12193, 12391, 12588, 12785, 12983, 13180, 13376, 13573, 13770, 13966, 14163,
    14359, 14555, 14751, 14947, 15143, 15338, 15534, 15729, 15924, 16119, 16314, 16508,
    16703, 16897, 17091, 17285, 17479, 17673, 17867, 18060, 18253, 18446, 18639, 18832,
    19024, 19216, 19409, 19600, 19792, 19984, 20175, 20366, 20557, 20748, 20939, 21129,
    21320, 21510, 21699, 21889, 22078, 22268, 22457, 22645, 22834, 23022, 23210, 23398,
    23586, 23774, 23961, 24148, 24335, 24521, 24708, 24894, 25080, 25265, 25451, 25636,
    25821, 26005, 26190, 26374, 26558, 26742, 26925, 27108, 27291, 27474, 27656, 27838,
    28020, 28202, 28383, 28564, 28745, 28926, 29106, 29286, 29466, 29645, 29824, 30003,
    30182, 30360, 30538, 30716, 30893, 31071, 31248, 31424, 31600, 31776, 31952, 32127,
    32303, 32477, 32652, 32826, 33000, 33173, 33347, 33520, 33692, 33865, 34037, 34208,
    34380, 34551, 34721, 34892, 35062, 35231, 35401, 35570, 35738, 35907, 36075, 36243,
    36410, 36577, 36744, 36910, 37076, 37241, 37407, 37572, 37736, 37900, 38064, 38228,
    38391, 38554, 38716, 38878, 39040, 39201, 39362, 39523, 39683, 39843, 40002, 40161,
    40320, 40478, 40636, 40794, 40951, 41108, 41264, 41420, 41576, 41731, 41886, 42040,
    42194, 42348, 42501, 42654, 42806, 42958, 43110, 43261, 43412, 43562, 43713, 43862,
    44011, 44160, 44308, 44456, 44604, 44751, 44898, 45044, 45190, 45335, 45480, 45625,
    45769, 45912, 46056, 46199, 46341, 46483, 46624, 46765, 46906, 47046, 47186, 47325,
    47464, 47603, 47741, 47878, 48015, 48152, 48288, 48424, 48559, 48694, 48828, 48962,
    49095, 49228, 49361, 49493, 49624, 49756, 49886, 50016, 50146, 50275, 50404, 50532,
    50660, 50787, 50914, 51041, 51166, 51292, 51417, 51541, 51665, 51789, 51911, 52034,
    52156, 52277, 52398, 52519, 52639, 52759, 52878, 52996, 53114, 53232, 53349, 53465,
    53581, 53697, 53812, 53926, 54040, 54154, 54267, 54379, 54491, 54603, 54714, 54824,
    54934, 55043, 55152, 55260, 55368, 55476, 55582, 55689, 55794, 55900, 56004, 56108,
    56212, 56315, 56418, 56520, 56621, 56722, 56823, 56923, 57022, 57121, 57219, 57317,
    57414, 57511, 57607, 57703, 57798, 57892, 57986, 58079, 58172, 58265, 58356, 58448,
    58538, 58628, 58718, 58807, 58896, 58983, 59071, 59158, 59244, 59330, 59415, 59499,
    59583, 59667, 59750, 59832, 59914, 59995, 60075, 60156, 60235, 60314, 60392, 60470,
    60547, 60624, 60700, 60776, 60851, 60925, 60999, 61072, 61145, 61217, 61288, 61359,
    61429, 61499, 61568, 61637, 61705, 61772, 61839, 61906, 61971, 62036, 62101, 62165,
    62228, 62291, 62353, 62415, 62476, 62536, 62596, 62655, 62714, 62772, 62830, 62886,
    62943, 62998, 63054, 63108, 63162, 63215, 63268, 63320, 63372, 63423, 63473, 63523,
    63572, 63621, 63668, 63716, 63763, 63809, 63854, 63899, 63944, 63987, 64031, 64073,
    64115, 64156, 64197, 64237, 64277, 64316, 64354, 64392, 64429, 64465, 64501, 64536,
    64571, 64605, 64639, 64672, 64704, 64735, 64766, 64797, 64827, 64856, 64884, 64912,
    64940, 64967, 64993, 65018, 65043, 65067, 65091, 65114, 65137, 65159, 65180, 65200,
    65220, 65240, 65259, 65277, 65294, 65311, 65328, 65343, 65358, 65373, 65387, 65400,
    65413, 65425, 65436, 65447, 65457, 65467, 65476, 65484, 65492, 65499, 65505, 65511,
    65516, 65521, 65525, 65528, 65531, 65533, 65535, 65536, 65536,
];

/// Arctangent table, 256 entries, in 11-bit angle units.
pub const ATAN_TABLE: [u16; 256] = [
    0, 1, 3, 4, 5, 6, 8, 9, 10, 11, 13, 14, 15, 17, 18, 19,
    20, 22, 23, 24, 25, 27, 28, 29, 30, 32, 33, 34, 36, 37, 38, 39,
    41, 42, 43, 44, 46, 47, 48, 49, 51, 52, 53, 54, 55, 57, 58, 59,
    60, 62, 63, 64, 65, 67, 68, 69, 70, 71, 73, 74, 75, 76, 77, 79,
    80, 81, 82, 83, 85, 86, 87, 88, 89, 91, 92, 93, 94, 95, 96, 98,
    99, 100, 101, 102, 103, 104, 106, 107, 108, 109, 110, 111, 112, 114, 115, 116,
    117, 118, 119, 120, 121, 122, 124, 125, 126, 127, 128, 129, 130, 131, 132, 133,
    134, 135, 137, 138, 139, 140, 141, 142, 143, 144, 145, 146, 147, 148, 149, 150,
    151, 152, 153, 154, 155, 156, 157, 158, 159, 160, 161, 162, 163, 164, 165, 166,
    167, 168, 169, 170, 171, 172, 173, 174, 175, 176, 177, 177, 178, 179, 180, 181,
    182, 183, 184, 185, 186, 187, 188, 188, 189, 190, 191, 192, 193, 194, 195, 195,
    196, 197, 198, 199, 200, 201, 201, 202, 203, 204, 205, 206, 206, 207, 208, 209,
    210, 211, 211, 212, 213, 214, 215, 215, 216, 217, 218, 219, 219, 220, 221, 222,
    222, 223, 224, 225, 225, 226, 227, 228, 228, 229, 230, 231, 231, 232, 233, 234,
    234, 235, 236, 236, 237, 238, 239, 239, 240, 241, 241, 242, 243, 243, 244, 245,
    245, 246, 247, 248, 248, 249, 250, 250, 251, 251, 252, 253, 253, 254, 255, 255,
];

/// Integer square root first estimates, indexed by the position of the
/// highest set bit.
pub const SQRT_ESTIMATES: [u32; 32] = [
    1, 2, 2, 4, 5, 8, 11, 16,
    22, 32, 45, 64, 90, 128, 181, 256,
    362, 512, 724, 1024, 1448, 2048, 2896, 4096,
    5792, 8192, 11585, 16384, 23170, 32768, 46340, 65535,
];

/// Entry `i` (0..2048) of the full sine table, from its first quarter.
pub open spec fn sin_entry(i: int) -> int {
    if i <= 512 {
        SIN_QUARTER[i] as int
    } else if i <= 1024 {
        SIN_QUARTER[1024 - i] as int
    } else if i <= 1536 {
        -(SIN_QUARTER[i - 1024] as int)
    } else {
        -(SIN_QUARTER[2048 - i] as int)
    }
}

/// Entry `i` (0..2048) of the full cosine table: the sine a quarter turn on.
pub open spec fn cos_entry(i: int) -> int {
    sin_entry((i + 512) % 2048)
}

/// Sine table lookup, 16.16 fixed point, for an angle in 0..2048.
pub fn sin_table(i: usize) -> (r: i32)
    requires
        i < 2048,
    ensures
        r == sin_entry(i as int),
        -65536 <= r <= 65536,
{
    proof { lemma_sin_quarter_bounds(); }
    if i <= 512 {
        SIN_QUARTER[i]
    } else if i <= 1024 {
        SIN_QUARTER[1024 - i]
    } else if i <= 1536 {
        -SIN_QUARTER[i - 1024]
    } else {
        -SIN_QUARTER[2048 - i]
    }
}

/// Cosine table lookup, 16.16 fixed point, for an angle in 0..2048.
pub fn cos_table(i: usize) -> (r: i32)
    requires
        i < 2048,
    ensures
        r == cos_entry(i as int),
        -65536 <= r <= 65536,
{
    sin_table((i + 512) % 2048)
}

/// Every entry of the quarter table lies in 0..=65536.
pub proof fn lemma_sin_quarter_bounds()
    ensures
        forall|i: int| 0 <= i <= 512 ==> 0 <= #[trigger] SIN_QUARTER[i] <= 65536,
{
    assert forall|i: int| 0 <= i <= 512 implies 0 <= #[trigger] SIN_QUARTER[i] <= 65536 by {
        assert(SIN_QUARTER@.len() == 513);
    }
}

} // verus!
