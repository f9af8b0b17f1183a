//! Level data: the landscape height map, tribe and unit records, sunlight,
//! the landscape type from a level header, and the lookup tables built from
//! a level's palette and data files.

use vstd::prelude::*;

use super::reader::ByteReader;
use super::units::{le_u16, model_type_value, ModelType, TribeConfigRaw, UnitRaw, UNIT_RAW_SIZE};

verus! {

/// Unit slots in a level file.
pub const LEVEL_UNIT_SLOTS: usize = 2000;

/// The level's sunlight setting.
#[derive(Debug, Copy, Clone)]
pub struct Sunlight {
    pub v1: u8,
    pub v2: u8,
    pub v3: u8,
}

impl Sunlight {
    pub fn new(v1: u8, v2: u8, v3: u8) -> (r: Self)
        ensures
            r == (Sunlight { v1, v2, v3 }),
    {
        Sunlight { v1, v2, v3 }
    }

    /// Read the three sunlight bytes.
    pub fn from_reader(reader: &mut ByteReader) -> (r: Self)
        requires
            old(reader).wf(),
            old(reader).rest().len() >= 3,
        ensures
            final(reader).wf(),
            final(reader).data_spec() == old(reader).data_spec(),
            r == (Sunlight { v1: old(reader).rest()[0], v2: old(reader).rest()[1], v3: old(reader).rest()[2] }),
            final(reader).rest() == old(reader).rest().subrange(3, old(reader).rest().len() as int),
    {
        let buf = reader.read_exact(3).unwrap();
        Self::new(buf[0], buf[1], buf[2])
    }
}

/// Read exactly `count` unit records, leaving whatever follows them unread.
pub fn read_fixed_unit_slots(reader: &mut ByteReader, count: usize) -> (r: Vec<UnitRaw>)
    requires
        old(reader).wf(),
        old(reader).rest().len() >= count * UNIT_RAW_SIZE,
    ensures
        final(reader).wf(),
        final(reader).data_spec() == old(reader).data_spec(),
        r@.len() == count,
        forall|i: int|
            0 <= i < count ==> (#[trigger] r@[i]).decodes(
                old(reader).rest().subrange(i * UNIT_RAW_SIZE, old(reader).rest().len() as int),
            ),
        final(reader).rest() == old(reader).rest().subrange(count * UNIT_RAW_SIZE, old(reader).rest().len() as int),
{
    let ghost start = reader.rest();
    let mut units: Vec<UnitRaw> = Vec::new();
    let mut idx: usize = 0;
    while idx < count
        invariant
            reader.wf(),
            reader.data_spec() == old(reader).data_spec(),
            start == old(reader).rest(),
            start.len() >= count * UNIT_RAW_SIZE,
            idx <= count,
            units@.len() == idx,
            reader.rest() == start.subrange(idx * UNIT_RAW_SIZE, start.len() as int),
            forall|i: int|
                0 <= i < idx ==> (#[trigger] units@[i]).decodes(start.subrange(i * UNIT_RAW_SIZE, start.len() as int)),
        decreases count - idx,
    {
        proof {
            assert(idx * UNIT_RAW_SIZE + UNIT_RAW_SIZE <= count * UNIT_RAW_SIZE) by (nonlinear_arith)
                requires
                    idx < count,
            ;
        }
        let unit = UnitRaw::from_reader(reader).unwrap();
        units.push(unit);
        proof {
            assert(reader.rest() =~= start.subrange((idx + 1) * UNIT_RAW_SIZE, start.len() as int));
        }
        idx += 1;
    }
    units
}

/// The character naming landscape type `t` (0..36): a digit, then a
/// lowercase letter.
pub open spec fn landscape_type_char(t: u8) -> char {
    if t < 10 {
        (0x30 + t) as char
    } else {
        (0x61 + t - 10) as char
    }
}

/// Calls `char::to_string` (through `ToString`); the documentation gives a
/// string holding just `c`, which is what the contract claims.
#[verifier::external_body]
fn char_string(c: char) -> (r: String)
    ensures
        r@ == seq![c],
{
    c.to_string()
}

/// The landscape type named by byte 96 of a level header.
pub fn read_landscape_type_from_bytes(hdr_data: &[u8]) -> (r: String)
    requires
        hdr_data@.len() >= 97,
        hdr_data@[96] < 36,
    ensures
        r@ == seq![landscape_type_char(hdr_data@[96])],
{
    let type_int = hdr_data[96];
    let c: char = if type_int < 10 {
        (0x30 + type_int) as char
    } else {
        (0x61 + (type_int - 10)) as char
    };
    char_string(c)
}

/// The OBJS bank a level uses: byte 97 of its header, or 0 when the header
/// is shorter.
pub fn obj_bank_from_header(hdr_data: &[u8]) -> (r: u8)
    ensures
        r == (if hdr_data@.len() > 97 { hdr_data@[97] } else { 0 }),
{
    if hdr_data.len() > 97 {
        hdr_data[97]
    } else {
        0
    }
}

/// Entry `i` of the globe's static landscape table.
pub open spec fn static_landscape_entry(i: int) -> u16 {
    if i < 128 {
        0x140
    } else if i < 362 {
        (0xd3d - (1152 - i) * 3) as u16
    } else {
        0x400
    }
}

/// The textures and tables the globe is drawn with.
pub struct GlobeTextureParams {
    pub disp0: Vec<i8>,
    pub cliff0: Vec<u8>,
    pub bigf0: Vec<u8>,
    pub fade0: Vec<u8>,
    pub static_landscape_array: Vec<u16>,
    pub palette: Vec<u8>,
    pub watdisp: Vec<u8>,
}

impl GlobeTextureParams {
    /// The 1152-entry static landscape table.
    pub fn make_static_array() -> (r: Vec<u16>)
        ensures
            r@.len() == 1152,
            forall|i: int| 0 <= i < 1152 ==> #[trigger] r@[i] == static_landscape_entry(i),
    {
        let mut v: Vec<u16> = Vec::new();
        let mut i: usize = 0;
        while i < 1152
            invariant
                i <= 1152,
                v@.len() == i,
                forall|k: int| 0 <= k < i ==> #[trigger] v@[k] == static_landscape_entry(k),
            decreases 1152 - i,
        {
            let e: u16 = if i < 128 {
                0x140
            } else if i < 362 {
                (0xd3d - (1152 - i) * 3) as u16
            } else {
                0x400
            };
            v.push(e);
            i += 1;
        }
        v
    }
}

/// The column a displacement-map byte moves to: each 256-byte row is
/// mirrored, except its two middle bytes (127 and 128), which stay.
pub open spec fn disp_source(n: int) -> int {
    let i = n / 256;
    let j = n % 256;
    if j < 127 || j > 128 {
        i * 256 + 255 - j
    } else {
        n
    }
}

/// A displacement map from its file bytes (read as signed), each 256-byte
/// row of the first 256 rows mirrored but for its two middle bytes.
pub fn disp_from_bytes(buf: &[u8]) -> (r: Vec<i8>)
    requires
        buf@.len() >= 65536,
    ensures
        r@.len() == buf@.len(),
        forall|n: int| 0 <= n < 65536 ==> #[trigger] r@[n] == buf@[disp_source(n)] as i8,
        forall|n: int| 65536 <= n < buf@.len() ==> #[trigger] r@[n] == buf@[n] as i8,
{
    let mut disp: Vec<i8> = Vec::new();
    let mut n: usize = 0;
    while n < buf.len()
        invariant
            buf@.len() >= 65536,
            n <= buf@.len(),
            disp@.len() == n,
            forall|k: int| 0 <= k < n && k < 65536 ==> #[trigger] disp@[k] == buf@[disp_source(k)] as i8,
            forall|k: int| 65536 <= k < n ==> #[trigger] disp@[k] == buf@[k] as i8,
        decreases buf@.len() - n,
    {
        let src = if n < 65536 {
            let i = n / 256;
            let j = n % 256;
            if j < 127 || j > 128 {
                i * 256 + 255 - j
            } else {
                n
            }
        } else {
            n
        };
        disp.push(buf[src] as i8);
        n += 1;
    }
    disp
}

/// A square height map of `N` x `N` cells.
pub struct Landscape<const N: usize> {
    height: Vec<Vec<u16>>,
}

impl<const N: usize> View for Landscape<N> {
    type V = Seq<Seq<u16>>;

    closed spec fn view(&self) -> Self::V {
        self.height@.map_values(|row: Vec<u16>| row@)
    }
}

/// The row of a file's height map that ends up as row `r` after the map
/// is turned upside down: all rows but the two middle ones trade places
/// with their mirror row.
pub open spec fn flip_row(n: int, r: int) -> int {
    let k = n / 2 - 1;
    if r < k || r >= n - k {
        n - 1 - r
    } else {
        r
    }
}

/// The height at row `r`, column `c` of an `n` x `n` map read from `b`
/// before it is turned: value `i` of the file (little-endian 16-bit) goes
/// to row `i % n`, column `i / n`; missing values are 0.
pub open spec fn file_height(b: Seq<u8>, n: int, r: int, c: int) -> u16 {
    let i = c * n + r;
    if 2 * i + 1 < b.len() {
        le_u16(b[2 * i], b[2 * i + 1])
    } else {
        0
    }
}

/// Whether one of the eight neighbours of cell (`i`, `j`), wrapping round
/// the edges, is above 0.
pub open spec fn land_adjacent(h: Seq<Seq<u16>>, n: int, i: int, j: int) -> bool {
    let iu = (i + 1) % n;
    let ju = (j + 1) % n;
    let id = if i == 0 { n - 1 } else { i - 1 };
    let jd = if j == 0 { n - 1 } else { j - 1 };
    h[i][jd] > 0 || h[i][ju] > 0 || h[id][j] > 0 || h[iu][j] > 0 || h[iu][jd] > 0 || h[iu][ju] > 0 || h[id][jd] > 0
        || h[id][ju] > 0
}

/// The height of the neighbour `(di, dj)` steps away from cell (`i`, `j`)
/// on an `n` x `n` grid that wraps round at the edges.
pub open spec fn wrapped_height(h: Seq<Seq<u16>>, n: int, i: int, j: int, di: int, dj: int) -> u16 {
    h[(i + di + n) % n][(j + dj + n) % n]
}

/// Where a coordinate one step either side of `0..n` lands when the grid
/// wraps.
proof fn lemma_wrap_step(x: int, n: int)
    requires
        n > 0,
        0 <= x <= 2 * n,
    ensures
        x % n == if x < n { x } else if x < 2 * n { x - n } else { 0 },
{
    if x < n {
        vstd::arithmetic::div_mod::lemma_small_mod(x as nat, n as nat);
    } else if x < 2 * n {
        vstd::arithmetic::div_mod::lemma_mod_add_multiples_vanish(x - n, n);
        vstd::arithmetic::div_mod::lemma_small_mod((x - n) as nat, n as nat);
    } else {
        vstd::arithmetic::div_mod::lemma_mod_add_multiples_vanish(n, n);
        vstd::arithmetic::div_mod::lemma_mod_self_0(n);
    }
}

/// A cell is next to land exactly when one of its eight neighbours on the
/// wrapped grid (`di`, `dj` in -1..=1, not both 0) stands above 0.
pub proof fn lemma_land_adjacent_neighbours(h: Seq<Seq<u16>>, n: int, i: int, j: int)
    requires
        n > 0,
        0 <= i < n,
        0 <= j < n,
    ensures
        forall|di: int, dj: int|
            -1 <= di <= 1 && -1 <= dj <= 1 && !(di == 0 && dj == 0) && #[trigger] wrapped_height(h, n, i, j, di, dj) > 0
                ==> land_adjacent(h, n, i, j),
        land_adjacent(h, n, i, j) ==> exists|di: int, dj: int|
            -1 <= di <= 1 && -1 <= dj <= 1 && !(di == 0 && dj == 0) && #[trigger] wrapped_height(h, n, i, j, di, dj) > 0,
{
    lemma_wrap_step(i - 1 + n, n);
    lemma_wrap_step(i + n, n);
    lemma_wrap_step(i + 1 + n, n);
    lemma_wrap_step(j - 1 + n, n);
    lemma_wrap_step(j + n, n);
    lemma_wrap_step(j + 1 + n, n);
    lemma_wrap_step(i + 1, n);
    lemma_wrap_step(j + 1, n);
    assert(wrapped_height(h, n, i, j, 0, -1) == h[i][if j == 0 { n - 1 } else { j - 1 }]);
    assert(wrapped_height(h, n, i, j, 0, 1) == h[i][(j + 1) % n]);
    assert(wrapped_height(h, n, i, j, -1, 0) == h[if i == 0 { n - 1 } else { i - 1 }][j]);
    assert(wrapped_height(h, n, i, j, 1, 0) == h[(i + 1) % n][j]);
    assert(wrapped_height(h, n, i, j, 1, -1) == h[(i + 1) % n][if j == 0 { n - 1 } else { j - 1 }]);
    assert(wrapped_height(h, n, i, j, 1, 1) == h[(i + 1) % n][(j + 1) % n]);
    assert(wrapped_height(h, n, i, j, -1, -1) == h[if i == 0 { n - 1 } else { i - 1 }][if j == 0 { n - 1 } else { j - 1 }]);
    assert(wrapped_height(h, n, i, j, -1, 1) == h[if i == 0 { n - 1 } else { i - 1 }][(j + 1) % n]);
    assert forall|di: int, dj: int|
        -1 <= di <= 1 && -1 <= dj <= 1 && !(di == 0 && dj == 0) && #[trigger] wrapped_height(h, n, i, j, di, dj) > 0
            implies land_adjacent(h, n, i, j) by {
        if di == -1 && dj == -1 {
        } else if di == -1 && dj == 0 {
        } else if di == -1 && dj == 1 {
        } else if di == 0 && dj == -1 {
        } else if di == 0 && dj == 1 {
        } else if di == 1 && dj == -1 {
        } else if di == 1 && dj == 0 {
        } else {
        }
    }
}

impl<const N: usize> Landscape<N> {
    /// `N` rows of `N` heights.
    pub closed spec fn wf(&self) -> bool {
        &&& self.height@.len() == N
        &&& forall|i: int| 0 <= i < N ==> (#[trigger] self.height@[i])@.len() == N
    }

    proof fn lemma_view(&self)
        requires
            self.wf(),
        ensures
            self@.len() == N,
            forall|i: int| 0 <= i < N ==> (#[trigger] self@[i]).len() == N,
            forall|i: int, j: int| 0 <= i < N && 0 <= j < N ==> #[trigger] self@[i][j] == self.height@[i]@[j],
    {
    }

    /// A flat map: every height 0.
    pub fn new() -> (r: Self)
        ensures
            r.wf(),
            r@.len() == N,
            forall|i: int, j: int| 0 <= i < N && 0 <= j < N ==> #[trigger] r@[i][j] == 0,
    {
        let mut height: Vec<Vec<u16>> = Vec::new();
        let mut i: usize = 0;
        while i < N
            invariant
                i <= N,
                height@.len() == i,
                forall|k: int| 0 <= k < i ==> (#[trigger] height@[k])@.len() == N,
                forall|k: int, j: int| 0 <= k < i && 0 <= j < N ==> #[trigger] height@[k]@[j] == 0,
            decreases N - i,
        {
            let mut row: Vec<u16> = Vec::new();
            let mut j: usize = 0;
            while j < N
                invariant
                    j <= N,
                    row@.len() == j,
                    forall|k: int| 0 <= k < j ==> #[trigger] row@[k] == 0,
                decreases N - j,
            {
                row.push(0);
                j += 1;
            }
            height.push(row);
            i += 1;
        }
        let r = Landscape { height };
        proof {
            r.lemma_view();
        }
        r
    }

    /// The side of the map.
    pub fn land_size(&self) -> (r: usize)
        ensures
            r == N,
    {
        N
    }

    /// A map from the rest of a level file (its first `N` x `N`
    /// little-endian heights, column by column), turned upside down.
    pub fn from_reader(reader: &mut ByteReader) -> (r: Self)
        requires
            old(reader).wf(),
            N >= 2,
            N * N * 2 <= usize::MAX,
        ensures
            final(reader).wf(),
            final(reader).rest().len() == 0,
            r.wf(),
            forall|i: int, j: int|
                0 <= i < N && 0 <= j < N ==> #[trigger] r@[i][j] == file_height(
                    old(reader).rest(),
                    N as int,
                    flip_row(N as int, i),
                    j,
                ),
    {
        let n = reader.remaining();
        let buf = reader.read_exact(n).unwrap();
        let ghost b = buf@;
        assert(b =~= old(reader).rest());
        let mut height: Vec<Vec<u16>> = Vec::new();
        let k = N / 2 - 1;
        let mut i: usize = 0;
        while i < N
            invariant
                N >= 2,
                N * N * 2 <= usize::MAX,
                k == N / 2 - 1,
                b == buf@,
                i <= N,
                height@.len() == i,
                forall|a: int| 0 <= a < i ==> (#[trigger] height@[a])@.len() == N,
                forall|a: int, j: int|
                    0 <= a < i && 0 <= j < N ==> #[trigger] height@[a]@[j] == file_height(b, N as int, flip_row(N as int, a), j),
            decreases N - i,
        {
            let src = if i < k || i >= N - k {
                N - 1 - i
            } else {
                i
            };
            let mut row: Vec<u16> = Vec::new();
            let mut j: usize = 0;
            while j < N
                invariant
                    N >= 2,
                    N * N * 2 <= usize::MAX,
                    b == buf@,
                    src < N,
                    src == flip_row(N as int, i as int),
                    j <= N,
                    row@.len() == j,
                    forall|c: int| 0 <= c < j ==> #[trigger] row@[c] == file_height(b, N as int, src as int, c),
                decreases N - j,
            {
                proof {
                    assert(j * N + src < N * N) by (nonlinear_arith)
                        requires
                            j < N,
                            src < N,
                    ;
                }
                let idx = j * N + src;
                let v: u16 = if idx < buf.len() / 2 {
                    crate::data::units::read_le_u16(buf[2 * idx], buf[2 * idx + 1])
                } else {
                    0
                };
                row.push(v);
                j += 1;
            }
            height.push(row);
            i += 1;
        }
        let r = Landscape { height };
        proof {
            r.lemma_view();
        }
        r
    }

    /// Whether cell (`i`, `j`) is water (height 0) next to land, counting
    /// the eight neighbours round the wrapping edges.
    pub fn is_land_adj(&self, i: usize, j: usize) -> (r: bool)
        requires
            self.wf(),
            i < N,
            j < N,
        ensures
            r == (self@[i as int][j as int] == 0 && land_adjacent(self@, N as int, i as int, j as int)),
            forall|di: int, dj: int|
                -1 <= di <= 1 && -1 <= dj <= 1 && !(di == 0 && dj == 0) && self@[i as int][j as int] == 0
                    && #[trigger] wrapped_height(self@, N as int, i as int, j as int, di, dj) > 0 ==> r,
    {
        proof {
            self.lemma_view();
            lemma_land_adjacent_neighbours(self@, N as int, i as int, j as int);
        }
        if self.height[i][j] > 0 {
            return false;
        }
        let i_u = (i + 1) % N;
        let j_u = (j + 1) % N;
        let i_d = if i == 0 { N - 1 } else { i - 1 };
        let j_d = if j == 0 { N - 1 } else { j - 1 };
        (self.height[i][j_d] > 0) || (self.height[i][j_u] > 0) || (self.height[i_d][j] > 0) || (self.height[i_u][j] > 0)
            || (self.height[i_u][j_d] > 0) || (self.height[i_u][j_u] > 0) || (self.height[i_d][j_d] > 0) || (
        self.height[i_d][j_u] > 0)
    }

    /// The map with every water cell next to land raised to height 1.
    pub fn make_shores(&self) -> (r: Self)
        requires
            self.wf(),
        ensures
            r.wf(),
            forall|i: int, j: int|
                0 <= i < N && 0 <= j < N ==> #[trigger] r@[i][j] == if self@[i][j] == 0 && land_adjacent(
                    self@,
                    N as int,
                    i,
                    j,
                ) {
                    1
                } else {
                    self@[i][j]
                },
    {
        proof {
            self.lemma_view();
        }
        let mut height: Vec<Vec<u16>> = Vec::new();
        let mut i: usize = 0;
        while i < N
            invariant
                self.wf(),
                i <= N,
                height@.len() == i,
                forall|a: int| 0 <= a < i ==> (#[trigger] height@[a])@.len() == N,
                forall|a: int, j: int|
                    0 <= a < i && 0 <= j < N ==> #[trigger] height@[a]@[j] == if self@[a][j] == 0 && land_adjacent(
                        self@,
                        N as int,
                        a,
                        j,
                    ) {
                        1
                    } else {
                        self@[a][j]
                    },
            decreases N - i,
        {
            let mut row: Vec<u16> = Vec::new();
            let mut j: usize = 0;
            while j < N
                invariant
                    self.wf(),
                    i < N,
                    j <= N,
                    row@.len() == j,
                    forall|c: int|
                        0 <= c < j ==> #[trigger] row@[c] == if self@[i as int][c] == 0 && land_adjacent(
                            self@,
                            N as int,
                            i as int,
                            c,
                        ) {
                            1
                        } else {
                            self@[i as int][c]
                        },
                decreases N - j,
            {
                proof {
                    self.lemma_view();
                }
                let h = self.height[i][j];
                let v = if h == 0 && self.is_land_adj(i, j) {
                    1
                } else {
                    h
                };
                row.push(v);
                j += 1;
            }
            height.push(row);
            i += 1;
        }
        let r = Landscape { height };
        proof {
            r.lemma_view();
        }
        r
    }

    /// The heights row by row.
    pub fn to_vec(&self) -> (r: Vec<u32>)
        requires
            self.wf(),
            N * N <= usize::MAX,
        ensures
            r@.len() == N * N,
            forall|i: int, j: int| 0 <= i < N && 0 <= j < N ==> #[trigger] r@[i * N + j] == self@[i][j] as u32,
    {
        proof {
            self.lemma_view();
        }
        let mut v: Vec<u32> = Vec::new();
        let mut i: usize = 0;
        while i < N
            invariant
                self.wf(),
                N * N <= usize::MAX,
                i <= N,
                v@.len() == i * N,
                forall|a: int, j: int| 0 <= a < i && 0 <= j < N ==> #[trigger] v@[a * N + j] == self@[a][j] as u32,
            decreases N - i,
        {
            let mut j: usize = 0;
            while j < N
                invariant
                    self.wf(),
                    i < N,
                    j <= N,
                    v@.len() == i * N + j,
                    forall|a: int, c: int|
                        (0 <= a < i && 0 <= c < N) || (a == i && 0 <= c < j) ==> #[trigger] v@[a * N + c]
                            == self@[a][c] as u32,
                decreases N - j,
            {
                proof {
                    self.lemma_view();
                }
                let ghost before = v@;
                v.push(self.height[i][j] as u32);
                proof {
                    assert forall|a: int, c: int|
                        (0 <= a < i && 0 <= c < N) || (a == i && 0 <= c < j + 1) implies #[trigger] v@[a * N + c]
                            == self@[a][c] as u32 by {
                        if a < i {
                            assert(a * N + c < i * N) by (nonlinear_arith)
                                requires
                                    a < i,
                                    0 <= c < N,
                            ;
                            assert(v@[a * N + c] == before[a * N + c]);
                        } else if c < j {
                            assert(v@[a * N + c] == before[a * N + c]);
                        }
                    }
                }
                j += 1;
            }
            proof {
                assert(v@.len() == (i + 1) * N) by (nonlinear_arith)
                    requires
                        v@.len() == i * N + N,
                ;
            }
            i += 1;
        }
        v
    }
}

/// What a level file holds that the game world is built from.
pub struct LevelRes {
    pub level_number: u8,
    pub landscape: Landscape<128>,
    pub tribes: Vec<TribeConfigRaw>,
    pub sunlight: Sunlight,
    pub units: Vec<UnitRaw>,
    /// OBJS bank number (header byte 97).
    pub obj_bank: u8,
}

/// Offset of the tribe records in a level file: after the heights and
/// three 0x4000-byte maps.
pub const LEVEL_TRIBES_OFFSET: usize = 0x8000 + 3 * 0x4000;

/// Offset of the sunlight setting: after four 16-byte tribe records.
pub const LEVEL_SUNLIGHT_OFFSET: usize = LEVEL_TRIBES_OFFSET + 4 * 16;

/// Offset of the unit slots: after the three sunlight bytes.
pub const LEVEL_UNITS_OFFSET: usize = LEVEL_SUNLIGHT_OFFSET + 3;

/// Bytes a complete level file has: up to the end of its last unit slot.
pub const LEVEL_FILE_MIN_LEN: usize = LEVEL_UNITS_OFFSET + LEVEL_UNIT_SLOTS * UNIT_RAW_SIZE;

impl LevelRes {
    /// Level `level_number` from the bytes of its level file, with the
    /// object bank of its header: the landscape from the whole file, then
    /// the four tribe records, the sunlight and the 2000 unit slots from
    /// `LEVEL_TRIBES_OFFSET` on (bytes after the last slot are not read).
    /// `None` when the file ends before the last unit slot does.
    pub fn from_bytes(level_number: u8, data: &[u8], obj_bank: u8) -> (r: Option<LevelRes>)
        ensures
            r is Some <==> data@.len() >= LEVEL_FILE_MIN_LEN,
            r matches Some(l) ==> {
                &&& l.level_number == level_number
                &&& l.obj_bank == obj_bank
                &&& l.landscape.wf()
                &&& forall|i: int, j: int|
                    0 <= i < 128 && 0 <= j < 128 ==> #[trigger] l.landscape@[i][j] == file_height(
                        data@,
                        128,
                        flip_row(128, i),
                        j,
                    )
                &&& l.tribes@.len() == 4
                &&& forall|t: int, b: int|
                    0 <= t < 4 && 0 <= b < 16 ==> #[trigger] l.tribes@[t].data[b] == data@[LEVEL_TRIBES_OFFSET + 16 * t + b]
                &&& l.sunlight == (Sunlight {
                    v1: data@[LEVEL_SUNLIGHT_OFFSET as int],
                    v2: data@[LEVEL_SUNLIGHT_OFFSET + 1],
                    v3: data@[LEVEL_SUNLIGHT_OFFSET + 2],
                })
                &&& l.units@.len() == LEVEL_UNIT_SLOTS
                &&& forall|i: int|
                    0 <= i < LEVEL_UNIT_SLOTS ==> (#[trigger] l.units@[i]).decodes(
                        data@.subrange(LEVEL_UNITS_OFFSET + i * UNIT_RAW_SIZE, data@.len() as int),
                    )
            },
    {
        if data.len() < LEVEL_FILE_MIN_LEN {
            return None;
        }
        let mut whole = ByteReader::new(vstd::slice::slice_to_vec(data));
        let landscape = Landscape::<128>::from_reader(&mut whole);
        let tail = vstd::slice::slice_subrange(data, LEVEL_TRIBES_OFFSET, data.len());
        let mut reader = ByteReader::new(vstd::slice::slice_to_vec(tail));
        let ghost rest0 = reader.rest();
        assert(rest0 =~= data@.subrange(LEVEL_TRIBES_OFFSET as int, data@.len() as int));
        let mut tribes: Vec<TribeConfigRaw> = Vec::new();
        let mut t: usize = 0;
        while t < 4
            invariant
                t <= 4,
                reader.wf(),
                rest0 == data@.subrange(LEVEL_TRIBES_OFFSET as int, data@.len() as int),
                data@.len() >= LEVEL_FILE_MIN_LEN,
                reader.rest() == rest0.subrange(16 * t, rest0.len() as int),
                tribes@.len() == t,
                forall|a: int, b: int| 0 <= a < t && 0 <= b < 16 ==> #[trigger] tribes@[a].data[b] == rest0[16 * a + b],
            decreases 4 - t,
        {
            match TribeConfigRaw::from_reader(&mut reader) {
                Some(c) => {
                    tribes.push(c);
                },
                None => {
                    return None;
                },
            }
            assert(reader.rest() =~= rest0.subrange(16 * (t + 1), rest0.len() as int));
            t += 1;
        }
        let sunlight = Sunlight::from_reader(&mut reader);
        assert(reader.rest() =~= rest0.subrange(67, rest0.len() as int));
        let units = read_fixed_unit_slots(&mut reader, LEVEL_UNIT_SLOTS);
        proof {
            assert forall|i: int| 0 <= i < LEVEL_UNIT_SLOTS implies (#[trigger] units@[i]).decodes(
                data@.subrange(LEVEL_UNITS_OFFSET + i * UNIT_RAW_SIZE, data@.len() as int),
            ) by {
                assert(rest0.subrange(67, rest0.len() as int).subrange(i * UNIT_RAW_SIZE, rest0.len() - 67) =~= data@.subrange(
                    LEVEL_UNITS_OFFSET + i * UNIT_RAW_SIZE,
                    data@.len() as int,
                ));
            }
        }
        Some(LevelRes { level_number, landscape, tribes, sunlight, units, obj_bank })
    }
}

/// A unit slot of a level file.
#[derive(Debug, Copy, Clone, PartialEq, Eq, Hash, Structural)]
pub struct LevelObjectIndex(pub u16);

/// An object placed by a level.
#[derive(Debug, Copy, Clone)]
pub struct LevelObjectDefinition {
    pub source: LevelObjectIndex,
    pub model_type: ModelType,
    pub subtype: u8,
    pub tribe: u8,
    pub position: [i16; 2],
    pub angle: u16,
}

/// What the game world is built from: the heights, sunlight, tribes and
/// the objects the level places.
pub struct LevelDefinition {
    pub level_number: u8,
    pub heights: Vec<Vec<u16>>,
    pub sunlight: Sunlight,
    pub tribes: Vec<TribeConfigRaw>,
    pub objects: Vec<LevelObjectDefinition>,
}

/// Whether a unit slot places an object: its model type is known and it
/// is not at (0, 0).
pub open spec fn places_object(u: UnitRaw) -> bool {
    1 <= u.model_spec() <= 11 && !(u.loc_x_spec() == 0 && u.loc_y_spec() == 0)
}

/// The object a unit slot places.
pub open spec fn object_of_slot(slot: int, u: UnitRaw) -> (u16, u8, u8, u8, i16, i16, u16) {
    (
        slot as u16,
        u.model_spec(),
        u.subtype_spec(),
        u.tribe_index_spec(),
        u.loc_x_spec() as i16,
        u.loc_y_spec() as i16,
        (u.angle_spec() % 0x800) as u16,
    )
}

/// The objects placed by the first `n` unit slots, in slot order.
pub open spec fn placed_objects(units: Seq<UnitRaw>, n: int) -> Seq<(u16, u8, u8, u8, i16, i16, u16)>
    decreases n,
{
    if n <= 0 {
        seq![]
    } else if places_object(units[n - 1]) {
        placed_objects(units, n - 1).push(object_of_slot(n - 1, units[n - 1]))
    } else {
        placed_objects(units, n - 1)
    }
}

/// A placed object as a tuple of plain values.
pub open spec fn definition_fields(d: LevelObjectDefinition) -> (u16, u8, u8, u8, i16, i16, u16) {
    (d.source.0, model_type_value(d.model_type), d.subtype, d.tribe, d.position[0], d.position[1], d.angle)
}

impl LevelDefinition {
    /// The definition of a level: its heights, sunlight and tribes, and an
    /// object for every unit slot with a known model type away from (0, 0).
    pub fn from_resource(level: &LevelRes) -> (r: Self)
        requires
            level.landscape.wf(),
        ensures
            r.level_number == level.level_number,
            r.heights@.map_values(|row: Vec<u16>| row@) == level.landscape@,
            r.sunlight == level.sunlight,
            r.tribes@ == level.tribes@,
            r.objects@.len() == placed_objects(level.units@, level.units@.len() as int).len(),
            forall|i: int|
                0 <= i < r.objects@.len() ==> definition_fields(#[trigger] r.objects@[i]) == placed_objects(
                    level.units@,
                    level.units@.len() as int,
                )[i],
    {
        let mut objects: Vec<LevelObjectDefinition> = Vec::new();
        let mut slot: usize = 0;
        while slot < level.units.len()
            invariant
                slot <= level.units@.len(),
                objects@.len() == placed_objects(level.units@, slot as int).len(),
                forall|i: int|
                    0 <= i < objects@.len() ==> definition_fields(#[trigger] objects@[i]) == placed_objects(
                        level.units@,
                        slot as int,
                    )[i],
            decreases level.units@.len() - slot,
        {
            let raw = &level.units[slot];
            match raw.model_type() {
                Some(model_type) => {
                    if !(raw.loc_x() == 0 && raw.loc_y() == 0) {
                        let a = raw.angle();
                        let angle = a & 0x7ff;
                        assert(angle == a % 0x800) by (bit_vector)
                            requires
                                angle == a & 0x7ff,
                        ;
                        let ghost before = objects@;
                        objects.push(
                            LevelObjectDefinition {
                                source: LevelObjectIndex(slot as u16),
                                model_type,
                                subtype: raw.subtype(),
                                tribe: raw.tribe_index(),
                                position: [raw.loc_x() as i16, raw.loc_y() as i16],
                                angle: angle as u16,
                            },
                        );
                        proof {
                            assert forall|i: int| 0 <= i < objects@.len() implies definition_fields(
                                #[trigger] objects@[i],
                            ) == placed_objects(level.units@, slot as int + 1)[i] by {
                                if i < before.len() {
                                    assert(objects@[i] == before[i]);
                                }
                            }
                        }
                    }
                },
                None => {},
            }
            slot += 1;
        }
        LevelDefinition {
            level_number: level.level_number,
            heights: level.landscape.heights(),
            sunlight: level.sunlight,
            tribes: level.tribes.clone(),
            objects,
        }
    }
}

impl<const N: usize> Landscape<N> {
    /// A copy of the heights, row by row.
    pub fn heights(&self) -> (r: Vec<Vec<u16>>)
        requires
            self.wf(),
        ensures
            r@.map_values(|row: Vec<u16>| row@) == self@,
    {
        let mut out: Vec<Vec<u16>> = Vec::new();
        let mut i: usize = 0;
        while i < self.height.len()
            invariant
                i <= self.height@.len(),
                out@.len() == i,
                forall|k: int| 0 <= k < i ==> (#[trigger] out@[k])@ == self.height@[k]@,
            decreases self.height@.len() - i,
        {
            let row = self.height[i].clone();
            out.push(row);
            i += 1;
        }
        assert(out@.map_values(|row: Vec<u16>| row@) =~= self@);
        out
    }
}

/// Raw luminance of sky colour `k` (0..13), palette entry `0x71 + k`.
pub open spec fn sky_lum(pal: Seq<u8>, k: int) -> int {
    let p = (0x71 + k) * 4;
    pal[p] * 66 + pal[p + 1] * 129 + pal[p + 2] * 25
}

/// Luminance of sky colour `k` on a 0..=255 scale.
pub open spec fn sky_norm(pal: Seq<u8>, k: int) -> int {
    let l = sky_lum(pal, k) / 256;
    if l > 255 {
        255
    } else {
        l
    }
}

/// The least (or, with `least` false, the greatest) scaled luminance of the
/// first `n` sky colours.
pub open spec fn sky_norm_bound(pal: Seq<u8>, n: int, least: bool) -> int
    decreases n,
{
    if n <= 1 {
        sky_norm(pal, 0)
    } else {
        let prev = sky_norm_bound(pal, n - 1, least);
        let here = sky_norm(pal, n - 1);
        if (least && here < prev) || (!least && here > prev) {
            here
        } else {
            prev
        }
    }
}

/// The luminance entry `i` of the table looks for: the darkest sky
/// luminance plus `i / 256` of the span up to the brightest.
pub open spec fn sky_target(pal: Seq<u8>, i: int) -> int {
    let lo = sky_norm_bound(pal, 13, true);
    let hi = sky_norm_bound(pal, 13, false);
    lo + (i * (hi - lo)) / 256
}

pub open spec fn abs_int(v: int) -> int {
    if v < 0 {
        -v
    } else {
        v
    }
}

/// Whether sky colour `k` serves target `t` better than colour `m`: it is
/// closer, or as close and darker, or as close and as dark and earlier in
/// the palette.
pub open spec fn sky_better(pal: Seq<u8>, t: int, k: int, m: int) -> bool {
    let dk = abs_int(sky_norm(pal, k) - t);
    let dm = abs_int(sky_norm(pal, m) - t);
    dk < dm || (dk == dm && (sky_lum(pal, k) < sky_lum(pal, m) || (sky_lum(pal, k) == sky_lum(pal, m) && k < m)))
}

/// Whether sky colour `k` serves target `t` best of all thirteen.
pub open spec fn sky_best(pal: Seq<u8>, t: int, k: int) -> bool {
    &&& 0 <= k < 13
    &&& forall|m: int| 0 <= m < 13 && m != k ==> sky_better(pal, t, k, m)
}

/// The least scaled luminance of the first `n` sky colours is no more than
/// the greatest.
proof fn lemma_sky_bounds_ordered(pal: Seq<u8>, n: int)
    ensures
        sky_norm_bound(pal, n, true) <= sky_norm_bound(pal, n, false),
    decreases n,
{
    if n > 1 {
        lemma_sky_bounds_ordered(pal, n - 1);
    }
}

/// A brighter colour has at least the scaled luminance of a darker one.
proof fn lemma_sky_norm_monotone(pal: Seq<u8>, a: int, b: int)
    requires
        sky_lum(pal, a) <= sky_lum(pal, b),
        0 <= sky_lum(pal, a),
    ensures
        sky_norm(pal, a) <= sky_norm(pal, b),
{
    vstd::arithmetic::div_mod::lemma_div_is_ordered(sky_lum(pal, a), sky_lum(pal, b), 256);
}

/// The sky table runs from dark to bright: the colour chosen for
/// brightness level `i` is no brighter than the one chosen for a level
/// `j` above it.
pub proof fn lemma_sky_table_ordered(pal: Seq<u8>, i: int, j: int, ki: int, kj: int)
    requires
        pal.len() >= 0x7d * 4 + 3,
        0 <= i <= j < 256,
        sky_best(pal, sky_target(pal, i), ki),
        sky_best(pal, sky_target(pal, j), kj),
    ensures
        sky_lum(pal, ki) <= sky_lum(pal, kj),
{
    let lo = sky_norm_bound(pal, 13, true);
    let hi = sky_norm_bound(pal, 13, false);
    lemma_sky_bounds_ordered(pal, 13);
    assert(i * (hi - lo) <= j * (hi - lo)) by (nonlinear_arith)
        requires
            0 <= i <= j,
            lo <= hi,
    ;
    vstd::arithmetic::div_mod::lemma_div_is_ordered(i * (hi - lo), j * (hi - lo), 256);
    let ti = sky_target(pal, i);
    let tj = sky_target(pal, j);
    assert(ti <= tj);
    if sky_lum(pal, ki) > sky_lum(pal, kj) {
        assert(ki != kj);
        assert(0 <= sky_lum(pal, kj)) by {
            let p = (0x71 + kj) * 4;
            assert(pal[p] * 66 >= 0 && pal[p + 1] * 129 >= 0 && pal[p + 2] * 25 >= 0) by (nonlinear_arith)
                requires
                    pal[p] >= 0,
                    pal[p + 1] >= 0,
                    pal[p + 2] >= 0,
            ;
        }
        lemma_sky_norm_monotone(pal, kj, ki);
        assert(sky_better(pal, ti, ki, kj));
        assert(sky_better(pal, tj, kj, ki));
    }
}

fn sky_luminance(pal: &[u8], k: usize) -> (r: u32)
    requires
        k < 13,
        pal@.len() >= 0x7d * 4 + 3,
    ensures
        r == sky_lum(pal@, k as int),
        r <= 255 * 220,
{
    let p = (0x71 + k) * 4;
    pal[p] as u32 * 66 + pal[p + 1] as u32 * 129 + pal[p + 2] as u32 * 25
}

/// Whether sky colour `x` ranks before `y`: darker, or as dark and earlier.
pub open spec fn sky_before(pal: Seq<u8>, x: int, y: int) -> bool {
    sky_lum(pal, x) < sky_lum(pal, y) || (sky_lum(pal, x) == sky_lum(pal, y) && x < y)
}

/// Whether colour `m` has a place among the first `n` of a ranking.
spec fn ranked(order: Seq<usize>, n: int, m: int) -> bool {
    exists|q: int| 0 <= q < n && order[q] == m
}

/// Sky colours `0..k` ranked from dark to bright, ties in palette order.
fn rank_sky_colours(lums: &[u32; 13], pal: Ghost<Seq<u8>>) -> (order: Vec<usize>)
    requires
        forall|m: int| 0 <= m < 13 ==> lums[m] == sky_lum(pal@, m),
    ensures
        order@.len() == 13,
        forall|q: int| 0 <= q < 13 ==> #[trigger] order@[q] < 13,
        forall|a: int, b: int| 0 <= a < b < 13 ==> sky_before(pal@, #[trigger] order@[a] as int, #[trigger] order@[b] as int),
        forall|m: int| 0 <= m < 13 ==> #[trigger] ranked(order@, 13, m),
{
    let mut order: Vec<usize> = Vec::new();
    let mut k: usize = 0;
    while k < 13
        invariant
            forall|m: int| 0 <= m < 13 ==> lums[m] == sky_lum(pal@, m),
            k <= 13,
            order@.len() == k,
            forall|q: int| 0 <= q < k ==> #[trigger] order@[q] < k,
            forall|a: int, b: int| 0 <= a < b < k ==> sky_before(pal@, #[trigger] order@[a] as int, #[trigger] order@[b] as int),
            forall|m: int| 0 <= m < k ==> #[trigger] ranked(order@, k as int, m),
        decreases 13 - k,
    {
        // Stable: after every colour at most as bright.
        let mut p: usize = order.len();
        let mut q: usize = 0;
        while q < order.len()
            invariant_except_break
                p == k,
            invariant
                forall|m: int| 0 <= m < 13 ==> lums[m] == sky_lum(pal@, m),
                k < 13,
                order@.len() == k,
                forall|c: int| 0 <= c < k ==> #[trigger] order@[c] < k,
                q <= k,
                forall|c: int| 0 <= c < q ==> sky_lum(pal@, #[trigger] order@[c] as int) <= sky_lum(pal@, k as int),
            ensures
                p <= k,
                forall|c: int| 0 <= c < p ==> sky_lum(pal@, #[trigger] order@[c] as int) <= sky_lum(pal@, k as int),
                p < k ==> sky_lum(pal@, k as int) < sky_lum(pal@, order@[p as int] as int),
            decreases k - q,
        {
            if lums[order[q]] > lums[k] {
                p = q;
                break;
            }
            q += 1;
        }
        let ghost old_order = order@;
        proof {
            old_order.insert_ensures(p as int, k);
            assert(forall|c: int| 0 <= c < p ==> sky_lum(pal@, #[trigger] old_order[c] as int) <= sky_lum(pal@, k as int));
            assert(forall|c: int| p <= c < k ==> sky_lum(pal@, k as int) < sky_lum(pal@, #[trigger] old_order[c] as int)) by {
                assert forall|c: int| p <= c < k implies sky_lum(pal@, k as int) < sky_lum(pal@, #[trigger] old_order[c] as int) by {
                    // Colours from p on come after every colour at most as bright.
                    if c > p {
                        assert(sky_before(pal@, old_order[p as int] as int, old_order[c] as int));
                    }
                }
            }
        }
        order.insert(p, k);
        proof {
            let n = order@;
            assert forall|c: int| 0 <= c < k + 1 implies #[trigger] n[c] < k + 1 by {
                if c > p {
                    assert(n[c] == old_order[c - 1]);
                }
            }
            assert forall|a: int, b: int| 0 <= a < b < k + 1 implies sky_before(pal@, #[trigger] n[a] as int, #[trigger] n[b] as int) by {
                if b < p {
                } else if b == p {
                    assert(sky_lum(pal@, old_order[a] as int) <= sky_lum(pal@, k as int));
                } else if a < p {
                    assert(n[b] == old_order[b - 1]);
                } else if a == p {
                    assert(n[b] == old_order[b - 1]);
                } else {
                    assert(n[a] == old_order[a - 1]);
                    assert(n[b] == old_order[b - 1]);
                }
            }
            assert forall|m: int| 0 <= m < k + 1 implies #[trigger] ranked(n, k + 1, m) by {
                if m == k {
                    assert(n[p as int] == m);
                } else {
                    assert(ranked(old_order, k as int, m));
                    let c0 = choose|c: int| 0 <= c < k && old_order[c] == m;
                    if c0 < p {
                        assert(n[c0] == m);
                    } else {
                        assert(n[c0 + 1] == m);
                    }
                }
            }
        }
        k += 1;
    }
    order
}

/// The sky interpolation table: for each of 256 brightness levels, sweeping
/// evenly from the darkest to the brightest of the thirteen sky colours
/// (palette entries 0x71..0x7E, luminance `66 r + 129 g + 25 b`, scaled by
/// 1/256), the palette index of the sky colour closest in luminance. The
/// colours are ranked from dark to bright (ties in palette order) and the
/// first closest one is taken, so ties go to the darker colour, then to the
/// earlier entry.
pub fn build_sky_interp_table(pal: &[u8]) -> (r: [u8; 256])
    requires
        pal@.len() >= 0x7d * 4 + 3,
    ensures
        forall|i: int| 0 <= i < 256 ==> #[trigger] sky_best(pal@, sky_target(pal@, i), r[i] - 0x71),
{
    let mut lums: [u32; 13] = [0; 13];
    let mut norms: [i32; 13] = [0; 13];
    let mut k: usize = 0;
    while k < 13
        invariant
            pal@.len() >= 0x7d * 4 + 3,
            k <= 13,
            forall|m: int| 0 <= m < k ==> lums[m] == sky_lum(pal@, m) && norms[m] == sky_norm(pal@, m),
        decreases 13 - k,
    {
        let l = sky_luminance(pal, k);
        lums[k] = l;
        let n = l >> 8;
        assert(n == l / 256) by (bit_vector)
            requires
                n == l >> 8,
        ;
        norms[k] = if n > 255 { 255 } else { n as i32 };
        k += 1;
    }
    let order = rank_sky_colours(&lums, Ghost(pal@));
    let mut min_lum: i32 = norms[0];
    let mut max_lum: i32 = norms[0];
    k = 1;
    while k < 13
        invariant
            1 <= k <= 13,
            forall|m: int| 0 <= m < 13 ==> lums[m] == sky_lum(pal@, m) && norms[m] == sky_norm(pal@, m),
            min_lum == sky_norm_bound(pal@, k as int, true),
            max_lum == sky_norm_bound(pal@, k as int, false),
            0 <= min_lum <= 255,
            0 <= max_lum <= 255,
        decreases 13 - k,
    {
        if norms[k] < min_lum {
            min_lum = norms[k];
        }
        if norms[k] > max_lum {
            max_lum = norms[k];
        }
        k += 1;
    }
    let range = max_lum - min_lum;
    let mut table: [u8; 256] = [0x70; 256];
    let mut acc: i32 = 0;
    let mut i: usize = 0;
    while i < 256
        invariant
            forall|m: int| 0 <= m < 13 ==> lums[m] == sky_lum(pal@, m) && norms[m] == sky_norm(pal@, m),
            order@.len() == 13,
            forall|q: int| 0 <= q < 13 ==> #[trigger] order@[q] < 13,
            forall|a: int, b: int| 0 <= a < b < 13 ==> sky_before(pal@, #[trigger] order@[a] as int, #[trigger] order@[b] as int),
            forall|m: int| 0 <= m < 13 ==> #[trigger] ranked(order@, 13, m),
            min_lum == sky_norm_bound(pal@, 13, true),
            max_lum == sky_norm_bound(pal@, 13, false),
            range == max_lum - min_lum,
            -255 <= range <= 255,
            0 <= min_lum <= 255,
            i <= 256,
            acc == i * range,
            forall|j: int| 0 <= j < i ==> #[trigger] sky_best(pal@, sky_target(pal@, j), table[j] - 0x71),
        decreases 256 - i,
    {
        proof {
            assert(-255 * 256 <= acc <= 255 * 256) by (nonlinear_arith)
                requires
                    acc == i * range,
                    -255 <= range <= 255,
                    0 <= i < 256,
            ;
        }
        let shifted = acc >> 8;
        proof {
            assert(acc >= 0 ==> shifted == acc / 256) by (bit_vector)
                requires
                    shifted == acc >> 8,
            ;
        }
        let target = min_lum + shifted;
        let ghost t = target as int;
        // The first ranked colour at the least distance.
        let mut best_idx: usize = 0;
        let mut best_dist: i32 = i32::MAX;
        let mut j: usize = 0;
        while j < 13
            invariant
                forall|m: int| 0 <= m < 13 ==> lums[m] == sky_lum(pal@, m) && norms[m] == sky_norm(pal@, m),
                order@.len() == 13,
                forall|q: int| 0 <= q < 13 ==> #[trigger] order@[q] < 13,
                t == target,
                -512 <= target <= 512,
                j <= 13,
                j == 0 ==> best_idx == 0 && best_dist == i32::MAX,
                j > 0 ==> best_idx < j && best_dist == abs_int(sky_norm(pal@, order@[best_idx as int] as int) - t),
                forall|q: int| 0 <= q < j ==> best_dist <= abs_int(sky_norm(pal@, #[trigger] order@[q] as int) - t),
                forall|q: int| 0 <= q < best_idx ==> best_dist < abs_int(sky_norm(pal@, #[trigger] order@[q] as int) - t),
            decreases 13 - j,
        {
            let lum = norms[order[j]];
            let dist = if lum - target < 0 { target - lum } else { lum - target };
            if dist < best_dist {
                best_dist = dist;
                best_idx = j;
            }
            j += 1;
        }
        table[i] = 0x71 + order[best_idx] as u8;
        proof {
            let b = order@[best_idx as int] as int;
            assert(t == sky_target(pal@, i as int));
            assert forall|m: int| 0 <= m < 13 && m != b implies sky_better(pal@, t, b, m) by {
                assert(ranked(order@, 13, m));
                let q = choose|q: int| 0 <= q < 13 && order@[q] == m;
                if q < best_idx {
                    assert(best_dist < abs_int(sky_norm(pal@, order@[q] as int) - t));
                } else {
                    assert(q != best_idx);
                    assert(best_dist <= abs_int(sky_norm(pal@, order@[q] as int) - t));
                    assert(sky_before(pal@, order@[best_idx as int] as int, order@[q] as int));
                }
            }
        }
        proof {
            assert(acc + range == (i + 1) * range) by (nonlinear_arith)
                requires
                    acc == i * range,
            ;
        }
        acc = acc + range;
        i += 1;
    }
    table
}

} // verus!
