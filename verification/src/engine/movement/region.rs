//! The region map: a 128x128 grid of terrain and connectivity cells. Units in
//! the same region can walk straight to each other; the terrain flags table
//! says which terrain classes are walkable.

use vstd::prelude::*;

use super::constants::{
    REGION_GRID_SIZE, REGION_ID_MASK, TERRAIN_FLAGS_COUNT, TERRAIN_WALKABLE_BIT,
};
use super::types::{RegionMapCell, TileCoord, WorldCoord};

verus! {

/// Number of cells of the region map.
pub const REGION_CELL_COUNT: usize = 16384;

/// The 128x128 region map grid and its terrain flags table.
pub struct RegionMap {
    cells: Vec<RegionMapCell>,
    terrain_flags: [u8; TERRAIN_FLAGS_COUNT],
}

impl RegionMap {
    /// The cells, row-major by z.
    pub closed spec fn cells_spec(&self) -> Seq<RegionMapCell> {
        self.cells@
    }

    /// The terrain flags, indexed by terrain class.
    pub closed spec fn flags_spec(&self) -> Seq<u8> {
        self.terrain_flags@
    }

    /// The map has exactly one cell per grid position.
    pub open spec fn wf(&self) -> bool {
        self.cells_spec().len() == REGION_CELL_COUNT && self.flags_spec().len() == TERRAIN_FLAGS_COUNT
    }

    pub open spec fn cell_at(&self, tile: TileCoord) -> RegionMapCell {
        self.cells_spec()[tile.cell_spec()]
    }

    pub open spec fn region_spec(&self, tile: TileCoord) -> u16 {
        self.cell_at(tile).region_id_spec()
    }

    /// A tile is walkable when its terrain class has the walkable flag.
    pub open spec fn walkable_spec(&self, tile: TileCoord) -> bool {
        self.flags_spec()[self.cell_at(tile).terrain_class_spec() as int] & TERRAIN_WALKABLE_BIT != 0
    }

    /// An empty map: all cells zero (region 0, terrain class 0), all terrain
    /// classes walkable.
    pub fn new() -> (r: Self)
        ensures
            r.wf(),
            forall|i: int| 0 <= i < REGION_CELL_COUNT ==> #[trigger] r.cells_spec()[i] == RegionMapCell::default_spec(),
            forall|c: int| 0 <= c < TERRAIN_FLAGS_COUNT ==> #[trigger] r.flags_spec()[c] == TERRAIN_WALKABLE_BIT,
    {
        let terrain_flags = [TERRAIN_WALKABLE_BIT; TERRAIN_FLAGS_COUNT];
        let mut cells: Vec<RegionMapCell> = Vec::new();
        let mut i: usize = 0;
        while i < REGION_CELL_COUNT
            invariant
                i <= REGION_CELL_COUNT,
                cells@.len() == i,
                forall|j: int| 0 <= j < i ==> #[trigger] cells@[j] == RegionMapCell::default_spec(),
            decreases REGION_CELL_COUNT - i,
        {
            cells.push(RegionMapCell { terrain_type: 0, flags_high: 0, region_id_raw: 0 });
            i += 1;
        }
        RegionMap { cells, terrain_flags }
    }

    /// A map over the given cells (exactly 128 x 128 of them), all terrain
    /// classes walkable.
    pub fn from_cells(cells: Vec<RegionMapCell>) -> (r: Self)
        requires
            cells@.len() == REGION_CELL_COUNT,
        ensures
            r.wf(),
            r.cells_spec() == cells@,
            forall|c: int| 0 <= c < TERRAIN_FLAGS_COUNT ==> #[trigger] r.flags_spec()[c] == TERRAIN_WALKABLE_BIT,
    {
        RegionMap { cells, terrain_flags: [TERRAIN_WALKABLE_BIT; TERRAIN_FLAGS_COUNT] }
    }

    /// Set the flags of a terrain class; classes beyond the table are ignored.
    pub fn set_terrain_flags(&mut self, terrain_class: u8, flags: u8)
        requires
            old(self).wf(),
        ensures
            final(self).wf(),
            final(self).cells_spec() == old(self).cells_spec(),
            (terrain_class as int) < TERRAIN_FLAGS_COUNT ==> final(self).flags_spec() == old(
                self,
            ).flags_spec().update(terrain_class as int, flags),
            (terrain_class as int) >= TERRAIN_FLAGS_COUNT ==> final(self).flags_spec() == old(
                self,
            ).flags_spec(),
    {
        if (terrain_class as usize) < TERRAIN_FLAGS_COUNT {
            self.terrain_flags[terrain_class as usize] = flags;
        }
    }

    /// Flags of a terrain class (0 for classes beyond the table).
    pub fn get_terrain_flags(&self, terrain_class: u8) -> (r: u8)
        requires
            self.wf(),
        ensures
            (terrain_class as int) < TERRAIN_FLAGS_COUNT ==> r == self.flags_spec()[terrain_class as int],
            (terrain_class as int) >= TERRAIN_FLAGS_COUNT ==> r == 0,
    {
        if (terrain_class as usize) < TERRAIN_FLAGS_COUNT {
            self.terrain_flags[terrain_class as usize]
        } else {
            0
        }
    }

    /// The cell of a tile.
    pub fn get_cell(&self, tile: TileCoord) -> (r: &RegionMapCell)
        requires
            self.wf(),
        ensures
            *r == self.cell_at(tile),
    {
        &self.cells[tile.cell_index()]
    }

    /// Mutable access to the cell of a tile.
    pub fn get_cell_mut(&mut self, tile: TileCoord) -> (r: &mut RegionMapCell)
        requires
            old(self).wf(),
        ensures
            *r == old(self).cell_at(tile),
            final(self).cells_spec() == old(self).cells_spec().update(tile.cell_spec(), *final(r)),
            final(self).flags_spec() == old(self).flags_spec(),
    {
        let idx = tile.cell_index();
        &mut self.cells[idx]
    }

    /// Region id at a tile.
    pub fn region_at(&self, tile: TileCoord) -> (r: u16)
        requires
            self.wf(),
        ensures
            r == self.region_spec(tile),
    {
        self.get_cell(tile).region_id()
    }

    /// Region id at a world position.
    pub fn region_at_world(&self, pos: WorldCoord) -> (r: u16)
        requires
            self.wf(),
        ensures
            r == self.region_spec(pos.tile_spec()),
    {
        self.region_at(pos.to_tile())
    }

    /// Whether two positions lie in the same region (then a unit can walk
    /// straight from one to the other).
    pub fn same_region(&self, a: WorldCoord, b: WorldCoord) -> (r: bool)
        requires
            self.wf(),
        ensures
            r == (self.region_spec(a.tile_spec()) == self.region_spec(b.tile_spec())),
    {
        self.region_at_world(a) == self.region_at_world(b)
    }

    /// Whether a building covers the tile.
    pub fn has_building(&self, tile: TileCoord) -> (r: bool)
        requires
            self.wf(),
        ensures
            r == (self.cell_at(tile).flags_high & super::constants::CELL_HAS_BUILDING != 0),
    {
        self.get_cell(tile).has_building()
    }

    /// Terrain class of a tile.
    pub fn terrain_class(&self, tile: TileCoord) -> (r: u8)
        requires
            self.wf(),
        ensures
            r == self.cell_at(tile).terrain_class_spec(),
            r < 16,
    {
        self.get_cell(tile).terrain_class()
    }

    /// Whether a tile is walkable.
    pub fn is_walkable(&self, tile: TileCoord) -> (r: bool)
        requires
            self.wf(),
        ensures
            r == self.walkable_spec(tile),
    {
        let tc = self.terrain_class(tile);
        self.terrain_flags[tc as usize] & TERRAIN_WALKABLE_BIT != 0
    }

    /// Whether a world position is on walkable terrain.
    pub fn is_walkable_world(&self, pos: WorldCoord) -> (r: bool)
        requires
            self.wf(),
        ensures
            r == self.walkable_spec(pos.tile_spec()),
    {
        self.is_walkable(pos.to_tile())
    }

    /// Set the region id (ten bits) of a tile's cell, keeping the other bits
    /// of its region word.
    pub fn set_cell_region(&mut self, tile: TileCoord, region_id: u16)
        requires
            old(self).wf(),
        ensures
            final(self).wf(),
            final(self).flags_spec() == old(self).flags_spec(),
            final(self).cells_spec() == old(self).cells_spec().update(
                tile.cell_spec(),
                RegionMapCell {
                    region_id_raw: (old(self).cell_at(tile).region_id_raw & !REGION_ID_MASK) | (
                    region_id & REGION_ID_MASK),
                    ..old(self).cell_at(tile)
                },
            ),
            final(self).region_spec(tile) == region_id & REGION_ID_MASK,
    {
        let idx = tile.cell_index();
        let mut cell = self.cells[idx];
        let raw = cell.region_id_raw;
        let new_raw = (raw & !REGION_ID_MASK) | (region_id & REGION_ID_MASK);
        assert(new_raw & 0x03FF == region_id & 0x03FF) by (bit_vector)
            requires new_raw == (raw & !0x03FFu16) | (region_id & 0x03FFu16);
        cell.region_id_raw = new_raw;
        self.cells.set(idx, cell);
    }
}

impl RegionMapCell {
    pub open spec fn default_spec() -> RegionMapCell {
        RegionMapCell { terrain_type: 0, flags_high: 0, region_id_raw: 0 }
    }
}

impl Default for RegionMap {
    fn default() -> (r: Self)
        ensures
            r.wf(),
    {
        RegionMap::new()
    }
}

/// Chebyshev ring of a spiral offset.
pub open spec fn ring_of(o: (i8, i8)) -> int {
    let ax = if o.0 < 0 { -o.0 } else { o.0 as int };
    let az = if o.1 < 0 { -o.1 } else { o.1 as int };
    if ax >= az { ax } else { az }
}

/// Total offsets in rings 1 to 16.
pub const SPIRAL_MAX_OFFSETS: usize = 1088;

/// `p` turned clockwise by `d` quarter turns: (x, z) becomes (z, -x).
pub open spec fn quarter_turns(p: (int, int), d: int) -> (int, int) {
    if d == 0 {
        p
    } else if d == 1 {
        (p.1, -p.0)
    } else if d == 2 {
        (-p.0, -p.1)
    } else {
        (-p.1, p.0)
    }
}

/// Offset `t` (0..8r) of square ring `r`, nearest first: the four cardinal
/// cells (0,r), (r,0), (0,-r), (-r,0); then, for k = 1 .. r-1, the cells k
/// off each cardinal axis, (k,r) and (-k,r) turned round the same way; last
/// the four diagonals (r,r), (r,-r), (-r,-r), (-r,r).
pub open spec fn ring_offset(r: int, t: int) -> (i8, i8) {
    let p = if t < 4 {
        quarter_turns((0, r), t)
    } else if t >= 8 * r - 4 {
        quarter_turns((r, r), t - (8 * r - 4))
    } else {
        let u = t - 4;
        let k = u / 8 + 1;
        let j = u % 8;
        quarter_turns((if j % 2 == 0 { k } else { -k }, r), j / 2)
    };
    (p.0 as i8, p.1 as i8)
}

/// Offset `t` of ring `r`, as `ring_offset` gives it.
fn ring_point(r: i8, t: i16) -> (o: (i8, i8))
    requires
        1 <= r <= 16,
        0 <= t < 8 * r,
    ensures
        o == ring_offset(r as int, t as int),
        ring_of(o) == r,
{
    let rr = r as i16;
    let (x, z, d): (i16, i16, i16) = if t < 4 {
        (0, rr, t)
    } else if t >= 8 * rr - 4 {
        (rr, rr, t - (8 * rr - 4))
    } else {
        let u = t - 4;
        let k = u / 8 + 1;
        let j = u % 8;
        (if j % 2 == 0 { k } else { -k }, rr, j / 2)
    };
    let (px, pz): (i16, i16) = if d == 0 {
        (x, z)
    } else if d == 1 {
        (z, -x)
    } else if d == 2 {
        (-x, -z)
    } else {
        (-z, x)
    };
    (px as i8, pz as i8)
}

/// Offset `k` of the rings from ring `r` outwards (ring 16 the last).
pub open spec fn spiral_from(r: int, k: int) -> (i8, i8)
    decreases 17 - r,
{
    if r >= 16 || k < 8 * r {
        ring_offset(r, k)
    } else {
        spiral_from(r + 1, k - 8 * r)
    }
}

/// Offset `k` of the spiral round a centre.
pub open spec fn spiral_offset(k: int) -> (i8, i8) {
    spiral_from(1, k)
}

/// Ring `r` starts at offset `4 (r - 1) r` of the spiral.
proof fn lemma_spiral_index(r0: int, r: int, t: int)
    requires
        1 <= r0 <= r <= 16,
        0 <= t < 8 * r,
    ensures
        spiral_from(r0, 4 * (r - 1) * r - 4 * (r0 - 1) * r0 + t) == ring_offset(r, t),
    decreases r - r0,
{
    let k = 4 * (r - 1) * r - 4 * (r0 - 1) * r0 + t;
    if r0 < r {
        assert(k >= 8 * r0 && k - 8 * r0 == 4 * (r - 1) * r - 4 * r0 * (r0 + 1) + t) by (nonlinear_arith)
            requires
                k == 4 * (r - 1) * r - 4 * (r0 - 1) * r0 + t,
                r >= r0 + 1,
                r0 >= 1,
                t >= 0,
        ;
        lemma_spiral_index(r0 + 1, r, t);
    } else {
        assert(k == t) by (nonlinear_arith)
            requires
                k == 4 * (r - 1) * r - 4 * (r0 - 1) * r0 + t,
                r == r0,
        ;
    }
}

/// Offsets around a centre in concentric square rings (ring 1 first), at
/// most `max_neighbors` of them and at most the 16 innermost rings. Each ring
/// goes nearest first (see `ring_offset`): (0,1), (1,0), (0,-1), (-1,0),
/// (1,1), (1,-1), ... for ring 1.
pub fn spiral_neighbors(max_neighbors: usize) -> (r: Vec<(i8, i8)>)
    ensures
        r@.len() == if max_neighbors < SPIRAL_MAX_OFFSETS { max_neighbors } else { SPIRAL_MAX_OFFSETS },
        forall|i: int| 0 <= i < r@.len() ==> 1 <= #[trigger] ring_of(r@[i]) <= 16,
        forall|i: int, j: int| 0 <= i < j < r@.len() ==> ring_of(#[trigger] r@[i]) <= ring_of(#[trigger] r@[j]),
        forall|i: int| 0 <= i < r@.len() ==> #[trigger] r@[i] == spiral_offset(i),
{
    let mut offsets: Vec<(i8, i8)> = Vec::new();
    let mut ring: i8 = 1;
    while offsets.len() < max_neighbors && ring <= 16
        invariant
            1 <= ring <= 17,
            offsets@.len() <= max_neighbors,
            offsets@.len() == 4 * (ring - 1) * ring || (offsets@.len() == max_neighbors && offsets@.len() <= 4 * (ring - 1) * ring),
            forall|i: int| 0 <= i < offsets@.len() ==> 1 <= #[trigger] ring_of(offsets@[i]) < ring,
            forall|i: int, j: int| 0 <= i < j < offsets@.len() ==> ring_of(#[trigger] offsets@[i]) <= ring_of(#[trigger] offsets@[j]),
            forall|i: int| 0 <= i < offsets@.len() ==> #[trigger] offsets@[i] == spiral_offset(i),
        decreases 17 - ring,
    {
        let ghost base = offsets@.len();
        assert(base <= 4 * (ring - 1) * ring);
        let mut t: i16 = 0;
        while t < 8 * (ring as i16) && offsets.len() < max_neighbors
            invariant
                1 <= ring <= 16,
                0 <= t <= 8 * ring,
                base <= offsets@.len() <= max_neighbors,
                offsets@.len() <= base + t,
                offsets@.len() == base + t || offsets@.len() == max_neighbors,
                forall|i: int| 0 <= i < base ==> 1 <= #[trigger] ring_of(offsets@[i]) < ring,
                forall|i: int| base <= i < offsets@.len() ==> #[trigger] ring_of(offsets@[i]) == ring,
                forall|i: int, j: int| 0 <= i < j < offsets@.len() ==> ring_of(#[trigger] offsets@[i]) <= ring_of(#[trigger] offsets@[j]),
                forall|i: int| 0 <= i < offsets@.len() ==> #[trigger] offsets@[i] == spiral_offset(i),
                base == 4 * (ring - 1) * ring,
            decreases 8 * ring - t,
        {
            proof {
                lemma_spiral_index(1, ring as int, t as int);
            }
            let o = ring_point(ring, t);
            offsets.push(o);
            t += 1;
        }
        proof {
            assert(4 * (ring - 1) * ring + 8 * ring == 4 * ring * (ring + 1)) by (nonlinear_arith);
            if offsets@.len() < max_neighbors {
                assert(offsets@.len() == base + 8 * ring);
            }
            assert(offsets@.len() <= 4 * ring * (ring + 1)) by (nonlinear_arith)
                requires
                    offsets@.len() <= base + 8 * ring,
                    base <= 4 * (ring - 1) * ring,
                    4 * (ring - 1) * ring + 8 * ring == 4 * ring * (ring + 1);
        }
        ring += 1;
    }
    proof {
        assert(4 * (ring - 1) * ring <= 1088) by (nonlinear_arith)
            requires 1 <= ring <= 17;
        if offsets@.len() < max_neighbors {
            assert(ring == 17);
            assert(4 * (ring - 1) * ring == 1088);
        }
    }
    offsets.truncate(max_neighbors);
    offsets
}

} // verus!
