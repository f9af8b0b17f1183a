//! The 128 x 128 cell grid: for each cell the first object of the list of
//! objects standing in it.

use vstd::prelude::*;

use super::types::ObjectHeader;
use crate::engine::movement::WorldCoord;

verus! {

/// Cells along each side of the grid.
pub const CELL_GRID_SIZE: usize = 128;

/// Cells in the grid.
pub const CELL_GRID_TOTAL: usize = 16384;

/// `slots` with the cell links of the object in slot `i` set (a vacant
/// slot is left alone).
pub open spec fn with_links(slots: Seq<Option<ObjectHeader>>, i: int, next: Option<u16>, prev: Option<u16>) -> Seq<
    Option<ObjectHeader>,
> {
    match slots[i] {
        Some(o) => slots.update(i, Some(ObjectHeader { next_in_cell: next, prev_in_cell: prev, ..o })),
        None => slots,
    }
}

/// `slots` with the next link of slot `i` set.
pub open spec fn with_next(slots: Seq<Option<ObjectHeader>>, i: int, next: Option<u16>) -> Seq<Option<ObjectHeader>> {
    match slots[i] {
        Some(o) => slots.update(i, Some(ObjectHeader { next_in_cell: next, ..o })),
        None => slots,
    }
}

/// `slots` with the previous link of slot `i` set.
pub open spec fn with_prev(slots: Seq<Option<ObjectHeader>>, i: int, prev: Option<u16>) -> Seq<Option<ObjectHeader>> {
    match slots[i] {
        Some(o) => slots.update(i, Some(ObjectHeader { prev_in_cell: prev, ..o })),
        None => slots,
    }
}

/// Whether a link names a slot.
pub open spec fn link_ok(l: Option<u16>, len: int) -> bool {
    l matches Some(h) ==> (h as int) < len
}

/// The grid and slots after object `h` is put at the head of cell `c`:
/// its next link is the old head, its previous link none, and the old
/// head's previous link is `h`.
pub open spec fn inserted(heads: Seq<Option<u16>>, slots: Seq<Option<ObjectHeader>>, h: u16, c: int) -> (
    Seq<Option<u16>>,
    Seq<Option<ObjectHeader>>,
) {
    let old_head = heads[c];
    let s1 = with_links(slots, h as int, old_head, None);
    let s2 = match old_head {
        Some(oh) => with_prev(s1, oh as int, Some(h)),
        None => s1,
    };
    (heads.update(c, Some(h)), s2)
}

/// The grid and slots after object `h` is unlinked from cell `c`: its
/// neighbours are joined (the cell's head moves on when `h` had none
/// before it) and its own links are cleared. A vacant slot changes
/// nothing.
pub open spec fn removed(heads: Seq<Option<u16>>, slots: Seq<Option<ObjectHeader>>, h: u16, c: int) -> (
    Seq<Option<u16>>,
    Seq<Option<ObjectHeader>>,
) {
    match slots[h as int] {
        None => (heads, slots),
        Some(o) => {
            let (prev, next) = (o.prev_in_cell, o.next_in_cell);
            let (h1, s1) = match prev {
                Some(p) => (heads, with_next(slots, p as int, next)),
                None => (heads.update(c, next), slots),
            };
            let s2 = match next {
                Some(n) => with_prev(s1, n as int, prev),
                None => s1,
            };
            (h1, with_links(s2, h as int, None, None))
        },
    }
}

/// Whether `inserted` can run: the object and the cell's head name slots.
pub open spec fn insert_ok(heads: Seq<Option<u16>>, slots: Seq<Option<ObjectHeader>>, h: u16, c: int) -> bool {
    &&& (h as int) < slots.len()
    &&& 0 <= c < CELL_GRID_TOTAL
    &&& heads.len() == CELL_GRID_TOTAL
    &&& link_ok(heads[c], slots.len() as int)
}

/// Whether `removed` can run: the object and its neighbours name slots.
pub open spec fn remove_ok(heads: Seq<Option<u16>>, slots: Seq<Option<ObjectHeader>>, h: u16, c: int) -> bool {
    &&& (h as int) < slots.len()
    &&& 0 <= c < CELL_GRID_TOTAL
    &&& heads.len() == CELL_GRID_TOTAL
    &&& slots[h as int] matches Some(o) ==> link_ok(o.prev_in_cell, slots.len() as int) && link_ok(
        o.next_in_cell,
        slots.len() as int,
    )
}

/// Taking out the object just put at the head of a cell gives back the
/// grid and the slots: when the object was in no list (both links none)
/// and not already the head, and the old head had nothing before it.
pub proof fn lemma_insert_then_remove(heads: Seq<Option<u16>>, slots: Seq<Option<ObjectHeader>>, h: u16, c: int)
    requires
        insert_ok(heads, slots, h, c),
        slots[h as int] matches Some(o) && o.next_in_cell is None && o.prev_in_cell is None,
        heads[c] != Some(h),
        heads[c] matches Some(oh) ==> (slots[oh as int] matches Some(x) && x.prev_in_cell is None),
    ensures
        ({
            let m = inserted(heads, slots, h, c);
            removed(m.0, m.1, h, c) == (heads, slots)
        }),
{
    let m = inserted(heads, slots, h, c);
    let r = removed(m.0, m.1, h, c);
    assert(r.0 =~= heads);
    assert(r.1 =~= slots);
}

fn set_links(slots: &mut Vec<Option<ObjectHeader>>, i: u16, next: Option<u16>, prev: Option<u16>)
    requires
        (i as int) < old(slots)@.len(),
    ensures
        final(slots)@ == with_links(old(slots)@, i as int, next, prev),
{
    if let Some(o) = slots[i as usize] {
        let mut o2 = o;
        o2.next_in_cell = next;
        o2.prev_in_cell = prev;
        slots.set(i as usize, Some(o2));
    }
}

fn set_next(slots: &mut Vec<Option<ObjectHeader>>, i: u16, next: Option<u16>)
    requires
        (i as int) < old(slots)@.len(),
    ensures
        final(slots)@ == with_next(old(slots)@, i as int, next),
{
    if let Some(o) = slots[i as usize] {
        let mut o2 = o;
        o2.next_in_cell = next;
        slots.set(i as usize, Some(o2));
    }
}

fn set_prev(slots: &mut Vec<Option<ObjectHeader>>, i: u16, prev: Option<u16>)
    requires
        (i as int) < old(slots)@.len(),
    ensures
        final(slots)@ == with_prev(old(slots)@, i as int, prev),
{
    if let Some(o) = slots[i as usize] {
        let mut o2 = o;
        o2.prev_in_cell = prev;
        slots.set(i as usize, Some(o2));
    }
}

/// The head object of each cell's object list (row-major, z then x).
pub struct CellGrid {
    heads: Vec<Option<u16>>,
}

impl View for CellGrid {
    type V = Seq<Option<u16>>;

    closed spec fn view(&self) -> Self::V {
        self.heads@
    }
}

impl CellGrid {
    /// A grid has one head per cell.
    pub closed spec fn wf(&self) -> bool {
        self.heads@.len() == CELL_GRID_TOTAL
    }

    /// A grid with every cell empty.
    pub fn new() -> (r: Self)
        ensures
            r.wf(),
            r@.len() == CELL_GRID_TOTAL,
            forall|i: int| 0 <= i < CELL_GRID_TOTAL ==> (#[trigger] r@[i]) is None,
    {
        let mut heads: Vec<Option<u16>> = Vec::new();
        let mut i: usize = 0;
        while i < CELL_GRID_TOTAL
            invariant
                i <= CELL_GRID_TOTAL,
                heads@.len() == i,
                forall|k: int| 0 <= k < i ==> (#[trigger] heads@[k]) is None,
            decreases CELL_GRID_TOTAL - i,
        {
            heads.push(None);
            i += 1;
        }
        CellGrid { heads }
    }

    /// Empty every cell.
    pub fn clear(&mut self)
        requires
            old(self).wf(),
        ensures
            final(self).wf(),
            forall|i: int| 0 <= i < CELL_GRID_TOTAL ==> (#[trigger] final(self)@[i]) is None,
    {
        let mut i: usize = 0;
        while i < self.heads.len()
            invariant
                self.heads@.len() == CELL_GRID_TOTAL,
                i <= CELL_GRID_TOTAL,
                forall|k: int| 0 <= k < i ==> (#[trigger] self.heads@[k]) is None,
            decreases CELL_GRID_TOTAL - i,
        {
            self.heads.set(i, None);
            i += 1;
        }
    }

    /// The first object of cell `cell_idx`.
    pub fn cell_head(&self, cell_idx: usize) -> (r: Option<u16>)
        requires
            self.wf(),
            cell_idx < CELL_GRID_TOTAL,
        ensures
            r == self@[cell_idx as int],
    {
        self.heads[cell_idx]
    }

    /// Put object `handle` at the head of cell `cell_idx`'s list: its next
    /// link becomes the old head and its previous link none, and the old
    /// head's previous link becomes `handle`. Vacant slots are left alone.
    pub fn insert_object(&mut self, handle: u16, cell_idx: usize, slots: &mut Vec<Option<ObjectHeader>>)
        requires
            old(self).wf(),
            insert_ok(old(self)@, old(slots)@, handle, cell_idx as int),
        ensures
            final(self).wf(),
            (final(self)@, final(slots)@) == inserted(old(self)@, old(slots)@, handle, cell_idx as int),
    {
        let old_head = self.heads[cell_idx];
        set_links(slots, handle, old_head, None);
        if let Some(oh) = old_head {
            set_prev(slots, oh, Some(handle));
        }
        self.heads.set(cell_idx, Some(handle));
    }

    /// Take object `handle` out of cell `cell_idx`'s list: the object
    /// before it (or the cell's head) now leads to the one after it, that
    /// one points back to the one before, and the object's own links are
    /// cleared. A vacant slot changes nothing.
    pub fn remove_object(&mut self, handle: u16, cell_idx: usize, slots: &mut Vec<Option<ObjectHeader>>)
        requires
            old(self).wf(),
            remove_ok(old(self)@, old(slots)@, handle, cell_idx as int),
        ensures
            final(self).wf(),
            (final(self)@, final(slots)@) == removed(old(self)@, old(slots)@, handle, cell_idx as int),
    {
        let (prev, next) = match slots[handle as usize] {
            Some(o) => (o.prev_in_cell, o.next_in_cell),
            None => {
                return;
            },
        };
        match prev {
            Some(p) => {
                set_next(slots, p, next);
            },
            None => {
                self.heads.set(cell_idx, next);
            },
        }
        if let Some(n) = next {
            set_prev(slots, n, prev);
        }
        set_links(slots, handle, None, None);
    }

    /// Move object `handle` from the cell of `old_pos` to the cell of
    /// `new_pos`; nothing changes when both lie in one cell.
    pub fn set_position(
        &mut self,
        handle: u16,
        old_pos: &WorldCoord,
        new_pos: &WorldCoord,
        slots: &mut Vec<Option<ObjectHeader>>,
    )
        requires
            old(self).wf(),
            remove_ok(old(self)@, old(slots)@, handle, old_pos.tile_spec().cell_spec() as int),
            link_ok(old(self)@[new_pos.tile_spec().cell_spec() as int], old(slots)@.len() as int),
        ensures
            final(self).wf(),
            (final(self)@, final(slots)@) == if old_pos.tile_spec().cell_spec() == new_pos.tile_spec().cell_spec() {
                (old(self)@, old(slots)@)
            } else {
                let m = removed(old(self)@, old(slots)@, handle, old_pos.tile_spec().cell_spec() as int);
                inserted(m.0, m.1, handle, new_pos.tile_spec().cell_spec() as int)
            },
    {
        let old_cell = old_pos.to_tile().cell_index();
        let new_cell = new_pos.to_tile().cell_index();
        if old_cell == new_cell {
            return;
        }
        self.remove_object(handle, old_cell, slots);
        self.insert_object(handle, new_cell, slots);
    }

    /// The cell a world position lies in.
    pub fn cell_index_from_world(pos: &WorldCoord) -> (r: usize)
        ensures
            r == pos.tile_spec().cell_spec(),
            r < CELL_GRID_TOTAL,
    {
        pos.to_tile().cell_index()
    }
}

} // verus!
