//! The occupant slots of a building.

use vstd::prelude::*;

use super::types::{BuildingData, MAX_OCCUPANTS};
use crate::engine::objects::handle::ObjectHandle;

verus! {

/// Number of occupied slots among `s`.
pub open spec fn occupied_count(s: Seq<Option<ObjectHandle>>) -> int
    decreases s.len(),
{
    if s.len() == 0 {
        0
    } else {
        occupied_count(s.drop_last()) + (if s.last() is Some { 1int } else { 0int })
    }
}

/// The occupant counter agrees with the slots.
pub open spec fn occupancy_consistent(b: BuildingData) -> bool {
    b.occupant_count == occupied_count(b.occupant_slots@)
}

/// Whether `h` is in slot `i`.
pub open spec fn holds_at(b: BuildingData, i: int, h: ObjectHandle) -> bool {
    b.occupant_slots@[i] == Some(h)
}

/// Whether `h` is in some slot.
pub open spec fn holds(b: BuildingData, h: ObjectHandle) -> bool {
    exists|i: int| 0 <= i < MAX_OCCUPANTS && #[trigger] holds_at(b, i, h)
}

/// `b1` is `b0` with `h` put into slot `i`, the first empty one, and the
/// counter one higher.
pub open spec fn added_at(b0: BuildingData, b1: BuildingData, h: ObjectHandle, i: int) -> bool {
    &&& 0 <= i < MAX_OCCUPANTS
    &&& b0.occupant_slots@[i] is None
    &&& forall|j: int| 0 <= j < i ==> (#[trigger] b0.occupant_slots@[j]) is Some
    &&& b1.occupant_slots@ == b0.occupant_slots@.update(i, Some(h))
    &&& b1.occupant_count == b0.occupant_count + 1
    &&& b1 == (BuildingData { occupant_slots: b1.occupant_slots, occupant_count: b1.occupant_count, ..b0 })
}

/// `b2` is `b1` with slot `j`, the first that holds `h`, emptied and the
/// counter one lower.
pub open spec fn removed_at(b1: BuildingData, b2: BuildingData, h: ObjectHandle, j: int) -> bool {
    &&& 0 <= j < MAX_OCCUPANTS
    &&& holds_at(b1, j, h)
    &&& forall|k: int| 0 <= k < j ==> !holds_at(b1, k, h)
    &&& b2.occupant_slots@ == b1.occupant_slots@.update(j, None)
    &&& b2.occupant_count == b1.occupant_count - 1
    &&& b2 == (BuildingData { occupant_slots: b2.occupant_slots, occupant_count: b2.occupant_count, ..b1 })
}

/// Removing an occupant just added gives the building back: when `h` was
/// not inside, `add_occupant` put it in slot `i` and `remove_occupant` then
/// took it out, the slots, the counter and every other field are as they
/// were.
pub proof fn lemma_add_then_remove(b0: BuildingData, b1: BuildingData, b2: BuildingData, h: ObjectHandle, i: int, j: int)
    requires
        !holds(b0, h),
        added_at(b0, b1, h, i),
        removed_at(b1, b2, h, j),
    ensures
        b2.occupant_slots@ == b0.occupant_slots@,
        b2.occupant_count == b0.occupant_count,
        b2 == (BuildingData { occupant_slots: b2.occupant_slots, occupant_count: b2.occupant_count, ..b0 }),
{
    if j != i {
        assert(b1.occupant_slots@[j] == b0.occupant_slots@[j]);
        assert(holds_at(b0, j, h));
    }
    assert(b2.occupant_slots@ =~= b0.occupant_slots@);
}

/// Filling an empty slot adds one to the count; emptying a full one takes
/// one away; other updates keep it.
pub proof fn lemma_occupied_count_update(s: Seq<Option<ObjectHandle>>, i: int, v: Option<ObjectHandle>)
    requires
        0 <= i < s.len(),
    ensures
        occupied_count(s.update(i, v)) == occupied_count(s)
            + (if v is Some { 1int } else { 0int })
            - (if s[i] is Some { 1int } else { 0int }),
    decreases s.len(),
{
    let t = s.update(i, v);
    if i == s.len() - 1 {
        assert(t.drop_last() =~= s.drop_last());
    } else {
        lemma_occupied_count_update(s.drop_last(), i, v);
        assert(t.drop_last() =~= s.drop_last().update(i, v));
    }
}

/// The count lies between 0 and the number of slots.
pub proof fn lemma_occupied_count_bounds(s: Seq<Option<ObjectHandle>>)
    ensures
        0 <= occupied_count(s) <= s.len(),
        occupied_count(s) == s.len() ==> forall|i: int| 0 <= i < s.len() ==> (#[trigger] s[i]) is Some,
        (forall|i: int| 0 <= i < s.len() ==> (#[trigger] s[i]) is Some) ==> occupied_count(s) == s.len(),
    decreases s.len(),
{
    if s.len() > 0 {
        lemma_occupied_count_bounds(s.drop_last());
        if forall|i: int| 0 <= i < s.len() ==> (#[trigger] s[i]) is Some {
            assert forall|i: int| 0 <= i < s.drop_last().len() implies (#[trigger] s.drop_last()[i]) is Some by {
                assert(s[i] is Some);
            }
        }
        if occupied_count(s) == s.len() {
            assert forall|i: int| 0 <= i < s.len() implies (#[trigger] s[i]) is Some by {
                if i < s.len() - 1 {
                    assert(s.drop_last()[i] == s[i]);
                }
            }
        }
    }
}

/// Whether the building holds as many occupants as it can.
pub fn is_full(building: &BuildingData) -> (r: bool)
    ensures
        r == (building.occupant_count >= MAX_OCCUPANTS),
{
    building.occupant_count as usize >= MAX_OCCUPANTS
}

/// The first slot that holds `handle`, if any.
pub fn find_occupant_slot(building: &BuildingData, handle: ObjectHandle) -> (r: Option<usize>)
    ensures
        r matches Some(i) ==> i < MAX_OCCUPANTS && holds_at(*building, i as int, handle)
            && forall|j: int| 0 <= j < i ==> !holds_at(*building, j, handle),
        r is None <==> !holds(*building, handle),
{
    let mut i: usize = 0;
    while i < MAX_OCCUPANTS
        invariant
            i <= MAX_OCCUPANTS,
            forall|j: int| 0 <= j < i ==> !holds_at(*building, j, handle),
        decreases MAX_OCCUPANTS - i,
    {
        let found = match building.occupant_slots[i] {
            Some(x) => x == handle,
            None => false,
        };
        if found {
            assert(holds_at(*building, i as int, handle));
            return Some(i);
        }
        i += 1;
    }
    None
}

/// Put `handle` into the first empty slot and return that slot. Fails,
/// changing nothing, when the counter says the building is full or no slot
/// is empty.
pub fn add_occupant(building: &mut BuildingData, handle: ObjectHandle) -> (r: Result<usize, ()>)
    ensures
        r is Err <==> (old(building).occupant_count >= MAX_OCCUPANTS
            || forall|j: int| 0 <= j < MAX_OCCUPANTS ==> (#[trigger] old(building).occupant_slots@[j]) is Some),
        r is Err ==> *final(building) == *old(building),
        r matches Ok(i) ==> {
            &&& i < MAX_OCCUPANTS
            &&& old(building).occupant_slots@[i as int] is None
            &&& forall|j: int| 0 <= j < i ==> (#[trigger] old(building).occupant_slots@[j]) is Some
            &&& final(building).occupant_slots@ == old(building).occupant_slots@.update(i as int, Some(handle))
            &&& final(building).occupant_count == old(building).occupant_count + 1
            &&& *final(building) == (BuildingData {
                occupant_slots: final(building).occupant_slots,
                occupant_count: final(building).occupant_count,
                ..*old(building)
            })
        },
        occupancy_consistent(*old(building)) ==> occupancy_consistent(*final(building)),
        occupancy_consistent(*old(building)) ==> (r is Ok <==> old(building).occupant_count < MAX_OCCUPANTS),
        r matches Ok(i) ==> added_at(*old(building), *final(building), handle, i as int),
{
    proof {
        lemma_occupied_count_bounds(building.occupant_slots@);
    }
    if is_full(building) {
        return Err(());
    }
    let mut i: usize = 0;
    while i < MAX_OCCUPANTS
        invariant
            i <= MAX_OCCUPANTS,
            *building == *old(building),
            building.occupant_count < MAX_OCCUPANTS,
            forall|j: int| 0 <= j < i ==> (#[trigger] building.occupant_slots@[j]) is Some,
        decreases MAX_OCCUPANTS - i,
    {
        if building.occupant_slots[i].is_none() {
            proof {
                lemma_occupied_count_update(building.occupant_slots@, i as int, Some(handle));
            }
            building.occupant_slots[i] = Some(handle);
            building.occupant_count = building.occupant_count + 1;
            return Ok(i);
        }
        i += 1;
    }
    proof {
        lemma_occupied_count_bounds(building.occupant_slots@);
    }
    Err(())
}

/// Empty the first slot that holds `handle`; report whether there was one.
pub fn remove_occupant(building: &mut BuildingData, handle: ObjectHandle) -> (r: bool)
    requires
        holds(*old(building), handle) ==> old(building).occupant_count > 0,
    ensures
        r == holds(*old(building), handle),
        !r ==> *final(building) == *old(building),
        r ==> exists|i: int| {
            &&& 0 <= i < MAX_OCCUPANTS
            &&& holds_at(*old(building), i, handle)
            &&& (forall|j: int| 0 <= j < i ==> !holds_at(*old(building), j, handle))
            &&& final(building).occupant_slots@ == old(building).occupant_slots@.update(i, None)
        },
        r ==> final(building).occupant_count == old(building).occupant_count - 1,
        *final(building) == (BuildingData {
            occupant_slots: final(building).occupant_slots,
            occupant_count: final(building).occupant_count,
            ..*old(building)
        }),
        occupancy_consistent(*old(building)) ==> occupancy_consistent(*final(building)),
        r ==> exists|j: int| removed_at(*old(building), *final(building), handle, j),
{
    match find_occupant_slot(building, handle) {
        Some(idx) => {
            proof {
                lemma_occupied_count_update(building.occupant_slots@, idx as int, None);
            }
            building.occupant_slots[idx] = None;
            building.occupant_count = building.occupant_count - 1;
            assert(removed_at(*old(building), *building, handle, idx as int));
            true
        },
        None => false,
    }
}

/// Take the occupant out of slot `slot`, if that slot exists and is
/// occupied.
pub fn eject_occupant(building: &mut BuildingData, slot: usize) -> (r: Option<ObjectHandle>)
    requires
        slot < MAX_OCCUPANTS && old(building).occupant_slots@[slot as int] is Some
            ==> old(building).occupant_count > 0,
    ensures
        slot >= MAX_OCCUPANTS ==> r is None && *final(building) == *old(building),
        slot < MAX_OCCUPANTS ==> {
            &&& r == old(building).occupant_slots@[slot as int]
            &&& final(building).occupant_slots@ == old(building).occupant_slots@.update(slot as int, None)
            &&& final(building).occupant_count == old(building).occupant_count - (if r is Some { 1int } else { 0int })
        },
        *final(building) == (BuildingData {
            occupant_slots: final(building).occupant_slots,
            occupant_count: final(building).occupant_count,
            ..*old(building)
        }),
        occupancy_consistent(*old(building)) ==> occupancy_consistent(*final(building)),
{
    if slot >= MAX_OCCUPANTS {
        return None;
    }
    proof {
        lemma_occupied_count_update(building.occupant_slots@, slot as int, None);
    }
    let handle = building.occupant_slots[slot];
    building.occupant_slots[slot] = None;
    if handle.is_some() {
        building.occupant_count = building.occupant_count - 1;
    }
    handle
}

} // verus!
