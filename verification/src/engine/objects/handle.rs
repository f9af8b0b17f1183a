use vstd::prelude::*;

verus! {

/// Stable handle into the object pool. It carries the slot's generation, so
/// a handle to a destroyed object never resolves to the object that later
/// reuses its slot.
#[derive(Debug, Clone, Copy, PartialEq, Eq, Structural, Hash)]
pub struct ObjectHandle {
    slot: u16,
    generation: u32,
}

impl ObjectHandle {
    pub closed spec fn slot_spec(self) -> u16 {
        self.slot
    }

    pub closed spec fn generation_spec(self) -> u32 {
        self.generation
    }

    /// The handle of generation `generation` of slot `slot`.
    pub fn new(slot: u16, generation: u32) -> (r: Self)
        ensures
            r.slot_spec() == slot,
            r.generation_spec() == generation,
    {
        ObjectHandle { slot, generation }
    }

    pub fn slot(self) -> (r: u16)
        ensures
            r == self.slot_spec(),
    {
        self.slot
    }

    pub fn generation(self) -> (r: u32)
        ensures
            r == self.generation_spec(),
    {
        self.generation
    }

    /// The slot as an index into the pool.
    pub fn index(self) -> (r: usize)
        ensures
            r == self.slot_spec(),
    {
        self.slot as usize
    }
}

/// Two handles are the same exactly when their slots and generations are.
pub proof fn lemma_handle_identity(a: ObjectHandle, b: ObjectHandle)
    ensures
        (a == b) <==> (a.slot_spec() == b.slot_spec() && a.generation_spec() == b.generation_spec()),
{
}

} // verus!
