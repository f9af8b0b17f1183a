//! Visual effects: a fixed pool of effect slots with a last-in first-out
//! free list, and their per-tick animation.

pub mod spawn;
pub mod types;

use vstd::prelude::*;

verus! {

pub type EffectId = u16;

/// Number of effect slots.
pub const MAX_EFFECTS: usize = 512;

/// State of a free slot.
pub const EFFECT_INACTIVE: u8 = 0xFF;

/// State of a freshly spawned effect.
pub const EFFECT_ACTIVE: u8 = 0;

/// Effect flags.
pub const EFFECT_GRAVITY: u8 = 0x01;
pub const EFFECT_LOOP: u8 = 0x02;
pub const EFFECT_ATTACHED: u8 = 0x04;

/// Gravity added to the vertical velocity each tick (8.8 fixed point).
pub const GRAVITY_ACCEL: i32 = 32;

/// One visual effect.
#[derive(Clone, Copy, Debug, PartialEq, Eq, Structural)]
pub struct Effect {
    pub effect_type: u8,
    /// `EFFECT_INACTIVE` marks a free slot.
    pub state: u8,
    /// `EFFECT_GRAVITY`, `EFFECT_LOOP`, `EFFECT_ATTACHED`.
    pub flags: u8,
    /// Owning tribe, 0..=3.
    pub owner: u8,
    pub x: i32,
    pub y: i32,
    /// Height.
    pub z: i32,
    /// Velocities in 8.8 fixed point per tick.
    pub velocity_x: i32,
    pub velocity_y: i32,
    pub velocity_z: i32,
    pub frame: i16,
    pub max_frame: i16,
    /// Render scale, 0x100 = 100%.
    pub scale: i16,
    /// Opacity, 0x100 = fully opaque.
    pub alpha: i16,
    /// Entity the effect follows.
    pub target: Option<u32>,
    pub damage: i32,
    pub radius: i32,
    pub duration: i32,
    /// Packed RGBA.
    pub color: u32,
}

pub open spec fn default_effect() -> Effect {
    Effect {
        effect_type: 0,
        state: EFFECT_INACTIVE,
        flags: 0,
        owner: 0,
        x: 0,
        y: 0,
        z: 0,
        velocity_x: 0,
        velocity_y: 0,
        velocity_z: 0,
        frame: 0,
        max_frame: 1,
        scale: 0x100,
        alpha: 0x100,
        target: None,
        damage: 0,
        radius: 0,
        duration: 0,
        color: 0xFFFF_FFFF,
    }
}

impl Default for Effect {
    /// An inactive, one-frame, full-size, opaque, white effect.
    fn default() -> (r: Self)
        ensures
            r == default_effect(),
    {
        Effect {
            effect_type: 0,
            state: EFFECT_INACTIVE,
            flags: 0,
            owner: 0,
            x: 0,
            y: 0,
            z: 0,
            velocity_x: 0,
            velocity_y: 0,
            velocity_z: 0,
            frame: 0,
            max_frame: 1,
            scale: 0x100,
            alpha: 0x100,
            target: None,
            damage: 0,
            radius: 0,
            duration: 0,
            color: 0xFFFF_FFFF,
        }
    }
}

/// Whether an effect occupies its slot.
pub open spec fn is_active(e: Effect) -> bool {
    e.state != EFFECT_INACTIVE
}

/// A freshly spawned effect.
pub open spec fn spawned_effect(effect_type: u8, x: i32, y: i32, z: i32, owner: u8) -> Effect {
    Effect { effect_type, state: EFFECT_ACTIVE, owner, x, y, z, ..default_effect() }
}

/// Whether an active effect ends this tick: its frames run out and it does
/// not loop.
pub open spec fn ends(e: Effect) -> bool {
    e.frame + 1 >= e.max_frame && e.flags & EFFECT_LOOP == 0
}

/// An active effect after one tick: gravity pulls on its vertical
/// velocity, it moves by its velocity, and its animation advances, wrapping
/// round if it loops and ending otherwise.
pub open spec fn effect_step(e: Effect) -> Effect {
    let vz = if e.flags & EFFECT_GRAVITY != 0 { e.velocity_z.wrapping_sub(GRAVITY_ACCEL) } else { e.velocity_z };
    let moved = Effect {
        x: e.x.wrapping_add(e.velocity_x >> 8u32),
        y: e.y.wrapping_add(e.velocity_y >> 8u32),
        z: e.z.wrapping_add(vz >> 8u32),
        velocity_z: vz,
        ..e
    };
    if e.frame + 1 < e.max_frame {
        Effect { frame: (e.frame + 1) as i16, ..moved }
    } else if e.flags & EFFECT_LOOP != 0 {
        Effect { frame: 0, ..moved }
    } else {
        Effect { state: EFFECT_INACTIVE, ..moved }
    }
}

/// A slot after one tick.
pub open spec fn tick_slot(e: Effect) -> Effect {
    if is_active(e) { effect_step(e) } else { e }
}

/// The slots among the first `k` whose effects end this tick, in order.
pub open spec fn ended_ids(s: Seq<Effect>, k: int) -> Seq<u16>
    decreases k,
{
    if k <= 0 {
        Seq::empty()
    } else if is_active(s[k - 1]) && ends(s[k - 1]) {
        ended_ids(s, k - 1).push((k - 1) as u16)
    } else {
        ended_ids(s, k - 1)
    }
}

/// A fixed pool of effect slots. Free slots are reused last freed, first
/// taken.
pub struct EffectPool {
    slots: Vec<Effect>,
    free_list: Vec<u16>,
    active_count: u32,
}

impl EffectPool {
    /// The slots.
    pub closed spec fn slots_spec(&self) -> Seq<Effect> {
        self.slots@
    }

    /// The free slots, the next one to be taken last.
    pub closed spec fn free_spec(&self) -> Seq<u16> {
        self.free_list@
    }

    /// The number of active effects.
    pub closed spec fn count_spec(&self) -> u32 {
        self.active_count
    }

    /// Whether slot `id` holds an active effect.
    pub open spec fn active_at(&self, id: int) -> bool {
        0 <= id < MAX_EFFECTS && is_active(self.slots_spec()[id])
    }

    /// The pool's invariant: the free list holds each inactive slot once,
    /// and the count is the number of the others.
    pub closed spec fn wf(&self) -> bool {
        &&& self.slots@.len() == MAX_EFFECTS
        &&& self.free_list@.len() + self.active_count == MAX_EFFECTS
        &&& self.free_list@.no_duplicates()
        &&& forall|i: int|
            0 <= i < self.free_list@.len() ==> (#[trigger] self.free_list@[i]) < MAX_EFFECTS
                && !is_active(self.slots@[self.free_list@[i] as int])
        &&& forall|s: int|
            0 <= s < MAX_EFFECTS && !is_active(#[trigger] self.slots@[s]) ==> self.free_list@.contains(s as u16)
    }

    /// A well-formed pool has room exactly when fewer than all slots are
    /// active, and it has as many slots as `MAX_EFFECTS`.
    pub proof fn lemma_wf_counts(&self)
        requires
            self.wf(),
        ensures
            self.slots_spec().len() == MAX_EFFECTS,
            self.free_spec().len() + self.count_spec() == MAX_EFFECTS,
            (self.free_spec().len() == 0) <==> (self.count_spec() == MAX_EFFECTS),
            self.free_spec().len() > 0 ==> !self.active_at(self.free_spec().last() as int),
    {
    }

    /// A pool with every slot free; the first spawn takes slot 0.
    pub fn new() -> (r: Self)
        ensures
            r.wf(),
            r.slots_spec() == Seq::new(MAX_EFFECTS as nat, |i: int| default_effect()),
            r.free_spec() == Seq::new(MAX_EFFECTS as nat, |i: int| (MAX_EFFECTS - 1 - i) as u16),
            r.count_spec() == 0,
    {
        let mut slots: Vec<Effect> = Vec::new();
        let mut free_list: Vec<u16> = Vec::new();
        let mut i: usize = 0;
        while i < MAX_EFFECTS
            invariant
                i <= MAX_EFFECTS,
                slots@ == Seq::new(i as nat, |k: int| default_effect()),
                free_list@ == Seq::new(i as nat, |k: int| (MAX_EFFECTS - 1 - k) as u16),
            decreases MAX_EFFECTS - i,
        {
            slots.push(Effect::default());
            free_list.push((MAX_EFFECTS - 1 - i) as u16);
            i += 1;
            assert(slots@ =~= Seq::new(i as nat, |k: int| default_effect()));
            assert(free_list@ =~= Seq::new(i as nat, |k: int| (MAX_EFFECTS - 1 - k) as u16));
        }
        let r = EffectPool { slots, free_list, active_count: 0 };
        assert forall|s: int| 0 <= s < MAX_EFFECTS && !is_active(#[trigger] r.slots@[s]) implies r.free_list@.contains(
            s as u16,
        ) by {
            assert(r.free_list@[MAX_EFFECTS - 1 - s] == s as u16);
        }
        r
    }

    /// Number of free slots.
    pub fn free_count(&self) -> (r: usize)
        ensures
            r == self.free_spec().len(),
    {
        self.free_list.len()
    }

    /// Number of active effects.
    pub fn active_count(&self) -> (r: u32)
        ensures
            r == self.count_spec(),
    {
        self.active_count
    }

    /// Start an effect in the most recently freed slot; `None` when every
    /// slot is taken.
    pub fn spawn(&mut self, effect_type: u8, x: i32, y: i32, z: i32, owner: u8) -> (r: Option<EffectId>)
        requires
            old(self).wf(),
        ensures
            final(self).wf(),
            r is None <==> old(self).free_spec().len() == 0,
            r is None ==> *final(self) == *old(self),
            r matches Some(id) ==> {
                &&& id == old(self).free_spec().last()
                &&& !old(self).active_at(id as int)
                &&& final(self).slots_spec() == old(self).slots_spec().update(
                    id as int,
                    spawned_effect(effect_type, x, y, z, owner),
                )
                &&& final(self).free_spec() == old(self).free_spec().drop_last()
                &&& final(self).count_spec() == old(self).count_spec() + 1
            },
    {
        if self.free_list.len() == 0 {
            return None;
        }
        match self.free_list.pop() {
            None => None,
            Some(id) => {
                let ghost old_free = old(self).free_list@;
                assert(old_free.last() == id);
                assert(id < MAX_EFFECTS && !is_active(old(self).slots@[id as int])) by {
                    assert(old_free[old_free.len() - 1] == id);
                }
                let e = Effect {
                    effect_type,
                    state: EFFECT_ACTIVE,
                    owner,
                    x,
                    y,
                    z,
                    ..Effect::default()
                };
                self.slots[id as usize] = e;
                self.active_count = self.active_count + 1;
                assert(self.free_list@ =~= old_free.drop_last());
                assert forall|s: int| 0 <= s < MAX_EFFECTS && !is_active(#[trigger] self.slots@[s]) implies self.free_list@.contains(
                    s as u16,
                ) by {
                    assert(s != id);
                    assert(old_free.contains(s as u16));
                    let k = choose|k: int| 0 <= k < old_free.len() && old_free[k] == s as u16;
                    assert(k != old_free.len() - 1);
                    assert(self.free_list@[k] == s as u16);
                }
                Some(id)
            },
        }
    }

    /// End the effect in slot `id` and free its slot; the next spawn takes
    /// it. A slot that is free or out of range is left alone.
    pub fn destroy(&mut self, id: EffectId)
        requires
            old(self).wf(),
        ensures
            final(self).wf(),
            !old(self).active_at(id as int) ==> *final(self) == *old(self),
            old(self).active_at(id as int) ==> {
                &&& final(self).slots_spec() == old(self).slots_spec().update(
                    id as int,
                    Effect { state: EFFECT_INACTIVE, ..old(self).slots_spec()[id as int] },
                )
                &&& final(self).free_spec() == old(self).free_spec().push(id)
                &&& final(self).count_spec() == old(self).count_spec() - 1
            },
    {
        if (id as usize) < MAX_EFFECTS && self.slots[id as usize].state != EFFECT_INACTIVE {
            self.release(id as usize);
        }
    }

    /// Mark the active effect in slot `i` inactive and free its slot.
    fn release(&mut self, i: usize)
        requires
            old(self).wf(),
            old(self).active_at(i as int),
        ensures
            final(self).wf(),
            final(self).slots_spec() == old(self).slots_spec().update(
                i as int,
                Effect { state: EFFECT_INACTIVE, ..old(self).slots_spec()[i as int] },
            ),
            final(self).free_spec() == old(self).free_spec().push(i as u16),
            final(self).count_spec() == old(self).count_spec() - 1,
    {
        let ghost old_free = self.free_list@;
        assert(!old_free.contains(i as u16)) by {
            if old_free.contains(i as u16) {
                let k = choose|k: int| 0 <= k < old_free.len() && old_free[k] == i as u16;
                assert(!is_active(self.slots@[old_free[k] as int]));
            }
        }
        assert(self.active_count > 0) by {
            if self.active_count == 0 {
                assert(old_free.len() == MAX_EFFECTS);
                self.lemma_full_free_list_covers(i as int);
            }
        }
        let e = self.slots[i];
        self.slots[i] = Effect { state: EFFECT_INACTIVE, ..e };
        self.free_list.push(i as u16);
        self.active_count = self.active_count - 1;
        assert forall|a: int, b: int|
            0 <= a < self.free_list@.len() && 0 <= b < self.free_list@.len() && a != b implies self.free_list@[a]
            != self.free_list@[b] by {
            if b == self.free_list@.len() - 1 {
                assert(old_free[a] == self.free_list@[a]);
                assert(old_free.contains(old_free[a]));
            } else if a == self.free_list@.len() - 1 {
                assert(old_free[b] == self.free_list@[b]);
                assert(old_free.contains(old_free[b]));
            }
        }
        assert forall|s: int| 0 <= s < MAX_EFFECTS && !is_active(#[trigger] self.slots@[s]) implies self.free_list@.contains(
            s as u16,
        ) by {
            if s == i {
                assert(self.free_list@[self.free_list@.len() - 1] == i as u16);
            } else {
                assert(old_free.contains(s as u16));
                let k = choose|k: int| 0 <= k < old_free.len() && old_free[k] == s as u16;
                assert(self.free_list@[k] == s as u16);
            }
        }
    }

    /// A free list that holds all slots holds every slot index, so no
    /// slot can be active.
    proof fn lemma_full_free_list_covers(&self, i: int)
        requires
            self.wf(),
            self.free_list@.len() == MAX_EFFECTS,
            0 <= i < MAX_EFFECTS,
        ensures
            !is_active(self.slots@[i]),
    {
        broadcast use vstd::seq_lib::group_seq_properties;
        let f = self.free_list@;
        f.unique_seq_to_set();
        if is_active(self.slots@[i]) {
            let below = Set::new(|v: u16| v < MAX_EFFECTS as u16);
            let others = below.remove(i as u16);
            lemma_u16_range_size(MAX_EFFECTS as u16);
            assert(f.to_set().subset_of(others)) by {
                assert forall|v: u16| f.to_set().contains(v) implies others.contains(v) by {
                    assert(f.contains(v));
                    let k = choose|k: int| 0 <= k < f.len() && f[k] == v;
                    assert(f[k] < MAX_EFFECTS);
                    if v == i as u16 {
                        assert(!is_active(self.slots@[f[k] as int]));
                    }
                }
            }
            assert(below.contains(i as u16));
            vstd::set_lib::lemma_len_subset(f.to_set(), others);
        }
    }

    /// The effect in slot `id`, if it is active.
    pub fn get(&self, id: EffectId) -> (r: Option<&Effect>)
        requires
            self.wf(),
        ensures
            r is Some <==> self.active_at(id as int),
            r matches Some(e) ==> *e == self.slots_spec()[id as int],
    {
        if (id as usize) < MAX_EFFECTS && self.slots[id as usize].state != EFFECT_INACTIVE {
            Some(&self.slots[id as usize])
        } else {
            None
        }
    }

    /// The effect in slot `id` for changing, if it is active. The pool keeps
    /// its invariant as long as the effect is left active.
    pub fn get_mut(&mut self, id: EffectId) -> (r: Option<&mut Effect>)
        requires
            old(self).wf(),
        ensures
            r is Some <==> old(self).active_at(id as int),
            r is None ==> *final(self) == *old(self),
            r is Some ==> {
                &&& *r.unwrap() == old(self).slots_spec()[id as int]
                &&& final(self).slots_spec() == old(self).slots_spec().update(id as int, *final(r.unwrap()))
                &&& final(self).free_spec() == old(self).free_spec()
                &&& final(self).count_spec() == old(self).count_spec()
                &&& is_active(*final(r.unwrap())) ==> final(self).wf()
            },
    {
        if (id as usize) < MAX_EFFECTS && self.slots[id as usize].state != EFFECT_INACTIVE {
            Some(&mut self.slots[id as usize])
        } else {
            None
        }
    }

    /// Advance every active effect by one tick; effects that end free their
    /// slots, in slot order.
    pub fn update_all(&mut self)
        requires
            old(self).wf(),
        ensures
            final(self).wf(),
            final(self).slots_spec() == Seq::new(MAX_EFFECTS as nat, |j: int| tick_slot(old(self).slots_spec()[j])),
            final(self).free_spec() == old(self).free_spec() + ended_ids(old(self).slots_spec(), MAX_EFFECTS as int),
            final(self).count_spec() == old(self).count_spec() - ended_ids(old(self).slots_spec(), MAX_EFFECTS as int).len(),
    {
        let ghost s0 = self.slots@;
        let mut i: usize = 0;
        while i < MAX_EFFECTS
            invariant
                i <= MAX_EFFECTS,
                s0 == old(self).slots@,
                self.wf(),
                forall|j: int| 0 <= j < i ==> self.slots@[j] == tick_slot(s0[j]),
                forall|j: int| i <= j < MAX_EFFECTS ==> self.slots@[j] == s0[j],
                self.free_list@ == old(self).free_list@ + ended_ids(s0, i as int),
                self.active_count == old(self).active_count - ended_ids(s0, i as int).len(),
            decreases MAX_EFFECTS - i,
        {
            let e = self.slots[i];
            if e.state != EFFECT_INACTIVE {
                let stepped = step_effect(e);
                self.slots[i] = stepped;
                proof {
                    self.lemma_replace_active(i as int, stepped);
                }
                if e.frame as i32 + 1 >= e.max_frame as i32 && e.flags & EFFECT_LOOP == 0 {
                    self.release(i);
                }
            }
            proof {
                assert(ended_ids(s0, i as int + 1) == if is_active(s0[i as int]) && ends(s0[i as int]) {
                    ended_ids(s0, i as int).push(i as u16)
                } else {
                    ended_ids(s0, i as int)
                });
            }
            i += 1;
        }
        assert(self.slots@ =~= Seq::new(MAX_EFFECTS as nat, |j: int| tick_slot(s0[j])));
    }

    /// Replacing an active effect by another active one keeps the invariant.
    proof fn lemma_replace_active(&self, i: int, e: Effect)
        requires
            0 <= i < MAX_EFFECTS,
            self.slots@.len() == MAX_EFFECTS,
            self.slots@[i] == e,
            is_active(e),
            self.free_list@.len() + self.active_count == MAX_EFFECTS,
            self.free_list@.no_duplicates(),
            forall|k: int|
                0 <= k < self.free_list@.len() ==> (#[trigger] self.free_list@[k]) < MAX_EFFECTS
                    && (self.free_list@[k] != i ==> !is_active(self.slots@[self.free_list@[k] as int])),
            forall|k: int| 0 <= k < self.free_list@.len() ==> (#[trigger] self.free_list@[k]) != i,
            forall|s: int|
                0 <= s < MAX_EFFECTS && s != i && !is_active(#[trigger] self.slots@[s]) ==> self.free_list@.contains(s as u16),
        ensures
            self.wf(),
    {
    }
}

/// One tick of an active effect.
fn step_effect(e: Effect) -> (r: Effect)
    ensures
        r.state == e.state,
        ends(e) ==> (Effect { state: EFFECT_INACTIVE, ..r }) == effect_step(e),
        !ends(e) ==> r == effect_step(e),
{
    let vz = if e.flags & EFFECT_GRAVITY != 0 { e.velocity_z.wrapping_sub(GRAVITY_ACCEL) } else { e.velocity_z };
    let moved = Effect {
        x: e.x.wrapping_add(e.velocity_x >> 8u32),
        y: e.y.wrapping_add(e.velocity_y >> 8u32),
        z: e.z.wrapping_add(vz >> 8u32),
        velocity_z: vz,
        ..e
    };
    if (e.frame as i32) + 1 < e.max_frame as i32 {
        Effect { frame: e.frame + 1, ..moved }
    } else if e.flags & EFFECT_LOOP != 0 {
        Effect { frame: 0, ..moved }
    } else {
        moved
    }
}

/// There are `n` values of `u16` below `n`.
proof fn lemma_u16_range_size(n: u16)
    ensures
        Set::new(|v: u16| v < n).len() == n,
        Set::new(|v: u16| v < n).finite(),
    decreases n,
{
    if n == 0 {
        assert(Set::new(|v: u16| v < n) =~= Set::empty());
    } else {
        lemma_u16_range_size((n - 1) as u16);
        assert(Set::new(|v: u16| v < n) =~= Set::new(|v: u16| v < (n - 1) as u16).insert((n - 1) as u16));
    }
}

} // verus!
