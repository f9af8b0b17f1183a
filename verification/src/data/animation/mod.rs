//! Person animations: the VELE / VFRA / VSTART records, the element,
//! frame and sequence chains built from them, and the layers of a frame.

pub mod atlas;
pub mod direct;
pub mod sprites;

use vstd::prelude::*;

use super::reader::ByteReader;
use super::units::{le_u16, read_le_u16};



verus! {

/// Directions per animation, and the five of them that are stored (the
/// other three are mirrored).
pub const DIRS_PER_ANIM: usize = 8;
pub const STORED_DIRECTIONS: usize = 5;

/// Number of tribes.
pub const NUM_TRIBES: usize = 4;

/// Person subtypes.
pub const PERSON_SUBTYPE_BRAVE: u8 = 2;
pub const PERSON_SUBTYPE_WARRIOR: u8 = 3;
pub const PERSON_SUBTYPE_PREACHER: u8 = 4;
pub const PERSON_SUBTYPE_SPY: u8 = 5;
pub const PERSON_SUBTYPE_FIREWARRIOR: u8 = 6;
pub const PERSON_SUBTYPE_SHAMAN: u8 = 7;

/// Sizes of the three record kinds.
pub const VELE_SIZE: usize = 10;
pub const VFRA_SIZE: usize = 8;
pub const VSTART_SIZE: usize = 4;

/// Longest element or frame chain that is followed.
pub const MAX_CHAIN: usize = 256;

/// One sprite element of a frame (VELE record).
#[derive(Debug, Copy, Clone, PartialEq, Eq, Structural)]
pub struct VeleRaw {
    pub sprite_index: u16,
    pub coord_x: i16,
    pub coord_y: i16,
    pub flags: u16,
    pub next_index: u16,
}

/// One frame of a sequence (VFRA record).
#[derive(Debug, Copy, Clone, PartialEq, Eq, Structural)]
pub struct VfraRaw {
    pub index: u16,
    pub width: u8,
    pub height: u8,
    pub f3: u8,
    pub f4: u8,
    pub next_vfra: u16,
}

/// The first frame of a sequence (VSTART record).
#[derive(Debug, Copy, Clone, PartialEq, Eq, Structural)]
pub struct VstartRaw {
    pub index: u16,
    pub f1: u8,
    pub f2: u8,
}

pub open spec fn vele_of(b: Seq<u8>) -> VeleRaw {
    VeleRaw {
        sprite_index: le_u16(b[0], b[1]),
        coord_x: le_u16(b[2], b[3]) as i16,
        coord_y: le_u16(b[4], b[5]) as i16,
        flags: le_u16(b[6], b[7]),
        next_index: le_u16(b[8], b[9]),
    }
}

pub open spec fn vfra_of(b: Seq<u8>) -> VfraRaw {
    VfraRaw { index: le_u16(b[0], b[1]), width: b[2], height: b[3], f3: b[4], f4: b[5], next_vfra: le_u16(b[6], b[7]) }
}

pub open spec fn vstart_of(b: Seq<u8>) -> VstartRaw {
    VstartRaw { index: le_u16(b[0], b[1]), f1: b[2], f2: b[3] }
}

/// The whole records of `size` bytes at the start of `b`, decoded by `f`.
pub open spec fn records<T>(b: Seq<u8>, size: nat, f: spec_fn(Seq<u8>) -> T) -> Seq<T> {
    Seq::new(b.len() / size, |i: int| f(b.subrange(i * size, i * size + size)))
}

impl VeleRaw {
    /// Read one record; `None`, reading nothing, when fewer than ten bytes
    /// are left.
    pub fn from_reader(reader: &mut ByteReader) -> (r: Option<Self>)
        requires
            old(reader).wf(),
        ensures
            final(reader).wf(),
            final(reader).data_spec() == old(reader).data_spec(),
            r is Some <==> old(reader).rest().len() >= VELE_SIZE,
            r matches Some(v) ==> v == vele_of(old(reader).rest()) && final(reader).rest() == old(reader).rest().subrange(
                VELE_SIZE as int,
                old(reader).rest().len() as int,
            ),
            r is None ==> final(reader).pos_spec() == old(reader).pos_spec(),
    {
        match reader.read_exact(VELE_SIZE) {
            Some(b) => Some(
                VeleRaw {
                    sprite_index: read_le_u16(b[0], b[1]),
                    coord_x: read_le_u16(b[2], b[3]) as i16,
                    coord_y: read_le_u16(b[4], b[5]) as i16,
                    flags: read_le_u16(b[6], b[7]),
                    next_index: read_le_u16(b[8], b[9]),
                },
            ),
            None => None,
        }
    }
}

impl VfraRaw {
    /// Read one record; `None`, reading nothing, when fewer than eight
    /// bytes are left.
    pub fn from_reader(reader: &mut ByteReader) -> (r: Option<Self>)
        requires
            old(reader).wf(),
        ensures
            final(reader).wf(),
            final(reader).data_spec() == old(reader).data_spec(),
            r is Some <==> old(reader).rest().len() >= VFRA_SIZE,
            r matches Some(v) ==> v == vfra_of(old(reader).rest()) && final(reader).rest() == old(reader).rest().subrange(
                VFRA_SIZE as int,
                old(reader).rest().len() as int,
            ),
            r is None ==> final(reader).pos_spec() == old(reader).pos_spec(),
    {
        match reader.read_exact(VFRA_SIZE) {
            Some(b) => Some(
                VfraRaw {
                    index: read_le_u16(b[0], b[1]),
                    width: b[2],
                    height: b[3],
                    f3: b[4],
                    f4: b[5],
                    next_vfra: read_le_u16(b[6], b[7]),
                },
            ),
            None => None,
        }
    }
}

impl VstartRaw {
    /// Read one record; `None`, reading nothing, when fewer than four bytes
    /// are left.
    pub fn from_reader(reader: &mut ByteReader) -> (r: Option<Self>)
        requires
            old(reader).wf(),
        ensures
            final(reader).wf(),
            final(reader).data_spec() == old(reader).data_spec(),
            r is Some <==> old(reader).rest().len() >= VSTART_SIZE,
            r matches Some(v) ==> v == vstart_of(old(reader).rest()) && final(reader).rest() == old(reader).rest().subrange(
                VSTART_SIZE as int,
                old(reader).rest().len() as int,
            ),
            r is None ==> final(reader).pos_spec() == old(reader).pos_spec(),
    {
        match reader.read_exact(VSTART_SIZE) {
            Some(b) => Some(VstartRaw { index: read_le_u16(b[0], b[1]), f1: b[2], f2: b[3] }),
            None => None,
        }
    }
}

/// The three animation tables.
pub struct AnimationsData {
    pub vele: Vec<VeleRaw>,
    pub vfra: Vec<VfraRaw>,
    pub vstart: Vec<VstartRaw>,
}

fn read_vele_all(reader: &mut ByteReader) -> (r: Vec<VeleRaw>)
    requires
        old(reader).wf(),
    ensures
        r@ == records(old(reader).rest(), VELE_SIZE as nat, |b: Seq<u8>| vele_of(b)),
{
    let ghost start = reader.rest();
    let mut v: Vec<VeleRaw> = Vec::new();
    loop
        invariant
            reader.wf(),
            start == old(reader).rest(),
            start.len() == v@.len() * VELE_SIZE + reader.rest().len(),
            reader.rest() == start.subrange((v@.len() * VELE_SIZE) as int, start.len() as int),
            forall|i: int| 0 <= i < v@.len() ==> #[trigger] v@[i] == vele_of(start.subrange(i * VELE_SIZE, i * VELE_SIZE + VELE_SIZE)),
        decreases reader.rest().len(),
    {
        let ghost before = reader.rest();
        match VeleRaw::from_reader(reader) {
            Some(e) => {
                assert(before.subrange(0, 10) =~= start.subrange(v@.len() * 10 as int, v@.len() * 10 + 10 as int));
                assert(vele_of(before) == vele_of(before.subrange(0, 10)));
                v.push(e);
                assert(reader.rest() =~= start.subrange((v@.len() * VELE_SIZE) as int, start.len() as int));
            },
            None => {
                assert(v@ =~= records(start, VELE_SIZE as nat, |b: Seq<u8>| vele_of(b))) by {
                    assert(start.len() / 10 == v@.len()) by (nonlinear_arith)
                        requires start.len() == v@.len() * 10 + before.len(), before.len() < 10;
                }
                return v;
            },
        }
    }
}

fn read_vfra_all(reader: &mut ByteReader) -> (r: Vec<VfraRaw>)
    requires
        old(reader).wf(),
    ensures
        r@ == records(old(reader).rest(), VFRA_SIZE as nat, |b: Seq<u8>| vfra_of(b)),
{
    let ghost start = reader.rest();
    let mut v: Vec<VfraRaw> = Vec::new();
    loop
        invariant
            reader.wf(),
            start == old(reader).rest(),
            start.len() == v@.len() * VFRA_SIZE + reader.rest().len(),
            reader.rest() == start.subrange((v@.len() * VFRA_SIZE) as int, start.len() as int),
            forall|i: int| 0 <= i < v@.len() ==> #[trigger] v@[i] == vfra_of(start.subrange(i * VFRA_SIZE, i * VFRA_SIZE + VFRA_SIZE)),
        decreases reader.rest().len(),
    {
        let ghost before = reader.rest();
        match VfraRaw::from_reader(reader) {
            Some(e) => {
                assert(before.subrange(0, 8) =~= start.subrange(v@.len() * 8 as int, v@.len() * 8 + 8 as int));
                assert(vfra_of(before) == vfra_of(before.subrange(0, 8)));
                v.push(e);
                assert(reader.rest() =~= start.subrange((v@.len() * VFRA_SIZE) as int, start.len() as int));
            },
            None => {
                assert(v@ =~= records(start, VFRA_SIZE as nat, |b: Seq<u8>| vfra_of(b))) by {
                    assert(start.len() / 8 == v@.len()) by (nonlinear_arith)
                        requires start.len() == v@.len() * 8 + before.len(), before.len() < 8;
                }
                return v;
            },
        }
    }
}

fn read_vstart_all(reader: &mut ByteReader) -> (r: Vec<VstartRaw>)
    requires
        old(reader).wf(),
    ensures
        r@ == records(old(reader).rest(), VSTART_SIZE as nat, |b: Seq<u8>| vstart_of(b)),
{
    let ghost start = reader.rest();
    let mut v: Vec<VstartRaw> = Vec::new();
    loop
        invariant
            reader.wf(),
            start == old(reader).rest(),
            start.len() == v@.len() * VSTART_SIZE + reader.rest().len(),
            reader.rest() == start.subrange((v@.len() * VSTART_SIZE) as int, start.len() as int),
            forall|i: int| 0 <= i < v@.len() ==> #[trigger] v@[i] == vstart_of(start.subrange(i * VSTART_SIZE, i * VSTART_SIZE + VSTART_SIZE)),
        decreases reader.rest().len(),
    {
        let ghost before = reader.rest();
        match VstartRaw::from_reader(reader) {
            Some(e) => {
                assert(before.subrange(0, 4) =~= start.subrange(v@.len() * 4 as int, v@.len() * 4 + 4 as int));
                assert(vstart_of(before) == vstart_of(before.subrange(0, 4)));
                v.push(e);
                assert(reader.rest() =~= start.subrange((v@.len() * VSTART_SIZE) as int, start.len() as int));
            },
            None => {
                assert(v@ =~= records(start, VSTART_SIZE as nat, |b: Seq<u8>| vstart_of(b))) by {
                    assert(start.len() / 4 == v@.len()) by (nonlinear_arith)
                        requires start.len() == v@.len() * 4 + before.len(), before.len() < 4;
                }
                return v;
            },
        }
    }
}

impl AnimationsData {
    /// Read the three tables, each as many whole records as its data holds.
    pub fn from_reader(reader_vele: &mut ByteReader, reader_vfra: &mut ByteReader, reader_vstart: &mut ByteReader) -> (r: Self)
        requires
            old(reader_vele).wf(),
            old(reader_vfra).wf(),
            old(reader_vstart).wf(),
        ensures
            r.vele@ == records(old(reader_vele).rest(), VELE_SIZE as nat, |b: Seq<u8>| vele_of(b)),
            r.vfra@ == records(old(reader_vfra).rest(), VFRA_SIZE as nat, |b: Seq<u8>| vfra_of(b)),
            r.vstart@ == records(old(reader_vstart).rest(), VSTART_SIZE as nat, |b: Seq<u8>| vstart_of(b)),
    {
        AnimationsData {
            vele: read_vele_all(reader_vele),
            vfra: read_vfra_all(reader_vfra),
            vstart: read_vstart_all(reader_vstart),
        }
    }
}

/// Animation id -> (first VSTART sequence, sprite type), from the game's
/// animation shape table.
pub const ANIM_SHAPE_TABLE: [(u16, u8); 161] = [
    (8, 13), (0, 13), (16, 13), (32, 13), (24, 13), (0, 13), (0, 13), (0, 13),
    (0, 13), (0, 13), (0, 13), (0, 13), (0, 13), (0, 13), (0, 13), (48, 14),
    (48, 15), (48, 16), (48, 17), (48, 18), (424, 14), (40, 14), (40, 15), (40, 16),
    (40, 17), (40, 18), (616, 13), (88, 14), (88, 15), (88, 16), (88, 17), (88, 18),
    (64, 14), (64, 15), (64, 16), (64, 17), (64, 18), (744, 14), (96, 14), (96, 15),
    (96, 16), (96, 17), (96, 18), (80, 14), (80, 15), (80, 16), (80, 17), (80, 18),
    (72, 14), (72, 15), (72, 16), (72, 17), (72, 18), (104, 14), (104, 15), (104, 16),
    (104, 17), (104, 18), (112, 14), (112, 15), (112, 16), (112, 17), (112, 18), (120, 14),
    (120, 15), (120, 16), (120, 17), (120, 18), (128, 14), (128, 15), (128, 16), (128, 17),
    (128, 18), (144, 14), (144, 15), (144, 16), (144, 17), (144, 18), (152, 14), (152, 15),
    (152, 16), (152, 17), (152, 18), (160, 14), (160, 15), (160, 16), (160, 17), (160, 18),
    (168, 14), (168, 15), (168, 16), (168, 17), (168, 18), (0, 13), (176, 19), (0, 13),
    (0, 13), (0, 13), (0, 13), (0, 13), (136, 19), (136, 22), (0, 14), (0, 14),
    (0, 14), (0, 14), (456, 14), (488, 14), (248, 13), (520, 14), (296, 14), (296, 15),
    (296, 16), (296, 17), (296, 18), (304, 14), (304, 15), (304, 16), (304, 17), (304, 18),
    (320, 14), (320, 15), (320, 16), (320, 17), (320, 18), (552, 14), (680, 14), (352, 14),
    (360, 14), (584, 14), (248, 13), (384, 14), (384, 15), (384, 16), (384, 17), (384, 18),
    (392, 14), (392, 15), (392, 16), (392, 17), (392, 18), (400, 14), (400, 15), (400, 16),
    (400, 17), (400, 18), (408, 14), (408, 15), (408, 16), (408, 17), (408, 18), (0, 14),
    (0, 14), (0, 14), (0, 14), (0, 14), (416, 14), (416, 15), (416, 16), (416, 17),
    (416, 18),
];

pub open spec fn anim_shape_spec(anim_id: u16) -> (usize, u8) {
    if (anim_id as int) < 161 {
        (ANIM_SHAPE_TABLE[anim_id as int].0 as usize, ANIM_SHAPE_TABLE[anim_id as int].1)
    } else {
        (0, 13)
    }
}

/// First VSTART sequence and sprite type of an animation; (0, 13) for ids
/// past the table.
pub fn anim_shape(anim_id: u16) -> (r: (usize, u8))
    ensures
        r == anim_shape_spec(anim_id),
{
    if (anim_id as usize) < 161 {
        let (vstart, typ) = ANIM_SHAPE_TABLE[anim_id as usize];
        (vstart as usize, typ)
    } else {
        (0, 13)
    }
}

pub open spec fn unit_combo_spec(subtype: u8) -> Option<(u16, u16)> {
    if subtype == PERSON_SUBTYPE_WARRIOR {
        Some((2u16, 2u16))
    } else if subtype == PERSON_SUBTYPE_PREACHER {
        Some((3u16, 1u16))
    } else if subtype == PERSON_SUBTYPE_SPY {
        Some((2u16, 3u16))
    } else if subtype == PERSON_SUBTYPE_FIREWARRIOR {
        Some((2u16, 1u16))
    } else {
        None
    }
}

/// The type-specific layer (layer, tribe field) that draws a person subtype:
/// warriors (2, 2), preachers (3, 1), spies (2, 3), firewarriors (2, 1).
pub fn unit_combo_for_subtype(subtype: u8) -> (r: Option<(u16, u16)>)
    ensures
        r == unit_combo_spec(subtype),
{
    if subtype == PERSON_SUBTYPE_WARRIOR {
        Some((2, 2))
    } else if subtype == PERSON_SUBTYPE_PREACHER {
        Some((3, 1))
    } else if subtype == PERSON_SUBTYPE_SPY {
        Some((2, 3))
    } else if subtype == PERSON_SUBTYPE_FIREWARRIOR {
        Some((2, 1))
    } else {
        None
    }
}

/// How an element is mirrored.
#[derive(Debug, Copy, Clone, PartialEq, Eq, Structural)]
pub enum ElementRotate {
    NoRotate,
    RotateHorizontal,
    RotateVertical,
}

/// One sprite layer of a frame.
#[derive(Debug, Copy, Clone, PartialEq, Eq, Structural)]
pub struct AnimationElement {
    pub sprite_index: usize,
    pub coord_x: i16,
    pub coord_y: i16,
    pub tribe: u8,
    pub flags: u16,
    /// Layer: 0 common to all, 1 tribe-specific, above 1 type-specific.
    pub uvar5: u16,
    pub original_flags: u16,
}

/// One frame: its VFRA index, size and sprite layers.
#[derive(Debug, Clone)]
pub struct AnimationFrame {
    pub index: usize,
    pub width: usize,
    pub height: usize,
    pub sprites: Vec<AnimationElement>,
}

/// The frames of one VSTART sequence.
pub struct AnimationSequence {
    pub index: usize,
    pub frames: Vec<AnimationFrame>,
}

pub open spec fn is_tribe_specific_spec(e: AnimationElement) -> bool {
    e.uvar5 == 1
}

pub open spec fn is_type_specific_spec(e: AnimationElement) -> bool {
    e.uvar5 > 1
}

pub open spec fn is_common_spec(e: AnimationElement) -> bool {
    !(is_tribe_specific_spec(e) || is_type_specific_spec(e))
}

impl AnimationElement {
    pub fn get_tribe(&self) -> (r: u8)
        ensures
            r == self.tribe,
    {
        self.tribe
    }

    /// No element is hidden.
    pub fn is_hidden(&self) -> (r: bool)
        ensures
            !r,
    {
        false
    }

    /// Drawn for every tribe and type: layer 0.
    pub fn is_common(&self) -> (r: bool)
        ensures
            r == is_common_spec(*self),
    {
        !(self.is_tribe_specific() || self.is_type_specific())
    }

    /// Drawn for one tribe: layer 1.
    pub fn is_tribe_specific(&self) -> (r: bool)
        ensures
            r == is_tribe_specific_spec(*self),
    {
        self.uvar5 == 1
    }

    /// Drawn for one person type: layers above 1.
    pub fn is_type_specific(&self) -> (r: bool)
        ensures
            r == is_type_specific_spec(*self),
    {
        self.uvar5 > 1
    }

    /// Mirroring: flag bit 0 horizontal, else bit 1 vertical.
    pub fn get_rotate(&self) -> (r: ElementRotate)
        ensures
            r == (if self.flags & 1 != 0 {
                ElementRotate::RotateHorizontal
            } else if self.flags & 2 != 0 {
                ElementRotate::RotateVertical
            } else {
                ElementRotate::NoRotate
            }),
    {
        if (self.flags & 0x1) != 0 {
            ElementRotate::RotateHorizontal
        } else if (self.flags & 0x2) != 0 {
            ElementRotate::RotateVertical
        } else {
            ElementRotate::NoRotate
        }
    }

    /// The elements of the chain starting at VELE record `index` (0 ends a
    /// chain), at most 256 of them.
    pub fn from_data(index: u16, vele: &[VeleRaw]) -> (r: Vec<Self>)
        requires
            element_chain_ok(vele@, index as int, 0),
        ensures
            r@ == element_chain(vele@, index as int, 0),
            r@.len() <= MAX_CHAIN,
    {
        let mut sprites: Vec<AnimationElement> = Vec::new();
        let mut vele_index = index as usize;
        proof {
            lemma_element_chain_len(vele@, index as int, 0);
        }
        while vele_index != 0
            invariant
                sprites@.len() < MAX_CHAIN,
                element_chain_ok(vele@, vele_index as int, sprites@.len()),
                element_chain(vele@, index as int, 0) == sprites@ + element_chain(vele@, vele_index as int, sprites@.len()),
            decreases MAX_CHAIN - sprites@.len(),
        {
            let v = vele[vele_index];
            let ghost n = sprites@.len();
            sprites.push(element_of(v));
            assert(sprites@ =~= sprites@.subrange(0, n as int).push(element_spec(v)));
            vele_index = v.next_index as usize;
            if sprites.len() > 255 {
                assert(element_chain(vele@, index as int, 0) =~= sprites@);
                return sprites;
            }
            assert(element_chain(vele@, index as int, 0) =~= sprites@ + element_chain(vele@, vele_index as int, sprites@.len()));
        }
        assert(element_chain(vele@, index as int, 0) =~= sprites@);
        sprites
    }
}

/// The element a VELE record describes.
pub open spec fn element_spec(v: VeleRaw) -> AnimationElement {
    AnimationElement {
        sprite_index: (if v.sprite_index / 6 >= 1 { v.sprite_index / 6 - 1 } else { 0 }) as usize,
        coord_x: v.coord_x,
        coord_y: v.coord_y,
        tribe: (v.flags >> 9u16) as u8,
        flags: v.flags & 0x1f,
        uvar5: ((v.flags & 0x1f0) >> 4u16) as u16,
        original_flags: v.flags,
    }
}

fn element_of(v: VeleRaw) -> (r: AnimationElement)
    ensures
        r == element_spec(v),
{
    let s = v.sprite_index as usize / 6;
    let f = v.flags;
    assert(f >> 9u16 <= 127) by (bit_vector);
    AnimationElement {
        sprite_index: if s >= 1 { s - 1 } else { 0 },
        coord_x: v.coord_x,
        coord_y: v.coord_y,
        tribe: (f >> 9u16) as u8,
        flags: f & 0x1f,
        uvar5: (f & 0x1f0) >> 4u16,
        original_flags: f,
    }
}

/// The elements of the chain from VELE record `idx` when `n` were taken
/// already: a zero index ends it, and it stops after the 256th element.
pub open spec fn element_chain(vele: Seq<VeleRaw>, idx: int, n: nat) -> Seq<AnimationElement>
    decreases MAX_CHAIN - n,
{
    if idx == 0 || n >= MAX_CHAIN {
        Seq::empty()
    } else {
        let v = vele[idx];
        if n + 1 > 255 {
            seq![element_spec(v)]
        } else {
            seq![element_spec(v)] + element_chain(vele, v.next_index as int, n + 1)
        }
    }
}

/// Whether every record the chain visits exists.
pub open spec fn element_chain_ok(vele: Seq<VeleRaw>, idx: int, n: nat) -> bool
    decreases MAX_CHAIN - n,
{
    if idx == 0 || n >= MAX_CHAIN {
        true
    } else {
        0 <= idx < vele.len() && (n + 1 > 255 || element_chain_ok(vele, vele[idx].next_index as int, n + 1))
    }
}

proof fn lemma_element_chain_len(vele: Seq<VeleRaw>, idx: int, n: nat)
    ensures
        element_chain(vele, idx, n).len() <= MAX_CHAIN - n || n >= MAX_CHAIN,
    decreases MAX_CHAIN - n,
{
    if idx != 0 && n < MAX_CHAIN && n + 1 <= 255 {
        lemma_element_chain_len(vele, vele[idx].next_index as int, n + 1);
    }
}

/// What a frame holds: its VFRA index, width, height and elements.
pub open spec fn frame_view(f: AnimationFrame) -> (usize, usize, usize, Seq<AnimationElement>) {
    (f.index, f.width, f.height, f.sprites@)
}

/// The frames of the chain from VFRA record `idx` of a sequence that starts
/// at `start`, when `n` were taken already: a zero index ends it, as does
/// coming back to the start, and it stops after the 256th frame.
pub open spec fn frame_chain(
    vfra: Seq<VfraRaw>,
    vele: Seq<VeleRaw>,
    start: int,
    idx: int,
    n: nat,
) -> Seq<(usize, usize, usize, Seq<AnimationElement>)>
    decreases MAX_CHAIN - n,
{
    if idx == 0 || n >= MAX_CHAIN {
        Seq::empty()
    } else {
        let f = vfra[idx];
        let here = (idx as usize, f.width as usize, f.height as usize, element_chain(vele, f.index as int, 0));
        if n + 1 > 255 || f.next_vfra as int == start {
            seq![here]
        } else {
            seq![here] + frame_chain(vfra, vele, start, f.next_vfra as int, n + 1)
        }
    }
}

/// Whether every record a frame chain visits, and every element chain of
/// its frames, exists.
pub open spec fn frame_chain_ok(vfra: Seq<VfraRaw>, vele: Seq<VeleRaw>, start: int, idx: int, n: nat) -> bool
    decreases MAX_CHAIN - n,
{
    if idx == 0 || n >= MAX_CHAIN {
        true
    } else {
        &&& 0 <= idx < vfra.len()
        &&& element_chain_ok(vele, vfra[idx].index as int, 0)
        &&& (n + 1 > 255 || vfra[idx].next_vfra as int == start || frame_chain_ok(
            vfra,
            vele,
            start,
            vfra[idx].next_vfra as int,
            n + 1,
        ))
    }
}

impl AnimationFrame {
    /// The frames of the sequence starting at VFRA record `index`.
    pub fn from_data(index: u16, vfra: &[VfraRaw], vele: &[VeleRaw]) -> (r: Vec<Self>)
        requires
            frame_chain_ok(vfra@, vele@, index as int, index as int, 0),
        ensures
            r@.map_values(|f: AnimationFrame| frame_view(f)) == frame_chain(vfra@, vele@, index as int, index as int, 0),
            r@.len() <= MAX_CHAIN,
    {
        let mut frames: Vec<AnimationFrame> = Vec::new();
        let mut vfra_index = index as usize;
        let ghost start = index as int;
        while vfra_index != 0
            invariant
                frames@.len() < MAX_CHAIN,
                start == index as int,
                frame_chain_ok(vfra@, vele@, start, vfra_index as int, frames@.len()),
                frame_chain(vfra@, vele@, start, start, 0) == frames@.map_values(|f: AnimationFrame| frame_view(f))
                    + frame_chain(vfra@, vele@, start, vfra_index as int, frames@.len()),
            decreases MAX_CHAIN - frames@.len(),
        {
            let f = vfra[vfra_index];
            let sprites = AnimationElement::from_data(f.index, vele);
            let ghost before = frames@;
            frames.push(AnimationFrame { index: vfra_index, width: f.width as usize, height: f.height as usize, sprites });
            assert(frames@.map_values(|f: AnimationFrame| frame_view(f)) =~= before.map_values(|f: AnimationFrame| frame_view(f)).push(
                (vfra_index, f.width as usize, f.height as usize, element_chain(vele@, f.index as int, 0)),
            ));
            vfra_index = f.next_vfra as usize;
            if frames.len() > 255 {
                assert(frame_chain(vfra@, vele@, start, start, 0) =~= frames@.map_values(|f: AnimationFrame| frame_view(f)));
                return frames;
            }
            if vfra_index == (index as usize) {
                assert(frame_chain(vfra@, vele@, start, start, 0) =~= frames@.map_values(|f: AnimationFrame| frame_view(f)));
                return frames;
            }
            assert(frame_chain(vfra@, vele@, start, start, 0) =~= frames@.map_values(|f: AnimationFrame| frame_view(f))
                + frame_chain(vfra@, vele@, start, vfra_index as int, frames@.len()));
        }
        assert(frame_chain(vfra@, vele@, start, start, 0) =~= frames@.map_values(|f: AnimationFrame| frame_view(f)));
        frames
    }

    /// The element sets a frame can be drawn with. Layer-0 elements are
    /// always drawn; with `with_tribe` each tribe-specific element (and each
    /// layer-0 one) is a choice of its own, likewise each type-specific (and
    /// layer-0) element with `with_type`; every choice of one from each
    /// non-empty group is returned, tribe choices outermost.
    pub fn get_permutations(&self, with_tribe: bool, with_type: bool) -> (r: Vec<Vec<AnimationElement>>)
        ensures
            r@.map_values(|v: Vec<AnimationElement>| v@) == permutations_spec(self.sprites@, with_tribe, with_type),
    {
        let mut common_elems: Vec<AnimationElement> = Vec::new();
        let mut tribe_elems: Vec<AnimationElement> = Vec::new();
        let mut type_elems: Vec<AnimationElement> = Vec::new();
        let mut i: usize = 0;
        while i < self.sprites.len()
            invariant
                i <= self.sprites@.len(),
                common_elems@ == pick_layers(self.sprites@, i as int, 0, true),
                tribe_elems@ == pick_layers(self.sprites@, i as int, 1, with_tribe),
                type_elems@ == pick_layers(self.sprites@, i as int, 2, with_type),
            decreases self.sprites@.len() - i,
        {
            let elem = self.sprites[i];
            if elem.is_hidden() {
            } else if elem.is_common() {
                common_elems.push(elem);
                if with_type {
                    type_elems.push(elem);
                }
                if with_tribe {
                    tribe_elems.push(elem);
                }
            } else if with_tribe && elem.is_tribe_specific() {
                tribe_elems.push(elem);
            } else if with_type && elem.is_type_specific() {
                type_elems.push(elem);
            }
            i += 1;
        }
        let ghost c = common_elems@;
        let ghost t = tribe_elems@;
        let ghost y = type_elems@;
        let mut res: Vec<Vec<AnimationElement>> = Vec::new();
        if tribe_elems.len() == 0 && type_elems.len() == 0 {
            res.push(common_elems);
            assert(res@.map_values(|v: Vec<AnimationElement>| v@) =~= permutations_spec(self.sprites@, with_tribe, with_type));
        } else if tribe_elems.len() > 0 {
            let mut a: usize = 0;
            while a < tribe_elems.len()
                invariant
                    a <= t.len(),
                    t.len() > 0,
                    common_elems@ == c,
                    tribe_elems@ == t,
                    type_elems@ == y,
                    y.len() == 0 ==> res@.len() == a,
                    y.len() > 0 ==> res@.len() == a * y.len(),
                    forall|k: int| 0 <= k < res@.len() ==> (#[trigger] res@[k])@ == (if y.len() == 0 {
                        c.push(t[k])
                    } else {
                        c.push(t[k / (y.len() as int)]).push(y[k % y.len() as int])
                    }),
                decreases t.len() - a,
            {
                let mut res_tribe = copy_elements(&common_elems);
                res_tribe.push(tribe_elems[a]);
                if type_elems.len() == 0 {
                    res.push(res_tribe);
                } else {
                    let mut b: usize = 0;
                    while b < type_elems.len()
                        invariant
                            a < t.len(),
                            b <= y.len(),
                            y.len() > 0,
                            common_elems@ == c,
                            tribe_elems@ == t,
                            type_elems@ == y,
                            res_tribe@ == c.push(t[a as int]),
                            res@.len() == a * y.len() + b,
                            forall|k: int| 0 <= k < res@.len() ==> (#[trigger] res@[k])@ == c.push(t[k / (y.len() as int)]).push(y[k % y.len() as int]),
                        decreases y.len() - b,
                    {
                        let mut res_type = copy_elements(&res_tribe);
                        res_type.push(type_elems[b]);
                        proof {
                            lemma_div_mod_step(a as int, b as int, y.len() as int);
                        }
                        res.push(res_type);
                        b += 1;
                    }
                    proof {
                        assert(res@.len() == (a + 1) * y.len()) by (nonlinear_arith)
                            requires res@.len() == a * y.len() + y.len();
                    }
                }
                a += 1;
            }
            assert(res@.map_values(|v: Vec<AnimationElement>| v@) =~= permutations_spec(self.sprites@, with_tribe, with_type));
        } else {
            let mut b: usize = 0;
            while b < type_elems.len()
                invariant
                    b <= y.len(),
                    common_elems@ == c,
                    type_elems@ == y,
                    res@.len() == b,
                    forall|k: int| 0 <= k < res@.len() ==> (#[trigger] res@[k])@ == c.push(y[k]),
                decreases y.len() - b,
            {
                let mut res_type = copy_elements(&common_elems);
                res_type.push(type_elems[b]);
                res.push(res_type);
                b += 1;
            }
            assert(res@.map_values(|v: Vec<AnimationElement>| v@) =~= permutations_spec(self.sprites@, with_tribe, with_type));
        }
        res
    }
}

proof fn lemma_div_mod_step(a: int, b: int, n: int)
    requires
        0 <= a,
        0 <= b < n,
    ensures
        (a * n + b) / n == a,
        (a * n + b) % n == b,
{
    vstd::arithmetic::div_mod::lemma_fundamental_div_mod_converse(a * n + b, n, a, b);
}

fn copy_elements(v: &Vec<AnimationElement>) -> (r: Vec<AnimationElement>)
    ensures
        r@ == v@,
{
    let mut r: Vec<AnimationElement> = Vec::new();
    let mut i: usize = 0;
    while i < v.len()
        invariant
            i <= v@.len(),
            r@ == v@.subrange(0, i as int),
        decreases v@.len() - i,
    {
        r.push(v[i]);
        i += 1;
        assert(r@ =~= v@.subrange(0, i as int));
    }
    assert(r@ =~= v@);
    r
}

/// Whether an element belongs to a layer group: group 0 takes layer-0
/// elements; group 1 (when on) layer-0 and tribe-specific ones; group 2
/// (when on) layer-0 and type-specific ones.
pub open spec fn in_group(e: AnimationElement, group: u8, on: bool) -> bool {
    if group == 0 {
        is_common_spec(e)
    } else if group == 1 {
        on && (is_common_spec(e) || is_tribe_specific_spec(e))
    } else {
        on && (is_common_spec(e) || is_type_specific_spec(e))
    }
}

/// The elements among the first `k` that belong to a group, in order.
pub open spec fn pick_layers(s: Seq<AnimationElement>, k: int, group: u8, on: bool) -> Seq<AnimationElement>
    decreases k,
{
    if k <= 0 {
        Seq::empty()
    } else if in_group(s[k - 1], group, on) {
        pick_layers(s, k - 1, group, on).push(s[k - 1])
    } else {
        pick_layers(s, k - 1, group, on)
    }
}

pub open spec fn permutations_spec(s: Seq<AnimationElement>, with_tribe: bool, with_type: bool) -> Seq<Seq<AnimationElement>> {
    let c = pick_layers(s, s.len() as int, 0, true);
    let t = pick_layers(s, s.len() as int, 1, with_tribe);
    let y = pick_layers(s, s.len() as int, 2, with_type);
    if t.len() == 0 && y.len() == 0 {
        seq![c]
    } else if t.len() > 0 && y.len() == 0 {
        Seq::new(t.len(), |k: int| c.push(t[k]))
    } else if t.len() > 0 {
        Seq::new(t.len() * y.len(), |k: int| c.push(t[k / y.len() as int]).push(y[k % y.len() as int]))
    } else {
        Seq::new(y.len(), |k: int| c.push(y[k]))
    }
}

impl AnimationSequence {
    /// One sequence per VSTART record, in order, with its frames.
    pub fn from_data(anim_data: &AnimationsData) -> (r: Vec<Self>)
        requires
            forall|i: int|
                0 <= i < anim_data.vstart@.len() ==> frame_chain_ok(
                    anim_data.vfra@,
                    anim_data.vele@,
                    (#[trigger] anim_data.vstart@[i]).index as int,
                    anim_data.vstart@[i].index as int,
                    0,
                ),
        ensures
            r@.len() == anim_data.vstart@.len(),
            forall|i: int|
                0 <= i < r@.len() ==> (#[trigger] r@[i]).index == i && r@[i].frames@.map_values(
                    |f: AnimationFrame| frame_view(f),
                ) == frame_chain(
                    anim_data.vfra@,
                    anim_data.vele@,
                    anim_data.vstart@[i].index as int,
                    anim_data.vstart@[i].index as int,
                    0,
                ),
    {
        let mut res: Vec<AnimationSequence> = Vec::new();
        let mut i: usize = 0;
        while i < anim_data.vstart.len()
            invariant
                i <= anim_data.vstart@.len(),
                res@.len() == i,
                forall|k: int|
                    0 <= k < anim_data.vstart@.len() ==> frame_chain_ok(
                        anim_data.vfra@,
                        anim_data.vele@,
                        (#[trigger] anim_data.vstart@[k]).index as int,
                        anim_data.vstart@[k].index as int,
                        0,
                    ),
                forall|k: int|
                    0 <= k < i ==> (#[trigger] res@[k]).index == k && res@[k].frames@.map_values(
                        |f: AnimationFrame| frame_view(f),
                    ) == frame_chain(
                        anim_data.vfra@,
                        anim_data.vele@,
                        anim_data.vstart@[k].index as int,
                        anim_data.vstart@[k].index as int,
                        0,
                    ),
            decreases anim_data.vstart@.len() - i,
        {
            let v = anim_data.vstart[i];
            let frames = AnimationFrame::from_data(v.index, &anim_data.vfra, &anim_data.vele);
            res.push(AnimationSequence { index: i, frames });
            i += 1;
        }
        res
    }

    /// All frames of all sequences, in order.
    pub fn get_frames(anim_seq_vec: &Vec<Self>) -> (r: Vec<AnimationFrame>)
        ensures
            r@.map_values(|f: AnimationFrame| frame_view(f)) == all_frames(
                anim_seq_vec@.map_values(|s: AnimationSequence| s.frames@.map_values(|f: AnimationFrame| frame_view(f))),
                anim_seq_vec@.len() as int,
            ),
    {
        let ghost views = anim_seq_vec@.map_values(|s: AnimationSequence| s.frames@.map_values(|f: AnimationFrame| frame_view(f)));
        let mut frames: Vec<AnimationFrame> = Vec::new();
        let mut i: usize = 0;
        while i < anim_seq_vec.len()
            invariant
                i <= anim_seq_vec@.len(),
                views == anim_seq_vec@.map_values(|s: AnimationSequence| s.frames@.map_values(|f: AnimationFrame| frame_view(f))),
                frames@.map_values(|f: AnimationFrame| frame_view(f)) == all_frames(views, i as int),
            decreases anim_seq_vec@.len() - i,
        {
            let seq_frames = &anim_seq_vec[i].frames;
            let ghost before = frames@.map_values(|f: AnimationFrame| frame_view(f));
            let mut j: usize = 0;
            while j < seq_frames.len()
                invariant
                    j <= seq_frames@.len(),
                    frames@.map_values(|f: AnimationFrame| frame_view(f)) == before + seq_frames@.subrange(0, j as int).map_values(
                        |f: AnimationFrame| frame_view(f),
                    ),
                decreases seq_frames@.len() - j,
            {
                let f = &seq_frames[j];
                let ghost prev = frames@;
                frames.push(AnimationFrame { index: f.index, width: f.width, height: f.height, sprites: copy_elements(&f.sprites) });
                assert(frames@.map_values(|f: AnimationFrame| frame_view(f)) =~= prev.map_values(|f: AnimationFrame| frame_view(f)).push(
                    frame_view(seq_frames@[j as int]),
                ));
                assert(seq_frames@.subrange(0, j + 1).map_values(|f: AnimationFrame| frame_view(f)) =~= seq_frames@.subrange(
                    0,
                    j as int,
                ).map_values(|f: AnimationFrame| frame_view(f)).push(frame_view(seq_frames@[j as int])));
                j += 1;
                assert(frames@.map_values(|f: AnimationFrame| frame_view(f)) =~= before + seq_frames@.subrange(0, j as int).map_values(
                    |f: AnimationFrame| frame_view(f),
                ));
            }
            assert(seq_frames@.subrange(0, j as int) =~= seq_frames@);
            assert(views[i as int] == seq_frames@.map_values(|f: AnimationFrame| frame_view(f)));
            i += 1;
        }
        frames
    }
}

/// The frames of the first `k` sequences, one after another.
pub open spec fn all_frames(
    seqs: Seq<Seq<(usize, usize, usize, Seq<AnimationElement>)>>,
    k: int,
) -> Seq<(usize, usize, usize, Seq<AnimationElement>)>
    decreases k,
{
    if k <= 0 {
        Seq::empty()
    } else {
        all_frames(seqs, k - 1) + seqs[k - 1]
    }
}

/// Whether an element is drawn for `tribe` and the type layer `unit_combo`:
/// layer-0 elements always; tribe-specific ones for their tribe; type
/// layers only when they are the chosen (layer, tribe field) pair.
pub open spec fn should_render_spec(elem: AnimationElement, tribe: u8, unit_combo: Option<(u16, u16)>) -> bool {
    if is_common_spec(elem) {
        true
    } else if is_tribe_specific_spec(elem) {
        elem.tribe == tribe
    } else {
        match unit_combo {
            Some((layer, high)) => elem.uvar5 == layer && elem.tribe as u16 == high,
            None => false,
        }
    }
}

/// See `should_render_spec`.
pub fn should_render_element(elem: &AnimationElement, tribe: u8, unit_combo: Option<(u16, u16)>) -> (r: bool)
    ensures
        r == should_render_spec(*elem, tribe, unit_combo),
{
    if elem.is_hidden() {
        return false;
    }
    if elem.is_common() {
        return true;
    }
    if elem.is_tribe_specific() {
        return elem.get_tribe() == tribe;
    }
    if elem.is_type_specific() {
        return match unit_combo {
            Some((layer, high)) => elem.uvar5 == layer && elem.tribe as u16 == high,
            None => false,
        };
    }
    true
}

} // verus!
