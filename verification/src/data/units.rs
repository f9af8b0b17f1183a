//! Unit records of the level files and the mapping from object kinds to
//! their 3D model indices.

use vstd::prelude::*;

use super::reader::ByteReader;

verus! {

/// Kinds of game objects, with the values used by the level files.
#[derive(Debug, Copy, Clone, PartialEq, Eq, Structural)]
pub enum ModelType {
    Person,
    Building,
    Creature,
    Vehicle,
    Scenery,
    General,
    Effect,
    Shot,
    Shape,
    Internal,
    Spell,
}

/// The level-file value of a model type.
pub open spec fn model_type_value(m: ModelType) -> u8 {
    match m {
        ModelType::Person => 1,
        ModelType::Building => 2,
        ModelType::Creature => 3,
        ModelType::Vehicle => 4,
        ModelType::Scenery => 5,
        ModelType::General => 6,
        ModelType::Effect => 7,
        ModelType::Shot => 8,
        ModelType::Shape => 9,
        ModelType::Internal => 10,
        ModelType::Spell => 11,
    }
}

impl ModelType {
    /// Decode a model type; values outside 1..=11 have none.
    pub fn from_u8(v: u8) -> (r: Option<Self>)
        ensures
            1 <= v <= 11 <==> r is Some,
            r matches Some(m) ==> model_type_value(m) == v,
    {
        match v {
            1 => Some(ModelType::Person),
            2 => Some(ModelType::Building),
            3 => Some(ModelType::Creature),
            4 => Some(ModelType::Vehicle),
            5 => Some(ModelType::Scenery),
            6 => Some(ModelType::General),
            7 => Some(ModelType::Effect),
            8 => Some(ModelType::Shot),
            9 => Some(ModelType::Shape),
            10 => Some(ModelType::Internal),
            11 => Some(ModelType::Spell),
            _ => None,
        }
    }

    /// The value of this model type in the level files.
    pub fn to_u8(&self) -> (r: u8)
        ensures
            r == model_type_value(*self),
    {
        match self {
            ModelType::Person => 1,
            ModelType::Building => 2,
            ModelType::Creature => 3,
            ModelType::Vehicle => 4,
            ModelType::Scenery => 5,
            ModelType::General => 6,
            ModelType::Effect => 7,
            ModelType::Shot => 8,
            ModelType::Shape => 9,
            ModelType::Internal => 10,
            ModelType::Spell => 11,
        }
    }

    /// Whether objects of this kind are drawn.
    pub fn is_visible(&self) -> (r: bool)
        ensures
            r == (*self is Person || *self is Building || *self is Creature || *self is Vehicle
                || *self is Scenery || *self is General || *self is Shape),
    {
        match self {
            ModelType::Person | ModelType::Building | ModelType::Creature | ModelType::Vehicle
            | ModelType::Scenery | ModelType::General | ModelType::Shape => true,
            _ => false,
        }
    }
}

/// Decoding a model type's value gives the model type back.
pub proof fn lemma_model_type_roundtrip(m: ModelType)
    ensures
        1 <= model_type_value(m) <= 11,
{
}

/// Size in bytes of one unit record in a level file.
pub const UNIT_RAW_SIZE: usize = 55;

/// One unit record of a level file (55 bytes, little endian).
#[derive(Debug, Copy, Clone)]
pub struct UnitRaw {
    /// Subtype within the model (e.g. Brave = 2, Shaman = 7).
    pub subtype: u8,
    /// Model type value (1 = Person, 2 = Building, ...).
    pub model: u8,
    tribe_index: u8,
    loc_x: u16,
    loc_y: u16,
    angle: u32,
    f2: u16,
    f3: u16,
    fd: [u8; 40],
}

pub open spec fn le_u16(b0: u8, b1: u8) -> u16 {
    (b0 as int + b1 as int * 256) as u16
}

pub open spec fn le_u32(b0: u8, b1: u8, b2: u8, b3: u8) -> u32 {
    (b0 as int + b1 as int * 0x100 + b2 as int * 0x10000 + b3 as int * 0x1000000) as u32
}

/// Read a little-endian 16-bit value.
pub fn read_le_u16(b0: u8, b1: u8) -> (r: u16)
    ensures
        r == le_u16(b0, b1),
{
    b0 as u16 + (b1 as u16) * 256
}

/// Read a little-endian 32-bit value.
pub fn read_le_u32(b0: u8, b1: u8, b2: u8, b3: u8) -> (r: u32)
    ensures
        r == le_u32(b0, b1, b2, b3),
{
    b0 as u32 + (b1 as u32) * 0x100 + (b2 as u32) * 0x10000 + (b3 as u32) * 0x1000000
}

impl UnitRaw {
    pub closed spec fn subtype_spec(&self) -> u8 {
        self.subtype
    }

    pub closed spec fn model_spec(&self) -> u8 {
        self.model
    }

    pub closed spec fn tribe_index_spec(&self) -> u8 {
        self.tribe_index
    }

    pub closed spec fn loc_x_spec(&self) -> u16 {
        self.loc_x
    }

    pub closed spec fn loc_y_spec(&self) -> u16 {
        self.loc_y
    }

    pub closed spec fn angle_spec(&self) -> u32 {
        self.angle
    }

    pub closed spec fn f2_spec(&self) -> u16 {
        self.f2
    }

    pub closed spec fn f3_spec(&self) -> u16 {
        self.f3
    }

    pub closed spec fn fd_spec(&self) -> [u8; 40] {
        self.fd
    }

    /// Whether this record is the one at the start of `b`.
    pub open spec fn decodes(&self, b: Seq<u8>) -> bool {
        &&& self.subtype_spec() == b[0]
        &&& self.model_spec() == b[1]
        &&& self.tribe_index_spec() == b[2]
        &&& self.loc_x_spec() == le_u16(b[3], b[4])
        &&& self.loc_y_spec() == le_u16(b[5], b[6])
        &&& self.angle_spec() == le_u32(b[7], b[8], b[9], b[10])
        &&& self.f2_spec() == le_u16(b[11], b[12])
        &&& self.f3_spec() == le_u16(b[13], b[14])
        &&& forall|i: int| 0 <= i < 40 ==> self.fd_spec()[i] == b[15 + i]
    }

    /// Read one record; `None`, reading nothing, when fewer than 55 bytes
    /// are left.
    pub fn from_reader(reader: &mut ByteReader) -> (r: Option<Self>)
        requires
            old(reader).wf(),
        ensures
            final(reader).wf(),
            final(reader).data_spec() == old(reader).data_spec(),
            r is Some <==> old(reader).rest().len() >= UNIT_RAW_SIZE,
            r matches Some(u) ==> u.decodes(old(reader).rest()) && final(reader).rest() == old(reader).rest().subrange(
                UNIT_RAW_SIZE as int,
                old(reader).rest().len() as int,
            ),
            r is None ==> final(reader).pos_spec() == old(reader).pos_spec(),
    {
        match reader.read_exact(UNIT_RAW_SIZE) {
            Some(b) => Self::from_bytes(b.as_slice()),
            None => None,
        }
    }

    /// Decode the record at the start of `bytes`; `None` when fewer than 55
    /// bytes are left.
    pub fn from_bytes(bytes: &[u8]) -> (r: Option<Self>)
        ensures
            r is Some <==> bytes@.len() >= UNIT_RAW_SIZE,
            r matches Some(u) ==> u.decodes(bytes@),
    {
        if bytes.len() < UNIT_RAW_SIZE {
            return None;
        }
        let mut fd = [0u8; 40];
        let mut i: usize = 0;
        while i < 40
            invariant
                bytes@.len() >= UNIT_RAW_SIZE,
                i <= 40,
                forall|j: int| 0 <= j < i ==> fd[j] == bytes@[15 + j],
            decreases 40 - i,
        {
            fd[i] = bytes[15 + i];
            i += 1;
        }
        Some(
            UnitRaw {
                subtype: bytes[0],
                model: bytes[1],
                tribe_index: bytes[2],
                loc_x: read_le_u16(bytes[3], bytes[4]),
                loc_y: read_le_u16(bytes[5], bytes[6]),
                angle: read_le_u32(bytes[7], bytes[8], bytes[9], bytes[10]),
                f2: read_le_u16(bytes[11], bytes[12]),
                f3: read_le_u16(bytes[13], bytes[14]),
                fd,
            },
        )
    }

    pub fn subtype(&self) -> (r: u8)
        ensures
            r == self.subtype_spec(),
    {
        self.subtype
    }

    pub fn tribe_index(&self) -> (r: u8)
        ensures
            r == self.tribe_index_spec(),
    {
        self.tribe_index
    }

    pub fn loc_x(&self) -> (r: u16)
        ensures
            r == self.loc_x_spec(),
    {
        self.loc_x
    }

    pub fn loc_y(&self) -> (r: u16)
        ensures
            r == self.loc_y_spec(),
    {
        self.loc_y
    }

    /// The model type of the record, when its value is a known one.
    pub fn model_type(&self) -> (r: Option<ModelType>)
        ensures
            1 <= self.model_spec() <= 11 <==> r is Some,
            r matches Some(m) ==> model_type_value(m) == self.model_spec(),
    {
        ModelType::from_u8(self.model)
    }

    pub fn angle(&self) -> (r: u32)
        ensures
            r == self.angle_spec(),
    {
        self.angle
    }

    pub fn f2(&self) -> (r: u16)
        ensures
            r == self.f2_spec(),
    {
        self.f2
    }

    pub fn f3(&self) -> (r: u16)
        ensures
            r == self.f3_spec(),
    {
        self.f3
    }

    pub fn fd(&self) -> (r: &[u8; 40])
        ensures
            *r == self.fd_spec(),
    {
        &self.fd
    }
}

/// Tribe configuration record of a level file (16 raw bytes).
#[derive(Debug, Copy, Clone)]
pub struct TribeConfigRaw {
    pub data: [u8; 16],
}

impl TribeConfigRaw {
    /// Read one record; `None`, reading nothing, when fewer than 16 bytes
    /// are left.
    pub fn from_reader(reader: &mut ByteReader) -> (r: Option<Self>)
        requires
            old(reader).wf(),
        ensures
            final(reader).wf(),
            final(reader).data_spec() == old(reader).data_spec(),
            r is Some <==> old(reader).rest().len() >= 16,
            r matches Some(t) ==> (forall|i: int| 0 <= i < 16 ==> t.data[i] == old(reader).rest()[i])
                && final(reader).rest() == old(reader).rest().subrange(16, old(reader).rest().len() as int),
            r is None ==> final(reader).pos_spec() == old(reader).pos_spec(),
    {
        match reader.read_exact(16) {
            Some(b) => {
                let mut data = [0u8; 16];
                let mut i: usize = 0;
                while i < 16
                    invariant
                        b@.len() == 16,
                        i <= 16,
                        forall|j: int| 0 <= j < i ==> data[j] == b@[j],
                    decreases 16 - i,
                {
                    data[i] = b[i];
                    i += 1;
                }
                Some(TribeConfigRaw { data })
            },
            None => None,
        }
    }
}

pub open spec fn building_obj_index_spec(subtype: u8, tribe_index: u8) -> Option<usize> {
    let tribe: int = if tribe_index < 3 { tribe_index as int } else { 3 };
    match subtype {
        1 => Some((145 + tribe * 3) as usize),
        2 => Some((146 + tribe * 3) as usize),
        3 => Some((147 + tribe * 3) as usize),
        4 => Some((117 + tribe) as usize),
        5 => Some((133 + tribe) as usize),
        6 => Some((129 + tribe) as usize),
        7 => Some((141 + tribe) as usize),
        8 => Some((137 + tribe) as usize),
        13 => Some((121 + tribe) as usize),
        15 => Some((125 + tribe) as usize),
        18 => Some(190usize),
        _ => None,
    }
}

/// Buildings that have one model per tribe.
pub open spec fn per_tribe_building(subtype: u8) -> bool {
    (1 <= subtype <= 8) || subtype == 13 || subtype == 15
}

/// The layout of the building models: the three hut sizes of a tribe take
/// consecutive indices from 145, tribe after tribe (145 + 3 tribe + size
/// - 1); every other building takes one index per tribe, its four tribes
/// consecutive; tribes above 3 share the model of tribe 3; so no two
/// (building, tribe) pairs of tribes 0..=3 share a model.
pub proof fn lemma_building_models(s1: u8, t1: u8, s2: u8, t2: u8)
    ensures
        1 <= s1 <= 3 && t1 <= 3 ==> building_obj_index_spec(s1, t1) == Some((145 + 3 * t1 + s1 - 1) as usize),
        per_tribe_building(s1) && !(1 <= s1 <= 3) && t1 < 3 ==> building_obj_index_spec(s1, (t1 + 1) as u8) == Some(
            (building_obj_index_spec(s1, t1)->0 + 1) as usize,
        ),
        per_tribe_building(s1) && t1 > 3 ==> building_obj_index_spec(s1, t1) == building_obj_index_spec(s1, 3),
        per_tribe_building(s1) <==> (building_obj_index_spec(s1, t1) is Some && s1 != 18),
        per_tribe_building(s1) && per_tribe_building(s2) && t1 <= 3 && t2 <= 3 && (s1 != s2 || t1 != t2)
            ==> building_obj_index_spec(s1, t1) != building_obj_index_spec(s2, t2),
{
}

/// OBJS model index of a completed building of a tribe (tribes above 3 count
/// as 3). Huts take three consecutive indices per tribe, other buildings one
/// index per tribe in blocks of four.
pub fn building_obj_index(subtype: u8, tribe_index: u8) -> (r: Option<usize>)
    ensures
        r == building_obj_index_spec(subtype, tribe_index),
{
    let tribe: usize = if tribe_index < 3 { tribe_index as usize } else { 3 };
    match subtype {
        1 => Some(145 + tribe * 3),
        2 => Some(146 + tribe * 3),
        3 => Some(147 + tribe * 3),
        4 => Some(117 + tribe),
        5 => Some(133 + tribe),
        6 => Some(129 + tribe),
        7 => Some(141 + tribe),
        8 => Some(137 + tribe),
        13 => Some(121 + tribe),
        15 => Some(125 + tribe),
        18 => Some(190),
        _ => None,
    }
}

pub open spec fn scenery_obj_index_spec(subtype: u8) -> Option<usize> {
    match subtype {
        1 => Some(13usize),
        2 => Some(14usize),
        3 => Some(15usize),
        4 => Some(16usize),
        5 => Some(17usize),
        6 => Some(18usize),
        7 => Some(2usize),
        8 => Some(3usize),
        9 => Some(45usize),
        10 => Some(5usize),
        11 => Some(23usize),
        12 => Some(30usize),
        14 => Some(26usize),
        15 => Some(12usize),
        16 => Some(18usize),
        18 => Some(44usize),
        19 => Some(39usize),
        _ => None,
    }
}

/// OBJS model index of a scenery object.
pub fn scenery_obj_index(subtype: u8) -> (r: Option<usize>)
    ensures
        r == scenery_obj_index_spec(subtype),
{
    match subtype {
        1 => Some(13),
        2 => Some(14),
        3 => Some(15),
        4 => Some(16),
        5 => Some(17),
        6 => Some(18),
        7 => Some(2),
        8 => Some(3),
        9 => Some(45),
        10 => Some(5),
        11 => Some(23),
        12 => Some(30),
        14 => Some(26),
        15 => Some(12),
        16 => Some(18),
        18 => Some(44),
        19 => Some(39),
        _ => None,
    }
}

/// OBJS model index for any model type and subtype: buildings and scenery
/// have models, other kinds none.
pub fn object_3d_index(model_type: &ModelType, subtype: u8, tribe_index: u8) -> (r: Option<usize>)
    ensures
        r == match *model_type {
            ModelType::Building => building_obj_index_spec(subtype, tribe_index),
            ModelType::Scenery => scenery_obj_index_spec(subtype),
            _ => None,
        },
{
    match model_type {
        ModelType::Building => building_obj_index(subtype, tribe_index),
        ModelType::Scenery => scenery_obj_index(subtype),
        _ => None,
    }
}

} // verus!
