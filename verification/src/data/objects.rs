//! The game's 3D object banks (OBJS, PNTS and FACS records) and building
//! footprints (SHAPES.DAT).

use vstd::prelude::*;

use super::animation::records;
use super::units::{le_u16, le_u32, read_le_u16, read_le_u32};

verus! {

/// Size in bytes of an OBJS record.
pub const OBJECT_RAW_SIZE: usize = 54;

/// Size in bytes of a PNTS record.
pub const POINT_RAW_SIZE: usize = 6;

/// Size in bytes of a FACS record.
pub const FACE_RAW_SIZE: usize = 60;

/// Size in bytes of a SHAPES.DAT entry.
pub const SHAPE_SIZE: usize = 48;

/// Number of valid entries at the start of SHAPES.DAT; the bitmap data
/// follows them.
const SHAPE_ENTRY_COUNT: usize = 64;

/// One OBJS record (54 bytes, little endian): an object's face and point
/// ranges (1-based, end exclusive) and its footprint per rotation.
#[derive(Debug, Copy, Clone)]
pub struct ObjectRaw {
    pub flags: u16,
    pub facs_num: u16,
    pub pnts_num: u16,
    pub f1: u8,
    pub morph_index: u8,
    pub f2: u32,
    pub coord_scale: u32,
    pub facs_ptr: u32,
    pub facs_ptr_end: u32,
    pub pnts_ptr: u32,
    pub pnts_ptr_end: u32,
    pub f4: i16,
    pub f5: i16,
    pub f6: i16,
    pub f7: u16,
    pub f8: u16,
    pub f9: u16,
    pub fp_idx: [i8; 4],
    pub f11: u16,
    pub f12: u16,
    pub f13: u16,
}

/// One SHAPES.DAT entry (48 bytes): a footprint's bounding box, its origin
/// in half cells, and where its cell bitmap starts.
#[derive(Debug, Copy, Clone)]
pub struct Shape {
    pub width: u8,
    pub height: u8,
    pub origin_x: u8,
    pub origin_z: u8,
    pub cell_mask: [u8; 40],
    pub shape_ref: u32,
}

/// One PNTS record (6 bytes): a model-space point.
#[derive(Debug, Copy, Clone)]
pub struct PointRaw {
    pub x: i16,
    pub y: i16,
    pub z: i16,
}

/// One FACS record (60 bytes): a triangle or quad with its texture, per
/// corner texture coordinates and point indices, and the construction-phase
/// mask `flags2`.
#[derive(Debug, Copy, Clone)]
pub struct FaceRaw {
    pub f0: u16,
    pub tex_index: i16,
    pub flags1: i16,
    pub num_points: u8,
    pub f11: u8,
    pub point_1_u: u32,
    pub point_1_v: u32,
    pub point_2_u: u32,
    pub point_2_v: u32,
    pub point_3_u: u32,
    pub point_3_v: u32,
    pub point_4_u: u32,
    pub point_4_v: u32,
    pub point_1: u16,
    pub point_2: u16,
    pub point_3: u16,
    pub point_4: u16,
    pub f6: u16,
    pub ff1: u16,
    pub ff2: u16,
    pub ff3: u16,
    pub ff4: u16,
    pub f8: u8,
    pub flags2: u8,
}

/// The OBJS record at the start of `b`.
pub open spec fn object_of(b: Seq<u8>) -> ObjectRaw {
    ObjectRaw {
        flags: le_u16(b[0], b[1]),
        facs_num: le_u16(b[2], b[3]),
        pnts_num: le_u16(b[4], b[5]),
        f1: b[6],
        morph_index: b[7],
        f2: le_u32(b[8], b[9], b[10], b[11]),
        coord_scale: le_u32(b[12], b[13], b[14], b[15]),
        facs_ptr: le_u32(b[16], b[17], b[18], b[19]),
        facs_ptr_end: le_u32(b[20], b[21], b[22], b[23]),
        pnts_ptr: le_u32(b[24], b[25], b[26], b[27]),
        pnts_ptr_end: le_u32(b[28], b[29], b[30], b[31]),
        f4: le_u16(b[32], b[33]) as i16,
        f5: le_u16(b[34], b[35]) as i16,
        f6: le_u16(b[36], b[37]) as i16,
        f7: le_u16(b[38], b[39]),
        f8: le_u16(b[40], b[41]),
        f9: le_u16(b[42], b[43]),
        fp_idx: [b[44] as i8, b[45] as i8, b[46] as i8, b[47] as i8],
        f11: le_u16(b[48], b[49]),
        f12: le_u16(b[50], b[51]),
        f13: le_u16(b[52], b[53]),
    }
}

/// The SHAPES.DAT entry at the start of `b`.
pub open spec fn shape_of(b: Seq<u8>) -> Shape {
    Shape {
        width: b[0],
        height: b[1],
        origin_x: b[2],
        origin_z: b[3],
        cell_mask: [b[4], b[5], b[6], b[7], b[8], b[9], b[10], b[11], b[12], b[13], b[14], b[15], b[16], b[17], b[18], b[19], b[20], b[21], b[22], b[23], b[24], b[25], b[26], b[27], b[28], b[29], b[30], b[31], b[32], b[33], b[34], b[35], b[36], b[37], b[38], b[39], b[40], b[41], b[42], b[43]],
        shape_ref: le_u32(b[44], b[45], b[46], b[47]),
    }
}

/// The PNTS record at the start of `b`.
pub open spec fn point_of(b: Seq<u8>) -> PointRaw {
    PointRaw {
        x: le_u16(b[0], b[1]) as i16,
        y: le_u16(b[2], b[3]) as i16,
        z: le_u16(b[4], b[5]) as i16,
    }
}

/// The FACS record at the start of `b`.
pub open spec fn face_of(b: Seq<u8>) -> FaceRaw {
    FaceRaw {
        f0: le_u16(b[0], b[1]),
        tex_index: le_u16(b[2], b[3]) as i16,
        flags1: le_u16(b[4], b[5]) as i16,
        num_points: b[6],
        f11: b[7],
        point_1_u: le_u32(b[8], b[9], b[10], b[11]),
        point_1_v: le_u32(b[12], b[13], b[14], b[15]),
        point_2_u: le_u32(b[16], b[17], b[18], b[19]),
        point_2_v: le_u32(b[20], b[21], b[22], b[23]),
        point_3_u: le_u32(b[24], b[25], b[26], b[27]),
        point_3_v: le_u32(b[28], b[29], b[30], b[31]),
        point_4_u: le_u32(b[32], b[33], b[34], b[35]),
        point_4_v: le_u32(b[36], b[37], b[38], b[39]),
        point_1: le_u16(b[40], b[41]),
        point_2: le_u16(b[42], b[43]),
        point_3: le_u16(b[44], b[45]),
        point_4: le_u16(b[46], b[47]),
        f6: le_u16(b[48], b[49]),
        ff1: le_u16(b[50], b[51]),
        ff2: le_u16(b[52], b[53]),
        ff3: le_u16(b[54], b[55]),
        ff4: le_u16(b[56], b[57]),
        f8: b[58],
        flags2: b[59],
    }
}

proof fn lemma_record_fits(i: int, n: int, size: int, len: int)
    requires
        0 <= i < n,
        size > 0,
        n == len / size,
        len >= 0,
    ensures
        i * size + size <= len,
{
    assert(i * size + size <= len) by (nonlinear_arith)
        requires
            0 <= i < n,
            size > 0,
            n == len / size,
            len >= 0,
    ;
}

impl ObjectRaw {
    fn decode_at(data: &[u8], off: usize) -> (r: Self)
        requires
            off + OBJECT_RAW_SIZE <= data@.len(),
        ensures
            r == object_of(data@.subrange(off as int, off + OBJECT_RAW_SIZE)),
    {
        ObjectRaw {
            flags: read_le_u16(data[off + 0], data[off + 1]),
            facs_num: read_le_u16(data[off + 2], data[off + 3]),
            pnts_num: read_le_u16(data[off + 4], data[off + 5]),
            f1: data[off + 6],
            morph_index: data[off + 7],
            f2: read_le_u32(data[off + 8], data[off + 9], data[off + 10], data[off + 11]),
            coord_scale: read_le_u32(data[off + 12], data[off + 13], data[off + 14], data[off + 15]),
            facs_ptr: read_le_u32(data[off + 16], data[off + 17], data[off + 18], data[off + 19]),
            facs_ptr_end: read_le_u32(data[off + 20], data[off + 21], data[off + 22], data[off + 23]),
            pnts_ptr: read_le_u32(data[off + 24], data[off + 25], data[off + 26], data[off + 27]),
            pnts_ptr_end: read_le_u32(data[off + 28], data[off + 29], data[off + 30], data[off + 31]),
            f4: read_le_u16(data[off + 32], data[off + 33]) as i16,
            f5: read_le_u16(data[off + 34], data[off + 35]) as i16,
            f6: read_le_u16(data[off + 36], data[off + 37]) as i16,
            f7: read_le_u16(data[off + 38], data[off + 39]),
            f8: read_le_u16(data[off + 40], data[off + 41]),
            f9: read_le_u16(data[off + 42], data[off + 43]),
            fp_idx: [data[off + 44] as i8, data[off + 45] as i8, data[off + 46] as i8, data[off + 47] as i8],
            f11: read_le_u16(data[off + 48], data[off + 49]),
            f12: read_le_u16(data[off + 50], data[off + 51]),
            f13: read_le_u16(data[off + 52], data[off + 53]),
        }
    }

    /// Decode the record at the start of `data`; `None` when it is shorter
    /// than a record.
    pub fn from_bytes(data: &[u8]) -> (r: Option<Self>)
        ensures
            r is Some <==> data@.len() >= OBJECT_RAW_SIZE,
            r matches Some(o) ==> o == object_of(data@),
    {
        if data.len() < OBJECT_RAW_SIZE {
            None
        } else {
            let r = Self::decode_at(data, 0);
            assert(object_of(data@.subrange(0, OBJECT_RAW_SIZE as int)) == object_of(data@));
            Some(r)
        }
    }

    /// Decode every whole record of `data`, in order.
    pub fn vec_from_bytes(data: &[u8]) -> (r: Vec<Self>)
        ensures
            r@ == records(data@, OBJECT_RAW_SIZE as nat, |b: Seq<u8>| object_of(b)),
    {
        let n = data.len() / OBJECT_RAW_SIZE;
        let mut v: Vec<Self> = Vec::new();
        let mut i: usize = 0;
        while i < n
            invariant
                n == data@.len() / (OBJECT_RAW_SIZE as nat),
                data@.len() <= usize::MAX,
                i <= n,
                v@.len() == i,
                forall|k: int|
                    0 <= k < i ==> #[trigger] v@[k] == object_of(
                        data@.subrange(k * OBJECT_RAW_SIZE, k * OBJECT_RAW_SIZE + OBJECT_RAW_SIZE),
                    ),
            decreases n - i,
        {
            proof {
                lemma_record_fits(i as int, n as int, OBJECT_RAW_SIZE as int, data@.len() as int);
            }
            v.push(Self::decode_at(data, i * OBJECT_RAW_SIZE));
            i += 1;
        }
        assert(v@ =~= records(data@, OBJECT_RAW_SIZE as nat, |b: Seq<u8>| object_of(b)));
        v
    }
}

impl PointRaw {
    fn decode_at(data: &[u8], off: usize) -> (r: Self)
        requires
            off + POINT_RAW_SIZE <= data@.len(),
        ensures
            r == point_of(data@.subrange(off as int, off + POINT_RAW_SIZE)),
    {
        PointRaw {
            x: read_le_u16(data[off + 0], data[off + 1]) as i16,
            y: read_le_u16(data[off + 2], data[off + 3]) as i16,
            z: read_le_u16(data[off + 4], data[off + 5]) as i16,
        }
    }

    /// Decode the record at the start of `data`; `None` when it is shorter
    /// than a record.
    pub fn from_bytes(data: &[u8]) -> (r: Option<Self>)
        ensures
            r is Some <==> data@.len() >= POINT_RAW_SIZE,
            r matches Some(o) ==> o == point_of(data@),
    {
        if data.len() < POINT_RAW_SIZE {
            None
        } else {
            let r = Self::decode_at(data, 0);
            assert(point_of(data@.subrange(0, POINT_RAW_SIZE as int)) == point_of(data@));
            Some(r)
        }
    }

    /// Decode every whole record of `data`, in order.
    pub fn vec_from_bytes(data: &[u8]) -> (r: Vec<Self>)
        ensures
            r@ == records(data@, POINT_RAW_SIZE as nat, |b: Seq<u8>| point_of(b)),
    {
        let n = data.len() / POINT_RAW_SIZE;
        let mut v: Vec<Self> = Vec::new();
        let mut i: usize = 0;
        while i < n
            invariant
                n == data@.len() / (POINT_RAW_SIZE as nat),
                data@.len() <= usize::MAX,
                i <= n,
                v@.len() == i,
                forall|k: int|
                    0 <= k < i ==> #[trigger] v@[k] == point_of(
                        data@.subrange(k * POINT_RAW_SIZE, k * POINT_RAW_SIZE + POINT_RAW_SIZE),
                    ),
            decreases n - i,
        {
            proof {
                lemma_record_fits(i as int, n as int, POINT_RAW_SIZE as int, data@.len() as int);
            }
            v.push(Self::decode_at(data, i * POINT_RAW_SIZE));
            i += 1;
        }
        assert(v@ =~= records(data@, POINT_RAW_SIZE as nat, |b: Seq<u8>| point_of(b)));
        v
    }
}

impl FaceRaw {
    fn decode_at(data: &[u8], off: usize) -> (r: Self)
        requires
            off + FACE_RAW_SIZE <= data@.len(),
        ensures
            r == face_of(data@.subrange(off as int, off + FACE_RAW_SIZE)),
    {
        FaceRaw {
            f0: read_le_u16(data[off + 0], data[off + 1]),
            tex_index: read_le_u16(data[off + 2], data[off + 3]) as i16,
            flags1: read_le_u16(data[off + 4], data[off + 5]) as i16,
            num_points: data[off + 6],
            f11: data[off + 7],
            point_1_u: read_le_u32(data[off + 8], data[off + 9], data[off + 10], data[off + 11]),
            point_1_v: read_le_u32(data[off + 12], data[off + 13], data[off + 14], data[off + 15]),
            point_2_u: read_le_u32(data[off + 16], data[off + 17], data[off + 18], data[off + 19]),
            point_2_v: read_le_u32(data[off + 20], data[off + 21], data[off + 22], data[off + 23]),
            point_3_u: read_le_u32(data[off + 24], data[off + 25], data[off + 26], data[off + 27]),
            point_3_v: read_le_u32(data[off + 28], data[off + 29], data[off + 30], data[off + 31]),
            point_4_u: read_le_u32(data[off + 32], data[off + 33], data[off + 34], data[off + 35]),
            point_4_v: read_le_u32(data[off + 36], data[off + 37], data[off + 38], data[off + 39]),
            point_1: read_le_u16(data[off + 40], data[off + 41]),
            point_2: read_le_u16(data[off + 42], data[off + 43]),
            point_3: read_le_u16(data[off + 44], data[off + 45]),
            point_4: read_le_u16(data[off + 46], data[off + 47]),
            f6: read_le_u16(data[off + 48], data[off + 49]),
            ff1: read_le_u16(data[off + 50], data[off + 51]),
            ff2: read_le_u16(data[off + 52], data[off + 53]),
            ff3: read_le_u16(data[off + 54], data[off + 55]),
            ff4: read_le_u16(data[off + 56], data[off + 57]),
            f8: data[off + 58],
            flags2: data[off + 59],
        }
    }

    /// Decode the record at the start of `data`; `None` when it is shorter
    /// than a record.
    pub fn from_bytes(data: &[u8]) -> (r: Option<Self>)
        ensures
            r is Some <==> data@.len() >= FACE_RAW_SIZE,
            r matches Some(o) ==> o == face_of(data@),
    {
        if data.len() < FACE_RAW_SIZE {
            None
        } else {
            let r = Self::decode_at(data, 0);
            assert(face_of(data@.subrange(0, FACE_RAW_SIZE as int)) == face_of(data@));
            Some(r)
        }
    }

    /// Decode every whole record of `data`, in order.
    pub fn vec_from_bytes(data: &[u8]) -> (r: Vec<Self>)
        ensures
            r@ == records(data@, FACE_RAW_SIZE as nat, |b: Seq<u8>| face_of(b)),
    {
        let n = data.len() / FACE_RAW_SIZE;
        let mut v: Vec<Self> = Vec::new();
        let mut i: usize = 0;
        while i < n
            invariant
                n == data@.len() / (FACE_RAW_SIZE as nat),
                data@.len() <= usize::MAX,
                i <= n,
                v@.len() == i,
                forall|k: int|
                    0 <= k < i ==> #[trigger] v@[k] == face_of(
                        data@.subrange(k * FACE_RAW_SIZE, k * FACE_RAW_SIZE + FACE_RAW_SIZE),
                    ),
            decreases n - i,
        {
            proof {
                lemma_record_fits(i as int, n as int, FACE_RAW_SIZE as int, data@.len() as int);
            }
            v.push(Self::decode_at(data, i * FACE_RAW_SIZE));
            i += 1;
        }
        assert(v@ =~= records(data@, FACE_RAW_SIZE as nat, |b: Seq<u8>| face_of(b)));
        v
    }
}

impl Shape {
    fn decode_at(data: &[u8], off: usize) -> (r: Self)
        requires
            off + SHAPE_SIZE <= data@.len(),
        ensures
            r == shape_of(data@.subrange(off as int, off + SHAPE_SIZE)),
    {
        Shape {
            width: data[off + 0],
            height: data[off + 1],
            origin_x: data[off + 2],
            origin_z: data[off + 3],
            cell_mask: [data[off + 4], data[off + 5], data[off + 6], data[off + 7], data[off + 8], data[off + 9], data[off + 10], data[off + 11], data[off + 12], data[off + 13], data[off + 14], data[off + 15], data[off + 16], data[off + 17], data[off + 18], data[off + 19], data[off + 20], data[off + 21], data[off + 22], data[off + 23], data[off + 24], data[off + 25], data[off + 26], data[off + 27], data[off + 28], data[off + 29], data[off + 30], data[off + 31], data[off + 32], data[off + 33], data[off + 34], data[off + 35], data[off + 36], data[off + 37], data[off + 38], data[off + 39], data[off + 40], data[off + 41], data[off + 42], data[off + 43]],
            shape_ref: read_le_u32(data[off + 44], data[off + 45], data[off + 46], data[off + 47]),
        }
    }

    /// Decode the record at the start of `data`; `None` when it is shorter
    /// than a record.
    pub fn from_bytes(data: &[u8]) -> (r: Option<Self>)
        ensures
            r is Some <==> data@.len() >= SHAPE_SIZE,
            r matches Some(o) ==> o == shape_of(data@),
    {
        if data.len() < SHAPE_SIZE {
            None
        } else {
            let r = Self::decode_at(data, 0);
            assert(shape_of(data@.subrange(0, SHAPE_SIZE as int)) == shape_of(data@));
            Some(r)
        }
    }

    /// Decode every whole record of `data`, in order.
    pub fn vec_from_bytes(data: &[u8]) -> (r: Vec<Self>)
        ensures
            r@ == records(data@, SHAPE_SIZE as nat, |b: Seq<u8>| shape_of(b)),
    {
        let n = data.len() / SHAPE_SIZE;
        let mut v: Vec<Self> = Vec::new();
        let mut i: usize = 0;
        while i < n
            invariant
                n == data@.len() / (SHAPE_SIZE as nat),
                data@.len() <= usize::MAX,
                i <= n,
                v@.len() == i,
                forall|k: int|
                    0 <= k < i ==> #[trigger] v@[k] == shape_of(
                        data@.subrange(k * SHAPE_SIZE, k * SHAPE_SIZE + SHAPE_SIZE),
                    ),
            decreases n - i,
        {
            proof {
                lemma_record_fits(i as int, n as int, SHAPE_SIZE as int, data@.len() as int);
            }
            v.push(Self::decode_at(data, i * SHAPE_SIZE));
            i += 1;
        }
        assert(v@ =~= records(data@, SHAPE_SIZE as nat, |b: Seq<u8>| shape_of(b)));
        v
    }
}

/// The elements `start - 1 .. end - 1` of `s` (1-based, end exclusive), or
/// none when `start >= end`.
pub open spec fn ptr_range<T>(s: Seq<T>, start: u32, end: u32) -> Seq<T> {
    if start < end {
        s.subrange(start - 1, end - 1)
    } else {
        seq![]
    }
}

/// Whether a 1-based range lies within `len` elements.
pub open spec fn range_ok(len: int, start: u32, end: u32) -> bool {
    start < end ==> 1 <= start && end - 1 <= len
}

/// Whether an object's face and point ranges lie within the banks.
pub open spec fn object_ok(o: ObjectRaw, faces: int, points: int) -> bool {
    range_ok(faces, o.facs_ptr, o.facs_ptr_end) && range_ok(points, o.pnts_ptr, o.pnts_ptr_end)
}

/// An object as (record, its faces, its points).
pub open spec fn object_model(o: ObjectRaw, faces: Seq<FaceRaw>, points: Seq<PointRaw>) -> (
    ObjectRaw,
    Seq<FaceRaw>,
    Seq<PointRaw>,
) {
    (o, ptr_range(faces, o.facs_ptr, o.facs_ptr_end), ptr_range(points, o.pnts_ptr, o.pnts_ptr_end))
}

/// The first `n` objects that have faces.
pub open spec fn objects_with_faces(objects: Seq<ObjectRaw>, n: int) -> Seq<ObjectRaw>
    decreases n,
{
    if n <= 0 {
        seq![]
    } else if objects[n - 1].facs_num > 0 {
        objects_with_faces(objects, n - 1).push(objects[n - 1])
    } else {
        objects_with_faces(objects, n - 1)
    }
}

/// Whether a face's corners (three, or four for a quad) name points among
/// the first `points` of its object.
pub open spec fn face_resolves(f: FaceRaw, points: int) -> bool {
    &&& f.point_1 < points
    &&& f.point_2 < points
    &&& f.point_3 < points
    &&& f.num_points >= 4 ==> f.point_4 < points
}

/// Whether every face resolves to points of the object.
pub open spec fn faces_resolve_spec(faces: Seq<FaceRaw>, points: Seq<PointRaw>) -> bool {
    forall|j: int| 0 <= j < faces.len() ==> #[trigger] face_resolves(faces[j], points.len() as int)
}

/// Corner `c` of a face as (texture, point, u, v); a face of fewer than
/// four points has a zero fourth corner.
pub open spec fn face_corner(f: FaceRaw, points: Seq<PointRaw>, c: int) -> (i16, PointRaw, u32, u32) {
    if c == 0 {
        (f.tex_index, points[f.point_1 as int], f.point_1_u, f.point_1_v)
    } else if c == 1 {
        (f.tex_index, points[f.point_2 as int], f.point_2_u, f.point_2_v)
    } else if c == 2 {
        (f.tex_index, points[f.point_3 as int], f.point_3_u, f.point_3_v)
    } else if f.num_points >= 4 {
        (f.tex_index, points[f.point_4 as int], f.point_4_u, f.point_4_v)
    } else {
        (f.tex_index, PointRaw { x: 0, y: 0, z: 0 }, 0, 0)
    }
}

/// The triangle vertices of a face: a triangle as is, any other face as
/// the quad split into corners (1, 2, 3) and (3, 4, 1).
pub open spec fn face_vertices(f: FaceRaw, points: Seq<PointRaw>) -> Seq<(i16, PointRaw, u32, u32)> {
    if f.num_points == 3 {
        seq![face_corner(f, points, 0), face_corner(f, points, 1), face_corner(f, points, 2)]
    } else {
        seq![
            face_corner(f, points, 0),
            face_corner(f, points, 1),
            face_corner(f, points, 2),
            face_corner(f, points, 2),
            face_corner(f, points, 3),
            face_corner(f, points, 0),
        ]
    }
}

/// Whether a face is drawn: always without a construction phase, else when
/// its mask has the phase's bit.
pub open spec fn face_shown(f: FaceRaw, phase: Option<u8>) -> bool {
    match phase {
        None => true,
        Some(p) => (f.flags2 as int / phase_bit(p)) % 2 == 1,
    }
}

/// The triangle vertices of the first `n` faces that are drawn.
pub open spec fn mesh_vertices_spec(faces: Seq<FaceRaw>, points: Seq<PointRaw>, phase: Option<u8>, n: int) -> Seq<
    (i16, PointRaw, u32, u32),
>
    decreases n,
{
    if n <= 0 {
        seq![]
    } else if face_shown(faces[n - 1], phase) {
        mesh_vertices_spec(faces, points, phase, n - 1) + face_vertices(faces[n - 1], points)
    } else {
        mesh_vertices_spec(faces, points, phase, n - 1)
    }
}

/// The scenery bank of a level: its header's bank, bank 0 standing for
/// bank 2.
pub fn scenery_bank(level_bank: u8) -> (r: u8)
    ensures
        r == if level_bank == 0 { 2 } else { level_bank },
{
    if level_bank == 0 { 2 } else { level_bank }
}

/// A 3D object: its OBJS record with its own faces and points.
#[derive(Debug)]
pub struct Object3D {
    object: ObjectRaw,
    faces: Vec<FaceRaw>,
    points: Vec<PointRaw>,
}

impl View for Object3D {
    type V = (ObjectRaw, Seq<FaceRaw>, Seq<PointRaw>);

    closed spec fn view(&self) -> Self::V {
        (self.object, self.faces@, self.points@)
    }
}

fn copy_range<T: Copy>(s: &[T], start: u32, end: u32) -> (r: Vec<T>)
    requires
        range_ok(s@.len() as int, start, end),
    ensures
        r@ == ptr_range(s@, start, end),
{
    let mut r: Vec<T> = Vec::new();
    if start >= end {
        return r;
    }
    let mut i: u32 = start;
    while i < end
        invariant
            1 <= start <= i <= end,
            end - 1 <= s@.len(),
            r@ == s@.subrange(start - 1, i - 1),
        decreases end - i,
    {
        r.push(s[(i - 1) as usize]);
        i += 1;
    }
    r
}

impl Object3D {
    /// An object with the faces and points its record points at.
    pub fn create(object: &ObjectRaw, faces: &[FaceRaw], points: &[PointRaw]) -> (r: Self)
        requires
            object_ok(*object, faces@.len() as int, points@.len() as int),
        ensures
            r@ == object_model(*object, faces@, points@),
    {
        let pts = copy_range(points, object.pnts_ptr, object.pnts_ptr_end);
        let fcs = copy_range(faces, object.facs_ptr, object.facs_ptr_end);
        Object3D { object: *object, faces: fcs, points: pts }
    }

    /// The objects that have faces, in order.
    pub fn create_objects(objects: &[ObjectRaw], faces: &[FaceRaw], points: &[PointRaw]) -> (r: Vec<Self>)
        requires
            forall|i: int|
                0 <= i < objects@.len() && (#[trigger] objects@[i]).facs_num > 0 ==> object_ok(
                    objects@[i],
                    faces@.len() as int,
                    points@.len() as int,
                ),
        ensures
            r@.len() == objects_with_faces(objects@, objects@.len() as int).len(),
            forall|i: int|
                0 <= i < r@.len() ==> (#[trigger] r@[i])@ == object_model(
                    objects_with_faces(objects@, objects@.len() as int)[i],
                    faces@,
                    points@,
                ),
    {
        let mut v: Vec<Self> = Vec::new();
        let mut k: usize = 0;
        while k < objects.len()
            invariant
                k <= objects@.len(),
                forall|i: int|
                    0 <= i < objects@.len() && (#[trigger] objects@[i]).facs_num > 0 ==> object_ok(
                        objects@[i],
                        faces@.len() as int,
                        points@.len() as int,
                    ),
                v@.len() == objects_with_faces(objects@, k as int).len(),
                forall|i: int|
                    0 <= i < v@.len() ==> (#[trigger] v@[i])@ == object_model(
                        objects_with_faces(objects@, k as int)[i],
                        faces@,
                        points@,
                    ),
            decreases objects@.len() - k,
        {
            if objects[k].facs_num > 0 {
                v.push(Self::create(&objects[k], faces, points));
            }
            k += 1;
        }
        v
    }

    /// One entry per object, in order: `None` for objects without faces.
    pub fn create_objects_all(objects: &[ObjectRaw], faces: &[FaceRaw], points: &[PointRaw]) -> (r: Vec<Option<Self>>)
        requires
            forall|i: int|
                0 <= i < objects@.len() && (#[trigger] objects@[i]).facs_num > 0 ==> object_ok(
                    objects@[i],
                    faces@.len() as int,
                    points@.len() as int,
                ),
        ensures
            r@.len() == objects@.len(),
            forall|i: int|
                0 <= i < r@.len() ==> ((#[trigger] r@[i]) is Some <==> objects@[i].facs_num > 0) && (r@[i] matches Some(
                    o,
                ) ==> o@ == object_model(objects@[i], faces@, points@)),
    {
        let mut v: Vec<Option<Self>> = Vec::new();
        let mut k: usize = 0;
        while k < objects.len()
            invariant
                k <= objects@.len(),
                forall|i: int|
                    0 <= i < objects@.len() && (#[trigger] objects@[i]).facs_num > 0 ==> object_ok(
                        objects@[i],
                        faces@.len() as int,
                        points@.len() as int,
                    ),
                v@.len() == k,
                forall|i: int|
                    0 <= i < k ==> ((#[trigger] v@[i]) is Some <==> objects@[i].facs_num > 0) && (v@[i] matches Some(
                        o,
                    ) ==> o@ == object_model(objects@[i], faces@, points@)),
            decreases objects@.len() - k,
        {
            if objects[k].facs_num > 0 {
                v.push(Some(Self::create(&objects[k], faces, points)));
            } else {
                v.push(None);
            }
            k += 1;
        }
        v
    }

    /// Number of faces.
    pub fn face_count(&self) -> (r: usize)
        ensures
            r == self@.1.len(),
    {
        self.faces.len()
    }

    /// Number of points.
    pub fn point_count(&self) -> (r: usize)
        ensures
            r == self@.2.len(),
    {
        self.points.len()
    }

    /// The SHAPES.DAT footprint of the object at a rotation (taken modulo
    /// 4); negative for none.
    pub fn footprint_index(&self, rotation: usize) -> (r: i8)
        ensures
            r == self@.0.fp_idx[rotation as int % 4],
    {
        let k = rotation & 3;
        assert(k == rotation % 4) by (bit_vector)
            requires
                k == rotation & 3,
        ;
        self.object.fp_idx[k]
    }

    /// The object's faces.
    pub fn faces(&self) -> (r: &[FaceRaw])
        ensures
            r@ == self@.1,
    {
        self.faces.as_slice()
    }

    /// The object's points.
    pub fn points(&self) -> (r: &[PointRaw])
        ensures
            r@ == self@.2,
    {
        self.points.as_slice()
    }

    /// Whether every face's corners name points of the object.
    pub fn faces_resolve(&self) -> (r: bool)
        ensures
            r == faces_resolve_spec(self@.1, self@.2),
    {
        let n = self.points.len();
        let mut i: usize = 0;
        while i < self.faces.len()
            invariant
                i <= self.faces@.len(),
                n == self.points@.len(),
                forall|j: int| 0 <= j < i ==> #[trigger] face_resolves(self.faces@[j], n as int),
            decreases self.faces@.len() - i,
        {
            let f = self.faces[i];
            if (f.point_1 as usize) >= n || (f.point_2 as usize) >= n || (f.point_3 as usize) >= n || (f.num_points >= 4
                && (f.point_4 as usize) >= n) {
                assert(!face_resolves(self.faces@[i as int], n as int));
                return false;
            }
            i += 1;
        }
        true
    }

    /// The mesh of the object as textured vertices (texture, point, u, v),
    /// three per triangle: the faces in order, a triangle as its three
    /// corners, a quad as the triangles (1, 2, 3) and (3, 4, 1). With a
    /// construction phase only the faces whose mask has that phase's bit
    /// are drawn.
    pub fn mesh_vertices(&self, phase: Option<u8>) -> (r: Vec<(i16, PointRaw, u32, u32)>)
        requires
            faces_resolve_spec(self@.1, self@.2),
        ensures
            r@ == mesh_vertices_spec(self@.1, self@.2, phase, self@.1.len() as int),
    {
        let mut out: Vec<(i16, PointRaw, u32, u32)> = Vec::new();
        let mut i: usize = 0;
        while i < self.faces.len()
            invariant
                i <= self.faces@.len(),
                faces_resolve_spec(self.faces@, self.points@),
                out@ == mesh_vertices_spec(self.faces@, self.points@, phase, i as int),
            decreases self.faces@.len() - i,
        {
            let f = self.faces[i];
            assert(face_resolves(self.faces@[i as int], self.points@.len() as int));
            let shown = match phase {
                None => true,
                Some(p) => construction_face_visible(f.flags2, p),
            };
            if shown {
                let c0 = (f.tex_index, self.points[f.point_1 as usize], f.point_1_u, f.point_1_v);
                let c1 = (f.tex_index, self.points[f.point_2 as usize], f.point_2_u, f.point_2_v);
                let c2 = (f.tex_index, self.points[f.point_3 as usize], f.point_3_u, f.point_3_v);
                let c3 = if f.num_points >= 4 {
                    (f.tex_index, self.points[f.point_4 as usize], f.point_4_u, f.point_4_v)
                } else {
                    (f.tex_index, PointRaw { x: 0, y: 0, z: 0 }, 0u32, 0u32)
                };
                let ghost before = out@;
                if f.num_points == 3 {
                    out.push(c0);
                    out.push(c1);
                    out.push(c2);
                } else {
                    out.push(c0);
                    out.push(c1);
                    out.push(c2);
                    out.push(c2);
                    out.push(c3);
                    out.push(c0);
                }
                assert(out@ =~= before + face_vertices(f, self.points@));
            }
            assert(out@ =~= mesh_vertices_spec(self.faces@, self.points@, phase, i + 1));
            i += 1;
        }
        out
    }
}

/// Building footprints: the SHAPES.DAT entries and the cell bitmap after
/// them (bit 0 of a byte set for an occupied cell).
pub struct ShapeFootprints {
    shapes: Vec<Shape>,
    bitmap_data: Vec<u8>,
}

impl View for ShapeFootprints {
    type V = (Seq<Shape>, Seq<u8>);

    closed spec fn view(&self) -> Self::V {
        (self.shapes@, self.bitmap_data@)
    }
}

/// Whether cell (`dx`, `dy`) of footprint `idx` is occupied: the footprint
/// exists and the bitmap byte at its start plus `dy` rows of its width
/// plus `dx` exists and has bit 0 set.
pub open spec fn cell_occupied(fp: (Seq<Shape>, Seq<u8>), idx: int, dx: int, dy: int) -> bool {
    0 <= idx < fp.0.len() && {
        let s = fp.0[idx];
        let off = s.shape_ref + dy * s.width + dx;
        off < fp.1.len() && fp.1[off] % 2 == 1
    }
}

/// The occupied cells among the first `k` cells (row-major) of footprint
/// `idx`, as offsets from its origin (given in half cells).
pub open spec fn occupied_list(fp: (Seq<Shape>, Seq<u8>), idx: int, k: int) -> Seq<(i16, i16)>
    decreases k,
{
    if k <= 0 {
        seq![]
    } else {
        let s = fp.0[idx];
        let w = s.width as int;
        let prev = occupied_list(fp, idx, k - 1);
        let dx = (k - 1) % w;
        let dy = (k - 1) / w;
        if cell_occupied(fp, idx, dx, dy) {
            prev.push(((dx - s.origin_x / 2) as i16, (dy - s.origin_z / 2) as i16))
        } else {
            prev
        }
    }
}

impl ShapeFootprints {
    /// No footprints.
    pub fn empty() -> (r: Self)
        ensures
            r@.0.len() == 0,
            r@.1.len() == 0,
    {
        ShapeFootprints { shapes: Vec::new(), bitmap_data: Vec::new() }
    }

    /// Footprints from the bytes of SHAPES.DAT: 64 entries of 48 bytes, then
    /// the bitmap.
    pub fn from_bytes(data: &[u8]) -> (r: Self)
        requires
            data@.len() >= 3072,
        ensures
            r@.0 == records(data@.subrange(0, 3072), SHAPE_SIZE as nat, |b: Seq<u8>| shape_of(b)),
            r@.0.len() == 64,
            r@.1 == data@.subrange(3072, data@.len() as int),
    {
        let entry_bytes = SHAPE_ENTRY_COUNT * SHAPE_SIZE;
        let entries = slice_range(data, 0, entry_bytes);
        let shapes = Shape::vec_from_bytes(entries.as_slice());
        let bitmap_data = slice_range(data, entry_bytes, data.len());
        ShapeFootprints { shapes, bitmap_data }
    }

    /// The entries.
    pub fn shapes(&self) -> (r: &[Shape])
        ensures
            r@ == self@.0,
    {
        self.shapes.as_slice()
    }

    /// Whether cell (`dx`, `dy`) of footprint `shape_idx` is occupied; false
    /// for a missing footprint or a cell past the bitmap.
    pub fn is_cell_occupied(&self, shape_idx: usize, dx: usize, dy: usize) -> (r: bool)
        requires
            shape_idx < self@.0.len() ==> self@.0[shape_idx as int].shape_ref + dy * self@.0[shape_idx as int].width + dx
                <= usize::MAX,
        ensures
            r == cell_occupied(self@, shape_idx as int, dx as int, dy as int),
    {
        if shape_idx < self.shapes.len() {
            let s = &self.shapes[shape_idx];
            let w = s.width as usize;
            assert(dy * w <= s.shape_ref + dy * w + dx) by (nonlinear_arith)
                requires
                    dy >= 0,
                    w >= 0,
            ;
            let offset = s.shape_ref as usize + dy * w + dx;
            if offset < self.bitmap_data.len() {
                let b = self.bitmap_data[offset];
                assert((b & 1 != 0) == (b % 2 == 1)) by (bit_vector);
                b & 1 != 0
            } else {
                false
            }
        } else {
            false
        }
    }

    /// The occupied cells of footprint `shape_idx`, row by row, as offsets
    /// from its origin; `None` for a missing footprint.
    pub fn occupied_offsets(&self, shape_idx: usize) -> (r: Option<Vec<(i16, i16)>>)
        requires
            shape_idx < self@.0.len() ==> self@.0[shape_idx as int].shape_ref + self@.0[shape_idx as int].width
                * self@.0[shape_idx as int].height <= usize::MAX,
        ensures
            r is None <==> shape_idx >= self@.0.len(),
            r matches Some(v) ==> v@ == occupied_list(
                self@,
                shape_idx as int,
                self@.0[shape_idx as int].width * self@.0[shape_idx as int].height,
            ),
    {
        if shape_idx >= self.shapes.len() {
            return None;
        }
        let shape = self.shapes[shape_idx];
        let origin_x = (shape.origin_x / 2) as i16;
        let origin_z = (shape.origin_z / 2) as i16;
        let w = shape.width as usize;
        let n = w * shape.height as usize;
        let mut result: Vec<(i16, i16)> = Vec::new();
        let mut k: usize = 0;
        while k < n
            invariant
                shape_idx < self@.0.len(),
                shape == self@.0[shape_idx as int],
                w == shape.width,
                n == shape.width * shape.height,
                origin_x == shape.origin_x / 2,
                origin_z == shape.origin_z / 2,
                shape.shape_ref + n <= usize::MAX,
                k <= n,
                result@ == occupied_list(self@, shape_idx as int, k as int),
            decreases n - k,
        {
            proof {
                assert(w > 0) by (nonlinear_arith)
                    requires
                        k < n,
                        n == w * shape.height,
                        w >= 0,
                        shape.height >= 0,
                ;
            }
            let dx = k % w;
            let dy = k / w;
            proof {
                assert(dy < shape.height && dy * w + dx == k) by (nonlinear_arith)
                    requires
                        dx == k % w,
                        dy == k / w,
                        k < n,
                        n == w * shape.height,
                        w > 0,
                ;
            }
            if self.is_cell_occupied(shape_idx, dx, dy) {
                result.push((dx as i16 - origin_x, dy as i16 - origin_z));
            }
            k += 1;
        }
        Some(result)
    }
}

/// Bytes `start .. end` of `data`.
fn slice_range(data: &[u8], start: usize, end: usize) -> (r: Vec<u8>)
    requires
        start <= end <= data@.len(),
    ensures
        r@ == data@.subrange(start as int, end as int),
{
    let mut r: Vec<u8> = Vec::new();
    let mut i: usize = start;
    while i < end
        invariant
            start <= i <= end <= data@.len(),
            r@ == data@.subrange(start as int, i as int),
        decreases end - i,
    {
        r.push(data[i]);
        i += 1;
    }
    r
}

/// The construction-phase bit a face's `flags2` is tested against: phases
/// past 4 use bit 4.
pub open spec fn phase_bit(phase: u8) -> int {
    if phase == 0 {
        1
    } else if phase == 1 {
        2
    } else if phase == 2 {
        4
    } else if phase == 3 {
        8
    } else {
        16
    }
}

/// Whether a face shows during construction phase `phase`: bit
/// `min(phase, 4)` of its `flags2` mask is set.
pub fn construction_face_visible(flags2: u8, phase: u8) -> (r: bool)
    ensures
        r == ((flags2 as int / phase_bit(phase)) % 2 == 1),
{
    let p: u8 = if phase < 4 { phase } else { 4 };
    let r = flags2 & (1u8 << p) != 0;
    if p == 0 {
        assert((flags2 & (1u8 << 0u8) != 0) == (flags2 % 2 == 1)) by (bit_vector);
    } else if p == 1 {
        assert((flags2 & (1u8 << 1u8) != 0) == ((flags2 / 2) % 2 == 1)) by (bit_vector);
    } else if p == 2 {
        assert((flags2 & (1u8 << 2u8) != 0) == ((flags2 / 4) % 2 == 1)) by (bit_vector);
    } else if p == 3 {
        assert((flags2 & (1u8 << 3u8) != 0) == ((flags2 / 8) % 2 == 1)) by (bit_vector);
    } else {
        assert((flags2 & (1u8 << 4u8) != 0) == ((flags2 / 16) % 2 == 1)) by (bit_vector);
    }
    r
}

} // verus!
