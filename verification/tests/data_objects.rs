use pop3::data::objects::{construction_face_visible, scenery_bank, FaceRaw, Object3D, ObjectRaw, PointRaw, Shape, ShapeFootprints};

fn object_bytes(facs_num: u16, facs: (u32, u32), pnts: (u32, u32), fp: [i8; 4]) -> Vec<u8> {
    let mut b = vec![0u8; 54];
    b[2..4].copy_from_slice(&facs_num.to_le_bytes());
    b[12..16].copy_from_slice(&7u32.to_le_bytes());
    b[16..20].copy_from_slice(&facs.0.to_le_bytes());
    b[20..24].copy_from_slice(&facs.1.to_le_bytes());
    b[24..28].copy_from_slice(&pnts.0.to_le_bytes());
    b[28..32].copy_from_slice(&pnts.1.to_le_bytes());
    for (i, v) in fp.iter().enumerate() {
        b[44 + i] = *v as u8;
    }
    b
}

fn points(n: i16) -> Vec<PointRaw> {
    let mut bytes = Vec::new();
    for i in 0..n {
        bytes.extend_from_slice(&i.to_le_bytes());
        bytes.extend_from_slice(&(-i).to_le_bytes());
        bytes.extend_from_slice(&(2 * i).to_le_bytes());
    }
    PointRaw::vec_from_bytes(&bytes)
}

fn faces(n: u8) -> Vec<FaceRaw> {
    let mut bytes = Vec::new();
    for i in 0..n {
        let mut f = vec![0u8; 60];
        f[2] = i;
        f[6] = 3;
        f[59] = 1 << (i % 5);
        bytes.extend_from_slice(&f);
    }
    FaceRaw::vec_from_bytes(&bytes)
}

#[test]
fn construction_face_masks_select_the_current_phase_bit() {
    assert!(construction_face_visible(0b0000_0001, 0));
    assert!(!construction_face_visible(0b0000_0001, 1));
    assert!(construction_face_visible(0b0001_0100, 2));
    assert!(construction_face_visible(0b0001_0100, 4));
    assert!(!construction_face_visible(0b0000_0100, 4));
}

#[test]
fn construction_phases_past_four_use_bit_four() {
    assert!(construction_face_visible(0b0001_0000, 9));
    assert!(!construction_face_visible(0b0000_1000, 9));
    assert!(construction_face_visible(0b0000_1000, 3));
}

#[test]
fn records_decode_little_endian_fields() {
    let o = ObjectRaw::from_bytes(&object_bytes(2, (3, 5), (1, 4), [1, -1, 2, 3])).unwrap();
    assert_eq!(o.facs_num, 2);
    assert_eq!(o.coord_scale, 7);
    assert_eq!((o.facs_ptr, o.facs_ptr_end, o.pnts_ptr, o.pnts_ptr_end), (3, 5, 1, 4));
    assert_eq!(o.fp_idx, [1, -1, 2, 3]);
    assert!(ObjectRaw::from_bytes(&[0u8; 53]).is_none());
    let p = points(3);
    assert_eq!(p.len(), 3);
    assert_eq!((p[2].x, p[2].y, p[2].z), (2, -2, 4));
    let f = faces(2);
    assert_eq!(f[1].tex_index, 1);
    assert_eq!(f[1].num_points, 3);
    assert_eq!(f[1].flags2, 2);
    // Partial trailing records are not read.
    assert_eq!(PointRaw::vec_from_bytes(&[1, 0, 2, 0, 3, 0, 9]).len(), 1);
}

#[test]
fn objects_take_their_one_based_ranges() {
    let o = ObjectRaw::from_bytes(&object_bytes(2, (3, 5), (1, 4), [0; 4])).unwrap();
    let obj = Object3D::create(&o, &faces(6), &points(5));
    assert_eq!(obj.face_count(), 2);
    assert_eq!(obj.point_count(), 3);
    let empty = ObjectRaw::from_bytes(&object_bytes(0, (4, 4), (2, 1), [0; 4])).unwrap();
    let obj = Object3D::create(&empty, &faces(6), &points(5));
    assert_eq!(obj.face_count(), 0);
    assert_eq!(obj.point_count(), 0);
}

#[test]
fn objects_without_faces_are_dropped_or_kept_as_none() {
    let with = ObjectRaw::from_bytes(&object_bytes(1, (1, 2), (1, 2), [0; 4])).unwrap();
    let without = ObjectRaw::from_bytes(&object_bytes(0, (1, 2), (1, 2), [0; 4])).unwrap();
    let objs = [without, with, without];
    let kept = Object3D::create_objects(&objs, &faces(2), &points(2));
    assert_eq!(kept.len(), 1);
    let all = Object3D::create_objects_all(&objs, &faces(2), &points(2));
    assert_eq!(all.len(), 3);
    assert!(all[0].is_none() && all[1].is_some() && all[2].is_none());
}

#[test]
fn footprint_index_takes_the_rotation_modulo_four() {
    let o = ObjectRaw::from_bytes(&object_bytes(1, (1, 1), (1, 1), [4, 5, -1, 7])).unwrap();
    let obj = Object3D::create(&o, &[], &[]);
    assert_eq!(obj.footprint_index(0), 4);
    assert_eq!(obj.footprint_index(2), -1);
    assert_eq!(obj.footprint_index(5), 5);
    assert_eq!(obj.footprint_index(7), 7);
}

fn shapes_file() -> Vec<u8> {
    let mut data = vec![0u8; 64 * 48];
    // Entry 1: a 3 x 2 footprint, origin (2, 2) half cells, bitmap at 4.
    data[48] = 3;
    data[49] = 2;
    data[50] = 2;
    data[51] = 2;
    data[48 + 44..48 + 48].copy_from_slice(&4u32.to_le_bytes());
    let bitmap = [0u8, 0, 0, 0, 1, 0, 3, 2, 1, 1];
    data.extend_from_slice(&bitmap);
    data
}

#[test]
fn shape_footprints_read_entries_then_bitmap() {
    let fp = ShapeFootprints::from_bytes(&shapes_file());
    assert_eq!(fp.shapes().len(), 64);
    let s: &Shape = &fp.shapes()[1];
    assert_eq!((s.width, s.height, s.origin_x, s.origin_z, s.shape_ref), (3, 2, 2, 2, 4));
    assert!(fp.is_cell_occupied(1, 0, 0));
    assert!(!fp.is_cell_occupied(1, 1, 0));
    assert!(fp.is_cell_occupied(1, 2, 0));
    assert!(!fp.is_cell_occupied(1, 0, 1));
    assert!(fp.is_cell_occupied(1, 2, 1));
    assert!(!fp.is_cell_occupied(1, 40, 1));
    assert!(!fp.is_cell_occupied(99, 0, 0));
    assert!(ShapeFootprints::empty().shapes().is_empty());
}

#[test]
fn occupied_offsets_are_relative_to_the_origin() {
    let fp = ShapeFootprints::from_bytes(&shapes_file());
    assert_eq!(fp.occupied_offsets(1), Some(vec![(-1, -1), (1, -1), (0, 0), (1, 0)]));
    assert_eq!(fp.occupied_offsets(0), Some(vec![]));
    assert_eq!(fp.occupied_offsets(64), None);
}

fn mesh_face(tex: i16, num_points: u8, corners: [u16; 4], uvs: [(u32, u32); 4], flags2: u8) -> Vec<u8> {
    let mut f = vec![0u8; 60];
    f[2..4].copy_from_slice(&tex.to_le_bytes());
    f[6] = num_points;
    for (k, (u, v)) in uvs.iter().enumerate() {
        f[8 + 8 * k..12 + 8 * k].copy_from_slice(&u.to_le_bytes());
        f[12 + 8 * k..16 + 8 * k].copy_from_slice(&v.to_le_bytes());
    }
    for (k, p) in corners.iter().enumerate() {
        f[40 + 2 * k..42 + 2 * k].copy_from_slice(&p.to_le_bytes());
    }
    f[59] = flags2;
    f
}

fn mesh_object() -> Object3D {
    let mut bytes = mesh_face(7, 3, [0, 1, 2, 0], [(1, 2), (3, 4), (5, 6), (0, 0)], 0b0000_0001);
    bytes.extend(mesh_face(9, 4, [1, 2, 3, 0], [(10, 11), (12, 13), (14, 15), (16, 17)], 0b0000_0010));
    let fcs = FaceRaw::vec_from_bytes(&bytes);
    let o = ObjectRaw::from_bytes(&object_bytes(2, (1, 3), (1, 5), [0; 4])).unwrap();
    Object3D::create(&o, &fcs, &points(4))
}

#[test]
fn mesh_splits_quads_into_two_triangles() {
    let obj = mesh_object();
    assert_eq!(obj.faces().len(), 2);
    assert_eq!(obj.points().len(), 4);
    assert!(obj.faces_resolve());
    let pts = obj.points().to_vec();
    let v = obj.mesh_vertices(None);
    assert_eq!(v.len(), 9);
    let key = |(t, p, u, vv): (i16, PointRaw, u32, u32)| (t, p.x, p.y, p.z, u, vv);
    let got: Vec<_> = v.into_iter().map(key).collect();
    let pk = |i: usize| (pts[i].x, pts[i].y, pts[i].z);
    let c = |t: i16, i: usize, u: u32, vv: u32| (t, pk(i).0, pk(i).1, pk(i).2, u, vv);
    assert_eq!(
        got,
        vec![
            c(7, 0, 1, 2),
            c(7, 1, 3, 4),
            c(7, 2, 5, 6),
            c(9, 1, 10, 11),
            c(9, 2, 12, 13),
            c(9, 3, 14, 15),
            c(9, 3, 14, 15),
            c(9, 0, 16, 17),
            c(9, 1, 10, 11),
        ]
    );
}

#[test]
fn mesh_for_a_phase_keeps_only_that_phases_faces() {
    let obj = mesh_object();
    assert_eq!(obj.mesh_vertices(Some(0)).len(), 3);
    assert_eq!(obj.mesh_vertices(Some(1)).len(), 6);
    assert_eq!(obj.mesh_vertices(Some(4)).len(), 0);
}

#[test]
fn faces_naming_missing_points_do_not_resolve() {
    let bytes = mesh_face(1, 3, [0, 1, 9, 0], [(0, 0); 4], 1);
    let fcs = FaceRaw::vec_from_bytes(&bytes);
    let o = ObjectRaw::from_bytes(&object_bytes(1, (1, 2), (1, 3), [0; 4])).unwrap();
    let obj = Object3D::create(&o, &fcs, &points(2));
    assert!(!obj.faces_resolve());
}

#[test]
fn level_bank_zero_uses_scenery_bank_two() {
    assert_eq!(scenery_bank(0), 2);
    assert_eq!(scenery_bank(5), 5);
}
