use pop3::data::objects::{Object3D, ObjectRaw, ShapeFootprints};
use pop3::engine::buildings::catalog::BuildingCatalog;
use pop3::engine::buildings::types::BuildingSubtype;

#[test]
fn a_stored_footprint_is_read_back_at_any_equal_rotation() {
    let mut c = BuildingCatalog::new();
    assert!(c.footprint(BuildingSubtype::Temple, 0).is_none());
    c.insert(BuildingSubtype::Temple, 1, vec![(0, 0), (1, 0)]);
    assert_eq!(c.footprint(BuildingSubtype::Temple, 1), Some(&[(0, 0), (1, 0)][..]));
    assert_eq!(c.footprint(BuildingSubtype::Temple, 5), Some(&[(0, 0), (1, 0)][..]));
    assert!(c.footprint(BuildingSubtype::Temple, 2).is_none());
    assert!(c.footprint(BuildingSubtype::SmallHut, 1).is_none());
    c.insert(BuildingSubtype::Temple, 9, vec![(3, 3)]);
    assert_eq!(c.footprint(BuildingSubtype::Temple, 1), Some(&[(3, 3)][..]));
    let d = BuildingCatalog::default();
    assert!(d.footprint(BuildingSubtype::Temple, 1).is_none());
}

fn object_bytes(fp: [i8; 4]) -> Vec<u8> {
    let mut b = vec![0u8; 54];
    b[2] = 1;
    for (i, v) in fp.iter().enumerate() {
        b[44 + i] = *v as u8;
    }
    b
}

#[test]
fn footprints_come_from_tribe_zero_models_and_shapes() {
    // SHAPES.DAT: entry 0 a 1 x 1 occupied footprint, entry 1 an empty one.
    let mut shapes = vec![0u8; 64 * 48];
    shapes[0] = 1;
    shapes[1] = 1;
    shapes[48] = 1;
    shapes[49] = 1;
    shapes[48 + 44] = 1;
    shapes.extend_from_slice(&[1, 0]);
    let fp = ShapeFootprints::from_bytes(&shapes);
    let o = ObjectRaw::from_bytes(&object_bytes([0, 1, -1, 0])).unwrap();
    let mut objects: Vec<Option<Object3D>> = (0..200).map(|_| None).collect();
    // The drum tower of tribe 0 is model 117.
    objects[117] = Some(Object3D::create(&o, &[], &[]));
    let c = BuildingCatalog::from_assets(&objects, &fp);
    assert_eq!(c.footprint(BuildingSubtype::DrumTower, 0), Some(&[(0, 0)][..]));
    assert!(c.footprint(BuildingSubtype::DrumTower, 1).is_none());
    assert!(c.footprint(BuildingSubtype::DrumTower, 2).is_none());
    assert_eq!(c.footprint(BuildingSubtype::DrumTower, 3), Some(&[(0, 0)][..]));
    assert!(c.footprint(BuildingSubtype::Temple, 0).is_none());
}
