use pop3::data::units::ModelType;
use pop3::engine::movement::WorldCoord;
use pop3::engine::objects::{ObjectHandle, ObjectHeader};

#[test]
fn object_header_construction() {
    let header = ObjectHeader {
        model_type: ModelType::Person,
        subtype: 2,
        tribe: 0,
        state: 1,
        state_phase: 0,
        flags1: 0x1000,
        flags2: 0,
        flags3: 0,
        object_index: ObjectHandle::new(42, 0),
        angle: 512,
        position: WorldCoord::new(100, 200),
        velocity: WorldCoord::default(),
        health: 500,
        max_health: 1000,
        next_in_cell: Some(10),
        prev_in_cell: None,
    };
    assert_eq!(header.model_type, ModelType::Person);
    assert_eq!(header.subtype, 2);
    assert_eq!(header.tribe, 0);
    assert_eq!(header.state, 1);
    assert_eq!(header.flags1, 0x1000);
    assert_eq!(header.object_index, ObjectHandle::new(42, 0));
    assert_eq!(header.angle, 512);
    assert_eq!(header.position, WorldCoord::new(100, 200));
    assert_eq!(header.health, 500);
    assert_eq!(header.max_health, 1000);
    assert_eq!(header.next_in_cell, Some(10));
    assert_eq!(header.prev_in_cell, None);
}

#[test]
fn handle_keeps_slot_and_generation() {
    let h = ObjectHandle::new(7, 3);
    assert_eq!(h.slot(), 7);
    assert_eq!(h.generation(), 3);
    assert_ne!(h, ObjectHandle::new(7, 4));
    assert_ne!(h, ObjectHandle::new(8, 3));
}
