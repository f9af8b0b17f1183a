use pop3::data::units::ModelType;
use pop3::engine::combat::projectile::SHOT_STANDARD;
use pop3::engine::combat::{drum_tower_shot, tick_projectile, ProjectileResult, ShotData};
use pop3::engine::movement::WorldCoord;
use pop3::engine::objects::{ObjectHandle, ObjectHeader};

fn make_header(pos: WorldCoord) -> ObjectHeader {
    ObjectHeader {
        model_type: ModelType::Shot,
        subtype: 0,
        tribe: 0,
        state: 0,
        state_phase: 0,
        flags1: 0,
        flags2: 0,
        flags3: 0,
        object_index: ObjectHandle::new(0, 0),
        angle: 0,
        position: pos,
        velocity: WorldCoord::default(),
        health: 0,
        max_health: 0,
        next_in_cell: None,
        prev_in_cell: None,
    }
}

#[test]
fn projectile_moves_toward_target() {
    let mut shot = ShotData {
        target_pos: WorldCoord::new(1000, 0),
        speed: 50,
        lifetime: 100,
        ..Default::default()
    };
    let mut header = make_header(WorldCoord::new(0, 0));
    let result = tick_projectile(&mut shot, &mut header);
    assert!(matches!(result, ProjectileResult::Continue));
    // Should have moved closer to target
    assert!(header.position.x > 0, "Should move in +x direction");
}

#[test]
fn projectile_impacts_at_threshold() {
    let mut shot = ShotData {
        target_pos: WorldCoord::new(30, 0),
        speed: 64,
        lifetime: 100,
        damage: 200,
        aoe_radius: 3,
        knockback_force: 50,
        ..Default::default()
    };
    let mut header = make_header(WorldCoord::new(0, 0));
    // Distance 30 < speed 64, so should impact immediately
    let result = tick_projectile(&mut shot, &mut header);
    match result {
        ProjectileResult::Impact { damage, aoe_radius, knockback_force, .. } => {
            assert_eq!(damage, 200);
            assert_eq!(aoe_radius, 3);
            assert_eq!(knockback_force, 50);
        }
        _ => panic!("Expected Impact"),
    }
    assert_eq!(header.position, WorldCoord::new(30, 0));
}

#[test]
fn projectile_expires_at_zero_lifetime() {
    let mut shot = ShotData {
        lifetime: 0,
        ..Default::default()
    };
    let mut header = make_header(WorldCoord::default());
    let result = tick_projectile(&mut shot, &mut header);
    assert!(matches!(result, ProjectileResult::Expired));
}

#[test]
fn projectile_lifetime_decrements() {
    let mut shot = ShotData {
        target_pos: WorldCoord::new(5000, 5000),
        speed: 10,
        lifetime: 5,
        ..Default::default()
    };
    let mut header = make_header(WorldCoord::new(0, 0));
    tick_projectile(&mut shot, &mut header);
    assert_eq!(shot.lifetime, 4);
}

#[test]
fn drum_tower_shot_has_correct_defaults() {
    let shot = drum_tower_shot(WorldCoord::new(100, 200), Some(ObjectHandle::new(42, 1)));
    assert_eq!(shot.shot_type, SHOT_STANDARD);
    assert_eq!(shot.damage, 150);
    assert_eq!(shot.aoe_radius, 2);
    assert_eq!(shot.knockback_force, 64);
    assert_eq!(shot.lifetime, 180);
    assert_eq!(shot.speed, 48);
    assert_eq!(shot.target_handle, Some(ObjectHandle::new(42, 1)));
    assert_eq!(shot.target_pos, WorldCoord::new(100, 200));
}

#[test]
fn shot_data_default() {
    let shot = ShotData::default();
    assert_eq!(shot.shot_type, SHOT_STANDARD);
    assert_eq!(shot.damage, 100);
    assert_eq!(shot.lifetime, 120);
    assert_eq!(shot.speed, 64);
    assert!(shot.target_handle.is_none());
    assert!(shot.source_handle.is_none());
}

