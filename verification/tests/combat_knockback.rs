use pop3::engine::combat::{apply_knockback, decay_knockback};
use pop3::engine::movement::WorldCoord;

#[test]
fn knockback_direction_away_from_impact() {
    let target = WorldCoord::new(100, 0);
    let mut velocity = WorldCoord::default();
    let impact = WorldCoord::new(0, 0);

    apply_knockback(&target, &mut velocity, &impact, 50);
    // Target is to the right of impact, so knockback should push right (+x)
    assert!(velocity.x > 0, "Knockback x should be positive, got {}", velocity.x);
    assert_eq!(velocity.z, 0, "No z component expected for pure x offset");
}

#[test]
fn knockback_diagonal() {
    let target = WorldCoord::new(100, 100);
    let mut velocity = WorldCoord::default();
    let impact = WorldCoord::new(0, 0);

    apply_knockback(&target, &mut velocity, &impact, 100);
    // Both should be positive and roughly equal
    assert!(velocity.x > 0);
    assert!(velocity.z > 0);
    // For a 45-degree angle, x and z should be similar
    assert!((velocity.x - velocity.z).abs() <= 1,
        "x={} z={} should be roughly equal", velocity.x, velocity.z);
}

#[test]
fn knockback_zero_distance_no_effect() {
    let target = WorldCoord::new(50, 50);
    let mut velocity = WorldCoord::default();
    let impact = WorldCoord::new(50, 50); // same position

    apply_knockback(&target, &mut velocity, &impact, 100);
    assert_eq!(velocity.x, 0);
    assert_eq!(velocity.z, 0);
}

#[test]
fn knockback_adds_to_existing_velocity() {
    let target = WorldCoord::new(100, 0);
    let mut velocity = WorldCoord::new(10, 5);
    let impact = WorldCoord::new(0, 0);

    apply_knockback(&target, &mut velocity, &impact, 50);
    assert!(velocity.x > 10, "Should add to existing velocity");
}

#[test]
fn decay_knockback_halves_velocity() {
    let mut velocity = WorldCoord::new(100, -80);
    decay_knockback(&mut velocity);
    assert_eq!(velocity.x, 50);
    assert_eq!(velocity.z, -40);
}

#[test]
fn decay_knockback_converges_to_zero() {
    let mut velocity = WorldCoord::new(8, -8);
    for _ in 0..10 {
        decay_knockback(&mut velocity);
    }
    assert_eq!(velocity.x, 0);
    assert_eq!(velocity.z, 0);
}

