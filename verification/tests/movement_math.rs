use pop3::engine::movement::constants::ANGLE_HALF;
use pop3::engine::movement::math::int_sqrt;
use pop3::engine::movement::tables::{cos_table, sin_table};
use pop3::engine::movement::{
    angle_difference, distance, formation_rng_next, move_point_by_angle, rotation_direction, WorldCoord,
};

#[test]
fn angle_diff_same() {
    assert_eq!(angle_difference(0, 0), 0);
    assert_eq!(angle_difference(0x400, 0x400), 0);
}

#[test]
fn angle_diff_half_circle() {
    assert_eq!(angle_difference(0, 0x400), ANGLE_HALF);
}

#[test]
fn angle_diff_wrap_around() {
    assert_eq!(angle_difference(0x7FF_u16 as i16, 0x001_u16 as i16), 2);
}

#[test]
fn angle_diff_symmetric() {
    assert_eq!(angle_difference(0x100, 0x300), angle_difference(0x300, 0x100));
}

#[test]
fn rot_dir_equal() {
    assert_eq!(rotation_direction(0x100, 0x100), 0);
}

#[test]
fn rot_dir_positive() {
    assert_eq!(rotation_direction(0x100, 0), 1);
}

#[test]
fn rot_dir_negative() {
    assert_eq!(rotation_direction(0, 0x100), -1);
}

#[test]
fn move_point_zero_distance() {
    let mut p = WorldCoord::new(100, 200);
    move_point_by_angle(&mut p, 0, 0);
    assert_eq!(p, WorldCoord::new(100, 200));
}

#[test]
fn move_point_north() {
    let mut p = WorldCoord::new(0, 0);
    move_point_by_angle(&mut p, 0, 256);
    assert_eq!(p.x, 0);
    assert_eq!(p.z, 256);
}

#[test]
fn move_point_east() {
    let mut p = WorldCoord::new(0, 0);
    move_point_by_angle(&mut p, 512, 256);
    assert_eq!(p.x, 256);
    assert_eq!(p.z, 0);
}

#[test]
fn sqrt_perfect_squares() {
    assert_eq!(int_sqrt(0), 0);
    assert_eq!(int_sqrt(1), 1);
    assert_eq!(int_sqrt(4), 2);
    assert_eq!(int_sqrt(9), 3);
    assert_eq!(int_sqrt(100), 10);
    assert_eq!(int_sqrt(10000), 100);
}

#[test]
fn distance_same_point() {
    let p = WorldCoord::new(100, 200);
    assert_eq!(distance(&p, &p), 0);
}

#[test]
fn distance_simple() {
    assert_eq!(distance(&WorldCoord::new(0, 0), &WorldCoord::new(3, 4)), 5);
}

#[test]
fn rng_deterministic() {
    let s1 = formation_rng_next(0);
    let s2 = formation_rng_next(s1);
    let s3 = formation_rng_next(s2);
    assert_ne!(s1, 0);
    assert_ne!(s2, s1);
    assert_ne!(s3, s2);
}

#[test]
fn rng_idle_delay_range() {
    let s = formation_rng_next(12345);
    let delay = (s & 7) + 24;
    assert!(delay >= 24 && delay <= 31);
}

#[test]
fn cos_table_cardinal_points() {
    assert_eq!(cos_table(0), 0x10000);
    assert_eq!(cos_table(512), 0);
    assert_eq!(cos_table(1024), -0x10000);
    assert_eq!(cos_table(1536), 0);
}

#[test]
fn sin_table_cardinal_points() {
    assert_eq!(sin_table(0), 0);
    assert_eq!(sin_table(512), 0x10000);
    assert_eq!(sin_table(1024), 0);
    assert_eq!(sin_table(1536), -0x10000);
}

#[test]
fn cos_sin_quadrature() {
    for i in [0, 100, 256, 512, 700, 1024, 1500] {
        let c = cos_table(i) as i64;
        let s = sin_table(i) as i64;
        let sum = c * c + s * s;
        let expected = 0x1_0000_0000i64;
        let error = (sum - expected).abs();
        assert!(error < 0x20000, "angle {i}: sum={sum:#x}, error={error}");
    }
}

#[test]
fn int_sqrt_rounds_down_between_squares() {
    assert_eq!(int_sqrt(8), 2);
    assert_eq!(int_sqrt(99), 9);
    assert_eq!(int_sqrt(u32::MAX), 65535);
    assert_eq!(int_sqrt(2_147_395_600), 46340);
}

#[test]
fn distance_wraps_around_the_world() {
    // 0x7FFF and -0x7FFF are 2 units apart across the seam.
    assert_eq!(distance(&WorldCoord::new(0x7FFF, 0), &WorldCoord::new(-0x7FFF, 0)), 2);
}

#[test]
fn distance_is_symmetric_across_the_wrap() {
    let pairs = [
        (WorldCoord::new(0, 0), WorldCoord::new(3, 4)),
        (WorldCoord::new(100, -200), WorldCoord::new(-300, 50)),
        (WorldCoord::new(0x7000, 0), WorldCoord::new(-0x7000, 10)),
    ];
    for (a, b) in pairs {
        assert_eq!(distance(&a, &b), distance(&b, &a));
        assert!(distance(&a, &b) >= 0);
    }
    assert_eq!(distance(&WorldCoord::new(0, 0), &WorldCoord::new(3, 4)), 5);
    assert_eq!(distance(&WorldCoord::new(9, 9), &WorldCoord::new(9, 9)), 0);
}

#[test]
fn formation_rng_states_never_collapse() {
    let mut seen = std::collections::HashSet::new();
    for s in 0..5000u32 {
        assert!(seen.insert(formation_rng_next(s.wrapping_mul(2654435761))));
    }
    assert_ne!(formation_rng_next(0), 0);
}
