use pop3::engine::buildings::{validate_placement, GhostPreview, PlacementError};

fn empty_walkability() -> Box<[[u8; 128]; 128]> {
    Box::new([[0u8; 128]; 128])
}

fn empty_building_flags() -> Box<[[bool; 128]; 128]> {
    Box::new([[false; 128]; 128])
}

#[test]
fn valid_placement_on_clear_terrain() {
    let walk = empty_walkability();
    let flags = empty_building_flags();
    let footprint = vec![(0, 0), (1, 0), (0, 1), (1, 1)];
    assert_eq!(
        validate_placement(10, 10, &footprint, &walk, &flags),
        Ok(())
    );
}

#[test]
fn placement_rejects_water() {
    let mut walk = empty_walkability();
    walk[10][11] = 0x04; // water at (11, 10)
    let flags = empty_building_flags();
    let footprint = vec![(0, 0), (1, 0)];
    assert_eq!(
        validate_placement(10, 10, &footprint, &walk, &flags),
        Err(PlacementError::Water)
    );
}

#[test]
fn placement_rejects_occupied() {
    let walk = empty_walkability();
    let mut flags = empty_building_flags();
    flags[10][10] = true; // building at (10, 10)
    let footprint = vec![(0, 0)];
    assert_eq!(
        validate_placement(10, 10, &footprint, &walk, &flags),
        Err(PlacementError::Occupied)
    );
}

#[test]
fn placement_rejects_steep() {
    let mut walk = empty_walkability();
    walk[10][10] = 0x02; // steep
    let flags = empty_building_flags();
    let footprint = vec![(0, 0)];
    assert_eq!(
        validate_placement(10, 10, &footprint, &walk, &flags),
        Err(PlacementError::TooSteep)
    );
}

#[test]
fn placement_wraps_toroidally() {
    let walk = empty_walkability();
    let flags = empty_building_flags();
    // Place at edge, footprint wraps around
    let footprint = vec![(0, 0), (1, 0)]; // (127,0) and (128&127=0, 0)
    assert_eq!(
        validate_placement(127, 0, &footprint, &walk, &flags),
        Ok(())
    );
}

#[test]
fn placement_water_priority_over_steep() {
    let mut walk = empty_walkability();
    walk[10][10] = 0x04 | 0x02; // both water and steep
    let flags = empty_building_flags();
    let footprint = vec![(0, 0)];
    // Water check comes first
    assert_eq!(
        validate_placement(10, 10, &footprint, &walk, &flags),
        Err(PlacementError::Water)
    );
}

#[test]
fn ghost_preview_construction() {
    let ghost = GhostPreview {
        building_subtype: 1,
        cell_x: 10,
        cell_y: 20,
        rotation: 0,
        valid: true,
    };
    assert_eq!(ghost.building_subtype, 1);
    assert!(ghost.valid);
}

