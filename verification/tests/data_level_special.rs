use std::io::ErrorKind;

use pop3::data::level_special::{LevelSpecialData, SHARED_PLAYER_TEMPLATE_LEN};



#[test]
fn parses_native_construction_capability_mask() {
    let mut bytes = vec![0_u8; SHARED_PLAYER_TEMPLATE_LEN];
    bytes[4..8].copy_from_slice(&0x0000_0012_u32.to_le_bytes());

    let special = LevelSpecialData::from_bytes(&bytes).unwrap();

    assert_eq!(special.initial_construction_capabilities(), 0x12);
}

#[test]
fn rejects_truncated_shared_player_template() {
    let error = LevelSpecialData::from_bytes(&[0; SHARED_PLAYER_TEMPLATE_LEN - 1]).unwrap_err();
    assert_eq!(error.kind(), ErrorKind::UnexpectedEof);
}


#[test]
fn capability_mask_is_little_endian() {
    let mut bytes = vec![0_u8; SHARED_PLAYER_TEMPLATE_LEN + 10];
    bytes[4] = 0x01;
    bytes[5] = 0x02;
    bytes[6] = 0x03;
    bytes[7] = 0x04;
    let special = LevelSpecialData::from_bytes(&bytes).unwrap();
    assert_eq!(special.initial_construction_capabilities(), 0x0403_0201);
}
