use pop3::data::level::{
    build_sky_interp_table, disp_from_bytes, obj_bank_from_header, read_fixed_unit_slots,
    read_landscape_type_from_bytes, GlobeTextureParams, Landscape, LevelDefinition, LevelRes, Sunlight, LEVEL_FILE_MIN_LEN,
    LEVEL_TRIBES_OFFSET,
};
use pop3::data::reader::ByteReader;
use pop3::data::units::UnitRaw;

fn unit_raw_bytes(subtype: u8, model: u8, tribe_index: u8, loc_x: u16, loc_y: u16, angle: u32) -> [u8; 55] {
    let mut bytes = [0u8; 55];
    bytes[0] = subtype;
    bytes[1] = model;
    bytes[2] = tribe_index;
    bytes[3..5].copy_from_slice(&loc_x.to_le_bytes());
    bytes[5..7].copy_from_slice(&loc_y.to_le_bytes());
    bytes[7..11].copy_from_slice(&angle.to_le_bytes());
    bytes
}

#[test]
fn read_fixed_unit_slots_reads_exact_slot_count() {
    let mut bytes = Vec::new();
    bytes.extend_from_slice(&unit_raw_bytes(7, 1, 0, 0x1234, 0x5678, 0x9ABC_DEF0));
    bytes.extend_from_slice(&unit_raw_bytes(2, 1, 1, 0x0102, 0x0304, 0x0506_0708));
    // Extra valid UnitRaw + trailing noise should not be consumed.
    bytes.extend_from_slice(&unit_raw_bytes(5, 1, 2, 0x2222, 0x3333, 0x4444_5555));
    bytes.extend_from_slice(&[0xAA; 13]);

    let mut cursor = ByteReader::new(bytes);
    let units = read_fixed_unit_slots(&mut cursor, 2);
    assert_eq!(units.len(), 2);
    assert_eq!(units[0].subtype, 7);
    assert_eq!(units[1].subtype, 2);

    // The next entry is still available in the stream.
    let next = UnitRaw::from_reader(&mut cursor).expect("expected unread third unit");
    assert_eq!(next.subtype, 5);
}

#[test]
fn sunlight_reads_three_bytes() {
    let mut r = ByteReader::new(vec![4, 5, 6, 7]);
    let s = Sunlight::from_reader(&mut r);
    assert_eq!((s.v1, s.v2, s.v3), (4, 5, 6));
    assert_eq!(r.remaining(), 1);
    let n = Sunlight::new(1, 2, 3);
    assert_eq!((n.v1, n.v2, n.v3), (1, 2, 3));
}

#[test]
fn landscape_type_is_a_digit_or_a_lowercase_letter() {
    let mut hdr = vec![0u8; 98];
    hdr[96] = 7;
    assert_eq!(read_landscape_type_from_bytes(&hdr), "7");
    hdr[96] = 10;
    assert_eq!(read_landscape_type_from_bytes(&hdr), "a");
    hdr[96] = 35;
    assert_eq!(read_landscape_type_from_bytes(&hdr), "z");
    hdr[97] = 4;
    assert_eq!(obj_bank_from_header(&hdr), 4);
    assert_eq!(obj_bank_from_header(&hdr[..97]), 0);
}

#[test]
fn static_landscape_table_has_three_bands() {
    let v = GlobeTextureParams::make_static_array();
    assert_eq!(v.len(), 1152);
    assert_eq!(v[0], 0x140);
    assert_eq!(v[127], 0x140);
    assert_eq!(v[128], 0xd3d - 1024 * 3);
    assert_eq!(v[361], 0xd3d - 791 * 3);
    assert_eq!(v[362], 0x400);
    assert_eq!(v[1151], 0x400);
}

#[test]
fn displacement_rows_are_mirrored_but_for_the_middle_bytes() {
    let buf: Vec<u8> = (0..65538u32).map(|i| (i % 251) as u8).collect();
    let d = disp_from_bytes(&buf);
    assert_eq!(d.len(), buf.len());
    assert_eq!(d[0], buf[255] as i8);
    assert_eq!(d[255], buf[0] as i8);
    assert_eq!(d[127], buf[127] as i8);
    assert_eq!(d[128], buf[128] as i8);
    assert_eq!(d[256 + 3], buf[256 + 252] as i8);
    assert_eq!(d[65537], buf[65537] as i8);
}

#[test]
fn landscape_is_read_column_major_and_turned() {
    // An 8 x 8 map: value i of the file is i + 1.
    let mut bytes = Vec::new();
    for i in 0..64u16 {
        bytes.extend_from_slice(&(i + 1).to_le_bytes());
    }
    let mut r = ByteReader::new(bytes);
    let l = Landscape::<8>::from_reader(&mut r);
    assert_eq!(l.land_size(), 8);
    let v = l.to_vec();
    // Rows 0..3 trade places with rows 7..5; rows 3 and 4 stay.
    // File value i sits at row i % 8, column i / 8.
    assert_eq!(v[0 * 8 + 0], 8);
    assert_eq!(v[0 * 8 + 1], 16);
    assert_eq!(v[3 * 8 + 0], 4);
    assert_eq!(v[4 * 8 + 0], 5);
    assert_eq!(v[7 * 8 + 0], 1);
    assert_eq!(r.remaining(), 0);
}

#[test]
fn short_landscape_files_leave_zeros() {
    let mut r = ByteReader::new(vec![5, 0, 6]);
    let l = Landscape::<4>::from_reader(&mut r);
    let v = l.to_vec();
    assert_eq!(v[3 * 4 + 0], 5);
    assert_eq!(v.iter().filter(|h| **h != 0).count(), 1);
}

#[test]
fn shores_are_water_next_to_land() {
    let mut bytes = vec![0u8; 2 * 16];
    // File value 5 (row 1, column 1) is land before turning; on a 4 x 4
    // map no row moves.
    bytes[10] = 9;
    let mut r = ByteReader::new(bytes);
    let l = Landscape::<4>::from_reader(&mut r);
    assert!(!l.is_land_adj(1, 1));
    assert!(l.is_land_adj(0, 0));
    assert!(l.is_land_adj(2, 2));
    assert!(!l.is_land_adj(3, 3));
    let s = l.make_shores().to_vec();
    assert_eq!(s[1 * 4 + 1], 9);
    assert_eq!(s[0], 1);
    assert_eq!(s[2 * 4 + 2], 1);
    assert_eq!(s[3 * 4 + 3], 0);
    let flat = Landscape::<4>::new().to_vec();
    assert!(flat.iter().all(|h| *h == 0));
}

#[test]
fn level_objects_skip_unknown_models_and_the_origin() {
    let mut bytes = Vec::new();
    bytes.extend_from_slice(&unit_raw_bytes(2, 1, 0, 10, 20, 0x1801));
    bytes.extend_from_slice(&unit_raw_bytes(2, 0, 0, 10, 20, 0));
    bytes.extend_from_slice(&unit_raw_bytes(2, 1, 0, 0, 0, 0));
    bytes.extend_from_slice(&unit_raw_bytes(4, 2, 3, 0xfff0, 7, 5));
    let mut r = ByteReader::new(bytes);
    let units = read_fixed_unit_slots(&mut r, 4);
    let level = LevelRes {
        level_number: 3,
        landscape: Landscape::<128>::new(),
        tribes: vec![],
        sunlight: Sunlight::new(1, 2, 3),
        units,
        obj_bank: 0,
    };
    let def = LevelDefinition::from_resource(&level);
    assert_eq!(def.level_number, 3);
    assert_eq!(def.heights.len(), 128);
    assert_eq!(def.objects.len(), 2);
    assert_eq!(def.objects[0].source.0, 0);
    assert_eq!(def.objects[0].angle, 1);
    assert_eq!(def.objects[0].position, [10, 20]);
    assert_eq!(def.objects[1].source.0, 3);
    assert_eq!(def.objects[1].tribe, 3);
    assert_eq!(def.objects[1].position, [-16, 7]);
}

#[test]
fn sky_table_sweeps_from_darkest_to_brightest() {
    let mut pal = vec![0u8; 0x7e * 4];
    for k in 0..13usize {
        let p = (0x71 + k) * 4;
        // Luminance (66 + 129 + 25) * v = 220 v; scaled by 1/256.
        let v = (18 * (13 - k)) as u8;
        pal[p] = v;
        pal[p + 1] = v;
        pal[p + 2] = v;
    }
    let t = build_sky_interp_table(&pal);
    // The darkest colour is the last one, the brightest the first.
    assert_eq!(t[0], 0x7d);
    assert_eq!(t[255], 0x71);
    assert!(t.iter().all(|i| (0x71..=0x7d).contains(i)));
}

#[test]
fn sky_table_ties_go_to_the_earlier_colour() {
    let pal = vec![0u8; 0x7e * 4];
    let t = build_sky_interp_table(&pal);
    assert!(t.iter().all(|i| *i == 0x71));
}

fn level_file() -> Vec<u8> {
    let mut data = vec![0u8; LEVEL_FILE_MIN_LEN + 10];
    // Height of column 0, row 0 (little-endian).
    data[0] = 0x34;
    data[1] = 0x12;
    for t in 0..4 {
        for b in 0..16 {
            data[LEVEL_TRIBES_OFFSET + 16 * t + b] = (16 * t + b) as u8;
        }
    }
    data[LEVEL_TRIBES_OFFSET + 64] = 7;
    data[LEVEL_TRIBES_OFFSET + 65] = 8;
    data[LEVEL_TRIBES_OFFSET + 66] = 9;
    let first = LEVEL_TRIBES_OFFSET + 67;
    data[first..first + 55].copy_from_slice(&unit_raw_bytes(2, 1, 3, 100, 200, 0));
    let last = first + 1999 * 55;
    data[last..last + 55].copy_from_slice(&unit_raw_bytes(4, 2, 1, 5, 6, 0));
    data
}

#[test]
fn level_file_sections_are_read_at_their_offsets() {
    let data = level_file();
    let level = LevelRes::from_bytes(4, &data, 6).unwrap();
    assert_eq!(level.level_number, 4);
    assert_eq!(level.obj_bank, 6);
    assert_eq!(level.tribes.len(), 4);
    assert_eq!(level.tribes[0].data[0], 0);
    assert_eq!(level.tribes[3].data[15], 63);
    assert_eq!((level.sunlight.v1, level.sunlight.v2, level.sunlight.v3), (7, 8, 9));
    assert_eq!(level.units.len(), 2000);
    assert_eq!((level.units[0].subtype(), level.units[0].tribe_index(), level.units[0].loc_x()), (2, 3, 100));
    assert_eq!((level.units[1999].subtype(), level.units[1999].loc_y()), (4, 6));
}

#[test]
fn truncated_level_files_are_refused() {
    let data = level_file();
    assert!(LevelRes::from_bytes(1, &data[..LEVEL_FILE_MIN_LEN - 1], 0).is_none());
    assert!(LevelRes::from_bytes(1, &data[..LEVEL_FILE_MIN_LEN], 0).is_some());
    assert!(LevelRes::from_bytes(1, &[], 0).is_none());
}

#[test]
fn sky_table_reads_no_byte_past_the_last_colour() {
    let mut pal = vec![0u8; 0x7d * 4 + 3];
    for k in 0..13usize {
        let p = (0x71 + k) * 4;
        let v = (18 * (k + 1)) as u8;
        pal[p] = v;
        pal[p + 1] = v;
        pal[p + 2] = v;
    }
    let t = build_sky_interp_table(&pal);
    assert_eq!(t[0], 0x71);
    assert_eq!(t[255], 0x7d);
    assert!(t.windows(2).all(|w| w[0] <= w[1]));
}
