use pop3::data::strings::StringTable;

fn make_u32_le(val: u32) -> [u8; 4] {
    val.to_le_bytes()
}

#[test]
fn empty_data_returns_empty_table() {
    let table = StringTable::from_bytes(&[]);
    assert_eq!(table.len(), 0);
    assert!(table.is_empty());
}

#[test]
fn single_string_parses_correctly() {
    // count=1, offset=8 (past header: 4 bytes count + 4 bytes offset), "Hello\0"
    let mut data = Vec::new();
    data.extend_from_slice(&make_u32_le(1)); // count
    data.extend_from_slice(&make_u32_le(8)); // offset to string
    data.extend_from_slice(b"Hello\0");

    let table = StringTable::from_bytes(&data);
    assert_eq!(table.len(), 1);
    assert_eq!(table.get(0), Some("Hello"));
}

#[test]
fn multiple_strings_parse_with_correct_indexing() {
    // count=2, offsets=[12, 18], strings "Hello\0World!\0"
    let mut data = Vec::new();
    data.extend_from_slice(&make_u32_le(2)); // count
    data.extend_from_slice(&make_u32_le(12)); // offset to "Hello"
    data.extend_from_slice(&make_u32_le(18)); // offset to "World!"
    data.extend_from_slice(b"Hello\0World!\0");

    let table = StringTable::from_bytes(&data);
    assert_eq!(table.len(), 2);
    assert_eq!(table.get(0), Some("Hello"));
    assert_eq!(table.get(1), Some("World!"));
}

#[test]
fn out_of_bounds_index_returns_none() {
    let table = StringTable::from_bytes(&[]);
    assert_eq!(table.get(0), None);
    assert_eq!(table.get(100), None);
}

#[test]
fn data_too_short_for_header_returns_empty() {
    // Only 2 bytes -- not enough for u32 count
    let table = StringTable::from_bytes(&[0x01, 0x00]);
    assert_eq!(table.len(), 0);
}

#[test]
fn realistic_three_strings() {
    // count=3, 3 offsets, then 3 null-terminated strings
    let header_size: u32 = 4 + 3 * 4; // 16
    let s0 = b"Brave\0";
    let s1 = b"Warrior\0";
    let s2 = b"Shaman\0";

    let off0 = header_size;
    let off1 = off0 + s0.len() as u32;
    let off2 = off1 + s1.len() as u32;

    let mut data = Vec::new();
    data.extend_from_slice(&make_u32_le(3));
    data.extend_from_slice(&make_u32_le(off0));
    data.extend_from_slice(&make_u32_le(off1));
    data.extend_from_slice(&make_u32_le(off2));
    data.extend_from_slice(s0);
    data.extend_from_slice(s1);
    data.extend_from_slice(s2);

    let table = StringTable::from_bytes(&data);
    assert_eq!(table.len(), 3);
    assert_eq!(table.get(0), Some("Brave"));
    assert_eq!(table.get(1), Some("Warrior"));
    assert_eq!(table.get(2), Some("Shaman"));
}


#[test]
fn invalid_utf8_is_replaced() {
    let mut data = Vec::new();
    data.extend_from_slice(&make_u32_le(1));
    data.extend_from_slice(&make_u32_le(8));
    data.extend_from_slice(&[b'H', 0xFF, b'I', 0]);
    let table = StringTable::from_bytes(&data);
    assert_eq!(table.get(0), Some("H\u{FFFD}I"));
}

#[test]
fn offset_past_end_gives_empty_string_and_unterminated_runs_to_end() {
    let mut data = Vec::new();
    data.extend_from_slice(&make_u32_le(2));
    data.extend_from_slice(&make_u32_le(1000));
    data.extend_from_slice(&make_u32_le(12));
    data.extend_from_slice(b"Tail");
    let table = StringTable::from_bytes(&data);
    assert_eq!(table.len(), 2);
    assert_eq!(table.get(0), Some(""));
    assert_eq!(table.get(1), Some("Tail"));
}

#[test]
fn truncated_offset_list_gives_empty_table() {
    let mut data = Vec::new();
    data.extend_from_slice(&make_u32_le(3));
    data.extend_from_slice(&make_u32_le(16));
    let table = StringTable::from_bytes(&data);
    assert!(table.is_empty());
}
