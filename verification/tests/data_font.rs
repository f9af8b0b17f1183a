use pop3::data::font::FontData;

/// A stand-in for the game's 8x8 font: blank glyphs except 'A', '!' and '~'.
fn font_8x8() -> [[u8; 8]; 96] {
    let mut f = [[0u8; 8]; 96];
    f[(b'A' - 32) as usize] = [0x18, 0x3C, 0x66, 0x66, 0x7E, 0x66, 0x66, 0x00];
    f[(b'!' - 32) as usize] = [0x18, 0x18, 0x18, 0x18, 0x18, 0x00, 0x18, 0x00];
    f[(b'~' - 32) as usize] = [0x76, 0xDC, 0x00, 0x00, 0x00, 0x00, 0x00, 0x00];
    f
}

#[test]
fn from_8x8_bitmap_creates_96_glyphs() {
    let font = FontData::from_8x8_bitmap(&font_8x8());
    assert_eq!(font.glyph_count(), 96);
    assert_eq!(font.glyph_width, 8);
    assert_eq!(font.glyph_height, 8);
}

#[test]
fn glyph_a_is_non_empty() {
    let font = FontData::from_8x8_bitmap(&font_8x8());
    let g = font.glyph(b'A');
    assert_eq!(g.width, 8);
    assert_eq!(g.height, 8);
    assert!(g.bitmap.iter().any(|&p| p == 255));
}

#[test]
fn control_chars_return_blank() {
    let font = FontData::from_8x8_bitmap(&font_8x8());
    for ch in 0..32u8 {
        let g = font.glyph(ch);
        assert!(g.bitmap.iter().all(|&p| p == 0), "control char {} not blank", ch);
    }
}

#[test]
fn char_above_127_returns_fallback_blank() {
    let font = FontData::from_8x8_bitmap(&font_8x8());
    let g = font.glyph(200);
    assert!(g.bitmap.iter().all(|&p| p == 0));
}

#[test]
fn scaled_2_returns_16x16() {
    let font = FontData::from_8x8_bitmap(&font_8x8());
    let scaled = font.scaled(2);
    assert_eq!(scaled.glyph_width, 16);
    assert_eq!(scaled.glyph_height, 16);
    let g = scaled.glyph(b'A');
    assert_eq!(g.width, 16);
    assert_eq!(g.height, 16);
    assert_eq!(g.bitmap.len(), 16 * 16);
    assert!(g.bitmap.iter().any(|&p| p == 255));
}

#[test]
fn scaled_3_returns_24x24() {
    let font = FontData::from_8x8_bitmap(&font_8x8());
    let scaled = font.scaled(3);
    assert_eq!(scaled.glyph_width, 24);
    assert_eq!(scaled.glyph_height, 24);
    let g = scaled.glyph(b'A');
    assert_eq!(g.width, 24);
    assert_eq!(g.height, 24);
    assert_eq!(g.bitmap.len(), 24 * 24);
    assert!(g.bitmap.iter().any(|&p| p == 255));
}

#[test]
fn bits_map_to_pixels_msb_first() {
    let font = FontData::from_8x8_bitmap(&font_8x8());
    let g = font.glyph(b'!');
    // Row 0 is 0x18: pixels 3 and 4 set.
    let row0: Vec<u8> = g.bitmap[0..8].to_vec();
    assert_eq!(row0, vec![0, 0, 0, 255, 255, 0, 0, 0]);
    // Row 5 is blank.
    assert!(g.bitmap[40..48].iter().all(|&p| p == 0));
}

#[test]
fn scaling_turns_each_pixel_into_a_block() {
    let font = FontData::from_8x8_bitmap(&font_8x8());
    let scaled = font.scaled(2);
    let g = scaled.glyph(b'!');
    // Source pixel (3, 0) becomes the 2x2 block at (6..8, 0..2).
    for y in 0..2 {
        for x in 6..8 {
            assert_eq!(g.bitmap[y * 16 + x], 255);
        }
    }
    assert_eq!(g.bitmap[5], 0);
    assert_eq!(g.bitmap[16 + 10], 0);
}

#[test]
fn tilde_is_the_last_printable_glyph() {
    let font = FontData::from_8x8_bitmap(&font_8x8());
    assert!(font.glyph(b'~').bitmap.iter().any(|&p| p == 255));
    assert!(font.glyph(127).bitmap.iter().all(|&p| p == 0));
}
