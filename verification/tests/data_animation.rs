use pop3::data::animation::atlas::{build_multi_anim_atlas, build_tribe_atlas, compute_global_bbox, composite_frame, discover_unit_combos};
use pop3::data::animation::direct::{build_direct_multi_anim_atlas, build_direct_sprite_atlas, SHAMAN_ANIMS};
use pop3::data::animation::sprites::SpriteBank;
use pop3::data::animation::{
    anim_shape, should_render_element, unit_combo_for_subtype, AnimationElement, AnimationFrame, AnimationSequence,
    ElementRotate, VeleRaw,
};

fn elem(sprite_index: usize, x: i16, y: i16, tribe: u8, uvar5: u16, flags: u16) -> AnimationElement {
    AnimationElement { sprite_index, coord_x: x, coord_y: y, tribe, flags, uvar5, original_flags: flags }
}

fn frame(sprites: Vec<AnimationElement>) -> AnimationFrame {
    AnimationFrame { index: 0, width: 0, height: 0, sprites }
}

fn seq(index: usize, frames: Vec<AnimationFrame>) -> AnimationSequence {
    AnimationSequence { index, frames }
}

fn palette() -> Vec<[u8; 4]> {
    vec![[0, 0, 0, 0], [1, 2, 3, 4], [5, 6, 7, 8], [10, 20, 30, 40]]
}

fn px(rgba: &[u8], w: usize, x: usize, y: usize) -> [u8; 4] {
    let o = (y * w + x) * 4;
    [rgba[o], rgba[o + 1], rgba[o + 2], rgba[o + 3]]
}

#[test]
fn anim_shape_reads_the_table_and_defaults_past_it() {
    assert_eq!(anim_shape(0), (8, 13));
    assert_eq!(anim_shape(15), (48, 14));
    assert_eq!(anim_shape(20), (424, 14));
    assert_eq!(anim_shape(161), (0, 13));
    assert_eq!(anim_shape(1000), (0, 13));
}

#[test]
fn unit_combo_selects_the_type_layer_of_each_subtype() {
    assert_eq!(unit_combo_for_subtype(2), None);
    assert_eq!(unit_combo_for_subtype(3), Some((2, 2)));
    assert_eq!(unit_combo_for_subtype(4), Some((3, 1)));
    assert_eq!(unit_combo_for_subtype(5), Some((2, 3)));
    assert_eq!(unit_combo_for_subtype(6), Some((2, 1)));
    assert_eq!(unit_combo_for_subtype(7), None);
}

#[test]
fn elements_render_by_layer() {
    let common = elem(0, 0, 0, 3, 0, 0);
    let tribal = elem(0, 0, 0, 2, 1, 0);
    let typed = elem(0, 0, 0, 2, 3, 0);
    assert!(should_render_element(&common, 0, None));
    assert!(should_render_element(&tribal, 2, None));
    assert!(!should_render_element(&tribal, 1, None));
    assert!(should_render_element(&typed, 0, Some((3, 2))));
    assert!(!should_render_element(&typed, 0, Some((3, 1))));
    assert!(!should_render_element(&typed, 0, None));
}

#[test]
fn element_rotation_comes_from_the_low_flag_bits() {
    assert!(matches!(elem(0, 0, 0, 0, 0, 1).get_rotate(), ElementRotate::RotateHorizontal));
    assert!(matches!(elem(0, 0, 0, 0, 0, 3).get_rotate(), ElementRotate::RotateHorizontal));
    assert!(matches!(elem(0, 0, 0, 0, 0, 2).get_rotate(), ElementRotate::RotateVertical));
    assert!(matches!(elem(0, 0, 0, 0, 0, 4).get_rotate(), ElementRotate::NoRotate));
}

#[test]
fn element_chain_follows_next_indices_until_zero() {
    let vele = vec![
        VeleRaw { sprite_index: 0, coord_x: 0, coord_y: 0, flags: 0, next_index: 0 },
        VeleRaw { sprite_index: 12, coord_x: -3, coord_y: 4, flags: (2 << 9) | (1 << 4) | 1, next_index: 2 },
        VeleRaw { sprite_index: 6, coord_x: 5, coord_y: 6, flags: 0, next_index: 0 },
    ];
    let elems = AnimationElement::from_data(1, &vele);
    assert_eq!(elems.len(), 2);
    assert_eq!(elems[0].sprite_index, 1);
    assert_eq!(elems[0].coord_x, -3);
    assert_eq!(elems[0].tribe, 2);
    assert_eq!(elems[0].uvar5, 1);
    assert_eq!(elems[0].flags, 17);
    assert_eq!(elems[1].sprite_index, 0);
    assert!(AnimationElement::from_data(0, &vele).is_empty());
}

#[test]
fn permutations_pair_each_tribe_layer_with_each_type_layer() {
    let f = frame(vec![elem(0, 0, 0, 0, 0, 0), elem(1, 0, 0, 0, 1, 0), elem(2, 0, 0, 1, 1, 0), elem(3, 0, 0, 1, 2, 0)]);
    let all = f.get_permutations(true, true);
    assert_eq!(all.len(), 2);
    assert_eq!(all[0].len(), 3);
    assert_eq!(all[0][1].sprite_index, 1);
    assert_eq!(all[1][1].sprite_index, 2);
    assert_eq!(all[1][2].sprite_index, 3);
    let common_only = f.get_permutations(false, false);
    assert_eq!(common_only.len(), 1);
    assert_eq!(common_only[0].len(), 1);
}

#[test]
fn sprite_bank_refuses_pixels_of_the_wrong_size() {
    let mut bank = SpriteBank::new();
    assert!(bank.add(2, 1, vec![1, 2]));
    assert!(!bank.add(2, 2, vec![1, 2]));
    assert_eq!(bank.len(), 1);
    let info = bank.get_info(0).unwrap();
    assert_eq!((info.width, info.height), (2, 1));
    assert!(bank.get_info(1).is_none());
    assert!(bank.get_image(1).is_none());
}

#[test]
fn composite_draws_later_elements_over_earlier_ones() {
    let mut bank = SpriteBank::new();
    bank.add(2, 1, vec![3, 255]);
    bank.add(1, 1, vec![7]);
    let elems = vec![elem(0, 1, 0, 0, 0, 0), elem(1, 2, 0, 0, 0, 0), elem(1, 0, 1, 0, 0, 1)];
    let rgba = composite_frame(&elems, &bank, &palette(), 0, None, 4, 2, 0, 0);
    assert_eq!(rgba.len(), 4 * 2 * 4);
    assert_eq!(px(&rgba, 4, 1, 0), [10, 20, 30, 255]);
    // Past the palette: magenta.
    assert_eq!(px(&rgba, 4, 2, 0), [255, 0, 255, 255]);
    assert_eq!(px(&rgba, 4, 0, 0), [0, 0, 0, 0]);
    assert_eq!(px(&rgba, 4, 0, 1), [255, 0, 255, 255]);
    assert_eq!(px(&rgba, 4, 3, 1), [0, 0, 0, 0]);
}

#[test]
fn composite_mirrors_horizontally_flagged_elements() {
    let mut bank = SpriteBank::new();
    bank.add(2, 1, vec![1, 3]);
    let rgba = composite_frame(&[elem(0, 0, 0, 0, 0, 1)], &bank, &palette(), 0, None, 2, 1, 0, 0);
    assert_eq!(px(&rgba, 2, 0, 0), [10, 20, 30, 255]);
    assert_eq!(px(&rgba, 2, 1, 0), [1, 2, 3, 255]);
}

#[test]
fn global_bbox_grows_from_the_unit_box() {
    let mut bank = SpriteBank::new();
    bank.add(3, 2, vec![0; 6]);
    let seqs = vec![seq(0, vec![frame(vec![elem(0, -2, 1, 0, 0, 0)])]), seq(1, vec![frame(vec![elem(5, 9, 9, 0, 0, 0)])])];
    assert_eq!(compute_global_bbox(&seqs, &bank), (-2, 0, 1, 3));
    assert_eq!(compute_global_bbox(&[], &bank), (0, 0, 1, 1));
}

#[test]
fn unit_combos_are_found_sorted_and_once() {
    let seqs = vec![
        seq(0, vec![frame(vec![elem(0, 0, 0, 2, 3, 0), elem(0, 0, 0, 1, 2, 0)])]),
        seq(1, vec![frame(vec![elem(0, 0, 0, 1, 2, 0), elem(0, 0, 0, 0, 1, 0)])]),
    ];
    assert_eq!(discover_unit_combos(&seqs, 0), vec![(2, 1), (3, 2)]);
    assert!(discover_unit_combos(&seqs, 7).is_empty());
}

fn five_directions(frames_per_dir: usize, sprite: usize) -> Vec<AnimationSequence> {
    (0..5)
        .map(|d| seq(d, (0..frames_per_dir).map(|_| frame(vec![elem(sprite, 0, 0, 0, 0, 0)])).collect()))
        .collect()
}

#[test]
fn tribe_atlas_has_a_row_per_tribe_and_direction() {
    let mut bank = SpriteBank::new();
    bank.add(2, 2, vec![3, 3, 3, 255]);
    let seqs = five_directions(1, 0);
    let (w, h, rgba, fw, fh, frames, bottom) = build_tribe_atlas(&seqs, &bank, &palette(), 0, None, None).unwrap();
    assert_eq!((w, h, fw, fh, frames, bottom), (2, 40, 2, 2, 1, 2));
    assert_eq!(rgba.len(), 2 * 40 * 4);
    for row in 0..20 {
        assert_eq!(px(&rgba, 2, 0, row * 2), [10, 20, 30, 255]);
        assert_eq!(px(&rgba, 2, 1, row * 2 + 1), [0, 0, 0, 0]);
    }
}

#[test]
fn tribe_atlas_repeats_short_directions_and_honours_overrides() {
    let mut bank = SpriteBank::new();
    bank.add(1, 1, vec![2]);
    let mut seqs = five_directions(2, 0);
    seqs[3].frames.truncate(1);
    let (w, h, rgba, fw, fh, frames, bottom) =
        build_tribe_atlas(&seqs, &bank, &palette(), 0, Some(None), Some((0, 0, 3, 1))).unwrap();
    assert_eq!((w, h, fw, fh, frames, bottom), (6, 20, 3, 1, 2, 1));
    // Direction 3 of tribe 0 has one frame: column 1 repeats it.
    assert_eq!(px(&rgba, 6, 3, 3), [5, 6, 7, 255]);
    assert_eq!(px(&rgba, 6, 4, 3), [0, 0, 0, 0]);
}

#[test]
fn tribe_atlas_without_frames_is_none() {
    let bank = SpriteBank::new();
    assert!(build_tribe_atlas(&[], &bank, &palette(), 0, None, None).is_none());
    let seqs = five_directions(0, 0);
    assert!(build_tribe_atlas(&seqs, &bank, &palette(), 0, None, None).is_none());
}

#[test]
fn multi_anim_atlas_lays_animations_side_by_side() {
    let mut bank = SpriteBank::new();
    bank.add(1, 1, vec![1]);
    bank.add(1, 1, vec![3]);
    // Animation 1 starts at sequence 0 and animation 0 at sequence 8.
    let mut seqs = five_directions(1, 0);
    seqs.extend((5..8).map(|i| seq(i, vec![])));
    seqs.extend((8..13).map(|i| seq(i, vec![frame(vec![elem(1, 0, 0, 0, 0, 0)]), frame(vec![])])));
    let (w, h, rgba, fw, fh, cols, offsets, bottom) =
        build_multi_anim_atlas(&seqs, &bank, &palette(), &[1, 2, 0], None).unwrap();
    assert_eq!((w, h, fw, fh, cols, bottom), (3, 20, 1, 1, 3, 1));
    assert_eq!(offsets, vec![(1, 0, 1), (0, 1, 2)]);
    assert_eq!(px(&rgba, 3, 0, 0), [1, 2, 3, 255]);
    assert_eq!(px(&rgba, 3, 1, 0), [10, 20, 30, 255]);
    assert_eq!(px(&rgba, 3, 2, 0), [0, 0, 0, 0]);
    assert!(build_multi_anim_atlas(&seqs, &bank, &palette(), &[], None).is_none());
    assert!(build_multi_anim_atlas(&seqs, &bank, &palette(), &[2], None).is_none());
}

fn direct_bank() -> SpriteBank {
    let mut bank = SpriteBank::new();
    for i in 0..20 {
        if i == 7 {
            bank.add(3, 2, vec![1, 1, 1, 1, 1, 255]);
        } else {
            bank.add(1, 1, vec![3]);
        }
    }
    bank
}

#[test]
fn direct_sprite_atlas_centres_each_sprite_in_its_cell() {
    let bank = direct_bank();
    let (w, h, rgba, fw, fh, frames, below) = build_direct_sprite_atlas(&bank, &palette(), &[0, 5, 10, 15], 1).unwrap();
    assert_eq!((w, h, fw, fh, frames, below), (3, 40, 3, 2, 1, 0));
    // A 1x1 sprite sits at column (3 - 1) / 2 = 1, row (2 - 1) / 2 = 0.
    assert_eq!(px(&rgba, 3, 1, 0), [10, 20, 30, 255]);
    assert_eq!(px(&rgba, 3, 0, 0), [0, 0, 0, 0]);
    // Sprite 7 is tribe 1, direction 2: row 7.
    assert_eq!(px(&rgba, 3, 0, 14), [1, 2, 3, 255]);
    assert_eq!(px(&rgba, 3, 2, 15), [0, 0, 0, 0]);
    assert!(build_direct_sprite_atlas(&bank, &palette(), &[0, 5, 10, 15], 0).is_none());
    assert!(build_direct_sprite_atlas(&SpriteBank::new(), &palette(), &[0, 5, 10, 15], 1).is_none());
}

#[test]
fn direct_multi_atlas_shares_the_cell_size() {
    let bank = direct_bank();
    let anims = [(20u16, [0u16, 5, 10, 15], 1usize), (26u16, [0u16, 0, 0, 0], 2usize)];
    let (w, h, rgba, fw, fh, cols, offsets, below) = build_direct_multi_anim_atlas(&bank, &palette(), &anims).unwrap();
    assert_eq!((w, h, fw, fh, cols, below), (9, 40, 3, 2, 3, 0));
    assert_eq!(offsets, vec![(20, 0, 1), (26, 1, 2)]);
    assert_eq!(px(&rgba, 9, 4, 0), [10, 20, 30, 255]);
    assert!(build_direct_multi_anim_atlas(&bank, &palette(), &[]).is_none());
    assert_eq!(SHAMAN_ANIMS[1].2, 8);
}
