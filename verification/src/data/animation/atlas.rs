//! Compositing animation frames from their sprite layers, and laying frames
//! out in sprite atlases: rows of tribes and directions, columns of frames.

use vstd::prelude::*;

use super::sprites::{palette_color, SpriteBank, SpriteImage};
use super::{
    anim_shape, anim_shape_spec, is_type_specific_spec, should_render_element, should_render_spec, AnimationElement,
    AnimationSequence,
};

verus! {

/// The colour element `e` gives pixel (`px`, `py`) of a frame whose top-left
/// corner sits at (`ox`, `oy`) in element coordinates, or `None` where it
/// leaves the pixel as it is: it is not drawn for this tribe and type, its
/// sprite is missing, the pixel is outside its (possibly mirrored) sprite,
/// or the sprite pixel there is transparent (255).
pub open spec fn element_paint(
    e: AnimationElement,
    images: Seq<(u16, u16, Seq<u8>)>,
    palette: Seq<[u8; 4]>,
    tribe: u8,
    combo: Option<(u16, u16)>,
    ox: int,
    oy: int,
    px: int,
    py: int,
) -> Option<[u8; 4]> {
    if !should_render_spec(e, tribe, combo) || e.sprite_index >= images.len() {
        None
    } else {
        let im = images[e.sprite_index as int];
        let w = im.0 as int;
        let h = im.1 as int;
        let lx = px - (e.coord_x - ox);
        let ly = py - (e.coord_y - oy);
        if !(0 <= lx < w && 0 <= ly < h) {
            None
        } else {
            let sx = if e.flags & 1 != 0 { w - 1 - lx } else { lx };
            let sy = if e.flags & 1 == 0 && e.flags & 2 != 0 { h - 1 - ly } else { ly };
            let src = im.2[sy * w + sx];
            if src == 255 {
                None
            } else {
                let c = palette_color(palette, src as int);
                Some([c[0], c[1], c[2], 255u8])
            }
        }
    }
}

/// Pixel (`px`, `py`) after drawing the first `k` elements, later elements
/// over earlier ones, on a transparent black frame.
pub open spec fn composite_pixel(
    elems: Seq<AnimationElement>,
    images: Seq<(u16, u16, Seq<u8>)>,
    palette: Seq<[u8; 4]>,
    tribe: u8,
    combo: Option<(u16, u16)>,
    ox: int,
    oy: int,
    k: int,
    px: int,
    py: int,
) -> [u8; 4]
    decreases k,
{
    if k <= 0 {
        [0u8, 0u8, 0u8, 0u8]
    } else {
        match element_paint(elems[k - 1], images, palette, tribe, combo, ox, oy, px, py) {
            Some(c) => c,
            None => composite_pixel(elems, images, palette, tribe, combo, ox, oy, k - 1, px, py),
        }
    }
}

/// Whether a frame image of `fw` x `fh` RGBA pixels holds, at each pixel,
/// the composite of `elems`.
pub open spec fn is_composite(
    rgba: Seq<u8>,
    elems: Seq<AnimationElement>,
    images: Seq<(u16, u16, Seq<u8>)>,
    palette: Seq<[u8; 4]>,
    tribe: u8,
    combo: Option<(u16, u16)>,
    fw: int,
    fh: int,
    ox: int,
    oy: int,
) -> bool {
    &&& rgba.len() == fw * fh * 4
    &&& forall|px: int, py: int, c: int|
        0 <= px < fw && 0 <= py < fh && 0 <= c < 4 ==> #[trigger] rgba[(py * fw + px) * 4 + c] == composite_pixel(
            elems,
            images,
            palette,
            tribe,
            combo,
            ox,
            oy,
            elems.len() as int,
            px,
            py,
        )[c]
}

fn element_color(
    e: &AnimationElement,
    container: &SpriteBank,
    palette: &[[u8; 4]],
    tribe: u8,
    unit_combo: Option<(u16, u16)>,
    offset_x: i32,
    offset_y: i32,
    px: usize,
    py: usize,
) -> (r: Option<[u8; 4]>)
    requires
        container.wf(),
        px <= u32::MAX,
        py <= u32::MAX,
    ensures
        r == element_paint(*e, container.images_spec(), palette@, tribe, unit_combo, offset_x as int, offset_y as int, px as int, py as int),
{
    if !should_render_element(e, tribe, unit_combo) {
        return None;
    }
    let image: &SpriteImage = match container.get_image(e.sprite_index) {
        Some(im) => im,
        None => return None,
    };
    proof {
        container.lemma_wf_sizes();
    }
    let w = image.width as i64;
    let h = image.height as i64;
    let lx = px as i64 - (e.coord_x as i64 - offset_x as i64);
    let ly = py as i64 - (e.coord_y as i64 - offset_y as i64);
    if lx < 0 || lx >= w || ly < 0 || ly >= h {
        return None;
    }
    let sx = if e.flags & 1 != 0 { w - 1 - lx } else { lx };
    let sy = if e.flags & 1 == 0 && e.flags & 2 != 0 { h - 1 - ly } else { ly };
    assert(0 <= sy * w + sx < w * h) by (nonlinear_arith)
        requires
            0 <= sx < w,
            0 <= sy < h,
    ;
    assert(w * h <= 0xffff * 0xffff) by (nonlinear_arith)
        requires
            0 <= w <= 0xffff,
            0 <= h <= 0xffff,
    ;
    let src = image.data[(sy * w + sx) as usize];
    if src == 255 {
        return None;
    }
    let c: [u8; 4] = if (src as usize) < palette.len() { palette[src as usize] } else { [255, 0, 255, 255] };
    Some([c[0], c[1], c[2], 255])
}

fn pixel_color(
    elements: &[AnimationElement],
    container: &SpriteBank,
    palette: &[[u8; 4]],
    tribe: u8,
    unit_combo: Option<(u16, u16)>,
    offset_x: i32,
    offset_y: i32,
    px: usize,
    py: usize,
) -> (r: [u8; 4])
    requires
        container.wf(),
        px <= u32::MAX,
        py <= u32::MAX,
    ensures
        r == composite_pixel(
            elements@,
            container.images_spec(),
            palette@,
            tribe,
            unit_combo,
            offset_x as int,
            offset_y as int,
            elements@.len() as int,
            px as int,
            py as int,
        ),
{
    let mut color: [u8; 4] = [0, 0, 0, 0];
    let mut k: usize = 0;
    while k < elements.len()
        invariant
            container.wf(),
            px <= u32::MAX,
            py <= u32::MAX,
            k <= elements@.len(),
            color == composite_pixel(
                elements@,
                container.images_spec(),
                palette@,
                tribe,
                unit_combo,
                offset_x as int,
                offset_y as int,
                k as int,
                px as int,
                py as int,
            ),
        decreases elements@.len() - k,
    {
        match element_color(&elements[k], container, palette, tribe, unit_combo, offset_x, offset_y, px, py) {
            Some(c) => {
                color = c;
            },
            None => {},
        }
        k += 1;
    }
    color
}

/// Draw a frame's elements, later over earlier, into a `frame_width` x
/// `frame_height` RGBA image, element coordinates offset by
/// (`offset_x`, `offset_y`). Elements not drawn for `tribe` and
/// `unit_combo`, elements whose sprite is missing, transparent sprite pixels
/// and pixels off the frame leave the image as it was (transparent black);
/// the others take their palette colour (magenta past the palette), fully
/// opaque.
pub fn composite_frame(
    elements: &[AnimationElement],
    container: &SpriteBank,
    palette: &[[u8; 4]],
    tribe: u8,
    unit_combo: Option<(u16, u16)>,
    frame_width: usize,
    frame_height: usize,
    offset_x: i32,
    offset_y: i32,
) -> (r: Vec<u8>)
    requires
        container.wf(),
        frame_width * frame_height * 4 <= usize::MAX,
        frame_width <= u32::MAX,
        frame_height <= u32::MAX,
        forall|k: int|
            0 <= k < elements@.len() && should_render_spec(#[trigger] elements@[k], tribe, unit_combo)
                && elements@[k].sprite_index < container.images_spec().len() ==> i32::MIN <= elements@[k].coord_x
                - offset_x <= i32::MAX && i32::MIN <= elements@[k].coord_y - offset_y <= i32::MAX,
    ensures
        is_composite(
            r@,
            elements@,
            container.images_spec(),
            palette@,
            tribe,
            unit_combo,
            frame_width as int,
            frame_height as int,
            offset_x as int,
            offset_y as int,
        ),
{
    let fw = frame_width;
    let fh = frame_height;
    let ghost n = elements@.len() as int;
    let ghost images = container.images_spec();
    let mut rgba: Vec<u8> = Vec::new();
    let mut py: usize = 0;
    while py < fh
        invariant
            container.wf(),
            images == container.images_spec(),
            n == elements@.len(),
            fw * fh * 4 <= usize::MAX,
            fw <= u32::MAX,
            fh <= u32::MAX,
            py <= fh,
            rgba@.len() == py * fw * 4,
            forall|x: int, y: int, c: int|
                0 <= x < fw && 0 <= y < py && 0 <= c < 4 ==> #[trigger] rgba@[(y * fw + x) * 4 + c] == composite_pixel(
                    elements@,
                    images,
                    palette@,
                    tribe,
                    unit_combo,
                    offset_x as int,
                    offset_y as int,
                    n,
                    x,
                    y,
                )[c],
        decreases fh - py,
    {
        let mut px: usize = 0;
        while px < fw
            invariant
                container.wf(),
                images == container.images_spec(),
                n == elements@.len(),
                fw * fh * 4 <= usize::MAX,
                fw <= u32::MAX,
                fh <= u32::MAX,
                py < fh,
                px <= fw,
                rgba@.len() == (py * fw + px) * 4,
                forall|x: int, y: int, c: int|
                    0 <= x < fw && 0 <= y < fh && (y < py || (y == py && x < px)) && 0 <= c < 4
                        ==> #[trigger] rgba@[(y * fw + x) * 4 + c] == composite_pixel(
                        elements@,
                        images,
                        palette@,
                        tribe,
                        unit_combo,
                        offset_x as int,
                        offset_y as int,
                        n,
                        x,
                        y,
                    )[c],
            decreases fw - px,
        {
            let color = pixel_color(elements, container, palette, tribe, unit_combo, offset_x, offset_y, px, py);
            let ghost before = rgba@;
            proof {
                lemma_pixel_index_bound(px as int, py as int, fw as int, fh as int);
            }
            rgba.push(color[0]);
            rgba.push(color[1]);
            rgba.push(color[2]);
            rgba.push(color[3]);
            proof {
                assert forall|x: int, y: int, c: int|
                    0 <= x < fw && 0 <= y < fh && (y < py || (y == py && x < px + 1)) && 0 <= c < 4
                        implies #[trigger] rgba@[(y * fw + x) * 4 + c] == composite_pixel(
                        elements@,
                        images,
                        palette@,
                        tribe,
                        unit_combo,
                        offset_x as int,
                        offset_y as int,
                        n,
                        x,
                        y,
                    )[c] by {
                    lemma_pixel_order(x, y, px as int, py as int, fw as int);
                    if y == py && x == px {
                        assert(rgba@[(y * fw + x) * 4 + c] == color[c]);
                    } else {
                        assert(rgba@[(y * fw + x) * 4 + c] == before[(y * fw + x) * 4 + c]);
                    }
                }
            }
            px += 1;
        }
        proof {
            assert(rgba@.len() == (py + 1) * fw * 4) by (nonlinear_arith)
                requires
                    rgba@.len() == (py * fw + fw) * 4,
            ;
        }
        py += 1;
    }
    proof {
        assert(rgba@.len() == fw * fh * 4) by (nonlinear_arith)
            requires
                rgba@.len() == py * fw * 4,
                py == fh,
        ;
    }
    rgba
}

/// The byte index of a pixel fits the image.
proof fn lemma_pixel_index_bound(px: int, py: int, fw: int, fh: int)
    requires
        0 <= px < fw,
        0 <= py < fh,
    ensures
        (py * fw + px) * 4 + 4 <= fw * fh * 4,
{
    assert((py * fw + px) * 4 + 4 <= fw * fh * 4) by (nonlinear_arith)
        requires
            0 <= px < fw,
            0 <= py < fh,
    ;
}

/// Pixels before (`px`, `py`) in row order lie below its first byte, and
/// (`px`, `py`) itself starts at byte `(py * fw + px) * 4`.
proof fn lemma_pixel_order(x: int, y: int, px: int, py: int, fw: int)
    requires
        0 <= x < fw,
        0 <= y,
        0 <= px < fw,
        y < py || (y == py && x <= px),
    ensures
        y * fw + x <= py * fw + px,
        (y * fw + x == py * fw + px) <==> (y == py && x == px),
{
    if y < py {
        assert(y * fw + x < py * fw + px) by (nonlinear_arith)
            requires
                y < py,
                0 <= x < fw,
                0 <= px,
        ;
    }
}

/// A bounding box (min x, min y, max x, max y).
pub type BBox = (i32, i32, i32, i32);

/// Whether a bounding box lies within what sprites at 16-bit coordinates
/// can reach.
pub open spec fn bbox_in_range(b: BBox) -> bool {
    &&& -0x8000 <= b.0 <= 0x1_7fff
    &&& -0x8000 <= b.1 <= 0x1_7fff
    &&& -0x8000 <= b.2 <= 0x1_7fff
    &&& -0x8000 <= b.3 <= 0x1_7fff
}

/// Whether an element counts towards a bounding box: with no filter every
/// element does; with a filter, type-specific elements count only when they
/// are the filter's (layer, tribe field) pair.
pub open spec fn bbox_counts(e: AnimationElement, filter: Option<Option<(u16, u16)>>) -> bool {
    match filter {
        None => true,
        Some(combo) => !is_type_specific_spec(e) || match combo {
            Some((layer, high)) => e.uvar5 == layer && e.tribe as u16 == high,
            None => false,
        },
    }
}

/// A bounding box grown to hold element `e`'s sprite, when it counts and its
/// sprite exists.
pub open spec fn bbox_step(acc: BBox, e: AnimationElement, images: Seq<(u16, u16, Seq<u8>)>, filter: Option<Option<(u16, u16)>>) -> BBox {
    if bbox_counts(e, filter) && e.sprite_index < images.len() {
        let im = images[e.sprite_index as int];
        let ex = e.coord_x as i32;
        let ey = e.coord_y as i32;
        let rx = (e.coord_x + im.0) as i32;
        let ry = (e.coord_y + im.1) as i32;
        (
            if ex < acc.0 { ex } else { acc.0 },
            if ey < acc.1 { ey } else { acc.1 },
            if rx > acc.2 { rx } else { acc.2 },
            if ry > acc.3 { ry } else { acc.3 },
        )
    } else {
        acc
    }
}

/// A bounding box grown over the first `k` elements.
pub open spec fn bbox_elems(acc: BBox, s: Seq<AnimationElement>, k: int, images: Seq<(u16, u16, Seq<u8>)>, filter: Option<Option<(u16, u16)>>) -> BBox
    decreases k,
{
    if k <= 0 {
        acc
    } else {
        bbox_step(bbox_elems(acc, s, k - 1, images, filter), s[k - 1], images, filter)
    }
}

/// A bounding box grown over the elements of the first `k` frames.
pub open spec fn bbox_frames(
    acc: BBox,
    fs: Seq<Seq<AnimationElement>>,
    k: int,
    images: Seq<(u16, u16, Seq<u8>)>,
    filter: Option<Option<(u16, u16)>>,
) -> BBox
    decreases k,
{
    if k <= 0 {
        acc
    } else {
        let prev = bbox_frames(acc, fs, k - 1, images, filter);
        bbox_elems(prev, fs[k - 1], fs[k - 1].len() as int, images, filter)
    }
}

/// The elements of each frame of a sequence.
pub open spec fn frame_elements(s: AnimationSequence) -> Seq<Seq<AnimationElement>> {
    s.frames@.map_values(|f: super::AnimationFrame| f.sprites@)
}

/// A bounding box grown over the frames of the first `k` sequences.
pub open spec fn bbox_seqs(
    acc: BBox,
    ss: Seq<AnimationSequence>,
    k: int,
    images: Seq<(u16, u16, Seq<u8>)>,
    filter: Option<Option<(u16, u16)>>,
) -> BBox
    decreases k,
{
    if k <= 0 {
        acc
    } else {
        let prev = bbox_seqs(acc, ss, k - 1, images, filter);
        bbox_frames(prev, frame_elements(ss[k - 1]), frame_elements(ss[k - 1]).len() as int, images, filter)
    }
}

fn grow_bbox(acc: BBox, elems: &[AnimationElement], container: &SpriteBank, filter: Option<Option<(u16, u16)>>) -> (r: BBox)
    requires
        bbox_in_range(acc),
    ensures
        bbox_in_range(r),
        r == bbox_elems(acc, elems@, elems@.len() as int, container.images_spec(), filter),
{
    let mut b = acc;
    let mut k: usize = 0;
    while k < elems.len()
        invariant
            k <= elems@.len(),
            bbox_in_range(b),
            b == bbox_elems(acc, elems@, k as int, container.images_spec(), filter),
        decreases elems@.len() - k,
    {
        let e = elems[k];
        let counts = match filter {
            None => true,
            Some(combo) => !e.is_type_specific() || match combo {
                Some((layer, high)) => e.uvar5 == layer && e.tribe as u16 == high,
                None => false,
            },
        };
        if counts {
            match container.get_info(e.sprite_index) {
                Some(info) => {
                    let ex = e.coord_x as i32;
                    let ey = e.coord_y as i32;
                    let rx = e.coord_x as i32 + info.width as i32;
                    let ry = e.coord_y as i32 + info.height as i32;
                    b = (
                        if ex < b.0 { ex } else { b.0 },
                        if ey < b.1 { ey } else { b.1 },
                        if rx > b.2 { rx } else { b.2 },
                        if ry > b.3 { ry } else { b.3 },
                    );
                },
                None => {},
            }
        }
        k += 1;
    }
    b
}

/// The bounding box, from (0, 0, 1, 1) on, of every element's sprite in
/// every frame of every sequence.
pub fn compute_global_bbox(sequences: &[AnimationSequence], container: &SpriteBank) -> (r: BBox)
    ensures
        r == bbox_seqs((0i32, 0i32, 1i32, 1i32), sequences@, sequences@.len() as int, container.images_spec(), None),
{
    let mut b: BBox = (0, 0, 1, 1);
    let mut i: usize = 0;
    while i < sequences.len()
        invariant
            i <= sequences@.len(),
            bbox_in_range(b),
            b == bbox_seqs((0i32, 0i32, 1i32, 1i32), sequences@, i as int, container.images_spec(), None),
        decreases sequences@.len() - i,
    {
        let frames = &sequences[i].frames;
        let ghost start = b;
        let mut j: usize = 0;
        while j < frames.len()
            invariant
                j <= frames@.len(),
                frames@ == sequences@[i as int].frames@,
                bbox_in_range(b),
                b == bbox_frames(start, frame_elements(sequences@[i as int]), j as int, container.images_spec(), None),
            decreases frames@.len() - j,
        {
            b = grow_bbox(b, frames[j].sprites.as_slice(), container, None);
            j += 1;
        }
        i += 1;
    }
    b
}

/// The elements of the first `k` frames, one frame after another.
pub open spec fn frames_concat(fs: Seq<Seq<AnimationElement>>, k: int) -> Seq<AnimationElement>
    decreases k,
{
    if k <= 0 {
        Seq::empty()
    } else {
        frames_concat(fs, k - 1) + fs[k - 1]
    }
}

/// The elements of the first `d` stored directions of the animation that
/// starts at sequence `base`, skipping directions past the sequences.
pub open spec fn dirs_concat(seqs: Seq<AnimationSequence>, base: int, d: int) -> Seq<AnimationElement>
    decreases d,
{
    if d <= 0 {
        Seq::empty()
    } else {
        dirs_concat(seqs, base, d - 1) + (if base + d - 1 < seqs.len() {
            frames_concat(frame_elements(seqs[base + d - 1]), frame_elements(seqs[base + d - 1]).len() as int)
        } else {
            Seq::empty()
        })
    }
}

/// The (layer, tribe field) pairs of the type-specific elements of `s`.
pub open spec fn type_combos(s: Seq<AnimationElement>) -> Set<(u16, u16)> {
    Set::new(|c: (u16, u16)| exists|i: int| 0 <= i < s.len() && #[trigger] is_type_specific_spec(s[i]) && c == (s[i].uvar5, s[i].tribe as u16))
}

/// Lexicographic order of pairs.
pub open spec fn pair_lt(a: (u16, u16), b: (u16, u16)) -> bool {
    a.0 < b.0 || (a.0 == b.0 && a.1 < b.1)
}

/// Strictly increasing pairs.
pub open spec fn strictly_sorted(v: Seq<(u16, u16)>) -> bool {
    forall|i: int, j: int| 0 <= i < j < v.len() ==> pair_lt(#[trigger] v[i], #[trigger] v[j])
}

fn pair_less(a: (u16, u16), b: (u16, u16)) -> (r: bool)
    ensures
        r == pair_lt(a, b),
{
    a.0 < b.0 || (a.0 == b.0 && a.1 < b.1)
}

fn insert_sorted(v: &mut Vec<(u16, u16)>, c: (u16, u16))
    requires
        strictly_sorted(old(v)@),
    ensures
        strictly_sorted(final(v)@),
        final(v)@.to_set() == old(v)@.to_set().insert(c),
{
    let mut p: usize = 0;
    while p < v.len() && pair_less(v[p], c)
        invariant
            p <= v@.len(),
            strictly_sorted(v@),
            *v == *old(v),
            forall|i: int| 0 <= i < p ==> pair_lt(#[trigger] v@[i], c),
        decreases v@.len() - p,
    {
        p += 1;
    }
    if p < v.len() && v[p].0 == c.0 && v[p].1 == c.1 {
        assert(v@.to_set() =~= v@.to_set().insert(c)) by {
            assert(v@.contains(c)) by {
                assert(v@[p as int] == c);
            }
        }
        return;
    }
    let ghost before = v@;
    v.insert(p, c);
    assert(v@ =~= before.subrange(0, p as int).push(c) + before.subrange(p as int, before.len() as int));
    assert forall|i: int, j: int| 0 <= i < j < v@.len() implies pair_lt(#[trigger] v@[i], #[trigger] v@[j]) by {
        if j < p {
        } else if j == p {
        } else if i < p {
            assert(pair_lt(before[i], c));
            if p < before.len() {
                assert(pair_lt(c, before[p as int]) || c == before[p as int]);
            }
        } else if i == p {
            assert(!pair_lt(before[p as int], c));
            assert(before[p as int] != c);
            if j - 1 > p {
                assert(pair_lt(before[p as int], before[j - 1]));
            }
        } else {
            assert(v@[i] == before[i - 1] && v@[j] == before[j - 1]);
        }
    }
    assert(v@.to_set() =~= before.to_set().insert(c)) by {
        assert forall|x: (u16, u16)| v@.to_set().contains(x) <==> before.to_set().insert(c).contains(x) by {
            if v@.contains(x) {
                let k = choose|k: int| 0 <= k < v@.len() && v@[k] == x;
                if k < p {
                    assert(before[k] == x);
                } else if k > p {
                    assert(before[k - 1] == x);
                }
            }
            if before.contains(x) {
                let k = choose|k: int| 0 <= k < before.len() && before[k] == x;
                if k < p {
                    assert(v@[k] == x);
                } else {
                    assert(v@[k + 1] == x);
                }
            }
            if x == c {
                assert(v@[p as int] == c);
            }
        }
    }
}

fn push_all(out: &mut Vec<AnimationElement>, elems: &Vec<AnimationElement>)
    ensures
        final(out)@ == old(out)@ + elems@,
{
    let ghost before = out@;
    let mut i: usize = 0;
    while i < elems.len()
        invariant
            i <= elems@.len(),
            out@ == before + elems@.subrange(0, i as int),
        decreases elems@.len() - i,
    {
        out.push(elems[i]);
        i += 1;
        assert(out@ =~= before + elems@.subrange(0, i as int));
    }
    assert(elems@.subrange(0, i as int) =~= elems@);
}

fn direction_elements(sequences: &[AnimationSequence], base: usize) -> (r: Vec<AnimationElement>)
    requires
        base + super::STORED_DIRECTIONS <= usize::MAX,
    ensures
        r@ == dirs_concat(sequences@, base as int, super::STORED_DIRECTIONS as int),
{
    let mut out: Vec<AnimationElement> = Vec::new();
    let mut dir: usize = 0;
    while dir < super::STORED_DIRECTIONS
        invariant
            dir <= super::STORED_DIRECTIONS,
            base + super::STORED_DIRECTIONS <= usize::MAX,
            out@ == dirs_concat(sequences@, base as int, dir as int),
        decreases super::STORED_DIRECTIONS - dir,
    {
        let seq_idx = base + dir;
        if seq_idx < sequences.len() {
            let frames = &sequences[seq_idx].frames;
            let ghost start = out@;
            let mut j: usize = 0;
            while j < frames.len()
                invariant
                    j <= frames@.len(),
                    frames@ == sequences@[seq_idx as int].frames@,
                    out@ == start + frames_concat(frame_elements(sequences@[seq_idx as int]), j as int),
                decreases frames@.len() - j,
            {
                push_all(&mut out, &frames[j].sprites);
                j += 1;
                assert(out@ =~= start + frames_concat(frame_elements(sequences@[seq_idx as int]), j as int));
            }
        }
        dir += 1;
        assert(out@ =~= dirs_concat(sequences@, base as int, dir as int));
    }
    out
}

/// The (layer, tribe field) pairs of the type-specific elements in the five
/// stored directions of the animation starting at sequence `base`, each
/// once, in increasing order.
pub fn discover_unit_combos(sequences: &[AnimationSequence], base: usize) -> (r: Vec<(u16, u16)>)
    requires
        base + super::STORED_DIRECTIONS <= usize::MAX,
    ensures
        strictly_sorted(r@),
        r@.to_set() == type_combos(dirs_concat(sequences@, base as int, super::STORED_DIRECTIONS as int)),
{
    let elems = direction_elements(sequences, base);
    let mut combos: Vec<(u16, u16)> = Vec::new();
    let mut i: usize = 0;
    while i < elems.len()
        invariant
            i <= elems@.len(),
            strictly_sorted(combos@),
            combos@.to_set() == type_combos(elems@.subrange(0, i as int)),
        decreases elems@.len() - i,
    {
        let e = elems[i];
        let ghost before = combos@.to_set();
        if e.is_type_specific() {
            insert_sorted(&mut combos, (e.uvar5, e.tribe as u16));
        }
        i += 1;
        assert(combos@.to_set() =~= type_combos(elems@.subrange(0, i as int))) by {
            assert forall|c: (u16, u16)| type_combos(elems@.subrange(0, i as int)).contains(c) <==> combos@.to_set().contains(c) by {
                let s1 = elems@.subrange(0, i as int);
                let s0 = elems@.subrange(0, i - 1);
                if type_combos(s1).contains(c) {
                    let k = choose|k: int| 0 <= k < s1.len() && #[trigger] is_type_specific_spec(s1[k]) && c == (s1[k].uvar5, s1[k].tribe as u16);
                    if k < i - 1 {
                        assert(s0[k] == s1[k]);
                        assert(type_combos(s0).contains(c));
                    }
                }
                if type_combos(s0).contains(c) {
                    let k = choose|k: int| 0 <= k < s0.len() && #[trigger] is_type_specific_spec(s0[k]) && c == (s0[k].uvar5, s0[k].tribe as u16);
                    assert(s1[k] == s0[k]);
                }
                if is_type_specific_spec(e) && c == (e.uvar5, e.tribe as u16) {
                    assert(s1[i - 1] == e);
                }
            }
        }
    }
    assert(elems@.subrange(0, i as int) =~= elems@);
    combos
}

/// The most frames among the first `d` stored directions of the animation
/// that starts at sequence `base`.
pub open spec fn max_frames_spec(seqs: Seq<AnimationSequence>, base: int, d: int) -> int
    decreases d,
{
    if d <= 0 {
        0
    } else {
        let prev = max_frames_spec(seqs, base, d - 1);
        let here = if base + d - 1 < seqs.len() { seqs[base + d - 1].frames@.len() as int } else { 0 };
        if here > prev { here } else { prev }
    }
}

/// The least pair of a set, if any.
pub open spec fn least_pair(s: Set<(u16, u16)>) -> Option<(u16, u16)> {
    if exists|c: (u16, u16)| s.contains(c) {
        Some(choose|c: (u16, u16)| s.contains(c) && forall|d: (u16, u16)| #[trigger] s.contains(d) ==> d == c || pair_lt(c, d))
    } else {
        None
    }
}

/// The type layer an atlas is drawn with: the one asked for, or else the
/// least pair found in the animation.
pub open spec fn resolved_combo(
    seqs: Seq<AnimationSequence>,
    base: int,
    combo_override: Option<Option<(u16, u16)>>,
) -> Option<(u16, u16)> {
    match combo_override {
        Some(c) => c,
        None => least_pair(type_combos(dirs_concat(seqs, base, super::STORED_DIRECTIONS as int))),
    }
}

/// The bounding box of the stored directions of an animation, counting
/// type-specific elements only of the chosen type layer.
pub open spec fn dirs_bbox(
    start: BBox,
    seqs: Seq<AnimationSequence>,
    images: Seq<(u16, u16, Seq<u8>)>,
    base: int,
    combo: Option<(u16, u16)>,
    d: int,
) -> BBox
    decreases d,
{
    if d <= 0 {
        start
    } else {
        let prev = dirs_bbox(start, seqs, images, base, combo, d - 1);
        if base + d - 1 < seqs.len() {
            let fs = frame_elements(seqs[base + d - 1]);
            bbox_frames(prev, fs, fs.len() as int, images, Some(combo))
        } else {
            prev
        }
    }
}

/// The bounding box an atlas is sized by: the one given, or else that of
/// the animation.
pub open spec fn resolved_bbox(
    seqs: Seq<AnimationSequence>,
    images: Seq<(u16, u16, Seq<u8>)>,
    base: int,
    combo: Option<(u16, u16)>,
    bbox_override: Option<BBox>,
) -> BBox {
    match bbox_override {
        Some(b) => b,
        None => dirs_bbox((0i32, 0i32, 1i32, 1i32), seqs, images, base, combo, super::STORED_DIRECTIONS as int),
    }
}

/// A frame side from a bounding-box extent: the extent as a `u32`, at least
/// 1 and at most 512.
pub open spec fn clamp_dim(d: i32) -> u32 {
    let u = d as u32;
    if u < 1 { 1 } else if u > 512 { 512 } else { u }
}

/// Pixel (`x`, `y`) of a tribe atlas: the atlas has a row of frames per
/// tribe and stored direction (tribe-major) and a column per frame; a
/// direction with fewer frames repeats them; a direction without frames,
/// or past the sequences, stays transparent black.
pub open spec fn tribe_atlas_pixel(
    seqs: Seq<AnimationSequence>,
    images: Seq<(u16, u16, Seq<u8>)>,
    palette: Seq<[u8; 4]>,
    base: int,
    combo: Option<(u16, u16)>,
    fw: int,
    fh: int,
    min_x: int,
    min_y: int,
    x: int,
    y: int,
) -> [u8; 4] {
    let row = y / fh;
    let tribe = row / super::STORED_DIRECTIONS as int;
    let dir = row % super::STORED_DIRECTIONS as int;
    let f = x / fw;
    let si = base + dir;
    if si < seqs.len() && seqs[si].frames@.len() > 0 {
        let frame = seqs[si].frames@[f % seqs[si].frames@.len() as int];
        composite_pixel(frame.sprites@, images, palette, tribe as u8, combo, min_x, min_y, frame.sprites@.len() as int, x % fw, y % fh)
    } else {
        [0u8, 0u8, 0u8, 0u8]
    }
}

/// Whether an element is drawn for one of the four tribes.
pub open spec fn drawn_for_a_tribe(e: AnimationElement, combo: Option<(u16, u16)>) -> bool {
    should_render_spec(e, 0, combo) || should_render_spec(e, 1, combo) || should_render_spec(e, 2, combo)
        || should_render_spec(e, 3, combo)
}

/// Whether the elements a tribe atlas draws have coordinates that the
/// bounding box corner can be subtracted from within 32 bits.
pub open spec fn atlas_offsets_in_range(
    seqs: Seq<AnimationSequence>,
    images: Seq<(u16, u16, Seq<u8>)>,
    base: int,
    combo: Option<(u16, u16)>,
    min_x: int,
    min_y: int,
) -> bool {
    forall|dir: int, k: int, j: int|
        0 <= dir < super::STORED_DIRECTIONS && base + dir < seqs.len() && 0 <= k < seqs[base + dir].frames@.len()
            && 0 <= j < seqs[base + dir].frames@[k].sprites@.len()
            ==> {
            let e = #[trigger] seqs[base + dir].frames@[k].sprites@[j];
            drawn_for_a_tribe(e, combo) && e.sprite_index < images.len() ==> i32::MIN <= e.coord_x - min_x
                <= i32::MAX && i32::MIN <= e.coord_y - min_y <= i32::MAX
        }
}

/// The integers an atlas for these inputs computes fit their types.
pub open spec fn tribe_atlas_in_range(
    seqs: Seq<AnimationSequence>,
    images: Seq<(u16, u16, Seq<u8>)>,
    base: int,
    combo_override: Option<Option<(u16, u16)>>,
    bbox_override: Option<BBox>,
) -> bool {
    let combo = resolved_combo(seqs, base, combo_override);
    let b = resolved_bbox(seqs, images, base, combo, bbox_override);
    let mf = max_frames_spec(seqs, base, super::STORED_DIRECTIONS as int);
    &&& base + super::STORED_DIRECTIONS <= usize::MAX
    &&& mf <= u32::MAX
    &&& i32::MIN <= b.2 - b.0 <= i32::MAX
    &&& i32::MIN <= b.3 - b.1 <= i32::MAX
    &&& clamp_dim((b.2 - b.0) as i32) * (mf as u32) * clamp_dim((b.3 - b.1) as i32) * 20 * 4 <= u32::MAX
    &&& atlas_offsets_in_range(seqs, images, base, combo, b.0 as int, b.1 as int)
}

fn max_frames_of(sequences: &[AnimationSequence], base: usize) -> (r: usize)
    requires
        base + super::STORED_DIRECTIONS <= usize::MAX,
    ensures
        r == max_frames_spec(sequences@, base as int, super::STORED_DIRECTIONS as int),
{
    let mut m: usize = 0;
    let mut dir: usize = 0;
    while dir < super::STORED_DIRECTIONS
        invariant
            dir <= super::STORED_DIRECTIONS,
            base + super::STORED_DIRECTIONS <= usize::MAX,
            m == max_frames_spec(sequences@, base as int, dir as int),
        decreases super::STORED_DIRECTIONS - dir,
    {
        let si = base + dir;
        if si < sequences.len() {
            let n = sequences[si].frames.len();
            if n > m {
                m = n;
            }
        }
        dir += 1;
    }
    m
}

/// The first pair of a strictly increasing sequence is the least of its set.
proof fn lemma_first_is_least(v: Seq<(u16, u16)>)
    requires
        strictly_sorted(v),
    ensures
        v.len() > 0 ==> least_pair(v.to_set()) == Some(v[0]),
        v.len() == 0 ==> least_pair(v.to_set()) is None,
{
    let s = v.to_set();
    if v.len() > 0 {
        assert(s.contains(v[0]));
        assert forall|d: (u16, u16)| #[trigger] s.contains(d) implies d == v[0] || pair_lt(v[0], d) by {
            let k = choose|k: int| 0 <= k < v.len() && v[k] == d;
            if k > 0 {
                assert(pair_lt(v[0], v[k]));
            }
        }
        let c = choose|c: (u16, u16)| s.contains(c) && forall|d: (u16, u16)| #[trigger] s.contains(d) ==> d == c || pair_lt(c, d);
        assert(s.contains(v[0]) && forall|d: (u16, u16)| #[trigger] s.contains(d) ==> d == v[0] || pair_lt(v[0], d));
        if c != v[0] {
            assert(pair_lt(c, v[0]) || v[0] == c);
            assert(pair_lt(v[0], c));
        }
    } else {
        assert forall|c: (u16, u16)| !s.contains(c) by {}
    }
}

fn resolve_combo(sequences: &[AnimationSequence], base: usize, unit_combo_override: Option<Option<(u16, u16)>>) -> (r: Option<(u16, u16)>)
    requires
        base + super::STORED_DIRECTIONS <= usize::MAX,
    ensures
        r == resolved_combo(sequences@, base as int, unit_combo_override),
{
    match unit_combo_override {
        Some(c) => c,
        None => {
            let combos = discover_unit_combos(sequences, base);
            proof {
                lemma_first_is_least(combos@);
            }
            if combos.len() > 0 {
                Some(combos[0])
            } else {
                None
            }
        },
    }
}

fn bbox_of_dirs(
    start: BBox,
    sequences: &[AnimationSequence],
    container: &SpriteBank,
    base: usize,
    combo: Option<(u16, u16)>,
) -> (r: BBox)
    requires
        base + super::STORED_DIRECTIONS <= usize::MAX,
        bbox_in_range(start),
    ensures
        r == dirs_bbox(start, sequences@, container.images_spec(), base as int, combo, super::STORED_DIRECTIONS as int),
        bbox_in_range(r),
{
    let mut b: BBox = start;
    let mut dir: usize = 0;
    while dir < super::STORED_DIRECTIONS
        invariant
            dir <= super::STORED_DIRECTIONS,
            base + super::STORED_DIRECTIONS <= usize::MAX,
            bbox_in_range(b),
            b == dirs_bbox(start, sequences@, container.images_spec(), base as int, combo, dir as int),
        decreases super::STORED_DIRECTIONS - dir,
    {
        let si = base + dir;
        if si < sequences.len() {
            let frames = &sequences[si].frames;
            let ghost start = b;
            let mut j: usize = 0;
            while j < frames.len()
                invariant
                    j <= frames@.len(),
                    frames@ == sequences@[si as int].frames@,
                    bbox_in_range(b),
                    b == bbox_frames(start, frame_elements(sequences@[si as int]), j as int, container.images_spec(), Some(combo)),
                decreases frames@.len() - j,
            {
                b = grow_bbox(b, frames[j].sprites.as_slice(), container, Some(combo));
                j += 1;
            }
        }
        dir += 1;
    }
    b
}

fn clamp_dimension(d: i32) -> (r: u32)
    ensures
        r == clamp_dim(d),
        1 <= r <= 512,
{
    let u = d as u32;
    if u < 1 {
        1
    } else if u > 512 {
        512
    } else {
        u
    }
}

/// Build the atlas of one animation for all four tribes: a row per tribe
/// and stored direction, tribe-major, and a column per frame of the longest
/// direction (shorter directions repeat their frames). Frames are
/// composited with the given type layer, or else the least one the
/// animation has, and sized by the given bounding box, or else that of the
/// animation's drawn elements, each side clamped to 1..=512. `None` when
/// the animation has no frames. The result is (atlas width, atlas height,
/// RGBA pixels, frame width, frame height, frames per direction, bottom of
/// the bounding box).
pub fn build_tribe_atlas(
    sequences: &[AnimationSequence],
    container: &SpriteBank,
    palette: &[[u8; 4]],
    vstart_base: usize,
    unit_combo_override: Option<Option<(u16, u16)>>,
    bbox_override: Option<BBox>,
) -> (r: Option<(u32, u32, Vec<u8>, u32, u32, u32, i32)>)
    requires
        container.wf(),
        tribe_atlas_in_range(sequences@, container.images_spec(), vstart_base as int, unit_combo_override, bbox_override),
    ensures
        ({
            let combo = resolved_combo(sequences@, vstart_base as int, unit_combo_override);
            let b = resolved_bbox(sequences@, container.images_spec(), vstart_base as int, combo, bbox_override);
            let mf = max_frames_spec(sequences@, vstart_base as int, super::STORED_DIRECTIONS as int);
            let fw = clamp_dim((b.2 - b.0) as i32);
            let fh = clamp_dim((b.3 - b.1) as i32);
            &&& r is None <==> mf == 0
            &&& r matches Some(t) ==> {
                &&& t.0 == fw * (mf as u32)
                &&& t.1 == fh * 20
                &&& t.3 == fw
                &&& t.4 == fh
                &&& t.5 == mf as u32
                &&& t.6 == b.3
                &&& t.2@.len() == t.0 * t.1 * 4
                &&& forall|x: int, y: int, c: int|
                    0 <= x < t.0 && 0 <= y < t.1 && 0 <= c < 4 ==> #[trigger] t.2@[(y * t.0 + x) * 4 + c] == tribe_atlas_pixel(
                        sequences@,
                        container.images_spec(),
                        palette@,
                        vstart_base as int,
                        combo,
                        fw as int,
                        fh as int,
                        b.0 as int,
                        b.1 as int,
                        x,
                        y,
                    )[c]
            }
        }),
{
    let base = vstart_base;
    let max_frames = max_frames_of(sequences, base);
    if max_frames == 0 {
        return None;
    }
    let unit_combo = resolve_combo(sequences, base, unit_combo_override);
    let (min_x, min_y, max_x, max_y) = match bbox_override {
        Some(b) => b,
        None => bbox_of_dirs((0, 0, 1, 1), sequences, container, base, unit_combo),
    };
    let fw = clamp_dimension(max_x - min_x);
    let fh = clamp_dimension(max_y - min_y);
    assert(max_frames <= u32::MAX);
    let mf = max_frames as u32;
    if mf == 0 {
        return None;
    }
    proof {
        assert(fw * mf * fh * 20 * 4 <= u32::MAX);
        assert(mf * 20 <= u32::MAX) by (nonlinear_arith)
            requires
                fw * mf * fh * 20 * 4 <= u32::MAX,
                fw >= 1,
                fh >= 1,
                mf >= 1,
        ;
        assert(fw * mf <= u32::MAX && fw * mf * fh * 20 <= u32::MAX) by (nonlinear_arith)
            requires
                fw * mf * fh * 20 * 4 <= u32::MAX,
                fw >= 1,
                fh >= 1,
                mf >= 1,
        ;
    }
    let atlas_w = fw * mf;
    let atlas_h = fh * 20;
    proof {
        assert(atlas_w * atlas_h * 4 <= u32::MAX) by (nonlinear_arith)
            requires
                fw * mf * fh * 20 * 4 <= u32::MAX,
                atlas_w == fw * mf,
                atlas_h == fh * 20,
        ;
        assert(fw * fh * 4 <= 512 * 512 * 4) by (nonlinear_arith)
            requires
                1 <= fw <= 512,
                1 <= fh <= 512,
        ;
    }
    let ghost images = container.images_spec();
    let ghost combo = unit_combo;
    let ghost seqs = sequences@;
    // Composite every frame cell, row by row.
    let cell_count = 20 * max_frames;
    let mut cells: Vec<Vec<u8>> = Vec::new();
    let mut ci: usize = 0;
    assert(max_frames <= u32::MAX);
    while ci < cell_count
        invariant
            container.wf(),
            images == container.images_spec(),
            seqs == sequences@,
            cell_count == 20 * max_frames,
            combo == unit_combo,
            20 * max_frames <= u32::MAX,
            max_frames > 0,
            max_frames <= u32::MAX,
            base + super::STORED_DIRECTIONS <= usize::MAX,
            1 <= fw <= 512,
            1 <= fh <= 512,
            fw * fh * 4 <= 512 * 512 * 4,
            atlas_offsets_in_range(seqs, images, base as int, combo, min_x as int, min_y as int),
            ci <= cell_count,
            cells@.len() == ci,
            forall|k: int| 0 <= k < ci ==> cell_holds(#[trigger] cells@[k]@, seqs, images, palette@, base as int, combo, fw as int, fh as int, min_x as int, min_y as int, max_frames as int, k),
        decreases cell_count - ci,
    {
        let row = ci / max_frames;
        let f = ci % max_frames;
        let tribe = row / super::STORED_DIRECTIONS;
        let dir = row % super::STORED_DIRECTIONS;
        let si = base + dir;
        proof {
            assert(row < 20) by (nonlinear_arith)
                requires
                    row == ci / max_frames,
                    ci < 20 * max_frames,
                    max_frames > 0,
            ;
        }
        if si < sequences.len() && sequences[si].frames.len() > 0 {
            let frames = &sequences[si].frames;
            let frame = &frames[f % frames.len()];
            let ghost fi = f as int % frames@.len() as int;
            proof {
                assert(tribe < 4);
                assert(0 <= fi < frames@.len());
                assert(frames@ == seqs[base as int + dir as int].frames@);
                assert forall|k: int|
                    0 <= k < frame.sprites@.len() && should_render_spec(#[trigger] frame.sprites@[k], tribe as u8, combo)
                        && frame.sprites@[k].sprite_index < images.len() implies i32::MIN <= frame.sprites@[k].coord_x - min_x
                        <= i32::MAX && i32::MIN <= frame.sprites@[k].coord_y - min_y <= i32::MAX by {
                    let e = seqs[base as int + dir as int].frames@[fi].sprites@[k];
                    assert(frame.sprites@[k] == e);
                    assert(drawn_for_a_tribe(e, combo));
                }
            }
            let elems = frame.sprites.as_slice();
            let tb = tribe as u8;
            let img = composite_frame(
                elems,
                container,
                palette,
                tb,
                unit_combo,
                fw as usize,
                fh as usize,
                min_x,
                min_y,
            );
            let ghost before = cells@;
            cells.push(img);
            proof {
                assert(tribe < 4);
                assert(*frame == seqs[si as int].frames@[f as int % seqs[si as int].frames@.len() as int]);
                assert(is_composite(img@, frame.sprites@, images, palette@, tribe as u8, combo, fw as int, fh as int, min_x as int, min_y as int));
                assert(cells@[ci as int] == img);
                assert(ci as int / max_frames as int == row && ci as int % max_frames as int == f);
                assert(cell_holds(cells@[ci as int]@, seqs, images, palette@, base as int, combo, fw as int, fh as int, min_x as int, min_y as int, max_frames as int, ci as int));
                assert forall|k: int| 0 <= k < ci implies cell_holds(#[trigger] cells@[k]@, seqs, images, palette@, base as int, combo, fw as int, fh as int, min_x as int, min_y as int, max_frames as int, k) by {
                    assert(cells@[k] == before[k]);
                }
            }
        } else {
            let ghost before = cells@;
            cells.push(Vec::new());
            proof {
                assert(ci as int / max_frames as int == row && ci as int % max_frames as int == f);
                assert forall|k: int| 0 <= k < ci implies cell_holds(#[trigger] cells@[k]@, seqs, images, palette@, base as int, combo, fw as int, fh as int, min_x as int, min_y as int, max_frames as int, k) by {
                    assert(cells@[k] == before[k]);
                }
            }
        }
        ci += 1;
    }
    // Lay the cells out.
    let mut rgba: Vec<u8> = Vec::new();
    let mut y: u32 = 0;
    while y < atlas_h
        invariant
            seqs == sequences@,
            images == container.images_spec(),
            atlas_w == fw * mf,
            atlas_h == fh * 20,
            mf == max_frames,
            20 * max_frames <= u32::MAX,
            max_frames > 0,
            1 <= fw <= 512,
            1 <= fh <= 512,
            atlas_w * atlas_h * 4 <= u32::MAX,
            cells@.len() == 20 * max_frames,
            forall|k: int| 0 <= k < cells@.len() ==> cell_holds(#[trigger] cells@[k]@, seqs, images, palette@, base as int, combo, fw as int, fh as int, min_x as int, min_y as int, max_frames as int, k),
            y <= atlas_h,
            rgba@.len() == y * atlas_w * 4,
            forall|px: int, py: int, c: int|
                0 <= px < atlas_w && 0 <= py < y && 0 <= c < 4 ==> #[trigger] rgba@[(py * atlas_w + px) * 4 + c] == tribe_atlas_pixel(seqs, images, palette@, base as int, combo, fw as int, fh as int, min_x as int, min_y as int, px, py)[c],
        decreases atlas_h - y,
    {
        let mut x: u32 = 0;
        while x < atlas_w
            invariant
                seqs == sequences@,
                images == container.images_spec(),
                atlas_w == fw * mf,
                atlas_h == fh * 20,
                mf == max_frames,
                20 * max_frames <= u32::MAX,
                max_frames > 0,
                1 <= fw <= 512,
                1 <= fh <= 512,
                atlas_w * atlas_h * 4 <= u32::MAX,
                cells@.len() == 20 * max_frames,
                forall|k: int| 0 <= k < cells@.len() ==> cell_holds(#[trigger] cells@[k]@, seqs, images, palette@, base as int, combo, fw as int, fh as int, min_x as int, min_y as int, max_frames as int, k),
                y < atlas_h,
                x <= atlas_w,
                rgba@.len() == (y * atlas_w + x) * 4,
                forall|px: int, py: int, c: int|
                    0 <= px < atlas_w && 0 <= py < atlas_h && (py < y || (py == y && px < x)) && 0 <= c < 4 ==> #[trigger] rgba@[(py * atlas_w + px) * 4 + c] == tribe_atlas_pixel(seqs, images, palette@, base as int, combo, fw as int, fh as int, min_x as int, min_y as int, px, py)[c],
            decreases atlas_w - x,
        {
            let row = (y / fh) as usize;
            let f = (x / fw) as usize;
            let lx = x % fw;
            let ly = y % fh;
            proof {
                lemma_cell_of(x as int, y as int, fw as int, fh as int, max_frames as int);
            }
            assert(row as int == y as int / fh as int && f as int == x as int / fw as int);
            assert(row * max_frames + f < 20 * max_frames);
            let cell = &cells[row * max_frames + f];
            let color: [u8; 4] = if cell.len() > 0 {
                proof {
                    lemma_pixel_index_bound(lx as int, ly as int, fw as int, fh as int);
                    assert(fw * fh * 4 <= 512 * 512 * 4) by (nonlinear_arith)
                        requires
                            1 <= fw <= 512,
                            1 <= fh <= 512,
                    ;
                }
                let off = ((ly * fw + lx) * 4) as usize;
                [cell[off], cell[off + 1], cell[off + 2], cell[off + 3]]
            } else {
                [0, 0, 0, 0]
            };
            proof {
                let k = (row * max_frames + f) as int;
                assert(cell_holds(cells@[k]@, seqs, images, palette@, base as int, combo, fw as int, fh as int, min_x as int, min_y as int, max_frames as int, k));
                assert(k / max_frames as int == row && k % max_frames as int == f) by {
                    lemma_div_mod_pair(row as int, f as int, max_frames as int);
                }
                let tribe = row as int / super::STORED_DIRECTIONS as int;
                let dir = row as int % super::STORED_DIRECTIONS as int;
                let si = base + dir;
                if si < seqs.len() && seqs[si].frames@.len() > 0 {
                    let frame = seqs[si].frames@[f as int % seqs[si].frames@.len() as int];
                    let cell_px = cells@[k]@;
                    assert(is_composite(cell_px, frame.sprites@, images, palette@, tribe as u8, combo, fw as int, fh as int, min_x as int, min_y as int));
                    assert(cell_px.len() == fw * fh * 4);
                    assert(fw * fh * 4 > 0) by (nonlinear_arith)
                        requires
                            fw >= 1,
                            fh >= 1,
                    ;
                    assert forall|c: int| 0 <= c < 4 implies color[c] == tribe_atlas_pixel(seqs, images, palette@, base as int, combo, fw as int, fh as int, min_x as int, min_y as int, x as int, y as int)[c] by {
                        assert(cell_px[(ly * fw + lx) * 4 + c] == composite_pixel(frame.sprites@, images, palette@, tribe as u8, combo, min_x as int, min_y as int, frame.sprites@.len() as int, lx as int, ly as int)[c]);
                    }
                } else {
                    assert(cells@[k]@.len() == 0);
                }
                lemma_pixel_index_bound(x as int, y as int, atlas_w as int, atlas_h as int);
            }
            let ghost before = rgba@;
            rgba.push(color[0]);
            rgba.push(color[1]);
            rgba.push(color[2]);
            rgba.push(color[3]);
            proof {
                assert forall|px: int, py: int, c: int|
                    0 <= px < atlas_w && 0 <= py < atlas_h && (py < y || (py == y && px < x + 1)) && 0 <= c < 4 implies #[trigger] rgba@[(py * atlas_w + px) * 4 + c] == tribe_atlas_pixel(seqs, images, palette@, base as int, combo, fw as int, fh as int, min_x as int, min_y as int, px, py)[c] by {
                    lemma_pixel_order(px, py, x as int, y as int, atlas_w as int);
                    if py == y && px == x {
                        assert(rgba@[(py * atlas_w + px) * 4 + c] == color[c]);
                    } else {
                        assert(rgba@[(py * atlas_w + px) * 4 + c] == before[(py * atlas_w + px) * 4 + c]);
                    }
                }
            }
            x += 1;
        }
        proof {
            assert(rgba@.len() == (y + 1) * atlas_w * 4) by (nonlinear_arith)
                requires
                    rgba@.len() == (y * atlas_w + atlas_w) * 4,
            ;
        }
        y += 1;
    }
    proof {
        assert(rgba@.len() == atlas_w * atlas_h * 4) by (nonlinear_arith)
            requires
                rgba@.len() == y * atlas_w * 4,
                y == atlas_h,
        ;
    }
    Some((atlas_w, atlas_h, rgba, fw, fh, mf, max_y))
}

/// What cell `k` of a tribe atlas holds: the composite of its frame when
/// its direction has frames, nothing otherwise.
pub open spec fn cell_holds(
    cell: Seq<u8>,
    seqs: Seq<AnimationSequence>,
    images: Seq<(u16, u16, Seq<u8>)>,
    palette: Seq<[u8; 4]>,
    base: int,
    combo: Option<(u16, u16)>,
    fw: int,
    fh: int,
    min_x: int,
    min_y: int,
    mf: int,
    k: int,
) -> bool {
    let row = k / mf;
    let f = k % mf;
    let tribe = row / super::STORED_DIRECTIONS as int;
    let dir = row % super::STORED_DIRECTIONS as int;
    let si = base + dir;
    if si < seqs.len() && seqs[si].frames@.len() > 0 {
        let frame = seqs[si].frames@[f % seqs[si].frames@.len() as int];
        is_composite(cell, frame.sprites@, images, palette, tribe as u8, combo, fw, fh, min_x, min_y)
    } else {
        cell.len() == 0
    }
}

proof fn lemma_div_mod_pair(q: int, r: int, n: int)
    requires
        0 <= q,
        0 <= r < n,
    ensures
        (q * n + r) / n == q,
        (q * n + r) % n == r,
{
    vstd::arithmetic::div_mod::lemma_fundamental_div_mod_converse(q * n + r, n, q, r);
}

/// The cell of atlas pixel (`x`, `y`) exists.
proof fn lemma_cell_of(x: int, y: int, fw: int, fh: int, mf: int)
    requires
        fw >= 1,
        fh >= 1,
        mf >= 1,
        0 <= x < fw * mf,
        0 <= y < fh * 20,
    ensures
        0 <= x / fw < mf,
        0 <= y / fh < 20,
        0 <= (y / fh) * mf + x / fw < 20 * mf,
        0 <= x % fw < fw,
        0 <= y % fh < fh,
{
    assert(x / fw < mf) by (nonlinear_arith)
        requires
            0 <= x < fw * mf,
            fw >= 1,
    ;
    assert(y / fh < 20) by (nonlinear_arith)
        requires
            0 <= y < fh * 20,
            fh >= 1,
    ;
    assert((y / fh) * mf + x / fw < 20 * mf) by (nonlinear_arith)
        requires
            0 <= y / fh < 20,
            0 <= x / fw < mf,
    ;
    assert(0 <= (y / fh) * mf) by (nonlinear_arith)
        requires
            0 <= y / fh,
            mf >= 1,
    ;
}

/// The first stored sequence of an animation id.
pub open spec fn anim_base(id: usize) -> int {
    anim_shape_spec(id as u16).0 as int
}

/// The bounding box shared by the first `n` animations of `ids`: each grows
/// it over its stored directions, counting type-specific elements only of
/// the given type layer.
pub open spec fn anims_bbox(
    seqs: Seq<AnimationSequence>,
    images: Seq<(u16, u16, Seq<u8>)>,
    ids: Seq<usize>,
    combo: Option<(u16, u16)>,
    n: int,
) -> BBox
    decreases n,
{
    if n <= 0 {
        (0i32, 0i32, 1i32, 1i32)
    } else {
        dirs_bbox(
            anims_bbox(seqs, images, ids, combo, n - 1),
            seqs,
            images,
            anim_base(ids[n - 1]),
            combo,
            super::STORED_DIRECTIONS as int,
        )
    }
}

/// The columns taken by a run of (animation id, first column, frames)
/// entries.
pub open spec fn offsets_total(offs: Seq<(usize, u32, u32)>) -> int
    decreases offs.len(),
{
    if offs.len() == 0 {
        0
    } else {
        offsets_total(offs.drop_last()) + offs.last().2
    }
}

/// The (animation id, first column, frames) entries of the first `n`
/// animations of `ids` that have frames, side by side from column 0.
pub open spec fn multi_offsets(seqs: Seq<AnimationSequence>, ids: Seq<usize>, n: int) -> Seq<(usize, u32, u32)>
    decreases n,
{
    if n <= 0 {
        seq![]
    } else {
        let prev = multi_offsets(seqs, ids, n - 1);
        let mf = max_frames_spec(seqs, anim_base(ids[n - 1]), super::STORED_DIRECTIONS as int);
        if mf > 0 {
            prev.push((ids[n - 1], offsets_total(prev) as u32, mf as u32))
        } else {
            prev
        }
    }
}

/// Whether a block of a combined atlas is the tribe atlas of the animation
/// starting at `base`, `mf` frames wide.
pub open spec fn is_tribe_atlas(
    rgba: Seq<u8>,
    seqs: Seq<AnimationSequence>,
    images: Seq<(u16, u16, Seq<u8>)>,
    palette: Seq<[u8; 4]>,
    base: int,
    combo: Option<(u16, u16)>,
    fw: int,
    fh: int,
    min_x: int,
    min_y: int,
    mf: int,
) -> bool {
    &&& rgba.len() == fw * mf * (fh * 20) * 4
    &&& forall|x: int, y: int, c: int|
        0 <= x < fw * mf && 0 <= y < fh * 20 && 0 <= c < 4 ==> #[trigger] rgba[(y * (fw * mf) + x) * 4 + c]
            == tribe_atlas_pixel(seqs, images, palette, base, combo, fw, fh, min_x, min_y, x, y)[c]
}

/// The integers a combined atlas for these inputs computes fit their types.
pub open spec fn multi_atlas_in_range(
    seqs: Seq<AnimationSequence>,
    images: Seq<(u16, u16, Seq<u8>)>,
    ids: Seq<usize>,
    combo: Option<(u16, u16)>,
) -> bool {
    let b = anims_bbox(seqs, images, ids, combo, ids.len() as int);
    let total = offsets_total(multi_offsets(seqs, ids, ids.len() as int));
    &&& forall|i: int|
        0 <= i < ids.len() ==> tribe_atlas_in_range(seqs, images, #[trigger] anim_base(ids[i]), Some(combo), Some(b))
    &&& clamp_dim((b.2 - b.0) as i32) * total * clamp_dim((b.3 - b.1) as i32) * 20 * 4 <= u32::MAX
}

proof fn lemma_offsets_grow(seqs: Seq<AnimationSequence>, ids: Seq<usize>, i: int, n: int)
    requires
        0 <= i <= n,
    ensures
        offsets_total(multi_offsets(seqs, ids, i)) <= offsets_total(multi_offsets(seqs, ids, n)),
        multi_offsets(seqs, ids, i).len() <= multi_offsets(seqs, ids, n).len(),
    decreases n - i,
{
    if i < n {
        lemma_offsets_grow(seqs, ids, i, n - 1);
        let prev = multi_offsets(seqs, ids, n - 1);
        let mf = max_frames_spec(seqs, anim_base(ids[n - 1]), super::STORED_DIRECTIONS as int);
        if mf > 0 {
            let next = prev.push((ids[n - 1], offsets_total(prev) as u32, mf as u32));
            assert(next.drop_last() =~= prev);
        }
    }
}

pub(crate) proof fn lemma_byte_index(y: int, x: int, c: int, w: int, o: int)
    ensures
        (y * w + o + x) * 4 + c == y * (w * 4) + o * 4 + (x * 4 + c),
{
    assert((y * w + o + x) * 4 + c == y * (w * 4) + o * 4 + (x * 4 + c)) by (nonlinear_arith);
}

/// Build one atlas of several animations side by side: each animation's
/// tribe atlas (see `build_tribe_atlas`), drawn with the given type layer
/// and one bounding box shared by all of them, takes a block of columns.
/// Animations without frames are left out. `None` when no animation is
/// given or none has frames. The result is (atlas width, atlas height, RGBA
/// pixels, frame width, frame height, columns, (animation id, first column,
/// frames) per animation drawn, bottom of the shared bounding box).
pub fn build_multi_anim_atlas(
    sequences: &[AnimationSequence],
    container: &SpriteBank,
    palette: &[[u8; 4]],
    anim_ids: &[usize],
    unit_combo: Option<(u16, u16)>,
) -> (r: Option<(u32, u32, Vec<u8>, u32, u32, u32, Vec<(usize, u32, u32)>, i32)>)
    requires
        container.wf(),
        multi_atlas_in_range(sequences@, container.images_spec(), anim_ids@, unit_combo),
    ensures
        ({
            let b = anims_bbox(sequences@, container.images_spec(), anim_ids@, unit_combo, anim_ids@.len() as int);
            let offs = multi_offsets(sequences@, anim_ids@, anim_ids@.len() as int);
            let total = offsets_total(offs);
            let fw = clamp_dim((b.2 - b.0) as i32);
            let fh = clamp_dim((b.3 - b.1) as i32);
            &&& r is None <==> offs.len() == 0
            &&& r matches Some(t) ==> {
                &&& t.0 == fw * total
                &&& t.1 == fh * 20
                &&& t.3 == fw
                &&& t.4 == fh
                &&& t.5 == total
                &&& t.6@ == offs
                &&& t.7 == b.3
                &&& t.2@.len() == t.0 * t.1 * 4
                &&& forall|k: int| 0 <= k < offs.len() ==> (#[trigger] offs[k]).1 == offsets_total(offs.subrange(0, k))
                &&& forall|k: int, x: int, y: int, c: int|
                    0 <= k < offs.len() && 0 <= x < fw * offs[k].2 && 0 <= y < t.1 && 0 <= c < 4
                        ==> #[trigger] t.2@[(y * t.0 + offs[k].1 * fw + x) * 4 + c] == tribe_atlas_pixel(
                        sequences@,
                        container.images_spec(),
                        palette@,
                        anim_base(offs[k].0),
                        unit_combo,
                        fw as int,
                        fh as int,
                        b.0 as int,
                        b.1 as int,
                        x,
                        y,
                    )[c]
            }
        }),
{
    let ghost seqs = sequences@;
    let ghost images = container.images_spec();
    let ghost ids = anim_ids@;
    let ghost n = anim_ids@.len() as int;
    if anim_ids.len() == 0 {
        return None;
    }
    // The bounding box shared by every animation.
    let mut sb: BBox = (0, 0, 1, 1);
    let mut i: usize = 0;
    while i < anim_ids.len()
        invariant
            ids == anim_ids@,
            seqs == sequences@,
            images == container.images_spec(),
            i <= ids.len(),
            bbox_in_range(sb),
            sb == anims_bbox(seqs, images, ids, unit_combo, i as int),
        decreases ids.len() - i,
    {
        let (vb, _) = anim_shape(anim_ids[i] as u16);
        sb = bbox_of_dirs(sb, sequences, container, vb, unit_combo);
        i += 1;
    }
    let ghost b = sb;
    let ghost all = multi_offsets(seqs, ids, n);
    let ghost total = offsets_total(all);
    let fw = clamp_dimension(sb.2 - sb.0);
    let fh = clamp_dimension(sb.3 - sb.1);
    proof {
        assert(all.subrange(0, all.len() as int) =~= all);
        assert(all.subrange(0, 0) =~= Seq::<(usize, u32, u32)>::empty());
        lemma_prefix_totals(all, 0, all.len() as int);
        assert(total * 80 <= u32::MAX) by (nonlinear_arith)
            requires
                fw * total * fh * 20 * 4 <= u32::MAX,
                fw >= 1,
                fh >= 1,
                total >= 0,
        ;
    }
    // Each animation's atlas with the shared box.
    let mut subs: Vec<Vec<u8>> = Vec::new();
    let mut offsets: Vec<(usize, u32, u32)> = Vec::new();
    let mut col: u32 = 0;
    i = 0;
    while i < anim_ids.len()
        invariant
            ids == anim_ids@,
            seqs == sequences@,
            images == container.images_spec(),
            n == ids.len(),
            container.wf(),
            sb == b,
            b == anims_bbox(seqs, images, ids, unit_combo, n),
            all == multi_offsets(seqs, ids, n),
            total == offsets_total(all),
            total * 80 <= u32::MAX,
            fw == clamp_dim((b.2 - b.0) as i32),
            fh == clamp_dim((b.3 - b.1) as i32),
            forall|j: int| 0 <= j < n ==> tribe_atlas_in_range(seqs, images, #[trigger] anim_base(ids[j]), Some(unit_combo), Some(b)),
            i <= n,
            offsets@ == multi_offsets(seqs, ids, i as int),
            col == offsets_total(offsets@),
            subs@.len() == offsets@.len(),
            forall|k: int| 0 <= k < offsets@.len() ==> (#[trigger] offsets@[k]).1 == offsets_total(offsets@.subrange(0, k)),
            forall|k: int| 0 <= k < offsets@.len() ==> #[trigger] offsets@[k].2 > 0,
            forall|k: int|
                0 <= k < subs@.len() ==> is_tribe_atlas(
                    #[trigger] subs@[k]@,
                    seqs,
                    images,
                    palette@,
                    anim_base(offsets@[k].0),
                    unit_combo,
                    fw as int,
                    fh as int,
                    b.0 as int,
                    b.1 as int,
                    offsets@[k].2 as int,
                ),
        decreases n - i,
    {
        let (vb, _) = anim_shape(anim_ids[i] as u16);
        proof {
            assert(tribe_atlas_in_range(seqs, images, anim_base(ids[i as int]), Some(unit_combo), Some(b)));
            lemma_offsets_grow(seqs, ids, i as int + 1, n);
        }
        let built = build_tribe_atlas(sequences, container, palette, vb, Some(unit_combo), Some(sb));
        let ghost prev = offsets@;
        let ghost prev_subs = subs@;
        match built {
            Some((_aw, _ah, rgba, _w, _h, frames, _bottom)) => {
                let ghost mf = max_frames_spec(seqs, anim_base(ids[i as int]), super::STORED_DIRECTIONS as int);
                proof {
                    assert(mf > 0);
                    let next = multi_offsets(seqs, ids, i as int + 1);
                    assert(next.drop_last() =~= prev);
                    assert(offsets_total(next) == col + frames);
                }
                offsets.push((anim_ids[i], col, frames));
                subs.push(rgba);
                proof {
                    assert(offsets@ =~= multi_offsets(seqs, ids, i as int + 1));
                    assert(offsets@.drop_last() =~= prev);
                    assert forall|k: int| 0 <= k < offsets@.len() implies (#[trigger] offsets@[k]).1 == offsets_total(offsets@.subrange(0, k)) by {
                        if k < prev.len() {
                            assert(offsets@.subrange(0, k) =~= prev.subrange(0, k));
                        } else {
                            assert(offsets@.subrange(0, k) =~= prev);
                        }
                    }
                    assert forall|k: int| 0 <= k < subs@.len() implies is_tribe_atlas(
                        #[trigger] subs@[k]@,
                        seqs,
                        images,
                        palette@,
                        anim_base(offsets@[k].0),
                        unit_combo,
                        fw as int,
                        fh as int,
                        b.0 as int,
                        b.1 as int,
                        offsets@[k].2 as int,
                    ) by {
                        if k < prev_subs.len() {
                            assert(subs@[k] == prev_subs[k]);
                            assert(offsets@[k] == prev[k]);
                        }
                    }
                }
                col = col + frames;
            },
            None => {
                proof {
                    assert(offsets@ =~= multi_offsets(seqs, ids, i as int + 1));
                }
            },
        }
        i += 1;
    }
    if subs.len() == 0 {
        return None;
    }
    let total_columns = col;
    proof {
        assert(fw * total * fh * 20 * 4 <= u32::MAX);
        assert(fw * total <= u32::MAX && fw * total * fh * 20 <= u32::MAX) by (nonlinear_arith)
            requires
                fw * total * fh * 20 * 4 <= u32::MAX,
                fw >= 1,
                fh >= 1,
                total >= 1,
        ;
    }
    let atlas_w = fw * total_columns;
    let atlas_h = fh * 20;
    proof {
        assert(offsets@ == all);
        assert(all.len() > 0);
        assert(all.subrange(0, 1).drop_last() =~= all.subrange(0, 0));
        lemma_prefix_totals(all, 1, all.len() as int);
        assert(offsets_total(all.subrange(0, 1)) == all[0].2);
        assert(total >= 1);
        assert(atlas_w >= 1) by (nonlinear_arith)
            requires
                atlas_w == fw * total,
                fw >= 1,
                total >= 1,
        ;
    }
    if atlas_w == 0 || atlas_h == 0 {
        return None;
    }
    proof {
        assert(atlas_w * atlas_h * 4 <= u32::MAX) by (nonlinear_arith)
            requires
                fw * total * fh * 20 * 4 <= u32::MAX,
                atlas_w == fw * total,
                atlas_h == fh * 20,
        ;
    }
    proof {
        assert forall|k: int| 0 <= k < subs@.len() implies (#[trigger] subs@[k])@.len() == fw * offsets@[k].2 * 4 * atlas_h by {
            assert(fw * offsets@[k].2 * (fh * 20) * 4 == fw * offsets@[k].2 * 4 * atlas_h) by (nonlinear_arith)
                requires
                    atlas_h == fh * 20,
            ;
        }
    }
    let combined = combine_blocks(&subs, &offsets, fw, atlas_w, atlas_h);
    proof {
        assert forall|k: int, x: int, y: int, c: int|
            0 <= k < all.len() && 0 <= x < fw * all[k].2 && 0 <= y < atlas_h && 0 <= c < 4
                implies #[trigger] combined@[(y * atlas_w + all[k].1 * fw + x) * 4 + c] == tribe_atlas_pixel(
                seqs,
                images,
                palette@,
                anim_base(all[k].0),
                unit_combo,
                fw as int,
                fh as int,
                b.0 as int,
                b.1 as int,
                x,
                y,
            )[c] by {
            let w = fw * all[k].2;
            lemma_byte_index(y, x, c, atlas_w as int, all[k].1 * fw);
            lemma_byte_index(y, x, c, w, 0);
            assert(subs@[k]@[(y * w + x) * 4 + c] == tribe_atlas_pixel(seqs, images, palette@, anim_base(all[k].0), unit_combo, fw as int, fh as int, b.0 as int, b.1 as int, x, y)[c]);
            assert(0 <= x * 4 + c < w * 4);
        }
    }
    assert(offsets@ == all);
    assert(total_columns == total);
    assert(atlas_w == fw * total);
    assert(combined@.len() == atlas_w * atlas_h * 4) by (nonlinear_arith)
        requires
            combined@.len() == atlas_w * 4 * atlas_h,
    ;
    assert(forall|k: int| 0 <= k < all.len() ==> (#[trigger] all[k]).1 == offsets_total(all.subrange(0, k)));
    Some((atlas_w, atlas_h, combined, fw, fh, total_columns, offsets, sb.3))
}

/// The columns of the first `k` entries: they only grow.
pub(crate) proof fn lemma_prefix_totals(offs: Seq<(usize, u32, u32)>, i: int, j: int)
    requires
        0 <= i <= j <= offs.len(),
    ensures
        offsets_total(offs.subrange(0, i)) <= offsets_total(offs.subrange(0, j)),
        j > i ==> offsets_total(offs.subrange(0, i + 1)) == offsets_total(offs.subrange(0, i)) + offs[i].2,
    decreases j - i,
{
    if j > i {
        assert(offs.subrange(0, i + 1).drop_last() =~= offs.subrange(0, i));
        assert(offs.subrange(0, j).drop_last() =~= offs.subrange(0, j - 1));
        lemma_prefix_totals(offs, i, j - 1);
    }
}

/// A byte of block `kk` lies before where block `k` starts.
proof fn lemma_block_before(offs: Seq<(usize, u32, u32)>, unit: int, kk: int, k: int, p: int)
    requires
        0 <= kk < k <= offs.len(),
        unit >= 0,
        0 <= p < unit * offs[kk].2,
    ensures
        offsets_total(offs.subrange(0, kk)) * unit + p < offsets_total(offs.subrange(0, k)) * unit,
{
    lemma_prefix_totals(offs, kk, k);
    lemma_prefix_totals(offs, kk + 1, k);
    let a = offsets_total(offs.subrange(0, kk));
    let b = offsets_total(offs.subrange(0, kk + 1));
    let c = offsets_total(offs.subrange(0, k));
    assert(a * unit + p < c * unit) by (nonlinear_arith)
        requires
            b == a + offs[kk].2,
            b <= c,
            unit >= 0,
            0 <= p < unit * offs[kk].2,
    ;
}

/// `len` bytes of `src` from `start` on.
fn copy_range(src: &Vec<u8>, start: usize, len: usize) -> (r: Vec<u8>)
    requires
        start + len <= src@.len(),
    ensures
        r@ == src@.subrange(start as int, start + len),
{
    let _ = src.len();
    let mut r: Vec<u8> = Vec::new();
    let mut i: usize = 0;
    while i < len
        invariant
            i <= len,
            start + len <= src@.len(),
            src@.len() <= usize::MAX,
            r@ == src@.subrange(start as int, start + i),
        decreases len - i,
    {
        r.push(src[start + i]);
        i += 1;
    }
    r
}

/// Row `y` of blocks laid side by side.
pub open spec fn is_combined_row(
    row: Seq<u8>,
    blocks: Seq<Vec<u8>>,
    offs: Seq<(usize, u32, u32)>,
    fw: int,
    y: int,
    k: int,
) -> bool {
    &&& row.len() == offsets_total(offs.subrange(0, k)) * fw * 4
    &&& forall|kk: int, p: int|
        0 <= kk < k && 0 <= p < fw * offs[kk].2 * 4 ==> #[trigger] row[offs[kk].1 * fw * 4 + p] == blocks[kk]@[y * (fw
            * offs[kk].2 * 4) + p]
}

proof fn lemma_row_extend(
    row: Seq<u8>,
    piece: Seq<u8>,
    blocks: Seq<Vec<u8>>,
    offs: Seq<(usize, u32, u32)>,
    fw: int,
    y: int,
    k: int,
)
    requires
        0 <= k < offs.len(),
        fw >= 0,
        is_combined_row(row, blocks, offs, fw, y, k),
        forall|j: int| 0 <= j < offs.len() ==> (#[trigger] offs[j]).1 == offsets_total(offs.subrange(0, j)),
        piece.len() == fw * offs[k].2 * 4,
        forall|p: int| 0 <= p < piece.len() ==> #[trigger] piece[p] == blocks[k]@[y * (fw * offs[k].2 * 4) + p],
    ensures
        is_combined_row(row + piece, blocks, offs, fw, y, k + 1),
{
    let unit = fw * 4;
    let r2 = row + piece;
    lemma_prefix_totals(offs, k, k + 1);
    assert(r2.len() == offsets_total(offs.subrange(0, k + 1)) * fw * 4) by (nonlinear_arith)
        requires
            r2.len() == row.len() + piece.len(),
            row.len() == offsets_total(offs.subrange(0, k)) * fw * 4,
            offsets_total(offs.subrange(0, k + 1)) == offsets_total(offs.subrange(0, k)) + offs[k].2,
            piece.len() == fw * offs[k].2 * 4,
    ;
    assert forall|kk: int, p: int| 0 <= kk < k + 1 && 0 <= p < fw * offs[kk].2 * 4 implies #[trigger] r2[offs[kk].1
        * fw * 4 + p] == blocks[kk]@[y * (fw * offs[kk].2 * 4) + p] by {
        assert(offs[kk].1 * fw * 4 == offsets_total(offs.subrange(0, kk)) * unit) by (nonlinear_arith)
            requires
                offs[kk].1 == offsets_total(offs.subrange(0, kk)),
                unit == fw * 4,
        ;
        assert(row.len() == offsets_total(offs.subrange(0, k)) * unit) by (nonlinear_arith)
            requires
                row.len() == offsets_total(offs.subrange(0, k)) * fw * 4,
                unit == fw * 4,
        ;
        if kk < k {
            assert(p < unit * offs[kk].2) by (nonlinear_arith)
                requires
                    p < fw * offs[kk].2 * 4,
                    unit == fw * 4,
            ;
            lemma_block_before(offs, unit, kk, k, p);
        } else {
            assert(r2[offs[kk].1 * fw * 4 + p] == piece[p]);
        }
    }
}

/// Row `y` of the blocks laid side by side.
#[verifier::spinoff_prover]
#[verifier::rlimit(40)]
fn combine_row(blocks: &Vec<Vec<u8>>, offsets: &Vec<(usize, u32, u32)>, fw: u32, atlas_w: u32, atlas_h: u32, y: u32) -> (r:
    Vec<u8>)
    requires
        blocks@.len() == offsets@.len(),
        atlas_w == fw * offsets_total(offsets@),
        atlas_w * atlas_h * 4 <= u32::MAX,
        y < atlas_h,
        forall|k: int| 0 <= k < offsets@.len() ==> (#[trigger] offsets@[k]).1 == offsets_total(offsets@.subrange(0, k)),
        forall|k: int| 0 <= k < blocks@.len() ==> (#[trigger] blocks@[k])@.len() == fw * offsets@[k].2 * 4 * atlas_h,
    ensures
        is_combined_row(r@, blocks@, offsets@, fw as int, y as int, offsets@.len() as int),
{
    let ghost offs = offsets@;
    let ghost total = offsets_total(offs);
    let n = blocks.len();
    proof {
        assert(offs.subrange(0, 0) =~= Seq::<(usize, u32, u32)>::empty());
        assert(atlas_w * 4 * atlas_h <= u32::MAX) by (nonlinear_arith)
            requires
                atlas_w * atlas_h * 4 <= u32::MAX,
        ;
    }
    let mut row: Vec<u8> = Vec::new();
    let mut k: usize = 0;
    while k < n
        invariant
            offs == offsets@,
            n == blocks@.len(),
            n == offs.len(),
            total == offsets_total(offs),
            atlas_w == fw * total,
            atlas_w * 4 * atlas_h <= u32::MAX,
            y < atlas_h,
            forall|j: int| 0 <= j < n ==> (#[trigger] offs[j]).1 == offsets_total(offs.subrange(0, j)),
            forall|j: int| 0 <= j < n ==> (#[trigger] blocks@[j])@.len() == fw * offs[j].2 * 4 * atlas_h,
            k <= n,
            is_combined_row(row@, blocks@, offs, fw as int, y as int, k as int),
        decreases n - k,
    {
        proof {
            assert(offs.subrange(0, n as int) =~= offs);
            lemma_prefix_totals(offs, k as int, n as int);
            lemma_prefix_totals(offs, k as int + 1, n as int);
            let a = offsets_total(offs.subrange(0, k as int));
            assert(fw * offs[k as int].2 * 4 <= atlas_w * 4) by (nonlinear_arith)
                requires
                    a + offs[k as int].2 <= total,
                    a >= 0,
                    atlas_w == fw * total,
            ;
            assert(fw * offs[k as int].2 * 4 * atlas_h <= atlas_w * 4 * atlas_h) by (nonlinear_arith)
                requires
                    fw * offs[k as int].2 * 4 <= atlas_w * 4,
                    atlas_h >= 1,
            ;
            assert(atlas_w * 4 <= u32::MAX) by (nonlinear_arith)
                requires
                    atlas_w * 4 * atlas_h <= u32::MAX,
                    atlas_h >= 1,
                    atlas_w >= 0,
            ;
        }
        let bw4 = (fw * offsets[k].2 * 4) as usize;
        proof {
            assert(y * bw4 + bw4 <= bw4 * atlas_h) by (nonlinear_arith)
                requires
                    y + 1 <= atlas_h,
                    bw4 >= 0,
            ;
        }
        let start = (y as usize) * bw4;
        let mut piece = copy_range(&blocks[k], start, bw4);
        let ghost old_row = row@;
        proof {
            lemma_row_extend(old_row, piece@, blocks@, offs, fw as int, y as int, k as int);
        }
        row.append(&mut piece);
        k += 1;
    }
    row
}

/// Lay blocks side by side: row `y` of the result is row `y` of each block
/// in turn, block `k` being `fw` times its frame count pixels wide.
pub(crate) fn combine_blocks(
    blocks: &Vec<Vec<u8>>,
    offsets: &Vec<(usize, u32, u32)>,
    fw: u32,
    atlas_w: u32,
    atlas_h: u32,
) -> (r: Vec<u8>)
    requires
        blocks@.len() == offsets@.len(),
        atlas_w == fw * offsets_total(offsets@),
        atlas_w * atlas_h * 4 <= u32::MAX,
        forall|k: int| 0 <= k < offsets@.len() ==> (#[trigger] offsets@[k]).1 == offsets_total(offsets@.subrange(0, k)),
        forall|k: int| 0 <= k < blocks@.len() ==> (#[trigger] blocks@[k])@.len() == fw * offsets@[k].2 * 4 * atlas_h,
    ensures
        r@.len() == atlas_w * 4 * atlas_h,
        forall|k: int, y: int, p: int|
            0 <= k < offsets@.len() && 0 <= y < atlas_h && 0 <= p < fw * offsets@[k].2 * 4 ==> #[trigger] r@[y * (atlas_w
                * 4) + offsets@[k].1 * fw * 4 + p] == blocks@[k]@[y * (fw * offsets@[k].2 * 4) + p],
{
    let ghost offs = offsets@;
    let ghost w4 = atlas_w as int * 4;
    let ghost total = offsets_total(offs);
    let ghost n = offs.len() as int;
    proof {
        assert(offs.subrange(0, n) =~= offs);
        assert(w4 == total * fw * 4) by (nonlinear_arith)
            requires
                w4 == atlas_w * 4,
                atlas_w == fw * total,
        ;
    }
    let mut out: Vec<u8> = Vec::new();
    let mut y: u32 = 0;
    while y < atlas_h
        invariant
            offs == offsets@,
            n == blocks@.len(),
            n == offs.len(),
            w4 == atlas_w * 4,
            w4 == total * fw * 4,
            total == offsets_total(offs),
            offs.subrange(0, n) == offs,
            atlas_w == fw * total,
            atlas_w * atlas_h * 4 <= u32::MAX,
            forall|k: int| 0 <= k < n ==> (#[trigger] offs[k]).1 == offsets_total(offs.subrange(0, k)),
            forall|k: int| 0 <= k < n ==> (#[trigger] blocks@[k])@.len() == fw * offs[k].2 * 4 * atlas_h,
            y <= atlas_h,
            out@.len() == y * w4,
            forall|k: int, yy: int, p: int|
                0 <= k < n && 0 <= yy < y && 0 <= p < fw * offs[k].2 * 4 ==> #[trigger] out@[yy * w4 + offs[k].1 * fw * 4
                    + p] == blocks@[k]@[yy * (fw * offs[k].2 * 4) + p],
        decreases atlas_h - y,
    {
        let mut row = combine_row(blocks, offsets, fw, atlas_w, atlas_h, y);
        let ghost old_out = out@;
        let ghost rw = row@;
        out.append(&mut row);
        proof {
            lemma_rows_extend(old_out, rw, blocks@, offs, fw as int, w4, y as int);
        }
        y += 1;
    }
    proof {
        assert(out@.len() == atlas_w * 4 * atlas_h) by (nonlinear_arith)
            requires
                out@.len() == y * w4,
                y == atlas_h,
                w4 == atlas_w * 4,
        ;
    }
    out
}

proof fn lemma_rows_extend(
    out: Seq<u8>,
    row: Seq<u8>,
    blocks: Seq<Vec<u8>>,
    offs: Seq<(usize, u32, u32)>,
    fw: int,
    w4: int,
    y: int,
)
    requires
        fw >= 0,
        y >= 0,
        offs.subrange(0, offs.len() as int) == offs,
        w4 == offsets_total(offs) * fw * 4,
        out.len() == y * w4,
        is_combined_row(row, blocks, offs, fw, y, offs.len() as int),
        forall|j: int| 0 <= j < offs.len() ==> (#[trigger] offs[j]).1 == offsets_total(offs.subrange(0, j)),
        forall|k: int, yy: int, p: int|
            0 <= k < offs.len() && 0 <= yy < y && 0 <= p < fw * offs[k].2 * 4 ==> #[trigger] out[yy * w4 + offs[k].1 * fw * 4
                + p] == blocks[k]@[yy * (fw * offs[k].2 * 4) + p],
    ensures
        (out + row).len() == (y + 1) * w4,
        forall|k: int, yy: int, p: int|
            0 <= k < offs.len() && 0 <= yy < y + 1 && 0 <= p < fw * offs[k].2 * 4 ==> #[trigger] (out + row)[yy * w4 + offs[k].1
                * fw * 4 + p] == blocks[k]@[yy * (fw * offs[k].2 * 4) + p],
{
    let o = out + row;
    let n = offs.len() as int;
    let unit = fw * 4;
    assert(row.len() == w4);
    assert(o.len() == (y + 1) * w4) by (nonlinear_arith)
        requires
            o.len() == y * w4 + w4,
    ;
    assert forall|k: int, yy: int, p: int|
        0 <= k < n && 0 <= yy < y + 1 && 0 <= p < fw * offs[k].2 * 4 implies #[trigger] o[yy * w4 + offs[k].1 * fw * 4 + p]
            == blocks[k]@[yy * (fw * offs[k].2 * 4) + p] by {
        assert(offs[k].1 * fw * 4 == offsets_total(offs.subrange(0, k)) * unit) by (nonlinear_arith)
            requires
                offs[k].1 == offsets_total(offs.subrange(0, k)),
                unit == fw * 4,
        ;
        assert(p < unit * offs[k].2) by (nonlinear_arith)
            requires
                p < fw * offs[k].2 * 4,
                unit == fw * 4,
        ;
        lemma_block_before(offs, unit, k, n, p);
        let q = offs[k].1 * fw * 4 + p;
        assert(offsets_total(offs.subrange(0, n)) * unit == w4) by (nonlinear_arith)
            requires
                offs.subrange(0, n) == offs,
                w4 == offsets_total(offs) * fw * 4,
                unit == fw * 4,
        ;
        assert(0 <= q < w4);
        if yy < y {
            assert(yy * w4 + q < y * w4) by (nonlinear_arith)
                requires
                    yy < y,
                    0 <= q < w4,
            ;
        }
    }
}

} // verus!
