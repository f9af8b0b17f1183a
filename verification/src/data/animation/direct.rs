//! Atlases of animations stored as complete sprites, one per tribe,
//! direction and frame, rather than as layered elements.

use vstd::prelude::*;

use super::atlas::{combine_blocks, lemma_byte_index, lemma_prefix_totals, offsets_total};
use super::sprites::{palette_color, SpriteBank, SpriteImage};

verus! {

/// Shaman animations as (animation id, first sprite of each tribe, frames
/// per direction): each tribe's sprites hold every stored direction's
/// frames in turn.
pub const SHAMAN_ANIMS: [(u16, [u16; 4], usize); 2] = [
    (20, [6879, 6899, 6919, 6939], 4),
    (26, [7578, 7618, 7658, 7698], 8),
];

/// The sprite of cell `j` (row-major, `fpd` cells a row; rows are tribe
/// major, then stored direction) of a direct animation.
pub open spec fn direct_index(starts: [u16; 4], fpd: int, j: int) -> int {
    let row = j / fpd;
    starts[row / 5] as int + (row % 5) * fpd + j % fpd
}

/// The widest (or, with `widths` false, the tallest) sprite among the first
/// `j` cells of a direct animation; missing sprites count for nothing.
pub open spec fn cells_max(images: Seq<(u16, u16, Seq<u8>)>, starts: [u16; 4], fpd: int, j: int, widths: bool) -> int
    decreases j,
{
    if j <= 0 {
        0
    } else {
        let prev = cells_max(images, starts, fpd, j - 1, widths);
        let idx = direct_index(starts, fpd, j - 1);
        if 0 <= idx < images.len() {
            let d = if widths { images[idx].0 as int } else { images[idx].1 as int };
            if d > prev { d } else { prev }
        } else {
            prev
        }
    }
}

/// The widest (or tallest) sprite over the first `n` direct animations.
pub open spec fn anims_max(images: Seq<(u16, u16, Seq<u8>)>, anims: Seq<(u16, [u16; 4], usize)>, n: int, widths: bool) -> int
    decreases n,
{
    if n <= 0 {
        0
    } else {
        let prev = anims_max(images, anims, n - 1, widths);
        let here = cells_max(images, anims[n - 1].1, anims[n - 1].2 as int, 20 * anims[n - 1].2, widths);
        if here > prev { here } else { prev }
    }
}

/// Whether every sprite a direct animation draws fits a `fw` x `fh` cell.
pub open spec fn cells_fit(images: Seq<(u16, u16, Seq<u8>)>, starts: [u16; 4], fpd: int, fw: int, fh: int) -> bool {
    forall|j: int|
        0 <= j < 20 * fpd && 0 <= #[trigger] direct_index(starts, fpd, j) < images.len() ==> images[direct_index(
            starts,
            fpd,
            j,
        )].0 <= fw && images[direct_index(starts, fpd, j)].1 <= fh
}

/// Pixel (`x`, `y`) of a direct animation's atlas: a row of `fw` x `fh`
/// cells per tribe and stored direction (tribe-major), a column per frame;
/// each cell holds its sprite centred (rounding up and left), opaque in its
/// palette colour (magenta past the palette) where the sprite is not
/// transparent (255), transparent black elsewhere and where the sprite is
/// missing.
pub open spec fn direct_pixel(
    images: Seq<(u16, u16, Seq<u8>)>,
    palette: Seq<[u8; 4]>,
    starts: [u16; 4],
    fpd: int,
    fw: int,
    fh: int,
    x: int,
    y: int,
) -> [u8; 4] {
    let row = y / fh;
    let idx = starts[row / 5] as int + (row % 5) * fpd + x / fw;
    if 0 <= idx < images.len() {
        let im = images[idx];
        let sw = im.0 as int;
        let sh = im.1 as int;
        let lx = x % fw - (fw - sw) / 2;
        let ly = y % fh - (fh - sh) / 2;
        if 0 <= lx < sw && 0 <= ly < sh && im.2[ly * sw + lx] != 255 {
            let c = palette_color(palette, im.2[ly * sw + lx] as int);
            [c[0], c[1], c[2], 255u8]
        } else {
            [0u8, 0u8, 0u8, 0u8]
        }
    } else {
        [0u8, 0u8, 0u8, 0u8]
    }
}

/// Whether `rgba` is the atlas of a direct animation with `fw` x `fh` cells.
pub open spec fn is_direct_block(
    rgba: Seq<u8>,
    images: Seq<(u16, u16, Seq<u8>)>,
    palette: Seq<[u8; 4]>,
    starts: [u16; 4],
    fpd: int,
    fw: int,
    fh: int,
) -> bool {
    &&& rgba.len() == fw * fpd * 4 * (fh * 20)
    &&& forall|x: int, y: int, c: int|
        0 <= x < fw * fpd && 0 <= y < fh * 20 && 0 <= c < 4 ==> #[trigger] rgba[(y * (fw * fpd) + x) * 4 + c]
            == direct_pixel(images, palette, starts, fpd, fw, fh, x, y)[c]
}

/// The (animation id, first column, frames) entries of the first `n` direct
/// animations, side by side from column 0.
pub open spec fn direct_offsets(anims: Seq<(u16, [u16; 4], usize)>, n: int) -> Seq<(usize, u32, u32)>
    decreases n,
{
    if n <= 0 {
        seq![]
    } else {
        let prev = direct_offsets(anims, n - 1);
        prev.push((anims[n - 1].0 as usize, offsets_total(prev) as u32, anims[n - 1].2 as u32))
    }
}

proof fn lemma_row_col(j: int, fpd: int)
    requires
        fpd > 0,
        0 <= j < 20 * fpd,
    ensures
        0 <= j / fpd < 20,
        0 <= j % fpd < fpd,
{
    assert(j / fpd < 20) by (nonlinear_arith)
        requires
            fpd > 0,
            0 <= j < 20 * fpd,
    ;
}

proof fn lemma_cell_index(row: int, f: int, fpd: int)
    requires
        0 <= row,
        0 <= f < fpd,
    ensures
        (row * fpd + f) / fpd == row,
        (row * fpd + f) % fpd == f,
{
    vstd::arithmetic::div_mod::lemma_fundamental_div_mod_converse(row * fpd + f, fpd, row, f);
}

/// The widest and tallest sprites of a direct animation, which every sprite
/// it draws fits.
fn cells_max_of(container: &SpriteBank, starts: &[u16; 4], fpd: usize) -> (r: (u32, u32))
    requires
        20 * fpd <= u32::MAX,
    ensures
        r.0 == cells_max(container.images_spec(), *starts, fpd as int, 20 * fpd, true),
        r.1 == cells_max(container.images_spec(), *starts, fpd as int, 20 * fpd, false),
        cells_fit(container.images_spec(), *starts, fpd as int, r.0 as int, r.1 as int),
{
    let ghost images = container.images_spec();
    let n = 20 * fpd;
    let mut mw: u32 = 0;
    let mut mh: u32 = 0;
    let mut j: usize = 0;
    while j < n
        invariant
            images == container.images_spec(),
            n == 20 * fpd,
            n <= u32::MAX,
            j <= n,
            mw == cells_max(images, *starts, fpd as int, j as int, true),
            mh == cells_max(images, *starts, fpd as int, j as int, false),
            forall|i: int|
                0 <= i < j && 0 <= #[trigger] direct_index(*starts, fpd as int, i) < images.len() ==> images[direct_index(
                    *starts,
                    fpd as int,
                    i,
                )].0 <= mw && images[direct_index(*starts, fpd as int, i)].1 <= mh,
        decreases n - j,
    {
        proof {
            lemma_row_col(j as int, fpd as int);
        }
        let row = j / fpd;
        let f = j % fpd;
        let d = row % 5;
        assert(d * fpd <= 4 * fpd) by (nonlinear_arith)
            requires
                d <= 4,
                fpd >= 0,
        ;
        let idx = starts[row / 5] as usize + d * fpd + f;
        assert(idx == direct_index(*starts, fpd as int, j as int));
        match container.get_info(idx) {
            Some(info) => {
                if info.width as u32 > mw {
                    mw = info.width as u32;
                }
                if info.height as u32 > mh {
                    mh = info.height as u32;
                }
            },
            None => {},
        }
        j += 1;
    }
    (mw, mh)
}

/// Pixel (`x`, `y`) of a direct animation's atlas.
fn direct_pixel_color(
    container: &SpriteBank,
    palette: &[[u8; 4]],
    starts: &[u16; 4],
    fpd: usize,
    fw: u32,
    fh: u32,
    x: u32,
    y: u32,
) -> (r: [u8; 4])
    requires
        container.wf(),
        20 * fpd <= u32::MAX,
        fw >= 1,
        fh >= 1,
        x < fw * fpd,
        y < fh * 20,
        cells_fit(container.images_spec(), *starts, fpd as int, fw as int, fh as int),
    ensures
        r == direct_pixel(container.images_spec(), palette@, *starts, fpd as int, fw as int, fh as int, x as int, y as int),
{
    let ghost images = container.images_spec();
    let row = y / fh;
    let f = x / fw;
    proof {
        assert(row < 20) by (nonlinear_arith)
            requires
                row == y / fh,
                y < fh * 20,
                fh >= 1,
        ;
        assert(f < fpd) by (nonlinear_arith)
            requires
                f == x / fw,
                x < fw * fpd,
                fw >= 1,
        ;
    }
    let d = (row % 5) as usize;
    assert(d * fpd <= 4 * fpd) by (nonlinear_arith)
        requires
            d <= 4,
            fpd >= 0,
    ;
    let idx = starts[(row / 5) as usize] as usize + d * fpd + f as usize;
    let image: &SpriteImage = match container.get_image(idx) {
        Some(im) => im,
        None => return [0, 0, 0, 0],
    };
    proof {
        container.lemma_wf_sizes();
        let j = row * fpd + f;
        lemma_cell_index(row as int, f as int, fpd as int);
        assert(j < 20 * fpd) by (nonlinear_arith)
            requires
                j == row * fpd + f,
                row < 20,
                f < fpd,
        ;
        assert(direct_index(*starts, fpd as int, j) == idx);
    }
    let sw = image.width as i64;
    let sh = image.height as i64;
    let lx = (x % fw) as i64 - (fw as i64 - sw) / 2;
    let ly = (y % fh) as i64 - (fh as i64 - sh) / 2;
    if lx < 0 || lx >= sw || ly < 0 || ly >= sh {
        return [0, 0, 0, 0];
    }
    assert(0 <= ly * sw + lx < sw * sh) by (nonlinear_arith)
        requires
            0 <= lx < sw,
            0 <= ly < sh,
    ;
    assert(sw * sh <= 0xffff * 0xffff) by (nonlinear_arith)
        requires
            0 <= sw <= 0xffff,
            0 <= sh <= 0xffff,
    ;
    let src = image.data[(ly * sw + lx) as usize];
    if src == 255 {
        return [0, 0, 0, 0];
    }
    let c: [u8; 4] = if (src as usize) < palette.len() { palette[src as usize] } else { [255, 0, 255, 255] };
    [c[0], c[1], c[2], 255]
}

/// The atlas of one direct animation with `fw` x `fh` cells.
fn direct_block(
    container: &SpriteBank,
    palette: &[[u8; 4]],
    starts: &[u16; 4],
    fpd: usize,
    fw: u32,
    fh: u32,
) -> (r: Vec<u8>)
    requires
        container.wf(),
        20 * fpd <= u32::MAX,
        1 <= fw <= 0xffff,
        1 <= fh <= 0xffff,
        fw * fpd * fh * 20 * 4 <= u32::MAX,
        cells_fit(container.images_spec(), *starts, fpd as int, fw as int, fh as int),
    ensures
        is_direct_block(r@, container.images_spec(), palette@, *starts, fpd as int, fw as int, fh as int),
{
    let ghost images = container.images_spec();
    proof {
        assert(fw * fpd * (fh * 20) * 4 == fw * fpd * fh * 20 * 4) by (nonlinear_arith);
        assert(fw * fpd <= fw * fpd * fh * 20 * 4) by (nonlinear_arith)
            requires
                fw >= 1,
                fh >= 1,
                fpd >= 0,
        ;
    }
    let w = fw * (fpd as u32);
    let h = fh * 20;
    let mut rgba: Vec<u8> = Vec::new();
    let mut y: u32 = 0;
    while y < h
        invariant
            container.wf(),
            images == container.images_spec(),
            20 * fpd <= u32::MAX,
            fw >= 1,
            fh >= 1,
            w == fw * fpd,
            h == fh * 20,
            w * h * 4 <= u32::MAX,
            cells_fit(images, *starts, fpd as int, fw as int, fh as int),
            y <= h,
            rgba@.len() == y * w * 4,
            forall|px: int, py: int, c: int|
                0 <= px < w && 0 <= py < y && 0 <= c < 4 ==> #[trigger] rgba@[(py * w + px) * 4 + c] == direct_pixel(
                    images,
                    palette@,
                    *starts,
                    fpd as int,
                    fw as int,
                    fh as int,
                    px,
                    py,
                )[c],
        decreases h - y,
    {
        let mut x: u32 = 0;
        while x < w
            invariant
                container.wf(),
                images == container.images_spec(),
                20 * fpd <= u32::MAX,
                fw >= 1,
                fh >= 1,
                w == fw * fpd,
                h == fh * 20,
                w * h * 4 <= u32::MAX,
                cells_fit(images, *starts, fpd as int, fw as int, fh as int),
                y < h,
                x <= w,
                rgba@.len() == (y * w + x) * 4,
                forall|px: int, py: int, c: int|
                    0 <= px < w && 0 <= py < h && (py < y || (py == y && px < x)) && 0 <= c < 4 ==> #[trigger] rgba@[(py
                        * w + px) * 4 + c] == direct_pixel(
                        images,
                        palette@,
                        *starts,
                        fpd as int,
                        fw as int,
                        fh as int,
                        px,
                        py,
                    )[c],
            decreases w - x,
        {
            let color = direct_pixel_color(container, palette, starts, fpd, fw, fh, x, y);
            let ghost before = rgba@;
            proof {
                assert((y * w + x) * 4 + 4 <= w * h * 4) by (nonlinear_arith)
                    requires
                        x < w,
                        y < h,
                ;
            }
            rgba.push(color[0]);
            rgba.push(color[1]);
            rgba.push(color[2]);
            rgba.push(color[3]);
            proof {
                assert forall|px: int, py: int, c: int|
                    0 <= px < w && 0 <= py < h && (py < y || (py == y && px < x + 1)) && 0 <= c < 4 implies #[trigger] rgba@[(
                    py * w + px) * 4 + c] == direct_pixel(
                    images,
                    palette@,
                    *starts,
                    fpd as int,
                    fw as int,
                    fh as int,
                    px,
                    py,
                )[c] by {
                    if py < y {
                        assert(py * w + px < y * w + x) by (nonlinear_arith)
                            requires
                                py < y,
                                0 <= px < w,
                                0 <= x,
                        ;
                        assert(rgba@[(py * w + px) * 4 + c] == before[(py * w + px) * 4 + c]);
                    } else if px < x {
                        assert(rgba@[(py * w + px) * 4 + c] == before[(py * w + px) * 4 + c]);
                    } else {
                        assert(rgba@[(py * w + px) * 4 + c] == color[c]);
                    }
                }
            }
            x += 1;
        }
        proof {
            assert(rgba@.len() == (y + 1) * w * 4) by (nonlinear_arith)
                requires
                    rgba@.len() == (y * w + w) * 4,
            ;
        }
        y += 1;
    }
    proof {
        assert(rgba@.len() == fw * fpd * 4 * (fh * 20)) by (nonlinear_arith)
            requires
                rgba@.len() == y * w * 4,
                y == h,
                w == fw * fpd,
                h == fh * 20,
        ;
    }
    rgba
}

/// Every sprite among the first `j` cells fits the widest and tallest.
proof fn lemma_cells_max(images: Seq<(u16, u16, Seq<u8>)>, starts: [u16; 4], fpd: int, j: int)
    ensures
        0 <= cells_max(images, starts, fpd, j, true) <= 0xffff,
        0 <= cells_max(images, starts, fpd, j, false) <= 0xffff,
        forall|i: int|
            0 <= i < j && 0 <= #[trigger] direct_index(starts, fpd, i) < images.len() ==> images[direct_index(
                starts,
                fpd,
                i,
            )].0 <= cells_max(images, starts, fpd, j, true) && images[direct_index(starts, fpd, i)].1 <= cells_max(
                images,
                starts,
                fpd,
                j,
                false,
            ),
    decreases j,
{
    if j > 0 {
        lemma_cells_max(images, starts, fpd, j - 1);
    }
}

/// The widest and tallest over several animations bound each one's.
proof fn lemma_anims_max(images: Seq<(u16, u16, Seq<u8>)>, anims: Seq<(u16, [u16; 4], usize)>, n: int)
    ensures
        0 <= anims_max(images, anims, n, true) <= 0xffff,
        0 <= anims_max(images, anims, n, false) <= 0xffff,
        forall|k: int|
            0 <= k < n ==> cells_fit(
                images,
                (#[trigger] anims[k]).1,
                anims[k].2 as int,
                anims_max(images, anims, n, true),
                anims_max(images, anims, n, false),
            ),
    decreases n,
{
    if n > 0 {
        lemma_anims_max(images, anims, n - 1);
        let a = anims[n - 1];
        lemma_cells_max(images, a.1, a.2 as int, 20 * a.2);
    }
}

/// The integers the atlas of one direct animation computes fit their types.
pub open spec fn direct_sprite_in_range(images: Seq<(u16, u16, Seq<u8>)>, starts: [u16; 4], fpd: int) -> bool {
    &&& 20 * fpd <= u32::MAX
    &&& cells_max(images, starts, fpd, 20 * fpd, true) * fpd * cells_max(images, starts, fpd, 20 * fpd, false) * 20 * 4
        <= u32::MAX
}

/// Build the atlas of an animation stored as complete sprites, one per
/// tribe, stored direction and frame (`tribe_sprite_starts` gives each
/// tribe's first; a tribe's sprites hold each direction's frames in turn).
/// Rows and columns are laid out as in `build_tribe_atlas`; cells are as
/// large as the widest and tallest sprite, each sprite centred in its cell.
/// `None` without frames or without any sprite. The result is (atlas
/// width, atlas height, RGBA pixels, frame width, frame height, frames per
/// direction, padding below the feet).
pub fn build_direct_sprite_atlas(
    container: &SpriteBank,
    palette: &[[u8; 4]],
    tribe_sprite_starts: &[u16; 4],
    frames_per_dir: usize,
) -> (r: Option<(u32, u32, Vec<u8>, u32, u32, u32, i32)>)
    requires
        container.wf(),
        direct_sprite_in_range(container.images_spec(), *tribe_sprite_starts, frames_per_dir as int),
    ensures
        ({
            let images = container.images_spec();
            let fpd = frames_per_dir as int;
            let mw = cells_max(images, *tribe_sprite_starts, fpd, 20 * fpd, true);
            let mh = cells_max(images, *tribe_sprite_starts, fpd, 20 * fpd, false);
            &&& r is None <==> (fpd == 0 || mw == 0 || mh == 0)
            &&& r matches Some(t) ==> {
                &&& t.0 == mw * fpd
                &&& t.1 == mh * 20
                &&& t.3 == mw
                &&& t.4 == mh
                &&& t.5 == fpd
                &&& t.6 == 0
                &&& is_direct_block(t.2@, images, palette@, *tribe_sprite_starts, fpd, mw, mh)
            }
        }),
{
    if frames_per_dir == 0 {
        return None;
    }
    let (max_w, max_h) = cells_max_of(container, tribe_sprite_starts, frames_per_dir);
    if max_w == 0 || max_h == 0 {
        return None;
    }
    proof {
        lemma_cells_max(container.images_spec(), *tribe_sprite_starts, frames_per_dir as int, 20 * frames_per_dir);
        assert(max_w * frames_per_dir <= u32::MAX && max_h * 20 <= u32::MAX) by (nonlinear_arith)
            requires
                max_w * frames_per_dir * max_h * 20 * 4 <= u32::MAX,
                max_w >= 1,
                max_h >= 1,
                frames_per_dir >= 1,
        ;
    }
    let fw = max_w;
    let fh = max_h;
    let rgba = direct_block(container, palette, tribe_sprite_starts, frames_per_dir, fw, fh);
    let atlas_w = fw * frames_per_dir as u32;
    let atlas_h = fh * 20;
    let below_foot = ((fh - max_h) / 2) as i32;
    Some((atlas_w, atlas_h, rgba, fw, fh, frames_per_dir as u32, below_foot))
}

/// The integers a combined atlas of direct animations computes fit their
/// types.
pub open spec fn direct_multi_in_range(images: Seq<(u16, u16, Seq<u8>)>, anims: Seq<(u16, [u16; 4], usize)>) -> bool {
    let n = anims.len() as int;
    &&& forall|i: int| 0 <= i < n ==> 20 * (#[trigger] anims[i]).2 <= u32::MAX
    &&& anims_max(images, anims, n, true) * offsets_total(direct_offsets(anims, n)) * anims_max(images, anims, n, false)
        * 20 * 4 <= u32::MAX
}

proof fn lemma_direct_offsets(anims: Seq<(u16, [u16; 4], usize)>, i: int, n: int)
    requires
        0 <= i <= n,
    ensures
        offsets_total(direct_offsets(anims, i)) <= offsets_total(direct_offsets(anims, n)),
        direct_offsets(anims, n).len() == n,
    decreases n,
{
    if n > 0 {
        let prev = direct_offsets(anims, n - 1);
        assert(direct_offsets(anims, n).drop_last() =~= prev);
        if i < n {
            lemma_direct_offsets(anims, i, n - 1);
        } else {
            lemma_direct_offsets(anims, n - 1, n - 1);
        }
    }
}

/// Build one atlas of several direct animations (see
/// `build_direct_sprite_atlas`) side by side, each taking a block of
/// columns, with cells as large as the widest and tallest sprite of all of
/// them. `None` when no animation is given or none has a sprite. The result
/// is (atlas width, atlas height, RGBA pixels, frame width, frame height,
/// columns, (animation id, first column, frames) per animation, padding
/// below the feet).
pub fn build_direct_multi_anim_atlas(
    container: &SpriteBank,
    palette: &[[u8; 4]],
    anims: &[(u16, [u16; 4], usize)],
) -> (r: Option<(u32, u32, Vec<u8>, u32, u32, u32, Vec<(usize, u32, u32)>, i32)>)
    requires
        container.wf(),
        direct_multi_in_range(container.images_spec(), anims@),
    ensures
        ({
            let images = container.images_spec();
            let n = anims@.len() as int;
            let fw = anims_max(images, anims@, n, true);
            let fh = anims_max(images, anims@, n, false);
            let offs = direct_offsets(anims@, n);
            let total = offsets_total(offs);
            &&& r is None <==> (n == 0 || fw == 0 || fh == 0)
            &&& r matches Some(t) ==> {
                &&& t.0 == fw * total
                &&& t.1 == fh * 20
                &&& t.3 == fw
                &&& t.4 == fh
                &&& t.5 == total
                &&& t.6@ == offs
                &&& t.7 == 0
                &&& t.2@.len() == t.0 * t.1 * 4
                &&& forall|k: int| 0 <= k < n ==> (#[trigger] offs[k]).1 == offsets_total(offs.subrange(0, k))
                &&& forall|k: int| 0 <= k < n ==> (#[trigger] offs[k]).2 == anims@[k].2
                &&& forall|k: int, x: int, y: int, c: int|
                    0 <= k < n && 0 <= x < fw * offs[k].2 && 0 <= y < t.1 && 0 <= c < 4 ==> #[trigger] t.2@[(y * t.0
                        + offs[k].1 * fw + x) * 4 + c] == direct_pixel(
                        images,
                        palette@,
                        anims@[k].1,
                        anims@[k].2 as int,
                        fw,
                        fh,
                        x,
                        y,
                    )[c]
            }
        }),
{
    let ghost images = container.images_spec();
    let ghost n = anims@.len() as int;
    if anims.len() == 0 {
        return None;
    }
    // The cell size shared by every animation.
    let mut fw: u32 = 0;
    let mut fh: u32 = 0;
    let mut i: usize = 0;
    while i < anims.len()
        invariant
            images == container.images_spec(),
            n == anims@.len(),
            forall|j: int| 0 <= j < n ==> 20 * (#[trigger] anims@[j]).2 <= u32::MAX,
            i <= n,
            fw == anims_max(images, anims@, i as int, true),
            fh == anims_max(images, anims@, i as int, false),
        decreases n - i,
    {
        let (w, h) = cells_max_of(container, &anims[i].1, anims[i].2);
        if w > fw {
            fw = w;
        }
        if h > fh {
            fh = h;
        }
        i += 1;
    }
    if fw == 0 || fh == 0 {
        return None;
    }
    let ghost all = direct_offsets(anims@, n);
    let ghost total = offsets_total(all);
    proof {
        lemma_anims_max(images, anims@, n);
        lemma_direct_offsets(anims@, 0, n);
        assert(total * 80 <= u32::MAX) by (nonlinear_arith)
            requires
                fw * total * fh * 20 * 4 <= u32::MAX,
                fw >= 1,
                fh >= 1,
                total >= 0,
        ;
    }
    // Each animation's atlas with the shared cell size.
    let mut blocks: Vec<Vec<u8>> = Vec::new();
    let mut offsets: Vec<(usize, u32, u32)> = Vec::new();
    let mut col: u32 = 0;
    i = 0;
    while i < anims.len()
        invariant
            container.wf(),
            images == container.images_spec(),
            n == anims@.len(),
            forall|j: int| 0 <= j < n ==> 20 * (#[trigger] anims@[j]).2 <= u32::MAX,
            1 <= fw <= 0xffff,
            1 <= fh <= 0xffff,
            fw == anims_max(images, anims@, n, true),
            fh == anims_max(images, anims@, n, false),
            forall|k: int| 0 <= k < n ==> cells_fit(images, (#[trigger] anims@[k]).1, anims@[k].2 as int, fw as int, fh as int),
            all == direct_offsets(anims@, n),
            total == offsets_total(all),
            total * 80 <= u32::MAX,
            fw * total * fh * 20 * 4 <= u32::MAX,
            i <= n,
            offsets@ == direct_offsets(anims@, i as int),
            col == offsets_total(offsets@),
            blocks@.len() == i,
            forall|k: int| 0 <= k < i ==> (#[trigger] offsets@[k]).1 == offsets_total(offsets@.subrange(0, k)),
            forall|k: int| 0 <= k < i ==> (#[trigger] offsets@[k]).2 == anims@[k].2,
            forall|k: int|
                0 <= k < i ==> is_direct_block(
                    #[trigger] blocks@[k]@,
                    images,
                    palette@,
                    anims@[k].1,
                    anims@[k].2 as int,
                    fw as int,
                    fh as int,
                ),
        decreases n - i,
    {
        let fpd = anims[i].2;
        proof {
            lemma_direct_offsets(anims@, i as int, i as int);
            lemma_direct_offsets(anims@, i as int + 1, n);
            let next = direct_offsets(anims@, i as int + 1);
            assert(next.drop_last() =~= offsets@);
            assert(fpd <= total);
            assert(fw * fpd * fh * 20 * 4 <= fw * total * fh * 20 * 4) by (nonlinear_arith)
                requires
                    fpd <= total,
                    fw >= 1,
                    fh >= 1,
                    fpd >= 0,
            ;
        }
        let block = direct_block(container, palette, &anims[i].1, fpd, fw, fh);
        let ghost prev = offsets@;
        let ghost prev_blocks = blocks@;
        offsets.push((anims[i].0 as usize, col, fpd as u32));
        blocks.push(block);
        proof {
            assert(offsets@ =~= direct_offsets(anims@, i as int + 1));
            assert(offsets@.drop_last() =~= prev);
            assert forall|k: int| 0 <= k < i + 1 implies (#[trigger] offsets@[k]).1 == offsets_total(offsets@.subrange(0, k)) by {
                if k < i {
                    assert(offsets@.subrange(0, k) =~= prev.subrange(0, k));
                } else {
                    assert(offsets@.subrange(0, k) =~= prev);
                }
            }
            assert forall|k: int| 0 <= k < i + 1 implies is_direct_block(
                #[trigger] blocks@[k]@,
                images,
                palette@,
                anims@[k].1,
                anims@[k].2 as int,
                fw as int,
                fh as int,
            ) by {
                if k < i {
                    assert(blocks@[k] == prev_blocks[k]);
                }
            }
        }
        col = col + fpd as u32;
        i += 1;
    }
    let total_cols = col;
    proof {
        assert(offsets@ == all);
        assert(fw * total <= u32::MAX && fw * total * (fh * 20) * 4 <= u32::MAX) by (nonlinear_arith)
            requires
                fw * total * fh * 20 * 4 <= u32::MAX,
                fw >= 1,
                fh >= 1,
                total >= 0,
        ;
    }
    let atlas_w = fw * total_cols;
    let atlas_h = fh * 20;
    proof {
        assert forall|k: int| 0 <= k < blocks@.len() implies (#[trigger] blocks@[k])@.len() == fw * offsets@[k].2 * 4
            * atlas_h by {
            assert(fw * anims@[k].2 * 4 * (fh * 20) == fw * anims@[k].2 * 4 * atlas_h);
        }
    }
    let combined = combine_blocks(&blocks, &offsets, fw, atlas_w, atlas_h);
    proof {
        assert forall|k: int, x: int, y: int, c: int|
            0 <= k < n && 0 <= x < fw * all[k].2 && 0 <= y < atlas_h && 0 <= c < 4 implies #[trigger] combined@[(y
                * atlas_w + all[k].1 * fw + x) * 4 + c] == direct_pixel(
                images,
                palette@,
                anims@[k].1,
                anims@[k].2 as int,
                fw as int,
                fh as int,
                x,
                y,
            )[c] by {
            let w = fw * all[k].2;
            lemma_byte_index(y, x, c, atlas_w as int, all[k].1 * fw);
            lemma_byte_index(y, x, c, w, 0);
            assert(blocks@[k]@[(y * w + x) * 4 + c] == direct_pixel(images, palette@, anims@[k].1, anims@[k].2 as int, fw as int, fh as int, x, y)[c]);
            assert(0 <= x * 4 + c < w * 4);
        }
        assert(combined@.len() == atlas_w * atlas_h * 4) by (nonlinear_arith)
            requires
                combined@.len() == atlas_w * 4 * atlas_h,
        ;
    }
    Some((atlas_w, atlas_h, combined, fw, fh, total_cols, offsets, 0))
}

} // verus!
