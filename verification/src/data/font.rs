//! The 8x8 bitmap font, and its copies scaled by whole numbers.

use vstd::prelude::*;

verus! {

/// Number of glyphs: printable ASCII 32..=127.
pub const GLYPH_COUNT: usize = 96;

/// One glyph: a byte per pixel, 0 transparent, 255 opaque, row by row.
pub struct FontGlyph {
    pub width: u32,
    pub height: u32,
    pub bitmap: Vec<u8>,
}

/// The glyphs of ASCII 32..=127, all of one size.
pub struct FontData {
    pub glyph_width: u32,
    pub glyph_height: u32,
    glyphs: Vec<FontGlyph>,
}

/// Pixel (`x`, `y`) of an 8x8 glyph given as eight rows of bits, the most
/// significant bit leftmost.
pub open spec fn bit_pixel(rows: [u8; 8], x: int, y: int) -> u8 {
    if rows[y] & (0x80u8 >> (x as u8)) != 0 { 255 } else { 0 }
}

impl FontData {
    /// The glyphs.
    pub closed spec fn glyphs_spec(&self) -> Seq<FontGlyph> {
        self.glyphs@
    }

    /// Width of every glyph.
    pub closed spec fn width_spec(&self) -> u32 {
        self.glyph_width
    }

    /// Height of every glyph.
    pub closed spec fn height_spec(&self) -> u32 {
        self.glyph_height
    }

    /// Number of glyphs.
    pub fn glyph_count(&self) -> (r: usize)
        ensures
            r == self.glyphs_spec().len(),
    {
        self.glyphs.len()
    }

    /// Every glyph has the font's size and a full bitmap, and there is at
    /// least one glyph, the blank one first.
    pub closed spec fn wf(&self) -> bool {
        &&& self.glyphs_spec().len() >= 1
        &&& forall|i: int|
            0 <= i < self.glyphs_spec().len() ==> {
                let g = #[trigger] self.glyphs_spec()[i];
                &&& g.width == self.glyph_width
                &&& g.height == self.glyph_height
                &&& g.bitmap@.len() == self.glyph_width * self.glyph_height
            }
    }

    /// The font of 96 glyphs given as 8x8 bit rows.
    pub fn from_8x8_bitmap(data: &[[u8; 8]; 96]) -> (r: Self)
        ensures
            r.wf(),
            r.width_spec() == 8,
            r.height_spec() == 8,
            r.glyphs_spec().len() == GLYPH_COUNT,
            forall|i: int, x: int, y: int|
                0 <= i < GLYPH_COUNT && 0 <= x < 8 && 0 <= y < 8 ==> (#[trigger] r.glyphs_spec()[i].bitmap@[y * 8 + x])
                    == bit_pixel(data[i], x, y),
    {
        let mut glyphs: Vec<FontGlyph> = Vec::new();
        let mut i: usize = 0;
        while i < GLYPH_COUNT
            invariant
                i <= GLYPH_COUNT,
                glyphs@.len() == i,
                forall|k: int|
                    0 <= k < i ==> {
                        let g = #[trigger] glyphs@[k];
                        &&& g.width == 8 && g.height == 8 && g.bitmap@.len() == 64
                        &&& forall|x: int, y: int|
                            0 <= x < 8 && 0 <= y < 8 ==> #[trigger] g.bitmap@[y * 8 + x] == bit_pixel(data[k], x, y)
                    },
            decreases GLYPH_COUNT - i,
        {
            let rows = data[i];
            let mut bitmap: Vec<u8> = Vec::new();
            let mut y: usize = 0;
            while y < 8
                invariant
                    y <= 8,
                    rows == data[i as int],
                    bitmap@.len() == y * 8,
                    forall|yy: int, x: int|
                        0 <= yy < y && 0 <= x < 8 ==> #[trigger] bitmap@[yy * 8 + x] == bit_pixel(rows, x, yy),
                decreases 8 - y,
            {
                let mut x: u8 = 0;
                while x < 8
                    invariant
                        x <= 8,
                        y < 8,
                        bitmap@.len() == y * 8 + x,
                        forall|yy: int, xx: int|
                            0 <= yy < y && 0 <= xx < 8 ==> #[trigger] bitmap@[yy * 8 + xx] == bit_pixel(rows, xx, yy),
                        forall|xx: int| 0 <= xx < x ==> #[trigger] bitmap@[y * 8 + xx] == bit_pixel(rows, xx, y as int),
                    decreases 8 - x,
                {
                    let v: u8 = if rows[y] & (0x80u8 >> x) != 0 { 255 } else { 0 };
                    bitmap.push(v);
                    x += 1;
                }
                y += 1;
            }
            glyphs.push(FontGlyph { width: 8, height: 8, bitmap });
            i += 1;
        }
        FontData { glyph_width: 8, glyph_height: 8, glyphs }
    }

    /// The glyph of an ASCII character: printable characters 32..=127 map to
    /// glyphs 0..=95; any other character, or one the font lacks, gets the
    /// blank glyph 0.
    pub fn glyph(&self, ch: u8) -> (r: &FontGlyph)
        requires
            self.wf(),
        ensures
            32 <= ch <= 127 && ch - 32 < self.glyphs_spec().len() ==> *r == self.glyphs_spec()[ch - 32],
            !(32 <= ch <= 127 && ch - 32 < self.glyphs_spec().len()) ==> *r == self.glyphs_spec()[0],
    {
        if ch >= 32 && ch <= 127 {
            let idx = (ch - 32) as usize;
            if idx < self.glyphs.len() {
                return &self.glyphs[idx];
            }
        }
        &self.glyphs[0]
    }

    /// The font scaled by `scale`: each pixel becomes a `scale` x `scale`
    /// block.
    pub fn scaled(&self, scale: u32) -> (r: Self)
        requires
            self.wf(),
            self.width_spec() * scale <= u32::MAX,
            self.height_spec() * scale <= u32::MAX,
            (self.width_spec() * scale) * (self.height_spec() * scale) <= u32::MAX,
        ensures
            r.wf(),
            r.width_spec() == self.width_spec() * scale,
            r.height_spec() == self.height_spec() * scale,
            r.glyphs_spec().len() == self.glyphs_spec().len(),
            forall|i: int, x: int, y: int|
                0 <= i < self.glyphs_spec().len() && 0 <= x < r.width_spec() && 0 <= y < r.height_spec()
                    ==> (#[trigger] r.glyphs_spec()[i].bitmap@[y * r.width_spec() + x])
                    == self.glyphs_spec()[i].bitmap@[(y / (scale as int)) * self.width_spec() + x / (scale as int)],
    {
        let w = self.glyph_width;
        let h = self.glyph_height;
        proof {
            lemma_scaled_size(w as int, h as int, scale as int);
        }
        let new_w = w * scale;
        let new_h = h * scale;
        let mut new_glyphs: Vec<FontGlyph> = Vec::new();
        let mut i: usize = 0;
        while i < self.glyphs.len()
            invariant
                self.wf(),
                w == self.glyph_width,
                h == self.glyph_height,
                new_w == w * scale,
                new_h == h * scale,
                new_w * new_h <= u32::MAX,
                scale > 0 || (new_w == 0 && new_h == 0),
                scale > 0 ==> w * h <= u32::MAX,
                i <= self.glyphs@.len(),
                new_glyphs@.len() == i,
                forall|k: int|
                    0 <= k < i ==> {
                        let g = #[trigger] new_glyphs@[k];
                        &&& g.width == new_w && g.height == new_h && g.bitmap@.len() == new_w * new_h
                        &&& forall|x: int, y: int|
                            0 <= x < new_w && 0 <= y < new_h ==> #[trigger] g.bitmap@[y * new_w + x]
                                == self.glyphs@[k].bitmap@[(y / (scale as int)) * w + x / (scale as int)]
                    },
            decreases self.glyphs@.len() - i,
        {
            let g = &self.glyphs[i];
            assert(g.width == w && g.height == h && g.bitmap@.len() == w * h);
            let mut bitmap: Vec<u8> = Vec::new();
            let mut ny: u32 = 0;
            while ny < new_h
                invariant
                    ny <= new_h,
                    new_w == w * scale,
                    new_h == h * scale,
                    new_w * new_h <= u32::MAX,
                    new_h > 0 ==> scale > 0,
                    scale > 0 ==> w * h <= u32::MAX,
                    g.bitmap@.len() == w * h,
                    bitmap@.len() == ny * new_w,
                    forall|x: int, y: int|
                        0 <= x < new_w && 0 <= y < ny ==> #[trigger] bitmap@[y * new_w + x]
                            == g.bitmap@[(y / (scale as int)) * w + x / (scale as int)],
                decreases new_h - ny,
            {
                let mut nx: u32 = 0;
                while nx < new_w
                    invariant
                        nx <= new_w,
                        ny < new_h,
                        new_w == w * scale,
                        new_h == h * scale,
                        new_w * new_h <= u32::MAX,
                        scale > 0,
                        w * h <= u32::MAX,
                        g.bitmap@.len() == w * h,
                        bitmap@.len() == ny * new_w + nx,
                        forall|x: int, y: int|
                            0 <= x < new_w && 0 <= y < ny ==> #[trigger] bitmap@[y * new_w + x]
                                == g.bitmap@[(y / (scale as int)) * w + x / (scale as int)],
                        forall|x: int| 0 <= x < nx ==> #[trigger] bitmap@[ny * new_w + x]
                            == g.bitmap@[(ny as int / (scale as int)) * w + x / (scale as int)],
                    decreases new_w - nx,
                {
                    proof {
                        lemma_source_index(nx as int, ny as int, w as int, h as int, scale as int);
                        lemma_row_index(nx as int, ny as int, new_w as int, new_h as int);
                    }
                    let src = (ny / scale) * w + nx / scale;
                    let ghost before = bitmap@;
                    bitmap.push(g.bitmap[src as usize]);
                    proof {
                        assert forall|x: int, y: int|
                            0 <= x < new_w && 0 <= y < ny implies #[trigger] bitmap@[y * new_w + x]
                                == g.bitmap@[(y / (scale as int)) * w + x / (scale as int)] by {
                            lemma_row_index(x, y, new_w as int, new_h as int);
                            assert((y + 1) * new_w <= ny * new_w) by (nonlinear_arith)
                                requires
                                    y + 1 <= ny,
                                    new_w >= 0,
                            ;
                            assert(bitmap@[y * new_w + x] == before[y * new_w + x]);
                        }
                        assert forall|x: int| 0 <= x < nx + 1 implies #[trigger] bitmap@[ny * new_w + x]
                            == g.bitmap@[(ny as int / (scale as int)) * w + x / (scale as int)] by {
                            if x < nx {
                                assert(bitmap@[ny * new_w + x] == before[ny * new_w + x]);
                            }
                        }
                    }
                    nx += 1;
                }
                proof {
                    assert forall|x: int, y: int|
                        0 <= x < new_w && 0 <= y < ny + 1 implies #[trigger] bitmap@[y * new_w + x]
                            == g.bitmap@[(y / (scale as int)) * w + x / (scale as int)] by {
                        lemma_row_index(x, y, new_w as int, new_h as int);
                    }
                    assert((ny + 1) * new_w == ny * new_w + new_w) by (nonlinear_arith);
                }
                ny += 1;
            }
            assert(bitmap@.len() == new_w * new_h) by (nonlinear_arith)
                requires
                    bitmap@.len() == ny * new_w,
                    ny == new_h,
            ;
            new_glyphs.push(FontGlyph { width: new_w, height: new_h, bitmap });
            i += 1;
        }
        FontData { glyph_width: new_w, glyph_height: new_h, glyphs: new_glyphs }
    }
}

proof fn lemma_scaled_size(w: int, h: int, s: int)
    requires
        w >= 0,
        h >= 0,
        s >= 0,
        (w * s) * (h * s) <= u32::MAX,
    ensures
        s == 0 ==> w * s == 0 && h * s == 0,
        s >= 1 ==> w * h <= u32::MAX,
        w * s >= 0 && h * s >= 0,
{
    assert(w * s >= 0 && h * s >= 0) by (nonlinear_arith)
        requires
            w >= 0,
            h >= 0,
            s >= 0,
    ;
    if s >= 1 {
        assert(w * h <= (w * s) * (h * s)) by (nonlinear_arith)
            requires
                w >= 0,
                h >= 0,
                s >= 1,
        ;
    }
}

/// The source pixel of a scaled pixel lies inside the source glyph.
proof fn lemma_source_index(nx: int, ny: int, w: int, h: int, s: int)
    requires
        0 <= nx < w * s,
        0 <= ny < h * s,
        s > 0,
    ensures
        0 <= nx / s < w,
        0 <= ny / s < h,
        0 <= (ny / s) * w + nx / s < w * h,
        (ny / s) * w + nx / s <= u32::MAX || w * h > u32::MAX,
{
    assert(nx / s < w) by (nonlinear_arith)
        requires
            0 <= nx < w * s,
            s > 0,
    ;
    assert(ny / s < h) by (nonlinear_arith)
        requires
            0 <= ny < h * s,
            s > 0,
    ;
    assert(0 <= (ny / s) * w + nx / s < w * h) by (nonlinear_arith)
        requires
            0 <= nx / s < w,
            0 <= ny / s < h,
    ;
}

/// Pixel (`x`, `y`) of a `w` x `h` image sits at index `y * w + x`, below
/// the next row's start.
proof fn lemma_row_index(x: int, y: int, w: int, h: int)
    requires
        0 <= x < w,
        0 <= y < h,
    ensures
        y * w + x < (y + 1) * w,
        (y + 1) * w <= w * h,
        0 <= y * w,
{
    assert(y * w + x < (y + 1) * w) by (nonlinear_arith)
        requires
            x < w,
    ;
    assert((y + 1) * w <= w * h) by (nonlinear_arith)
        requires
            y + 1 <= h,
            w >= 0,
    ;
    assert(0 <= y * w) by (nonlinear_arith)
        requires
            y >= 0,
            w >= 0,
    ;
}

} // verus!
