//! The sprites that animation elements draw: a bank of paletted images,
//! one byte per pixel, 255 transparent.

use vstd::prelude::*;

verus! {

/// Size of a sprite.
#[derive(Debug, Copy, Clone, PartialEq, Eq, Structural)]
pub struct SpriteInfo {
    pub width: u16,
    pub height: u16,
}

/// A paletted sprite, row by row.
#[derive(Debug, Clone)]
pub struct SpriteImage {
    pub width: u16,
    pub height: u16,
    pub data: Vec<u8>,
}

/// The sprites of a sprite file, by index.
pub struct SpriteBank {
    images: Vec<SpriteImage>,
}

/// The palette colour of index `i`, magenta for indices past the palette.
pub open spec fn palette_color(palette: Seq<[u8; 4]>, i: int) -> [u8; 4] {
    if 0 <= i < palette.len() { palette[i] } else { [255u8, 0u8, 255u8, 255u8] }
}

impl SpriteBank {
    /// The sprites, each as (width, height, pixels).
    pub closed spec fn images_spec(&self) -> Seq<(u16, u16, Seq<u8>)> {
        self.images@.map_values(|im: SpriteImage| (im.width, im.height, im.data@))
    }

    /// Every sprite has exactly width x height pixels.
    pub closed spec fn wf(&self) -> bool {
        forall|i: int|
            0 <= i < self.images@.len() ==> (#[trigger] self.images@[i]).data@.len() == self.images@[i].width
                * self.images@[i].height
    }

    /// Each sprite of a well-formed bank has its width times height pixels.
    pub proof fn lemma_wf_sizes(&self)
        requires
            self.wf(),
        ensures
            forall|i: int|
                0 <= i < self.images_spec().len() ==> (#[trigger] self.images_spec()[i]).2.len() == self.images_spec()[i].0
                    * self.images_spec()[i].1,
    {
    }

    /// An empty bank.
    pub fn new() -> (r: Self)
        ensures
            r.wf(),
            r.images_spec() == Seq::<(u16, u16, Seq<u8>)>::empty(),
    {
        let r = SpriteBank { images: Vec::new() };
        assert(r.images_spec() =~= Seq::<(u16, u16, Seq<u8>)>::empty());
        r
    }

    /// Add a sprite at the next index; refused, changing nothing, when the
    /// pixels are not exactly width x height.
    pub fn add(&mut self, width: u16, height: u16, data: Vec<u8>) -> (r: bool)
        requires
            old(self).wf(),
        ensures
            final(self).wf(),
            r == (data@.len() == width * height),
            r ==> final(self).images_spec() == old(self).images_spec().push((width, height, data@)),
            !r ==> final(self).images_spec() == old(self).images_spec(),
    {
        assert(width as u64 * height as u64 <= 0xffff * 0xffff) by (nonlinear_arith)
            requires
                width <= 0xffff,
                height <= 0xffff,
        ;
        if data.len() as u64 != width as u64 * height as u64 {
            return false;
        }
        let ghost before = self.images@;
        self.images.push(SpriteImage { width, height, data });
        assert(self.images_spec() =~= before.map_values(|im: SpriteImage| (im.width, im.height, im.data@)).push(
            (width, height, self.images@[self.images@.len() - 1].data@),
        ));
        true
    }

    /// Number of sprites.
    pub fn len(&self) -> (r: usize)
        ensures
            r == self.images_spec().len(),
    {
        self.images.len()
    }

    /// Size of sprite `index`, if there is one.
    pub fn get_info(&self, index: usize) -> (r: Option<SpriteInfo>)
        ensures
            r is Some <==> index < self.images_spec().len(),
            r matches Some(i) ==> i.width == self.images_spec()[index as int].0 && i.height
                == self.images_spec()[index as int].1,
    {
        if index < self.images.len() {
            Some(SpriteInfo { width: self.images[index].width, height: self.images[index].height })
        } else {
            None
        }
    }

    /// Sprite `index`, if there is one.
    pub fn get_image(&self, index: usize) -> (r: Option<&SpriteImage>)
        ensures
            r is Some <==> index < self.images_spec().len(),
            r matches Some(im) ==> (im.width, im.height, im.data@) == self.images_spec()[index as int],
    {
        if index < self.images.len() {
            Some(&self.images[index])
        } else {
            None
        }
    }
}

} // verus!
