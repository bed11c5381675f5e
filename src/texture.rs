use vstd::prelude::*;
use crate::color::{Rgba, transparent};

verus! {

/// The mathematical content of a texture: its size and its pixels, row by
/// row, each row left to right.
pub struct TextureView {
    pub width: nat,
    pub height: nat,
    pub pixels: Seq<Rgba>,
}

impl TextureView {
    /// Position in `pixels` of the pixel at column `x`, row `y`.
    pub open spec fn index(self, x: int, y: int) -> int {
        y * self.width + x
    }

    pub open spec fn in_bounds(self, x: int, y: int) -> bool {
        0 <= x < self.width && 0 <= y < self.height
    }

    pub open spec fn pixel(self, x: int, y: int) -> Rgba {
        self.pixels[self.index(x, y)]
    }

    pub open spec fn wf(self) -> bool {
        &&& self.pixels.len() == self.width * self.height
        &&& self.width <= u32::MAX
        &&& self.height <= u32::MAX
        &&& self.width * self.height <= usize::MAX
    }
}

/// Every cell inside a `width` by `height` grid has its own position in the
/// row-major pixel sequence.
pub proof fn lemma_index_bounds(x: int, y: int, width: int, height: int)
    requires
        0 <= x < width,
        0 <= y < height,
    ensures
        0 <= y * width + x < width * height,
{
    assert(y * width + x < width * height) by (nonlinear_arith)
        requires
            0 <= x < width,
            0 <= y < height,
    ;
    assert(0 <= y * width) by (nonlinear_arith)
        requires
            0 <= y,
            0 <= width,
    ;
}

/// A grid of RGBA pixels of fixed size, stored row-major.
pub struct Texture {
    width: u32,
    height: u32,
    pixels: Vec<Rgba>,
}

impl View for Texture {
    type V = TextureView;

    closed spec fn view(&self) -> TextureView {
        TextureView { width: self.width as nat, height: self.height as nat, pixels: self.pixels@ }
    }
}

impl Texture {
    /// A texture of the given size where no pixel is written.
    pub fn new(width: u32, height: u32) -> (t: Texture)
        requires
            width * height <= usize::MAX,
        ensures
            t@.wf(),
            t@.width == width,
            t@.height == height,
            forall|i: int| 0 <= i < t@.pixels.len() ==> t@.pixels[i] == transparent(),
    {
        let n: usize = (width as usize) * (height as usize);
        let mut pixels: Vec<Rgba> = Vec::with_capacity(n);
        let mut i: usize = 0;
        while i < n
            invariant
                i <= n,
                pixels@.len() == i,
                forall|j: int| 0 <= j < i ==> pixels@[j] == transparent(),
            decreases n - i,
        {
            pixels.push(Rgba::transparent());
            i += 1;
        }
        Texture { width, height, pixels }
    }

    pub fn width(&self) -> (r: u32)
        ensures
            r == self@.width,
    {
        self.width
    }

    pub fn height(&self) -> (r: u32)
        ensures
            r == self@.height,
    {
        self.height
    }

    pub fn dimensions(&self) -> (r: (u32, u32))
        ensures
            r.0 == self@.width,
            r.1 == self@.height,
    {
        (self.width, self.height)
    }

    /// Number of pixels, `width * height`.
    pub fn pixel_count(&self) -> (r: usize)
        requires
            self@.wf(),
        ensures
            r == self@.pixels.len(),
    {
        self.pixels.len()
    }

    /// The pixel at position `i` in row-major order.
    pub fn get_at(&self, i: usize) -> (r: Rgba)
        requires
            self@.wf(),
            i < self@.pixels.len(),
        ensures
            r == self@.pixels[i as int],
    {
        self.pixels[i]
    }

    /// Writes `c` at position `i` in row-major order.
    pub fn put_at(&mut self, i: usize, c: Rgba)
        requires
            old(self)@.wf(),
            i < old(self)@.pixels.len(),
        ensures
            final(self)@.wf(),
            final(self)@.width == old(self)@.width,
            final(self)@.height == old(self)@.height,
            final(self)@.pixels == old(self)@.pixels.update(i as int, c),
    {
        self.pixels.set(i, c);
    }

    /// The pixel at column `x`, row `y`.
    pub fn get_pixel(&self, x: u32, y: u32) -> (r: Rgba)
        requires
            self@.wf(),
            self@.in_bounds(x as int, y as int),
        ensures
            r == self@.pixel(x as int, y as int),
    {
        proof {
            lemma_index_bounds(x as int, y as int, self.width as int, self.height as int);
        }
        self.pixels[(y as usize) * (self.width as usize) + (x as usize)]
    }

    /// Writes `c` at column `x`, row `y`, leaving every other pixel as it was.
    pub fn put_pixel(&mut self, x: u32, y: u32, c: Rgba)
        requires
            old(self)@.wf(),
            old(self)@.in_bounds(x as int, y as int),
        ensures
            final(self)@.wf(),
            final(self)@.width == old(self)@.width,
            final(self)@.height == old(self)@.height,
            final(self)@.pixels == old(self)@.pixels.update(old(self)@.index(x as int, y as int), c),
    {
        proof {
            lemma_index_bounds(x as int, y as int, self.width as int, self.height as int);
        }
        let i: usize = (y as usize) * (self.width as usize) + (x as usize);
        self.pixels.set(i, c);
    }
}

} // verus!
