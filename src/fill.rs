use vstd::prelude::*;
use crate::blend::{average, average_of};
use crate::color::{Rgb, Rgba, opaque_of, transparent};
use crate::texture::{Texture, TextureView, lemma_index_bounds};

verus! {

/// Offset of the `k`-th of the eight neighbours of a pixel.
pub open spec fn neighbour_offset(k: int) -> (int, int) {
    if k == 0 {
        (0, 1)
    } else if k == 1 {
        (1, 1)
    } else if k == 2 {
        (1, 0)
    } else if k == 3 {
        (1, -1)
    } else if k == 4 {
        (0, -1)
    } else if k == 5 {
        (-1, 1)
    } else if k == 6 {
        (-1, 0)
    } else {
        (-1, -1)
    }
}

/// `v` clamped to `0..=hi`.
pub open spec fn clamp(v: int, hi: int) -> int {
    if v < 0 {
        0
    } else if v > hi {
        hi
    } else {
        v
    }
}

/// The `k`-th neighbour of the pixel at column `x`, row `y`, its coordinates
/// clamped to the texture.
pub open spec fn neighbour(t: TextureView, x: int, y: int, k: int) -> Rgba {
    let (dx, dy) = neighbour_offset(k);
    t.pixel(clamp(x + dx, t.width - 1), clamp(y + dy, t.height - 1))
}

/// Colors of the written ones among the first `k` neighbours, in order.
pub open spec fn written_neighbours(t: TextureView, x: int, y: int, k: int) -> Seq<Rgb>
    decreases k,
{
    if k <= 0 {
        Seq::empty()
    } else {
        let rest = written_neighbours(t, x, y, k - 1);
        let p = neighbour(t, x, y, k - 1);
        if p.a != 0 {
            rest.push(p.spec_rgb())
        } else {
            rest
        }
    }
}

/// The mean of the written neighbours, opaque; transparent where none of the
/// eight neighbours is written.
pub open spec fn neighbour_blend(t: TextureView, x: int, y: int) -> Rgba {
    let cs = written_neighbours(t, x, y, 8);
    if cs.len() == 0 {
        transparent()
    } else {
        opaque_of(average_of(cs))
    }
}

/// One step of hole filling at column `x`, row `y`: a transparent pixel with
/// a written neighbour takes the blend of its neighbours.
pub open spec fn fill_step(t: TextureView, x: int, y: int) -> TextureView {
    let c = neighbour_blend(t, x, y);
    if t.pixel(x, y).a == 0 && c.a != 0 {
        TextureView { width: t.width, height: t.height, pixels: t.pixels.update(t.index(x, y), c) }
    } else {
        t
    }
}

/// `t` after filling the first `u` pixels of row `y`, left to right.
pub open spec fn fill_row(t: TextureView, y: int, u: int) -> TextureView
    decreases u,
{
    if u <= 0 {
        t
    } else {
        fill_step(fill_row(t, y, u - 1), u - 1, y)
    }
}

/// `t` after filling its last `r` rows, from the last row upward.
pub open spec fn fill_rows(t: TextureView, r: int) -> TextureView
    decreases r,
{
    if r <= 0 {
        t
    } else {
        fill_row(fill_rows(t, r - 1), t.height - r, t.width as int)
    }
}

/// One pass of hole filling over the whole texture, rows from the last to
/// the first, each row left to right; every step sees the earlier writes.
pub open spec fn filled(t: TextureView) -> TextureView {
    fill_rows(t, t.height as int)
}

/// A pixel none of whose eight neighbours is written is left as it is.
pub proof fn lemma_no_written_neighbour_no_change(t: TextureView, x: int, y: int)
    requires
        written_neighbours(t, x, y, 8).len() == 0,
    ensures
        fill_step(t, x, y) == t,
{
}

proof fn lemma_fill_row_keeps_written(t: TextureView, y: int, u: int, i: int)
    requires
        t.wf(),
        0 <= y < t.height,
        u <= t.width,
        0 <= i < t.pixels.len(),
        t.pixels[i].a != 0,
    ensures
        fill_row(t, y, u).wf(),
        fill_row(t, y, u).width == t.width,
        fill_row(t, y, u).height == t.height,
        fill_row(t, y, u).pixels[i] == t.pixels[i],
    decreases u,
{
    if u > 0 {
        lemma_fill_row_keeps_written(t, y, u - 1, i);
        let s = fill_row(t, y, u - 1);
        let j = s.index(u - 1, y);
        lemma_index_bounds(u - 1, y, s.width as int, s.height as int);
        if j == i {
            assert(s.pixel(u - 1, y) == s.pixels[i]);
        }
    }
}

proof fn lemma_fill_rows_keeps_written(t: TextureView, r: int, i: int)
    requires
        t.wf(),
        r <= t.height,
        0 <= i < t.pixels.len(),
        t.pixels[i].a != 0,
    ensures
        fill_rows(t, r).wf(),
        fill_rows(t, r).width == t.width,
        fill_rows(t, r).height == t.height,
        fill_rows(t, r).pixels[i] == t.pixels[i],
    decreases r,
{
    if r > 0 {
        lemma_fill_rows_keeps_written(t, r - 1, i);
        lemma_fill_row_keeps_written(fill_rows(t, r - 1), t.height - r, t.width as int, i);
    }
}

/// Hole filling writes transparent pixels only: a written pixel keeps its
/// color, and the size stays.
pub proof fn lemma_fill_keeps_written(t: TextureView, i: int)
    requires
        t.wf(),
        0 <= i < t.pixels.len(),
        t.pixels[i].a != 0,
    ensures
        filled(t).width == t.width,
        filled(t).height == t.height,
        filled(t).pixels[i] == t.pixels[i],
{
    lemma_fill_rows_keeps_written(t, t.height as int, i);
}

fn neighbour_offset_exec(k: usize) -> (r: (i64, i64))
    requires
        k < 8,
    ensures
        r.0 == neighbour_offset(k as int).0,
        r.1 == neighbour_offset(k as int).1,
{
    if k == 0 {
        (0, 1)
    } else if k == 1 {
        (1, 1)
    } else if k == 2 {
        (1, 0)
    } else if k == 3 {
        (1, -1)
    } else if k == 4 {
        (0, -1)
    } else if k == 5 {
        (-1, 1)
    } else if k == 6 {
        (-1, 0)
    } else {
        (-1, -1)
    }
}

fn clamp_coord(v: i64, hi: u32) -> (r: u32)
    ensures
        r == clamp(v as int, hi as int),
{
    if v < 0 {
        0
    } else if v > hi as i64 {
        hi
    } else {
        v as u32
    }
}

/// The mean color of the written ones among the eight neighbours of the
/// pixel at column `x`, row `y` (coordinates clamped to the texture), opaque;
/// transparent where no neighbour is written.
pub fn blend_pixel_with_neighbours(texture: &Texture, x: u32, y: u32) -> (r: Rgba)
    requires
        texture@.wf(),
        texture@.in_bounds(x as int, y as int),
    ensures
        r == neighbour_blend(texture@, x as int, y as int),
{
    let (width, height) = texture.dimensions();
    let mut colors: Vec<Rgb> = Vec::new();
    let mut k: usize = 0;
    while k < 8
        invariant
            texture@.wf(),
            texture@.in_bounds(x as int, y as int),
            width == texture@.width,
            height == texture@.height,
            k <= 8,
            colors@ == written_neighbours(texture@, x as int, y as int, k as int),
        decreases 8 - k,
    {
        let (dx, dy) = neighbour_offset_exec(k);
        let nx = clamp_coord(x as i64 + dx, width - 1);
        let ny = clamp_coord(y as i64 + dy, height - 1);
        let p = texture.get_pixel(nx, ny);
        if p.is_written() {
            colors.push(p.rgb());
        }
        k += 1;
    }
    if colors.len() == 0 {
        Rgba::transparent()
    } else {
        Rgba::opaque(average(&colors))
    }
}

/// Fills the transparent pixels that have a written neighbour with the mean
/// of their neighbours, in one pass (see `filled`): holes deeper than the
/// pass reaches stay partly transparent.
pub fn fill_empty_pixels(texture: &mut Texture)
    requires
        old(texture)@.wf(),
    ensures
        final(texture)@ == filled(old(texture)@),
{
    let ghost start = texture@;
    let (width, height) = texture.dimensions();
    let mut v: u32 = height;
    while v > 0
        invariant
            texture@.wf(),
            texture@.width == width,
            texture@.height == height,
            width == start.width,
            height == start.height,
            v <= height,
            texture@ == fill_rows(start, (height - v) as int),
        decreases v,
    {
        let y: u32 = v - 1;
        let mut u: u32 = 0;
        while u < width
            invariant
                texture@.wf(),
                texture@.width == width,
                texture@.height == height,
                width == start.width,
                height == start.height,
                y < height,
                y == v - 1,
                u <= width,
                texture@ == fill_row(fill_rows(start, (height - v) as int), y as int, u as int),
            decreases width - u,
        {
            let current = texture.get_pixel(u, y);
            if !current.is_written() {
                let blended = blend_pixel_with_neighbours(texture, u, y);
                if blended.is_written() {
                    texture.put_pixel(u, y, blended);
                }
            }
            u += 1;
        }
        v -= 1;
    }
}

} // verus!
