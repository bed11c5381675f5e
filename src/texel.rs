use vstd::prelude::*;
use crate::blend::Blending;
use crate::combine::{combine_layers, combined_pixel, same_size, views};
use crate::fill::{fill_empty_pixels, filled};
use crate::texture::{Texture, TextureView};

verus! {

/// Row of an image whose rows run top to bottom, for a row counted from the
/// bottom.
pub open spec fn flip_row(y: int, height: int) -> int {
    height - 1 - y
}

/// Where a point of the camera image, at column `x` and row `y` counted from
/// the bottom, is read in an image of the given size: `None` outside it.
pub open spec fn source_pixel_of(x: int, y: int, width: int, height: int) -> Option<(u32, u32)> {
    if 0 <= x < width && 0 <= y < height {
        Some((x as u32, flip_row(y, height) as u32))
    } else {
        None
    }
}

/// Where texel (`u`, `v`), `v` counted from the bottom, lands in a texture of
/// the given size. With `clip_uv` a texel outside the texture is dropped;
/// without it, coordinates wrap around.
pub open spec fn destination_texel_of(u: int, v: int, width: int, height: int, clip_uv: bool) -> Option<
    (u32, u32),
> {
    if width <= 0 || height <= 0 {
        None
    } else if clip_uv {
        if u < width && v < height {
            Some((u as u32, flip_row(v, height) as u32))
        } else {
            None
        }
    } else {
        Some(((u % width) as u32, flip_row(v % height, height) as u32))
    }
}

/// The pixel of a camera image of the given size that a projected point
/// reads, or `None` where the point falls outside the image.
pub fn source_pixel(x: u32, y: u32, width: u32, height: u32) -> (r: Option<(u32, u32)>)
    ensures
        r == source_pixel_of(x as int, y as int, width as int, height as int),
{
    if x < width && y < height {
        Some((x, height - 1 - y))
    } else {
        None
    }
}

/// The pixel of a texture of the given size that texel (`u`, `v`) is
/// written to, or `None` where it is dropped.
pub fn destination_texel(u: usize, v: usize, width: u32, height: u32, clip_uv: bool) -> (r: Option<
    (u32, u32),
>)
    ensures
        r == destination_texel_of(u as int, v as int, width as int, height as int, clip_uv),
        r matches Some((x, y)) ==> x < width && y < height,
{
    if width == 0 || height == 0 {
        None
    } else if clip_uv {
        if u < width as usize && v < height as usize {
            Some((u as u32, height - 1 - v as u32))
        } else {
            None
        }
    } else {
        let x: usize = u % (width as usize);
        let y: usize = v % (height as usize);
        Some((x as u32, height - 1 - y as u32))
    }
}

/// Whether the face with identifier `face_id` is among the faces that the
/// visibility test found nearest along a ray.
pub fn is_visible(nearest: &Vec<usize>, face_id: usize) -> (r: bool)
    ensures
        r == nearest@.contains(face_id),
{
    let n: usize = nearest.len();
    let mut i: usize = 0;
    while i < n
        invariant
            n == nearest@.len(),
            i <= n,
            forall|j: int| 0 <= j < i ==> nearest@[j] != face_id,
        decreases n - i,
    {
        if nearest[i] == face_id {
            return true;
        }
        i += 1;
    }
    false
}

/// Settings of a baking run.
#[derive(Clone, Copy, Debug, PartialEq, Eq, Structural)]
pub struct Properties {
    /// Drop texels outside the texture rather than wrapping them around.
    pub clip_uv: bool,
    /// Run the hole-filling pass on the combined texture.
    pub fill: bool,
    pub blending: Blending,
}

impl Blending {
    /// The policy selected by a numeric code: 0 average, 1 median, anything
    /// else (or no code) mode.
    pub fn from_code(code: Option<u8>) -> (r: Blending)
        ensures
            r == (match code {
                Some(0) => Blending::Average,
                Some(1) => Blending::Median,
                _ => Blending::Mode,
            }),
    {
        match code {
            Some(0) => Blending::Average,
            Some(1) => Blending::Median,
            _ => Blending::Mode,
        }
    }
}

/// A switch given as a number: on exactly for 1.
pub fn flag_from_code(code: Option<u8>) -> (r: bool)
    ensures
        r == (code == Some(1u8)),
{
    match code {
        Some(1) => true,
        _ => false,
    }
}

/// The texture that the layers combine to under `blending`.
pub open spec fn combined(layers: Seq<TextureView>, blending: Blending) -> TextureView {
    TextureView {
        width: layers[0].width,
        height: layers[0].height,
        pixels: Seq::new(
            layers[0].pixels.len(),
            |i: int| combined_pixel(layers, i, blending),
        ),
    }
}

/// The final texture of a run: the camera layers combined, then, if asked,
/// one hole-filling pass.
pub fn finish_texture(layers: &Vec<Texture>, properties: Properties) -> (r: Texture)
    requires
        same_size(views(layers@)),
    ensures
        r@ == if properties.fill {
            filled(combined(views(layers@), properties.blending))
        } else {
            combined(views(layers@), properties.blending)
        },
{
    let mut texture = combine_layers(layers, properties.blending);
    proof {
        let c = combined(views(layers@), properties.blending);
        assert(views(layers@)[0] == layers@[0]@);
        assert(texture@.pixels =~= c.pixels);
    }
    if properties.fill {
        fill_empty_pixels(&mut texture);
    }
    texture
}

} // verus!
