use vstd::prelude::*;
use crate::blend::{Blending, blend, blend_of};
use crate::color::{Rgb, Rgba, opaque_of, transparent};
use crate::texture::{Texture, TextureView};

verus! {

/// The views of a sequence of textures.
pub open spec fn views(layers: Seq<Texture>) -> Seq<TextureView> {
    layers.map_values(|t: Texture| t@)
}

/// All layers are well formed and share the size of the first.
pub open spec fn same_size(layers: Seq<TextureView>) -> bool {
    &&& layers.len() > 0
    &&& forall|k: int|
        0 <= k < layers.len() ==> {
            &&& (#[trigger] layers[k]).wf()
            &&& layers[k].width == layers[0].width
            &&& layers[k].height == layers[0].height
        }
}

/// The colors written at position `i`, layer by layer; layers that left the
/// pixel transparent add nothing.
pub open spec fn written_colors(layers: Seq<TextureView>, i: int) -> Seq<Rgb>
    decreases layers.len(),
{
    if layers.len() == 0 {
        Seq::empty()
    } else {
        let rest = written_colors(layers.drop_last(), i);
        let p = layers.last().pixels[i];
        if p.a != 0 {
            rest.push(p.spec_rgb())
        } else {
            rest
        }
    }
}

/// The combined pixel at position `i`: transparent where no layer wrote,
/// else the blend of the written colors, fully opaque.
pub open spec fn combined_pixel(layers: Seq<TextureView>, i: int, blending: Blending) -> Rgba {
    let cs = written_colors(layers, i);
    if cs.len() == 0 {
        transparent()
    } else {
        opaque_of(blend_of(cs, blending))
    }
}

proof fn lemma_no_written_colors(layers: Seq<TextureView>, i: int)
    requires
        forall|k: int| 0 <= k < layers.len() ==> (#[trigger] layers[k]).pixels[i].a == 0,
    ensures
        written_colors(layers, i).len() == 0,
    decreases layers.len(),
{
    if layers.len() > 0 {
        let rest = layers.drop_last();
        assert forall|k: int| 0 <= k < rest.len() implies (#[trigger] rest[k]).pixels[i].a == 0 by {
            assert(rest[k] == layers[k]);
        }
        lemma_no_written_colors(rest, i);
    }
}

/// A pixel that every layer left transparent is transparent in the combined
/// texture, whatever the blending.
pub proof fn lemma_unwritten_stays_transparent(layers: Seq<TextureView>, i: int, blending: Blending)
    requires
        forall|k: int| 0 <= k < layers.len() ==> (#[trigger] layers[k]).pixels[i].a == 0,
    ensures
        combined_pixel(layers, i, blending) == transparent(),
{
    lemma_no_written_colors(layers, i);
}

/// Merges same-sized texture layers into one, pixel by pixel.
pub fn combine_layers(textures: &Vec<Texture>, blending: Blending) -> (r: Texture)
    requires
        same_size(views(textures@)),
    ensures
        r@.wf(),
        r@.width == textures@[0]@.width,
        r@.height == textures@[0]@.height,
        forall|i: int|
            0 <= i < r@.pixels.len() ==> #[trigger] r@.pixels[i] == combined_pixel(
                views(textures@),
                i,
                blending,
            ),
{
    let ghost layers = views(textures@);
    assert(layers[0] == textures@[0]@);
    let (width, height) = textures[0].dimensions();
    let n: usize = textures[0].pixel_count();
    let mut result = Texture::new(width, height);
    let count: usize = textures.len();
    let mut i: usize = 0;
    while i < n
        invariant
            layers == views(textures@),
            same_size(layers),
            count == textures@.len(),
            n == layers[0].pixels.len(),
            i <= n,
            result@.wf(),
            result@.width == layers[0].width,
            result@.height == layers[0].height,
            result@.pixels.len() == n,
            forall|j: int| 0 <= j < i ==> #[trigger] result@.pixels[j] == combined_pixel(layers, j, blending),
            forall|j: int| i <= j < n ==> #[trigger] result@.pixels[j] == transparent(),
        decreases n - i,
    {
        let mut colors: Vec<Rgb> = Vec::new();
        let mut k: usize = 0;
        while k < count
            invariant
                layers == views(textures@),
                same_size(layers),
                count == textures@.len(),
                n == layers[0].pixels.len(),
                i < n,
                k <= count,
                colors@ == written_colors(layers.subrange(0, k as int), i as int),
            decreases count - k,
        {
            proof {
                let next = layers.subrange(0, k + 1);
                assert(next.drop_last() =~= layers.subrange(0, k as int));
                assert(layers[k as int] == textures@[k as int]@);
                assert(layers[k as int].wf());
            }
            let p = textures[k].get_at(i);
            if p.is_written() {
                colors.push(p.rgb());
            }
            k += 1;
        }
        proof {
            assert(layers.subrange(0, count as int) =~= layers);
        }
        if colors.len() > 0 {
            let m = blend(&colors, blending);
            result.put_at(i, Rgba::opaque(m));
        }
        i += 1;
    }
    result
}

} // verus!
