use raskrasser::blend::Blending;
use raskrasser::color::{Rgb, Rgba};
use raskrasser::combine::combine_layers;
use raskrasser::fill::{blend_pixel_with_neighbours, fill_empty_pixels};
use raskrasser::texel::{finish_texture, Properties};
use raskrasser::texture::Texture;

fn px(r: u8, g: u8, b: u8, a: u8) -> Rgba {
    Rgba { r, g, b, a }
}

fn layer_with(w: u32, h: u32, x: u32, y: u32, c: Rgba) -> Texture {
    let mut t = Texture::new(w, h);
    t.put_pixel(x, y, c);
    t
}

#[test]
fn new_texture_is_transparent() {
    let t = Texture::new(3, 2);
    assert_eq!(t.dimensions(), (3, 2));
    assert_eq!(t.pixel_count(), 6);
    for y in 0..2 {
        for x in 0..3 {
            assert_eq!(t.get_pixel(x, y), px(0, 0, 0, 0));
        }
    }
}

#[test]
fn put_pixel_is_row_major() {
    let mut t = Texture::new(3, 2);
    t.put_pixel(2, 1, px(1, 2, 3, 4));
    assert_eq!(t.get_at(5), px(1, 2, 3, 4));
    t.put_at(1, px(9, 9, 9, 9));
    assert_eq!(t.get_pixel(1, 0), px(9, 9, 9, 9));
    assert_eq!(t.get_pixel(2, 1), px(1, 2, 3, 4));
}

#[test]
fn combine_average_skips_transparent_layers() {
    let layers = vec![
        layer_with(2, 2, 0, 0, px(255, 0, 0, 255)),
        layer_with(2, 2, 0, 0, px(0, 0, 0, 0)),
        layer_with(2, 2, 0, 0, px(1, 1, 1, 255)),
    ];
    let t = combine_layers(&layers, Blending::Average);
    assert_eq!(t.get_pixel(0, 0), px(128, 0, 0, 255));
    assert_eq!(t.get_pixel(1, 0), px(0, 0, 0, 0));
    assert_eq!(t.get_pixel(0, 1), px(0, 0, 0, 0));
    assert_eq!(t.get_pixel(1, 1), px(0, 0, 0, 0));
}

#[test]
fn combine_single_writer_keeps_color_opaque() {
    let layers = vec![layer_with(2, 1, 1, 0, px(5, 6, 7, 10)), Texture::new(2, 1)];
    let t = combine_layers(&layers, Blending::Median);
    assert_eq!(t.get_pixel(1, 0), px(5, 6, 7, 255));
    assert_eq!(t.get_pixel(0, 0), px(0, 0, 0, 0));
}

#[test]
fn combine_mode_and_median() {
    let layers = vec![
        layer_with(1, 1, 0, 0, px(1, 1, 1, 255)),
        layer_with(1, 1, 0, 0, px(1, 1, 1, 255)),
        layer_with(1, 1, 0, 0, px(2, 2, 2, 255)),
    ];
    assert_eq!(combine_layers(&layers, Blending::Mode).get_pixel(0, 0), px(1, 1, 1, 255));
    assert_eq!(combine_layers(&layers, Blending::Median).get_pixel(0, 0), px(1, 1, 1, 255));
    assert_eq!(combine_layers(&layers, Blending::Average).get_pixel(0, 0), px(1, 1, 1, 255));
}

fn ring(c: Rgba) -> Texture {
    let mut t = Texture::new(3, 3);
    for y in 0..3 {
        for x in 0..3 {
            if x != 1 || y != 1 {
                t.put_pixel(x, y, c);
            }
        }
    }
    t
}

#[test]
fn fill_isolated_hole() {
    let mut t = ring(px(100, 100, 100, 255));
    fill_empty_pixels(&mut t);
    assert_eq!(t.get_pixel(1, 1), px(100, 100, 100, 255));
}

#[test]
fn fill_leaves_pixel_without_neighbours() {
    let mut t = Texture::new(5, 5);
    fill_empty_pixels(&mut t);
    for y in 0..5 {
        for x in 0..5 {
            assert_eq!(t.get_pixel(x, y), px(0, 0, 0, 0));
        }
    }
    let mut t = Texture::new(1, 1);
    fill_empty_pixels(&mut t);
    assert_eq!(t.get_pixel(0, 0), px(0, 0, 0, 0));
}

#[test]
fn neighbour_blend_averages_written_neighbours() {
    let mut t = Texture::new(3, 3);
    t.put_pixel(0, 0, px(10, 20, 30, 255));
    t.put_pixel(2, 2, px(20, 40, 61, 255));
    assert_eq!(blend_pixel_with_neighbours(&t, 1, 1), px(15, 30, 45, 255));
    let t = Texture::new(3, 3);
    assert_eq!(blend_pixel_with_neighbours(&t, 1, 1), px(0, 0, 0, 0));
}

#[test]
fn neighbour_coordinates_clamp_at_edges() {
    // At the corner (0, 0) the clamped neighbours are (0,1), (1,1), (1,0),
    // (1,0), (0,0), (0,1), (0,0), (0,0): (1,0) and (0,1) count twice.
    let mut t = Texture::new(3, 3);
    t.put_pixel(1, 0, px(30, 0, 0, 255));
    t.put_pixel(0, 1, px(0, 0, 0, 255));
    t.put_pixel(1, 1, px(90, 0, 0, 255));
    t.put_pixel(2, 2, px(200, 200, 200, 255));
    assert_eq!(blend_pixel_with_neighbours(&t, 0, 0), px(30, 0, 0, 255));
}

#[test]
fn fill_runs_bottom_up_and_sees_earlier_writes() {
    // Row 2 is filled first; its new pixels then feed row 1.
    let mut t = Texture::new(3, 4);
    t.put_pixel(0, 3, px(40, 40, 40, 255));
    fill_empty_pixels(&mut t);
    assert_eq!(t.get_pixel(0, 2), px(40, 40, 40, 255));
    assert_eq!(t.get_pixel(1, 2), px(40, 40, 40, 255));
    assert_eq!(t.get_pixel(1, 3), px(40, 40, 40, 255));
    assert_eq!(t.get_pixel(0, 1), px(40, 40, 40, 255));
    assert_eq!(t.get_pixel(0, 3), px(40, 40, 40, 255));
    assert_eq!(t.get_pixel(0, 0), px(40, 40, 40, 255));
}

#[test]
fn fill_keeps_written_pixels() {
    let mut t = Texture::new(2, 2);
    t.put_pixel(0, 0, px(1, 2, 3, 255));
    t.put_pixel(1, 1, px(7, 8, 9, 255));
    fill_empty_pixels(&mut t);
    assert_eq!(t.get_pixel(0, 0), px(1, 2, 3, 255));
    assert_eq!(t.get_pixel(1, 1), px(7, 8, 9, 255));
    assert_eq!(t.get_pixel(1, 0).a, 255);
}

#[test]
fn finish_texture_fills_only_when_asked() {
    let layers = vec![ring(px(100, 100, 100, 255)), Texture::new(3, 3)];
    let plain = Properties { clip_uv: true, fill: false, blending: Blending::Average };
    let t = finish_texture(&layers, plain);
    assert_eq!(t.get_pixel(1, 1), px(0, 0, 0, 0));
    assert_eq!(t.get_pixel(0, 0), px(100, 100, 100, 255));
    let filling = Properties { clip_uv: true, fill: true, blending: Blending::Average };
    let t = finish_texture(&layers, filling);
    assert_eq!(t.get_pixel(1, 1), px(100, 100, 100, 255));
}

#[test]
fn rgba_helpers() {
    let c = Rgba::opaque(Rgb { r: 1, g: 2, b: 3 });
    assert_eq!(c, px(1, 2, 3, 255));
    assert!(c.is_written());
    assert!(!Rgba::transparent().is_written());
    assert_eq!(c.rgb(), Rgb { r: 1, g: 2, b: 3 });
}
