use raskrasser::blend::Blending;
use raskrasser::texel::{destination_texel, flag_from_code, is_visible, source_pixel};

#[test]
fn source_pixel_flips_rows() {
    assert_eq!(source_pixel(0, 0, 4, 3), Some((0, 2)));
    assert_eq!(source_pixel(3, 2, 4, 3), Some((3, 0)));
    assert_eq!(source_pixel(4, 0, 4, 3), None);
    assert_eq!(source_pixel(0, 3, 4, 3), None);
}

#[test]
fn destination_texel_clips() {
    assert_eq!(destination_texel(1, 0, 4, 4, true), Some((1, 3)));
    assert_eq!(destination_texel(4, 0, 4, 4, true), None);
    assert_eq!(destination_texel(0, 4, 4, 4, true), None);
}

#[test]
fn destination_texel_wraps_without_clipping() {
    assert_eq!(destination_texel(4, 0, 4, 4, false), Some((0, 3)));
    assert_eq!(destination_texel(5, 6, 4, 4, false), Some((1, 1)));
    assert_eq!(destination_texel(0, 0, 0, 4, false), None);
}

#[test]
fn visibility_is_membership() {
    assert!(is_visible(&vec![3, 7, 9], 7));
    assert!(!is_visible(&vec![3, 7, 9], 8));
    assert!(!is_visible(&vec![], 0));
}

#[test]
fn codes_select_settings() {
    assert_eq!(Blending::from_code(Some(0)), Blending::Average);
    assert_eq!(Blending::from_code(Some(1)), Blending::Median);
    assert_eq!(Blending::from_code(Some(2)), Blending::Mode);
    assert_eq!(Blending::from_code(Some(9)), Blending::Mode);
    assert_eq!(Blending::from_code(None), Blending::Mode);
    assert!(flag_from_code(Some(1)));
    assert!(!flag_from_code(Some(0)));
    assert!(!flag_from_code(None));
}
