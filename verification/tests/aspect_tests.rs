use masonry::aspect::correct_aspect_ratio;
use masonry::rounding::{div_int_u16, div_int_u32};

#[test]
fn wide_image_long_side_pinned_at_100() {
    assert_eq!(correct_aspect_ratio(200, 100), (100, 50));
}

#[test]
fn tall_image_long_side_pinned_at_100() {
    assert_eq!(correct_aspect_ratio(100, 200), (50, 100));
}

#[test]
fn square_image_is_unit_ratio() {
    assert_eq!(correct_aspect_ratio(100, 100), (1, 1));
    assert_eq!(correct_aspect_ratio(0, 0), (1, 1));
}

#[test]
fn extreme_panorama_clamped_to_one_third() {
    assert_eq!(correct_aspect_ratio(1000, 100), (100, 33));
    assert_eq!(correct_aspect_ratio(65535, 1), (100, 33));
}

#[test]
fn extreme_strip_clamped_to_one_third() {
    assert_eq!(correct_aspect_ratio(100, 1000), (33, 100));
    assert_eq!(correct_aspect_ratio(1, 65535), (33, 100));
}

#[test]
fn near_square_rounds_up_to_100() {
    // 100 * 499 / 500 rounds to 100: both components end at the maximum.
    assert_eq!(correct_aspect_ratio(500, 499), (100, 100));
}

#[test]
fn ratio_bound_holds_across_inputs() {
    for &(w, h) in &[(1u16, 2u16), (3, 1), (7, 5), (640, 480), (480, 640), (10000, 1), (1, 10000)] {
        let (rw, rh) = correct_aspect_ratio(w, h);
        let (lo, hi) = if rw < rh { (rw, rh) } else { (rh, rw) };
        assert!(lo >= 1 && hi <= 100);
        assert!(hi <= 3 * lo + 1);
    }
}

#[test]
fn division_rounds_half_up() {
    assert_eq!(div_int_u16(10, 4), 3);
    assert_eq!(div_int_u16(9, 4), 2);
    assert_eq!(div_int_u32(7, 2), 4);
    assert_eq!(div_int_u32(30000, 320), 94);
}

#[test]
fn division_saturates_instead_of_wrapping() {
    // 65000 + 1000 would overflow u16; the numerator saturates at 65535.
    assert_eq!(div_int_u16(65000, 2000), 32);
    assert_eq!(div_int_u32(u32::MAX, 2), u32::MAX / 2);
}
