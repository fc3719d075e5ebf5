use image_ingest::thumbnail::{thumbnail_dimensions, THUMB_BOX};

#[test]
fn landscape_is_scaled_to_the_box_width() {
    assert_eq!(thumbnail_dimensions(300, 200), (100, 66));
    assert_eq!(thumbnail_dimensions(640, 480), (100, 75));
    assert_eq!(thumbnail_dimensions(1920, 1080), (100, 56));
}

#[test]
fn portrait_is_scaled_to_the_box_height() {
    assert_eq!(thumbnail_dimensions(200, 300), (66, 100));
    assert_eq!(thumbnail_dimensions(480, 640), (75, 100));
}

#[test]
fn square_larger_than_the_box_becomes_the_box() {
    assert_eq!(thumbnail_dimensions(101, 101), (100, 100));
    assert_eq!(thumbnail_dimensions(16384, 16384), (100, 100));
}

#[test]
fn picture_within_the_box_is_not_scaled() {
    assert_eq!(thumbnail_dimensions(50, 50), (50, 50));
    assert_eq!(thumbnail_dimensions(100, 100), (100, 100));
    assert_eq!(thumbnail_dimensions(1, 1), (1, 1));
    assert_eq!(thumbnail_dimensions(100, 7), (100, 7));
    assert_eq!(thumbnail_dimensions(3, 100), (3, 100));
}

#[test]
fn one_side_over_the_box_is_enough_to_scale() {
    assert_eq!(thumbnail_dimensions(101, 100), (100, 99));
    assert_eq!(thumbnail_dimensions(100, 101), (99, 100));
    assert_eq!(thumbnail_dimensions(200, 50), (100, 25));
}

#[test]
fn short_side_never_vanishes() {
    assert_eq!(thumbnail_dimensions(1000, 3), (100, 1));
    assert_eq!(thumbnail_dimensions(3, 1000), (1, 100));
    assert_eq!(thumbnail_dimensions(16384, 1), (100, 1));
    assert_eq!(thumbnail_dimensions(u32::MAX, 1), (100, 1));
}

#[test]
fn largest_sources_do_not_overflow() {
    assert_eq!(thumbnail_dimensions(u32::MAX, u32::MAX), (100, 100));
    assert_eq!(thumbnail_dimensions(u32::MAX, u32::MAX - 1), (100, 99));
    assert_eq!(thumbnail_dimensions(u32::MAX - 1, u32::MAX), (99, 100));
}

#[test]
fn empty_sides_are_given_an_answer() {
    assert_eq!(thumbnail_dimensions(0, 0), (0, 0));
    assert_eq!(thumbnail_dimensions(0, 50), (0, 50));
    assert_eq!(thumbnail_dimensions(500, 0), (100, 1));
    assert_eq!(thumbnail_dimensions(0, 500), (1, 100));
}

#[test]
fn thumbnail_fits_the_box_and_never_grows() {
    let sides = [1u32, 2, 3, 50, 99, 100, 101, 150, 199, 333, 1000, 4096, 16383, 16384];
    for &w in sides.iter() {
        for &h in sides.iter() {
            let (tw, th) = thumbnail_dimensions(w, h);
            assert!(tw >= 1 && th >= 1, "{}x{}", w, h);
            assert!(tw <= THUMB_BOX && th <= THUMB_BOX, "{}x{}", w, h);
            assert!(tw <= w && th <= h, "{}x{}", w, h);
            if w <= THUMB_BOX && h <= THUMB_BOX {
                assert_eq!((tw, th), (w, h));
            } else {
                assert_eq!(tw.max(th), THUMB_BOX, "{}x{}", w, h);
            }
        }
    }
}

#[test]
fn thumbnail_keeps_the_aspect_ratio_within_rounding() {
    let sides = [1u32, 2, 3, 50, 99, 100, 101, 150, 199, 333, 1000, 4096, 16383, 16384];
    for &w in sides.iter() {
        for &h in sides.iter() {
            let (tw, th) = thumbnail_dimensions(w, h);
            let cross = (tw as i64) * (h as i64) - (th as i64) * (w as i64);
            let longer = w.max(h) as i64;
            assert!(-longer < cross && cross < longer, "{}x{} -> {}x{}", w, h, tw, th);
        }
    }
}

#[test]
fn sides_of_any_length_are_scaled() {
    assert_eq!(thumbnail_dimensions(20000, 50), (100, 1));
    assert_eq!(thumbnail_dimensions(16385, 16385), (100, 100));
    assert_eq!(thumbnail_dimensions(1_000_000, 500_000), (100, 50));
    assert_eq!(thumbnail_dimensions(300, 4_000_000_000), (1, 100));
}
