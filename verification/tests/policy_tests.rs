use jpgshrink::{fit_dimensions, should_rewrite, should_rewrite_file};

#[test]
fn fit_keeps_small_raster() {
    assert_eq!(fit_dimensions(100, 50, 3840), (100, 50));
    assert_eq!(fit_dimensions(3840, 3840, 3840), (3840, 3840));
    assert_eq!(fit_dimensions(1, 1, 1), (1, 1));
}

#[test]
fn fit_shrinks_landscape_to_bound() {
    // 5000x3000 against 3840: longest side exactly 3840, aspect kept.
    assert_eq!(fit_dimensions(5000, 3000, 3840), (3840, 2304));
}

#[test]
fn fit_shrinks_portrait_to_bound() {
    assert_eq!(fit_dimensions(3000, 5000, 3840), (2304, 3840));
}

#[test]
fn fit_shrinks_square_to_bound() {
    assert_eq!(fit_dimensions(5000, 5000, 3840), (3840, 3840));
}

#[test]
fn fit_rounds_to_nearest_pixel() {
    // 300 * 384 / 500 = 230.4, rounds down to 230.
    assert_eq!(fit_dimensions(500, 300, 384), (384, 230));
    // 100 * 10 / 150 = 6.67, rounds up to 7.
    assert_eq!(fit_dimensions(150, 100, 10), (10, 7));
}

#[test]
fn fit_never_drops_a_side_to_zero() {
    // 1 * 10 / 4000 rounds to zero but is clamped to one pixel.
    assert_eq!(fit_dimensions(4000, 1, 10), (10, 1));
}

#[test]
fn fit_leaves_degenerate_rasters_alone() {
    assert_eq!(fit_dimensions(0, 9000, 3840), (0, 9000));
}

#[test]
fn rewrite_always_for_non_jpg_source() {
    // Format changed: rewrite no matter the sizes.
    assert!(should_rewrite_file(b"photo.png", 1_000_000, Some(10)));
    assert!(should_rewrite_file(b"photo.webp", 999, Some(1000)));
    assert!(should_rewrite_file(b"photo.jpeg", 999, Some(1000)));
    assert!(should_rewrite_file(b"photo.JPG", 999, Some(1000)));
    assert!(should_rewrite_file(b"noext", 999, Some(1000)));
}

#[test]
fn rewrite_for_jpg_only_under_nine_tenths() {
    // Threshold for 100 bytes is 90: strictly under rewrites.
    assert!(should_rewrite_file(b"photo.jpg", 89, Some(100)));
    assert!(!should_rewrite_file(b"photo.jpg", 90, Some(100)));
    assert!(!should_rewrite_file(b"photo.jpg", 91, Some(100)));
    assert!(!should_rewrite_file(b"photo.jpg", 100, Some(100)));
    // Integer floor: 9 * 9 / 10 = 8.
    assert!(should_rewrite_file(b"photo.jpg", 7, Some(9)));
    assert!(!should_rewrite_file(b"photo.jpg", 8, Some(9)));
}

#[test]
fn rewrite_when_original_size_unreadable() {
    assert!(should_rewrite_file(b"photo.jpg", u64::MAX, None));
    assert!(should_rewrite(true, 5, None));
}

#[test]
fn rewrite_handles_huge_sizes_without_overflow() {
    assert!(should_rewrite(true, 100, Some(u64::MAX)));
    assert!(!should_rewrite(true, u64::MAX, Some(u64::MAX)));
}

#[test]
fn compact_jpg_is_preserved() {
    // A JPEG already within a hair of its recompressed size is linked, not
    // rewritten: the second run of the tool over its own output stabilizes.
    assert!(!should_rewrite_file(b"pics/resized/small.jpg", 95, Some(100)));
}
