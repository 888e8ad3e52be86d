use tgx::html::preview::{fit_box, preview_size, MIN_INLINE_PHOTO, PREVIEW_BOX};

#[test]
fn a_small_photo_is_never_upscaled() {
    let (file, css) = preview_size(480, 320, PREVIEW_BOX);
    assert_eq!(file, (480, 320));
    assert_eq!(css, (240, 160));
}

#[test]
fn a_large_photo_fits_the_doubled_box() {
    let (file, css) = preview_size(2560, 1706, PREVIEW_BOX);
    assert_eq!(file.0, 520);
    assert_eq!(file.1, 520 * 1706 / 2560);
    assert_eq!(css, (260, file.1 / 2));
}

#[test]
fn integer_division_not_rounding() {
    assert_eq!(fit_box(2560, 1706, 520), (520, 346));
}

#[test]
fn a_tall_image_is_bounded_by_height() {
    let (w, h) = fit_box(100, 400, 200);
    assert_eq!(h, 200);
    assert_eq!(w, 50);
}

#[test]
fn css_size_never_collapses_to_zero() {
    let (_, css) = preview_size(1, 1, PREVIEW_BOX);
    assert!(css.0 >= 1 && css.1 >= 1, "got {css:?}");
}

#[test]
fn missing_dimensions_fall_back_to_the_box() {
    assert_eq!(fit_box(0, 0, 200), (200, 200));
    assert_eq!(fit_box(-5, 10, 200), (200, 200));
}

/// Would Desktop inline a photo of this size, or draw it as a row?
fn inlines(width: i64, height: i64) -> bool {
    width.min(height) >= MIN_INLINE_PHOTO
}

#[test]
fn the_inline_cut_sits_inside_the_measured_bracket() {
    const _: () = assert!(MIN_INLINE_PHOTO > 74 && MIN_INLINE_PHOTO <= 188);
    assert!(!inlines(260, 74), "the measured row case must not inline");
    assert!(
        inlines(188, 232),
        "the measured inline case must not become a row"
    );
    assert!(!inlines(74, 260));
    assert!(inlines(232, 188));
}

#[test]
fn a_missing_dimension_previews_at_the_doubled_box() {
    assert_eq!(preview_size(0, 0, PREVIEW_BOX), ((520, 520), (260, 260)));
    assert_eq!(preview_size(-3, 50, 10), ((20, 20), (10, 10)));
}
