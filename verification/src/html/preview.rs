//! Inline preview sizing, reproduced exactly because the result is written
//! into the `style` attribute of every inline preview.

use vstd::prelude::*;

verus! {

/// Desktop scales an inline preview to fit this box.
pub const PREVIEW_BOX: i64 = 260;

/// Stickers get a smaller one.
pub const STICKER_BOX: i64 = 192;

/// A photo smaller than this in either direction is drawn as a media row
/// rather than inlined.
pub const MIN_INLINE_PHOTO: i64 = 100;

/// Rust's integer division, which truncates toward zero, for a positive
/// divisor.
pub open spec fn tdiv(a: int, b: int) -> int {
    if a >= 0 { a / b } else { -((-a) / b) }
}

/// Qt's `QSize::scaled(box, box, KeepAspectRatio)` with integer division.
pub open spec fn fitted(w: int, h: int, b: int) -> (int, int) {
    if w <= 0 || h <= 0 {
        (b, b)
    } else if tdiv(b * w, h) <= b {
        (tdiv(b * w, h), b)
    } else {
        (b, tdiv(b * h, w))
    }
}

/// The products `fit_box` forms stay inside `i64`.
pub open spec fn fits(w: int, h: int, b: int) -> bool {
    i64::MIN <= b * w <= i64::MAX && i64::MIN <= b * h <= i64::MAX
}

pub fn fit_box(width: i64, height: i64, box_size: i64) -> (r: (i64, i64))
    requires
        fits(width as int, height as int, box_size as int),
    ensures
        (r.0 as int, r.1 as int) == fitted(width as int, height as int, box_size as int),
{
    if width <= 0 || height <= 0 {
        return (box_size, box_size);
    }
    let rw = box_size * width / height;
    assert(rw as int == tdiv(box_size * width, height as int));
    if rw <= box_size {
        (rw, box_size)
    } else {
        let rh = box_size * height / width;
        assert(rh as int == tdiv(box_size * height, width as int));
        (box_size, rh)
    }
}

/// `(file pixels, css pixels)` for an inline preview: fitted to twice the
/// box, never upscaled, and shown at half size but never below one pixel.
pub open spec fn preview_of(width: int, height: int, b: int) -> ((int, int), (int, int)) {
    let w = if width > 0 { width } else { 0 };
    let h = if height > 0 { height } else { 0 };
    let f = fitted(w, h, b * 2);
    let px = if w > 0 && w < f.0 { (w, h) } else { f };
    let cw = tdiv(px.0, 2);
    let ch = tdiv(px.1, 2);
    (px, (if cw > 1 { cw } else { 1 }, if ch > 1 { ch } else { 1 }))
}

pub fn preview_size(width: i64, height: i64, box_size: i64) -> (r: ((i64, i64), (i64, i64)))
    requires
        i64::MIN <= box_size * 2 <= i64::MAX,
        fits(width as int, height as int, box_size * 2),
    ensures
        ((r.0.0 as int, r.0.1 as int), (r.1.0 as int, r.1.1 as int)) == preview_of(width as int, height as int, box_size as int),
{
    let w = if width > 0 { width } else { 0 };
    let h = if height > 0 { height } else { 0 };
    assert(fits(w as int, h as int, box_size * 2)) by (nonlinear_arith)
        requires
            fits(width as int, height as int, box_size * 2),
            w == if width > 0 { width } else { 0 },
            h == if height > 0 { height } else { 0 },
    {}
    let mut px = fit_box(w, h, box_size * 2);
    if w > 0 && w < px.0 {
        px = (w, h);
    }
    let cw = px.0 / 2;
    let ch = px.1 / 2;
    assert(cw as int == tdiv(px.0 as int, 2));
    assert(ch as int == tdiv(px.1 as int, 2));
    (px, (if cw > 1 { cw } else { 1 }, if ch > 1 { ch } else { 1 }))
}

} // verus!
