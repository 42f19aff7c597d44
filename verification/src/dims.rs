//! Thumbnail dimensions: fit a source image into the flavor's square
//! bounding box, preserving aspect ratio and never upscaling.

use vstd::prelude::*;
use vstd::arithmetic::div_mod::lemma_fundamental_div_mod_converse;

verus! {

/// The minor side scaled to match the major side's reduction to `d`,
/// rounded to nearest and kept at least one pixel.
pub open spec fn scaled_side(side: int, d: int, major: int) -> int {
    let rounded = (2 * side * d + major) / (2 * major);
    if rounded < 1 { 1 } else { rounded }
}

/// The width of a `w x h` source fitted into a `d x d` bounding box.
pub open spec fn fit_width(w: int, h: int, d: int) -> int {
    if w <= d && h <= d {
        w
    } else if w >= h {
        d
    } else {
        scaled_side(w, d, h)
    }
}

/// The height of a `w x h` source fitted into a `d x d` bounding box.
pub open spec fn fit_height(w: int, h: int, d: int) -> int {
    if w <= d && h <= d {
        h
    } else if w >= h {
        scaled_side(h, d, w)
    } else {
        d
    }
}

/// The scaled minor side stays within the box and never exceeds the
/// original side.
proof fn lemma_scaled_side_bounds(side: int, d: int, major: int)
    requires
        1 <= side <= major,
        1 <= d < major,
    ensures
        1 <= scaled_side(side, d, major) <= d,
        scaled_side(side, d, major) <= side,
{
    let x = 2 * side * d + major;
    let y = 2 * major;
    assert(x >= 0 && y > 0);
    assert(x < y * (d + 1)) by (nonlinear_arith)
        requires 1 <= side <= major, 1 <= d, x == 2 * side * d + major, y == 2 * major;
    assert(x / y < d + 1) by (nonlinear_arith)
        requires y > 0, x >= 0, x < y * (d + 1);
    assert(x < y * (side + 1)) by (nonlinear_arith)
        requires 1 <= side, 1 <= d < major, x == 2 * side * d + major, y == 2 * major;
    assert(x / y < side + 1) by (nonlinear_arith)
        requires y > 0, x >= 0, x < y * (side + 1);
}

/// Fitted dimensions are at least one pixel, fit in the box, and never
/// upscale.
pub proof fn lemma_fit_dims_bounds(w: int, h: int, d: int)
    requires
        1 <= w,
        1 <= h,
        1 <= d,
    ensures
        1 <= fit_width(w, h, d) <= w,
        1 <= fit_height(w, h, d) <= h,
        fit_width(w, h, d) <= d,
        fit_height(w, h, d) <= d,
{
    if w <= d && h <= d {
    } else if w >= h {
        lemma_scaled_side_bounds(h, d, w);
    } else {
        lemma_scaled_side_bounds(w, d, h);
    }
}

/// A one-by-one source is never upscaled: its thumbnail is one by one.
pub proof fn lemma_unit_source_kept(d: int)
    requires
        1 <= d,
    ensures
        fit_width(1, 1, d) == 1,
        fit_height(1, 1, d) == 1,
{
}

/// A square source larger than the box lands exactly on the box.
pub proof fn lemma_square_source_fills_box(n: int, d: int)
    requires
        1 <= d < n,
    ensures
        fit_width(n, n, d) == d,
        fit_height(n, n, d) == d,
{
    let x = 2 * n * d + n;
    let y = 2 * n;
    assert(x == d * y + n) by (nonlinear_arith)
        requires x == 2 * n * d + n, y == 2 * n;
    lemma_fundamental_div_mod_converse(x, y, d, n);
    assert(x / y == d);
}

/// Computes the fitted dimensions.
pub fn thumb_dims(w: u32, h: u32, d: u32) -> (r: (u32, u32))
    requires
        1 <= w,
        1 <= h,
        1 <= d,
    ensures
        r.0 == fit_width(w as int, h as int, d as int),
        r.1 == fit_height(w as int, h as int, d as int),
{
    proof {
        lemma_fit_dims_bounds(w as int, h as int, d as int);
    }
    if w <= d && h <= d {
        (w, h)
    } else if w >= h {
        (d, scaled_side_exec(h, d, w))
    } else {
        (scaled_side_exec(w, d, h), d)
    }
}

fn scaled_side_exec(side: u32, d: u32, major: u32) -> (r: u32)
    requires
        1 <= side <= major,
        1 <= d < major,
    ensures
        r == scaled_side(side as int, d as int, major as int),
{
    proof {
        lemma_scaled_side_bounds(side as int, d as int, major as int);
    }
    let s2: u128 = 2 * (side as u128);
    proof {
        assert((s2 as int) * (d as int) <= 0x2_0000_0000 * 0xffff_ffff) by (nonlinear_arith)
            requires 0 <= s2 as int <= 0x2_0000_0000, 0 <= d as int <= 0xffff_ffff;
        assert((s2 as int) * (d as int) == 2 * (side as int) * (d as int)) by (nonlinear_arith)
            requires s2 as int == 2 * (side as int);
    }
    let num: u128 = s2 * (d as u128);
    let rounded: u128 = (num + major as u128) / (2 * major as u128);
    if rounded < 1 {
        1
    } else {
        rounded as u32
    }
}

} // verus!
