//! Ambient colour of an image, taken as the mean over a ring of fixed width
//! along its edges.

use vstd::prelude::*;
use crate::color::Color;
use crate::error::ImageError;
use crate::raster::{raster, Canvas, Raster, buffer_dimensions, buffer_pixel};

verus! {

/// Width of the sampled ring, in pixels.
pub const BORDER_THICKNESS: u32 = 30;

/// One of the three colour channels of `c`: 0 is red, 1 is green, anything
/// else is blue.
pub open spec fn channel(c: Color, k: int) -> int {
    if k == 0 {
        c.r as int
    } else if k == 1 {
        c.g as int
    } else {
        c.b as int
    }
}

/// Sum of channel `k` over the pixels `(x, y)` with `x0 <= x < x1`.
pub open spec fn row_sum(r: Raster, k: int, y: int, x0: int, x1: int) -> int
    decreases x1 - x0,
{
    if x1 <= x0 {
        0
    } else {
        row_sum(r, k, y, x0, x1 - 1) + channel(r.pixel(x1 - 1, y), k)
    }
}

/// Sum of channel `k` over the pixels with `x0 <= x < x1` and `y0 <= y < y1`.
pub open spec fn block_sum(r: Raster, k: int, x0: int, x1: int, y0: int, y1: int) -> int
    decreases y1 - y0,
{
    if y1 <= y0 {
        0
    } else {
        block_sum(r, k, x0, x1, y0, y1 - 1) + row_sum(r, k, y1 - 1, x0, x1)
    }
}

/// Whether `(x, y)` lies in the ring of width `t` along the edges of `r`.
pub open spec fn in_ring(r: Raster, t: int, x: int, y: int) -> bool {
    r.contains(x, y) && (x < t || x >= r.width - t || y < t || y >= r.height - t)
}

/// Number of pixels in the ring of width `t` of a `w` by `h` image: two full
/// bands of `t` rows, and two bands of `t` columns between them.
pub open spec fn ring_count(w: int, h: int, t: int) -> int {
    2 * t * w + 2 * t * (h - 2 * t)
}

/// Sum of channel `k` over the ring of width `t`: the top and bottom bands
/// over the full width, then the left and right bands over the rows strictly
/// between them, so that no corner is counted twice.
pub open spec fn ring_sum(r: Raster, k: int, t: int) -> int {
    let w = r.width as int;
    let h = r.height as int;
    block_sum(r, k, 0, w, 0, t) + block_sum(r, k, 0, w, h - t, h) + block_sum(
        r,
        k,
        0,
        t,
        t,
        h - t,
    ) + block_sum(r, k, w - t, w, t, h - t)
}

/// Truncated mean of channel `k` over the ring of width `t`.
pub open spec fn ring_mean(r: Raster, k: int, t: int) -> int {
    ring_sum(r, k, t) / ring_count(r.width as int, r.height as int, t)
}

/// The opaque colour made of the three ring means.
pub open spec fn border_mean(r: Raster) -> Color {
    let t = BORDER_THICKNESS as int;
    Color {
        r: ring_mean(r, 0, t) as u8,
        g: ring_mean(r, 1, t) as u8,
        b: ring_mean(r, 2, t) as u8,
        a: 255,
    }
}

/// Whether an image is large enough for its ring to be sampled: both sides
/// must exceed twice the ring width.
pub open spec fn samplable(r: Raster) -> bool {
    r.width > 2 * BORDER_THICKNESS && r.height > 2 * BORDER_THICKNESS
}

/// Whether `(x, y)` lies in the block of pixels with `x0 <= x < x1` and
/// `y0 <= y < y1`.
pub open spec fn in_block(x0: int, x1: int, y0: int, y1: int, x: int, y: int) -> bool {
    x0 <= x < x1 && y0 <= y < y1
}

/// The four blocks that `ring_sum` adds up cover the ring and nothing else,
/// and no pixel lies in two of them.
pub proof fn lemma_ring_is_four_blocks(r: Raster, x: int, y: int)
    requires
        samplable(r),
    ensures
        ({
            let t = BORDER_THICKNESS as int;
            let w = r.width as int;
            let h = r.height as int;
            let top = in_block(0, w, 0, t, x, y);
            let bottom = in_block(0, w, h - t, h, x, y);
            let left = in_block(0, t, t, h - t, x, y);
            let right = in_block(w - t, w, t, h - t, x, y);
            &&& in_ring(r, t, x, y) <==> top || bottom || left || right
            &&& !(top && bottom) && !(top && left) && !(top && right)
            &&& !(bottom && left) && !(bottom && right) && !(left && right)
        }),
{
}

proof fn lemma_row_sum_bounds(r: Raster, k: int, y: int, x0: int, x1: int)
    requires
        x0 <= x1,
    ensures
        0 <= row_sum(r, k, y, x0, x1) <= 255 * (x1 - x0),
    decreases x1 - x0,
{
    if x0 < x1 {
        lemma_row_sum_bounds(r, k, y, x0, x1 - 1);
    }
}

proof fn lemma_block_sum_bounds(r: Raster, k: int, x0: int, x1: int, y0: int, y1: int)
    requires
        x0 <= x1,
        y0 <= y1,
    ensures
        0 <= block_sum(r, k, x0, x1, y0, y1) <= 255 * ((x1 - x0) * (y1 - y0)),
    decreases y1 - y0,
{
    if y0 < y1 {
        lemma_block_sum_bounds(r, k, x0, x1, y0, y1 - 1);
        lemma_row_sum_bounds(r, k, y1 - 1, x0, x1);
        assert((x1 - x0) * (y1 - y0) == (x1 - x0) * (y1 - 1 - y0) + (x1 - x0))
            by (nonlinear_arith);
    } else {
        assert((x1 - x0) * (y1 - y0) == 0) by (nonlinear_arith)
            requires
                y1 - y0 == 0,
        ;
    }
}

proof fn lemma_uniform_row(r: Raster, k: int, v: int, y: int, x0: int, x1: int)
    requires
        x0 <= x1,
        forall|x: int| x0 <= x < x1 ==> channel(#[trigger] r.pixel(x, y), k) == v,
    ensures
        row_sum(r, k, y, x0, x1) == v * (x1 - x0),
    decreases x1 - x0,
{
    if x0 < x1 {
        lemma_uniform_row(r, k, v, y, x0, x1 - 1);
        assert(v * (x1 - x0) == v * (x1 - 1 - x0) + v) by (nonlinear_arith);
    } else {
        assert(v * (x1 - x0) == 0) by (nonlinear_arith)
            requires
                x1 - x0 == 0,
        ;
    }
}

proof fn lemma_uniform_block(r: Raster, k: int, v: int, x0: int, x1: int, y0: int, y1: int)
    requires
        x0 <= x1,
        y0 <= y1,
        forall|x: int, y: int|
            x0 <= x < x1 && y0 <= y < y1 ==> channel(#[trigger] r.pixel(x, y), k) == v,
    ensures
        block_sum(r, k, x0, x1, y0, y1) == v * ((x1 - x0) * (y1 - y0)),
    decreases y1 - y0,
{
    if y0 < y1 {
        lemma_uniform_block(r, k, v, x0, x1, y0, y1 - 1);
        lemma_uniform_row(r, k, v, y1 - 1, x0, x1);
        assert(v * ((x1 - x0) * (y1 - y0)) == v * ((x1 - x0) * (y1 - 1 - y0)) + v * (x1 - x0))
            by (nonlinear_arith);
    } else {
        assert(v * ((x1 - x0) * (y1 - y0)) == 0) by (nonlinear_arith)
            requires
                y1 - y0 == 0,
        ;
    }
}

proof fn lemma_uniform_ring_mean(r: Raster, k: int, v: int)
    requires
        samplable(r),
        0 <= v <= 255,
        forall|x: int, y: int|
            in_ring(r, BORDER_THICKNESS as int, x, y) ==> channel(#[trigger] r.pixel(x, y), k)
                == v,
    ensures
        ring_mean(r, k, BORDER_THICKNESS as int) == v,
{
    let t = BORDER_THICKNESS as int;
    let w = r.width as int;
    let h = r.height as int;
    lemma_uniform_block(r, k, v, 0, w, 0, t);
    lemma_uniform_block(r, k, v, 0, w, h - t, h);
    lemma_uniform_block(r, k, v, 0, t, t, h - t);
    lemma_uniform_block(r, k, v, w - t, w, t, h - t);
    let n = ring_count(w, h, t);
    assert(n == w * t + w * t + t * (h - 2 * t) + t * (h - 2 * t)) by (nonlinear_arith)
        requires
            n == 2 * t * w + 2 * t * (h - 2 * t),
    ;
    assert(ring_sum(r, k, t) == v * n) by (nonlinear_arith)
        requires
            ring_sum(r, k, t) == v * (w * t) + v * (w * t) + v * (t * (h - 2 * t)) + v * (t * (h
                - 2 * t)),
            n == w * t + w * t + t * (h - 2 * t) + t * (h - 2 * t),
    ;
    assert(n > 0) by (nonlinear_arith)
        requires
            n == 2 * t * w + 2 * t * (h - 2 * t),
            t == 30,
            w > 60,
            h > 60,
    ;
    assert((v * n) / n == v) by (nonlinear_arith)
        requires
            n > 0,
    ;
}

/// An image whose ring has one colour everywhere yields exactly that colour,
/// made opaque.
pub proof fn lemma_uniform_border(r: Raster, c: Color)
    requires
        samplable(r),
        forall|x: int, y: int|
            in_ring(r, BORDER_THICKNESS as int, x, y) ==> {
                let p = #[trigger] r.pixel(x, y);
                p.r == c.r && p.g == c.g && p.b == c.b
            },
    ensures
        border_mean(r) == (Color { a: 255, ..c }),
{
    lemma_uniform_ring_mean(r, 0, c.r as int);
    lemma_uniform_ring_mean(r, 1, c.g as int);
    lemma_uniform_ring_mean(r, 2, c.b as int);
}

/// The three channel sums of a block of pixels.
struct ChannelSums {
    r: u64,
    g: u64,
    b: u64,
}

/// Largest block, in pixels, whose channel sums are accumulated in one go.
const MAX_BLOCK: u64 = 0x100_0000_0000;

proof fn lemma_partial_block(a: int, b: int, c: int)
    requires
        0 <= a,
        0 <= b <= c,
    ensures
        0 <= a * b <= a * c,
{
    assert(0 <= a * b <= a * c) by (nonlinear_arith)
        requires
            0 <= a,
            0 <= b <= c,
    ;
}

fn sum_block(img: &Canvas, x0: u32, x1: u32, y0: u32, y1: u32) -> (sums: ChannelSums)
    requires
        x0 <= x1 <= raster(*img).width,
        y0 <= y1 <= raster(*img).height,
        (x1 - x0) * (y1 - y0) <= MAX_BLOCK,
    ensures
        sums.r == block_sum(raster(*img), 0, x0 as int, x1 as int, y0 as int, y1 as int),
        sums.g == block_sum(raster(*img), 1, x0 as int, x1 as int, y0 as int, y1 as int),
        sums.b == block_sum(raster(*img), 2, x0 as int, x1 as int, y0 as int, y1 as int),
{
    let ghost view = raster(*img);
    let mut total = ChannelSums { r: 0, g: 0, b: 0 };
    let mut y: u32 = y0;
    while y < y1
        invariant
            view == raster(*img),
            x0 <= x1 <= view.width,
            y0 <= y <= y1 <= view.height,
            (x1 - x0) * (y1 - y0) <= MAX_BLOCK,
            total.r == block_sum(view, 0, x0 as int, x1 as int, y0 as int, y as int),
            total.g == block_sum(view, 1, x0 as int, x1 as int, y0 as int, y as int),
            total.b == block_sum(view, 2, x0 as int, x1 as int, y0 as int, y as int),
        decreases y1 - y,
    {
        let mut row = ChannelSums { r: 0, g: 0, b: 0 };
        let mut x: u32 = x0;
        while x < x1
            invariant
                view == raster(*img),
                x0 <= x <= x1 <= view.width,
                y < view.height,
                row.r == row_sum(view, 0, y as int, x0 as int, x as int),
                row.g == row_sum(view, 1, y as int, x0 as int, x as int),
                row.b == row_sum(view, 2, y as int, x0 as int, x as int),
            decreases x1 - x,
        {
            proof {
                lemma_row_sum_bounds(view, 0, y as int, x0 as int, x as int);
                lemma_row_sum_bounds(view, 1, y as int, x0 as int, x as int);
                lemma_row_sum_bounds(view, 2, y as int, x0 as int, x as int);
            }
            let p = buffer_pixel(img, x, y);
            row.r = row.r + p.r as u64;
            row.g = row.g + p.g as u64;
            row.b = row.b + p.b as u64;
            x = x + 1;
        }
        proof {
            let next = y + 1;
            lemma_block_sum_bounds(view, 0, x0 as int, x1 as int, y0 as int, next);
            lemma_block_sum_bounds(view, 1, x0 as int, x1 as int, y0 as int, next);
            lemma_block_sum_bounds(view, 2, x0 as int, x1 as int, y0 as int, next);
            lemma_partial_block(x1 - x0, next - y0, y1 - y0);
        }
        total.r = total.r + row.r;
        total.g = total.g + row.g;
        total.b = total.b + row.b;
        y = y + 1;
    }
    total
}

proof fn lemma_ring_sum_bounds(r: Raster, k: int)
    requires
        samplable(r),
    ensures
        0 <= ring_sum(r, k, BORDER_THICKNESS as int) <= 255 * ring_count(
            r.width as int,
            r.height as int,
            BORDER_THICKNESS as int,
        ),
        0 < ring_count(r.width as int, r.height as int, BORDER_THICKNESS as int),
        0 <= ring_mean(r, k, BORDER_THICKNESS as int) <= 255,
{
    let t = BORDER_THICKNESS as int;
    let w = r.width as int;
    let h = r.height as int;
    lemma_block_sum_bounds(r, k, 0, w, 0, t);
    lemma_block_sum_bounds(r, k, 0, w, h - t, h);
    lemma_block_sum_bounds(r, k, 0, t, t, h - t);
    lemma_block_sum_bounds(r, k, w - t, w, t, h - t);
    let n = ring_count(w, h, t);
    let s = ring_sum(r, k, t);
    assert(0 <= s / n <= 255) by (nonlinear_arith)
        requires
            0 <= s <= 255 * n,
            0 < n,
    ;
}

/// Average colour of the ring of `BORDER_THICKNESS` pixels along the edges
/// of `img`: each channel is the truncated mean over the ring, and the result
/// is opaque. An image with a side of at most twice the ring width has no
/// well-formed ring and is refused.
pub fn get_border_color(img: &Canvas) -> (res: Result<Color, ImageError>)
    ensures
        samplable(raster(*img)) ==> res == Ok::<Color, ImageError>(border_mean(raster(*img))),
        !samplable(raster(*img)) ==> res == Err::<Color, ImageError>(
            ImageError::InvalidDimensions,
        ),
{
    let (w, h) = buffer_dimensions(img);
    let t: u32 = BORDER_THICKNESS;
    if w <= 2 * t || h <= 2 * t {
        return Err(ImageError::InvalidDimensions);
    }
    let top = sum_block(img, 0, w, 0, t);
    let bottom = sum_block(img, 0, w, h - t, h);
    let left = sum_block(img, 0, t, t, h - t);
    let right = sum_block(img, w - t, w, t, h - t);
    proof {
        let v = raster(*img);
        lemma_block_sum_bounds(v, 0, 0, w as int, 0, t as int);
        lemma_block_sum_bounds(v, 0, 0, w as int, h - t, h as int);
        lemma_block_sum_bounds(v, 0, 0, t as int, t as int, h - t);
        lemma_block_sum_bounds(v, 1, 0, w as int, 0, t as int);
        lemma_block_sum_bounds(v, 1, 0, w as int, h - t, h as int);
        lemma_block_sum_bounds(v, 1, 0, t as int, t as int, h - t);
        lemma_block_sum_bounds(v, 2, 0, w as int, 0, t as int);
        lemma_block_sum_bounds(v, 2, 0, w as int, h - t, h as int);
        lemma_block_sum_bounds(v, 2, 0, t as int, t as int, h - t);
        lemma_ring_sum_bounds(v, 0);
        lemma_ring_sum_bounds(v, 1);
        lemma_ring_sum_bounds(v, 2);
    }
    let count: u64 = 2 * (t as u64) * (w as u64) + 2 * (t as u64) * ((h - 2 * t) as u64);
    let total_r: u64 = top.r + bottom.r + left.r + right.r;
    let total_g: u64 = top.g + bottom.g + left.g + right.g;
    let total_b: u64 = top.b + bottom.b + left.b + right.b;
    Ok(
        Color {
            r: (total_r / count) as u8,
            g: (total_g / count) as u8,
            b: (total_b / count) as u8,
            a: 255,
        },
    )
}

} // verus!
