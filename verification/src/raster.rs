//! RGBA pixel buffers.
//!
//! A [`Canvas`] owns a buffer of the `image` crate. Verus does not look inside
//! it: what it holds is given by [`raster`], and every operation that touches
//! the buffer is a short call into `image` or `imageproc` whose contract is
//! taken on trust. Those calls are kept within the crate; the public
//! functions, here and in the other modules, are verified against their
//! contracts.

use vstd::arithmetic::div_mod::{
    lemma_div_pos_is_pos,
    lemma_fundamental_div_mod,
    lemma_mod_bound,
    lemma_multiply_divide_lt,
};
use vstd::prelude::*;
use crate::color::Color;
use crate::geometry::Rectangle;

verus! {

/// What a pixel buffer holds: its size and its samples, four per pixel
/// (red, green, blue, alpha), row after row from the top.
pub ghost struct Raster {
    pub width: nat,
    pub height: nat,
    pub data: Seq<u8>,
}

impl Raster {
    /// Whether `(x, y)` names a pixel of the raster.
    pub open spec fn contains(self, x: int, y: int) -> bool {
        0 <= x < self.width && 0 <= y < self.height
    }

    /// Index in `data` of the red sample of the pixel at `(x, y)`.
    pub open spec fn offset(self, x: int, y: int) -> int {
        4 * (y * self.width + x)
    }

    /// The colour of the pixel at `(x, y)`.
    pub open spec fn pixel(self, x: int, y: int) -> Color {
        let i = self.offset(x, y);
        Color { r: self.data[i], g: self.data[i + 1], b: self.data[i + 2], a: self.data[i + 3] }
    }

    /// Whether both rasters have the same width, height and sample count.
    pub open spec fn same_size(self, other: Raster) -> bool {
        self.width == other.width && self.height == other.height && self.data.len()
            == other.data.len()
    }

    /// Whether the samples that lie beyond the last pixel, if there are any,
    /// are the same in both rasters.
    pub open spec fn same_spare(self, other: Raster) -> bool {
        forall|i: int|
            4 * (self.width * self.height) <= i < self.data.len() ==> #[trigger] self.data[i]
                == other.data[i]
    }

    /// Whether both rasters show the same colour at every pixel of `self`.
    pub open spec fn same_pixels(self, other: Raster) -> bool {
        forall|x: int, y: int| self.contains(x, y) ==> #[trigger] self.pixel(x, y) == other.pixel(x, y)
    }

    /// Whether the raster is small enough to be drawn on: the rasteriser
    /// compares coordinates as signed 32-bit numbers.
    pub open spec fn paintable(self) -> bool {
        self.width <= i32::MAX && self.height <= i32::MAX
    }
}

/// Two rasters of the same size that agree on every pixel, and on the
/// samples beyond the last pixel if there are any, are the same raster.
pub proof fn lemma_pixels_determine_raster(a: Raster, b: Raster)
    requires
        a.same_size(b),
        a.same_spare(b),
        a.same_pixels(b),
    ensures
        a == b,
{
    let w = a.width as int;
    let h = a.height as int;
    assert forall|i: int| 0 <= i < a.data.len() implies a.data[i] == b.data[i] by {
        if i < 4 * (w * h) {
            let p = i / 4;
            let k = i % 4;
            assert(i == 4 * p + k && 0 <= k < 4);
            assert(0 <= p < w * h);
            assert(w > 0) by (nonlinear_arith)
                requires
                    0 <= w,
                    0 < w * h,
            ;
            let y = p / w;
            let x = p % w;
            lemma_fundamental_div_mod(p, w);
            lemma_mod_bound(p, w);
            lemma_div_pos_is_pos(p, w);
            lemma_multiply_divide_lt(p, w, h);
            assert(w * y == y * w) by (nonlinear_arith);
            assert(a.contains(x, y));
            assert(a.offset(x, y) == 4 * p);
            assert(b.offset(x, y) == 4 * p);
            assert(a.pixel(x, y) == b.pixel(x, y));
        }
    }
    assert(a.data =~= b.data);
}

/// How a resized image is sampled from its source.
#[derive(Clone, Copy, Debug, PartialEq, Eq, Structural)]
pub enum Resampling {
    /// Nearest neighbour.
    Nearest,
    /// Lanczos with a window of three.
    Lanczos3,
}

/// Whether resizing a source `src_width` wide to `nwidth` by `nheight` stays
/// within what one allocation can hold: the result has four byte samples per
/// pixel, and an intermediate image of the source width and the new height
/// has four 4-byte samples per pixel. The sample count of one row must fit
/// the machine word by itself, whatever the number of rows.
pub open spec fn resample_fits(src_width: int, nwidth: int, nheight: int) -> bool {
    &&& 4 * src_width <= usize::MAX
    &&& 4 * nwidth <= usize::MAX
    &&& 16 * (src_width * nheight) <= isize::MAX
    &&& 4 * (nwidth * nheight) <= isize::MAX
}

/// Largest side, of the source and of the result, at which Lanczos sampling
/// is used. Sample positions are computed in single precision; up to this
/// side they are exact to a fifth of a pixel.
pub const MAX_LANCZOS_SIDE: u32 = 1_048_576;

/// Whether the sample positions of a resize are exact enough for its filter.
/// Nearest-neighbour sampling gives its one sample the weight 1 wherever it
/// falls. Lanczos sampling divides the weights of each window by their sum,
/// so the sum must not vanish. A window always holds the source pixel
/// nearest to the sample position; while positions are exact to a fifth of a
/// pixel that pixel weighs a third or more, the lobes beside it take away
/// less than a tenth, and the sum stays above a quarter. Far beyond the
/// bound neighbouring positions merge, a window can hold nothing but zeros,
/// and the call fails.
pub open spec fn positions_exact(
    src_width: int,
    src_height: int,
    nwidth: int,
    nheight: int,
    filter: Resampling,
) -> bool {
    filter != Resampling::Nearest ==> src_width <= MAX_LANCZOS_SIDE && src_height
        <= MAX_LANCZOS_SIDE && nwidth <= MAX_LANCZOS_SIDE && nheight <= MAX_LANCZOS_SIDE
}

/// Whether a source of the given size can be resized to `nwidth` by
/// `nheight` with the given filter.
pub open spec fn resizable(
    src_width: int,
    src_height: int,
    nwidth: int,
    nheight: int,
    filter: Resampling,
) -> bool {
    resample_fits(src_width, nwidth, nheight) && positions_exact(
        src_width,
        src_height,
        nwidth,
        nheight,
        filter,
    )
}

/// Whether `out` is what resizing `src` to `nwidth` by `nheight` may give:
/// it has the requested size and no samples to spare; with nearest-neighbour
/// sampling it is [`nearest_resampled`]; with Lanczos sampling it is a
/// [`lanczos_resampling`]; and where `src` already has the requested size it
/// shows the pixels of `src`, whatever the filter.
pub open spec fn resampling_of(
    out: Raster,
    src: Raster,
    nwidth: u32,
    nheight: u32,
    filter: Resampling,
) -> bool {
    &&& out.width == nwidth
    &&& out.height == nheight
    &&& out.data.len() == 4 * (nwidth * nheight)
    &&& filter == Resampling::Nearest ==> out == nearest_resampled(src, nwidth, nheight)
    &&& filter == Resampling::Lanczos3 ==> lanczos_resampling(src, nwidth, nheight, out)
    &&& src.width == nwidth && src.height == nheight ==> src.same_pixels(out)
}

/// Whether a buffer of the given size can be made over `len` samples: one
/// row must fit the machine word, and there must be four samples per pixel.
pub open spec fn holds_image(width: u32, height: u32, len: nat) -> bool {
    4 * width <= usize::MAX && 4 * (width * height) <= len
}

/// What comes of drawing `over` on top of `under`: a transparent pixel
/// leaves `under` as it is, an opaque one replaces it, and anything between
/// is mixed by [`blend`].
pub open spec fn overlay_pixel(under: Color, over: Color) -> Color {
    if over.a == 0 {
        under
    } else if over.a == 255 {
        over
    } else {
        blend(under, over)
    }
}

/// An owned RGBA image, eight bits per channel. It wraps the buffer type of
/// the `image` crate, which Verus takes as opaque: what an image holds is
/// [`raster`] of it, and only the functions of this module reach inside.
#[verifier::external_body]
pub struct Canvas {
    buffer: image::RgbaImage,
}

/// The contents of a canvas.
pub uninterp spec fn raster(canvas: Canvas) -> Raster;

/// The image that nearest-neighbour resizing to `nwidth` by `nheight` makes
/// of `src`, as `image` computes it. Only this filter is given a name: it
/// works by additions, multiplications, divisions and roundings in single
/// precision, which give the same on every machine. Lanczos sampling takes a
/// sine, whose last digit the standard library leaves to the platform.
pub uninterp spec fn nearest_resampled(src: Raster, nwidth: u32, nheight: u32) -> Raster;

/// Whether `out` is an image that Lanczos resizing to `nwidth` by `nheight`
/// may make of `src`, as `image` computes it. This is a relation and not a
/// result: the kernel takes a sine, so two machines may differ in the last
/// digit, and each of their results stands in this relation to `src`.
pub uninterp spec fn lanczos_resampling(
    src: Raster,
    nwidth: u32,
    nheight: u32,
    out: Raster,
) -> bool;

/// The source-over mix of a partly transparent colour `over` with the colour
/// `under` beneath it, as `image` computes it for 8-bit RGBA pixels.
pub uninterp spec fn blend(under: Color, over: Color) -> Color;

/// `ImageBuffer::from_raw`: a buffer of the given size over the given
/// samples, provided there are at least four per pixel. The count is taken
/// with checked arithmetic, the row first, so a row that overflows the
/// machine word is refused even when there are no rows.
#[verifier::external_body]
pub(crate) fn buffer_from_raw(width: u32, height: u32, data: Vec<u8>) -> (res: Option<Canvas>)
    ensures
        res is Some <==> holds_image(width, height, data@.len()),
        res is Some ==> raster(res->Some_0) == (Raster {
            width: width as nat,
            height: height as nat,
            data: data@,
        }),
{
    match image::RgbaImage::from_raw(width, height, data) {
        Some(buffer) => Some(Canvas { buffer }),
        None => None,
    }
}

/// `ImageBuffer::into_raw`: the samples the buffer was holding.
#[verifier::external_body]
pub(crate) fn buffer_into_raw(canvas: Canvas) -> (data: Vec<u8>)
    ensures
        data@ == raster(canvas).data,
{
    canvas.buffer.into_raw()
}

/// `ImageBuffer::dimensions`: the width and height the buffer was made with.
#[verifier::external_body]
pub(crate) fn buffer_dimensions(canvas: &Canvas) -> (dims: (u32, u32))
    ensures
        dims.0 == raster(*canvas).width,
        dims.1 == raster(*canvas).height,
{
    canvas.buffer.dimensions()
}

/// `ImageBuffer::get_pixel`: the four samples stored for an in-bounds
/// coordinate. The call panics out of bounds, which `requires` rules out.
#[verifier::external_body]
pub(crate) fn buffer_pixel(canvas: &Canvas, x: u32, y: u32) -> (c: Color)
    requires
        raster(*canvas).contains(x as int, y as int),
    ensures
        c == raster(*canvas).pixel(x as int, y as int),
{
    let p = canvas.buffer.get_pixel(x, y);
    Color { r: p[0], g: p[1], b: p[2], a: p[3] }
}

/// `imageops::resize`: a new buffer of exactly the requested size, with no
/// samples to spare. With nearest-neighbour sampling its contents are
/// [`nearest_resampled`]; with Lanczos sampling they are a
/// [`lanczos_resampling`] of the source, of which no more is claimed. A
/// source that already has the requested size is copied pixel for pixel,
/// whatever the filter. The call fails where a buffer cannot be allocated
/// and where the weights of a Lanczos window sum to nothing; `requires`
/// leaves both out, the second by [`positions_exact`].
#[verifier::external_body]
pub(crate) fn buffer_resize(src: &Canvas, nwidth: u32, nheight: u32, filter: Resampling) -> (out:
    Canvas)
    requires
        resizable(
            raster(*src).width as int,
            raster(*src).height as int,
            nwidth as int,
            nheight as int,
            filter,
        ),
    ensures
        raster(out).width == nwidth,
        raster(out).height == nheight,
        raster(out).data.len() == 4 * (nwidth * nheight),
        filter == Resampling::Nearest ==> raster(out) == nearest_resampled(
            raster(*src),
            nwidth,
            nheight,
        ),
        filter == Resampling::Lanczos3 ==> lanczos_resampling(
            raster(*src),
            nwidth,
            nheight,
            raster(out),
        ),
        raster(*src).width == nwidth && raster(*src).height == nheight ==> raster(
            *src,
        ).same_pixels(raster(out)),
{
    let filter = match filter {
        Resampling::Nearest => image::imageops::FilterType::Nearest,
        Resampling::Lanczos3 => image::imageops::FilterType::Lanczos3,
    };
    Canvas { buffer: image::imageops::resize(&src.buffer, nwidth, nheight, filter) }
}

/// `imageops::replace`: every pixel of `bottom` that `top` covers, when
/// `top` is placed with its corner at `(x, y)`, takes the colour of the pixel
/// of `top` above it; the others stay, and so does any sample beyond the last
/// pixel.
#[verifier::external_body]
pub(crate) fn buffer_replace(bottom: &mut Canvas, top: &Canvas, x: i64, y: i64)
    ensures
        raster(*final(bottom)).same_size(raster(*old(bottom))),
        raster(*final(bottom)).same_spare(raster(*old(bottom))),
        forall|i: int, j: int|
            raster(*old(bottom)).contains(i, j) ==> #[trigger] raster(*final(bottom)).pixel(i, j)
                == if raster(*top).contains(i - x, j - y) {
                raster(*top).pixel(i - x, j - y)
            } else {
                raster(*old(bottom)).pixel(i, j)
            },
{
    image::imageops::replace(&mut bottom.buffer, &top.buffer, x, y);
}

/// `imageops::overlay`: every pixel of `bottom` that `top` covers, when
/// `top` is placed with its corner at `(x, y)`, becomes the pixel of `top`
/// drawn over it; the others stay, and so does any sample beyond the last
/// pixel. Drawing a transparent pixel changes nothing, drawing an opaque one
/// replaces what was there, and anything between is a [`blend`].
#[verifier::external_body]
pub(crate) fn buffer_overlay(bottom: &mut Canvas, top: &Canvas, x: i64, y: i64)
    ensures
        raster(*final(bottom)).same_size(raster(*old(bottom))),
        raster(*final(bottom)).same_spare(raster(*old(bottom))),
        forall|i: int, j: int|
            raster(*old(bottom)).contains(i, j) ==> #[trigger] raster(*final(bottom)).pixel(i, j)
                == if !raster(*top).contains(i - x, j - y) || raster(*top).pixel(i - x, j - y).a
                == 0 {
                raster(*old(bottom)).pixel(i, j)
            } else if raster(*top).pixel(i - x, j - y).a == 255 {
                raster(*top).pixel(i - x, j - y)
            } else {
                blend(raster(*old(bottom)).pixel(i, j), raster(*top).pixel(i - x, j - y))
            },
{
    image::imageops::overlay(&mut bottom.buffer, &top.buffer, x, y);
}

/// `imageproc::drawing::draw_hollow_rect_mut`: the pixels of the canvas on
/// the one-pixel outline of `rect` take `color`; the others stay, and so
/// does any sample beyond the last pixel. The rectangle must have area, which
/// `Rect` insists on, and the coordinates must be ones the rasteriser
/// represents exactly.
#[verifier::external_body]
pub(crate) fn buffer_draw_outline(canvas: &mut Canvas, rect: Rectangle, color: Color)
    requires
        rect.width >= 1,
        rect.height >= 1,
        rect.drawable(),
        raster(*old(canvas)).paintable(),
    ensures
        raster(*final(canvas)).same_size(raster(*old(canvas))),
        raster(*final(canvas)).same_spare(raster(*old(canvas))),
        forall|x: int, y: int|
            raster(*old(canvas)).contains(x, y) ==> #[trigger] raster(*final(canvas)).pixel(x, y)
                == if rect.on_outline(x, y) {
                color
            } else {
                raster(*old(canvas)).pixel(x, y)
            },
{
    let area = imageproc::rect::Rect::at(rect.left, rect.top).of_size(rect.width, rect.height);
    let ink = image::Rgba([color.r, color.g, color.b, color.a]);
    imageproc::drawing::draw_hollow_rect_mut(&mut canvas.buffer, area, ink);
}

/// Tells whether `resample_fits` holds.
fn fits_allocation(src_width: u32, nwidth: u32, nheight: u32) -> (ok: bool)
    ensures
        ok == resample_fits(src_width as int, nwidth as int, nheight as int),
{
    let limit: u128 = isize::MAX as u128;
    let tall: u128 = nheight as u128;
    assert(0 <= src_width * nheight <= 0x1_0000_0000 * 0x1_0000_0000) by (nonlinear_arith)
        requires
            0 <= src_width <= 0x1_0000_0000,
            0 <= nheight <= 0x1_0000_0000,
    ;
    assert(0 <= nwidth * nheight <= 0x1_0000_0000 * 0x1_0000_0000) by (nonlinear_arith)
        requires
            0 <= nwidth <= 0x1_0000_0000,
            0 <= nheight <= 0x1_0000_0000,
    ;
    let word: u128 = usize::MAX as u128;
    4 * (src_width as u128) <= word && 4 * (nwidth as u128) <= word && 16 * (src_width as u128
        * tall) <= limit && 4 * (nwidth as u128 * tall) <= limit
}

impl Canvas {
    /// An image of the given size over the given samples, four per pixel
    /// (red, green, blue, alpha), row after row from the top. `None` when
    /// there are fewer samples than the size calls for, or when one row
    /// alone holds more samples than the machine can count.
    pub fn from_raw(width: u32, height: u32, data: Vec<u8>) -> (res: Option<Canvas>)
        ensures
            res is Some <==> holds_image(width, height, data@.len()),
            res is Some ==> raster(res->Some_0) == (Raster {
                width: width as nat,
                height: height as nat,
                data: data@,
            }),
    {
        buffer_from_raw(width, height, data)
    }

    /// The samples of the image, in the order `from_raw` takes them.
    pub fn into_raw(self) -> (data: Vec<u8>)
        ensures
            data@ == raster(self).data,
    {
        buffer_into_raw(self)
    }

    /// A copy of the image resized to `nwidth` by `nheight`. `None` when an
    /// image of that size cannot be allocated, or when Lanczos sampling is
    /// asked for and a side of the image or of the result is above
    /// `MAX_LANCZOS_SIDE`. Nearest-neighbour sampling always gives the same
    /// image for the same source and size; an image that already has the
    /// requested size comes back pixel for pixel.
    pub fn resized(&self, nwidth: u32, nheight: u32, filter: Resampling) -> (res: Option<Canvas>)
        ensures
            res is Some <==> resizable(
                raster(*self).width as int,
                raster(*self).height as int,
                nwidth as int,
                nheight as int,
                filter,
            ),
            res is Some ==> resampling_of(
                raster(res->Some_0),
                raster(*self),
                nwidth,
                nheight,
                filter,
            ),
    {
        let (w, h) = buffer_dimensions(self);
        let exact = match filter {
            Resampling::Nearest => true,
            Resampling::Lanczos3 => w <= MAX_LANCZOS_SIDE && h <= MAX_LANCZOS_SIDE && nwidth
                <= MAX_LANCZOS_SIDE && nheight <= MAX_LANCZOS_SIDE,
        };
        if exact && fits_allocation(w, nwidth, nheight) {
            Some(buffer_resize(self, nwidth, nheight, filter))
        } else {
            None
        }
    }

    /// Width in pixels.
    pub fn width(&self) -> (w: u32)
        ensures
            w == raster(*self).width,
    {
        buffer_dimensions(self).0
    }

    /// Height in pixels.
    pub fn height(&self) -> (h: u32)
        ensures
            h == raster(*self).height,
    {
        buffer_dimensions(self).1
    }

    /// The colour at `(x, y)`, or `None` outside the image.
    pub fn get_pixel(&self, x: u32, y: u32) -> (c: Option<Color>)
        ensures
            c == if raster(*self).contains(x as int, y as int) {
                Some(raster(*self).pixel(x as int, y as int))
            } else {
                None
            },
    {
        let (w, h) = buffer_dimensions(self);
        if x < w && y < h {
            Some(buffer_pixel(self, x, y))
        } else {
            None
        }
    }
}

} // verus!
