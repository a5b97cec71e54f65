//! Assembly of the finished jacket: artwork pasted on its background, frame
//! laid over both, and the double border drawn last.

use vstd::prelude::*;
use crate::border::draw_thick_border;
use crate::color::{adjust_color, adjusted, frame_for, select_frame, Color, FrameChoice};
use crate::error::ImageError;
use crate::geometry::{
    border_layout,
    frame_side_of,
    lemma_layout_fits,
    supported_width,
    Layout,
    MAX_ARTWORK_SIDE,
};
use crate::raster::{
    nearest_resampled,
    buffer_dimensions,
    buffer_overlay,
    buffer_replace,
    lemma_pixels_determine_raster,
    overlay_pixel,
    raster,
    resizable,
    resampling_of,
    Canvas,
    Raster,
    Resampling,
};
use crate::sampler::{border_mean, get_border_color, samplable};

verus! {

/// The colour with its alpha channel set to opaque.
pub open spec fn opaque(c: Color) -> Color {
    Color { a: 255, ..c }
}

/// The pixel at `(x, y)` once the artwork is pasted on the background with
/// its corner at `(layout.half, layout.half)`: the artwork replaces what it
/// covers.
pub open spec fn pasted_pixel(bg: Raster, art: Raster, layout: Layout, x: int, y: int) -> Color {
    if art.contains(x - layout.half, y - layout.half) {
        art.pixel(x - layout.half, y - layout.half)
    } else {
        bg.pixel(x, y)
    }
}

/// The pixel at `(x, y)` once the frame is laid over background and artwork
/// with its corner at `(layout.frame_offset, layout.frame_offset)`: the
/// frame is drawn over what it covers, with its own transparency.
pub open spec fn framed_pixel(
    bg: Raster,
    art: Raster,
    frame: Raster,
    layout: Layout,
    x: int,
    y: int,
) -> Color {
    let under = pasted_pixel(bg, art, layout, x, y);
    if frame.contains(x - layout.frame_offset, y - layout.frame_offset) {
        overlay_pixel(under, frame.pixel(x - layout.frame_offset, y - layout.frame_offset))
    } else {
        under
    }
}

/// The pixel at `(x, y)` of the finished jacket: the border colour on the
/// strokes of the two outlines, and the framed artwork everywhere else.
pub open spec fn jacket_pixel(
    bg: Raster,
    art: Raster,
    frame: Raster,
    color: Color,
    layout: Layout,
    x: int,
    y: int,
) -> Color {
    if layout.inner.on_stroke(layout.stroke as int, x, y) || layout.outer.on_stroke(
        layout.stroke as int,
        x,
        y,
    ) {
        opaque(color)
    } else {
        framed_pixel(bg, art, frame, layout, x, y)
    }
}

/// Whether `out` is the jacket made of the given background, artwork and
/// frame, with the border in `color`: every pixel is what `jacket_pixel`
/// says, and samples beyond the last pixel, if the background had any, are
/// as they were.
pub open spec fn is_jacket(
    out: Raster,
    bg: Raster,
    art: Raster,
    frame: Raster,
    color: Color,
    layout: Layout,
) -> bool {
    &&& out.same_size(bg)
    &&& out.same_spare(bg)
    &&& forall|x: int, y: int|
        bg.contains(x, y) ==> #[trigger] out.pixel(x, y) == jacket_pixel(
            bg,
            art,
            frame,
            color,
            layout,
            x,
            y,
        )
}

/// Whether a background and a layout can be drawn on: both outlines must be
/// placed exactly, and the background must be one the rasteriser accepts.
pub open spec fn drawable_on(bg: Raster, layout: Layout) -> bool {
    layout.inner.drawable() && layout.outer.drawable() && bg.paintable()
}

/// Finishes a jacket on a background that already has its final size:
/// pastes the artwork, lays the frame over it, then draws the inner and the
/// outer border, all where `layout` puts them. The frame is used at the size
/// it comes in.
pub fn composite(
    background: Canvas,
    artwork: &Canvas,
    frame: &Canvas,
    color: Color,
    layout: Layout,
) -> (res: Result<Canvas, ImageError>)
    ensures
        drawable_on(raster(background), layout) ==> res is Ok && is_jacket(
            raster(res->Ok_0),
            raster(background),
            raster(*artwork),
            raster(*frame),
            color,
            layout,
        ),
        !drawable_on(raster(background), layout) ==> res == Err::<Canvas, ImageError>(
            ImageError::InvalidDimensions,
        ),
{
    let (w, h) = buffer_dimensions(&background);
    if !layout.inner.is_drawable() || !layout.outer.is_drawable() || w > i32::MAX as u32 || h
        > i32::MAX as u32 {
        return Err(ImageError::InvalidDimensions);
    }
    let ghost bg = raster(background);
    let ghost art = raster(*artwork);
    let ghost fr = raster(*frame);
    let ink = Color { r: color.r, g: color.g, b: color.b, a: 255 };
    let mut canvas = background;
    buffer_replace(&mut canvas, artwork, layout.half as i64, layout.half as i64);
    let ghost pasted = raster(canvas);
    buffer_overlay(&mut canvas, frame, layout.frame_offset as i64, layout.frame_offset as i64);
    let ghost framed = raster(canvas);
    draw_thick_border(&mut canvas, layout.inner, ink, layout.stroke);
    let ghost inner_done = raster(canvas);
    draw_thick_border(&mut canvas, layout.outer, ink, layout.stroke);
    proof {
        let out = raster(canvas);
        assert forall|x: int, y: int| bg.contains(x, y) implies #[trigger] out.pixel(x, y)
            == jacket_pixel(bg, art, fr, color, layout, x, y) by {
            assert(pasted.pixel(x, y) == pasted_pixel(bg, art, layout, x, y));
            assert(framed.pixel(x, y) == framed_pixel(bg, art, fr, layout, x, y));
            assert(inner_done.contains(x, y));
            assert(inner_done.pixel(x, y) == if layout.inner.on_stroke(
                layout.stroke as int,
                x,
                y,
            ) {
                ink
            } else {
                framed.pixel(x, y)
            });
        }
    }
    Ok(canvas)
}

/// Whether a jacket can be made of the given blurred background source,
/// artwork and frame: the artwork must have a supported width and a height
/// within `MAX_ARTWORK_SIDE`, the doubled background and the resized frame
/// must each fit an allocation, and the frame, before and after resizing,
/// must have sides within `MAX_LANCZOS_SIDE`.
pub open spec fn composable(blurred: Raster, art: Raster, frame: Raster) -> bool {
    &&& supported_width(art.width as int)
    &&& art.height <= MAX_ARTWORK_SIDE
    &&& resizable(
        blurred.width as int,
        blurred.height as int,
        2 * (art.width as int),
        2 * (art.height as int),
        Resampling::Nearest,
    )
    &&& resizable(
        frame.width as int,
        frame.height as int,
        frame_side_of(art.width as int),
        frame_side_of(art.width as int),
        Resampling::Lanczos3,
    )
}

/// The background of the jacket around `art`: `blurred` resized to twice the
/// artwork with nearest-neighbour sampling.
pub open spec fn doubled(blurred: Raster, art: Raster) -> Raster {
    nearest_resampled(blurred, (2 * art.width) as u32, (2 * art.height) as u32)
}

/// Whether `out` is the jacket around `art` that goes with `blurred`, with
/// `layer` as the frame at its final size and the border in `color`: the
/// layout is the one for the width of the artwork, the background is
/// `blurred` doubled, and `layer` is what resizing `frame` to the square of
/// the layout with Lanczos sampling gave.
pub open spec fn is_composition_with(
    out: Raster,
    blurred: Raster,
    art: Raster,
    frame: Raster,
    layer: Raster,
    color: Color,
) -> bool {
    exists|layout: Layout|
        {
            &&& layout.matches(art.width as int)
            &&& resampling_of(
                doubled(blurred, art),
                blurred,
                (2 * art.width) as u32,
                (2 * art.height) as u32,
                Resampling::Nearest,
            )
            &&& resampling_of(
                layer,
                frame,
                layout.frame_side,
                layout.frame_side,
                Resampling::Lanczos3,
            )
            &&& #[trigger] is_jacket(out, doubled(blurred, art), art, layer, color, layout)
        }
}

/// Whether `out` is the jacket around `art` that goes with `blurred` and
/// `frame`, with the border in `color`, for some frame layer that Lanczos
/// sampling may give.
pub open spec fn is_composition(
    out: Raster,
    blurred: Raster,
    art: Raster,
    frame: Raster,
    color: Color,
) -> bool {
    exists|layer: Raster| #[trigger] is_composition_with(out, blurred, art, frame, layer, color)
}

/// The layout that a composition was made with is the one that matches the
/// width of its artwork.
proof fn lemma_composition_layout(
    out: Raster,
    blurred: Raster,
    art: Raster,
    frame: Raster,
    layer: Raster,
    color: Color,
    layout: Layout,
)
    requires
        is_composition_with(out, blurred, art, frame, layer, color),
        layout.matches(art.width as int),
    ensures
        resampling_of(
            doubled(blurred, art),
            blurred,
            (2 * art.width) as u32,
            (2 * art.height) as u32,
            Resampling::Nearest,
        ),
        resampling_of(layer, frame, layout.frame_side, layout.frame_side, Resampling::Lanczos3),
        is_jacket(out, doubled(blurred, art), art, layer, color, layout),
{
    let found = choose|found: Layout|
        {
            &&& found.matches(art.width as int)
            &&& resampling_of(
                doubled(blurred, art),
                blurred,
                (2 * art.width) as u32,
                (2 * art.height) as u32,
                Resampling::Nearest,
            )
            &&& resampling_of(
                layer,
                frame,
                found.frame_side,
                found.frame_side,
                Resampling::Lanczos3,
            )
            &&& #[trigger] is_jacket(out, doubled(blurred, art), art, layer, color, found)
        };
    assert(found == layout);
}

/// Whatever resampling produced, a composition is twice the artwork in both
/// directions, holds four samples per pixel and no more, and carries the
/// opaque border colour on every pixel of the strokes of both outlines.
pub proof fn lemma_composition_borders(
    out: Raster,
    blurred: Raster,
    art: Raster,
    frame: Raster,
    color: Color,
    layout: Layout,
)
    requires
        composable(blurred, art, frame),
        is_composition(out, blurred, art, frame, color),
        layout.matches(art.width as int),
    ensures
        out.width == 2 * art.width,
        out.height == 2 * art.height,
        out.data.len() == 4 * (out.width * out.height),
        forall|x: int, y: int|
            out.contains(x, y) && (layout.inner.on_stroke(layout.stroke as int, x, y)
                || layout.outer.on_stroke(layout.stroke as int, x, y)) ==> #[trigger] out.pixel(
                x,
                y,
            ) == opaque(color),
{
    let layer = choose|layer: Raster|
        #[trigger] is_composition_with(out, blurred, art, frame, layer, color);
    lemma_composition_layout(out, blurred, art, frame, layer, color, layout);
    let bg = doubled(blurred, art);
    assert forall|x: int, y: int|
        out.contains(x, y) && (layout.inner.on_stroke(layout.stroke as int, x, y)
            || layout.outer.on_stroke(layout.stroke as int, x, y)) implies #[trigger] out.pixel(
        x,
        y,
    ) == opaque(color) by {
        assert(bg.contains(x, y));
        assert(out.pixel(x, y) == jacket_pixel(bg, art, layer, color, layout, x, y));
    }
}

/// Where the frame is transparent, and away from the border, a composition
/// shows the artwork as it is.
pub proof fn lemma_jacket_shows_artwork(
    out: Raster,
    bg: Raster,
    art: Raster,
    frame: Raster,
    color: Color,
    layout: Layout,
    x: int,
    y: int,
)
    requires
        is_jacket(out, bg, art, frame, color, layout),
        bg.contains(x, y),
        art.contains(x - layout.half, y - layout.half),
        !layout.inner.on_stroke(layout.stroke as int, x, y),
        !layout.outer.on_stroke(layout.stroke as int, x, y),
        frame.contains(x - layout.frame_offset, y - layout.frame_offset) ==> frame.pixel(
            x - layout.frame_offset,
            y - layout.frame_offset,
        ).a == 0,
    ensures
        out.pixel(x, y) == art.pixel(x - layout.half, y - layout.half),
{
}

/// The jacket looks at the frame layer through its pixels alone: two frame
/// layers of the same size that show the same pixels give the same jacket.
pub proof fn lemma_jacket_reads_frame_pixels(
    out: Raster,
    bg: Raster,
    art: Raster,
    first: Raster,
    second: Raster,
    color: Color,
    layout: Layout,
)
    requires
        is_jacket(out, bg, art, first, color, layout),
        first.width == second.width,
        first.height == second.height,
        first.same_pixels(second),
    ensures
        is_jacket(out, bg, art, second, color, layout),
{
    assert forall|x: int, y: int| bg.contains(x, y) implies #[trigger] out.pixel(x, y)
        == jacket_pixel(bg, art, second, color, layout, x, y) by {
        assert(out.pixel(x, y) == jacket_pixel(bg, art, first, color, layout, x, y));
        let fx = x - layout.frame_offset;
        let fy = y - layout.frame_offset;
        if first.contains(fx, fy) {
            assert(first.pixel(fx, fy) == second.pixel(fx, fy));
        }
    }
}

/// The layers and the layout determine the jacket: two results made of the
/// same background, artwork, frame, colour and layout are equal, sample for
/// sample.
pub proof fn lemma_jacket_is_determined(
    first: Raster,
    second: Raster,
    bg: Raster,
    art: Raster,
    frame: Raster,
    color: Color,
    layout: Layout,
)
    requires
        is_jacket(first, bg, art, frame, color, layout),
        is_jacket(second, bg, art, frame, color, layout),
    ensures
        first == second,
{
    assert forall|x: int, y: int| first.contains(x, y) implies #[trigger] first.pixel(x, y)
        == second.pixel(x, y) by {
        assert(bg.contains(x, y));
        assert(second.pixel(x, y) == jacket_pixel(bg, art, frame, color, layout, x, y));
    }
    assert forall|i: int|
        4 * (first.width * first.height) <= i < first.data.len() implies #[trigger] first.data[i]
        == second.data[i] by {
        assert(first.data[i] == bg.data[i]);
        assert(second.data[i] == bg.data[i]);
    }
    lemma_pixels_determine_raster(first, second);
}

/// Two compositions of the same blurred background, artwork and colour
/// over the same frame layer are equal, sample for sample: nothing but what
/// Lanczos sampling made of the frame can tell them apart.
pub proof fn lemma_composition_is_determined_by_layer(
    first: Raster,
    second: Raster,
    blurred: Raster,
    art: Raster,
    frame: Raster,
    layer: Raster,
    color: Color,
)
    requires
        is_composition_with(first, blurred, art, frame, layer, color),
        is_composition_with(second, blurred, art, frame, layer, color),
    ensures
        first == second,
{
    let layout = choose|layout: Layout|
        {
            &&& layout.matches(art.width as int)
            &&& resampling_of(
                doubled(blurred, art),
                blurred,
                (2 * art.width) as u32,
                (2 * art.height) as u32,
                Resampling::Nearest,
            )
            &&& resampling_of(
                layer,
                frame,
                layout.frame_side,
                layout.frame_side,
                Resampling::Lanczos3,
            )
            &&& #[trigger] is_jacket(first, doubled(blurred, art), art, layer, color, layout)
        };
    lemma_composition_layout(second, blurred, art, frame, layer, color, layout);
    lemma_jacket_is_determined(first, second, doubled(blurred, art), art, layer, color, layout);
}

/// A frame that already has the side the layout calls for is laid on as it
/// is: the composition is then the jacket over the frame itself.
pub proof fn lemma_composition_with_sized_frame(
    out: Raster,
    blurred: Raster,
    art: Raster,
    frame: Raster,
    color: Color,
    layout: Layout,
)
    requires
        is_composition(out, blurred, art, frame, color),
        layout.matches(art.width as int),
        frame.width == layout.frame_side,
        frame.height == layout.frame_side,
    ensures
        is_jacket(out, doubled(blurred, art), art, frame, color, layout),
{
    let layer = choose|layer: Raster|
        #[trigger] is_composition_with(out, blurred, art, frame, layer, color);
    lemma_composition_layout(out, blurred, art, frame, layer, color, layout);
    assert(frame.same_pixels(layer));
    assert forall|x: int, y: int| layer.contains(x, y) implies #[trigger] layer.pixel(x, y)
        == frame.pixel(x, y) by {
        assert(frame.contains(x, y));
    }
    lemma_jacket_reads_frame_pixels(
        out,
        doubled(blurred, art),
        art,
        layer,
        frame,
        color,
        layout,
    );
}

/// Two compositions of the same blurred background, artwork, frame and
/// colour are equal, sample for sample, when the frame already has the side
/// the layout calls for. (A frame of another size goes through Lanczos
/// sampling, which need not give the same on every machine.)
pub proof fn lemma_composition_is_determined(
    first: Raster,
    second: Raster,
    blurred: Raster,
    art: Raster,
    frame: Raster,
    color: Color,
    layout: Layout,
)
    requires
        is_composition(first, blurred, art, frame, color),
        is_composition(second, blurred, art, frame, color),
        layout.matches(art.width as int),
        frame.width == layout.frame_side,
        frame.height == layout.frame_side,
    ensures
        first == second,
{
    lemma_composition_with_sized_frame(first, blurred, art, frame, color, layout);
    lemma_composition_with_sized_frame(second, blurred, art, frame, color, layout);
    lemma_jacket_is_determined(first, second, doubled(blurred, art), art, frame, color, layout);
}

/// Makes the jacket around `artwork`: the background is `blurred` resized
/// to twice the artwork with nearest-neighbour sampling, the frame is resized
/// to the square the layout calls for with Lanczos sampling, and the rest is
/// `composite`. A frame that already has that size is laid on pixel for
/// pixel. Images beyond what `composable` admits are refused.
pub fn compose(blurred: &Canvas, artwork: &Canvas, frame: &Canvas, color: Color) -> (res: Result<
    Canvas,
    ImageError,
>)
    ensures
        composable(raster(*blurred), raster(*artwork), raster(*frame)) ==> res is Ok
            && is_composition(
            raster(res->Ok_0),
            raster(*blurred),
            raster(*artwork),
            raster(*frame),
            color,
        ),
        !composable(raster(*blurred), raster(*artwork), raster(*frame)) ==> res == Err::<
            Canvas,
            ImageError,
        >(ImageError::InvalidDimensions),
{
    let (w, h) = buffer_dimensions(artwork);
    let layout = match border_layout(w) {
        Ok(layout) => layout,
        Err(e) => {
            return Err(e);
        },
    };
    if h > MAX_ARTWORK_SIDE {
        return Err(ImageError::InvalidDimensions);
    }
    let background = match blurred.resized(2 * w, 2 * h, Resampling::Nearest) {
        Some(background) => background,
        None => {
            return Err(ImageError::InvalidDimensions);
        },
    };
    let sized = match frame.resized(layout.frame_side, layout.frame_side, Resampling::Lanczos3) {
        Some(sized) => sized,
        None => {
            return Err(ImageError::InvalidDimensions);
        },
    };
    proof {
        lemma_layout_fits(layout, w as int);
    }
    let ghost bg = raster(background);
    let ghost fr = raster(sized);
    let res = composite(background, artwork, &sized, color, layout);
    proof {
        if res is Ok {
            assert(bg == doubled(raster(*blurred), raster(*artwork)));
            assert(is_jacket(raster(res->Ok_0), bg, raster(*artwork), fr, color, layout));
            assert(is_composition_with(
                raster(res->Ok_0),
                raster(*blurred),
                raster(*artwork),
                raster(*frame),
                fr,
                color,
            ));
        }
    }
    res
}

/// The border colour that goes with a blurred background: the mean of its
/// ring, tone-corrected.
pub open spec fn border_color(blurred: Raster) -> Color {
    adjusted(border_mean(blurred)).color
}

/// The frame that goes with a blurred background, decided on the mean of
/// its ring before tone correction.
pub open spec fn frame_choice(blurred: Raster) -> FrameChoice {
    frame_for(adjusted(border_mean(blurred)).dark_background)
}

/// The frame that a blurred background calls for, out of the two on offer.
pub open spec fn needed_frame<'a>(
    blurred: Raster,
    light_frame: Option<&'a Canvas>,
    dark_frame: Option<&'a Canvas>,
) -> Option<&'a Canvas> {
    match frame_choice(blurred) {
        FrameChoice::LightBackground => light_frame,
        FrameChoice::DarkBackground => dark_frame,
    }
}

/// The frame that is not called for plays no part in which frame is used:
/// with the same blurred background and the same frame of the kind it calls
/// for, the frame used is the same whatever is offered for the other.
pub proof fn lemma_unneeded_frame_is_ignored(
    blurred: Raster,
    light_frame: Option<&Canvas>,
    dark_frame: Option<&Canvas>,
    other: Option<&Canvas>,
)
    ensures
        frame_choice(blurred) == FrameChoice::LightBackground ==> needed_frame(
            blurred,
            light_frame,
            dark_frame,
        ) == light_frame && needed_frame(blurred, light_frame, other) == light_frame,
        frame_choice(blurred) == FrameChoice::DarkBackground ==> needed_frame(
            blurred,
            light_frame,
            dark_frame,
        ) == dark_frame && needed_frame(blurred, other, dark_frame) == dark_frame,
{
}

/// What is needed to finish a jacket, read off its blurred background.
#[derive(Clone, Copy, Debug, PartialEq, Eq, Structural)]
pub struct BorderPlan {
    /// The colour of the double border.
    pub color: Color,
    /// The frame to lay over the artwork.
    pub frame: FrameChoice,
}

/// Samples the border colour of the blurred background, corrects its tone,
/// and picks the frame that goes with it.
pub fn plan_border(blurred: &Canvas) -> (res: Result<BorderPlan, ImageError>)
    ensures
        samplable(raster(*blurred)) ==> res == Ok::<BorderPlan, ImageError>(
            BorderPlan {
                color: border_color(raster(*blurred)),
                frame: frame_choice(raster(*blurred)),
            },
        ),
        !samplable(raster(*blurred)) ==> res == Err::<BorderPlan, ImageError>(
            ImageError::InvalidDimensions,
        ),
{
    match get_border_color(blurred) {
        Ok(mean) => {
            let adjustment = adjust_color(mean);
            Ok(
                BorderPlan {
                    color: adjustment.color,
                    frame: select_frame(adjustment.dark_background),
                },
            )
        },
        Err(e) => Err(e),
    }
}

/// The whole pipeline on images already in memory: plans the border from
/// `blurred`, takes the frame the plan calls for, and composes the jacket
/// around `artwork` with that frame and the planned colour. A frame that
/// could not be loaded is passed as `None`, which only matters if it is the
/// one chosen.
pub fn process_image(
    artwork: &Canvas,
    blurred: &Canvas,
    light_frame: Option<&Canvas>,
    dark_frame: Option<&Canvas>,
) -> (res: Result<Canvas, ImageError>)
    ensures
        !samplable(raster(*blurred)) ==> res == Err::<Canvas, ImageError>(
            ImageError::InvalidDimensions,
        ),
        samplable(raster(*blurred)) ==> match needed_frame(
            raster(*blurred),
            light_frame,
            dark_frame,
        ) {
            None => res == Err::<Canvas, ImageError>(ImageError::AssetLoad),
            Some(frame) => if composable(raster(*blurred), raster(*artwork), raster(*frame)) {
                res is Ok && is_composition(
                    raster(res->Ok_0),
                    raster(*blurred),
                    raster(*artwork),
                    raster(*frame),
                    border_color(raster(*blurred)),
                )
            } else {
                res == Err::<Canvas, ImageError>(ImageError::InvalidDimensions)
            },
        },
{
    let plan = match plan_border(blurred) {
        Ok(plan) => plan,
        Err(e) => {
            return Err(e);
        },
    };
    let picked = match plan.frame {
        FrameChoice::LightBackground => light_frame,
        FrameChoice::DarkBackground => dark_frame,
    };
    match picked {
        Some(frame) => compose(blurred, artwork, frame, plan.color),
        None => Err(ImageError::AssetLoad),
    }
}

} // verus!
