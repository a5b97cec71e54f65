//! Colours, perceptual brightness, and the tone policy applied to a sampled
//! border colour.
//!
//! Brightness is the usual weighted sum `0.30 R + 0.59 G + 0.11 B`. All
//! arithmetic here is exact: brightness is carried in hundredths, so that the
//! three cut-offs and both scale factors are integer comparisons and integer
//! divisions.

use vstd::prelude::*;

verus! {

/// An RGBA colour with 8-bit channels.
#[derive(Clone, Copy, Debug, PartialEq, Eq, Structural)]
pub struct Color {
    pub r: u8,
    pub g: u8,
    pub b: u8,
    pub a: u8,
}

/// Which decorative frame goes on top of the artwork.
#[derive(Clone, Copy, Debug, PartialEq, Eq, Structural)]
pub enum FrameChoice {
    /// The frame drawn for a light background.
    LightBackground,
    /// The frame drawn for a dark background.
    DarkBackground,
}

/// A border colour after tone correction, with the frame that goes with it.
#[derive(Clone, Copy, Debug, PartialEq, Eq, Structural)]
pub struct Adjustment {
    /// The colour to draw the border with; always opaque.
    pub color: Color,
    /// Frame selection flag, decided on the brightness before correction.
    pub dark_background: bool,
}

/// Brightness above which a colour is darkened, in hundredths (210.00).
pub const VERY_LIGHT: u32 = 21_000;

/// Brightness below which a colour is lightened, in hundredths (50.00).
pub const VERY_DARK: u32 = 5_000;

/// Brightness above which the dark-background frame is chosen, in hundredths
/// (128.00).
pub const DARK_BACKGROUND: u32 = 12_800;

/// A hundred times the brightness of `c`: `30 R + 59 G + 11 B`.
pub open spec fn luma_hundredths(c: Color) -> int {
    30 * c.r + 59 * c.g + 11 * c.b
}

/// A channel value limited to what eight bits hold.
pub open spec fn clamp_channel(v: int) -> int {
    if v > 255 {
        255
    } else if v < 0 {
        0
    } else {
        v
    }
}

/// A channel scaled by 0.75, truncated.
pub open spec fn darkened(v: int) -> int {
    (3 * v) / 4
}

/// A channel scaled by `max(1.4, 60 / brightness)`, truncated, before any
/// clamping. With brightness `luma / 100` the second factor is `6000 / luma`,
/// and it is the larger one exactly when `7 * luma <= 30000`. Brightness zero
/// only occurs for black, which stays black.
pub open spec fn lightened(v: int, luma: int) -> int {
    if luma <= 0 {
        0
    } else if 7 * luma <= 30_000 {
        (v * 6_000) / luma
    } else {
        (7 * v) / 5
    }
}

/// One channel after tone correction: darkened when the colour is very
/// light, lightened and clamped when it is very dark, unchanged otherwise.
pub open spec fn toned_channel(v: int, luma: int) -> int {
    if luma > VERY_LIGHT {
        darkened(v)
    } else if luma < VERY_DARK {
        clamp_channel(lightened(v, luma))
    } else {
        v
    }
}

/// The tone-corrected, opaque version of `c`.
pub open spec fn toned(c: Color) -> Color {
    let luma = luma_hundredths(c);
    Color {
        r: toned_channel(c.r as int, luma) as u8,
        g: toned_channel(c.g as int, luma) as u8,
        b: toned_channel(c.b as int, luma) as u8,
        a: 255,
    }
}

/// Whether `c` calls for the dark-background frame: brightness strictly
/// above 128.
pub open spec fn is_dark_background(c: Color) -> bool {
    luma_hundredths(c) > DARK_BACKGROUND
}

/// What `adjust_color` yields for `c`.
pub open spec fn adjusted(c: Color) -> Adjustment {
    Adjustment { color: toned(c), dark_background: is_dark_background(c) }
}

/// The frame that goes with a dark-background flag.
pub open spec fn frame_for(dark_background: bool) -> FrameChoice {
    if dark_background {
        FrameChoice::DarkBackground
    } else {
        FrameChoice::LightBackground
    }
}

/// Every corrected channel is the scaled value where that fits in eight bits
/// and 255 where it does not; it never wraps around.
pub proof fn lemma_toned_channel_in_range(v: int, luma: int)
    requires
        0 <= v <= 255,
        0 <= luma,
    ensures
        0 <= toned_channel(v, luma) <= 255,
        luma > VERY_LIGHT ==> toned_channel(v, luma) == darkened(v),
        luma < VERY_DARK && lightened(v, luma) <= 255 ==> toned_channel(v, luma) == lightened(
            v,
            luma,
        ),
        luma < VERY_DARK && lightened(v, luma) > 255 ==> toned_channel(v, luma) == 255,
        VERY_DARK <= luma <= VERY_LIGHT ==> toned_channel(v, luma) == v,
{
    if 0 < luma {
        assert(0 <= (v * 6_000) / luma) by (nonlinear_arith)
            requires
                0 <= v,
                0 < luma,
        ;
    }
}

/// Tone correction depends on the colour alone, leaves every channel within
/// `0..=255`, and reproduces the exact (unwrapped) channel arithmetic.
pub proof fn lemma_adjust_channels(c: Color)
    ensures
        toned(c).r == toned_channel(c.r as int, luma_hundredths(c)),
        toned(c).g == toned_channel(c.g as int, luma_hundredths(c)),
        toned(c).b == toned_channel(c.b as int, luma_hundredths(c)),
        toned(c).a == 255,
{
    let luma = luma_hundredths(c);
    lemma_toned_channel_in_range(c.r as int, luma);
    lemma_toned_channel_in_range(c.g as int, luma);
    lemma_toned_channel_in_range(c.b as int, luma);
}

/// A colour that needs no correction is handed back as it is, made opaque.
pub proof fn lemma_mid_tones_unchanged(c: Color)
    requires
        VERY_DARK <= luma_hundredths(c) <= VERY_LIGHT,
    ensures
        toned(c) == (Color { a: 255, ..c }),
{
}

/// A hundred times the brightness of `c`.
pub fn luma(c: Color) -> (l: u32)
    ensures
        l == luma_hundredths(c),
        l <= 25_500,
{
    30 * (c.r as u32) + 59 * (c.g as u32) + 11 * (c.b as u32)
}

fn tone_channel(v: u8, luma: u32) -> (out: u8)
    requires
        luma <= 25_500,
    ensures
        out == toned_channel(v as int, luma as int),
{
    proof {
        lemma_toned_channel_in_range(v as int, luma as int);
    }
    let wide: u32 = v as u32;
    if luma > VERY_LIGHT {
        ((3 * wide) / 4) as u8
    } else if luma < VERY_DARK {
        let scaled: u32 = if luma == 0 {
            0
        } else if 7 * luma <= 30_000 {
            (wide * 6_000) / luma
        } else {
            (7 * wide) / 5
        };
        if scaled > 255 {
            255
        } else {
            scaled as u8
        }
    } else {
        v
    }
}

/// Corrects the tone of a sampled border colour and decides which frame goes
/// with it. The frame flag looks at the brightness of `c` itself, not at that
/// of the corrected colour.
pub fn adjust_color(c: Color) -> (out: Adjustment)
    ensures
        out == adjusted(c),
{
    let l: u32 = luma(c);
    proof {
        lemma_adjust_channels(c);
    }
    Adjustment {
        color: Color {
            r: tone_channel(c.r, l),
            g: tone_channel(c.g, l),
            b: tone_channel(c.b, l),
            a: 255,
        },
        dark_background: l > DARK_BACKGROUND,
    }
}

/// Picks the frame for a dark-background flag.
pub fn select_frame(dark_background: bool) -> (choice: FrameChoice)
    ensures
        choice == frame_for(dark_background),
{
    if dark_background {
        FrameChoice::DarkBackground
    } else {
        FrameChoice::LightBackground
    }
}

} // verus!
