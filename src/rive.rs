use vstd::prelude::*;
use crate::paint::{Mix, RenderStyle, default_stroke};

verus! {

/// Whether a paint fills or strokes.
#[derive(Clone, Copy, Debug, PartialEq, Eq, Structural)]
pub enum RenderPaint {
    Stroke,
    Fill,
}

#[derive(Clone, Copy, Debug, PartialEq, Eq, Structural)]
pub enum StrokeJoin {
    Miter,
    Round,
    Bevel,
}

#[derive(Clone, Copy, Debug, PartialEq, Eq, Structural)]
pub enum StrokeCap {
    Butt,
    Round,
    Square,
}

/// Blend modes in the numbering of the animation runtime.
#[derive(Clone, Copy, Debug, PartialEq, Eq, Structural)]
pub enum BlendMode {
    SrcOver,
    Screen,
    Overlay,
    Darken,
    Lighten,
    ColorDodge,
    ColorBurn,
    HardLight,
    SoftLight,
    Difference,
    Exclusion,
    Multiply,
    Hue,
    Saturation,
    Color,
    Luminosity,
}

#[derive(Clone, Copy, Debug, PartialEq, Eq, Structural)]
pub enum FillRule {
    NonZero,
    EvenOdd,
}

impl RenderPaint {
    /// Decodes the runtime's numbering: stroke 0, fill 1.
    pub fn from_raw(n: u32) -> (r: Option<RenderPaint>)
        ensures
            r == (if n == 0 { Some(RenderPaint::Stroke) } else if n == 1 { Some(RenderPaint::Fill) } else { None::<RenderPaint> }),
    {
        match n {
            0 => Some(RenderPaint::Stroke),
            1 => Some(RenderPaint::Fill),
            _ => None,
        }
    }
}

impl StrokeJoin {
    /// Decodes the runtime's numbering: miter 0, round 1, bevel 2.
    pub fn from_raw(n: u32) -> (r: Option<StrokeJoin>)
        ensures
            r == (if n == 0 { Some(StrokeJoin::Miter) } else if n == 1 { Some(StrokeJoin::Round) } else if n == 2 { Some(StrokeJoin::Bevel) } else { None::<StrokeJoin> }),
    {
        match n {
            0 => Some(StrokeJoin::Miter),
            1 => Some(StrokeJoin::Round),
            2 => Some(StrokeJoin::Bevel),
            _ => None,
        }
    }
}

impl StrokeCap {
    /// Decodes the runtime's numbering: butt 0, round 1, square 2.
    pub fn from_raw(n: u32) -> (r: Option<StrokeCap>)
        ensures
            r == (if n == 0 { Some(StrokeCap::Butt) } else if n == 1 { Some(StrokeCap::Round) } else if n == 2 { Some(StrokeCap::Square) } else { None::<StrokeCap> }),
    {
        match n {
            0 => Some(StrokeCap::Butt),
            1 => Some(StrokeCap::Round),
            2 => Some(StrokeCap::Square),
            _ => None,
        }
    }
}

impl FillRule {
    /// Decodes the runtime's numbering: nonzero 0, even-odd 1.
    pub fn from_raw(n: u32) -> (r: Option<FillRule>)
        ensures
            r == (if n == 0 { Some(FillRule::NonZero) } else if n == 1 { Some(FillRule::EvenOdd) } else { None::<FillRule> }),
    {
        match n {
            0 => Some(FillRule::NonZero),
            1 => Some(FillRule::EvenOdd),
            _ => None,
        }
    }
}

/// The runtime's number of each blend mode.
pub open spec fn blend_mode_number(m: BlendMode) -> u32 {
    match m {
        BlendMode::SrcOver => 3,
        BlendMode::Screen => 14,
        BlendMode::Overlay => 15,
        BlendMode::Darken => 16,
        BlendMode::Lighten => 17,
        BlendMode::ColorDodge => 18,
        BlendMode::ColorBurn => 19,
        BlendMode::HardLight => 20,
        BlendMode::SoftLight => 21,
        BlendMode::Difference => 22,
        BlendMode::Exclusion => 23,
        BlendMode::Multiply => 24,
        BlendMode::Hue => 25,
        BlendMode::Saturation => 26,
        BlendMode::Color => 27,
        BlendMode::Luminosity => 28,
    }
}

impl BlendMode {
    /// Decodes the runtime's numbering (3 and 14 to 28).
    pub fn from_raw(n: u32) -> (r: Option<BlendMode>)
        ensures
            r matches Some(m) ==> blend_mode_number(m) == n,
            r is None <==> !(n == 3 || 14 <= n <= 28),
    {
        match n {
            3 => Some(BlendMode::SrcOver),
            14 => Some(BlendMode::Screen),
            15 => Some(BlendMode::Overlay),
            16 => Some(BlendMode::Darken),
            17 => Some(BlendMode::Lighten),
            18 => Some(BlendMode::ColorDodge),
            19 => Some(BlendMode::ColorBurn),
            20 => Some(BlendMode::HardLight),
            21 => Some(BlendMode::SoftLight),
            22 => Some(BlendMode::Difference),
            23 => Some(BlendMode::Exclusion),
            24 => Some(BlendMode::Multiply),
            25 => Some(BlendMode::Hue),
            26 => Some(BlendMode::Saturation),
            27 => Some(BlendMode::Color),
            28 => Some(BlendMode::Luminosity),
            _ => None,
        }
    }
}

/// The compositing mix of each blend mode: source-over is the normal mix,
/// every other mode has the mix of the same name.
pub open spec fn mix_of(m: BlendMode) -> Mix {
    match m {
        BlendMode::SrcOver => Mix::Normal,
        BlendMode::Screen => Mix::Screen,
        BlendMode::Overlay => Mix::Overlay,
        BlendMode::Darken => Mix::Darken,
        BlendMode::Lighten => Mix::Lighten,
        BlendMode::ColorDodge => Mix::ColorDodge,
        BlendMode::ColorBurn => Mix::ColorBurn,
        BlendMode::HardLight => Mix::HardLight,
        BlendMode::SoftLight => Mix::SoftLight,
        BlendMode::Difference => Mix::Difference,
        BlendMode::Exclusion => Mix::Exclusion,
        BlendMode::Multiply => Mix::Multiply,
        BlendMode::Hue => Mix::Hue,
        BlendMode::Saturation => Mix::Saturation,
        BlendMode::Color => Mix::Color,
        BlendMode::Luminosity => Mix::Luminosity,
    }
}

impl From<BlendMode> for Mix {
    fn from(value: BlendMode) -> (r: Mix)
        ensures
            r == mix_of(value),
    {
        match value {
            BlendMode::SrcOver => Mix::Normal,
            BlendMode::Screen => Mix::Screen,
            BlendMode::Overlay => Mix::Overlay,
            BlendMode::Darken => Mix::Darken,
            BlendMode::Lighten => Mix::Lighten,
            BlendMode::ColorDodge => Mix::ColorDodge,
            BlendMode::ColorBurn => Mix::ColorBurn,
            BlendMode::HardLight => Mix::HardLight,
            BlendMode::SoftLight => Mix::SoftLight,
            BlendMode::Difference => Mix::Difference,
            BlendMode::Exclusion => Mix::Exclusion,
            BlendMode::Multiply => Mix::Multiply,
            BlendMode::Hue => Mix::Hue,
            BlendMode::Saturation => Mix::Saturation,
            BlendMode::Color => Mix::Color,
            BlendMode::Luminosity => Mix::Luminosity,
        }
    }
}

impl vstd::std_specs::convert::FromSpecImpl<BlendMode> for Mix {
    open spec fn obeys_from_spec() -> bool {
        true
    }

    open spec fn from_spec(v: BlendMode) -> Mix {
        mix_of(v)
    }
}

/// The style that a paint kind starts with: a fill, or a fresh stroke.
pub open spec fn style_of(p: RenderPaint) -> RenderStyle {
    match p {
        RenderPaint::Stroke => RenderStyle::Stroke(default_stroke()),
        RenderPaint::Fill => RenderStyle::Fill,
    }
}

impl From<RenderPaint> for RenderStyle {
    fn from(value: RenderPaint) -> (r: RenderStyle)
        ensures
            r == style_of(value),
    {
        match value {
            RenderPaint::Stroke => RenderStyle::Stroke(crate::paint::new_default_stroke()),
            RenderPaint::Fill => RenderStyle::Fill,
        }
    }
}

impl vstd::std_specs::convert::FromSpecImpl<RenderPaint> for RenderStyle {
    open spec fn obeys_from_spec() -> bool {
        true
    }

    open spec fn from_spec(v: RenderPaint) -> RenderStyle {
        style_of(v)
    }
}

} // verus!
