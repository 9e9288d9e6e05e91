use vstd::prelude::*;
use smallvec::SmallVec;
use crate::geometry::Vec2D;
use crate::rive::{BlendMode, RenderPaint, StrokeCap, StrokeJoin, mix_of, style_of};

verus! {

/// An 8-bit-per-channel color.
#[derive(Clone, Copy, Debug, PartialEq, Eq, Structural)]
pub struct Color {
    pub r: u8,
    pub g: u8,
    pub b: u8,
    pub a: u8,
}

/// The color of a packed `0xAARRGGBB` integer.
pub open spec fn color_of_bgra8(c: u32) -> Color {
    Color {
        r: (c / 0x1_0000 % 0x100) as u8,
        g: (c / 0x100 % 0x100) as u8,
        b: (c % 0x100) as u8,
        a: (c / 0x100_0000) as u8,
    }
}

/// Unpacks a color stored as `0xAARRGGBB`.
pub fn from_bgra8(color: u32) -> (r: Color)
    ensures
        r == color_of_bgra8(color),
{
    let r = ((color >> 16u32) & 0xffu32) as u8;
    let g = ((color >> 8u32) & 0xffu32) as u8;
    let b = (color & 0xffu32) as u8;
    let a = (color >> 24u32) as u8;
    assert(((color >> 16u32) & 0xffu32) == color / 0x1_0000 % 0x100) by (bit_vector);
    assert(((color >> 8u32) & 0xffu32) == color / 0x100 % 0x100) by (bit_vector);
    assert((color & 0xffu32) == color % 0x100) by (bit_vector);
    assert((color >> 24u32) == color / 0x100_0000) by (bit_vector);
    Color { r, g, b, a }
}

/// One stop of a gradient: an offset in 16.16 fixed point and a color.
#[derive(Clone, Copy, Debug, PartialEq, Eq, Structural)]
pub struct ColorStop {
    pub offset: i32,
    pub color: Color,
}

/// The color stops of a gradient, held inline up to four.
#[verifier::external_body]
#[derive(Debug)]
pub struct StopList {
    inner: SmallVec<[ColorStop; 4]>,
}

/// The stops held by a stop list, in order.
pub uninterp spec fn stop_list(v: StopList) -> Seq<ColorStop>;

/// Relies on `SmallVec::new`: an empty vector.
#[verifier::external_body]
fn stops_new() -> (r: StopList)
    ensures
        stop_list(r) == Seq::<ColorStop>::empty(),
{
    StopList { inner: SmallVec::new() }
}

/// Relies on `SmallVec::push`: appends one item at the end (it panics only
/// when the length would overflow).
#[verifier::external_body]
fn stops_push(v: &mut StopList, s: ColorStop)
    requires
        stop_list(*old(v)).len() < usize::MAX,
    ensures
        stop_list(*final(v)) == stop_list(*old(v)).push(s),
{
    v.inner.push(s)
}

/// Relies on `SmallVec::len`: the number of items held.
#[verifier::external_body]
fn stops_len(v: &StopList) -> (r: usize)
    ensures
        r == stop_list(*v).len(),
{
    v.inner.len()
}

/// Relies on indexing a `SmallVec` (through its slice): the item at `i`.
#[verifier::external_body]
fn stops_at(v: &StopList, i: usize) -> (r: ColorStop)
    requires
        i < stop_list(*v).len(),
    ensures
        r == stop_list(*v)[i as int],
{
    v.inner[i]
}

/// The stops made of packed colors and offsets, paired in order up to the
/// shorter of the two.
pub open spec fn paired_stops(colors: Seq<u32>, offsets: Seq<i32>) -> Seq<ColorStop> {
    let n = if colors.len() <= offsets.len() { colors.len() } else { offsets.len() };
    Seq::new(n, |i: int| ColorStop { offset: offsets[i], color: color_of_bgra8(colors[i]) })
}

/// Appends to `vec` the stops made of `colors` and `offsets` (see
/// `paired_stops`). Offsets are taken as given: they are neither sorted nor
/// range-checked.
pub fn collect_stops(colors: &Vec<u32>, offsets: &Vec<i32>, vec: &mut StopList)
    requires
        stop_list(*old(vec)).len() + paired_stops(colors@, offsets@).len() <= usize::MAX,
    ensures
        stop_list(*final(vec)) == stop_list(*old(vec)) + paired_stops(colors@, offsets@),
{
    let n: usize = if colors.len() <= offsets.len() { colors.len() } else { offsets.len() };
    let ghost start = stop_list(*vec);
    let mut i: usize = 0;
    while i < n
        invariant
            n <= colors@.len(),
            n <= offsets@.len(),
            n == paired_stops(colors@, offsets@).len(),
            start.len() + n <= usize::MAX,
            i <= n,
            stop_list(*vec) == start + paired_stops(colors@, offsets@).subrange(0, i as int),
        decreases n - i,
    {
        stops_push(vec, ColorStop { offset: offsets[i], color: from_bgra8(colors[i]) });
        i = i + 1;
        assert(stop_list(*vec) =~= start + paired_stops(colors@, offsets@).subrange(0, i as int));
    }
    assert(paired_stops(colors@, offsets@).subrange(0, n as int) =~= paired_stops(colors@, offsets@));
}

/// Geometry of a gradient.
#[derive(Clone, Copy, Debug, PartialEq, Eq, Structural)]
pub enum GradientKind {
    Linear { start: Vec2D, end: Vec2D },
    Radial { center: Vec2D, radius: i32 },
}

/// A linear or radial gradient with its color stops in the order given.
#[derive(Debug)]
pub struct Gradient {
    pub kind: GradientKind,
    pub stops: StopList,
}

impl Gradient {
    /// Number of color stops.
    pub fn stop_count(&self) -> (r: usize)
        ensures
            r == stop_list(self.stops).len(),
    {
        stops_len(&self.stops)
    }

    /// The color stop at `i`.
    pub fn stop(&self, i: usize) -> (r: ColorStop)
        requires
            i < stop_list(self.stops).len(),
        ensures
            r == stop_list(self.stops)[i as int],
    {
        stops_at(&self.stops, i)
    }

    /// `self` and `other` describe the same gradient.
    pub open spec fn same(&self, other: &Gradient) -> bool {
        self.kind == other.kind && stop_list(self.stops) == stop_list(other.stops)
    }

    pub fn duplicate(&self) -> (r: Gradient)
        ensures
            r.same(self),
    {
        Gradient { kind: self.kind, stops: copy_stops(&self.stops) }
    }
}

fn copy_stops(v: &StopList) -> (r: StopList)
    ensures
        stop_list(r) == stop_list(*v),
{
    let mut r = stops_new();
    let n = stops_len(v);
    let mut i: usize = 0;
    while i < n
        invariant
            n == stop_list(*v).len(),
            i <= n,
            stop_list(r) == stop_list(*v).subrange(0, i as int),
        decreases n - i,
    {
        stops_push(&mut r, stops_at(v, i));
        i = i + 1;
        assert(stop_list(r) =~= stop_list(*v).subrange(0, i as int));
    }
    assert(stop_list(r) =~= stop_list(*v));
    r
}

/// A linear gradient from `(sx, sy)` to `(ex, ey)`.
pub fn vello_gradient_new_linear(
    sx: i32,
    sy: i32,
    ex: i32,
    ey: i32,
    colors: &Vec<u32>,
    offsets: &Vec<i32>,
) -> (r: Gradient)
    ensures
        r.kind == (GradientKind::Linear { start: Vec2D { x: sx, y: sy }, end: Vec2D { x: ex, y: ey } }),
        stop_list(r.stops) == paired_stops(colors@, offsets@),
{
    let mut stops = stops_new();
    let count = colors.len();
    assert(paired_stops(colors@, offsets@).len() <= count);
    collect_stops(colors, offsets, &mut stops);
    Gradient {
        kind: GradientKind::Linear { start: Vec2D { x: sx, y: sy }, end: Vec2D { x: ex, y: ey } },
        stops,
    }
}

/// A radial gradient centered on `(cx, cy)`.
pub fn vello_gradient_new_radial(
    cx: i32,
    cy: i32,
    radius: i32,
    colors: &Vec<u32>,
    offsets: &Vec<i32>,
) -> (r: Gradient)
    ensures
        r.kind == (GradientKind::Radial { center: Vec2D { x: cx, y: cy }, radius }),
        stop_list(r.stops) == paired_stops(colors@, offsets@),
{
    let mut stops = stops_new();
    let count = colors.len();
    assert(paired_stops(colors@, offsets@).len() <= count);
    collect_stops(colors, offsets, &mut stops);
    Gradient { kind: GradientKind::Radial { center: Vec2D { x: cx, y: cy }, radius }, stops }
}

} // verus!

verus! {

#[derive(Clone, Copy, Debug, PartialEq, Eq, Structural)]
pub enum Join {
    Bevel,
    Miter,
    Round,
}

#[derive(Clone, Copy, Debug, PartialEq, Eq, Structural)]
pub enum Cap {
    Butt,
    Square,
    Round,
}

/// Compositing mixes of the rasterizer; `Clip` restricts drawing to a shape.
#[derive(Clone, Copy, Debug, PartialEq, Eq, Structural)]
pub enum Mix {
    Normal,
    Multiply,
    Screen,
    Overlay,
    Darken,
    Lighten,
    ColorDodge,
    ColorBurn,
    HardLight,
    SoftLight,
    Difference,
    Exclusion,
    Hue,
    Saturation,
    Color,
    Luminosity,
    Clip,
}

/// Interior rule of a fill.
#[derive(Clone, Copy, Debug, PartialEq, Eq, Structural)]
pub enum Fill {
    NonZero,
    EvenOdd,
}

/// Stroke parameters; the width is in path units.
#[derive(Clone, Copy, Debug, PartialEq, Eq, Structural)]
pub struct Stroke {
    pub width: i32,
    pub join: Join,
    pub start_cap: Cap,
    pub end_cap: Cap,
}

/// A fresh stroke: zero width, miter joins, butt caps.
pub open spec fn default_stroke() -> Stroke {
    Stroke { width: 0, join: Join::Miter, start_cap: Cap::Butt, end_cap: Cap::Butt }
}

pub fn new_default_stroke() -> (r: Stroke)
    ensures
        r == default_stroke(),
{
    Stroke { width: 0, join: Join::Miter, start_cap: Cap::Butt, end_cap: Cap::Butt }
}

#[derive(Clone, Copy, Debug, PartialEq, Eq, Structural)]
pub enum RenderStyle {
    Fill,
    Stroke(Stroke),
}

} // verus!

verus! {

/// Largest width or height of an image.
pub const MAX_IMAGE_DIM: u32 = 0x1_0000;

/// A decoded image: `width * height` pixels of four bytes (RGBA), row by row.
#[derive(Debug)]
pub struct Image {
    pub width: u32,
    pub height: u32,
    pub data: Vec<u8>,
}

impl Image {
    pub open spec fn wf(&self) -> bool {
        &&& self.width <= MAX_IMAGE_DIM
        &&& self.height <= MAX_IMAGE_DIM
        &&& self.data@.len() == 4 * self.width * self.height
    }

    /// Wraps a decoded RGBA8 buffer. Fails when the buffer does not hold
    /// exactly `width * height` pixels or a side exceeds `MAX_IMAGE_DIM`.
    pub fn from_rgba8(width: u32, height: u32, data: Vec<u8>) -> (r: Option<Image>)
        ensures
            r is Some <==> (width <= MAX_IMAGE_DIM && height <= MAX_IMAGE_DIM && data@.len() == 4
                * width * height),
            r matches Some(img) ==> img.width == width && img.height == height && img.data@
                == data@ && img.wf(),
    {
        if width > MAX_IMAGE_DIM || height > MAX_IMAGE_DIM {
            return None;
        }
        assert(4 * width * height <= 4 * 0x1_0000 * 0x1_0000) by (nonlinear_arith)
            requires
                width <= 0x1_0000,
                height <= 0x1_0000,
        ;
        let size: u64 = 4 * (width as u64) * (height as u64);
        if data.len() as u64 != size {
            return None;
        }
        Some(Image { width, height, data })
    }

    /// `self` and `other` hold the same picture.
    pub open spec fn same(&self, other: &Image) -> bool {
        self.width == other.width && self.height == other.height && self.data@ == other.data@
    }

    pub fn duplicate(&self) -> (r: Image)
        ensures
            r.same(self),
    {
        let mut data: Vec<u8> = Vec::new();
        let mut i: usize = 0;
        while i < self.data.len()
            invariant
                i <= self.data@.len(),
                data@ == self.data@.subrange(0, i as int),
            decreases self.data@.len() - i,
        {
            data.push(self.data[i]);
            i = i + 1;
            assert(data@ =~= self.data@.subrange(0, i as int));
        }
        assert(data@ =~= self.data@);
        Image { width: self.width, height: self.height, data }
    }
}

/// What a fill or stroke paints with.
#[derive(Debug)]
pub enum Brush {
    Solid(Color),
    Gradient(Gradient),
    Image(Image),
}

impl Brush {
    /// `self` and `other` paint the same way.
    pub open spec fn same(&self, other: &Brush) -> bool {
        match (self, other) {
            (Brush::Solid(a), Brush::Solid(b)) => a == b,
            (Brush::Gradient(a), Brush::Gradient(b)) => a.same(b),
            (Brush::Image(a), Brush::Image(b)) => a.same(b),
            _ => false,
        }
    }

    pub fn duplicate(&self) -> (r: Brush)
        ensures
            r.same(self),
    {
        match self {
            Brush::Solid(c) => Brush::Solid(*c),
            Brush::Gradient(g) => Brush::Gradient(g.duplicate()),
            Brush::Image(i) => Brush::Image(i.duplicate()),
        }
    }
}

/// Drawing style, brush and blend mode of draw calls.
#[derive(Debug)]
pub struct VelloPaint {
    pub style: RenderStyle,
    pub brush: Brush,
    pub blend_mode: Mix,
}

/// The stroke that a stroke setter edits: the current one, or a fresh one
/// when the paint fills.
pub open spec fn stroke_of(style: RenderStyle) -> Stroke {
    match style {
        RenderStyle::Stroke(s) => s,
        RenderStyle::Fill => default_stroke(),
    }
}

fn current_stroke(style: RenderStyle) -> (r: Stroke)
    ensures
        r == stroke_of(style),
{
    match style {
        RenderStyle::Stroke(s) => s,
        RenderStyle::Fill => new_default_stroke(),
    }
}

impl VelloPaint {
    /// A paint that fills with transparent black and blends normally.
    pub open spec fn is_default(&self) -> bool {
        &&& self.style == RenderStyle::Fill
        &&& self.brush == Brush::Solid(Color { r: 0, g: 0, b: 0, a: 0 })
        &&& self.blend_mode == Mix::Normal
    }
}

impl Default for VelloPaint {
    fn default() -> (r: VelloPaint)
        ensures
            r.is_default(),
    {
        VelloPaint {
            style: RenderStyle::Fill,
            brush: Brush::Solid(Color { r: 0, g: 0, b: 0, a: 0 }),
            blend_mode: Mix::Normal,
        }
    }
}

pub fn vello_paint_new() -> (r: VelloPaint)
    ensures
        r.is_default(),
{
    VelloPaint::default()
}

pub fn vello_paint_set_style(paint: &mut VelloPaint, style: RenderPaint)
    ensures
        final(paint).style == style_of(style),
        final(paint).brush == old(paint).brush,
        final(paint).blend_mode == old(paint).blend_mode,
{
    paint.style = RenderStyle::from(style);
}

pub fn vello_paint_set_color(paint: &mut VelloPaint, color: u32)
    ensures
        final(paint).brush == Brush::Solid(color_of_bgra8(color)),
        final(paint).style == old(paint).style,
        final(paint).blend_mode == old(paint).blend_mode,
{
    paint.brush = Brush::Solid(from_bgra8(color));
}

pub fn vello_paint_set_gradient(paint: &mut VelloPaint, gradient: &Gradient)
    ensures
        final(paint).brush matches Brush::Gradient(g) && g.same(gradient),
        final(paint).style == old(paint).style,
        final(paint).blend_mode == old(paint).blend_mode,
{
    paint.brush = Brush::Gradient(gradient.duplicate());
}

/// Sets the stroke width, turning a fill into a fresh stroke first.
pub fn vello_paint_set_thickness(paint: &mut VelloPaint, thickness: i32)
    ensures
        final(paint).style == RenderStyle::Stroke(
            Stroke { width: thickness, ..stroke_of(old(paint).style) },
        ),
        final(paint).brush == old(paint).brush,
        final(paint).blend_mode == old(paint).blend_mode,
{
    let mut stroke = current_stroke(paint.style);
    stroke.width = thickness;
    paint.style = RenderStyle::Stroke(stroke);
}

/// The join of each runtime join.
pub open spec fn join_of(j: StrokeJoin) -> Join {
    match j {
        StrokeJoin::Miter => Join::Miter,
        StrokeJoin::Round => Join::Round,
        StrokeJoin::Bevel => Join::Bevel,
    }
}

/// The cap of each runtime cap.
pub open spec fn cap_of(c: StrokeCap) -> Cap {
    match c {
        StrokeCap::Butt => Cap::Butt,
        StrokeCap::Round => Cap::Round,
        StrokeCap::Square => Cap::Square,
    }
}

/// Sets the stroke join, turning a fill into a fresh stroke first.
pub fn vello_paint_set_join(paint: &mut VelloPaint, join: StrokeJoin)
    ensures
        final(paint).style == RenderStyle::Stroke(
            Stroke { join: join_of(join), ..stroke_of(old(paint).style) },
        ),
        final(paint).brush == old(paint).brush,
        final(paint).blend_mode == old(paint).blend_mode,
{
    let mut stroke = current_stroke(paint.style);
    stroke.join = match join {
        StrokeJoin::Miter => Join::Miter,
        StrokeJoin::Round => Join::Round,
        StrokeJoin::Bevel => Join::Bevel,
    };
    paint.style = RenderStyle::Stroke(stroke);
}

/// Sets both stroke caps, turning a fill into a fresh stroke first.
pub fn vello_paint_set_cap(paint: &mut VelloPaint, cap: StrokeCap)
    ensures
        final(paint).style == RenderStyle::Stroke(
            Stroke { start_cap: cap_of(cap), end_cap: cap_of(cap), ..stroke_of(old(paint).style) },
        ),
        final(paint).brush == old(paint).brush,
        final(paint).blend_mode == old(paint).blend_mode,
{
    let mut stroke = current_stroke(paint.style);
    stroke.start_cap = match cap {
        StrokeCap::Butt => Cap::Butt,
        StrokeCap::Round => Cap::Round,
        StrokeCap::Square => Cap::Square,
    };
    stroke.end_cap = stroke.start_cap;
    paint.style = RenderStyle::Stroke(stroke);
}

pub fn vello_paint_set_blend_mode(paint: &mut VelloPaint, blend_mode: BlendMode)
    ensures
        final(paint).blend_mode == mix_of(blend_mode),
        final(paint).style == old(paint).style,
        final(paint).brush == old(paint).brush,
{
    let mix: Mix = Mix::from(blend_mode);
    paint.blend_mode = mix;
}

} // verus!

verus! {

/// The animation file signature: the bytes `RIVE` in ASCII.
pub open spec fn is_rive_signature(b: Seq<u8>) -> bool {
    b.len() >= 4 && b[0] == 0x52u8 && b[1] == 0x49u8 && b[2] == 0x56u8 && b[3] == 0x45u8
}

/// Whether a file starts with the animation file signature.
pub fn has_rive_header(bytes: &Vec<u8>) -> (r: bool)
    ensures
        r == is_rive_signature(bytes@),
{
    bytes.len() >= 4 && bytes[0] == 0x52u8 && bytes[1] == 0x49u8 && bytes[2] == 0x56u8 && bytes[3]
        == 0x45u8
}

} // verus!
