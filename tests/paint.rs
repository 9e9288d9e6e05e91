use vello_rive::{
    BlendMode, Brush, Cap, Color, ColorStop, Gradient, GradientKind, Join, Mix, RenderPaint,
    RenderStyle, Stroke, StrokeCap, StrokeJoin, Vec2D, VelloPaint, collect_stops, from_bgra8,
    has_rive_header, vello_gradient_new_linear, vello_gradient_new_radial, vello_paint_new,
    vello_paint_set_blend_mode, vello_paint_set_cap, vello_paint_set_color,
    vello_paint_set_gradient, vello_paint_set_join, vello_paint_set_style,
    vello_paint_set_thickness,
};

fn fresh_stroke() -> Stroke {
    Stroke { width: 0, join: Join::Miter, start_cap: Cap::Butt, end_cap: Cap::Butt }
}

#[test]
fn bgra8_unpacks_channels() {
    let c = from_bgra8(0x80FF_4020);
    assert_eq!(c, Color { r: 0xFF, g: 0x40, b: 0x20, a: 0x80 });
    assert_eq!(from_bgra8(0), Color { r: 0, g: 0, b: 0, a: 0 });
}

#[test]
fn default_paint_is_transparent_fill() {
    let paint = vello_paint_new();
    assert_eq!(paint.style, RenderStyle::Fill);
    assert!(matches!(paint.brush, Brush::Solid(Color { r: 0, g: 0, b: 0, a: 0 })));
    assert_eq!(paint.blend_mode, Mix::Normal);
}

#[test]
fn set_style_stroke_resets() {
    let mut paint = VelloPaint::default();
    vello_paint_set_thickness(&mut paint, 7);
    vello_paint_set_style(&mut paint, RenderPaint::Stroke);
    assert_eq!(paint.style, RenderStyle::Stroke(fresh_stroke()));
    vello_paint_set_style(&mut paint, RenderPaint::Fill);
    assert_eq!(paint.style, RenderStyle::Fill);
}

#[test]
fn stroke_setters_convert_fill_once() {
    let mut paint = vello_paint_new();
    vello_paint_set_join(&mut paint, StrokeJoin::Round);
    assert_eq!(paint.style, RenderStyle::Stroke(Stroke { join: Join::Round, ..fresh_stroke() }));
    vello_paint_set_thickness(&mut paint, 5);
    vello_paint_set_cap(&mut paint, StrokeCap::Square);
    assert_eq!(
        paint.style,
        RenderStyle::Stroke(Stroke {
            width: 5,
            join: Join::Round,
            start_cap: Cap::Square,
            end_cap: Cap::Square
        })
    );
}

#[test]
fn thickness_on_fill_gives_defaults() {
    let mut paint = vello_paint_new();
    vello_paint_set_thickness(&mut paint, 3);
    assert_eq!(paint.style, RenderStyle::Stroke(Stroke { width: 3, ..fresh_stroke() }));
    let mut paint = vello_paint_new();
    vello_paint_set_cap(&mut paint, StrokeCap::Round);
    assert_eq!(
        paint.style,
        RenderStyle::Stroke(Stroke { start_cap: Cap::Round, end_cap: Cap::Round, ..fresh_stroke() })
    );
}

#[test]
fn color_and_blend_are_independent_of_style() {
    let mut paint = vello_paint_new();
    vello_paint_set_thickness(&mut paint, 2);
    vello_paint_set_color(&mut paint, 0xFF00_00FF);
    vello_paint_set_blend_mode(&mut paint, BlendMode::Multiply);
    assert!(matches!(paint.brush, Brush::Solid(Color { r: 0, g: 0, b: 0xFF, a: 0xFF })));
    assert_eq!(paint.blend_mode, Mix::Multiply);
    assert_eq!(paint.style, RenderStyle::Stroke(Stroke { width: 2, ..fresh_stroke() }));
    vello_paint_set_blend_mode(&mut paint, BlendMode::SrcOver);
    assert_eq!(paint.blend_mode, Mix::Normal);
}

#[test]
fn blend_mode_table() {
    assert_eq!(Mix::from(BlendMode::SrcOver), Mix::Normal);
    assert_eq!(Mix::from(BlendMode::Luminosity), Mix::Luminosity);
    assert_eq!(BlendMode::from_raw(3), Some(BlendMode::SrcOver));
    assert_eq!(BlendMode::from_raw(24), Some(BlendMode::Multiply));
    assert_eq!(BlendMode::from_raw(28), Some(BlendMode::Luminosity));
    assert_eq!(BlendMode::from_raw(4), None);
    assert_eq!(BlendMode::from_raw(29), None);
    assert_eq!(StrokeJoin::from_raw(2), Some(StrokeJoin::Bevel));
    assert_eq!(StrokeCap::from_raw(3), None);
    assert_eq!(RenderPaint::from_raw(0), Some(RenderPaint::Stroke));
    assert_eq!(RenderStyle::from(RenderPaint::Stroke), RenderStyle::Stroke(fresh_stroke()));
}

#[test]
fn stops_pair_in_order_unvalidated() {
    let mut g = vello_gradient_new_radial(0, 0, 1, &vec![0xFF00_0000], &vec![7]);
    collect_stops(&vec![0xFF00_0000, 0xFFFF_FFFF, 0x1234_5678], &vec![0x1_0000, -5], &mut g.stops);
    assert_eq!(g.stop_count(), 3);
    assert_eq!(g.stop(0).offset, 7);
    assert_eq!(g.stop(1), ColorStop { offset: 0x1_0000, color: Color { r: 0, g: 0, b: 0, a: 0xFF } });
    assert_eq!(g.stop(2), ColorStop { offset: -5, color: Color { r: 0xFF, g: 0xFF, b: 0xFF, a: 0xFF } });
}

#[test]
fn gradients_and_paint_brush() {
    let g = vello_gradient_new_linear(0, 0, 10, 0, &vec![0xFF00_0000], &vec![0]);
    assert_eq!(g.kind, GradientKind::Linear { start: Vec2D { x: 0, y: 0 }, end: Vec2D { x: 10, y: 0 } });
    assert_eq!(g.stop_count(), 1);
    assert_eq!(g.stop(0), ColorStop { offset: 0, color: Color { r: 0, g: 0, b: 0, a: 0xFF } });
    let r: Gradient = vello_gradient_new_radial(1, 2, 3, &vec![], &vec![]);
    assert_eq!(r.kind, GradientKind::Radial { center: Vec2D { x: 1, y: 2 }, radius: 3 });
    assert_eq!(r.stop_count(), 0);
    let mut paint = vello_paint_new();
    vello_paint_set_gradient(&mut paint, &g);
    match &paint.brush {
        Brush::Gradient(h) => {
            assert_eq!(h.kind, g.kind);
            assert_eq!(h.stop_count(), g.stop_count());
            assert_eq!(h.stop(0), g.stop(0));
        }
        _ => panic!("expected a gradient brush"),
    }
}

#[test]
fn rive_header() {
    assert!(has_rive_header(&b"RIVE\x07\x00".to_vec()));
    assert!(!has_rive_header(&b"RIV".to_vec()));
    assert!(!has_rive_header(&b"PNG\x00".to_vec()));
}
