use vello_rive::{
    Affine, BlendMode, Brush, Fill, Image, LayerShape, MeshError, Mix, OPACITY_ONE, PathEl, Rect,
    SceneOp, UV_ONE, Vec2D, VelloPaint, VelloPath, VelloRenderer, vello_paint_new,
    vello_paint_set_blend_mode, vello_paint_set_thickness, vello_path_line_to,
    vello_path_move_to, vello_path_new, vello_renderer_clip_path, vello_renderer_draw_image,
    vello_renderer_draw_image_mesh, vello_renderer_draw_path, vello_renderer_restore,
    vello_renderer_save, vello_renderer_transform,
};

fn shift(x: i128) -> Affine {
    Affine { a: 1, b: 0, c: 0, d: 1, e: x, f: 0, den: 1 }
}

fn square() -> VelloPath {
    let mut path = vello_path_new();
    vello_path_move_to(&mut path, -2, 1);
    vello_path_line_to(&mut path, 6, 1);
    vello_path_line_to(&mut path, 6, 9);
    path
}

fn count_layers(ops: &[SceneOp]) -> (usize, usize) {
    let pushes = ops.iter().filter(|op| matches!(op, SceneOp::PushLayer { .. })).count();
    let pops = ops.iter().filter(|op| matches!(op, SceneOp::PopLayer)).count();
    (pushes, pops)
}

fn image(width: u32, height: u32) -> Image {
    Image::from_rgba8(width, height, vec![0; (4 * width * height) as usize]).unwrap()
}

#[test]
fn excess_restores_reset_to_root() {
    let mut r = VelloRenderer::default();
    vello_renderer_transform(&mut r, shift(5));
    vello_renderer_save(&mut r);
    vello_renderer_transform(&mut r, shift(7));
    vello_renderer_clip_path(&mut r, &square());
    vello_renderer_restore(&mut r);
    vello_renderer_restore(&mut r);
    vello_renderer_restore(&mut r);
    assert_eq!(r.depth(), 1);
    assert!(r.last_transform().is_empty());
    assert!(!r.last_clip());
    let (pushes, pops) = count_layers(r.scene());
    assert_eq!((pushes, pops), (1, 1));
}

#[test]
fn restore_at_root_closes_root_clip() {
    let mut r = VelloRenderer::default();
    vello_renderer_clip_path(&mut r, &square());
    vello_renderer_restore(&mut r);
    assert_eq!(r.depth(), 1);
    assert!(!r.last_clip());
    assert!(matches!(r.scene()[1], SceneOp::PopLayer));
}

#[test]
fn transforms_inside_save_are_undone() {
    let mut r = VelloRenderer::default();
    vello_renderer_transform(&mut r, shift(1));
    vello_renderer_save(&mut r);
    assert_eq!(r.last_transform(), &vec![shift(1)]);
    vello_renderer_transform(&mut r, shift(2));
    vello_renderer_transform(&mut r, shift(3));
    assert_eq!(r.last_transform(), &vec![shift(1), shift(2), shift(3)]);
    vello_renderer_restore(&mut r);
    assert_eq!(r.last_transform(), &vec![shift(1)]);
    assert_eq!(r.depth(), 1);
}

#[test]
fn clip_twice_closes_once() {
    let mut r = VelloRenderer::default();
    vello_renderer_save(&mut r);
    vello_renderer_clip_path(&mut r, &square());
    vello_renderer_clip_path(&mut r, &square());
    assert_eq!(r.scene().len(), 3);
    assert!(matches!(r.scene()[1], SceneOp::PopLayer));
    vello_renderer_restore(&mut r);
    assert_eq!(r.scene().len(), 4);
    assert!(matches!(r.scene()[3], SceneOp::PopLayer));
    let (pushes, pops) = count_layers(r.scene());
    assert_eq!(pushes, pops);
    match &r.scene()[2] {
        SceneOp::PushLayer { mix, opacity, shape: LayerShape::Path(p), .. } => {
            assert_eq!(*mix, Mix::Clip);
            assert_eq!(*opacity, OPACITY_ONE);
            assert_eq!(p.len(), 3);
        }
        _ => panic!("expected a clip layer"),
    }
}

#[test]
fn draw_path_normal_has_no_layer() {
    let mut r = VelloRenderer::default();
    vello_renderer_transform(&mut r, shift(4));
    let paint = vello_paint_new();
    let path = square();
    vello_renderer_draw_path(&mut r, &path, &paint);
    assert_eq!(r.scene().len(), 1);
    match &r.scene()[0] {
        SceneOp::Fill { fill, transform, brush_transform, path: p, .. } => {
            assert_eq!(*fill, Fill::NonZero);
            assert_eq!(transform, &vec![shift(4)]);
            assert!(brush_transform.is_none());
            assert_eq!(p, &path.path);
        }
        _ => panic!("expected a fill"),
    }
}

#[test]
fn draw_path_blended_wraps_in_bbox_layer() {
    let mut r = VelloRenderer::default();
    let mut paint: VelloPaint = vello_paint_new();
    vello_paint_set_blend_mode(&mut paint, BlendMode::Screen);
    vello_paint_set_thickness(&mut paint, 2);
    let path = square();
    vello_renderer_draw_path(&mut r, &path, &paint);
    assert_eq!(r.scene().len(), 3);
    match &r.scene()[0] {
        SceneOp::PushLayer { mix, opacity, shape, .. } => {
            assert_eq!(*mix, Mix::Screen);
            assert_eq!(*opacity, OPACITY_ONE);
            assert!(matches!(shape, LayerShape::Rect(Rect { x0: -2, y0: 1, x1: 6, y1: 9 })));
        }
        _ => panic!("expected a blend layer"),
    }
    assert!(matches!(r.scene()[1], SceneOp::Stroke { .. }));
    assert!(matches!(r.scene()[2], SceneOp::PopLayer));
}

#[test]
fn draw_image_layering_is_inverted() {
    let img = image(4, 2);
    let mut r = VelloRenderer::default();
    vello_renderer_draw_image(&mut r, &img, BlendMode::SrcOver, OPACITY_ONE);
    assert_eq!(r.scene().len(), 3);
    match &r.scene()[1] {
        SceneOp::DrawImage { image, transform } => {
            assert_eq!(image.width, 4);
            assert_eq!(transform, &vec![Affine { a: 2, b: 0, c: 0, d: 2, e: -4, f: -2, den: 2 }]);
        }
        _ => panic!("expected an image draw"),
    }
    let mut r = VelloRenderer::default();
    vello_renderer_draw_image(&mut r, &img, BlendMode::Multiply, OPACITY_ONE);
    assert_eq!(r.scene().len(), 1);
    let mut r = VelloRenderer::default();
    vello_renderer_draw_image(&mut r, &img, BlendMode::SrcOver, OPACITY_ONE / 2);
    assert_eq!(r.scene().len(), 1);
}

#[test]
fn image_buffer_must_match_size() {
    assert!(Image::from_rgba8(2, 2, vec![0; 15]).is_none());
    assert!(Image::from_rgba8(2, 2, vec![0; 16]).is_some());
    assert!(Image::from_rgba8(0x1_0001, 0, vec![]).is_none());
}

fn mesh_inputs() -> (Vec<Vec2D>, Vec<Vec2D>) {
    let one = UV_ONE as i32;
    let vertices = vec![
        Vec2D { x: 0, y: 0 },
        Vec2D { x: 30, y: 0 },
        Vec2D { x: 0, y: 30 },
        Vec2D { x: 30, y: 30 },
    ];
    let uvs = vec![
        Vec2D { x: 0, y: 0 },
        Vec2D { x: one, y: 0 },
        Vec2D { x: 0, y: one },
        Vec2D { x: one, y: one },
    ];
    (vertices, uvs)
}

#[test]
fn mesh_ignores_trailing_indices() {
    let (vertices, uvs) = mesh_inputs();
    let img = image(2, 2);
    let mut r = VelloRenderer::default();
    let indices: Vec<u16> = vec![0, 1, 2, 1, 3, 2, 0, 1];
    let res = vello_renderer_draw_image_mesh(
        &mut r, &img, &vertices, &uvs, &indices, BlendMode::SrcOver, OPACITY_ONE,
    );
    assert_eq!(res, Ok(()));
    assert_eq!(r.scene().len(), 2);
    match &r.scene()[0] {
        SceneOp::Fill { fill, transform, brush, brush_transform, path } => {
            assert_eq!(*fill, Fill::NonZero);
            assert_eq!(
                transform,
                &vec![
                    Affine { a: 3, b: 0, c: 0, d: 3, e: 30, f: 30, den: 3 },
                    Affine { a: 103, b: 0, c: 0, d: 103, e: 0, f: 0, den: 100 },
                    Affine { a: 3, b: 0, c: 0, d: 3, e: -30, f: -30, den: 3 },
                ]
            );
            assert!(matches!(brush, Brush::Image(i) if i.width == 2));
            let bt = brush_transform.unwrap();
            // Pixel (2, 0) of the 2 x 2 image lands on vertex (30, 0).
            assert_eq!(bt.a * 2 + bt.e, bt.den * 30);
            assert_eq!(bt.b * 2 + bt.f, 0);
            assert_eq!(path.len(), 4);
            assert_eq!(path[3], PathEl::LineTo(Vec2D { x: 0, y: 0 }));
        }
        _ => panic!("expected a fill"),
    }
}

#[test]
fn mesh_blended_wraps_each_triangle() {
    let (vertices, uvs) = mesh_inputs();
    let img = image(2, 2);
    let mut r = VelloRenderer::default();
    let indices: Vec<u16> = vec![0, 1, 2, 1, 3, 2];
    let res = vello_renderer_draw_image_mesh(
        &mut r, &img, &vertices, &uvs, &indices, BlendMode::Overlay, 100,
    );
    assert_eq!(res, Ok(()));
    assert_eq!(r.scene().len(), 6);
    match &r.scene()[0] {
        SceneOp::PushLayer { mix, opacity, shape, .. } => {
            assert_eq!(*mix, Mix::Overlay);
            assert_eq!(*opacity, 100);
            assert!(matches!(shape, LayerShape::Rect(Rect { x0: 0, y0: 0, x1: 30, y1: 30 })));
        }
        _ => panic!("expected a blend layer"),
    }
    assert!(matches!(r.scene()[5], SceneOp::PopLayer));
}

#[test]
fn mesh_skips_degenerate_triangles() {
    let (vertices, mut uvs) = mesh_inputs();
    uvs[3] = uvs[0];
    let img = image(2, 2);
    let mut r = VelloRenderer::default();
    let indices: Vec<u16> = vec![0, 3, 0, 0, 1, 2];
    let res = vello_renderer_draw_image_mesh(
        &mut r, &img, &vertices, &uvs, &indices, BlendMode::SrcOver, OPACITY_ONE,
    );
    assert_eq!(res, Ok(()));
    assert_eq!(r.scene().len(), 1);
}

#[test]
fn mesh_rejects_bad_indices_and_uvs() {
    let (vertices, mut uvs) = mesh_inputs();
    let img = image(2, 2);
    let mut r = VelloRenderer::default();
    let bad: Vec<u16> = vec![0, 1, 4];
    let res = vello_renderer_draw_image_mesh(
        &mut r, &img, &vertices, &uvs, &bad, BlendMode::SrcOver, OPACITY_ONE,
    );
    assert_eq!(res, Err(MeshError::IndexOutOfRange));
    assert!(r.scene().is_empty());
    // A bad index in the ignored tail is never read.
    let tail: Vec<u16> = vec![0, 1, 2, 9];
    assert_eq!(
        vello_renderer_draw_image_mesh(&mut r, &img, &vertices, &uvs, &tail, BlendMode::SrcOver, OPACITY_ONE),
        Ok(())
    );
    uvs[1].x = i32::MAX;
    let mut r = VelloRenderer::default();
    let res = vello_renderer_draw_image_mesh(
        &mut r, &img, &vertices, &uvs, &vec![0, 1, 2], BlendMode::SrcOver, OPACITY_ONE,
    );
    assert_eq!(res, Err(MeshError::UvOutOfRange));
    assert!(r.scene().is_empty());
}

#[test]
fn reset_starts_a_new_frame() {
    let mut r = VelloRenderer::default();
    vello_renderer_save(&mut r);
    vello_renderer_clip_path(&mut r, &square());
    r.reset();
    assert!(r.scene().is_empty());
    assert_eq!(r.depth(), 1);
    assert!(!r.last_clip());
}

#[test]
fn pre_scale_about_point() {
    let mut t = vec![shift(9)];
    vello_rive::pre_scale_from_origin(&mut t, 103, 100, 12, -6, 3);
    assert_eq!(
        t,
        vec![
            shift(9),
            Affine { a: 3, b: 0, c: 0, d: 3, e: 12, f: -6, den: 3 },
            Affine { a: 103, b: 0, c: 0, d: 103, e: 0, f: 0, den: 100 },
            Affine { a: 3, b: 0, c: 0, d: 3, e: -12, f: 6, den: 3 },
        ]
    );
}
