//! Composition core of a vector renderer: a save/restore transform-and-clip
//! stack, paint and path models, the emission of draw and layer operations
//! into a retained display list, and the triangle-to-image affine solver used
//! for textured meshes.
//!
//! All geometry is exact integer arithmetic: coordinates are integers in the
//! caller's units, and transforms are rational affine maps whose products are
//! kept as ordered chains of factors for the rasterizer to multiply out.

mod geometry;
mod paint;
mod path;
mod rive;
mod scene;

pub use geometry::{
    AFFINE_COEFF_MAX, Affine, LINEAR_SOLUTION_MAX, Rect, SOLVER_COORD_MAX, UV_DIM_MAX, UV_MAX,
    UV_ONE, Vec2, Vec2D, map_uvs_to_triangle, simplex_affine_mapping,
};
pub use paint::{
    Brush, Cap, Color, ColorStop, Fill, Gradient, GradientKind, Image, Join, MAX_IMAGE_DIM, Mix,
    RenderStyle, StopList, Stroke, VelloPaint, collect_stops, from_bgra8, has_rive_header, vello_gradient_new_linear,
    vello_gradient_new_radial, vello_paint_new, vello_paint_set_blend_mode, vello_paint_set_cap,
    vello_paint_set_color, vello_paint_set_gradient, vello_paint_set_join,
    vello_paint_set_style, vello_paint_set_thickness,
};
pub use path::{
    PathEl, VelloPath, triangle_path, vello_path_close, vello_path_cubic_to, vello_path_extend,
    vello_path_line_to, vello_path_move_to, vello_path_new, vello_path_rewind,
    vello_path_set_fill_rule,
};
pub use rive::{BlendMode, FillRule, RenderPaint, StrokeCap, StrokeJoin};
pub use scene::{
    LayerShape, MeshError, OPACITY_ONE, SaveFrame, SceneOp, VelloRenderer, pre_scale_from_origin,
    vello_renderer_clip_path, vello_renderer_draw_image, vello_renderer_draw_image_mesh,
    vello_renderer_draw_path, vello_renderer_restore, vello_renderer_save,
    vello_renderer_transform,
};
