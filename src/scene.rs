use vstd::prelude::*;
use crate::geometry::{Affine, Rect, UV_MAX, UV_ONE, Vec2D, collinear, map_uvs_to_triangle, scaled_uv, uv_in_range};
use crate::paint::{Brush, Fill, Image, Mix, RenderStyle, Stroke, VelloPaint};
use crate::rive::{BlendMode, mix_of};
use crate::path::{PathEl, VelloPath, all_points, bounds_of, triangle_path};

verus! {

/// Opacity in 16.16 fixed point: `OPACITY_ONE` is fully opaque.
pub const OPACITY_ONE: u32 = 0x1_0000;

/// What a layer is bounded by.
#[derive(Debug)]
pub enum LayerShape {
    Rect(Rect),
    Path(Vec<PathEl>),
}

/// One operation of the display list. Transforms are chains of affine
/// factors whose product, left to right, is the transform.
#[derive(Debug)]
pub enum SceneOp {
    PushLayer { mix: Mix, opacity: u32, transform: Vec<Affine>, shape: LayerShape },
    PopLayer,
    Fill {
        fill: Fill,
        transform: Vec<Affine>,
        brush: Brush,
        brush_transform: Option<Affine>,
        path: Vec<PathEl>,
    },
    Stroke { stroke: Stroke, transform: Vec<Affine>, brush: Brush, path: Vec<PathEl> },
    DrawImage { image: Image, transform: Vec<Affine> },
}

/// One frame of the save stack.
#[derive(Debug)]
pub struct SaveFrame {
    pub transform: Vec<Affine>,
    pub clip_active: bool,
}

/// The value of a save frame: its transform chain and whether it holds a
/// clip layer.
pub struct FrameModel {
    pub transform: Seq<Affine>,
    pub clip_active: bool,
}

/// The root frame: identity transform (the empty chain), no clip.
pub open spec fn root_frame() -> FrameModel {
    FrameModel { transform: Seq::empty(), clip_active: false }
}

pub open spec fn top(fs: Seq<FrameModel>) -> FrameModel {
    fs.last()
}

/// `save`: pushes a copy of the top transform with no clip.
pub open spec fn save_frames(fs: Seq<FrameModel>) -> Seq<FrameModel> {
    fs.push(FrameModel { transform: top(fs).transform, clip_active: false })
}

/// `restore`: pops the top frame; popping the last one leaves a root frame.
pub open spec fn restore_frames(fs: Seq<FrameModel>) -> Seq<FrameModel> {
    if fs.len() <= 1 {
        seq![root_frame()]
    } else {
        fs.drop_last()
    }
}

/// `transform`: right-multiplies the top transform by `delta`.
pub open spec fn transform_frames(fs: Seq<FrameModel>, delta: Affine) -> Seq<FrameModel> {
    fs.update(
        fs.len() - 1,
        FrameModel { transform: top(fs).transform.push(delta), clip_active: top(fs).clip_active },
    )
}

/// `clip_path`: the top frame now holds a clip layer.
pub open spec fn clip_frames(fs: Seq<FrameModel>) -> Seq<FrameModel> {
    fs.update(fs.len() - 1, FrameModel { transform: top(fs).transform, clip_active: true })
}

/// Number of frames that hold a clip layer.
pub open spec fn active_clips(fs: Seq<FrameModel>) -> int
    decreases fs.len(),
{
    if fs.len() == 0 {
        0
    } else {
        active_clips(fs.drop_last()) + if fs.last().clip_active { 1int } else { 0 }
    }
}

/// Layers opened and not yet closed by a sequence of operations.
pub open spec fn open_layers(ops: Seq<SceneOp>) -> int
    decreases ops.len(),
{
    if ops.len() == 0 {
        0
    } else {
        open_layers(ops.drop_last()) + match ops.last() {
            SceneOp::PushLayer { .. } => 1int,
            SceneOp::PopLayer => -1int,
            _ => 0int,
        }
    }
}

proof fn lemma_open_layers_push(ops: Seq<SceneOp>, op: SceneOp)
    ensures
        open_layers(ops.push(op)) == open_layers(ops) + match op {
            SceneOp::PushLayer { .. } => 1int,
            SceneOp::PopLayer => -1int,
            _ => 0int,
        },
{
    assert(ops.push(op).drop_last() =~= ops);
}

proof fn lemma_active_clips_update(fs: Seq<FrameModel>, f: FrameModel)
    requires
        fs.len() >= 1,
    ensures
        active_clips(fs.update(fs.len() - 1, f)) == active_clips(fs) - (if top(fs).clip_active {
            1int
        } else {
            0
        }) + (if f.clip_active { 1int } else { 0 }),
{
    assert(fs.update(fs.len() - 1, f).drop_last() =~= fs.drop_last());
}

/// The layer operation `op` opens a layer with these parameters over `shape`.
pub open spec fn is_rect_layer(op: SceneOp, mix: Mix, opacity: u32, t: Seq<Affine>, rect: Rect) -> bool {
    match op {
        SceneOp::PushLayer { mix: m, opacity: o, transform, shape } => m == mix && o == opacity
            && transform@ == t && shape == LayerShape::Rect(rect),
        _ => false,
    }
}

/// `op` draws `path` with `paint` under the transform `t`: a fill by the
/// path's rule, or a stroke with the paint's stroke.
pub open spec fn is_draw_of(op: SceneOp, path: &VelloPath, paint: &VelloPaint, t: Seq<Affine>) -> bool {
    match paint.style {
        RenderStyle::Fill => match op {
            SceneOp::Fill { fill, transform, brush, brush_transform, path: p } => fill == path.fill
                && transform@ == t && brush.same(&paint.brush) && brush_transform is None && p@
                == path.path@,
            _ => false,
        },
        RenderStyle::Stroke(s) => match op {
            SceneOp::Stroke { stroke, transform, brush, path: p } => stroke == s && transform@ == t
                && brush.same(&paint.brush) && p@ == path.path@,
            _ => false,
        },
    }
}

/// The save stack and the display list of one renderer.
pub struct VelloRenderer {
    scene: Vec<SceneOp>,
    frames: Vec<SaveFrame>,
}

impl VelloRenderer {
    /// The value of the save stack, bottom first.
    pub closed spec fn frames_model(&self) -> Seq<FrameModel> {
        self.frames@.map_values(
            |f: SaveFrame| FrameModel { transform: f.transform@, clip_active: f.clip_active },
        )
    }

    /// The display list emitted so far.
    pub closed spec fn ops(&self) -> Seq<SceneOp> {
        self.scene@
    }

    /// The stack is never empty, and the layers left open by the display
    /// list are exactly the clip layers of the stack's frames.
    pub open spec fn wf(&self) -> bool {
        &&& self.frames_model().len() >= 1
        &&& open_layers(self.ops()) == active_clips(self.frames_model())
    }

    /// The current transform chain (that of the top frame).
    pub fn last_transform(&self) -> (r: &Vec<Affine>)
        requires
            self.wf(),
        ensures
            r@ == top(self.frames_model()).transform,
    {
        let n = self.frames.len();
        &self.frames[n - 1].transform
    }

    /// Whether the top frame holds a clip layer.
    pub fn last_clip(&self) -> (r: bool)
        requires
            self.wf(),
        ensures
            r == top(self.frames_model()).clip_active,
    {
        let n = self.frames.len();
        self.frames[n - 1].clip_active
    }

    /// The display list emitted so far.
    pub fn scene(&self) -> (r: &Vec<SceneOp>)
        ensures
            r@ == self.ops(),
    {
        &self.scene
    }

    /// Number of frames on the save stack.
    pub fn depth(&self) -> (r: usize)
        ensures
            r == self.frames_model().len(),
    {
        self.frames.len()
    }

    /// Starts a new frame: the display list is emptied and the stack holds
    /// a single root frame.
    pub fn reset(&mut self)
        ensures
            final(self).wf(),
            final(self).ops() == Seq::<SceneOp>::empty(),
            final(self).frames_model() == seq![root_frame()],
    {
        *self = VelloRenderer::default();
    }

    fn push_op(&mut self, op: SceneOp)
        ensures
            final(self).ops() == old(self).ops().push(op),
            final(self).frames_model() == old(self).frames_model(),
            open_layers(final(self).ops()) == open_layers(old(self).ops()) + match op {
                SceneOp::PushLayer { .. } => 1int,
                SceneOp::PopLayer => -1int,
                _ => 0int,
            },
    {
        proof {
            lemma_open_layers_push(self.scene@, op);
        }
        self.scene.push(op);
    }
}

impl Default for VelloRenderer {
    fn default() -> (r: VelloRenderer)
        ensures
            r.wf(),
            r.ops() == Seq::<SceneOp>::empty(),
            r.frames_model() == seq![root_frame()],
    {
        let mut frames: Vec<SaveFrame> = Vec::new();
        frames.push(SaveFrame { transform: Vec::new(), clip_active: false });
        let r = VelloRenderer { scene: Vec::new(), frames };
        assert(r.frames_model() =~= seq![root_frame()]);
        assert(r.frames_model().drop_last() =~= Seq::<FrameModel>::empty());
        assert(r.ops() =~= Seq::<SceneOp>::empty());
        assert(open_layers(r.ops()) == 0);
        assert(active_clips(Seq::<FrameModel>::empty()) == 0);
        assert(active_clips(r.frames_model()) == 0);
        r
    }
}

/// A copy of a vector of plain values.
fn copy_vec<T: Copy>(v: &Vec<T>) -> (r: Vec<T>)
    ensures
        r@ == v@,
{
    let mut r: Vec<T> = Vec::new();
    let mut i: usize = 0;
    while i < v.len()
        invariant
            i <= v@.len(),
            r@ == v@.subrange(0, i as int),
        decreases v@.len() - i,
    {
        r.push(v[i]);
        i = i + 1;
        assert(r@ =~= v@.subrange(0, i as int));
    }
    assert(r@ =~= v@);
    r
}

/// Pushes a frame that copies the current transform and holds no clip.
pub fn vello_renderer_save(renderer: &mut VelloRenderer)
    requires
        old(renderer).wf(),
    ensures
        final(renderer).wf(),
        final(renderer).frames_model() == save_frames(old(renderer).frames_model()),
        final(renderer).ops() == old(renderer).ops(),
{
    let t = copy_vec(renderer.last_transform());
    let ghost fs = renderer.frames_model();
    renderer.frames.push(SaveFrame { transform: t, clip_active: false });
    assert(renderer.frames_model() =~= save_frames(fs));
    assert(renderer.frames_model().drop_last() =~= fs);
}

/// Pops the top frame, closing its clip layer if it holds one. Popping the
/// last frame leaves a fresh root frame.
pub fn vello_renderer_restore(renderer: &mut VelloRenderer)
    requires
        old(renderer).wf(),
    ensures
        final(renderer).wf(),
        final(renderer).frames_model() == restore_frames(old(renderer).frames_model()),
        top(old(renderer).frames_model()).clip_active ==> final(renderer).ops() == old(
            renderer,
        ).ops().push(SceneOp::PopLayer),
        !top(old(renderer).frames_model()).clip_active ==> final(renderer).ops() == old(
            renderer,
        ).ops(),
{
    let ghost fs = renderer.frames_model();
    let popped = renderer.frames.pop();
    proof {
        assert(renderer.frames_model() =~= fs.drop_last());
    }
    match popped {
        Some(frame) => {
            if frame.clip_active {
                renderer.push_op(SceneOp::PopLayer);
            }
        },
        None => {},
    }
    if renderer.frames.len() == 0 {
        renderer.frames.push(SaveFrame { transform: Vec::new(), clip_active: false });
        assert(renderer.frames_model() =~= seq![root_frame()]);
        assert(renderer.frames_model().drop_last() =~= Seq::<FrameModel>::empty());
        assert(fs.drop_last() =~= Seq::<FrameModel>::empty());
    }
}

/// Right-multiplies the current transform by `delta`.
pub fn vello_renderer_transform(renderer: &mut VelloRenderer, delta: Affine)
    requires
        old(renderer).wf(),
    ensures
        final(renderer).wf(),
        final(renderer).frames_model() == transform_frames(old(renderer).frames_model(), delta),
        final(renderer).ops() == old(renderer).ops(),
{
    let ghost fs = renderer.frames_model();
    let mut frame = renderer.frames.pop().unwrap();
    frame.transform.push(delta);
    renderer.frames.push(frame);
    proof {
        let f = FrameModel { transform: top(fs).transform.push(delta), clip_active: top(fs).clip_active };
        assert(renderer.frames_model() =~= transform_frames(fs, delta));
        lemma_active_clips_update(fs, f);
    }
}

/// Draws `path` with `paint` under the current transform. A blend mode other
/// than the normal one wraps the draw in a layer of that mix, fully opaque,
/// over the path's bounding box.
pub fn vello_renderer_draw_path(renderer: &mut VelloRenderer, path: &VelloPath, paint: &VelloPaint)
    requires
        old(renderer).wf(),
    ensures
        final(renderer).wf(),
        final(renderer).frames_model() == old(renderer).frames_model(),
        ({
            let before = old(renderer).ops();
            let after = final(renderer).ops();
            let t = top(old(renderer).frames_model()).transform;
            let n = before.len();
            &&& after.subrange(0, n as int) == before
            &&& paint.blend_mode == Mix::Normal ==> after.len() == n + 1 && is_draw_of(
                after[n as int],
                path,
                paint,
                t,
            )
            &&& paint.blend_mode != Mix::Normal ==> after.len() == n + 3 && is_rect_layer(
                after[n as int],
                paint.blend_mode,
                OPACITY_ONE,
                t,
                bounds_of(all_points(path.path@)),
            ) && is_draw_of(after[n + 1int], path, paint, t) && after[n + 2int] is PopLayer
        }),
{
    let ghost before = renderer.ops();
    let skip_blending = paint.blend_mode == Mix::Normal;
    let t = copy_vec(renderer.last_transform());
    if !skip_blending {
        let t = copy_vec(renderer.last_transform());
        let rect = path.bounding_box();
        renderer.push_op(SceneOp::PushLayer { mix: paint.blend_mode, opacity: OPACITY_ONE, transform: t, shape: LayerShape::Rect(rect) });
    }
    let op = match paint.style {
        RenderStyle::Fill => SceneOp::Fill {
            fill: path.fill,
            transform: t,
            brush: paint.brush.duplicate(),
            brush_transform: None,
            path: copy_vec(&path.path),
        },
        RenderStyle::Stroke(stroke) => SceneOp::Stroke {
            stroke,
            transform: t,
            brush: paint.brush.duplicate(),
            path: copy_vec(&path.path),
        },
    };
    renderer.push_op(op);
    if !skip_blending {
        renderer.push_op(SceneOp::PopLayer);
    }
    proof {
        let n = before.len();
        assert(renderer.ops().subrange(0, n as int) =~= before);
    }
}

/// `op` opens a clip layer over the path `els` under the transform `t`.
pub open spec fn is_clip_layer(op: SceneOp, t: Seq<Affine>, els: Seq<PathEl>) -> bool {
    match op {
        SceneOp::PushLayer { mix, opacity, transform, shape } => mix == Mix::Clip && opacity
            == OPACITY_ONE && transform@ == t && (shape matches LayerShape::Path(p) && p@ == els),
        _ => false,
    }
}

fn set_top_clip(renderer: &mut VelloRenderer)
    requires
        old(renderer).frames_model().len() >= 1,
    ensures
        final(renderer).frames_model() == clip_frames(old(renderer).frames_model()),
        final(renderer).ops() == old(renderer).ops(),
{
    let ghost fs = renderer.frames_model();
    let mut frame = renderer.frames.pop().unwrap();
    frame.clip_active = true;
    renderer.frames.push(frame);
    assert(renderer.frames_model() =~= clip_frames(fs));
}

/// Clips what follows to `clip` under the current transform, until the
/// current frame is restored. A clip already held by the frame is closed
/// first: clipping twice at one depth replaces the clip.
pub fn vello_renderer_clip_path(renderer: &mut VelloRenderer, clip: &VelloPath)
    requires
        old(renderer).wf(),
    ensures
        final(renderer).wf(),
        final(renderer).frames_model() == clip_frames(old(renderer).frames_model()),
        ({
            let before = old(renderer).ops();
            let after = final(renderer).ops();
            let t = top(old(renderer).frames_model()).transform;
            let n = before.len();
            &&& after.subrange(0, n as int) == before
            &&& top(old(renderer).frames_model()).clip_active ==> after.len() == n + 2
                && after[n as int] is PopLayer && is_clip_layer(after[n + 1int], t, clip.path@)
            &&& !top(old(renderer).frames_model()).clip_active ==> after.len() == n + 1
                && is_clip_layer(after[n as int], t, clip.path@)
        }),
{
    let ghost before = renderer.ops();
    let ghost fs = renderer.frames_model();
    let t = copy_vec(renderer.last_transform());
    if renderer.last_clip() {
        renderer.push_op(SceneOp::PopLayer);
    }
    renderer.push_op(SceneOp::PushLayer {
        mix: Mix::Clip,
        opacity: OPACITY_ONE,
        transform: t,
        shape: LayerShape::Path(copy_vec(&clip.path)),
    });
    set_top_clip(renderer);
    proof {
        let n = before.len();
        assert(renderer.ops().subrange(0, n as int) =~= before);
        lemma_active_clips_update(fs, FrameModel { transform: top(fs).transform, clip_active: true });
    }
}

/// The transform of an image drawn under `t`: `t` pre-translated so that
/// the image is centered on the origin.
pub open spec fn image_transform(t: Seq<Affine>, image: &Image) -> Seq<Affine> {
    t.push(Affine { a: 2, b: 0, c: 0, d: 2, e: (-image.width) as i128, f: (-image.height) as i128, den: 2 })
}

/// `op` draws `image` under `t`.
pub open spec fn is_image_draw(op: SceneOp, image: &Image, t: Seq<Affine>) -> bool {
    match op {
        SceneOp::DrawImage { image: i, transform } => i.same(image) && transform@ == t,
        _ => false,
    }
}

/// Draws `image` centered on the origin of the current transform. The draw
/// is wrapped in a layer over the image's rectangle exactly when the blend
/// mode is the normal one and the opacity is full.
pub fn vello_renderer_draw_image(
    renderer: &mut VelloRenderer,
    image: &Image,
    blend_mode: BlendMode,
    opacity: u32,
)
    requires
        old(renderer).wf(),
    ensures
        final(renderer).wf(),
        final(renderer).frames_model() == old(renderer).frames_model(),
        ({
            let before = old(renderer).ops();
            let after = final(renderer).ops();
            let t = image_transform(top(old(renderer).frames_model()).transform, image);
            let n = before.len();
            let layered = mix_of(blend_mode) == Mix::Normal && opacity == OPACITY_ONE;
            &&& after.subrange(0, n as int) == before
            &&& !layered ==> after.len() == n + 1 && is_image_draw(after[n as int], image, t)
            &&& layered ==> after.len() == n + 3 && is_rect_layer(
                after[n as int],
                mix_of(blend_mode),
                opacity,
                t,
                Rect { x0: 0, y0: 0, x1: image.width as i64, y1: image.height as i64 },
            ) && is_image_draw(after[n + 1int], image, t) && after[n + 2int] is PopLayer
        }),
{
    let ghost before = renderer.ops();
    let mix = Mix::from(blend_mode);
    let mut t = copy_vec(renderer.last_transform());
    t.push(Affine::translate(-(image.width as i64), -(image.height as i64), 2));
    let rect = Rect { x0: 0, y0: 0, x1: image.width as i64, y1: image.height as i64 };
    let skip_blending = mix == Mix::Normal && opacity == OPACITY_ONE;
    if skip_blending {
        renderer.push_op(SceneOp::PushLayer { mix, opacity, transform: copy_vec(&t), shape: LayerShape::Rect(rect) });
    }
    renderer.push_op(SceneOp::DrawImage { image: image.duplicate(), transform: t });
    if skip_blending {
        renderer.push_op(SceneOp::PopLayer);
    }
    proof {
        let n = before.len();
        assert(renderer.ops().subrange(0, n as int) =~= before);
    }
}

/// The stack after a sequence of `save` (`true`) and `restore` (`false`)
/// calls.
pub open spec fn apply_stack_calls(fs: Seq<FrameModel>, calls: Seq<bool>) -> Seq<FrameModel>
    decreases calls.len(),
{
    if calls.len() == 0 {
        fs
    } else {
        let next = if calls[0] { save_frames(fs) } else { restore_frames(fs) };
        apply_stack_calls(next, calls.drop_first())
    }
}

/// Number of `save` calls in a sequence.
pub open spec fn saves(calls: Seq<bool>) -> int
    decreases calls.len(),
{
    if calls.len() == 0 {
        0
    } else {
        (if calls[0] { 1int } else { 0 }) + saves(calls.drop_first())
    }
}

/// Number of `restore` calls in a sequence.
pub open spec fn restores(calls: Seq<bool>) -> int
    decreases calls.len(),
{
    if calls.len() == 0 {
        0
    } else {
        (if calls[0] { 0int } else { 1 }) + restores(calls.drop_first())
    }
}

/// Every frame is a root frame.
pub open spec fn all_root(fs: Seq<FrameModel>) -> bool {
    forall|i: int| 0 <= i < fs.len() ==> #[trigger] fs[i] == root_frame()
}

proof fn lemma_all_root_stays(fs: Seq<FrameModel>, calls: Seq<bool>)
    requires
        fs.len() >= 1,
        all_root(fs),
    ensures
        apply_stack_calls(fs, calls).len() >= 1,
        all_root(apply_stack_calls(fs, calls)),
    decreases calls.len(),
{
    if calls.len() > 0 {
        let next = if calls[0] { save_frames(fs) } else { restore_frames(fs) };
        assert(all_root(next)) by {
            if calls[0] {
                assert(fs[fs.len() - 1] == root_frame());
            }
        }
        lemma_all_root_stays(next, calls.drop_first());
    }
}

/// Save and restore never leave the stack empty.
pub proof fn lemma_stack_never_empty(fs: Seq<FrameModel>, calls: Seq<bool>)
    requires
        fs.len() >= 1,
    ensures
        apply_stack_calls(fs, calls).len() >= 1,
    decreases calls.len(),
{
    if calls.len() > 0 {
        let next = if calls[0] { save_frames(fs) } else { restore_frames(fs) };
        lemma_stack_never_empty(next, calls.drop_first());
    }
}

/// Issuing at least as many restores as there are saves plus frames (from a
/// single root frame: strictly more restores than saves) leaves the identity
/// transform with no active clip on top of a non-empty stack.
pub proof fn lemma_excess_restores_reset(fs: Seq<FrameModel>, calls: Seq<bool>)
    requires
        fs.len() >= 1,
        restores(calls) >= saves(calls) + fs.len(),
    ensures
        apply_stack_calls(fs, calls).len() >= 1,
        top(apply_stack_calls(fs, calls)) == root_frame(),
    decreases calls.len(),
{
    if calls.len() > 0 {
        let rest = calls.drop_first();
        if calls[0] {
            lemma_excess_restores_reset(save_frames(fs), rest);
        } else if fs.len() >= 2 {
            lemma_excess_restores_reset(restore_frames(fs), rest);
        } else {
            let next = restore_frames(fs);
            assert(all_root(next));
            lemma_all_root_stays(next, rest);
            let last = apply_stack_calls(next, rest);
            assert(last[last.len() - 1] == root_frame());
        }
    }
}

/// The stack after a sequence of `transform` calls.
pub open spec fn apply_transforms(fs: Seq<FrameModel>, deltas: Seq<Affine>) -> Seq<FrameModel>
    decreases deltas.len(),
{
    if deltas.len() == 0 {
        fs
    } else {
        apply_transforms(transform_frames(fs, deltas[0]), deltas.drop_first())
    }
}

proof fn lemma_transforms_keep_below(fs: Seq<FrameModel>, deltas: Seq<Affine>)
    requires
        fs.len() >= 1,
    ensures
        apply_transforms(fs, deltas).len() == fs.len(),
        apply_transforms(fs, deltas).drop_last() == fs.drop_last(),
    decreases deltas.len(),
{
    if deltas.len() > 0 {
        let next = transform_frames(fs, deltas[0]);
        assert(next.drop_last() =~= fs.drop_last());
        lemma_transforms_keep_below(next, deltas.drop_first());
    }
}

/// Transforms applied after a `save` are undone by the matching `restore`:
/// the stack is exactly what it was before the `save`.
pub proof fn lemma_transforms_scoped_by_save(fs: Seq<FrameModel>, deltas: Seq<Affine>)
    requires
        fs.len() >= 1,
    ensures
        restore_frames(apply_transforms(save_frames(fs), deltas)) == fs,
        top(restore_frames(apply_transforms(save_frames(fs), deltas))).transform == top(fs).transform,
{
    lemma_transforms_keep_below(save_frames(fs), deltas);
    assert(save_frames(fs).drop_last() =~= fs);
}

/// Clipping twice at one depth holds one clip layer: the `restore` that
/// follows closes exactly one layer, and afterwards the clip layers still
/// open are exactly those of the frames below.
pub proof fn lemma_clip_twice_one_close(fs: Seq<FrameModel>)
    requires
        fs.len() >= 2,
    ensures
        top(clip_frames(clip_frames(fs))).clip_active,
        active_clips(clip_frames(clip_frames(fs))) == active_clips(fs.drop_last()) + 1,
        active_clips(restore_frames(clip_frames(clip_frames(fs)))) == active_clips(fs.drop_last()),
{
    let g = clip_frames(clip_frames(fs));
    assert(g.drop_last() =~= fs.drop_last());
    assert(restore_frames(g) =~= fs.drop_last());
}

/// Why a mesh draw was refused.
#[derive(Clone, Copy, Debug, PartialEq, Eq, Structural)]
pub enum MeshError {
    /// An index of a full triangle names no vertex or no UV coordinate.
    IndexOutOfRange,
    /// A UV coordinate of a full triangle exceeds `UV_MAX` in magnitude.
    UvOutOfRange,
}

/// Number of full triangles in an index list; a trailing group of fewer
/// than three indices is ignored.
pub open spec fn triangle_count(indices: Seq<u16>) -> int {
    indices.len() as int / 3
}

/// The indices of full triangles name a vertex and a UV coordinate.
pub open spec fn indices_in_range(nv: int, nu: int, indices: Seq<u16>) -> bool {
    forall|p: int| 0 <= p < 3 * triangle_count(indices) ==> (#[trigger] indices[p]) < nv && indices[p] < nu
}

/// The UV coordinates of full triangles are in range.
pub open spec fn uvs_in_range(uvs: Seq<Vec2D>, indices: Seq<u16>) -> bool {
    forall|p: int| 0 <= p < 3 * triangle_count(indices) ==> uv_in_range(uvs[#[trigger] indices[p] as int])
}

/// Corner `j` of triangle `k`, as a vertex.
pub open spec fn corner(vs: Seq<Vec2D>, indices: Seq<u16>, k: int, j: int) -> Vec2D {
    vs[indices[3 * k + j] as int]
}

/// The UV triangle of triangle `k`, scaled to the image, is degenerate.
pub open spec fn degenerate(uvs: Seq<Vec2D>, indices: Seq<u16>, image: &Image, k: int) -> bool {
    collinear(
        scaled_uv(corner(uvs, indices, k, 0), image.width, image.height),
        scaled_uv(corner(uvs, indices, k, 1), image.width, image.height),
        scaled_uv(corner(uvs, indices, k, 2), image.width, image.height),
    )
}

/// Operations emitted for triangle `k`: none when it is degenerate, else a
/// fill, wrapped in a layer when the blend mode is not the normal one.
pub open spec fn tri_len(uvs: Seq<Vec2D>, indices: Seq<u16>, image: &Image, layered: bool, k: int) -> int {
    if degenerate(uvs, indices, image, k) {
        0
    } else if layered {
        3
    } else {
        1
    }
}

/// Operations emitted for the triangles before `k`.
pub open spec fn tri_start(uvs: Seq<Vec2D>, indices: Seq<u16>, image: &Image, layered: bool, k: int) -> int
    decreases k,
{
    if k <= 0 {
        0
    } else {
        tri_start(uvs, indices, image, layered, k - 1) + tri_len(uvs, indices, image, layered, k - 1)
    }
}

proof fn lemma_tri_start_mono(uvs: Seq<Vec2D>, indices: Seq<u16>, image: &Image, layered: bool, j: int, k: int)
    requires
        0 <= j <= k,
    ensures
        tri_start(uvs, indices, image, layered, j) + tri_len(uvs, indices, image, layered, j) <= tri_start(uvs, indices, image, layered, k + 1),
    decreases k - j,
{
    if j < k {
        lemma_tri_start_mono(uvs, indices, image, layered, j, k - 1);
    }
}

proof fn lemma_tri_start_nonneg(uvs: Seq<Vec2D>, indices: Seq<u16>, image: &Image, layered: bool, k: int)
    ensures
        tri_start(uvs, indices, image, layered, k) >= 0,
    decreases k,
{
    if k > 0 {
        lemma_tri_start_nonneg(uvs, indices, image, layered, k - 1);
    }
}

/// The closed outline of the triangle `a, b, c`.
pub open spec fn outline(a: Vec2D, b: Vec2D, c: Vec2D) -> Seq<PathEl> {
    seq![PathEl::MoveTo(a), PathEl::LineTo(b), PathEl::LineTo(c), PathEl::LineTo(a)]
}

/// `t` pre-scaled by 103/100 about the centroid of `a, b, c`.
pub open spec fn overdraw_transform(t: Seq<Affine>, a: Vec2D, b: Vec2D, c: Vec2D) -> Seq<Affine> {
    let sx = a.x + b.x + c.x;
    let sy = a.y + b.y + c.y;
    t + seq![
        Affine { a: 3, b: 0, c: 0, d: 3, e: sx as i128, f: sy as i128, den: 3 },
        Affine { a: 103, b: 0, c: 0, d: 103, e: 0, f: 0, den: 100 },
        Affine { a: 3, b: 0, c: 0, d: 3, e: (-sx) as i128, f: (-sy) as i128, den: 3 },
    ]
}

/// Pre-scales the transform chain by `num / den` about the point
/// `(ox / oden, oy / oden)`: appends a translation to the point, the scale,
/// and the translation back.
pub fn pre_scale_from_origin(transform: &mut Vec<Affine>, num: i64, den: i64, ox: i64, oy: i64, oden: i64)
    requires
        den > 0,
        oden > 0,
        ox > i64::MIN,
        oy > i64::MIN,
    ensures
        final(transform)@ == old(transform)@ + seq![
            Affine { a: oden as i128, b: 0, c: 0, d: oden as i128, e: ox as i128, f: oy as i128, den: oden as i128 },
            Affine { a: num as i128, b: 0, c: 0, d: num as i128, e: 0, f: 0, den: den as i128 },
            Affine { a: oden as i128, b: 0, c: 0, d: oden as i128, e: (-ox) as i128, f: (-oy) as i128, den: oden as i128 },
        ],
{
    let ghost t0 = transform@;
    transform.push(Affine::translate(ox, oy, oden));
    transform.push(Affine::scale(num, den));
    transform.push(Affine::translate(-ox, -oy, oden));
    assert(transform@ =~= t0 + seq![
        Affine { a: oden as i128, b: 0, c: 0, d: oden as i128, e: ox as i128, f: oy as i128, den: oden as i128 },
        Affine { a: num as i128, b: 0, c: 0, d: num as i128, e: 0, f: 0, den: den as i128 },
        Affine { a: oden as i128, b: 0, c: 0, d: oden as i128, e: (-ox) as i128, f: (-oy) as i128, den: oden as i128 },
    ]);
}

/// `op` fills triangle `k` with `image` under the transform chain `t`,
/// sampling through a map that sends each scaled UV corner onto its vertex.
pub open spec fn is_mesh_fill(
    op: SceneOp,
    image: &Image,
    vs: Seq<Vec2D>,
    uvs: Seq<Vec2D>,
    indices: Seq<u16>,
    k: int,
    t: Seq<Affine>,
) -> bool {
    match op {
        SceneOp::Fill { fill, transform, brush, brush_transform, path } => {
            &&& fill == Fill::NonZero
            &&& transform@ == t
            &&& brush matches Brush::Image(i) && i.same(image)
            &&& path@ == outline(corner(vs, indices, k, 0), corner(vs, indices, k, 1), corner(vs, indices, k, 2))
            &&& brush_transform matches Some(bt) && bt.den != 0 && forall|j: int|
                0 <= j < 3 ==> bt.sends_scaled(
                    (#[trigger] corner(uvs, indices, k, j)).x * image.width,
                    corner(uvs, indices, k, j).y * image.height,
                    UV_ONE as int,
                    corner(vs, indices, k, j).x as int,
                    corner(vs, indices, k, j).y as int,
                )
        },
        _ => false,
    }
}

/// The operations of triangle `k` stand in `ops` from `base + tri_start(k)`.
pub open spec fn tri_emitted(
    ops: Seq<SceneOp>,
    base: int,
    image: &Image,
    vs: Seq<Vec2D>,
    uvs: Seq<Vec2D>,
    indices: Seq<u16>,
    mix: Mix,
    opacity: u32,
    t: Seq<Affine>,
    k: int,
) -> bool {
    let layered = mix != Mix::Normal;
    let s = base + tri_start(uvs, indices, image, layered, k);
    let a = corner(vs, indices, k, 0);
    let b = corner(vs, indices, k, 1);
    let c = corner(vs, indices, k, 2);
    let tk = overdraw_transform(t, a, b, c);
    !degenerate(uvs, indices, image, k) ==> if layered {
        &&& is_rect_layer(ops[s], mix, opacity, tk, bounds_of(all_points(outline(a, b, c))))
        &&& is_mesh_fill(ops[s + 1], image, vs, uvs, indices, k, tk)
        &&& ops[s + 2] is PopLayer
    } else {
        is_mesh_fill(ops[s], image, vs, uvs, indices, k, tk)
    }
}

/// When no full triangle is degenerate, a mesh draw emits one fill for each
/// of the `floor(indices.len() / 3)` triangles (with its layer open and
/// close when layered), and nothing for trailing indices.
pub proof fn lemma_mesh_fill_count(uvs: Seq<Vec2D>, indices: Seq<u16>, image: &Image, layered: bool, k: int)
    requires
        0 <= k <= triangle_count(indices),
        forall|j: int| 0 <= j < triangle_count(indices) ==> !degenerate(uvs, indices, image, j),
    ensures
        tri_start(uvs, indices, image, layered, k) == k * (if layered { 3int } else { 1 }),
    decreases k,
{
    if k > 0 {
        lemma_mesh_fill_count(uvs, indices, image, layered, k - 1);
        assert((k - 1) * (if layered { 3int } else { 1 }) + (if layered { 3int } else { 1 }) == k * (if layered { 3int } else { 1 })) by (nonlinear_arith);
    }
}

/// Draws a textured mesh: each full triangle of `indices` is filled with
/// `image`, mapped from its UV corners, under the current transform scaled
/// by 103/100 about the triangle's centroid (a slight overdraw that hides
/// seams). Triangles whose scaled UV corners are collinear are skipped. When
/// the blend mode is not the normal one each fill is wrapped in a layer over
/// the triangle's bounds with the given opacity. Out-of-range indices or UV
/// coordinates refuse the whole call before anything is drawn.
pub fn vello_renderer_draw_image_mesh(
    renderer: &mut VelloRenderer,
    image: &Image,
    vertices: &Vec<Vec2D>,
    uvs: &Vec<Vec2D>,
    indices: &Vec<u16>,
    blend_mode: BlendMode,
    opacity: u32,
) -> (r: Result<(), MeshError>)
    requires
        old(renderer).wf(),
        image.wf(),
    ensures
        final(renderer).wf(),
        final(renderer).frames_model() == old(renderer).frames_model(),
        r == Err::<(), MeshError>(MeshError::IndexOutOfRange) <==> !indices_in_range(vertices@.len() as int, uvs@.len() as int, indices@),
        r == Err::<(), MeshError>(MeshError::UvOutOfRange) <==> indices_in_range(vertices@.len() as int, uvs@.len() as int, indices@) && !uvs_in_range(uvs@, indices@),
        r is Err ==> final(renderer).ops() == old(renderer).ops(),
        r is Ok ==> ({
            let before = old(renderer).ops();
            let after = final(renderer).ops();
            let n = before.len() as int;
            let layered = mix_of(blend_mode) != Mix::Normal;
            let t = top(old(renderer).frames_model()).transform;
            &&& after.subrange(0, n) == before
            &&& after.len() == n + tri_start(uvs@, indices@, image, layered, triangle_count(indices@))
            &&& forall|k: int| 0 <= k < triangle_count(indices@) ==> #[trigger] tri_emitted(
                after, n, image, vertices@, uvs@, indices@, mix_of(blend_mode), opacity, t, k)
        }),
{
    let ntri: usize = indices.len() / 3;
    assert(3 * ntri <= indices@.len());
    let limit: usize = 3 * ntri;
    let ghost r0 = *renderer;
    let mut p: usize = 0;
    while p < limit
        invariant
            *renderer == r0,
            renderer.wf(),
            renderer.ops() == old(renderer).ops(),
            renderer.frames_model() == old(renderer).frames_model(),
            limit == 3 * ntri,
            ntri == triangle_count(indices@),
            3 * ntri <= indices@.len(),
            p <= 3 * ntri,
            forall|q: int| 0 <= q < p ==> (#[trigger] indices@[q]) < vertices@.len() && indices@[q] < uvs@.len(),
        decreases 3 * ntri - p,
    {
        let i = indices[p] as usize;
        if i >= vertices.len() || i >= uvs.len() {
            return Err(MeshError::IndexOutOfRange);
        }
        p = p + 1;
    }
    let mut p: usize = 0;
    while p < limit
        invariant
            *renderer == r0,
            renderer.wf(),
            renderer.ops() == old(renderer).ops(),
            renderer.frames_model() == old(renderer).frames_model(),
            limit == 3 * ntri,
            ntri == triangle_count(indices@),
            3 * ntri <= indices@.len(),
            p <= 3 * ntri,
            indices_in_range(vertices@.len() as int, uvs@.len() as int, indices@),
            forall|q: int| 0 <= q < p ==> uv_in_range(uvs@[#[trigger] indices@[q] as int]),
        decreases 3 * ntri - p,
    {
        let uv = uvs[indices[p] as usize];
        if uv.x < -UV_MAX || uv.x > UV_MAX || uv.y < -UV_MAX || uv.y > UV_MAX {
            return Err(MeshError::UvOutOfRange);
        }
        p = p + 1;
    }
    let ghost before = renderer.ops();
    let ghost n = before.len() as int;
    let ghost fs = renderer.frames_model();
    let mix = Mix::from(blend_mode);
    let skip_blending = mix == Mix::Normal;
    let ghost layered = !skip_blending;
    let ghost t = top(fs).transform;
    let mut k: usize = 0;
    while k < ntri
        invariant
            renderer.wf(),
            renderer.frames_model() == fs,
            image.wf(),
            ntri == triangle_count(indices@),
            3 * ntri <= indices@.len(),
            k <= ntri,
            mix == mix_of(blend_mode),
            layered == (mix != Mix::Normal),
            skip_blending == !layered,
            t == top(fs).transform,
            fs.len() >= 1,
            indices_in_range(vertices@.len() as int, uvs@.len() as int, indices@),
            uvs_in_range(uvs@, indices@),
            n == before.len(),
            renderer.ops().len() == n + tri_start(uvs@, indices@, image, layered, k as int),
            tri_start(uvs@, indices@, image, layered, k as int) >= 0,
            renderer.ops().subrange(0, n) == before,
            forall|j: int| 0 <= j < k ==> #[trigger] tri_emitted(
                renderer.ops(), n, image, vertices@, uvs@, indices@, mix, opacity, t, j),
        decreases ntri - k,
    {
        let ghost ops0 = renderer.ops();
        let len = indices.len();
        assert(3 * k + 2 < len);
        let i0 = indices[3 * k] as usize;
        let i1 = indices[3 * k + 1] as usize;
        let i2 = indices[3 * k + 2] as usize;
        let mut points: [Vec2D; 3] = [vertices[i0], vertices[i0], vertices[i0]];
        points[1] = vertices[i1];
        points[2] = vertices[i2];
        let mut tri_uvs: [Vec2D; 3] = [uvs[i0], uvs[i0], uvs[i0]];
        tri_uvs[1] = uvs[i1];
        tri_uvs[2] = uvs[i2];
        assert(uv_in_range(uvs@[indices@[3 * k as int] as int]));
        assert(uv_in_range(uvs@[indices@[3 * k + 1] as int]));
        assert(uv_in_range(uvs@[indices@[3 * k + 2] as int]));
        assert(forall|j: int| 0 <= j < 3 ==> #[trigger] tri_uvs[j] == corner(uvs@, indices@, k as int, j));
        assert(forall|j: int| 0 <= j < 3 ==> #[trigger] points[j] == corner(vertices@, indices@, k as int, j));
        match map_uvs_to_triangle(&points, &tri_uvs, image.width, image.height) {
            None => {
                assert(degenerate(uvs@, indices@, image, k as int));
            },
            Some(brush_transform) => {
                let sx = points[0].x as i64 + points[1].x as i64 + points[2].x as i64;
                let sy = points[0].y as i64 + points[1].y as i64 + points[2].y as i64;
                let mut tk = copy_vec(renderer.last_transform());
                pre_scale_from_origin(&mut tk, 103, 100, sx, sy, 3);
                let ghost tks = overdraw_transform(t, points[0], points[1], points[2]);
                assert(tk@ =~= tks);
                let path = triangle_path(points);
                let ghost s = ops0.len() as int;
                if !skip_blending {
                    let bounds = VelloPath { path: copy_vec(&path), fill: Fill::NonZero }.bounding_box();
                    renderer.push_op(SceneOp::PushLayer { mix, opacity, transform: copy_vec(&tk), shape: LayerShape::Rect(bounds) });
                }
                renderer.push_op(SceneOp::Fill {
                    fill: Fill::NonZero,
                    transform: tk,
                    brush: Brush::Image(image.duplicate()),
                    brush_transform: Some(brush_transform),
                    path,
                });
                if !skip_blending {
                    renderer.push_op(SceneOp::PopLayer);
                }
                proof {
                    let ops1 = renderer.ops();
                    let kk = k as int;
                    let a = corner(vertices@, indices@, kk, 0);
                    let b = corner(vertices@, indices@, kk, 1);
                    let c = corner(vertices@, indices@, kk, 2);
                    assert(!degenerate(uvs@, indices@, image, kk));
                    assert(s == n + tri_start(uvs@, indices@, image, layered, kk));
                    assert(path@ == outline(a, b, c));
                    assert(tks == overdraw_transform(t, a, b, c));
                    assert forall|j: int| 0 <= j < 3 implies brush_transform.sends_scaled(
                        (#[trigger] corner(uvs@, indices@, kk, j)).x * image.width,
                        corner(uvs@, indices@, kk, j).y * image.height,
                        UV_ONE as int,
                        corner(vertices@, indices@, kk, j).x as int,
                        corner(vertices@, indices@, kk, j).y as int,
                    ) by {
                        assert(tri_uvs[j] == corner(uvs@, indices@, kk, j));
                        assert(points[j] == corner(vertices@, indices@, kk, j));
                    }
                    if layered {
                        assert(is_mesh_fill(ops1[s + 1], image, vertices@, uvs@, indices@, kk, tks));
                    } else {
                        assert(is_mesh_fill(ops1[s], image, vertices@, uvs@, indices@, kk, tks));
                    }
                    assert(tri_emitted(ops1, n, image, vertices@, uvs@, indices@, mix, opacity, t, kk));
                }
            },
        }
        proof {
            let ops1 = renderer.ops();
            assert(ops1.subrange(0, ops0.len() as int) =~= ops0);
            assert(ops1.subrange(0, n) =~= before);
            assert forall|x: int| 0 <= x < ops0.len() implies ops1[x] == ops0[x] by {
                assert(ops1.subrange(0, ops0.len() as int)[x] == ops1[x]);
            }
            lemma_tri_start_mono(uvs@, indices@, image, layered, k as int, k as int);
            assert forall|j: int| 0 <= j < k + 1 implies #[trigger] tri_emitted(
                ops1, n, image, vertices@, uvs@, indices@, mix, opacity, t, j) by {
                if j < k {
                    lemma_tri_start_mono(uvs@, indices@, image, layered, j, k as int - 1);
                    assert(tri_emitted(ops0, n, image, vertices@, uvs@, indices@, mix, opacity, t, j));
                    let sj = n + tri_start(uvs@, indices@, image, layered, j);
                    lemma_tri_start_nonneg(uvs@, indices@, image, layered, j);
                    assert(sj + tri_len(uvs@, indices@, image, layered, j) <= ops0.len());
                    if !degenerate(uvs@, indices@, image, j) {
                        if layered {
                            assert(ops1[sj] == ops0[sj]);
                            assert(ops1[sj + 1] == ops0[sj + 1]);
                            assert(ops1[sj + 2] == ops0[sj + 2]);
                        } else {
                            assert(ops1[sj] == ops0[sj]);
                        }
                    }
                } else {
                    assert(j == k);
                    assert(tri_emitted(ops1, n, image, vertices@, uvs@, indices@, mix, opacity, t, j));
                }
            }
        }
        k = k + 1;
    }
    Ok(())
}

} // verus!
