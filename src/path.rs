use vstd::prelude::*;
use crate::geometry::{Affine, Rect, Vec2D};
use crate::paint::Fill;
use crate::rive::FillRule;

verus! {

/// One verb of a path, with absolute coordinates.
#[derive(Clone, Copy, Debug, PartialEq, Eq, Structural)]
pub enum PathEl {
    MoveTo(Vec2D),
    LineTo(Vec2D),
    CurveTo(Vec2D, Vec2D, Vec2D),
    ClosePath,
}

/// The points that a verb carries, in order.
pub open spec fn el_points(el: PathEl) -> Seq<Vec2D> {
    match el {
        PathEl::MoveTo(p) => seq![p],
        PathEl::LineTo(p) => seq![p],
        PathEl::CurveTo(p0, p1, p2) => seq![p0, p1, p2],
        PathEl::ClosePath => seq![],
    }
}

/// All the points of a sequence of verbs, in order.
pub open spec fn all_points(els: Seq<PathEl>) -> Seq<Vec2D>
    decreases els.len(),
{
    if els.len() == 0 {
        seq![]
    } else {
        all_points(els.drop_last()) + el_points(els.last())
    }
}

/// The smallest rectangle holding `r` and `p`.
pub open spec fn rect_with(r: Rect, p: Vec2D) -> Rect {
    Rect {
        x0: if p.x < r.x0 { p.x as i64 } else { r.x0 },
        y0: if p.y < r.y0 { p.y as i64 } else { r.y0 },
        x1: if p.x > r.x1 { p.x as i64 } else { r.x1 },
        y1: if p.y > r.y1 { p.y as i64 } else { r.y1 },
    }
}

/// The smallest axis-aligned rectangle holding all the points; the zero
/// rectangle when there are none.
pub open spec fn bounds_of(ps: Seq<Vec2D>) -> Rect
    decreases ps.len(),
{
    if ps.len() == 0 {
        Rect { x0: 0, y0: 0, x1: 0, y1: 0 }
    } else if ps.len() == 1 {
        Rect { x0: ps[0].x as i64, y0: ps[0].y as i64, x1: ps[0].x as i64, y1: ps[0].y as i64 }
    } else {
        rect_with(bounds_of(ps.drop_last()), ps.last())
    }
}

/// `p` under the affine map `t`, each coordinate rounded down.
pub open spec fn map_point(t: Affine, p: Vec2D) -> (int, int) {
    (t.num_x(p.x as int, p.y as int) / (t.den as int), t.num_y(p.x as int, p.y as int) / (
    t.den as int))
}

pub open spec fn fits_i32(v: int) -> bool {
    i32::MIN <= v <= i32::MAX
}

pub open spec fn point_fits(t: Affine, p: Vec2D) -> bool {
    fits_i32(map_point(t, p).0) && fits_i32(map_point(t, p).1)
}

pub open spec fn mapped(t: Affine, p: Vec2D) -> Vec2D {
    Vec2D { x: map_point(t, p).0 as i32, y: map_point(t, p).1 as i32 }
}

/// Every point of the verb stays in range under `t`.
pub open spec fn el_fits(t: Affine, el: PathEl) -> bool {
    forall|i: int| 0 <= i < el_points(el).len() ==> point_fits(t, #[trigger] el_points(el)[i])
}

/// The verb with each of its points mapped by `t`.
pub open spec fn map_el(t: Affine, el: PathEl) -> PathEl {
    match el {
        PathEl::MoveTo(p) => PathEl::MoveTo(mapped(t, p)),
        PathEl::LineTo(p) => PathEl::LineTo(mapped(t, p)),
        PathEl::CurveTo(p0, p1, p2) => PathEl::CurveTo(mapped(t, p0), mapped(t, p1), mapped(t, p2)),
        PathEl::ClosePath => PathEl::ClosePath,
    }
}

fn floor_div(n: i128, d: i128) -> (r: i128)
    requires
        d > 0,
        n > i128::MIN,
    ensures
        r == n / d,
{
    if n >= 0 {
        n / d
    } else {
        let m: i128 = -n - 1;
        let q: i128 = m / d;
        proof {
            let qq = m / d;
            let rr = m % d;
            assert(m == qq * d + rr && 0 <= rr < d) by (nonlinear_arith)
                requires
                    m >= 0,
                    d > 0,
                    qq == m / d,
                    rr == m % d,
            ;
            assert(n == (-qq - 1) * d + (d - 1 - rr)) by (nonlinear_arith)
                requires
                    m == qq * d + rr,
                    n == -m - 1,
            ;
            vstd::arithmetic::div_mod::lemma_fundamental_div_mod_converse(
                n as int,
                d as int,
                -qq - 1,
                d - 1 - rr,
            );
        }
        -q - 1
    }
}

/// `p` under `t`, or `None` when a coordinate leaves the `i32` range.
fn map_vec(t: &Affine, p: Vec2D) -> (r: Option<Vec2D>)
    requires
        t.wf(),
    ensures
        r is Some <==> point_fits(*t, p),
        r matches Some(q) ==> q == mapped(*t, p),
{
    let x = p.x as i128;
    let y = p.y as i128;
    proof {
        let m = crate::geometry::AFFINE_COEFF_MAX as int;
        assert(-m * 0x8000_0000 <= t.a * x <= m * 0x8000_0000) by (nonlinear_arith)
            requires -m <= t.a <= m, -0x8000_0000 <= x <= 0x8000_0000;
        assert(-m * 0x8000_0000 <= t.c * y <= m * 0x8000_0000) by (nonlinear_arith)
            requires -m <= t.c <= m, -0x8000_0000 <= y <= 0x8000_0000;
        assert(-m * 0x8000_0000 <= t.b * x <= m * 0x8000_0000) by (nonlinear_arith)
            requires -m <= t.b <= m, -0x8000_0000 <= x <= 0x8000_0000;
        assert(-m * 0x8000_0000 <= t.d * y <= m * 0x8000_0000) by (nonlinear_arith)
            requires -m <= t.d <= m, -0x8000_0000 <= y <= 0x8000_0000;
    }
    let nx = t.a * x + t.c * y + t.e;
    let ny = t.b * x + t.d * y + t.f;
    let qx = floor_div(nx, t.den);
    let qy = floor_div(ny, t.den);
    if qx < i32::MIN as i128 || qx > i32::MAX as i128 || qy < i32::MIN as i128 || qy > i32::MAX as i128 {
        return None;
    }
    Some(Vec2D { x: qx as i32, y: qy as i32 })
}

/// A path: verbs in order, and the rule that decides its interior.
#[derive(Debug)]
pub struct VelloPath {
    pub path: Vec<PathEl>,
    pub fill: Fill,
}

impl VelloPath {
    /// The smallest rectangle holding every point that the verbs carry
    /// (curve control points included); the zero rectangle when the path has
    /// no points.
    pub fn bounding_box(&self) -> (r: Rect)
        ensures
            r == bounds_of(all_points(self.path@)),
    {
        let mut r = Rect { x0: 0, y0: 0, x1: 0, y1: 0 };
        let mut started = false;
        let mut i: usize = 0;
        while i < self.path.len()
            invariant
                i <= self.path@.len(),
                r == bounds_of(all_points(self.path@.subrange(0, i as int))),
                started == (all_points(self.path@.subrange(0, i as int)).len() > 0),
            decreases self.path@.len() - i,
        {
            let ghost before = all_points(self.path@.subrange(0, i as int));
            let el = self.path[i];
            let ghost pts = el_points(el);
            assert(self.path@.subrange(0, i + 1 as int).drop_last() =~= self.path@.subrange(0, i as int));
            let ghost target = before + pts;
            let n: usize = match el {
                PathEl::MoveTo(_) => 1,
                PathEl::LineTo(_) => 1,
                PathEl::CurveTo(_, _, _) => 3,
                PathEl::ClosePath => 0,
            };
            assert(n == pts.len());
            let mut k: usize = 0;
            while k < n
                invariant
                    k <= n,
                    n == pts.len(),
                    pts == el_points(el),
                    el == self.path@[i as int],
                    r == bounds_of(before + pts.subrange(0, k as int)),
                    started == ((before + pts.subrange(0, k as int)).len() > 0),
                decreases n - k,
            {
                let p = match el {
                    PathEl::MoveTo(p) => p,
                    PathEl::LineTo(p) => p,
                    PathEl::CurveTo(p0, p1, p2) => if k == 0 { p0 } else if k == 1 { p1 } else { p2 },
                    PathEl::ClosePath => Vec2D { x: 0, y: 0 },
                };
                assert(p == pts[k as int]);
                let ghost s = before + pts.subrange(0, k as int);
                assert((before + pts.subrange(0, k + 1 as int)).drop_last() =~= s);
                if !started {
                    r = Rect { x0: p.x as i64, y0: p.y as i64, x1: p.x as i64, y1: p.y as i64 };
                    started = true;
                } else {
                    if (p.x as i64) < r.x0 { r.x0 = p.x as i64; }
                    if (p.y as i64) < r.y0 { r.y0 = p.y as i64; }
                    if (p.x as i64) > r.x1 { r.x1 = p.x as i64; }
                    if (p.y as i64) > r.y1 { r.y1 = p.y as i64; }
                }
                k = k + 1;
            }
            assert(pts.subrange(0, n as int) =~= pts);
            i = i + 1;
        }
        assert(self.path@.subrange(0, self.path@.len() as int) =~= self.path@);
        r
    }
}

impl Default for VelloPath {
    fn default() -> (r: VelloPath)
        ensures
            r.path@.len() == 0,
            r.fill == Fill::NonZero,
    {
        VelloPath { path: Vec::new(), fill: Fill::NonZero }
    }
}

/// An empty path with the nonzero rule.
pub fn vello_path_new() -> (r: VelloPath)
    ensures
        r.path@.len() == 0,
        r.fill == Fill::NonZero,
{
    VelloPath::default()
}

/// The fill of each runtime fill rule.
pub open spec fn fill_of(rule: FillRule) -> Fill {
    match rule {
        FillRule::NonZero => Fill::NonZero,
        FillRule::EvenOdd => Fill::EvenOdd,
    }
}

pub fn vello_path_set_fill_rule(path: &mut VelloPath, fill_rule: FillRule)
    ensures
        final(path).fill == fill_of(fill_rule),
        final(path).path@ == old(path).path@,
{
    path.fill = match fill_rule {
        FillRule::NonZero => Fill::NonZero,
        FillRule::EvenOdd => Fill::EvenOdd,
    };
}

/// The verbs of a rewound path, whatever it held: none.
pub open spec fn rewound(held: Seq<PathEl>) -> Seq<PathEl> {
    Seq::empty()
}

/// Removes every verb; the fill rule stays.
pub fn vello_path_rewind(path: &mut VelloPath)
    ensures
        final(path).path@ == rewound(old(path).path@),
        final(path).fill == old(path).fill,
{
    path.path.truncate(0);
    assert(path.path@ =~= Seq::<PathEl>::empty());
}

/// Appends the verbs of `from`, each mapped by `transform`. When a mapped
/// coordinate would leave the `i32` range nothing is appended and the result
/// is `false`.
pub fn vello_path_extend(path: &mut VelloPath, from: &VelloPath, transform: &Affine) -> (ok: bool)
    requires
        transform.wf(),
    ensures
        ok == forall|i: int| 0 <= i < from.path@.len() ==> el_fits(*transform, #[trigger] from.path@[i]),
        ok ==> final(path).path@ == old(path).path@ + from.path@.map_values(|el: PathEl| map_el(*transform, el)),
        !ok ==> final(path).path@ == old(path).path@,
        final(path).fill == old(path).fill,
{
    let mut mapped_els: Vec<PathEl> = Vec::new();
    let mut i: usize = 0;
    while i < from.path.len()
        invariant
            transform.wf(),
            i <= from.path@.len(),
            mapped_els@ == from.path@.subrange(0, i as int).map_values(|el: PathEl| map_el(*transform, el)),
            forall|j: int| 0 <= j < i ==> el_fits(*transform, #[trigger] from.path@[j]),
        decreases from.path@.len() - i,
    {
        let el = from.path[i];
        let m = match el {
            PathEl::MoveTo(p) => match map_vec(transform, p) {
                Some(q) => PathEl::MoveTo(q),
                None => {
                    assert(el_points(el)[0] == p);
                    assert(!el_fits(*transform, from.path@[i as int]));
                    return false;
                },
            },
            PathEl::LineTo(p) => match map_vec(transform, p) {
                Some(q) => PathEl::LineTo(q),
                None => {
                    assert(el_points(el)[0] == p);
                    assert(!el_fits(*transform, from.path@[i as int]));
                    return false;
                },
            },
            PathEl::CurveTo(p0, p1, p2) => {
                let q0 = map_vec(transform, p0);
                let q1 = map_vec(transform, p1);
                let q2 = map_vec(transform, p2);
                assert(el_points(el)[0] == p0 && el_points(el)[1] == p1 && el_points(el)[2] == p2);
                match (q0, q1, q2) {
                    (Some(a), Some(b), Some(c)) => PathEl::CurveTo(a, b, c),
                    _ => {
                        return false;
                    },
                }
            },
            PathEl::ClosePath => PathEl::ClosePath,
        };
        assert(el_fits(*transform, el));
        mapped_els.push(m);
        i = i + 1;
        assert(mapped_els@ =~= from.path@.subrange(0, i as int).map_values(|el: PathEl| map_el(*transform, el)));
    }
    assert(from.path@.subrange(0, i as int) =~= from.path@);
    let ghost before = path.path@;
    let mut k: usize = 0;
    while k < mapped_els.len()
        invariant
            k <= mapped_els@.len(),
            path.path@ == before + mapped_els@.subrange(0, k as int),
            path.fill == old(path).fill,
        decreases mapped_els@.len() - k,
    {
        path.path.push(mapped_els[k]);
        k = k + 1;
        assert(path.path@ =~= before + mapped_els@.subrange(0, k as int));
    }
    assert(mapped_els@.subrange(0, k as int) =~= mapped_els@);
    true
}

pub fn vello_path_move_to(path: &mut VelloPath, x: i32, y: i32)
    ensures
        final(path).path@ == old(path).path@.push(PathEl::MoveTo(Vec2D { x, y })),
        final(path).fill == old(path).fill,
{
    path.path.push(PathEl::MoveTo(Vec2D { x, y }));
}

pub fn vello_path_line_to(path: &mut VelloPath, x: i32, y: i32)
    ensures
        final(path).path@ == old(path).path@.push(PathEl::LineTo(Vec2D { x, y })),
        final(path).fill == old(path).fill,
{
    path.path.push(PathEl::LineTo(Vec2D { x, y }));
}

/// Appends a cubic curve with control points `(ox, oy)` and `(ix, iy)`
/// ending at `(x, y)`.
pub fn vello_path_cubic_to(path: &mut VelloPath, ox: i32, oy: i32, ix: i32, iy: i32, x: i32, y: i32)
    ensures
        final(path).path@ == old(path).path@.push(
            PathEl::CurveTo(Vec2D { x: ox, y: oy }, Vec2D { x: ix, y: iy }, Vec2D { x, y }),
        ),
        final(path).fill == old(path).fill,
{
    path.path.push(PathEl::CurveTo(Vec2D { x: ox, y: oy }, Vec2D { x: ix, y: iy }, Vec2D { x, y }));
}

pub fn vello_path_close(path: &mut VelloPath)
    ensures
        final(path).path@ == old(path).path@.push(PathEl::ClosePath),
        final(path).fill == old(path).fill,
{
    path.path.push(PathEl::ClosePath);
}

/// The verbs after appending `verbs` one by one.
pub open spec fn append_verbs(els: Seq<PathEl>, verbs: Seq<PathEl>) -> Seq<PathEl>
    decreases verbs.len(),
{
    if verbs.len() == 0 {
        els
    } else {
        append_verbs(els.push(verbs[0]), verbs.drop_first())
    }
}

/// A rewound path that is given the same verbs as a fresh path of the same
/// fill rule ends with the same verbs and rule as that fresh path, whatever
/// it held before.
pub proof fn lemma_rewind_like_fresh(held: Seq<PathEl>, verbs: Seq<PathEl>)
    ensures
        append_verbs(rewound(held), verbs) == append_verbs(Seq::<PathEl>::empty(), verbs),
        append_verbs(rewound(held), verbs) == verbs,
{
    lemma_append_verbs(Seq::<PathEl>::empty(), verbs);
    assert(Seq::<PathEl>::empty() + verbs =~= verbs);
}

proof fn lemma_append_verbs(els: Seq<PathEl>, verbs: Seq<PathEl>)
    ensures
        append_verbs(els, verbs) == els + verbs,
    decreases verbs.len(),
{
    if verbs.len() > 0 {
        lemma_append_verbs(els.push(verbs[0]), verbs.drop_first());
        assert(els.push(verbs[0]) + verbs.drop_first() =~= els + verbs);
    }
}

/// The closed outline of a triangle: a move to the first corner and lines
/// through the other two and back.
pub open spec fn triangle_els(points: [Vec2D; 3]) -> Seq<PathEl> {
    seq![
        PathEl::MoveTo(points[0]),
        PathEl::LineTo(points[1]),
        PathEl::LineTo(points[2]),
        PathEl::LineTo(points[0]),
    ]
}

pub fn triangle_path(points: [Vec2D; 3]) -> (r: Vec<PathEl>)
    ensures
        r@ == triangle_els(points),
{
    let mut r: Vec<PathEl> = Vec::new();
    r.push(PathEl::MoveTo(points[0]));
    r.push(PathEl::LineTo(points[1]));
    r.push(PathEl::LineTo(points[2]));
    r.push(PathEl::LineTo(points[0]));
    assert(r@ =~= triangle_els(points));
    r
}

} // verus!
