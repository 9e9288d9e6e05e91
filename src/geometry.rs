use vstd::prelude::*;

verus! {

/// Largest magnitude of a coordinate handed to the affine solver.
pub const SOLVER_COORD_MAX: i64 = 0x100_0000_0000;

/// One unit of a fixed-point UV coordinate (16 fractional bits).
pub const UV_ONE: i64 = 0x1_0000;

/// A point of a path, a mesh vertex or a UV coordinate, in integer units.
#[derive(Clone, Copy, Debug, PartialEq, Eq, Structural)]
pub struct Vec2D {
    pub x: i32,
    pub y: i32,
}

/// A wide point, used as input of the affine solver.
#[derive(Clone, Copy, Debug, PartialEq, Eq, Structural)]
pub struct Vec2 {
    pub x: i64,
    pub y: i64,
}

impl Vec2 {
    pub fn new(x: i64, y: i64) -> (r: Vec2)
        ensures
            r.x == x,
            r.y == y,
    {
        Vec2 { x, y }
    }

    pub fn splat(val: i64) -> (r: Vec2)
        ensures
            r.x == val,
            r.y == val,
    {
        Vec2::new(val, val)
    }

    pub open spec fn in_solver_range(self) -> bool {
        -SOLVER_COORD_MAX <= self.x <= SOLVER_COORD_MAX && -SOLVER_COORD_MAX <= self.y
            <= SOLVER_COORD_MAX
    }
}

/// An axis-aligned rectangle `[x0, x1] x [y0, y1]`.
#[derive(Clone, Copy, Debug, PartialEq, Eq, Structural)]
pub struct Rect {
    pub x0: i64,
    pub y0: i64,
    pub x1: i64,
    pub y1: i64,
}

/// The rational affine map
/// `(x, y) -> ((a x + c y + e) / den, (b x + d y + f) / den)`.
#[derive(Clone, Copy, Debug, PartialEq, Eq, Structural)]
pub struct Affine {
    pub a: i128,
    pub b: i128,
    pub c: i128,
    pub d: i128,
    pub e: i128,
    pub f: i128,
    pub den: i128,
}

/// Largest magnitude of a coefficient of an affine map that may be applied to
/// path coordinates.
pub const AFFINE_COEFF_MAX: i128 = 0x4000_0000_0000_0000_0000_0000;

impl Affine {
    /// The map fits the range in which it can be applied to `i32` points
    /// without overflow, and its denominator is positive.
    pub open spec fn wf(self) -> bool {
        &&& 0 < self.den <= AFFINE_COEFF_MAX
        &&& -AFFINE_COEFF_MAX <= self.a <= AFFINE_COEFF_MAX
        &&& -AFFINE_COEFF_MAX <= self.b <= AFFINE_COEFF_MAX
        &&& -AFFINE_COEFF_MAX <= self.c <= AFFINE_COEFF_MAX
        &&& -AFFINE_COEFF_MAX <= self.d <= AFFINE_COEFF_MAX
        &&& -AFFINE_COEFF_MAX <= self.e <= AFFINE_COEFF_MAX
        &&& -AFFINE_COEFF_MAX <= self.f <= AFFINE_COEFF_MAX
    }

    /// Numerator of the image's x coordinate of the point `(x, y)`.
    pub open spec fn num_x(self, x: int, y: int) -> int {
        self.a * x + self.c * y + self.e
    }

    /// Numerator of the image's y coordinate of the point `(x, y)`.
    pub open spec fn num_y(self, x: int, y: int) -> int {
        self.b * x + self.d * y + self.f
    }

    /// The map sends the rational point `(x / s, y / s)` exactly onto the
    /// integer point `(u, v)`.
    pub open spec fn sends_scaled(self, x: int, y: int, s: int, u: int, v: int) -> bool {
        &&& self.a * x + self.c * y + self.e * s == self.den * u * s
        &&& self.b * x + self.d * y + self.f * s == self.den * v * s
    }

    /// The map sends the integer point `p` exactly onto the integer point `q`.
    pub open spec fn sends(self, p: Vec2, q: Vec2) -> bool {
        self.sends_scaled(p.x as int, p.y as int, 1, q.x as int, q.y as int)
    }

    /// The linear coefficients lie within `[-m, m]`.
    pub open spec fn linear_within(self, m: int) -> bool {
        &&& -m <= self.a <= m
        &&& -m <= self.b <= m
        &&& -m <= self.c <= m
        &&& -m <= self.d <= m
    }

    pub fn translate(x: i64, y: i64, den: i64) -> (r: Affine)
        requires
            den > 0,
        ensures
            r == (Affine { a: den as i128, b: 0, c: 0, d: den as i128, e: x as i128, f: y as i128, den: den as i128 }),
    {
        Affine { a: den as i128, b: 0, c: 0, d: den as i128, e: x as i128, f: y as i128, den: den as i128 }
    }

    pub fn scale(num: i64, den: i64) -> (r: Affine)
        requires
            den > 0,
        ensures
            r == (Affine { a: num as i128, b: 0, c: 0, d: num as i128, e: 0, f: 0, den: den as i128 }),
    {
        Affine { a: num as i128, b: 0, c: 0, d: num as i128, e: 0, f: 0, den: den as i128 }
    }
}

/// Bound on the linear coefficients of a solver result.
pub const LINEAR_SOLUTION_MAX: i128 = 0x8_0000_0000_0000_0000_0000;

/// Largest magnitude of a UV coordinate (in units of `UV_ONE`) that the mesh
/// mapping accepts.
pub const UV_MAX: i32 = 0x100_0000;

/// Largest image side that the mesh mapping accepts.
pub const UV_DIM_MAX: u32 = 0x1_0000;

/// Twice the signed area of the triangle `a, b, c`.
pub open spec fn signed_area2(a: Vec2, b: Vec2, c: Vec2) -> int {
    a.x * (b.y - c.y) + b.x * (c.y - a.y) + c.x * (a.y - b.y)
}

/// The three points lie on one line.
pub open spec fn collinear(a: Vec2, b: Vec2, c: Vec2) -> bool {
    signed_area2(a, b, c) == 0
}

proof fn lemma_bound_mul(x: int, y: int, bx: int, by_: int)
    requires
        -bx <= x <= bx,
        -by_ <= y <= by_,
    ensures
        -(bx * by_) <= x * y <= bx * by_,
{
    assert(-(bx * by_) <= x * y <= bx * by_) by (nonlinear_arith)
        requires
            -bx <= x <= bx,
            -by_ <= y <= by_,
    ;
}

/// Twice the signed area, expanded into monomials.
proof fn lemma_area_expanded(ax: int, ay: int, bx: int, by_: int, cx: int, cy: int, u: int)
    ensures
        (ax * (by_ - cy) + bx * (cy - ay) + cx * (ay - by_)) * u == ax * by_ * u - ax * cy * u
            + bx * cy * u - bx * ay * u + cx * ay * u - cx * by_ * u,
{
    broadcast use vstd::arithmetic::mul::group_mul_is_commutative_and_distributive;

    assert((ax * (by_ - cy) + bx * (cy - ay) + cx * (ay - by_)) * u == ax * by_ * u - ax * cy
        * u + bx * cy * u - bx * ay * u + cx * ay * u - cx * by_ * u);
}

/// One row of the solution at the vertex `(x, y)`: the coefficients computed
/// from the targets `u0, u1, u2`, expanded into monomials.
proof fn lemma_row_expanded(
    ax: int,
    ay: int,
    bx: int,
    by_: int,
    cx: int,
    cy: int,
    u0: int,
    u1: int,
    u2: int,
    x: int,
    y: int,
)
    ensures
        (u0 * (by_ - cy) - u1 * (ay - cy) + u2 * (ay - by_)) * x == u0 * by_ * x - u0 * cy * x
            - u1 * ay * x + u1 * cy * x + u2 * ay * x - u2 * by_ * x,
        (u1 * (ax - cx) - u0 * (bx - cx) - u2 * (ax - bx)) * y == u1 * ax * y - u1 * cx * y - u0
            * bx * y + u0 * cx * y - u2 * ax * y + u2 * bx * y,
        u0 * (bx * cy - by_ * cx) - u1 * (ax * cy - ay * cx) + u2 * (ax * by_ - ay * bx) == u0
            * bx * cy - u0 * by_ * cx - u1 * ax * cy + u1 * ay * cx + u2 * ax * by_ - u2 * ay
            * bx,
{
    broadcast use vstd::arithmetic::mul::group_mul_is_commutative_and_distributive;
    broadcast use vstd::arithmetic::mul::lemma_mul_is_associative;

    assert((u0 * (by_ - cy) - u1 * (ay - cy) + u2 * (ay - by_)) * x == u0 * by_ * x - u0 * cy
        * x - u1 * ay * x + u1 * cy * x + u2 * ay * x - u2 * by_ * x);
    assert((u1 * (ax - cx) - u0 * (bx - cx) - u2 * (ax - bx)) * y == u1 * ax * y - u1 * cx * y
        - u0 * bx * y + u0 * cx * y - u2 * ax * y + u2 * bx * y);
    assert(u0 * (bx * cy - by_ * cx) - u1 * (ax * cy - ay * cx) + u2 * (ax * by_ - ay * bx)
        == u0 * bx * cy - u0 * by_ * cx - u1 * ax * cy + u1 * ay * cx + u2 * ax * by_ - u2 * ay
        * bx);
}

/// One row of the solution: the coefficients `(p, q, t)` computed from the
/// targets `u0, u1, u2` satisfy `p x + q y + t == area2 * u` at each vertex.
proof fn lemma_row_exact(ax: int, ay: int, bx: int, by_: int, cx: int, cy: int, u0: int, u1: int, u2: int)
    ensures
        ({
            let p = u0 * (by_ - cy) - u1 * (ay - cy) + u2 * (ay - by_);
            let q = u1 * (ax - cx) - u0 * (bx - cx) - u2 * (ax - bx);
            let t = u0 * (bx * cy - by_ * cx) - u1 * (ax * cy - ay * cx) + u2 * (ax * by_ - ay * bx);
            let det = ax * (by_ - cy) + bx * (cy - ay) + cx * (ay - by_);
            &&& p * ax + q * ay + t == det * u0
            &&& p * bx + q * by_ + t == det * u1
            &&& p * cx + q * cy + t == det * u2
        }),
{
    broadcast use vstd::arithmetic::mul::lemma_mul_is_associative;
    broadcast use vstd::arithmetic::mul::lemma_mul_is_commutative;

    lemma_row_expanded(ax, ay, bx, by_, cx, cy, u0, u1, u2, ax, ay);
    lemma_row_expanded(ax, ay, bx, by_, cx, cy, u0, u1, u2, bx, by_);
    lemma_row_expanded(ax, ay, bx, by_, cx, cy, u0, u1, u2, cx, cy);
    lemma_area_expanded(ax, ay, bx, by_, cx, cy, u0);
    lemma_area_expanded(ax, ay, bx, by_, cx, cy, u1);
    lemma_area_expanded(ax, ay, bx, by_, cx, cy, u2);
}

/// Finds the affine map that sends the triangle `from` onto the triangle `to`
/// (simplex affine mapping: Cramer's rule on the six unknowns). The result is
/// exact, with the doubled signed area of `from` as its denominator. A
/// degenerate (collinear) `from` has no such map and gives `None`.
pub fn simplex_affine_mapping(from: [Vec2; 3], to: [Vec2; 3]) -> (r: Option<Affine>)
    requires
        forall|i: int| 0 <= i < 3 ==> (#[trigger] from[i]).in_solver_range(),
        forall|i: int| 0 <= i < 3 ==> (#[trigger] to[i]).in_solver_range(),
    ensures
        r is None <==> collinear(from[0], from[1], from[2]),
        r matches Some(t) ==> {
            &&& t.den == signed_area2(from[0], from[1], from[2])
            &&& t.linear_within(LINEAR_SOLUTION_MAX as int)
            &&& t.sends(from[0], to[0])
            &&& t.sends(from[1], to[1])
            &&& t.sends(from[2], to[2])
        },
{
    let a = from[0];
    let b = from[1];
    let c = from[2];
    let d = to[0];
    let e = to[1];
    let f = to[2];
    assert(a.in_solver_range() && b.in_solver_range() && c.in_solver_range());
    assert(d.in_solver_range() && e.in_solver_range() && f.in_solver_range());
    let ghost m: int = SOLVER_COORD_MAX as int;
    proof {
        lemma_bound_mul(a.x as int, b.y as int, m, m);
        lemma_bound_mul(a.x as int, c.y as int, m, m);
        lemma_bound_mul(b.x as int, c.y as int, m, m);
        lemma_bound_mul(b.x as int, a.y as int, m, m);
        lemma_bound_mul(c.x as int, a.y as int, m, m);
        lemma_bound_mul(c.x as int, b.y as int, m, m);
        lemma_bound_mul(a.y as int, b.x as int, m, m);
        lemma_bound_mul(a.y as int, c.x as int, m, m);
        lemma_bound_mul(b.y as int, c.x as int, m, m);
        assert(m * m == 0x1_0000_0000_0000_0000_0000);
        lemma_bound_mul(a.x as int, (b.y - c.y) as int, m, 2 * m);
        lemma_bound_mul(b.x as int, (c.y - a.y) as int, m, 2 * m);
        lemma_bound_mul(c.x as int, (a.y - b.y) as int, m, 2 * m);
        assert(m * (2 * m) == 0x2_0000_0000_0000_0000_0000);
    }
    let (ax, ay, bx, by, cx, cy) = (a.x as i128, a.y as i128, b.x as i128, b.y as i128, c.x as i128, c.y as i128);
    let det: i128 = ax * (by - cy) + bx * (cy - ay) + cx * (ay - by);
    proof {
        assert(det == signed_area2(a, b, c)) by (nonlinear_arith)
            requires
                det == ax * (by - cy) + bx * (cy - ay) + cx * (ay - by),
                ax == a.x, ay == a.y, bx == b.x, by == b.y, cx == c.x, cy == c.y,
        ;
    }
    if det == 0 {
        return None;
    }
    let (dx, dy, ex, ey, fx, fy) = (d.x as i128, d.y as i128, e.x as i128, e.y as i128, f.x as i128, f.y as i128);
    let ghost m2: int = 2 * m;
    let ghost m3: int = 2 * m * m;
    proof {
        lemma_bound_mul(dx as int, (by - cy) as int, m, m2);
        lemma_bound_mul(ex as int, (ay - cy) as int, m, m2);
        lemma_bound_mul(fx as int, (ay - by) as int, m, m2);
        lemma_bound_mul(dy as int, (by - cy) as int, m, m2);
        lemma_bound_mul(ey as int, (ay - cy) as int, m, m2);
        lemma_bound_mul(fy as int, (ay - by) as int, m, m2);
        lemma_bound_mul(ex as int, (ax - cx) as int, m, m2);
        lemma_bound_mul(dx as int, (bx - cx) as int, m, m2);
        lemma_bound_mul(fx as int, (ax - bx) as int, m, m2);
        lemma_bound_mul(ey as int, (ax - cx) as int, m, m2);
        lemma_bound_mul(dy as int, (bx - cx) as int, m, m2);
        lemma_bound_mul(fy as int, (ax - bx) as int, m, m2);
        lemma_bound_mul(dx as int, (bx * cy - by * cx) as int, m, m3);
        lemma_bound_mul(ex as int, (ax * cy - ay * cx) as int, m, m3);
        lemma_bound_mul(fx as int, (ax * by - ay * bx) as int, m, m3);
        lemma_bound_mul(dy as int, (bx * cy - by * cx) as int, m, m3);
        lemma_bound_mul(ey as int, (ax * cy - ay * cx) as int, m, m3);
        lemma_bound_mul(fy as int, (ax * by - ay * bx) as int, m, m3);
        assert(m * m2 == 0x2_0000_0000_0000_0000_0000);
        assert(m * m3 == 0x200_0000_0000_0000_0000_0000_0000_0000);
    }
    let t = Affine {
        a: dx * (by - cy) - ex * (ay - cy) + fx * (ay - by),
        b: dy * (by - cy) - ey * (ay - cy) + fy * (ay - by),
        c: ex * (ax - cx) - dx * (bx - cx) - fx * (ax - bx),
        d: ey * (ax - cx) - dy * (bx - cx) - fy * (ax - bx),
        e: dx * (bx * cy - by * cx) - ex * (ax * cy - ay * cx) + fx * (ax * by - ay * bx),
        f: dy * (bx * cy - by * cx) - ey * (ax * cy - ay * cx) + fy * (ax * by - ay * bx),
        den: det,
    };
    assert(t.linear_within(LINEAR_SOLUTION_MAX as int));
    proof {
        lemma_row_exact(a.x as int, a.y as int, b.x as int, b.y as int, c.x as int, c.y as int, d.x as int, e.x as int, f.x as int);
        lemma_row_exact(a.x as int, a.y as int, b.x as int, b.y as int, c.x as int, c.y as int, d.y as int, e.y as int, f.y as int);
    }
    Some(t)
}

/// A UV point in `UV_ONE` units scaled to the pixels of a `width x height`
/// image (still in `UV_ONE` units).
pub open spec fn scaled_uv(uv: Vec2D, width: u32, height: u32) -> Vec2 {
    Vec2 { x: (uv.x * width) as i64, y: (uv.y * height) as i64 }
}

pub open spec fn vertex_point(p: Vec2D) -> Vec2 {
    Vec2 { x: p.x as i64, y: p.y as i64 }
}

pub open spec fn uv_in_range(uv: Vec2D) -> bool {
    -UV_MAX <= uv.x <= UV_MAX && -UV_MAX <= uv.y <= UV_MAX
}

/// The map from image pixels onto the triangle `points` that sends the pixel
/// under each UV coordinate onto the matching vertex. `None` when the UV
/// triangle, scaled to the image, is degenerate.
pub fn map_uvs_to_triangle(points: &[Vec2D; 3], uvs: &[Vec2D; 3], width: u32, height: u32) -> (r:
    Option<Affine>)
    requires
        width <= UV_DIM_MAX,
        height <= UV_DIM_MAX,
        forall|i: int| 0 <= i < 3 ==> uv_in_range(#[trigger] uvs[i]),
    ensures
        r is None <==> collinear(
            scaled_uv(uvs[0], width, height),
            scaled_uv(uvs[1], width, height),
            scaled_uv(uvs[2], width, height),
        ),
        r matches Some(t) ==> t.den != 0 && forall|i: int|
            0 <= i < 3 ==> t.sends_scaled(
                (#[trigger] uvs[i]).x * width,
                uvs[i].y * height,
                UV_ONE as int,
                points[i].x as int,
                points[i].y as int,
            ),
{
    let mut from: [Vec2; 3] = [Vec2::splat(0), Vec2::splat(0), Vec2::splat(0)];
    let mut to: [Vec2; 3] = [Vec2::splat(0), Vec2::splat(0), Vec2::splat(0)];
    let mut i: usize = 0;
    while i < 3
        invariant
            i <= 3,
            width <= UV_DIM_MAX,
            height <= UV_DIM_MAX,
            forall|k: int| 0 <= k < 3 ==> uv_in_range(#[trigger] uvs[k]),
            forall|k: int| 0 <= k < i ==> #[trigger] from[k] == scaled_uv(uvs[k], width, height),
            forall|k: int| 0 <= k < i ==> #[trigger] to[k] == vertex_point(points[k]),
            forall|k: int| 0 <= k < i ==> (#[trigger] from[k]).in_solver_range(),
            forall|k: int| 0 <= k < i ==> (#[trigger] to[k]).in_solver_range(),
        decreases 3 - i,
    {
        let uv = uvs[i];
        assert(uv_in_range(uv));
        proof {
            lemma_bound_mul(uv.x as int, width as int, UV_MAX as int, UV_DIM_MAX as int);
            lemma_bound_mul(uv.y as int, height as int, UV_MAX as int, UV_DIM_MAX as int);
        }
        from[i] = Vec2::new(uv.x as i64 * width as i64, uv.y as i64 * height as i64);
        to[i] = Vec2::new(points[i].x as i64, points[i].y as i64);
        i = i + 1;
    }
    match simplex_affine_mapping(from, to) {
        None => None,
        Some(t) => {
            let one = UV_ONE as i128;
            proof {
                lemma_bound_mul(t.a as int, one as int, LINEAR_SOLUTION_MAX as int, UV_ONE as int);
                lemma_bound_mul(t.b as int, one as int, LINEAR_SOLUTION_MAX as int, UV_ONE as int);
                lemma_bound_mul(t.c as int, one as int, LINEAR_SOLUTION_MAX as int, UV_ONE as int);
                lemma_bound_mul(t.d as int, one as int, LINEAR_SOLUTION_MAX as int, UV_ONE as int);
            }
            let r = Affine { a: t.a * one, b: t.b * one, c: t.c * one, d: t.d * one, e: t.e, f: t.f, den: t.den };
            proof {
                assert forall|k: int| 0 <= k < 3 implies r.sends_scaled(
                    (#[trigger] uvs[k]).x * width,
                    uvs[k].y * height,
                    UV_ONE as int,
                    points[k].x as int,
                    points[k].y as int,
                ) by {
                    let x = from[k].x as int;
                    let y = from[k].y as int;
                    let s = UV_ONE as int;
                    let u = points[k].x as int;
                    let v = points[k].y as int;
                    assert(k == 0 || k == 1 || k == 2);
                    assert(t.sends(from[k], to[k]));
                    assert(from[k] == scaled_uv(uvs[k], width, height));
                    assert(to[k] == vertex_point(points[k]));
                    assert(uv_in_range(uvs[k]));
                    lemma_bound_mul(uvs[k].x as int, width as int, UV_MAX as int, UV_DIM_MAX as int);
                    lemma_bound_mul(uvs[k].y as int, height as int, UV_MAX as int, UV_DIM_MAX as int);
                    assert(x == uvs[k].x * width);
                    assert(y == uvs[k].y * height);
                    assert(r.a * x + r.c * y + r.e * s == r.den * u * s && r.b * x + r.d * y + r.f * s
                        == r.den * v * s) by (nonlinear_arith)
                        requires
                            r.a == t.a * s,
                            r.b == t.b * s,
                            r.c == t.c * s,
                            r.d == t.d * s,
                            r.e == t.e,
                            r.f == t.f,
                            r.den == t.den,
                            t.a * x + t.c * y + t.e * 1 == t.den * u * 1,
                            t.b * x + t.d * y + t.f * 1 == t.den * v * 1,
                    ;
                }
            }
            Some(r)
        },
    }
}

} // verus!
