use vello_rive::{Affine, Vec2, Vec2D, map_uvs_to_triangle, simplex_affine_mapping, UV_ONE};

fn apply(t: &Affine, p: Vec2) -> (i128, i128) {
    let x = p.x as i128;
    let y = p.y as i128;
    let nx = t.a * x + t.c * y + t.e;
    let ny = t.b * x + t.d * y + t.f;
    assert_eq!(nx % t.den, 0);
    assert_eq!(ny % t.den, 0);
    (nx / t.den, ny / t.den)
}

#[test]
fn straightforward_sam() {
    let from = [Vec2::new(1, 1), Vec2::new(3, 1), Vec2::new(1, 3)];
    let to = [Vec2::new(4, 4), Vec2::new(4, -1), Vec2::new(-2, 4)];

    let mapping = simplex_affine_mapping(from, to).unwrap();

    for (from, to) in from.into_iter().zip(to.into_iter()) {
        let res = apply(&mapping, from);
        assert_eq!(res.0, to.x as i128);
        assert_eq!(res.1, to.y as i128);
    }
}

#[test]
fn solver_denominator_is_doubled_area() {
    let from = [Vec2::new(1, 1), Vec2::new(3, 1), Vec2::new(1, 3)];
    let to = [Vec2::new(4, 4), Vec2::new(4, -1), Vec2::new(-2, 4)];
    let t = simplex_affine_mapping(from, to).unwrap();
    assert_eq!(t.den, 4);
    // The map is (x, y) -> (-3y + 7, -2.5x + 6.5), scaled by the denominator 4.
    assert_eq!((t.a, t.b, t.c, t.d, t.e, t.f), (0, -10, -12, 0, 28, 26));
}

#[test]
fn solver_collinear_fails() {
    let from = [Vec2::new(0, 0), Vec2::new(1, 1), Vec2::new(2, 2)];
    let to = [Vec2::new(4, 4), Vec2::new(4, -1), Vec2::new(-2, 4)];
    assert!(simplex_affine_mapping(from, to).is_none());
    let same = [Vec2::splat(5), Vec2::splat(5), Vec2::splat(5)];
    assert!(simplex_affine_mapping(same, to).is_none());
}

#[test]
fn solver_identity() {
    let tri = [Vec2::new(0, 0), Vec2::new(10, 0), Vec2::new(0, 10)];
    let t = simplex_affine_mapping(tri, tri).unwrap();
    for p in [Vec2::new(3, 7), Vec2::new(-5, 2)] {
        assert_eq!(apply(&t, p), (p.x as i128, p.y as i128));
    }
}

#[test]
fn uv_mapping_sends_pixels_to_vertices() {
    let points = [Vec2D { x: 10, y: 10 }, Vec2D { x: 30, y: 10 }, Vec2D { x: 10, y: 50 }];
    let one = UV_ONE as i32;
    let uvs = [Vec2D { x: 0, y: 0 }, Vec2D { x: one, y: 0 }, Vec2D { x: 0, y: one }];
    let t = map_uvs_to_triangle(&points, &uvs, 4, 8).unwrap();
    // Pixel (4, 0) is the UV corner (1, 0) of a 4 x 8 image.
    let corners = [(0i128, 0i128), (4, 0), (0, 8)];
    for (c, p) in corners.iter().zip(points.iter()) {
        let nx = t.a * c.0 + t.c * c.1 + t.e;
        let ny = t.b * c.0 + t.d * c.1 + t.f;
        assert_eq!(nx, t.den * p.x as i128);
        assert_eq!(ny, t.den * p.y as i128);
    }
}

#[test]
fn uv_mapping_degenerate() {
    let points = [Vec2D { x: 10, y: 10 }, Vec2D { x: 30, y: 10 }, Vec2D { x: 10, y: 50 }];
    let one = UV_ONE as i32;
    let uvs = [Vec2D { x: 0, y: 0 }, Vec2D { x: one, y: one }, Vec2D { x: 2 * one, y: 2 * one }];
    assert!(map_uvs_to_triangle(&points, &uvs, 4, 8).is_none());
    // A zero-sized image collapses every UV triangle.
    let uvs = [Vec2D { x: 0, y: 0 }, Vec2D { x: one, y: 0 }, Vec2D { x: 0, y: one }];
    assert!(map_uvs_to_triangle(&points, &uvs, 0, 8).is_none());
}

#[test]
fn affine_builders() {
    let t = Affine::translate(-4, 6, 2);
    assert_eq!((t.a, t.b, t.c, t.d, t.e, t.f, t.den), (2, 0, 0, 2, -4, 6, 2));
    let s = Affine::scale(103, 100);
    assert_eq!((s.a, s.d, s.e, s.den), (103, 103, 0, 100));
}
