use vello_rive::{
    Affine, Fill, FillRule, PathEl, Rect, Vec2D, VelloPath, triangle_path, vello_path_close,
    vello_path_cubic_to, vello_path_extend, vello_path_line_to, vello_path_move_to,
    vello_path_new, vello_path_rewind, vello_path_set_fill_rule,
};

fn p(x: i32, y: i32) -> Vec2D {
    Vec2D { x, y }
}

fn add_verbs(path: &mut VelloPath) {
    vello_path_move_to(path, 1, 2);
    vello_path_line_to(path, 5, -3);
    vello_path_cubic_to(path, 0, 0, 10, 10, 20, 0);
    vello_path_close(path);
}

#[test]
fn verbs_append_in_order() {
    let mut path = vello_path_new();
    add_verbs(&mut path);
    assert_eq!(
        path.path,
        vec![
            PathEl::MoveTo(p(1, 2)),
            PathEl::LineTo(p(5, -3)),
            PathEl::CurveTo(p(0, 0), p(10, 10), p(20, 0)),
            PathEl::ClosePath
        ]
    );
    assert_eq!(path.fill, Fill::NonZero);
}

#[test]
fn rewind_matches_fresh_path() {
    let mut used = vello_path_new();
    vello_path_set_fill_rule(&mut used, FillRule::EvenOdd);
    vello_path_move_to(&mut used, 9, 9);
    vello_path_line_to(&mut used, 8, 8);
    vello_path_rewind(&mut used);
    assert!(used.path.is_empty());
    assert_eq!(used.fill, Fill::EvenOdd);
    add_verbs(&mut used);

    let mut fresh = vello_path_new();
    vello_path_set_fill_rule(&mut fresh, FillRule::EvenOdd);
    add_verbs(&mut fresh);
    assert_eq!(used.path, fresh.path);
    assert_eq!(used.fill, fresh.fill);
}

#[test]
fn bounding_box_covers_all_points() {
    let mut path = vello_path_new();
    assert_eq!(path.bounding_box(), Rect { x0: 0, y0: 0, x1: 0, y1: 0 });
    add_verbs(&mut path);
    assert_eq!(path.bounding_box(), Rect { x0: 0, y0: -3, x1: 20, y1: 10 });
    let mut single = vello_path_new();
    vello_path_move_to(&mut single, 4, 6);
    assert_eq!(single.bounding_box(), Rect { x0: 4, y0: 6, x1: 4, y1: 6 });
}

#[test]
fn extend_maps_and_keeps_source() {
    let mut from = vello_path_new();
    vello_path_move_to(&mut from, 1, 3);
    vello_path_line_to(&mut from, -1, 4);
    vello_path_close(&mut from);
    let mut path = vello_path_new();
    vello_path_move_to(&mut path, 0, 0);
    // (x, y) -> ((2x + 1) / 2, (2y - 3) / 2), rounded down.
    let t = Affine { a: 2, b: 0, c: 0, d: 2, e: 1, f: -3, den: 2 };
    assert!(vello_path_extend(&mut path, &from, &t));
    assert_eq!(
        path.path,
        vec![
            PathEl::MoveTo(p(0, 0)),
            PathEl::MoveTo(p(1, 1)),
            PathEl::LineTo(p(-1, 2)),
            PathEl::ClosePath
        ]
    );
    assert_eq!(from.path.len(), 3);
    assert_eq!(from.path[0], PathEl::MoveTo(p(1, 3)));
}

#[test]
fn extend_out_of_range_changes_nothing() {
    let mut from = vello_path_new();
    vello_path_move_to(&mut from, i32::MAX, 0);
    let mut path = vello_path_new();
    vello_path_line_to(&mut path, 1, 1);
    let t = Affine { a: 2, b: 0, c: 0, d: 1, e: 0, f: 0, den: 1 };
    assert!(!vello_path_extend(&mut path, &from, &t));
    assert_eq!(path.path, vec![PathEl::LineTo(p(1, 1))]);
}

#[test]
fn triangle_outline() {
    let r = triangle_path([p(0, 0), p(4, 0), p(0, 3)]);
    assert_eq!(
        r,
        vec![
            PathEl::MoveTo(p(0, 0)),
            PathEl::LineTo(p(4, 0)),
            PathEl::LineTo(p(0, 3)),
            PathEl::LineTo(p(0, 0))
        ]
    );
}
