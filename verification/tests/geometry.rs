use scene_core::geom::{
    add_rect_to_path, merge_opt, path_bbox, rect_to_path, transform_path, Bounds, PathSegment,
    Rect, Transform,
};
use scene_core::scalar::{half, sat_add, sat_mul, sat_neg, sat_sub};

#[test]
fn sums_and_products_saturate() {
    assert_eq!(sat_add(2, 3), 5);
    assert_eq!(sat_add(i64::MAX, 1), i64::MAX);
    assert_eq!(sat_add(i64::MIN, -1), i64::MIN);
    assert_eq!(sat_sub(2, 3), -1);
    assert_eq!(sat_sub(i64::MIN, 1), i64::MIN);
    assert_eq!(sat_sub(i64::MAX, -1), i64::MAX);
    assert_eq!(sat_mul(-4, 5), -20);
    assert_eq!(sat_mul(i64::MAX, 2), i64::MAX);
    assert_eq!(sat_mul(i64::MIN, 2), i64::MIN);
    assert_eq!(sat_mul(i64::MIN, -1), i64::MAX);
    assert_eq!(sat_neg(7), -7);
    assert_eq!(sat_neg(i64::MIN), i64::MAX);
}

#[test]
fn half_rounds_towards_zero() {
    assert_eq!(half(20), 10);
    assert_eq!(half(7), 3);
    assert_eq!(half(-7), -3);
    assert_eq!(half(-8), -4);
    assert_eq!(half(0), 0);
    assert_eq!(half(i64::MIN), i64::MIN / 2);
    assert_eq!(half(i64::MAX), i64::MAX / 2);
}

#[test]
fn transform_maps_points() {
    let ts = Transform { a: 2, b: 0, c: 0, d: 3, e: 10, f: 20 };
    assert_eq!(ts.apply(1, 1), (12, 23));
    assert_eq!(Transform::identity().apply(-5, 9), (-5, 9));
    assert_eq!(Transform::new_translate(4, -4).apply(1, 1), (5, -3));
}

#[test]
fn append_applies_the_other_map_first() {
    let mut ts = Transform { a: 2, b: 0, c: 0, d: 2, e: 0, f: 0 };
    ts.append(&Transform::new_translate(3, 4));
    assert_eq!(ts, Transform { a: 2, b: 0, c: 0, d: 2, e: 6, f: 8 });
    assert_eq!(ts.apply(1, 1), (8, 10));
}

#[test]
fn prepend_applies_the_other_map_second() {
    let mut ts = Transform { a: 2, b: 0, c: 0, d: 2, e: 0, f: 0 };
    ts.prepend(&Transform::new_translate(3, 4));
    assert_eq!(ts, Transform { a: 2, b: 0, c: 0, d: 2, e: 3, f: 4 });
    assert_eq!(ts.apply(1, 1), (5, 6));
}

#[test]
fn translate_shifts_before_the_map() {
    let mut ts = Transform { a: 0, b: 1, c: -1, d: 0, e: 0, f: 0 };
    ts.translate(5, 0);
    assert_eq!(ts.apply(0, 0), (0, 5));
}

#[test]
fn quarter_turn_keeps_its_centre() {
    let mut ts = Transform::identity();
    ts.rotate_quarter_at(10, 20);
    assert_eq!(ts, Transform { a: 0, b: 1, c: -1, d: 0, e: 30, f: 10 });
    assert_eq!(ts.apply(10, 20), (10, 20));
    // One unit along x from the centre ends one unit along y from it.
    assert_eq!(ts.apply(11, 20), (10, 21));
}

#[test]
fn from_bbox_maps_the_unit_square() {
    let ts = Transform::from_bbox(Rect { x: 5, y: 6, width: 20, height: 10 });
    assert_eq!(ts, Transform { a: 20, b: 0, c: 0, d: 10, e: 5, f: 6 });
    assert_eq!(ts.apply(0, 0), (5, 6));
    assert_eq!(ts.apply(1, 1), (25, 16));
}

#[test]
fn rect_new_wants_positive_extent() {
    assert_eq!(Rect::new(1, 2, 3, 4), Some(Rect { x: 1, y: 2, width: 3, height: 4 }));
    assert_eq!(Rect::new(1, 2, 0, 4), None);
    assert_eq!(Rect::new(1, 2, 3, -1), None);
    let r = Rect { x: 1, y: 2, width: 3, height: 4 };
    assert_eq!(r.right(), 4);
    assert_eq!(r.bottom(), 6);
}

#[test]
fn transform_path_maps_every_point() {
    let mut path = vec![
        PathSegment::MoveTo { x: 0, y: 0 },
        PathSegment::LineTo { x: 1, y: 0 },
        PathSegment::CurveTo { x1: 1, y1: 1, x2: 2, y2: 2, x: 3, y: 3 },
        PathSegment::ClosePath,
    ];
    let ts = Transform { a: 2, b: 0, c: 0, d: 2, e: 10, f: 100 };
    transform_path(&mut path, &ts);
    assert_eq!(
        path,
        vec![
            PathSegment::MoveTo { x: 10, y: 100 },
            PathSegment::LineTo { x: 12, y: 100 },
            PathSegment::CurveTo { x1: 12, y1: 102, x2: 14, y2: 104, x: 16, y: 106 },
            PathSegment::ClosePath,
        ]
    );
}

#[test]
fn add_rect_to_path_appends_five_commands() {
    let mut path = vec![PathSegment::ClosePath];
    add_rect_to_path(Rect { x: 1, y: 2, width: 10, height: 20 }, &mut path);
    assert_eq!(
        path,
        vec![
            PathSegment::ClosePath,
            PathSegment::MoveTo { x: 1, y: 2 },
            PathSegment::LineTo { x: 11, y: 2 },
            PathSegment::LineTo { x: 11, y: 22 },
            PathSegment::LineTo { x: 1, y: 22 },
            PathSegment::ClosePath,
        ]
    );
    assert_eq!(rect_to_path(Rect { x: 1, y: 2, width: 10, height: 20 }), path[1..].to_vec());
}

#[test]
fn path_bbox_holds_points_and_control_points() {
    let path = vec![
        PathSegment::MoveTo { x: 3, y: 4 },
        PathSegment::CurveTo { x1: -2, y1: 9, x2: 8, y2: -1, x: 5, y: 5 },
        PathSegment::ClosePath,
    ];
    let b = path_bbox(&path);
    assert_eq!(b, Some(Bounds { min_x: -2, min_y: -1, max_x: 8, max_y: 9 }));
    assert_eq!(b.unwrap().to_rect(), Rect { x: -2, y: -1, width: 10, height: 10 });
    assert_eq!(path_bbox(&vec![]), None);
    assert_eq!(path_bbox(&vec![PathSegment::ClosePath]), None);
}

#[test]
fn bounds_merge_to_their_union() {
    let a = Bounds { min_x: 0, min_y: 0, max_x: 2, max_y: 2 };
    let b = Bounds { min_x: -1, min_y: 1, max_x: 1, max_y: 5 };
    assert_eq!(a.merge(&b), Bounds { min_x: -1, min_y: 0, max_x: 2, max_y: 5 });
    assert_eq!(merge_opt(None, Some(a)), Some(a));
    assert_eq!(merge_opt(Some(a), None), Some(a));
    assert_eq!(merge_opt(None, None), None);
    assert_eq!(merge_opt(Some(a), Some(b)), Some(a.merge(&b)));
}
