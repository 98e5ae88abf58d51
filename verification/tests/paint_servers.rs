use scene_core::geom::{PathSegment, Rect, Transform};
use scene_core::normalize::{
    fix_obj_bounding_box, gen_paint_server_id, paint_server_to_user_space_on_use, synthetic_id,
};
use scene_core::tree::{
    Color, Fill, FillRule, Gradient, Paint, Path, Pattern, Resource, Stop, Stroke, Tree, Units,
    Visibility,
};

fn gradient(id: &str, units: Units) -> Gradient {
    Gradient {
        id: id.to_string(),
        units,
        transform: Transform { a: 1, b: 0, c: 0, d: 1, e: 2, f: 3 },
        stops: vec![
            Stop { offset: 0, color: Color::new(0, 0, 0) },
            Stop { offset: 1, color: Color::new(255, 255, 255) },
        ],
    }
}

fn tile() -> Path {
    Path {
        id: "tile".to_string(),
        transform: Transform::identity(),
        visibility: Visibility::Visible,
        fill: Some(Fill { paint: Paint::Color(Color::red()), opacity: 255, rule: FillRule::EvenOdd }),
        stroke: None,
        segments: vec![PathSegment::MoveTo { x: 0, y: 0 }, PathSegment::LineTo { x: 1, y: 1 }],
    }
}

fn linked_path(fill: Option<&str>, stroke: Option<&str>) -> Path {
    Path {
        id: String::new(),
        transform: Transform::identity(),
        visibility: Visibility::Visible,
        fill: fill.map(|id| Fill { paint: Paint::Link(id.to_string()), opacity: 255, rule: FillRule::NonZero }),
        stroke: stroke.map(|id| Stroke { paint: Paint::Link(id.to_string()), opacity: 255, width: 2 }),
        segments: vec![],
    }
}

fn the_box() -> Rect {
    Rect { x: 10, y: 20, width: 100, height: 50 }
}

#[test]
fn synthetic_ids_are_prefix_and_decimal() {
    assert_eq!(synthetic_id(1), "usvg1");
    assert_eq!(synthetic_id(0), "usvg0");
    assert_eq!(synthetic_id(9), "usvg9");
    assert_eq!(synthetic_id(10), "usvg10");
    assert_eq!(synthetic_id(1203), "usvg1203");
    assert_eq!(synthetic_id(u128::MAX), format!("usvg{}", u128::MAX));
}

#[test]
fn first_free_id_is_generated() {
    assert_eq!(gen_paint_server_id(&Tree::new()), "usvg1");
    let tree = Tree {
        defs: vec![
            Resource::Other("usvg2".to_string()),
            Resource::LinearGradient(gradient("usvg1", Units::UserSpaceOnUse)),
            Resource::Other("lg".to_string()),
        ],
    };
    assert_eq!(gen_paint_server_id(&tree), "usvg3");
    let gap = Tree {
        defs: vec![Resource::Other("usvg1".to_string()), Resource::Other("usvg3".to_string())],
    };
    assert_eq!(gen_paint_server_id(&gap), "usvg2");
}

#[test]
fn bbox_relative_gradient_is_promoted() {
    let mut tree = Tree {
        defs: vec![Resource::LinearGradient(gradient("lg", Units::ObjectBoundingBox))],
    };
    let id = paint_server_to_user_space_on_use("lg", the_box(), &mut tree);
    assert_eq!(id, Some("usvg1".to_string()));
    assert_eq!(tree.defs.len(), 2);
    // The original is untouched.
    assert_eq!(tree.defs[0], Resource::LinearGradient(gradient("lg", Units::ObjectBoundingBox)));
    let expected = Gradient {
        id: "usvg1".to_string(),
        units: Units::UserSpaceOnUse,
        // from_bbox = (100 0 0 50 10 20), applied after (1 0 0 1 2 3).
        transform: Transform { a: 100, b: 0, c: 0, d: 50, e: 210, f: 170 },
        stops: gradient("lg", Units::ObjectBoundingBox).stops,
    };
    assert_eq!(tree.defs[1], Resource::LinearGradient(expected));
}

#[test]
fn promoting_twice_gives_distinct_ids_and_equal_transforms() {
    let mut tree = Tree {
        defs: vec![Resource::RadialGradient(gradient("rg", Units::ObjectBoundingBox))],
    };
    let first = paint_server_to_user_space_on_use("rg", the_box(), &mut tree).unwrap();
    let second = paint_server_to_user_space_on_use("rg", the_box(), &mut tree).unwrap();
    assert_eq!(first, "usvg1");
    assert_eq!(second, "usvg2");
    assert_ne!(first, second);
    assert_eq!(tree.defs.len(), 3);
    match (&tree.defs[1], &tree.defs[2]) {
        (Resource::RadialGradient(a), Resource::RadialGradient(b)) => {
            assert_eq!(a.transform, b.transform);
            assert_eq!(a.units, Units::UserSpaceOnUse);
            assert_eq!(b.units, Units::UserSpaceOnUse);
            assert_eq!(a.id, first);
            assert_eq!(b.id, second);
        }
        _ => panic!("two radial gradients expected"),
    }
}

#[test]
fn user_space_server_is_left_alone() {
    let mut tree = Tree {
        defs: vec![Resource::LinearGradient(gradient("lg", Units::UserSpaceOnUse))],
    };
    let before = tree.clone();
    assert_eq!(paint_server_to_user_space_on_use("lg", the_box(), &mut tree), None);
    assert_eq!(tree, before);
}

#[test]
fn resource_that_is_no_paint_server_is_left_alone() {
    let mut tree = Tree { defs: vec![Resource::Other("clip".to_string())] };
    let before = tree.clone();
    assert_eq!(paint_server_to_user_space_on_use("clip", the_box(), &mut tree), None);
    assert_eq!(tree, before);
}

#[test]
fn pattern_is_copied_with_its_content() {
    let pattern = Pattern {
        id: "p".to_string(),
        units: Units::ObjectBoundingBox,
        transform: Transform::identity(),
        rect: Rect { x: 0, y: 0, width: 1, height: 1 },
        children: vec![tile()],
    };
    let mut tree = Tree {
        defs: vec![Resource::Other("usvg1".to_string()), Resource::Pattern(pattern.clone())],
    };
    let id = paint_server_to_user_space_on_use("p", the_box(), &mut tree);
    assert_eq!(id, Some("usvg2".to_string()));
    let expected = Pattern {
        id: "usvg2".to_string(),
        units: Units::UserSpaceOnUse,
        transform: Transform { a: 100, b: 0, c: 0, d: 50, e: 10, f: 20 },
        rect: pattern.rect,
        children: vec![tile()],
    };
    assert_eq!(tree.defs[2], Resource::Pattern(expected));
    assert_eq!(tree.defs[1], Resource::Pattern(pattern));
}

#[test]
fn first_server_under_an_id_is_the_one_promoted() {
    let mut tree = Tree {
        defs: vec![
            Resource::LinearGradient(gradient("g", Units::UserSpaceOnUse)),
            Resource::LinearGradient(gradient("g", Units::ObjectBoundingBox)),
        ],
    };
    assert_eq!(paint_server_to_user_space_on_use("g", the_box(), &mut tree), None);
    assert_eq!(tree.defs.len(), 2);
}

#[test]
fn deep_copy_equals_its_original() {
    let r = Resource::LinearGradient(gradient("lg", Units::ObjectBoundingBox));
    assert_eq!(r.make_deep_copy(), r);
    assert_eq!(r.id(), "lg");
    assert!(r.is_bbox_relative());
    let o = Resource::Other("x".to_string());
    assert_eq!(o.make_deep_copy(), o);
    assert!(!o.is_bbox_relative());
    assert_eq!(tile().duplicate(), tile());
}

#[test]
fn defs_by_id_finds_the_first_entry() {
    let tree = Tree {
        defs: vec![
            Resource::Other("a".to_string()),
            Resource::Other("b".to_string()),
            Resource::Other("a".to_string()),
        ],
    };
    assert_eq!(tree.defs_by_id("a"), Some(0));
    assert_eq!(tree.defs_by_id("b"), Some(1));
    assert_eq!(tree.defs_by_id("c"), None);
}

#[test]
fn fill_and_stroke_are_repointed() {
    let mut tree = Tree {
        defs: vec![
            Resource::LinearGradient(gradient("lg", Units::ObjectBoundingBox)),
            Resource::LinearGradient(gradient("us", Units::UserSpaceOnUse)),
        ],
    };
    let mut path = linked_path(Some("lg"), Some("lg"));
    fix_obj_bounding_box(&mut path, the_box(), &mut tree);
    assert_eq!(path, linked_path(Some("usvg1"), Some("usvg2")));
    assert_eq!(tree.defs.len(), 4);

    let mut path = linked_path(Some("us"), None);
    fix_obj_bounding_box(&mut path, the_box(), &mut tree);
    assert_eq!(path, linked_path(Some("us"), None));
    assert_eq!(tree.defs.len(), 4);

    let mut path = tile();
    fix_obj_bounding_box(&mut path, the_box(), &mut tree);
    assert_eq!(path, tile());
    assert_eq!(tree.defs.len(), 4);
}

#[test]
fn promoted_copy_maps_the_unit_square_onto_the_box() {
    let lg = Gradient {
        id: "lg1".to_string(),
        units: Units::ObjectBoundingBox,
        transform: Transform { a: 1, b: 0, c: 0, d: 1, e: 1, f: 0 },
        stops: vec![],
    };
    let mut tree = Tree { defs: vec![Resource::LinearGradient(lg)] };
    let bbox = Rect::new(10, 20, 30, 40).unwrap();
    let id = paint_server_to_user_space_on_use("lg1", bbox, &mut tree);
    assert_eq!(id, Some("usvg1".to_string()));
    match &tree.defs[1] {
        Resource::LinearGradient(copy) => {
            assert_eq!(copy.id, "usvg1");
            assert_eq!(copy.units, Units::UserSpaceOnUse);
            assert_eq!(copy.transform, Transform { a: 30, b: 0, c: 0, d: 40, e: 40, f: 20 });
            assert_eq!(copy.transform.apply(0, 0), (40, 20));
            assert_eq!(copy.transform.apply(1, 1), (70, 60));
        }
        _ => panic!("a linear gradient expected"),
    }
}

#[test]
fn first_unused_number_is_taken() {
    let tree = Tree {
        defs: vec![
            Resource::Other("usvg1".to_string()),
            Resource::Other("usvg2".to_string()),
            Resource::Other("usvg4".to_string()),
            Resource::Other("lg1".to_string()),
        ],
    };
    let before = tree.clone();
    assert_eq!(gen_paint_server_id(&tree), "usvg3");
    assert_eq!(tree, before);
}

#[test]
fn relinking_keeps_opacity_rule_and_width() {
    let mut tree = Tree {
        defs: vec![Resource::LinearGradient(gradient("lg", Units::ObjectBoundingBox))],
    };
    let mut path = tile();
    path.fill = Some(Fill { paint: Paint::Link("lg".to_string()), opacity: 17, rule: FillRule::EvenOdd });
    path.stroke = Some(Stroke { paint: Paint::Link("lg".to_string()), opacity: 99, width: 7 });
    fix_obj_bounding_box(&mut path, the_box(), &mut tree);
    assert_eq!(
        path.fill,
        Some(Fill { paint: Paint::Link("usvg1".to_string()), opacity: 17, rule: FillRule::EvenOdd })
    );
    assert_eq!(
        path.stroke,
        Some(Stroke { paint: Paint::Link("usvg2".to_string()), opacity: 99, width: 7 })
    );
}
