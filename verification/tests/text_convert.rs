use scene_core::geom::{PathSegment, Transform};
use scene_core::text::{convert, convert_decoration, convert_span, dump_cluster};
use scene_core::text_model::{
    CharShift, DecorationSpan, FontMetrics, OutlinedCluster, TextAnchor, TextChunk,
    TextDecoration, TextDecorationStyle, TextElement, TextSpan, WritingMode,
};
use scene_core::tree::{
    Color, Fill, FillRule, Gradient, Paint, Path, Resource, Stroke, Tree, Units, Visibility,
};

fn shape(byte_idx: usize, advance: i64) -> OutlinedCluster {
    OutlinedCluster {
        byte_idx,
        byte_end: byte_idx + 1,
        advance,
        ascent: 8,
        descent: -2,
        has_relative_shift: false,
        path: vec![
            PathSegment::MoveTo { x: 0, y: 0 },
            PathSegment::LineTo { x: 5, y: -10 },
            PathSegment::LineTo { x: advance, y: 0 },
            PathSegment::ClosePath,
        ],
        transform: Transform::identity(),
    }
}

fn shape_at(x: i64, advance: i64) -> Vec<PathSegment> {
    vec![
        PathSegment::MoveTo { x, y: 0 },
        PathSegment::LineTo { x: x + 5, y: -10 },
        PathSegment::LineTo { x: x + advance, y: 0 },
        PathSegment::ClosePath,
    ]
}

fn hollow(byte_idx: usize, advance: i64) -> OutlinedCluster {
    OutlinedCluster { path: vec![], ..shape(byte_idx, advance) }
}

fn black() -> Fill {
    Fill { paint: Paint::Color(Color::new(0, 0, 0)), opacity: 128, rule: FillRule::EvenOdd }
}

fn metrics() -> FontMetrics {
    FontMetrics { ascent: 8, x_height: 5, underline_position: -1, underline_thickness: 2 }
}

fn no_lines() -> TextDecoration {
    TextDecoration { underline: None, overline: None, line_through: None }
}

fn filled_span(start: usize, end: usize) -> TextSpan {
    TextSpan {
        start,
        end,
        fill: Some(black()),
        stroke: None,
        font: metrics(),
        decoration: no_lines(),
        baseline_shift: 0,
        visibility: Visibility::Visible,
    }
}

fn chunk(text: &str, spans: Vec<TextSpan>) -> TextChunk {
    TextChunk {
        x: None,
        y: None,
        anchor: TextAnchor::Start,
        letter_spacing: 0,
        word_spacing: 0,
        spans,
        text: text.to_string(),
    }
}

fn element(chunks: Vec<TextChunk>) -> TextElement {
    TextElement {
        transform: Transform::identity(),
        writing_mode: WritingMode::LeftToRight,
        chunks,
        shifts: vec![],
        rotations: vec![],
    }
}

fn glyphs(segments: Vec<PathSegment>, transform: Transform) -> Path {
    Path {
        id: String::new(),
        transform,
        visibility: Visibility::Visible,
        fill: Some(Fill { paint: Paint::Color(Color::new(0, 0, 0)), opacity: 128, rule: FillRule::NonZero }),
        stroke: None,
        segments,
    }
}

fn line(style: TextDecorationStyle, segments: Vec<PathSegment>, transform: Transform) -> Path {
    Path {
        id: String::new(),
        transform,
        visibility: Visibility::Visible,
        fill: style.fill,
        stroke: style.stroke,
        segments,
    }
}

fn bar(x: i64, y: i64, w: i64, h: i64) -> Vec<PathSegment> {
    vec![
        PathSegment::MoveTo { x, y },
        PathSegment::LineTo { x: x + w, y },
        PathSegment::LineTo { x: x + w, y: y + h },
        PathSegment::LineTo { x, y: y + h },
        PathSegment::ClosePath,
    ]
}

fn red_line() -> TextDecorationStyle {
    TextDecorationStyle {
        fill: Some(Fill { paint: Paint::Color(Color::red()), opacity: 255, rule: FillRule::NonZero }),
        stroke: None,
    }
}

fn blue_line() -> TextDecorationStyle {
    TextDecorationStyle {
        fill: None,
        stroke: Some(Stroke { paint: Paint::Color(Color::blue()), opacity: 255, width: 1 }),
    }
}

fn green_line() -> TextDecorationStyle {
    TextDecorationStyle {
        fill: Some(Fill { paint: Paint::Color(Color::new(0, 255, 0)), opacity: 255, rule: FillRule::NonZero }),
        stroke: None,
    }
}

fn convert_all(text: TextElement, shaped: Vec<Vec<OutlinedCluster>>, tree: &mut Tree) -> Vec<Path> {
    let mut parent = Vec::new();
    convert(text, shaped, &mut parent, tree);
    parent
}

#[test]
fn two_letters_two_spans() {
    let text = element(vec![chunk("AB", vec![filled_span(0, 1), filled_span(1, 2)])]);
    let shaped = vec![vec![shape(0, 10), shape(1, 10)]];
    let paths = convert_all(text, shaped, &mut Tree::new());
    assert_eq!(
        paths,
        vec![
            glyphs(shape_at(0, 10), Transform::identity()),
            glyphs(shape_at(10, 10), Transform::identity()),
        ]
    );
}

#[test]
fn next_chunk_starts_where_the_last_ended() {
    let text = element(vec![
        chunk("AB", vec![filled_span(0, 2)]),
        chunk("C", vec![filled_span(0, 1)]),
    ]);
    let shaped = vec![vec![shape(0, 10), shape(1, 10)], vec![shape(0, 10)]];
    let paths = convert_all(text, shaped, &mut Tree::new());
    let mut both = shape_at(0, 10);
    both.extend(shape_at(10, 10));
    assert_eq!(
        paths,
        vec![
            glyphs(both, Transform::identity()),
            // The first chunk is 20 wide.
            glyphs(shape_at(0, 10), Transform::new_translate(20, 0)),
        ]
    );
}

#[test]
fn paths_are_appended_to_the_parent() {
    let mut parent = vec![glyphs(vec![PathSegment::ClosePath], Transform::identity())];
    let text = element(vec![chunk("A", vec![filled_span(0, 1)])]);
    convert(text, vec![vec![shape(0, 10)]], &mut parent, &mut Tree::new());
    assert_eq!(
        parent,
        vec![
            glyphs(vec![PathSegment::ClosePath], Transform::identity()),
            glyphs(shape_at(0, 10), Transform::identity()),
        ]
    );
}

#[test]
fn anchor_moves_the_origin() {
    for (anchor, x) in [(TextAnchor::Start, 100), (TextAnchor::Middle, 90), (TextAnchor::End, 80)] {
        let mut c = chunk("AB", vec![filled_span(0, 2)]);
        c.x = Some(100);
        c.y = Some(50);
        c.anchor = anchor;
        let paths =
            convert_all(element(vec![c]), vec![vec![shape(0, 10), shape(1, 10)]], &mut Tree::new());
        assert_eq!(paths.len(), 1);
        assert_eq!(paths[0].transform, Transform::new_translate(x, 50));
    }
}

#[test]
fn top_to_bottom_turns_the_chunk() {
    let mut c = chunk("AB", vec![filled_span(0, 2)]);
    c.x = Some(100);
    c.y = Some(50);
    c.anchor = TextAnchor::End;
    let mut text = element(vec![c, chunk("C", vec![filled_span(0, 1)])]);
    text.writing_mode = WritingMode::TopToBottom;
    let shaped = vec![vec![shape(0, 10), shape(1, 10)], vec![shape(0, 10)]];
    let paths = convert_all(text, shaped, &mut Tree::new());
    // The anchor moves the origin along y: (100, 30). A quarter turn about it,
    // then the shift to it.
    let mut first = Transform::identity();
    first.rotate_quarter_at(100, 30);
    first.translate(100, 30);
    assert_eq!(first, Transform { a: 0, b: 1, c: -1, d: 0, e: 100, f: 30 });
    // The next chunk starts at (100 + 20, 30).
    let mut second = Transform::identity();
    second.rotate_quarter_at(120, 30);
    second.translate(120, 30);
    assert_eq!(paths.len(), 2);
    assert_eq!(paths[0].transform, first);
    assert_eq!(paths[1].transform, second);
    // The start of the line stays where the origin is; the line runs down.
    assert_eq!(paths[0].transform.apply(0, 0), (100, 30));
    assert_eq!(paths[0].transform.apply(20, 0), (100, 50));
}

#[test]
fn baseline_shift_raises_a_span() {
    let mut span = filled_span(0, 1);
    span.baseline_shift = 4;
    let mut c = chunk("A", vec![span]);
    c.y = Some(10);
    let paths = convert_all(element(vec![c]), vec![vec![shape(0, 10)]], &mut Tree::new());
    assert_eq!(paths[0].transform, Transform::new_translate(0, 6));
}

#[test]
fn element_transform_comes_first() {
    let mut c = chunk("A", vec![filled_span(0, 1)]);
    c.x = Some(3);
    c.y = Some(4);
    let mut text = element(vec![c]);
    text.transform = Transform { a: 2, b: 0, c: 0, d: 2, e: 1, f: 1 };
    let paths = convert_all(text, vec![vec![shape(0, 10)]], &mut Tree::new());
    assert_eq!(paths[0].transform, Transform { a: 2, b: 0, c: 0, d: 2, e: 7, f: 9 });
}

#[test]
fn decorations_are_stacked_around_the_glyphs() {
    let mut span = filled_span(0, 2);
    span.decoration = TextDecoration {
        underline: Some(red_line()),
        overline: Some(blue_line()),
        line_through: Some(green_line()),
    };
    let text = element(vec![chunk("AB", vec![span])]);
    let paths = convert_all(text, vec![vec![shape(0, 10), shape(1, 10)]], &mut Tree::new());
    let mut both = shape_at(0, 10);
    both.extend(shape_at(10, 10));
    let id = Transform::identity();
    assert_eq!(
        paths,
        vec![
            // Below the baseline by the underline position: -(-1) = 1.
            line(red_line(), bar(0, 1, 20, 2), id),
            // Above it by the ascent.
            line(blue_line(), bar(0, -8, 20, 2), id),
            glyphs(both, id),
            // Above it by half the x-height, rounded towards zero.
            line(green_line(), bar(0, -2, 20, 2), id),
        ]
    );
}

#[test]
fn decoration_without_glyph_outline() {
    let mut span = filled_span(0, 1);
    span.decoration.underline = Some(red_line());
    let text = element(vec![chunk(" ", vec![span])]);
    let paths = convert_all(text, vec![vec![hollow(0, 4)]], &mut Tree::new());
    assert_eq!(paths, vec![line(red_line(), bar(0, 1, 4, 2), Transform::identity())]);
}

#[test]
fn span_without_clusters_draws_nothing() {
    let mut span = filled_span(5, 9);
    span.decoration.underline = Some(red_line());
    let text = element(vec![chunk("A", vec![span])]);
    let paths = convert_all(text, vec![vec![shape(0, 10)]], &mut Tree::new());
    assert_eq!(paths, vec![]);
}

#[test]
fn chunk_without_clusters_is_skipped() {
    let mut empty = chunk("", vec![filled_span(0, 0)]);
    empty.x = Some(7);
    empty.y = Some(9);
    let text = element(vec![empty, chunk("A", vec![filled_span(0, 1)])]);
    let paths = convert_all(text, vec![vec![], vec![shape(0, 10)]], &mut Tree::new());
    // Nothing is drawn for the first chunk, but the origin moves to where it says.
    assert_eq!(paths, vec![glyphs(shape_at(0, 10), Transform::new_translate(7, 9))]);

    let text = element(vec![chunk("A", vec![filled_span(0, 1)])]);
    assert_eq!(convert_all(text, vec![], &mut Tree::new()), vec![]);
    assert_eq!(convert_all(element(vec![]), vec![], &mut Tree::new()), vec![]);
}

#[test]
fn spacing_widens_the_chunk() {
    let mut c = chunk("a b", vec![filled_span(0, 3)]);
    c.letter_spacing = 1;
    c.word_spacing = 5;
    let text = element(vec![c, chunk("c", vec![filled_span(0, 1)])]);
    let shaped = vec![vec![shape(0, 10), hollow(1, 4), shape(2, 10)], vec![shape(0, 10)]];
    let paths = convert_all(text, shaped, &mut Tree::new());
    let mut both = shape_at(0, 11);
    // 10 + 1, then 4 + 1 + 5.
    both.extend(vec![
        PathSegment::MoveTo { x: 21, y: 0 },
        PathSegment::LineTo { x: 26, y: -10 },
        PathSegment::LineTo { x: 31, y: 0 },
        PathSegment::ClosePath,
    ]);
    both[2] = PathSegment::LineTo { x: 10, y: 0 };
    assert_eq!(paths[0].segments, both);
    // 11 + 10 + 11 wide.
    assert_eq!(paths[1].transform, Transform::new_translate(32, 0));
}

#[test]
fn shifts_count_characters_across_chunks() {
    let mut text = element(vec![
        chunk("é", vec![filled_span(0, 2)]),
        chunk("b", vec![filled_span(0, 1)]),
    ]);
    text.shifts = vec![CharShift { dx: None, dy: None }, CharShift { dx: Some(3), dy: Some(2) }];
    let shaped = vec![vec![shape(0, 10)], vec![shape(0, 10)]];
    let paths = convert_all(text, shaped, &mut Tree::new());
    assert_eq!(paths[0].segments, shape_at(0, 10));
    assert_eq!(
        paths[1].segments,
        vec![
            PathSegment::MoveTo { x: 3, y: 2 },
            PathSegment::LineTo { x: 8, y: -8 },
            PathSegment::LineTo { x: 13, y: 2 },
            PathSegment::ClosePath,
        ]
    );
}

#[test]
fn bbox_relative_paint_is_promoted_for_the_glyph_bounds() {
    let lg = Gradient {
        id: "lg".to_string(),
        units: Units::ObjectBoundingBox,
        transform: Transform::identity(),
        stops: vec![],
    };
    let mut tree = Tree { defs: vec![Resource::LinearGradient(lg.clone())] };
    let mut span = filled_span(0, 2);
    span.fill = Some(Fill { paint: Paint::Link("lg".to_string()), opacity: 255, rule: FillRule::EvenOdd });
    span.decoration.underline = Some(TextDecorationStyle {
        fill: Some(Fill { paint: Paint::Link("lg".to_string()), opacity: 255, rule: FillRule::EvenOdd }),
        stroke: None,
    });
    let text = element(vec![chunk("AB", vec![span])]);
    let paths = convert_all(text, vec![vec![shape(0, 10), shape(1, 10)]], &mut tree);
    assert_eq!(paths.len(), 2);
    // The underline keeps its rule; glyphs are always filled by the nonzero rule.
    assert_eq!(
        paths[0].fill,
        Some(Fill { paint: Paint::Link("usvg1".to_string()), opacity: 255, rule: FillRule::EvenOdd })
    );
    assert_eq!(
        paths[1].fill,
        Some(Fill { paint: Paint::Link("usvg2".to_string()), opacity: 255, rule: FillRule::NonZero })
    );
    // The glyph outlines span x 0..20 and y -10..0; the underline does not count.
    let copy = Gradient {
        id: "usvg1".to_string(),
        units: Units::UserSpaceOnUse,
        transform: Transform { a: 20, b: 0, c: 0, d: 10, e: 0, f: -10 },
        stops: vec![],
    };
    let second = Gradient { id: "usvg2".to_string(), ..copy.clone() };
    assert_eq!(
        tree.defs,
        vec![
            Resource::LinearGradient(lg),
            Resource::LinearGradient(copy),
            Resource::LinearGradient(second),
        ]
    );
}

#[test]
fn paint_is_left_alone_without_glyph_bounds() {
    let lg = Gradient {
        id: "lg".to_string(),
        units: Units::ObjectBoundingBox,
        transform: Transform::identity(),
        stops: vec![],
    };
    let mut tree = Tree { defs: vec![Resource::LinearGradient(lg)] };
    let before = tree.clone();
    let mut span = filled_span(0, 1);
    let linked = TextDecorationStyle {
        fill: Some(Fill { paint: Paint::Link("lg".to_string()), opacity: 255, rule: FillRule::NonZero }),
        stroke: None,
    };
    span.decoration.line_through = Some(linked.clone());
    let text = element(vec![chunk(" ", vec![span])]);
    let paths = convert_all(text, vec![vec![hollow(0, 4)]], &mut tree);
    assert_eq!(paths, vec![line(linked, bar(0, -2, 4, 2), Transform::identity())]);
    assert_eq!(tree, before);
}

#[test]
fn convert_span_takes_outlines_and_paint() {
    let mut span = filled_span(1, 3);
    span.stroke = Some(Stroke { paint: Paint::Color(Color::red()), opacity: 255, width: 3 });
    span.visibility = Visibility::Hidden;
    let mut clusters = vec![
        shape(0, 10),
        OutlinedCluster { transform: Transform::new_translate(10, 0), ..shape(1, 10) },
        OutlinedCluster { transform: Transform::new_translate(20, 1), ..shape(2, 10) },
    ];
    let ts = Transform::new_translate(1, 2);
    let mut parent = Vec::new();
    let path = convert_span(&mut span, &mut clusters, &ts, &mut parent, false).unwrap();
    let mut segments = shape_at(10, 10);
    segments.extend(vec![
        PathSegment::MoveTo { x: 20, y: 1 },
        PathSegment::LineTo { x: 25, y: -9 },
        PathSegment::LineTo { x: 30, y: 1 },
        PathSegment::ClosePath,
    ]);
    assert_eq!(
        path,
        Path {
            id: String::new(),
            transform: ts,
            visibility: Visibility::Hidden,
            fill: Some(Fill { paint: Paint::Color(Color::new(0, 0, 0)), opacity: 128, rule: FillRule::NonZero }),
            stroke: Some(Stroke { paint: Paint::Color(Color::red()), opacity: 255, width: 3 }),
            segments,
        }
    );
    assert_eq!(span.fill, None);
    assert_eq!(span.stroke, None);
    assert_eq!(clusters[0].path, shape(0, 10).path);
    assert_eq!(clusters[1].path, vec![]);
    assert_eq!(clusters[2].path, vec![]);
    assert_eq!(parent, vec![]);
    // What is taken is gone: the same span has nothing left to draw.
    span.fill = Some(black());
    assert_eq!(convert_span(&mut span, &mut clusters, &ts, &mut parent, false), None);
    assert_eq!(span.fill, Some(black()));
}

#[test]
fn convert_span_dumps_clusters_on_demand() {
    let mut span = filled_span(0, 1);
    let mut clusters = vec![
        OutlinedCluster { transform: Transform::new_translate(0, 5), ..shape(0, 10) },
        shape(1, 10),
    ];
    let ts = Transform::new_translate(100, 0);
    let mut parent = Vec::new();
    let path = convert_span(&mut span, &mut clusters, &ts, &mut parent, true);
    assert!(path.is_some());
    let mut expected = Vec::new();
    dump_cluster(
        &OutlinedCluster { path: vec![], ..shape(0, 10) },
        Transform::new_translate(100, 5),
        &mut expected,
    );
    assert_eq!(parent, expected);
    assert_eq!(parent.len(), 2);
}

#[test]
fn dump_cluster_draws_box_and_baseline() {
    let mut parent = Vec::new();
    let ts = Transform::new_translate(3, 4);
    dump_cluster(&shape(0, 10), ts, &mut parent);
    let outline = |color: Color, segments: Vec<PathSegment>| Path {
        id: String::new(),
        transform: ts,
        visibility: Visibility::Visible,
        fill: None,
        stroke: Some(Stroke { paint: Paint::Color(color), opacity: 255, width: 1 }),
        segments,
    };
    assert_eq!(
        parent,
        vec![
            outline(Color::new(0, 0, 255), bar(0, -8, 10, 10)),
            outline(
                Color::new(255, 0, 0),
                vec![PathSegment::MoveTo { x: 0, y: 0 }, PathSegment::LineTo { x: 10, y: 0 }]
            ),
        ]
    );
}

#[test]
fn convert_decoration_draws_one_bar_for_each_run() {
    let mut span = filled_span(0, 4);
    span.visibility = Visibility::Collapse;
    let runs = vec![
        DecorationSpan { width: 21, transform: Transform::new_translate(0, 0) },
        DecorationSpan { width: 25, transform: Transform::new_translate(40, 5) },
    ];
    let ts = Transform::new_translate(9, 9);
    let path = convert_decoration(-3, &span, blue_line(), &runs, ts);
    let mut segments = bar(0, -3, 21, 2);
    segments.extend(bar(40, 2, 25, 2));
    assert_eq!(
        path,
        Path {
            id: String::new(),
            transform: ts,
            visibility: Visibility::Collapse,
            fill: None,
            stroke: Some(Stroke { paint: Paint::Color(Color::blue()), opacity: 255, width: 1 }),
            segments,
        }
    );
    let none = convert_decoration(0, &span, red_line(), &vec![], ts);
    assert_eq!(none.segments, vec![]);
}
