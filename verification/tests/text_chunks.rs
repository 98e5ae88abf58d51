use scene_core::geom::{PathSegment, Transform};
use scene_core::text::convert;
use scene_core::text_chunks::{
    collect_text_chunks, prepare, resolve_positions_list, resolve_rotate_list, shifts_of,
    CharPosition, PositionList, TextRun,
};
use scene_core::text_model::{
    CharShift, FontMetrics, OutlinedCluster, Rotation, TextAnchor, TextChunk, TextDecoration,
    TextSpan, WritingMode,
};
use scene_core::tree::{Color, Fill, FillRule, Paint, Tree, Visibility};

fn nowhere() -> CharPosition {
    CharPosition { x: None, y: None, dx: None, dy: None }
}

fn list(first_char: usize, chars: usize) -> PositionList {
    PositionList { first_char, chars, x: vec![], y: vec![], dx: vec![], dy: vec![], rotate: vec![] }
}

fn styled(start: usize, end: usize, red: u8) -> TextSpan {
    TextSpan {
        start,
        end,
        fill: Some(Fill { paint: Paint::Color(Color::new(red, 0, 0)), opacity: 255, rule: FillRule::NonZero }),
        stroke: None,
        font: FontMetrics { ascent: 8, x_height: 5, underline_position: -1, underline_thickness: 1 },
        decoration: TextDecoration { underline: None, overline: None, line_through: None },
        baseline_shift: 0,
        visibility: Visibility::Visible,
    }
}

fn run(start: usize, end: usize, red: u8, anchor: TextAnchor) -> TextRun {
    TextRun { anchor, letter_spacing: red as i64, word_spacing: 2 * red as i64, span: styled(start, end, red) }
}

fn placed_at(x: Option<i64>, y: Option<i64>) -> CharPosition {
    CharPosition { x, y, dx: None, dy: None }
}

#[test]
fn positions_come_from_the_lists() {
    let outer = PositionList { x: vec![10, 20], dy: vec![1, 2, 3, 4, 5, 6], ..list(0, 5) };
    let inner = PositionList { x: vec![99], y: vec![7], dx: vec![-1], ..list(1, 2) };
    let r = resolve_positions_list(&vec![outer, inner], 5);
    assert_eq!(
        r,
        vec![
            CharPosition { x: Some(10), y: None, dx: None, dy: Some(1) },
            // The element that is read later overrides the one before.
            CharPosition { x: Some(99), y: Some(7), dx: Some(-1), dy: Some(2) },
            CharPosition { x: None, y: None, dx: None, dy: Some(3) },
            CharPosition { x: None, y: None, dx: None, dy: Some(4) },
            CharPosition { x: None, y: None, dx: None, dy: Some(5) },
        ]
    );
}

#[test]
fn positions_stay_within_element_and_text() {
    // Three values for an element of two characters: the third is not used.
    let short = PositionList { x: vec![1, 2, 3], ..list(1, 2) };
    assert_eq!(
        resolve_positions_list(&vec![short], 4),
        vec![nowhere(), placed_at(Some(1), None), placed_at(Some(2), None), nowhere()]
    );
    // An element that reaches beyond the text.
    let long = PositionList { y: vec![1, 2, 3], ..list(1, usize::MAX) };
    assert_eq!(
        resolve_positions_list(&vec![long], 2),
        vec![nowhere(), placed_at(None, Some(1))]
    );
    let beyond = PositionList { y: vec![1], ..list(7, 1) };
    assert_eq!(resolve_positions_list(&vec![beyond], 2), vec![nowhere(), nowhere()]);
    assert_eq!(resolve_positions_list(&vec![], 2), vec![nowhere(), nowhere()]);
    assert_eq!(resolve_positions_list(&vec![list(0, 3)], 0), vec![]);
}

#[test]
fn last_rotation_holds_for_the_rest_of_the_element() {
    let outer = PositionList { rotate: vec![Some(Rotation::Quarter), None], ..list(0, 4) };
    assert_eq!(
        resolve_rotate_list(&vec![outer.clone()], 5),
        vec![Some(Rotation::Quarter), None, None, None, None]
    );
    let inner = PositionList { rotate: vec![Some(Rotation::Half)], ..list(2, 2) };
    assert_eq!(
        resolve_rotate_list(&vec![outer, inner, list(0, 5)], 5),
        vec![Some(Rotation::Quarter), None, Some(Rotation::Half), Some(Rotation::Half), None]
    );
}

#[test]
fn shifts_are_the_relative_part() {
    let positions = vec![
        CharPosition { x: Some(1), y: Some(2), dx: Some(3), dy: None },
        CharPosition { x: None, y: None, dx: None, dy: Some(4) },
    ];
    assert_eq!(
        shifts_of(&positions),
        vec![CharShift { dx: Some(3), dy: None }, CharShift { dx: None, dy: Some(4) }]
    );
}

#[test]
fn text_without_places_is_one_chunk() {
    let runs = vec![run(0, 2, 1, TextAnchor::Middle), run(2, 5, 2, TextAnchor::End)];
    let chunks = collect_text_chunks("abcde", &runs, &vec![]);
    assert_eq!(
        chunks,
        vec![TextChunk {
            x: None,
            y: None,
            anchor: TextAnchor::Middle,
            letter_spacing: 1,
            word_spacing: 2,
            spans: vec![styled(0, 2, 1), styled(2, 5, 2)],
            text: "abcde".to_string(),
        }]
    );
    assert_eq!(collect_text_chunks("", &runs, &vec![]), vec![]);
}

#[test]
fn chunk_starts_where_a_character_names_a_place() {
    let runs = vec![run(0, 2, 1, TextAnchor::Middle), run(2, 5, 2, TextAnchor::End)];
    let positions = vec![
        placed_at(Some(5), Some(6)),
        CharPosition { x: None, y: None, dx: Some(9), dy: Some(9) },
        nowhere(),
        placed_at(None, Some(30)),
    ];
    let chunks = collect_text_chunks("abcde", &runs, &positions);
    assert_eq!(
        chunks,
        vec![
            TextChunk {
                x: Some(5),
                y: Some(6),
                anchor: TextAnchor::Middle,
                letter_spacing: 1,
                word_spacing: 2,
                // The second run is cut where the next chunk starts.
                spans: vec![styled(0, 2, 1), styled(2, 3, 2)],
                text: "abc".to_string(),
            },
            TextChunk {
                x: None,
                y: Some(30),
                anchor: TextAnchor::End,
                letter_spacing: 2,
                word_spacing: 4,
                spans: vec![styled(0, 2, 2)],
                text: "de".to_string(),
            },
        ]
    );
}

#[test]
fn chunks_are_cut_between_characters() {
    // "é" takes two bytes and "€" three: the characters start at 0, 2, 5, 6.
    let runs = vec![run(0, 6, 3, TextAnchor::Start)];
    let positions = vec![nowhere(), placed_at(Some(1), None), nowhere(), placed_at(Some(2), None)];
    let chunks = collect_text_chunks("é€ab", &runs, &positions);
    let texts: Vec<&str> = chunks.iter().map(|c| c.text.as_str()).collect();
    assert_eq!(texts, vec!["é", "€a", "b"]);
    assert_eq!(chunks[0].spans, vec![styled(0, 2, 3)]);
    assert_eq!(chunks[1].spans, vec![styled(0, 4, 3)]);
    // No run holds the last character.
    assert_eq!(chunks[2].spans, vec![]);
    assert_eq!(chunks[2].anchor, TextAnchor::Start);
    assert_eq!(chunks[2].letter_spacing, 0);
    assert_eq!(chunks[2].x, Some(2));
}

#[test]
fn prepared_element_is_laid_out() {
    let runs = vec![run(0, 4, 0, TextAnchor::Start)];
    let lists = vec![
        PositionList { x: vec![100], y: vec![50], ..list(0, 4) },
        PositionList { x: vec![300], dx: vec![0, 5], rotate: vec![None, Some(Rotation::Quarter)], ..list(2, 2) },
    ];
    let text = prepare("ABCD", &runs, &lists, Transform::identity(), WritingMode::LeftToRight);
    let chunks: Vec<&str> = text.chunks.iter().map(|c| c.text.as_str()).collect();
    assert_eq!(chunks, vec!["AB", "CD"]);
    assert_eq!(text.chunks[0].x, Some(100));
    assert_eq!(text.chunks[0].y, Some(50));
    assert_eq!(text.chunks[1].x, Some(300));
    assert_eq!(text.chunks[1].y, None);
    assert_eq!(
        text.shifts,
        vec![
            CharShift { dx: None, dy: None },
            CharShift { dx: None, dy: None },
            CharShift { dx: Some(0), dy: None },
            CharShift { dx: Some(5), dy: None },
        ]
    );
    assert_eq!(text.rotations, vec![None, None, None, Some(Rotation::Quarter)]);

    let dot = |byte_idx: usize| OutlinedCluster {
        byte_idx,
        byte_end: byte_idx + 1,
        advance: 10,
        ascent: 8,
        descent: -2,
        has_relative_shift: false,
        path: vec![PathSegment::MoveTo { x: 0, y: 0 }, PathSegment::LineTo { x: 1, y: 0 }],
        transform: Transform::identity(),
    };
    let shaped = vec![vec![dot(0), dot(1)], vec![dot(0), dot(1)]];
    let mut parent = Vec::new();
    convert(text, shaped, &mut parent, &mut Tree::new());
    assert_eq!(parent.len(), 2);
    assert_eq!(parent[0].transform, Transform::new_translate(100, 50));
    assert_eq!(parent[1].transform, Transform::new_translate(300, 50));
    assert_eq!(
        parent[0].segments,
        vec![
            PathSegment::MoveTo { x: 0, y: 0 },
            PathSegment::LineTo { x: 1, y: 0 },
            PathSegment::MoveTo { x: 10, y: 0 },
            PathSegment::LineTo { x: 11, y: 0 },
        ]
    );
    // "D" is shifted by 5 and turned by a right angle where it stands.
    assert_eq!(
        parent[1].segments,
        vec![
            PathSegment::MoveTo { x: 0, y: 0 },
            PathSegment::LineTo { x: 1, y: 0 },
            PathSegment::MoveTo { x: 15, y: 0 },
            PathSegment::LineTo { x: 15, y: 1 },
        ]
    );
}
