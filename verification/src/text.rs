//! Text to paths: decoration lines, glyph outlines, and the whole element.

use vstd::prelude::*;
use crate::geom::{
    path_bbox, merge_opt, path_bounds, rect_to_path, transform_path, union_opt, Bounds,
    PathSegment, Rect, Transform,
};
use crate::normalize::{
    defs_after_path, fix_obj_bounding_box, grown_registry_keeps_links, links_resolve,
    paint_resolves, relink_keeps_registry, relinked_path,
};
use crate::scalar::{add_spec, half_spec, neg_spec, sub_spec, half, sat_add, sat_neg, sat_sub};
use crate::text_layout::{
    anchor_offset, apply_letter_spacing, apply_word_spacing, capped, chunk_width,
    collect_decoration_spans, decoration_runs, letter_spaced, positioned, process_anchor,
    resolve_clusters_positions, word_spaced, Overrides,
};
use crate::text_model::{
    clusters_view, shaped_view, spans_view, style_view, CharShift, ChunkView,
    ClusterView, DecorationSpan, DecorationStyleView, OutlinedCluster, Rotation, SpanView,
    TextChunk, TextDecorationStyle, TextElement, TextSpan, TextView, WritingMode,
};
use vstd::string::StrSliceExecFns;
use crate::tree::{
    ids_distinct, paths_view, Color, Fill, FillRule, FillView, Paint, PaintView, Path, PathView,
    ResourceView, Stroke, StrokeView, Tree, Visibility,
};

verus! {

/// The rectangle of one decoration run, `thickness` high, moved by `dy`
/// across the line and put in the place of the run.
pub open spec fn run_outline(run: DecorationSpan, dy: i64, thickness: i64) -> Seq<PathSegment> {
    run.transform.translated(0, dy).apply_path(
        Rect { x: 0, y: 0, width: run.width, height: thickness }.outline(),
    )
}

/// The rectangles of the first `k` decoration runs, one after the other.
pub open spec fn runs_outline(runs: Seq<DecorationSpan>, dy: i64, thickness: i64, k: int) -> Seq<
    PathSegment,
>
    decreases k,
{
    if k <= 0 || k > runs.len() {
        Seq::empty()
    } else {
        runs_outline(runs, dy, thickness, k - 1) + run_outline(runs[k - 1], dy, thickness)
    }
}

/// The path of one decoration line of a span: a rectangle for each run, as
/// high as the font's decoration thickness, painted as the decoration says.
pub open spec fn decoration_path(
    dy: i64,
    span: SpanView,
    style: DecorationStyleView,
    runs: Seq<DecorationSpan>,
    transform: Transform,
) -> PathView {
    PathView {
        id: Seq::empty(),
        transform,
        visibility: span.visibility,
        fill: style.fill,
        stroke: style.stroke,
        segments: runs_outline(runs, dy, span.font.underline_thickness, runs.len() as int),
    }
}

/// Builds the path of one decoration line of a span.
pub fn convert_decoration(
    dy: i64,
    span: &TextSpan,
    decoration: TextDecorationStyle,
    decoration_spans: &Vec<DecorationSpan>,
    transform: Transform,
) -> (path: Path)
    ensures
        path@ == decoration_path(dy, span@, decoration@, decoration_spans@, transform),
{
    let thickness = span.font.underline_thickness;
    let mut segments: Vec<PathSegment> = Vec::new();
    let mut i: usize = 0;
    while i < decoration_spans.len()
        invariant
            i <= decoration_spans.len(),
            thickness == span.font.underline_thickness,
            segments@ == runs_outline(decoration_spans@, dy, thickness, i as int),
        decreases decoration_spans.len() - i,
    {
        let run = decoration_spans[i];
        let rect = Rect { x: 0, y: 0, width: run.width, height: thickness };
        let mut outline = rect_to_path(rect);
        let mut ts = run.transform;
        ts.translate(0, dy);
        transform_path(&mut outline, &ts);
        segments.append(&mut outline);
        i += 1;
    }
    let TextDecorationStyle { fill, stroke } = decoration;
    Path {
        id: String::new(),
        transform,
        visibility: span.visibility,
        fill,
        stroke,
        segments,
    }
}

/// The stroke of a debug outline: opaque and one unit wide, in the given
/// colour.
pub open spec fn debug_stroke(color: Color) -> StrokeView {
    StrokeView { paint: PaintView::Color(color), opacity: 255, width: 1 }
}

/// The two debug outlines of a cluster: its box, from the ascent down and
/// as wide as the advance, in blue; and its baseline in red.
pub open spec fn cluster_outlines(c: ClusterView, ts: Transform) -> Seq<PathView> {
    seq![
        PathView {
            id: Seq::empty(),
            transform: ts,
            visibility: Visibility::Visible,
            fill: None,
            stroke: Some(debug_stroke(Color { red: 0, green: 0, blue: 255 })),
            segments: Rect {
                x: 0,
                y: neg_spec(c.ascent),
                width: c.advance,
                height: c.height(),
            }.outline(),
        },
        PathView {
            id: Seq::empty(),
            transform: ts,
            visibility: Visibility::Visible,
            fill: None,
            stroke: Some(debug_stroke(Color { red: 255, green: 0, blue: 0 })),
            segments: seq![
                PathSegment::MoveTo { x: 0, y: 0 },
                PathSegment::LineTo { x: c.advance, y: 0 },
            ],
        },
    ]
}

/// Appends the debug outlines of a cluster to `parent`.
pub fn dump_cluster(cluster: &OutlinedCluster, text_ts: Transform, parent: &mut Vec<Path>)
    ensures
        paths_view(final(parent)@) == paths_view(old(parent)@) + cluster_outlines(
            cluster@,
            text_ts,
        ),
{
    let r = Rect {
        x: 0,
        y: sat_neg(cluster.ascent),
        width: cluster.advance,
        height: cluster.height(),
    };
    let frame = Path {
        id: String::new(),
        transform: text_ts,
        visibility: Visibility::Visible,
        fill: None,
        stroke: Some(Stroke { paint: Paint::Color(Color::blue()), opacity: 255, width: 1 }),
        segments: rect_to_path(r),
    };
    let mut line: Vec<PathSegment> = Vec::new();
    line.push(PathSegment::MoveTo { x: 0, y: 0 });
    line.push(PathSegment::LineTo { x: cluster.advance, y: 0 });
    let baseline = Path {
        id: String::new(),
        transform: text_ts,
        visibility: Visibility::Visible,
        fill: None,
        stroke: Some(Stroke { paint: Paint::Color(Color::red()), opacity: 255, width: 1 }),
        segments: line,
    };
    assert(baseline@.segments =~= cluster_outlines(cluster@, text_ts)[1].segments);
    parent.push(frame);
    parent.push(baseline);
    assert(paths_view(parent@) =~= paths_view(old(parent)@) + cluster_outlines(cluster@, text_ts));
}

/// The outlines of those of the first `k` clusters that the span covers,
/// each put in its place, one after the other.
pub open spec fn glyph_segments(span: SpanView, clusters: Seq<ClusterView>, k: int) -> Seq<
    PathSegment,
>
    decreases k,
{
    if k <= 0 || k > clusters.len() {
        Seq::empty()
    } else {
        let c = clusters[k - 1];
        glyph_segments(span, clusters, k - 1) + if span.contains(c.byte_idx) {
            c.transform.apply_path(c.path)
        } else {
            Seq::empty()
        }
    }
}

/// The debug outlines of those of the first `k` clusters that the span
/// covers.
pub open spec fn debug_paths(
    span: SpanView,
    clusters: Seq<ClusterView>,
    text_ts: Transform,
    k: int,
) -> Seq<PathView>
    decreases k,
{
    if k <= 0 || k > clusters.len() {
        Seq::empty()
    } else {
        let c = clusters[k - 1];
        debug_paths(span, clusters, text_ts, k - 1) + if span.contains(c.byte_idx) {
            cluster_outlines(c, text_ts.after(c.transform))
        } else {
            Seq::empty()
        }
    }
}

/// The clusters after the span took the outlines of those that it covers.
pub open spec fn emptied(span: SpanView, clusters: Seq<ClusterView>) -> Seq<ClusterView> {
    Seq::new(
        clusters.len(),
        |i: int|
            if span.contains(clusters[i].byte_idx) {
                ClusterView { path: Seq::empty(), ..clusters[i] }
            } else {
                clusters[i]
            },
    )
}

/// A fill with the rule that keeps overlapping glyphs from cancelling.
pub open spec fn nonzero(fill: Option<FillView>) -> Option<FillView> {
    match fill {
        Some(f) => Some(FillView { rule: FillRule::NonZero, ..f }),
        None => None,
    }
}

/// The glyph path of a span: the outlines of its clusters, painted as the
/// span says; none where its clusters have no outline.
pub open spec fn glyph_path(span: SpanView, clusters: Seq<ClusterView>, text_ts: Transform) -> Option<
    PathView,
> {
    let segments = glyph_segments(span, clusters, clusters.len() as int);
    if segments.len() == 0 {
        None
    } else {
        Some(
            PathView {
                id: Seq::empty(),
                transform: text_ts,
                visibility: span.visibility,
                fill: nonzero(span.fill),
                stroke: span.stroke,
                segments,
            },
        )
    }
}

/// The view of an optional path.
pub open spec fn path_view(p: Option<Path>) -> Option<PathView> {
    match p {
        Some(p) => Some(p@),
        None => None,
    }
}

/// Builds the glyph path of a span and takes the outlines out of the
/// clusters that it covers. Where a path comes out, the fill and the stroke
/// of the span move into it. With `dump_clusters`, the debug outlines of
/// the covered clusters are appended to `parent`.
pub fn convert_span(
    span: &mut TextSpan,
    clusters: &mut Vec<OutlinedCluster>,
    text_ts: &Transform,
    parent: &mut Vec<Path>,
    dump_clusters: bool,
) -> (r: Option<Path>)
    ensures
        path_view(r) == glyph_path(old(span)@, clusters_view(old(clusters)@), *text_ts),
        clusters_view(final(clusters)@) == emptied(old(span)@, clusters_view(old(clusters)@)),
        final(span)@ == if r is Some {
            SpanView { fill: None, stroke: None, ..old(span)@ }
        } else {
            old(span)@
        },
        paths_view(final(parent)@) == paths_view(old(parent)@) + if dump_clusters {
            debug_paths(
                old(span)@,
                clusters_view(old(clusters)@),
                *text_ts,
                old(clusters)@.len() as int,
            )
        } else {
            Seq::<PathView>::empty()
        },
{
    let ghost before = clusters_view(old(clusters)@);
    let ghost parent_before = paths_view(old(parent)@);
    let mut segments: Vec<PathSegment> = Vec::new();
    let n = clusters.len();
    let mut i: usize = 0;
    while i < n
        invariant
            i <= n,
            clusters@.len() == n,
            old(clusters)@.len() == n,
            before == clusters_view(old(clusters)@),
            parent_before == paths_view(old(parent)@),
            *span == *old(span),
            segments@ == glyph_segments(span@, before, i as int),
            forall|k: int| 0 <= k < i ==> (#[trigger] clusters@[k])@ == emptied(span@, before)[k],
            forall|k: int| i <= k < n ==> clusters@[k] == old(clusters)@[k],
            paths_view(parent@) == parent_before + if dump_clusters {
                debug_paths(span@, before, *text_ts, i as int)
            } else {
                Seq::<PathView>::empty()
            },
        decreases n - i,
    {
        assert(before[i as int] == clusters@[i as int]@);
        if span.contains(clusters[i].byte_idx) {
            if dump_clusters {
                let mut ts = *text_ts;
                ts.append(&clusters[i].transform);
                let ghost shown = paths_view(parent@);
                dump_cluster(&clusters[i], ts, parent);
                assert(shown + cluster_outlines(clusters@[i as int]@, ts) =~= parent_before
                    + debug_paths(span@, before, *text_ts, i as int + 1));
            }
            let ts = clusters[i].transform;
            transform_path(&mut clusters[i].path, &ts);
            segments.append(&mut clusters[i].path);
        } else {
            assert(paths_view(parent@) =~= parent_before + if dump_clusters {
                debug_paths(span@, before, *text_ts, i as int + 1)
            } else {
                Seq::<PathView>::empty()
            });
            assert(segments@ =~= glyph_segments(span@, before, i as int + 1));
        }
        i += 1;
    }
    assert(clusters_view(clusters@) =~= emptied(span@, before));
    if segments.len() == 0 {
        return None;
    }
    let fill = match span.fill.take() {
        // Overlapping glyphs would cancel one another under any other rule.
        Some(f) => Some(Fill { paint: f.paint, opacity: f.opacity, rule: FillRule::NonZero }),
        None => None,
    };
    let stroke = span.stroke.take();
    Some(
        Path {
            id: String::new(),
            transform: *text_ts,
            visibility: span.visibility,
            fill,
            stroke,
            segments,
        },
    )
}

/// The transform of the paths of a span: that of the chunk, moved to the
/// origin of the chunk and up by the baseline shift of the span.
pub open spec fn span_transform(chunk_ts: Transform, x: i64, y: i64, span: SpanView) -> Transform {
    chunk_ts.translated(x, sub_spec(y, span.baseline_shift))
}

/// The path of one decoration line, where the span has that line and at
/// least one run to draw it on.
pub open spec fn decoration_part(
    style: Option<DecorationStyleView>,
    dy: i64,
    span: SpanView,
    runs: Seq<DecorationSpan>,
    ts: Transform,
) -> Seq<PathView> {
    match style {
        Some(s) => if runs.len() > 0 {
            seq![decoration_path(dy, span, s, runs, ts)]
        } else {
            Seq::empty()
        },
        None => Seq::empty(),
    }
}

/// The glyph path of a span, where it has one.
pub open spec fn glyph_part(span: SpanView, clusters: Seq<ClusterView>, ts: Transform) -> Seq<
    PathView,
> {
    match glyph_path(span, clusters, ts) {
        Some(p) => seq![p],
        None => Seq::empty(),
    }
}

/// The paths of one span, in the order in which they are drawn: underline,
/// overline, glyphs, line-through. The underline lies below the baseline by
/// the font's underline position, the overline above it by the ascent, the
/// line-through above it by half the x-height.
pub open spec fn span_paths(span: SpanView, clusters: Seq<ClusterView>, ts: Transform) -> Seq<
    PathView,
> {
    let runs = decoration_runs(span, clusters);
    decoration_part(
        span.decoration.underline,
        neg_spec(span.font.underline_position),
        span,
        runs,
        ts,
    ) + decoration_part(span.decoration.overline, neg_spec(span.font.ascent), span, runs, ts)
        + glyph_part(span, clusters, ts) + decoration_part(
        span.decoration.line_through,
        neg_spec(half_spec(span.font.x_height)),
        span,
        runs,
        ts,
    )
}

/// The bounds of the glyph path of a span.
pub open spec fn span_bounds(span: SpanView, clusters: Seq<ClusterView>, ts: Transform) -> Option<
    Bounds,
> {
    match glyph_path(span, clusters, ts) {
        Some(p) => path_bounds(p.segments),
        None => None,
    }
}

/// The clusters after the first `k` spans took their outlines.
pub open spec fn cleared(spans: Seq<SpanView>, clusters: Seq<ClusterView>, k: int) -> Seq<
    ClusterView,
>
    decreases k,
{
    if k <= 0 || k > spans.len() {
        clusters
    } else {
        emptied(spans[k - 1], cleared(spans, clusters, k - 1))
    }
}

/// Where a chunk is drawn: its transform and its origin.
pub struct Placement {
    pub ts: Transform,
    pub x: i64,
    pub y: i64,
}

/// The paths of the first `k` spans of a chunk.
pub open spec fn spans_paths(
    spans: Seq<SpanView>,
    clusters: Seq<ClusterView>,
    at: Placement,
    k: int,
) -> Seq<PathView>
    decreases k,
{
    if k <= 0 || k > spans.len() {
        Seq::empty()
    } else {
        spans_paths(spans, clusters, at, k - 1) + span_paths(
            spans[k - 1],
            cleared(spans, clusters, k - 1),
            span_transform(at.ts, at.x, at.y, spans[k - 1]),
        )
    }
}

/// The bounds of the glyph paths of the first `k` spans of a chunk.
pub open spec fn spans_bounds(
    spans: Seq<SpanView>,
    clusters: Seq<ClusterView>,
    at: Placement,
    k: int,
) -> Option<Bounds>
    decreases k,
{
    if k <= 0 || k > spans.len() {
        None
    } else {
        union_opt(
            spans_bounds(spans, clusters, at, k - 1),
            span_bounds(
                spans[k - 1],
                cleared(spans, clusters, k - 1),
                span_transform(at.ts, at.x, at.y, spans[k - 1]),
            ),
        )
    }
}

/// How far the layout of a text element has come: where the next chunk
/// starts unless it says otherwise, the index of its first character, the
/// paths so far, and the bounds of the glyph paths among them.
pub struct Layout {
    pub x: i64,
    pub y: i64,
    pub char_offset: usize,
    pub paths: Seq<PathView>,
    pub bounds: Option<Bounds>,
}

/// The width of a chunk after spacing and shifts.
pub open spec fn laid_width(l: Layout, text: TextView, chunk: ChunkView, clusters: Seq<ClusterView>) -> i64 {
    chunk_width(spaced(chunk, clusters), overrides(l, text, chunk))
}

/// The clusters of a chunk with letter and word spacing added.
pub open spec fn spaced(chunk: ChunkView, clusters: Seq<ClusterView>) -> Seq<ClusterView> {
    word_spaced(letter_spaced(clusters, chunk.letter_spacing), chunk.bytes, chunk.word_spacing)
}

/// What the per-character lists of the element say of a chunk.
pub open spec fn overrides(l: Layout, text: TextView, chunk: ChunkView) -> Overrides {
    Overrides {
        bytes: chunk.bytes,
        char_offset: l.char_offset as nat,
        shifts: text.shifts,
        rotations: text.rotations,
    }
}

/// Where a chunk with clusters is drawn. Its origin is the one it names,
/// or else where the chunk before it ended, less the offset of its anchor
/// along the line: along x from left to right, along y from top to bottom.
/// From top to bottom the transform of the element is turned by a right
/// angle about that origin.
pub open spec fn placement(l: Layout, text: TextView, chunk: ChunkView, clusters: Seq<ClusterView>) -> Placement {
    let x0 = match chunk.x {
        Some(v) => v,
        None => l.x,
    };
    let y0 = match chunk.y {
        Some(v) => v,
        None => l.y,
    };
    let offset = anchor_offset(chunk.anchor, laid_width(l, text, chunk, clusters));
    match text.writing_mode {
        WritingMode::LeftToRight => Placement { ts: text.transform, x: sub_spec(x0, offset), y: y0 },
        WritingMode::TopToBottom => Placement {
            ts: text.transform.quarter_turned_at(x0, sub_spec(y0, offset)),
            x: x0,
            y: sub_spec(y0, offset),
        },
    }
}

/// The layout after one more chunk. A chunk without clusters only moves
/// the origin to where it says. Any other chunk is spaced, placed and drawn
/// span by span; the next chunk starts where it ends.
pub open spec fn chunk_step(l: Layout, text: TextView, chunk: ChunkView, clusters: Seq<ClusterView>) -> Layout {
    if clusters.len() == 0 {
        Layout {
            x: match chunk.x {
                Some(v) => v,
                None => l.x,
            },
            y: match chunk.y {
                Some(v) => v,
                None => l.y,
            },
            ..l
        }
    } else {
        let at = placement(l, text, chunk, clusters);
        let laid = positioned(spaced(chunk, clusters), overrides(l, text, chunk));
        Layout {
            x: add_spec(at.x, laid_width(l, text, chunk, clusters)),
            y: at.y,
            char_offset: capped((l.char_offset + chunk.chars) as nat),
            paths: l.paths + spans_paths(chunk.spans, laid, at, chunk.spans.len() as int),
            bounds: union_opt(
                l.bounds,
                spans_bounds(chunk.spans, laid, at, chunk.spans.len() as int),
            ),
        }
    }
}

/// The clusters of chunk `i`; none where the shaper gave none.
pub open spec fn clusters_of(shaped: Seq<Seq<ClusterView>>, i: int) -> Seq<ClusterView> {
    if 0 <= i < shaped.len() {
        shaped[i]
    } else {
        Seq::empty()
    }
}

/// The layout after the first `k` chunks.
pub open spec fn layout(text: TextView, shaped: Seq<Seq<ClusterView>>, k: int) -> Layout
    decreases k,
{
    if k <= 0 || k > text.chunks.len() {
        Layout { x: 0, y: 0, char_offset: 0, paths: Seq::empty(), bounds: None }
    } else {
        chunk_step(layout(text, shaped, k - 1), text, text.chunks[k - 1], clusters_of(shaped, k - 1))
    }
}

/// The registry after the first `k` paths were relinked, in order.
pub open spec fn defs_upto(paths: Seq<PathView>, defs: Seq<ResourceView>, bbox: Rect, k: int) -> Seq<
    ResourceView,
>
    decreases k,
{
    if k <= 0 || k > paths.len() {
        defs
    } else {
        defs_after_path(paths[k - 1], defs_upto(paths, defs, bbox, k - 1), bbox)
    }
}

/// The paths, each relinked against the registry as the paths before it
/// left it.
pub open spec fn relinked_all(paths: Seq<PathView>, defs: Seq<ResourceView>, bbox: Rect) -> Seq<
    PathView,
> {
    Seq::new(
        paths.len(),
        |i: int| relinked_path(paths[i], defs_upto(paths, defs, bbox, i), bbox),
    )
}

/// The paths that a text element adds to the scene: those of its layout,
/// relinked for the bounds of its glyph paths where it has any.
pub open spec fn text_paths(text: TextView, shaped: Seq<Seq<ClusterView>>, defs: Seq<ResourceView>) -> Seq<
    PathView,
> {
    let l = layout(text, shaped, text.chunks.len() as int);
    match l.bounds {
        Some(b) => relinked_all(l.paths, defs, b.to_rect_spec()),
        None => l.paths,
    }
}

/// The registry after a text element was converted.
pub open spec fn text_defs(text: TextView, shaped: Seq<Seq<ClusterView>>, defs: Seq<ResourceView>) -> Seq<
    ResourceView,
> {
    let l = layout(text, shaped, text.chunks.len() as int);
    match l.bounds {
        Some(b) => defs_upto(l.paths, defs, b.to_rect_spec(), l.paths.len() as int),
        None => defs,
    }
}

/// Whether a fill and a stroke are painted with colours or with entries
/// of the registry.
pub open spec fn paints_resolve(
    fill: Option<FillView>,
    stroke: Option<StrokeView>,
    defs: Seq<ResourceView>,
) -> bool {
    &&& fill matches Some(f) ==> paint_resolves(f.paint, defs)
    &&& stroke matches Some(s) ==> paint_resolves(s.paint, defs)
}

/// Whether a decoration line is painted with colours or with entries of
/// the registry.
pub open spec fn style_resolves(style: Option<DecorationStyleView>, defs: Seq<ResourceView>) -> bool {
    style matches Some(s) ==> paints_resolve(s.fill, s.stroke, defs)
}

/// Whether everything that a span is painted with is a colour or an entry
/// of the registry.
pub open spec fn span_resolves(span: SpanView, defs: Seq<ResourceView>) -> bool {
    &&& paints_resolve(span.fill, span.stroke, defs)
    &&& style_resolves(span.decoration.underline, defs)
    &&& style_resolves(span.decoration.overline, defs)
    &&& style_resolves(span.decoration.line_through, defs)
}

/// Whether everything that a text element is painted with is a colour or
/// an entry of the registry.
pub open spec fn text_resolves(text: TextView, defs: Seq<ResourceView>) -> bool {
    forall|i: int, j: int|
        0 <= i < text.chunks.len() && 0 <= j < text.chunks[i].spans.len() ==> span_resolves(
            #[trigger] text.chunks[i].spans[j],
            defs,
        )
}

/// Whether the fill and the stroke of every path name entries of the
/// registry.
pub open spec fn paths_resolve(paths: Seq<PathView>, defs: Seq<ResourceView>) -> bool {
    forall|k: int| 0 <= k < paths.len() ==> links_resolve(#[trigger] paths[k], defs)
}

proof fn spans_paths_resolve(
    spans: Seq<SpanView>,
    clusters: Seq<ClusterView>,
    at: Placement,
    k: int,
    defs: Seq<ResourceView>,
)
    requires
        forall|j: int| 0 <= j < spans.len() ==> span_resolves(#[trigger] spans[j], defs),
    ensures
        paths_resolve(spans_paths(spans, clusters, at, k), defs),
    decreases k,
{
    if 0 < k <= spans.len() {
        spans_paths_resolve(spans, clusters, at, k - 1, defs);
        let span = spans[k - 1];
        assert(span_resolves(span, defs));
    }
}

/// The paths of a layout are painted with what the spans of the text are
/// painted with: where that is all in the registry, so is what the paths
/// name.
pub proof fn layout_paths_resolve(
    text: TextView,
    shaped: Seq<Seq<ClusterView>>,
    k: int,
    defs: Seq<ResourceView>,
)
    requires
        text_resolves(text, defs),
    ensures
        paths_resolve(layout(text, shaped, k).paths, defs),
    decreases k,
{
    if 0 < k <= text.chunks.len() {
        layout_paths_resolve(text, shaped, k - 1, defs);
        let l = layout(text, shaped, k - 1);
        let chunk = text.chunks[k - 1];
        let clusters = clusters_of(shaped, k - 1);
        if clusters.len() > 0 {
            assert forall|j: int| 0 <= j < chunk.spans.len() implies span_resolves(
                #[trigger] chunk.spans[j],
                defs,
            ) by {
                assert(span_resolves(text.chunks[k - 1].spans[j], defs));
            }
            spans_paths_resolve(
                chunk.spans,
                positioned(spaced(chunk, clusters), overrides(l, text, chunk)),
                placement(l, text, chunk, clusters),
                chunk.spans.len() as int,
                defs,
            );
        }
    }
}

struct Cursor {
    x: i64,
    y: i64,
    char_offset: usize,
    paths: Vec<Path>,
    bounds: Option<Bounds>,
}

impl View for Cursor {
    type V = Layout;

    closed spec fn view(&self) -> Layout {
        Layout {
            x: self.x,
            y: self.y,
            char_offset: self.char_offset,
            paths: paths_view(self.paths@),
            bounds: self.bounds,
        }
    }
}

fn emit_decoration(
    style: Option<TextDecorationStyle>,
    dy: i64,
    span: &TextSpan,
    runs: &Vec<DecorationSpan>,
    ts: Transform,
    paths: &mut Vec<Path>,
)
    ensures
        paths_view(final(paths)@) == paths_view(old(paths)@) + decoration_part(
            style_view(style),
            dy,
            span@,
            runs@,
            ts,
        ),
{
    match style {
        Some(decoration) => {
            if runs.len() > 0 {
                let path = convert_decoration(dy, span, decoration, runs, ts);
                paths.push(path);
                assert(paths_view(paths@) =~= paths_view(old(paths)@) + seq![path@]);
                return ;
            }
        },
        None => {},
    }
    assert(paths_view(paths@) =~= paths_view(old(paths)@) + Seq::<PathView>::empty());
}

proof fn glyph_segments_by_range(a: SpanView, b: SpanView, clusters: Seq<ClusterView>, k: int)
    requires
        a.start == b.start,
        a.end == b.end,
    ensures
        glyph_segments(a, clusters, k) == glyph_segments(b, clusters, k),
    decreases k,
{
    if 0 < k <= clusters.len() {
        glyph_segments_by_range(a, b, clusters, k - 1);
    }
}

fn emit_span(
    span: &mut TextSpan,
    clusters: &mut Vec<OutlinedCluster>,
    span_ts: Transform,
    parent: &mut Vec<Path>,
    paths: &mut Vec<Path>,
    bounds: &mut Option<Bounds>,
)
    ensures
        paths_view(final(paths)@) == paths_view(old(paths)@) + span_paths(
            old(span)@,
            clusters_view(old(clusters)@),
            span_ts,
        ),
        *final(bounds) == union_opt(
            *old(bounds),
            span_bounds(old(span)@, clusters_view(old(clusters)@), span_ts),
        ),
        clusters_view(final(clusters)@) == emptied(old(span)@, clusters_view(old(clusters)@)),
        paths_view(final(parent)@) == paths_view(old(parent)@),
{
    let ghost span0 = span@;
    let ghost now = clusters_view(clusters@);
    let ghost emitted = paths_view(paths@);
    let runs = collect_decoration_spans(span, clusters);

    let underline = span.decoration.underline.take();
    let dy = sat_neg(span.font.underline_position);
    emit_decoration(underline, dy, span, &runs, span_ts, paths);
    let ghost part1 = decoration_part(
        span0.decoration.underline,
        neg_spec(span0.font.underline_position),
        span0,
        runs@,
        span_ts,
    );
    assert(paths_view(paths@) == emitted + part1);

    let overline = span.decoration.overline.take();
    let dy = sat_neg(span.font.ascent);
    emit_decoration(overline, dy, span, &runs, span_ts, paths);
    let ghost part2 = decoration_part(
        span0.decoration.overline,
        neg_spec(span0.font.ascent),
        span0,
        runs@,
        span_ts,
    );
    assert(paths_view(paths@) == emitted + part1 + part2);

    let ghost shown = paths_view(parent@);
    let ghost stripped = span@;
    let glyphs = convert_span(span, clusters, &span_ts, parent, false);
    proof {
        glyph_segments_by_range(stripped, span0, now, now.len() as int);
        assert(paths_view(parent@) =~= shown);
        assert(clusters_view(clusters@) =~= emptied(span0, now));
    }
    assert(path_view(glyphs) == glyph_path(span0, now, span_ts));
    let ghost part3 = glyph_part(span0, now, span_ts);
    match glyphs {
        Some(path) => {
            let b = path_bbox(&path.segments);
            *bounds = merge_opt(*bounds, b);
            let ghost seen = paths_view(paths@);
            paths.push(path);
            assert(paths_view(paths@) =~= seen + seq![path@]);
        },
        None => {
            assert(paths_view(paths@) =~= paths_view(paths@) + Seq::<PathView>::empty());
        },
    }
    assert(paths_view(paths@) == emitted + part1 + part2 + part3);

    let line_through = span.decoration.line_through.take();
    let dy = sat_neg(half(span.font.x_height));
    emit_decoration(line_through, dy, span, &runs, span_ts, paths);
    let ghost part4 = decoration_part(
        span0.decoration.line_through,
        neg_spec(half_spec(span0.font.x_height)),
        span0,
        runs@,
        span_ts,
    );
    assert(paths_view(paths@) == emitted + part1 + part2 + part3 + part4);
    assert(part1 + part2 + part3 + part4 == span_paths(span0, now, span_ts));
    assert(emitted + part1 + part2 + part3 + part4 =~= emitted + (part1 + part2 + part3 + part4));
}

fn convert_spans(
    spans: &mut Vec<TextSpan>,
    clusters: &mut Vec<OutlinedCluster>,
    ts: Transform,
    x: i64,
    y: i64,
    parent: &mut Vec<Path>,
    paths: &mut Vec<Path>,
    bounds: &mut Option<Bounds>,
)
    ensures
        paths_view(final(paths)@) == paths_view(old(paths)@) + spans_paths(
            spans_view(old(spans)@),
            clusters_view(old(clusters)@),
            Placement { ts, x, y },
            old(spans)@.len() as int,
        ),
        *final(bounds) == union_opt(
            *old(bounds),
            spans_bounds(
                spans_view(old(spans)@),
                clusters_view(old(clusters)@),
                Placement { ts, x, y },
                old(spans)@.len() as int,
            ),
        ),
        paths_view(final(parent)@) == paths_view(old(parent)@),
{
    let ghost spans0 = spans_view(old(spans)@);
    let ghost clusters0 = clusters_view(old(clusters)@);
    let ghost paths0 = paths_view(old(paths)@);
    let ghost at = Placement { ts, x, y };
    let n = spans.len();
    let mut j: usize = 0;
    assert(paths_view(paths@) =~= paths0 + spans_paths(spans0, clusters0, at, 0));
    while j < n
        invariant
            j <= n,
            spans@.len() == n,
            spans0.len() == n,
            at == (Placement { ts, x, y }),
            forall|k: int| j <= k < n ==> (#[trigger] spans@[k])@ == spans0[k],
            clusters_view(clusters@) == cleared(spans0, clusters0, j as int),
            paths_view(paths@) == paths0 + spans_paths(spans0, clusters0, at, j as int),
            *bounds == union_opt(*old(bounds), spans_bounds(spans0, clusters0, at, j as int)),
            paths_view(parent@) == paths_view(old(parent)@),
        decreases n - j,
    {
        let ghost span0 = spans0[j as int];
        let ghost now = clusters_view(clusters@);
        let ghost emitted = paths_view(paths@);
        assert(spans@[j as int]@ == span0);
        let mut span_ts = ts;
        span_ts.translate(x, sat_sub(y, spans[j].baseline_shift));
        assert(span_ts == span_transform(ts, x, y, span0));
        emit_span(&mut spans[j], clusters, span_ts, parent, paths, bounds);
        assert(emitted + span_paths(span0, now, span_ts) =~= paths0 + spans_paths(
            spans0,
            clusters0,
            at,
            j as int + 1,
        ));
        assert(union_opt(*old(bounds), spans_bounds(spans0, clusters0, at, j as int + 1))
            == union_opt(
            union_opt(*old(bounds), spans_bounds(spans0, clusters0, at, j as int)),
            span_bounds(span0, now, span_ts),
        ));
        j += 1;
    }
}

fn convert_chunk(
    chunk: &mut TextChunk,
    clusters: &mut Vec<OutlinedCluster>,
    transform: Transform,
    writing_mode: WritingMode,
    shifts: &Vec<CharShift>,
    rotations: &Vec<Option<Rotation>>,
    cur: &mut Cursor,
    parent: &mut Vec<Path>,
    Ghost(text): Ghost<TextView>,
)
    requires
        text.transform == transform,
        text.writing_mode == writing_mode,
        text.shifts == shifts@,
        text.rotations == rotations@,
    ensures
        final(cur)@ == chunk_step(old(cur)@, text, old(chunk)@, clusters_view(old(clusters)@)),
        paths_view(final(parent)@) == paths_view(old(parent)@),
{
    let ghost chunk0 = chunk@;
    let ghost clusters0 = clusters_view(clusters@);
    let ghost l = cur@;
    cur.x = match chunk.x {
        Some(v) => v,
        None => cur.x,
    };
    cur.y = match chunk.y {
        Some(v) => v,
        None => cur.y,
    };
    if clusters.len() == 0 {
        return ;
    }
    apply_letter_spacing(chunk, clusters);
    apply_word_spacing(chunk, clusters);
    assert(clusters_view(clusters@) == spaced(chunk0, clusters0));
    let width = resolve_clusters_positions(
        chunk.text.as_str(),
        cur.char_offset,
        shifts,
        rotations,
        clusters,
    );
    assert(width == laid_width(l, text, chunk0, clusters0));
    let offset = process_anchor(chunk.anchor, width);
    let mut ts = transform;
    match writing_mode {
        WritingMode::LeftToRight => {
            cur.x = sat_sub(cur.x, offset);
        },
        WritingMode::TopToBottom => {
            cur.y = sat_sub(cur.y, offset);
            ts.rotate_quarter_at(cur.x, cur.y);
        },
    }
    assert((Placement { ts, x: cur.x, y: cur.y }) == placement(l, text, chunk0, clusters0));
    convert_spans(
        &mut chunk.spans,
        clusters,
        ts,
        cur.x,
        cur.y,
        parent,
        &mut cur.paths,
        &mut cur.bounds,
    );
    let count = chunk.text.as_str().unicode_len();
    cur.char_offset = if count <= usize::MAX - cur.char_offset {
        cur.char_offset + count
    } else {
        usize::MAX
    };
    cur.x = sat_add(cur.x, width);
}

/// Converts a text element into paths.
///
/// Every chunk is laid out and drawn in turn; the paths of a span come in
/// the order underline, overline, glyphs, line-through. Then every path
/// that names a paint server defined relative to a bounding box is
/// repointed to a copy of that server in user space, for the bounds of all
/// glyph paths of the element. The paths are appended to `parent`.
/// Every paint server that the text names must be in the registry.
pub fn convert(
    text: TextElement,
    shaped: Vec<Vec<OutlinedCluster>>,
    parent: &mut Vec<Path>,
    tree: &mut Tree,
)
    requires
        text_resolves(text@, old(tree)@),
    ensures
        paths_view(final(parent)@) == paths_view(old(parent)@) + text_paths(
            text@,
            shaped_view(shaped@),
            old(tree)@,
        ),
        final(tree)@ == text_defs(text@, shaped_view(shaped@), old(tree)@),
{
    let ghost view = text@;
    let ghost shaped0 = shaped_view(shaped@);
    let TextElement { transform, writing_mode, chunks, shifts, rotations } = text;
    let mut chunks = chunks;
    let mut shaped = shaped;
    let mut cur = Cursor { x: 0, y: 0, char_offset: 0, paths: Vec::new(), bounds: None };
    assert(cur@.paths =~= Seq::<PathView>::empty());
    let n = chunks.len();
    let m = shaped.len();
    let mut i: usize = 0;
    while i < n
        invariant
            i <= n,
            chunks@.len() == n,
            shaped@.len() == m,
            view.chunks.len() == n,
            shaped0.len() == m,
            view.transform == transform,
            view.writing_mode == writing_mode,
            view.shifts == shifts@,
            view.rotations == rotations@,
            forall|k: int| i <= k < n ==> (#[trigger] chunks@[k])@ == view.chunks[k],
            forall|k: int| i <= k < m ==> clusters_view((#[trigger] shaped@[k])@) == shaped0[k],
            cur@ == layout(view, shaped0, i as int),
            paths_view(parent@) == paths_view(old(parent)@),
        decreases n - i,
    {
        if i < m {
            convert_chunk(
                &mut chunks[i],
                &mut shaped[i],
                transform,
                writing_mode,
                &shifts,
                &rotations,
                &mut cur,
                parent,
                Ghost(view),
            );
        } else {
            let mut none: Vec<OutlinedCluster> = Vec::new();
            assert(clusters_view(none@) =~= Seq::<ClusterView>::empty());
            convert_chunk(
                &mut chunks[i],
                &mut none,
                transform,
                writing_mode,
                &shifts,
                &rotations,
                &mut cur,
                parent,
                Ghost(view),
            );
        }
        i += 1;
    }
    let ghost defs0 = tree@;
    let ghost laid = cur@;
    proof {
        layout_paths_resolve(view, shaped0, n as int, defs0);
    }
    let mut paths = cur.paths;
    match cur.bounds {
        Some(b) => {
            let bbox = b.to_rect();
            let count = paths.len();
            let mut k: usize = 0;
            while k < count
                invariant
                    k <= count,
                    paths@.len() == count,
                    laid.paths.len() == count,
                    forall|j: int|
                        0 <= j < k ==> (#[trigger] paths@[j])@ == relinked_all(
                            laid.paths,
                            defs0,
                            bbox,
                        )[j],
                    forall|j: int| k <= j < count ==> (#[trigger] paths@[j])@ == laid.paths[j],
                    tree@ == defs_upto(laid.paths, defs0, bbox, k as int),
                    paths_resolve(laid.paths, defs0),
                    defs0.len() <= tree@.len(),
                    forall|i: int| 0 <= i < defs0.len() ==> tree@[i] == defs0[i],
                decreases count - k,
            {
                proof {
                    grown_registry_keeps_links(laid.paths[k as int], defs0, tree@);
                    relink_keeps_registry(laid.paths[k as int], tree@, bbox);
                }
                fix_obj_bounding_box(&mut paths[k], bbox, tree);
                k += 1;
            }
            assert(paths_view(paths@) =~= relinked_all(laid.paths, defs0, bbox));
        },
        None => {},
    }
    let ghost added = paths_view(paths@);
    parent.append(&mut paths);
    assert(paths_view(parent@) =~= paths_view(old(parent)@) + added);
}

proof fn defs_upto_keep_registry(paths: Seq<PathView>, defs: Seq<ResourceView>, bbox: Rect, k: int)
    ensures
        defs.len() <= defs_upto(paths, defs, bbox, k).len(),
        forall|i: int| 0 <= i < defs.len() ==> defs_upto(paths, defs, bbox, k)[i] == defs[i],
        ids_distinct(defs) ==> ids_distinct(defs_upto(paths, defs, bbox, k)),
    decreases k,
{
    if 0 < k <= paths.len() {
        defs_upto_keep_registry(paths, defs, bbox, k - 1);
        relink_keeps_registry(paths[k - 1], defs_upto(paths, defs, bbox, k - 1), bbox);
    }
}

/// Converting a text element only adds to the registry: every entry stays
/// in its place, and where no two entries shared an id before, none do
/// after.
pub proof fn convert_keeps_registry(
    text: TextView,
    shaped: Seq<Seq<ClusterView>>,
    defs: Seq<ResourceView>,
)
    ensures
        defs.len() <= text_defs(text, shaped, defs).len(),
        forall|i: int| 0 <= i < defs.len() ==> text_defs(text, shaped, defs)[i] == defs[i],
        ids_distinct(defs) ==> ids_distinct(text_defs(text, shaped, defs)),
{
    let l = layout(text, shaped, text.chunks.len() as int);
    match l.bounds {
        Some(b) => {
            defs_upto_keep_registry(l.paths, defs, b.to_rect_spec(), l.paths.len() as int);
        },
        None => {},
    }
}

proof fn defs_upto_grow(
    paths: Seq<PathView>,
    defs: Seq<ResourceView>,
    bbox: Rect,
    k: int,
    m: int,
)
    requires
        0 <= k <= m <= paths.len(),
    ensures
        defs_upto(paths, defs, bbox, k).len() <= defs_upto(paths, defs, bbox, m).len(),
        forall|i: int|
            0 <= i < defs_upto(paths, defs, bbox, k).len() ==> defs_upto(paths, defs, bbox, m)[i]
                == defs_upto(paths, defs, bbox, k)[i],
    decreases m - k,
{
    if k < m {
        defs_upto_grow(paths, defs, bbox, k, m - 1);
        relink_keeps_registry(paths[m - 1], defs_upto(paths, defs, bbox, m - 1), bbox);
    }
}

/// Where everything that a text element is painted with is in the
/// registry, the fill and the stroke of every path that its conversion
/// adds name entries of the registry as the conversion leaves it.
pub proof fn convert_keeps_links(
    text: TextView,
    shaped: Seq<Seq<ClusterView>>,
    defs: Seq<ResourceView>,
)
    requires
        text_resolves(text, defs),
    ensures
        paths_resolve(text_paths(text, shaped, defs), text_defs(text, shaped, defs)),
{
    let l = layout(text, shaped, text.chunks.len() as int);
    layout_paths_resolve(text, shaped, text.chunks.len() as int, defs);
    match l.bounds {
        Some(b) => {
            let bbox = b.to_rect_spec();
            let n = l.paths.len() as int;
            let last = defs_upto(l.paths, defs, bbox, n);
            let out = relinked_all(l.paths, defs, bbox);
            assert forall|i: int| 0 <= i < out.len() implies links_resolve(
                #[trigger] out[i],
                last,
            ) by {
                let before = defs_upto(l.paths, defs, bbox, i);
                defs_upto_grow(l.paths, defs, bbox, 0, i);
                grown_registry_keeps_links(l.paths[i], defs, before);
                relink_keeps_registry(l.paths[i], before, bbox);
                defs_upto_grow(l.paths, defs, bbox, i + 1, n);
                grown_registry_keeps_links(out[i], defs_upto(l.paths, defs, bbox, i + 1), last);
            }
        },
        None => {},
    }
}

/// A span without decoration lines gives its glyph path and nothing else.
pub proof fn plain_span_gives_glyphs_only(span: SpanView, clusters: Seq<ClusterView>, ts: Transform)
    requires
        span.decoration.underline is None,
        span.decoration.overline is None,
        span.decoration.line_through is None,
    ensures
        span_paths(span, clusters, ts) == glyph_part(span, clusters, ts),
        span_paths(span, clusters, ts).len() <= 1,
{
    assert(span_paths(span, clusters, ts) =~= glyph_part(span, clusters, ts));
}

} // verus!
