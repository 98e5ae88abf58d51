//! The data that text layout works on: chunks, spans and shaped clusters.

use vstd::prelude::*;
use crate::geom::{PathSegment, Transform};
use crate::tree::{fill_view, stroke_view, Fill, FillView, Stroke, StrokeView, Visibility};

verus! {

/// How a chunk is aligned on its origin.
#[derive(Clone, Copy, Debug, PartialEq, Eq, Structural)]
pub enum TextAnchor {
    Start,
    Middle,
    End,
}

/// The direction in which advances accumulate.
#[derive(Clone, Copy, Debug, PartialEq, Eq, Structural)]
pub enum WritingMode {
    LeftToRight,
    TopToBottom,
}

/// A rotation of one character about its own origin, in right angles.
#[derive(Clone, Copy, Debug, PartialEq, Eq, Structural)]
pub enum Rotation {
    Quarter,
    Half,
    ThreeQuarters,
}

/// The shift that one character asks for, along each axis.
#[derive(Clone, Copy, Debug, PartialEq, Eq, Structural)]
pub struct CharShift {
    pub dx: Option<i64>,
    pub dy: Option<i64>,
}

/// What the font of a span reports at the size of the span.
#[derive(Clone, Copy, Debug, PartialEq, Eq, Structural)]
pub struct FontMetrics {
    pub ascent: i64,
    pub x_height: i64,
    pub underline_position: i64,
    pub underline_thickness: i64,
}

/// How one decoration line is painted.
#[derive(Clone, Debug, PartialEq, Eq)]
pub struct TextDecorationStyle {
    pub fill: Option<Fill>,
    pub stroke: Option<Stroke>,
}

/// The decoration lines of a span.
#[derive(Clone, Debug, PartialEq, Eq)]
pub struct TextDecoration {
    pub underline: Option<TextDecorationStyle>,
    pub overline: Option<TextDecorationStyle>,
    pub line_through: Option<TextDecorationStyle>,
}

/// A styled run of a chunk: the bytes `start..end` of its text.
#[derive(Clone, Debug, PartialEq, Eq)]
pub struct TextSpan {
    pub start: usize,
    pub end: usize,
    pub fill: Option<Fill>,
    pub stroke: Option<Stroke>,
    pub font: FontMetrics,
    pub decoration: TextDecoration,
    pub baseline_shift: i64,
    pub visibility: Visibility,
}

/// A run of text with one origin and one anchor.
#[derive(Clone, Debug, PartialEq, Eq)]
pub struct TextChunk {
    pub x: Option<i64>,
    pub y: Option<i64>,
    pub anchor: TextAnchor,
    pub letter_spacing: i64,
    pub word_spacing: i64,
    pub spans: Vec<TextSpan>,
    pub text: String,
}

/// The smallest shaped unit: one glyph with its metrics and outline, for
/// the bytes `byte_idx..byte_end` of the chunk's text.
#[derive(Clone, Debug, PartialEq, Eq)]
pub struct OutlinedCluster {
    pub byte_idx: usize,
    pub byte_end: usize,
    pub advance: i64,
    pub ascent: i64,
    pub descent: i64,
    pub has_relative_shift: bool,
    pub path: Vec<PathSegment>,
    pub transform: Transform,
}

/// A run of clusters that a decoration line is drawn under, over or through
/// in one piece: its width and where it starts.
#[derive(Clone, Copy, Debug, PartialEq, Eq, Structural)]
pub struct DecorationSpan {
    pub width: i64,
    pub transform: Transform,
}

/// A text element after chunking: the chunks in order, and the shifts and
/// rotations that single characters ask for, indexed by character over the
/// whole element.
#[derive(Clone, Debug, PartialEq, Eq)]
pub struct TextElement {
    pub transform: Transform,
    pub writing_mode: WritingMode,
    pub chunks: Vec<TextChunk>,
    pub shifts: Vec<CharShift>,
    pub rotations: Vec<Option<Rotation>>,
}

pub struct DecorationStyleView {
    pub fill: Option<FillView>,
    pub stroke: Option<StrokeView>,
}

pub struct DecorationView {
    pub underline: Option<DecorationStyleView>,
    pub overline: Option<DecorationStyleView>,
    pub line_through: Option<DecorationStyleView>,
}

pub struct SpanView {
    pub start: usize,
    pub end: usize,
    pub fill: Option<FillView>,
    pub stroke: Option<StrokeView>,
    pub font: FontMetrics,
    pub decoration: DecorationView,
    pub baseline_shift: i64,
    pub visibility: Visibility,
}

pub struct ChunkView {
    pub x: Option<i64>,
    pub y: Option<i64>,
    pub anchor: TextAnchor,
    pub letter_spacing: i64,
    pub word_spacing: i64,
    pub spans: Seq<SpanView>,
    /// The text, as its bytes.
    pub bytes: Seq<u8>,
    /// The number of characters of the text.
    pub chars: nat,
}

pub struct ClusterView {
    pub byte_idx: usize,
    pub byte_end: usize,
    pub advance: i64,
    pub ascent: i64,
    pub descent: i64,
    pub has_relative_shift: bool,
    pub path: Seq<PathSegment>,
    pub transform: Transform,
}

pub struct TextView {
    pub transform: Transform,
    pub writing_mode: WritingMode,
    pub chunks: Seq<ChunkView>,
    pub shifts: Seq<CharShift>,
    pub rotations: Seq<Option<Rotation>>,
}

impl View for TextDecorationStyle {
    type V = DecorationStyleView;

    open spec fn view(&self) -> DecorationStyleView {
        DecorationStyleView { fill: fill_view(self.fill), stroke: stroke_view(self.stroke) }
    }
}

/// The view of an optional decoration style.
pub open spec fn style_view(s: Option<TextDecorationStyle>) -> Option<DecorationStyleView> {
    match s {
        Some(s) => Some(s@),
        None => None,
    }
}

impl View for TextDecoration {
    type V = DecorationView;

    open spec fn view(&self) -> DecorationView {
        DecorationView {
            underline: style_view(self.underline),
            overline: style_view(self.overline),
            line_through: style_view(self.line_through),
        }
    }
}

impl View for TextSpan {
    type V = SpanView;

    open spec fn view(&self) -> SpanView {
        SpanView {
            start: self.start,
            end: self.end,
            fill: fill_view(self.fill),
            stroke: stroke_view(self.stroke),
            font: self.font,
            decoration: self.decoration@,
            baseline_shift: self.baseline_shift,
            visibility: self.visibility,
        }
    }
}

/// The views of a sequence of spans, in order.
pub open spec fn spans_view(spans: Seq<TextSpan>) -> Seq<SpanView> {
    Seq::new(spans.len(), |i: int| spans[i]@)
}

impl View for TextChunk {
    type V = ChunkView;

    open spec fn view(&self) -> ChunkView {
        ChunkView {
            x: self.x,
            y: self.y,
            anchor: self.anchor,
            letter_spacing: self.letter_spacing,
            word_spacing: self.word_spacing,
            spans: spans_view(self.spans@),
            bytes: vstd::utf8::encode_utf8(self.text@),
            chars: self.text@.len(),
        }
    }
}

/// The views of a sequence of chunks, in order.
pub open spec fn chunks_view(chunks: Seq<TextChunk>) -> Seq<ChunkView> {
    Seq::new(chunks.len(), |i: int| chunks[i]@)
}

impl View for OutlinedCluster {
    type V = ClusterView;

    open spec fn view(&self) -> ClusterView {
        ClusterView {
            byte_idx: self.byte_idx,
            byte_end: self.byte_end,
            advance: self.advance,
            ascent: self.ascent,
            descent: self.descent,
            has_relative_shift: self.has_relative_shift,
            path: self.path@,
            transform: self.transform,
        }
    }
}

/// The views of a sequence of clusters, in order.
pub open spec fn clusters_view(clusters: Seq<OutlinedCluster>) -> Seq<ClusterView> {
    Seq::new(clusters.len(), |i: int| clusters[i]@)
}

/// The views of the clusters of every chunk, in order.
pub open spec fn shaped_view(shaped: Seq<Vec<OutlinedCluster>>) -> Seq<Seq<ClusterView>> {
    Seq::new(shaped.len(), |i: int| clusters_view(shaped[i]@))
}

impl View for TextElement {
    type V = TextView;

    open spec fn view(&self) -> TextView {
        TextView {
            transform: self.transform,
            writing_mode: self.writing_mode,
            chunks: chunks_view(self.chunks@),
            shifts: self.shifts@,
            rotations: self.rotations@,
        }
    }
}

impl SpanView {
    /// Whether the span covers the byte at `byte_idx`.
    pub open spec fn contains(self, byte_idx: usize) -> bool {
        self.start <= byte_idx < self.end
    }
}

impl ClusterView {
    /// The height of the cluster: from its descent to its ascent.
    pub open spec fn height(self) -> i64 {
        crate::scalar::sub_spec(self.ascent, self.descent)
    }
}

impl TextSpan {
    /// Whether the span covers the byte at `byte_idx`.
    pub fn contains(&self, byte_idx: usize) -> (r: bool)
        ensures
            r == self@.contains(byte_idx),
    {
        self.start <= byte_idx && byte_idx < self.end
    }
}

impl OutlinedCluster {
    /// The height of the cluster: from its descent to its ascent.
    pub fn height(&self) -> (r: i64)
        ensures
            r == self@.height(),
    {
        crate::scalar::sat_sub(self.ascent, self.descent)
    }
}

fn copy_fill(f: &Option<Fill>) -> (r: Option<Fill>)
    ensures
        fill_view(r) == fill_view(*f),
{
    match f {
        Some(f) => Some(f.duplicate()),
        None => None,
    }
}

fn copy_stroke(s: &Option<Stroke>) -> (r: Option<Stroke>)
    ensures
        stroke_view(r) == stroke_view(*s),
{
    match s {
        Some(s) => Some(s.duplicate()),
        None => None,
    }
}

fn copy_style(s: &Option<TextDecorationStyle>) -> (r: Option<TextDecorationStyle>)
    ensures
        style_view(r) == style_view(*s),
{
    match s {
        Some(s) => Some(
            TextDecorationStyle { fill: copy_fill(&s.fill), stroke: copy_stroke(&s.stroke) },
        ),
        None => None,
    }
}

impl TextSpan {
    /// A span with the same view.
    pub fn duplicate(&self) -> (r: TextSpan)
        ensures
            r@ == self@,
    {
        TextSpan {
            start: self.start,
            end: self.end,
            fill: copy_fill(&self.fill),
            stroke: copy_stroke(&self.stroke),
            font: self.font,
            decoration: TextDecoration {
                underline: copy_style(&self.decoration.underline),
                overline: copy_style(&self.decoration.overline),
                line_through: copy_style(&self.decoration.line_through),
            },
            baseline_shift: self.baseline_shift,
            visibility: self.visibility,
        }
    }
}

} // verus!
