//! The stages that lay shaped clusters out along the line of a chunk.

use vstd::prelude::*;
use crate::geom::Transform;
use crate::scalar::{add_spec, half, half_spec, sat_add, sub_spec};
use crate::text_model::{
    clusters_view, CharShift, ClusterView, DecorationSpan, OutlinedCluster, Rotation, SpanView,
    TextAnchor, TextChunk, TextSpan,
};

verus! {

/// How far the origin of a chunk of width `width` lies before the start of
/// the chunk: nothing for `Start`, half the width for `Middle`, the whole
/// width for `End`.
pub open spec fn anchor_offset(a: TextAnchor, width: i64) -> i64 {
    match a {
        TextAnchor::Start => 0,
        TextAnchor::Middle => half_spec(width),
        TextAnchor::End => width,
    }
}

/// The offset that the anchor takes from the origin of a chunk.
pub fn process_anchor(a: TextAnchor, text_width: i64) -> (r: i64)
    ensures
        r == anchor_offset(a, text_width),
{
    match a {
        TextAnchor::Start => 0,
        TextAnchor::Middle => half(text_width),
        TextAnchor::End => text_width,
    }
}

/// Whether `b` starts a character in UTF-8.
pub open spec fn is_lead_byte(b: u8) -> bool {
    b < 0x80 || b >= 0xC0
}

/// The number of characters that start within the first `upto` bytes.
pub open spec fn lead_bytes(bytes: Seq<u8>, upto: int) -> nat
    decreases upto,
{
    if upto <= 0 {
        0
    } else {
        lead_bytes(bytes, upto - 1) + if upto - 1 < bytes.len() && is_lead_byte(bytes[upto - 1]) {
            1nat
        } else {
            0nat
        }
    }
}

proof fn lead_bytes_past_end(bytes: Seq<u8>, upto: int)
    ensures
        upto >= bytes.len() ==> lead_bytes(bytes, upto) == lead_bytes(bytes, bytes.len() as int),
        upto <= bytes.len() ==> lead_bytes(bytes, upto) <= upto || upto < 0,
    decreases upto,
{
    if upto > 0 {
        lead_bytes_past_end(bytes, upto - 1);
    }
}

/// The index of the character that starts at byte `byte_idx` of a text.
pub fn char_index(bytes: &[u8], byte_idx: usize) -> (r: usize)
    ensures
        r == lead_bytes(bytes@, byte_idx as int),
{
    let end = if byte_idx < bytes.len() {
        byte_idx
    } else {
        bytes.len()
    };
    let mut count: usize = 0;
    let mut i: usize = 0;
    while i < end
        invariant
            i <= end <= bytes.len(),
            count == lead_bytes(bytes@, i as int),
            count <= i,
        decreases end - i,
    {
        let b = bytes[i];
        if b < 0x80 || b >= 0xC0 {
            count += 1;
        }
        i += 1;
    }
    proof {
        lead_bytes_past_end(bytes@, byte_idx as int);
    }
    count
}

/// Whether the text that a cluster covers is exactly one space character.
pub open spec fn covers_space(bytes: Seq<u8>, c: ClusterView) -> bool {
    c.byte_idx < bytes.len() && c.byte_end == c.byte_idx + 1 && bytes[c.byte_idx as int] == 0x20
}

/// The clusters with `spacing` added to the advance of every one.
pub open spec fn letter_spaced(clusters: Seq<ClusterView>, spacing: i64) -> Seq<ClusterView> {
    Seq::new(
        clusters.len(),
        |i: int| ClusterView { advance: add_spec(clusters[i].advance, spacing), ..clusters[i] },
    )
}

/// The clusters with `spacing` added to the advance of every one that
/// covers exactly a space character.
pub open spec fn word_spaced(clusters: Seq<ClusterView>, bytes: Seq<u8>, spacing: i64) -> Seq<
    ClusterView,
> {
    Seq::new(
        clusters.len(),
        |i: int|
            if covers_space(bytes, clusters[i]) {
                ClusterView { advance: add_spec(clusters[i].advance, spacing), ..clusters[i] }
            } else {
                clusters[i]
            },
    )
}

/// Adds the letter spacing of the chunk after every cluster.
pub fn apply_letter_spacing(chunk: &TextChunk, clusters: &mut Vec<OutlinedCluster>)
    ensures
        clusters_view(final(clusters)@) == letter_spaced(
            clusters_view(old(clusters)@),
            chunk.letter_spacing,
        ),
{
    let n = clusters.len();
    let mut i: usize = 0;
    while i < n
        invariant
            i <= n,
            clusters@.len() == n,
            old(clusters)@.len() == n,
            forall|k: int|
                0 <= k < i ==> (#[trigger] clusters@[k])@ == letter_spaced(
                    clusters_view(old(clusters)@),
                    chunk.letter_spacing,
                )[k],
            forall|k: int| i <= k < n ==> clusters@[k] == old(clusters)@[k],
        decreases n - i,
    {
        let advance = sat_add(clusters[i].advance, chunk.letter_spacing);
        clusters[i].advance = advance;
        i += 1;
    }
    assert(clusters_view(clusters@) =~= letter_spaced(
        clusters_view(old(clusters)@),
        chunk.letter_spacing,
    ));
}

/// Adds the word spacing of the chunk after every cluster that covers
/// exactly a space character.
pub fn apply_word_spacing(chunk: &TextChunk, clusters: &mut Vec<OutlinedCluster>)
    ensures
        clusters_view(final(clusters)@) == word_spaced(
            clusters_view(old(clusters)@),
            chunk@.bytes,
            chunk.word_spacing,
        ),
{
    let bytes = chunk.text.as_str().as_bytes();
    let n = clusters.len();
    let mut i: usize = 0;
    while i < n
        invariant
            i <= n,
            clusters@.len() == n,
            old(clusters)@.len() == n,
            bytes@ == chunk@.bytes,
            forall|k: int|
                0 <= k < i ==> (#[trigger] clusters@[k])@ == word_spaced(
                    clusters_view(old(clusters)@),
                    chunk@.bytes,
                    chunk.word_spacing,
                )[k],
            forall|k: int| i <= k < n ==> clusters@[k] == old(clusters)@[k],
        decreases n - i,
    {
        let start = clusters[i].byte_idx;
        if start < bytes.len() && clusters[i].byte_end > start && clusters[i].byte_end - start == 1
            && bytes[start] == 0x20 {
            let advance = sat_add(clusters[i].advance, chunk.word_spacing);
            clusters[i].advance = advance;
        }
        i += 1;
    }
    assert(clusters_view(clusters@) =~= word_spaced(
        clusters_view(old(clusters)@),
        chunk@.bytes,
        chunk.word_spacing,
    ));
}

/// The shift along x that the character at `cp` asks for.
pub open spec fn shift_x(shifts: Seq<CharShift>, cp: nat) -> i64 {
    if cp < shifts.len() {
        match shifts[cp as int].dx {
            Some(d) => d,
            None => 0,
        }
    } else {
        0
    }
}

/// The shift along y that the character at `cp` asks for.
pub open spec fn shift_y(shifts: Seq<CharShift>, cp: nat) -> i64 {
    if cp < shifts.len() {
        match shifts[cp as int].dy {
            Some(d) => d,
            None => 0,
        }
    } else {
        0
    }
}

/// The rotation that the character at `cp` asks for.
pub open spec fn rotation_at(rotations: Seq<Option<Rotation>>, cp: nat) -> Option<Rotation> {
    if cp < rotations.len() {
        rotations[cp as int]
    } else {
        None
    }
}

/// The matrix of a rotation about the origin.
pub open spec fn rotation_matrix(r: Rotation) -> Transform {
    match r {
        Rotation::Quarter => Transform { a: 0, b: 1, c: -1i64, d: 0, e: 0, f: 0 },
        Rotation::Half => Transform { a: -1i64, b: 0, c: 0, d: -1i64, e: 0, f: 0 },
        Rotation::ThreeQuarters => Transform { a: 0, b: -1i64, c: 1, d: 0, e: 0, f: 0 },
    }
}

/// What the per-character lists say of one chunk: its text, the index of
/// its first character in the element, and the two lists.
pub struct Overrides {
    pub bytes: Seq<u8>,
    pub char_offset: nat,
    pub shifts: Seq<CharShift>,
    pub rotations: Seq<Option<Rotation>>,
}

impl Overrides {
    /// The index, in the element, of the character that cluster `c` starts at.
    pub open spec fn char_of(self, c: ClusterView) -> nat {
        self.char_offset + lead_bytes(self.bytes, c.byte_idx as int)
    }
}

/// The x coordinate of the pen before cluster `k` is shifted and placed.
pub open spec fn pen_x(clusters: Seq<ClusterView>, o: Overrides, k: int) -> i64
    decreases k,
{
    if k <= 0 || k > clusters.len() {
        0
    } else {
        add_spec(
            add_spec(pen_x(clusters, o, k - 1), shift_x(o.shifts, o.char_of(clusters[k - 1]))),
            clusters[k - 1].advance,
        )
    }
}

/// The y coordinate of the pen before cluster `k` is shifted and placed.
pub open spec fn pen_y(clusters: Seq<ClusterView>, o: Overrides, k: int) -> i64
    decreases k,
{
    if k <= 0 || k > clusters.len() {
        0
    } else {
        add_spec(pen_y(clusters, o, k - 1), shift_y(o.shifts, o.char_of(clusters[k - 1])))
    }
}

/// Cluster `k` in its place: moved to the pen after its own shift, turned
/// as its character asks, and marked where a shift or a turn parts it from
/// the cluster before.
pub open spec fn placed(clusters: Seq<ClusterView>, o: Overrides, k: int) -> ClusterView {
    let c = clusters[k];
    let cp = o.char_of(c);
    let x = add_spec(pen_x(clusters, o, k), shift_x(o.shifts, cp));
    let y = add_spec(pen_y(clusters, o, k), shift_y(o.shifts, cp));
    let moved = c.transform.translated(x, y);
    let shifted = if cp < o.shifts.len() {
        shift_x(o.shifts, cp) != 0 || shift_y(o.shifts, cp) != 0
    } else {
        c.has_relative_shift
    };
    match rotation_at(o.rotations, cp) {
        Some(r) => ClusterView {
            transform: moved.after(rotation_matrix(r)),
            has_relative_shift: true,
            ..c
        },
        None => ClusterView { transform: moved, has_relative_shift: shifted, ..c },
    }
}

/// Every cluster in its place.
pub open spec fn positioned(clusters: Seq<ClusterView>, o: Overrides) -> Seq<ClusterView> {
    Seq::new(clusters.len(), |k: int| placed(clusters, o, k))
}

/// The width of a chunk: where the pen stands after its last cluster.
pub open spec fn chunk_width(clusters: Seq<ClusterView>, o: Overrides) -> i64 {
    pen_x(clusters, o, clusters.len() as int)
}

/// The number `n`, or the greatest `usize` where `n` is greater.
pub open spec fn capped(n: nat) -> usize {
    if n > usize::MAX {
        usize::MAX
    } else {
        n as usize
    }
}

fn rotation_of(r: Rotation) -> (t: Transform)
    ensures
        t == rotation_matrix(r),
{
    match r {
        Rotation::Quarter => Transform { a: 0, b: 1, c: -1, d: 0, e: 0, f: 0 },
        Rotation::Half => Transform { a: -1, b: 0, c: 0, d: -1, e: 0, f: 0 },
        Rotation::ThreeQuarters => Transform { a: 0, b: -1, c: 1, d: 0, e: 0, f: 0 },
    }
}

/// Puts every cluster in its place along the line and returns the width of
/// the chunk. `char_offset` is the index of the chunk's first character in
/// the element.
pub fn resolve_clusters_positions(
    text: &str,
    char_offset: usize,
    shifts: &Vec<CharShift>,
    rotations: &Vec<Option<Rotation>>,
    clusters: &mut Vec<OutlinedCluster>,
) -> (width: i64)
    ensures
        ({
            let o = Overrides {
                bytes: vstd::utf8::encode_utf8(text@),
                char_offset: char_offset as nat,
                shifts: shifts@,
                rotations: rotations@,
            };
            &&& clusters_view(final(clusters)@) == positioned(clusters_view(old(clusters)@), o)
            &&& width == chunk_width(clusters_view(old(clusters)@), o)
        }),
{
    let bytes = text.as_bytes();
    let ghost o = Overrides {
        bytes: vstd::utf8::encode_utf8(text@),
        char_offset: char_offset as nat,
        shifts: shifts@,
        rotations: rotations@,
    };
    let ghost before = clusters_view(old(clusters)@);
    let n = clusters.len();
    let shifts_len = shifts.len();
    let rotations_len = rotations.len();
    let mut x: i64 = 0;
    let mut y: i64 = 0;
    let mut i: usize = 0;
    while i < n
        invariant
            i <= n,
            shifts_len == shifts@.len(),
            rotations_len == rotations@.len(),
            clusters@.len() == n,
            old(clusters)@.len() == n,
            before == clusters_view(old(clusters)@),
            bytes@ == o.bytes,
            o.char_offset == char_offset,
            o.shifts == shifts@,
            o.rotations == rotations@,
            x == pen_x(before, o, i as int),
            y == pen_y(before, o, i as int),
            forall|k: int| 0 <= k < i ==> (#[trigger] clusters@[k])@ == placed(before, o, k),
            forall|k: int| i <= k < n ==> clusters@[k] == old(clusters)@[k],
        decreases n - i,
    {
        let local = char_index(bytes, clusters[i].byte_idx);
        assert(before[i as int] == old(clusters)@[i as int]@);
        let ghost cp = o.char_of(before[i as int]);
        let mut dx: i64 = 0;
        let mut dy: i64 = 0;
        let mut shifted = clusters[i].has_relative_shift;
        let mut rotation: Option<Rotation> = None;
        // An index that does not fit in `usize` is beyond the end of both lists.
        if local <= usize::MAX - char_offset {
            let at = char_offset + local;
            assert(at == cp);
            if at < shifts.len() {
                dx = match shifts[at].dx {
                    Some(d) => d,
                    None => 0,
                };
                dy = match shifts[at].dy {
                    Some(d) => d,
                    None => 0,
                };
                shifted = dx != 0 || dy != 0;
            }
            if at < rotations.len() {
                rotation = rotations[at];
            }
        }
        assert(dx == shift_x(o.shifts, cp));
        assert(dy == shift_y(o.shifts, cp));
        assert(rotation == rotation_at(o.rotations, cp));
        x = sat_add(x, dx);
        y = sat_add(y, dy);
        let mut ts = clusters[i].transform;
        ts.translate(x, y);
        match rotation {
            Some(r) => {
                ts.append(&rotation_of(r));
                shifted = true;
            },
            None => {},
        }
        clusters[i].transform = ts;
        clusters[i].has_relative_shift = shifted;
        x = sat_add(x, clusters[i].advance);
        assert(clusters@[i as int]@ == placed(before, o, i as int));
        i += 1;
    }
    assert(clusters_view(clusters@) =~= positioned(before, o));
    x
}

/// What a walk along the clusters has found of the decoration runs of a
/// span: the runs that are closed, and the one that is still open.
pub struct Runs {
    pub closed: Seq<DecorationSpan>,
    pub open: Option<DecorationSpan>,
}

/// The runs after one more cluster. A cluster of the span extends the open
/// run, unless it is parted from the cluster before it: then it closes that
/// run and opens its own. A cluster outside the span closes the open run.
pub open spec fn runs_step(r: Runs, span: SpanView, c: ClusterView) -> Runs {
    let fresh = DecorationSpan { width: c.advance, transform: c.transform };
    if span.contains(c.byte_idx) {
        match r.open {
            Some(run) => if c.has_relative_shift {
                Runs { closed: r.closed.push(run), open: Some(fresh) }
            } else {
                Runs {
                    closed: r.closed,
                    open: Some(
                        DecorationSpan {
                            width: add_spec(run.width, c.advance),
                            transform: run.transform,
                        },
                    ),
                }
            },
            None => Runs { closed: r.closed, open: Some(fresh) },
        }
    } else {
        match r.open {
            Some(run) => Runs { closed: r.closed.push(run), open: None },
            None => r,
        }
    }
}

/// The runs after the first `k` clusters.
pub open spec fn runs_upto(span: SpanView, clusters: Seq<ClusterView>, k: int) -> Runs
    decreases k,
{
    if k <= 0 || k > clusters.len() {
        Runs { closed: Seq::empty(), open: None }
    } else {
        runs_step(runs_upto(span, clusters, k - 1), span, clusters[k - 1])
    }
}

/// The decoration runs of a span: the greatest runs of clusters of the
/// span that follow one another without a break, each with the sum of its
/// advances and the place of its first cluster.
pub open spec fn decoration_runs(span: SpanView, clusters: Seq<ClusterView>) -> Seq<
    DecorationSpan,
> {
    let r = runs_upto(span, clusters, clusters.len() as int);
    match r.open {
        Some(run) => r.closed.push(run),
        None => r.closed,
    }
}

/// Whether cluster `i` is one of the span.
pub open spec fn covered(span: SpanView, clusters: Seq<ClusterView>, i: int) -> bool {
    0 <= i < clusters.len() && span.contains(clusters[i].byte_idx)
}

/// Whether cluster `i` goes on in the run of the cluster before it: both
/// are of the span, and nothing parts them.
pub open spec fn continues_run(span: SpanView, clusters: Seq<ClusterView>, i: int) -> bool {
    covered(span, clusters, i) && covered(span, clusters, i - 1) && !clusters[i].has_relative_shift
}

/// Whether cluster `i` is the last of its run.
pub open spec fn ends_run(span: SpanView, clusters: Seq<ClusterView>, i: int) -> bool {
    covered(span, clusters, i) && !continues_run(span, clusters, i + 1)
}

/// The first cluster of the run that holds cluster `i`.
pub open spec fn run_start(span: SpanView, clusters: Seq<ClusterView>, i: int) -> int
    decreases i,
{
    if i > 0 && continues_run(span, clusters, i) {
        run_start(span, clusters, i - 1)
    } else {
        i
    }
}

/// The advances of the run that holds cluster `i`, summed from its first
/// cluster up to cluster `i`.
pub open spec fn run_width(span: SpanView, clusters: Seq<ClusterView>, i: int) -> i64
    decreases i,
{
    if i > 0 && continues_run(span, clusters, i) {
        add_spec(run_width(span, clusters, i - 1), clusters[i].advance)
    } else {
        clusters[i].advance
    }
}

/// The number of runs that end before cluster `k`.
pub open spec fn runs_ended(span: SpanView, clusters: Seq<ClusterView>, k: int) -> nat
    decreases k,
{
    if k <= 0 {
        0
    } else {
        runs_ended(span, clusters, k - 1) + if ends_run(span, clusters, k - 1) {
            1nat
        } else {
            0nat
        }
    }
}

/// The run that ends with cluster `i`: as wide as its clusters together,
/// in the place of its first cluster.
pub open spec fn run_ending(span: SpanView, clusters: Seq<ClusterView>, i: int) -> DecorationSpan {
    DecorationSpan {
        width: run_width(span, clusters, i),
        transform: clusters[run_start(span, clusters, i)].transform,
    }
}

proof fn runs_upto_are_runs(span: SpanView, clusters: Seq<ClusterView>, k: int)
    requires
        0 <= k <= clusters.len(),
    ensures
        runs_upto(span, clusters, k).closed.len() == runs_ended(span, clusters, k - 1),
        forall|j: int|
            0 <= j < k - 1 && ends_run(span, clusters, j) ==> runs_upto(span, clusters, k).closed[runs_ended(
                span,
                clusters,
                j,
            ) as int] == #[trigger] run_ending(span, clusters, j),
        forall|j: int| 0 <= j < k - 1 ==> runs_ended(span, clusters, j) <= #[trigger] runs_ended(
            span,
            clusters,
            j + 1,
        ) <= runs_ended(span, clusters, k - 1),
        runs_upto(span, clusters, k).open == if covered(span, clusters, k - 1) {
            Some(run_ending(span, clusters, k - 1))
        } else {
            None
        },
    decreases k,
{
    if k > 0 {
        runs_upto_are_runs(span, clusters, k - 1);
        let before = runs_upto(span, clusters, k - 1);
        let after = runs_upto(span, clusters, k);
        assert(after == runs_step(before, span, clusters[k - 1]));
        assert forall|j: int| 0 <= j < k - 1 && ends_run(span, clusters, j) implies after.closed[runs_ended(
            span,
            clusters,
            j,
        ) as int] == #[trigger] run_ending(span, clusters, j) by {
            if j < k - 2 {
                assert(runs_ended(span, clusters, j) < runs_ended(span, clusters, j + 1));
                assert(before.closed[runs_ended(span, clusters, j) as int] == run_ending(
                    span,
                    clusters,
                    j,
                ));
            }
        }
    }
}

/// The decoration runs of a span are its runs in order: one for every
/// cluster that is the last of its run, as wide as the clusters of the
/// run together, in the place of the first of them.
pub proof fn decoration_runs_are_the_runs(span: SpanView, clusters: Seq<ClusterView>)
    ensures
        decoration_runs(span, clusters).len() == runs_ended(
            span,
            clusters,
            clusters.len() as int,
        ),
        forall|j: int|
            0 <= j < clusters.len() && ends_run(span, clusters, j) ==> decoration_runs(
                span,
                clusters,
            )[runs_ended(span, clusters, j) as int] == #[trigger] run_ending(span, clusters, j),
{
    let n = clusters.len() as int;
    runs_upto_are_runs(span, clusters, n);
    let r = runs_upto(span, clusters, n);
    if n > 0 {
        assert(!covered(span, clusters, n));
        assert forall|j: int| 0 <= j < n && ends_run(span, clusters, j) implies decoration_runs(
            span,
            clusters,
        )[runs_ended(span, clusters, j) as int] == #[trigger] run_ending(span, clusters, j) by {
            if j < n - 1 {
                assert(runs_ended(span, clusters, j) < runs_ended(span, clusters, j + 1));
                assert(r.closed[runs_ended(span, clusters, j) as int] == run_ending(
                    span,
                    clusters,
                    j,
                ));
            }
        }
    }
}

/// Four clusters of one span, of which the third alone is parted from the
/// cluster before it, make two decoration runs: the first as wide as the
/// first two clusters together, the second as wide as the last two.
pub proof fn split_run_widths(
    span: SpanView,
    c0: ClusterView,
    c1: ClusterView,
    c2: ClusterView,
    c3: ClusterView,
)
    requires
        span.contains(c0.byte_idx),
        span.contains(c1.byte_idx),
        span.contains(c2.byte_idx),
        span.contains(c3.byte_idx),
        !c1.has_relative_shift,
        c2.has_relative_shift,
        !c3.has_relative_shift,
    ensures
        decoration_runs(span, seq![c0, c1, c2, c3]) == seq![
            DecorationSpan { width: add_spec(c0.advance, c1.advance), transform: c0.transform },
            DecorationSpan { width: add_spec(c2.advance, c3.advance), transform: c2.transform },
        ],
{
    let clusters = seq![c0, c1, c2, c3];
    reveal_with_fuel(runs_upto, 5);
    let r = runs_upto(span, clusters, 4);
    assert(r.closed =~= seq![
        DecorationSpan { width: add_spec(c0.advance, c1.advance), transform: c0.transform },
    ]);
    assert(decoration_runs(span, clusters) =~= seq![
        DecorationSpan { width: add_spec(c0.advance, c1.advance), transform: c0.transform },
        DecorationSpan { width: add_spec(c2.advance, c3.advance), transform: c2.transform },
    ]);
}

proof fn isolated_runs_upto(span: SpanView, clusters: Seq<ClusterView>, k: int)
    requires
        1 <= k <= clusters.len(),
        forall|i: int| 0 <= i < clusters.len() ==> span.contains((#[trigger] clusters[i]).byte_idx),
        forall|i: int| 1 <= i < clusters.len() ==> (#[trigger] clusters[i]).has_relative_shift,
    ensures
        runs_upto(span, clusters, k).closed.len() == k - 1,
        forall|i: int|
            0 <= i < k - 1 ==> #[trigger] runs_upto(span, clusters, k).closed[i] == (
            DecorationSpan { width: clusters[i].advance, transform: clusters[i].transform }),
        runs_upto(span, clusters, k).open == Some(
            DecorationSpan { width: clusters[k - 1].advance, transform: clusters[k - 1].transform },
        ),
    decreases k,
{
    if k > 1 {
        isolated_runs_upto(span, clusters, k - 1);
    } else {
        assert(runs_upto(span, clusters, 0).open is None);
    }
}

/// A span whose clusters are all parted from one another has one
/// decoration run for each cluster, as wide as that cluster.
pub proof fn isolated_clusters_run_alone(span: SpanView, clusters: Seq<ClusterView>)
    requires
        forall|i: int| 0 <= i < clusters.len() ==> span.contains((#[trigger] clusters[i]).byte_idx),
        forall|i: int| 1 <= i < clusters.len() ==> (#[trigger] clusters[i]).has_relative_shift,
    ensures
        decoration_runs(span, clusters).len() == clusters.len(),
        forall|i: int|
            0 <= i < clusters.len() ==> #[trigger] decoration_runs(span, clusters)[i] == (
            DecorationSpan { width: clusters[i].advance, transform: clusters[i].transform }),
{
    if clusters.len() > 0 {
        isolated_runs_upto(span, clusters, clusters.len() as int);
    }
}

/// A span that holds none of the clusters has no decoration run.
pub proof fn no_clusters_no_runs(span: SpanView, clusters: Seq<ClusterView>, k: int)
    requires
        0 <= k <= clusters.len(),
        forall|i: int| 0 <= i < clusters.len() ==> !span.contains((#[trigger] clusters[i]).byte_idx),
    ensures
        runs_upto(span, clusters, k).closed.len() == 0,
        runs_upto(span, clusters, k).open is None,
        k == clusters.len() ==> decoration_runs(span, clusters).len() == 0,
    decreases k,
{
    if k > 0 {
        no_clusters_no_runs(span, clusters, k - 1);
    }
}

/// The anchor takes nothing from the origin of a chunk that starts on it,
/// half the width of one that is centred on it, and the whole width of one
/// that ends on it, as far as the result is a coordinate. Half of an even
/// width is exact; half of an odd one is the nearer whole number to zero.
pub proof fn anchor_math(origin: i64, width: i64)
    ensures
        sub_spec(origin, anchor_offset(TextAnchor::Start, width)) == origin,
        i64::MIN <= origin - half_spec(width) <= i64::MAX ==> sub_spec(
            origin,
            anchor_offset(TextAnchor::Middle, width),
        ) == origin - half_spec(width),
        width % 2 == 0 ==> 2 * half_spec(width) == width,
        width >= 0 ==> half_spec(width) == width / 2,
        -1 <= width - 2 * half_spec(width) <= 1,
        i64::MIN <= origin - width <= i64::MAX ==> sub_spec(
            origin,
            anchor_offset(TextAnchor::End, width),
        ) == origin - width,
{
}

/// Collects the decoration runs of a span.
pub fn collect_decoration_spans(span: &TextSpan, clusters: &Vec<OutlinedCluster>) -> (spans: Vec<
    DecorationSpan,
>)
    ensures
        spans@ == decoration_runs(span@, clusters_view(clusters@)),
{
    let mut spans: Vec<DecorationSpan> = Vec::new();
    let mut started = false;
    let mut width: i64 = 0;
    let mut transform = Transform::identity();
    let ghost view = clusters_view(clusters@);
    let mut i: usize = 0;
    while i < clusters.len()
        invariant
            i <= clusters.len(),
            view == clusters_view(clusters@),
            spans@ == runs_upto(span@, view, i as int).closed,
            started == runs_upto(span@, view, i as int).open.is_some(),
            started ==> runs_upto(span@, view, i as int).open == Some(
                DecorationSpan { width, transform },
            ),
        decreases clusters.len() - i,
    {
        let cluster = &clusters[i];
        assert(view[i as int] == cluster@);
        if span.contains(cluster.byte_idx) {
            if started && cluster.has_relative_shift {
                started = false;
                spans.push(DecorationSpan { width, transform });
            }
            if !started {
                width = cluster.advance;
                started = true;
                transform = cluster.transform;
            } else {
                width = sat_add(width, cluster.advance);
            }
        } else if started {
            spans.push(DecorationSpan { width, transform });
            started = false;
        }
        i += 1;
    }
    if started {
        spans.push(DecorationSpan { width, transform });
    }
    spans
}

} // verus!
