//! From a text element as the document gives it to chunks that can be
//! shaped: the flat lists of what single characters ask for, and the split
//! into chunks where a character names a place of its own.

use vstd::prelude::*;
use vstd::string::{StrSliceExecFns, StringExecFns, StringSliceAdditionalSpecFns};
use vstd::utf8::{
    decode_utf8, encode_utf8, encode_utf8_decode_utf8, encode_utf8_valid_utf8,
    is_char_boundary_iff_not_is_continuation_byte, is_char_boundary_start_end_of_seq,
};
use crate::geom::Transform;
use crate::text_layout::{char_index, is_lead_byte, lead_bytes};
use crate::text_model::{
    chunks_view, spans_view, CharShift, ChunkView, Rotation, SpanView, TextAnchor, TextChunk,
    TextElement, TextSpan, TextView, WritingMode,
};

verus! {

/// What one character asks for: a place of its own along either axis, and
/// a shift along either axis.
#[derive(Clone, Copy, Debug, PartialEq, Eq, Structural)]
pub struct CharPosition {
    pub x: Option<i64>,
    pub y: Option<i64>,
    pub dx: Option<i64>,
    pub dy: Option<i64>,
}

/// What one element of a text subtree declares for its characters: the
/// values, in order, for the characters from `first_char` on, of which it
/// holds `chars`. Every list counts from the first character of the
/// element; the last rotation holds for every later character of it.
#[derive(Clone, Debug, PartialEq, Eq)]
pub struct PositionList {
    pub first_char: usize,
    pub chars: usize,
    pub x: Vec<i64>,
    pub y: Vec<i64>,
    pub dx: Vec<i64>,
    pub dy: Vec<i64>,
    pub rotate: Vec<Option<Rotation>>,
}

impl PositionList {
    /// Whether the element holds character `c`.
    pub open spec fn holds(self, c: int) -> bool {
        self.first_char <= c < self.first_char + self.chars
    }

    /// The value that the element declares for character `c` in `values`.
    pub open spec fn declared(self, values: Seq<i64>, c: int) -> Option<i64> {
        if self.holds(c) && c - self.first_char < values.len() {
            Some(values[c - self.first_char])
        } else {
            None
        }
    }

    /// Whether the element declares a rotation for character `c`.
    pub open spec fn turns(self, c: int) -> bool {
        self.holds(c) && self.rotate@.len() > 0
    }

    /// The rotation that the element declares for character `c`: the one
    /// in its place, or the last one where the list is shorter.
    pub open spec fn declared_rotation(self, c: int) -> Option<Rotation> {
        if c - self.first_char < self.rotate@.len() {
            self.rotate@[c - self.first_char]
        } else {
            self.rotate@.last()
        }
    }
}

/// `later` where it is a value, else `earlier`.
pub open spec fn or_earlier(later: Option<i64>, earlier: Option<i64>) -> Option<i64> {
    match later {
        Some(v) => Some(v),
        None => earlier,
    }
}

/// What character `c` asks for after the first `n` elements were read. An
/// element that is read later, as one that lies deeper in the subtree is,
/// overrides what was read before.
pub open spec fn position_at(lists: Seq<PositionList>, c: int, n: int) -> CharPosition
    decreases n,
{
    if n <= 0 || n > lists.len() {
        CharPosition { x: None, y: None, dx: None, dy: None }
    } else {
        let before = position_at(lists, c, n - 1);
        let l = lists[n - 1];
        CharPosition {
            x: or_earlier(l.declared(l.x@, c), before.x),
            y: or_earlier(l.declared(l.y@, c), before.y),
            dx: or_earlier(l.declared(l.dx@, c), before.dx),
            dy: or_earlier(l.declared(l.dy@, c), before.dy),
        }
    }
}

/// The rotation of character `c` after the first `n` elements were read.
pub open spec fn rotation_of(lists: Seq<PositionList>, c: int, n: int) -> Option<Rotation>
    decreases n,
{
    if n <= 0 || n > lists.len() {
        None
    } else if lists[n - 1].turns(c) {
        lists[n - 1].declared_rotation(c)
    } else {
        rotation_of(lists, c, n - 1)
    }
}

fn declared_in(values: &Vec<i64>, k: usize, earlier: Option<i64>) -> (r: Option<i64>)
    ensures
        r == if k < values@.len() {
            Some(values@[k as int])
        } else {
            earlier
        },
{
    if k < values.len() {
        Some(values[k])
    } else {
        earlier
    }
}

/// Collects what every one of `total` characters asks for.
pub fn resolve_positions_list(lists: &Vec<PositionList>, total: usize) -> (r: Vec<CharPosition>)
    ensures
        r@.len() == total,
        forall|c: int| 0 <= c < total ==> r@[c] == position_at(lists@, c, lists@.len() as int),
{
    let mut r: Vec<CharPosition> = Vec::new();
    let mut c: usize = 0;
    while c < total
        invariant
            c <= total,
            r@.len() == c,
            forall|k: int| 0 <= k < c ==> r@[k] == position_at(lists@, k, 0),
        decreases total - c,
    {
        r.push(CharPosition { x: None, y: None, dx: None, dy: None });
        c += 1;
    }
    let mut n: usize = 0;
    while n < lists.len()
        invariant
            n <= lists.len(),
            r@.len() == total,
            forall|k: int| 0 <= k < total ==> r@[k] == position_at(lists@, k, n as int),
        decreases lists.len() - n,
    {
        let l = &lists[n];
        let ghost before = r@;
        let mut c = l.first_char;
        let mut k: usize = 0;
        while k < l.chars && c < total
            invariant
                k <= l.chars,
                c == l.first_char + k,
                r@.len() == total,
                n < lists@.len(),
                l == &lists@[n as int],
                before.len() == total,
                forall|j: int| 0 <= j < total ==> before[j] == position_at(lists@, j, n as int),
                forall|j: int|
                    0 <= j < total && (j < l.first_char || j >= c) ==> r@[j] == before[j],
                forall|j: int|
                    l.first_char <= j < c && j < total ==> r@[j] == position_at(
                        lists@,
                        j,
                        n as int + 1,
                    ),
            decreases l.chars - k,
        {
            let old_position = r[c];
            let position = CharPosition {
                x: declared_in(&l.x, k, old_position.x),
                y: declared_in(&l.y, k, old_position.y),
                dx: declared_in(&l.dx, k, old_position.dx),
                dy: declared_in(&l.dy, k, old_position.dy),
            };
            proof {
                assert(l.holds(c as int));
                assert(old_position == before[c as int]);
                assert(l.declared(l.x@, c as int) == if k < l.x@.len() {
                    Some(l.x@[k as int])
                } else {
                    None::<i64>
                });
                assert(position == position_at(lists@, c as int, n as int + 1));
            }
            r.set(c, position);
            k += 1;
            c += 1;
        }
        assert forall|j: int| 0 <= j < total implies r@[j] == position_at(
            lists@,
            j,
            n as int + 1,
        ) by {
            if j < l.first_char || j >= c {
                assert(r@[j] == before[j]);
                assert(!l.holds(j));
            }
        }
        n += 1;
    }
    r
}

/// Collects the rotation of every one of `total` characters.
pub fn resolve_rotate_list(lists: &Vec<PositionList>, total: usize) -> (r: Vec<Option<Rotation>>)
    ensures
        r@.len() == total,
        forall|c: int| 0 <= c < total ==> r@[c] == rotation_of(lists@, c, lists@.len() as int),
{
    let mut r: Vec<Option<Rotation>> = Vec::new();
    let mut c: usize = 0;
    while c < total
        invariant
            c <= total,
            r@.len() == c,
            forall|k: int| 0 <= k < c ==> r@[k] == rotation_of(lists@, k, 0),
        decreases total - c,
    {
        r.push(None);
        c += 1;
    }
    let mut n: usize = 0;
    while n < lists.len()
        invariant
            n <= lists.len(),
            r@.len() == total,
            forall|k: int| 0 <= k < total ==> r@[k] == rotation_of(lists@, k, n as int),
        decreases lists.len() - n,
    {
        let l = &lists[n];
        let ghost before = r@;
        let count = l.rotate.len();
        if count > 0 {
            let mut c = l.first_char;
            let mut k: usize = 0;
            while k < l.chars && c < total
                invariant
                    k <= l.chars,
                    c == l.first_char + k,
                    count == l.rotate@.len(),
                    count > 0,
                    r@.len() == total,
                    n < lists@.len(),
                    l == &lists@[n as int],
                    before.len() == total,
                    forall|j: int|
                        0 <= j < total ==> before[j] == rotation_of(lists@, j, n as int),
                    forall|j: int|
                        0 <= j < total && (j < l.first_char || j >= c) ==> r@[j] == before[j],
                    forall|j: int|
                        l.first_char <= j < c && j < total ==> r@[j] == rotation_of(
                            lists@,
                            j,
                            n as int + 1,
                        ),
                decreases l.chars - k,
            {
                let rotation = if k < count {
                    l.rotate[k]
                } else {
                    l.rotate[count - 1]
                };
                r.set(c, rotation);
                k += 1;
                c += 1;
            }
            assert forall|j: int| 0 <= j < total implies r@[j] == rotation_of(
                lists@,
                j,
                n as int + 1,
            ) by {
                if j < l.first_char || j >= c {
                    assert(r@[j] == before[j]);
                    assert(!l.holds(j));
                }
            }
        }
        n += 1;
    }
    r
}

/// The shift that a character asks for.
pub open spec fn shift_of(p: CharPosition) -> CharShift {
    CharShift { dx: p.dx, dy: p.dy }
}

/// The shifts that the characters ask for, in order.
pub fn shifts_of(positions: &Vec<CharPosition>) -> (r: Vec<CharShift>)
    ensures
        r@ == Seq::new(positions@.len(), |c: int| shift_of(positions@[c])),
{
    let mut r: Vec<CharShift> = Vec::new();
    let mut c: usize = 0;
    while c < positions.len()
        invariant
            c <= positions.len(),
            r@.len() == c,
            forall|k: int| 0 <= k < c ==> r@[k] == shift_of(positions@[k]),
        decreases positions.len() - c,
    {
        r.push(CharShift { dx: positions[c].dx, dy: positions[c].dy });
        c += 1;
    }
    assert(r@ =~= Seq::new(positions@.len(), |c: int| shift_of(positions@[c])));
    r
}

/// A styled run of a text element: the bytes of its text that the span
/// names, with the anchor and the spacing that hold where the run starts a
/// chunk.
#[derive(Clone, Debug, PartialEq, Eq)]
pub struct TextRun {
    pub anchor: TextAnchor,
    pub letter_spacing: i64,
    pub word_spacing: i64,
    pub span: TextSpan,
}

pub struct RunView {
    pub anchor: TextAnchor,
    pub letter_spacing: i64,
    pub word_spacing: i64,
    pub span: SpanView,
}

impl View for TextRun {
    type V = RunView;

    open spec fn view(&self) -> RunView {
        RunView {
            anchor: self.anchor,
            letter_spacing: self.letter_spacing,
            word_spacing: self.word_spacing,
            span: self.span@,
        }
    }
}

/// The views of a sequence of runs, in order.
pub open spec fn runs_view(runs: Seq<TextRun>) -> Seq<RunView> {
    Seq::new(runs.len(), |i: int| runs[i]@)
}

/// Whether character `c` names a place of its own along either axis.
pub open spec fn asks_place(positions: Seq<CharPosition>, c: nat) -> bool {
    c < positions.len() && (positions[c as int].x is Some || positions[c as int].y is Some)
}

/// Whether a chunk starts at byte `b`: a character starts there, and it is
/// the first of the text or names a place of its own.
pub open spec fn starts_chunk(bytes: Seq<u8>, positions: Seq<CharPosition>, b: int) -> bool {
    &&& 0 <= b < bytes.len()
    &&& is_lead_byte(bytes[b])
    &&& (b == 0 || asks_place(positions, lead_bytes(bytes, b)))
}

/// The first byte from `b` on at which a chunk starts; the length of the
/// text where there is none.
pub open spec fn next_start(bytes: Seq<u8>, positions: Seq<CharPosition>, b: int) -> int
    decreases bytes.len() - b,
{
    if b >= bytes.len() {
        bytes.len() as int
    } else if starts_chunk(bytes, positions, b) {
        b
    } else {
        next_start(bytes, positions, b + 1)
    }
}

/// The first run that holds byte `b`, among the first `n`.
pub open spec fn owner(runs: Seq<RunView>, b: int, n: int) -> Option<RunView>
    decreases n,
{
    if n <= 0 || n > runs.len() {
        None
    } else {
        match owner(runs, b, n - 1) {
            Some(r) => Some(r),
            None => if runs[n - 1].span.contains(b as usize) && 0 <= b <= usize::MAX {
                Some(runs[n - 1])
            } else {
                None
            },
        }
    }
}

/// The part of a run that lies within the bytes `lo..hi`, counted from
/// `lo`; nothing where the run has no byte there.
pub open spec fn span_within(run: RunView, lo: int, hi: int) -> Seq<SpanView> {
    let from = if run.span.start > lo {
        run.span.start as int
    } else {
        lo
    };
    let to = if run.span.end < hi {
        run.span.end as int
    } else {
        hi
    };
    if from < to {
        seq![SpanView { start: (from - lo) as usize, end: (to - lo) as usize, ..run.span }]
    } else {
        Seq::empty()
    }
}

/// The parts of the first `n` runs that lie within the bytes `lo..hi`.
pub open spec fn spans_within(runs: Seq<RunView>, lo: int, hi: int, n: int) -> Seq<SpanView>
    decreases n,
{
    if n <= 0 || n > runs.len() {
        Seq::empty()
    } else {
        spans_within(runs, lo, hi, n - 1) + span_within(runs[n - 1], lo, hi)
    }
}

/// The chunk of the bytes `lo..hi`. It starts where its first character
/// says, has the anchor and the spacing of the run that holds that
/// character, and holds the parts of all runs that lie within it.
pub open spec fn chunk_for(
    bytes: Seq<u8>,
    runs: Seq<RunView>,
    positions: Seq<CharPosition>,
    lo: int,
    hi: int,
) -> ChunkView {
    let c = lead_bytes(bytes, lo);
    let first = owner(runs, lo, runs.len() as int);
    ChunkView {
        x: if c < positions.len() {
            positions[c as int].x
        } else {
            None
        },
        y: if c < positions.len() {
            positions[c as int].y
        } else {
            None
        },
        anchor: match first {
            Some(r) => r.anchor,
            None => TextAnchor::Start,
        },
        letter_spacing: match first {
            Some(r) => r.letter_spacing,
            None => 0,
        },
        word_spacing: match first {
            Some(r) => r.word_spacing,
            None => 0,
        },
        spans: spans_within(runs, lo, hi, runs.len() as int),
        bytes: bytes.subrange(lo, hi),
        chars: decode_utf8(bytes.subrange(lo, hi)).len(),
    }
}

/// The chunks of the text from byte `lo` on: one from every byte at which
/// a chunk starts to the next such byte.
pub open spec fn chunk_list(
    bytes: Seq<u8>,
    runs: Seq<RunView>,
    positions: Seq<CharPosition>,
    lo: int,
) -> Seq<ChunkView>
    decreases bytes.len() - lo,
{
    if lo < 0 || lo >= bytes.len() {
        Seq::empty()
    } else {
        let hi = next_start(bytes, positions, lo + 1);
        if hi <= lo || hi > bytes.len() {
            Seq::empty()
        } else {
            seq![chunk_for(bytes, runs, positions, lo, hi)] + chunk_list(bytes, runs, positions, hi)
        }
    }
}

/// The bytes of the chunks, one chunk after the other.
pub open spec fn joined(chunks: Seq<ChunkView>) -> Seq<u8>
    decreases chunks.len(),
{
    if chunks.len() == 0 {
        Seq::empty()
    } else {
        chunks[0].bytes + joined(chunks.drop_first())
    }
}

proof fn next_start_bounds(bytes: Seq<u8>, positions: Seq<CharPosition>, b: int)
    requires
        0 <= b <= bytes.len(),
    ensures
        b <= next_start(bytes, positions, b) <= bytes.len(),
    decreases bytes.len() - b,
{
    if b < bytes.len() && !starts_chunk(bytes, positions, b) {
        next_start_bounds(bytes, positions, b + 1);
    }
}

/// The chunks of a text take it apart without loss: no chunk is empty, and
/// the chunks from a byte on, put together, are the text from that byte on.
pub proof fn chunks_cover_text(
    bytes: Seq<u8>,
    runs: Seq<RunView>,
    positions: Seq<CharPosition>,
    lo: int,
)
    requires
        0 <= lo <= bytes.len(),
    ensures
        joined(chunk_list(bytes, runs, positions, lo)) == bytes.subrange(lo, bytes.len() as int),
        forall|k: int|
            0 <= k < chunk_list(bytes, runs, positions, lo).len() ==> (#[trigger] chunk_list(
                bytes,
                runs,
                positions,
                lo,
            )[k]).bytes.len() > 0,
    decreases bytes.len() - lo,
{
    let all = chunk_list(bytes, runs, positions, lo);
    if lo < bytes.len() {
        let hi = next_start(bytes, positions, lo + 1);
        next_start_bounds(bytes, positions, lo + 1);
        let first = chunk_for(bytes, runs, positions, lo, hi);
        let rest = chunk_list(bytes, runs, positions, hi);
        chunks_cover_text(bytes, runs, positions, hi);
        assert(all == seq![first] + rest);
        assert(all.drop_first() =~= rest);
        assert(all[0] == first);
        assert(bytes.subrange(lo, hi) + bytes.subrange(hi, bytes.len() as int) =~= bytes.subrange(
            lo,
            bytes.len() as int,
        ));
        assert forall|k: int| 0 <= k < all.len() implies (#[trigger] all[k]).bytes.len() > 0 by {
            if k > 0 {
                assert(all[k] == rest[k - 1]);
            }
        }
    } else {
        assert(bytes.subrange(lo, bytes.len() as int) =~= Seq::<u8>::empty());
    }
}

proof fn next_start_found(bytes: Seq<u8>, positions: Seq<CharPosition>, from: int, hi: int)
    requires
        0 <= from <= hi <= bytes.len(),
        forall|b: int| from <= b < hi ==> !starts_chunk(bytes, positions, b),
        hi == bytes.len() || starts_chunk(bytes, positions, hi),
    ensures
        next_start(bytes, positions, from) == hi,
    decreases hi - from,
{
    if from < hi {
        next_start_found(bytes, positions, from + 1, hi);
    }
}

fn find_owner(runs: &Vec<TextRun>, b: usize) -> (r: Option<usize>)
    ensures
        match r {
            Some(i) => i < runs@.len() && owner(runs_view(runs@), b as int, runs@.len() as int)
                == Some(runs@[i as int]@),
            None => owner(runs_view(runs@), b as int, runs@.len() as int) is None,
        },
{
    let ghost view = runs_view(runs@);
    let mut i: usize = 0;
    while i < runs.len()
        invariant
            i <= runs.len(),
            view == runs_view(runs@),
            owner(view, b as int, i as int) is None,
        decreases runs.len() - i,
    {
        if runs[i].span.contains(b) {
            proof {
                owner_stays(view, b as int, i as int + 1, runs@.len() as int);
            }
            return Some(i);
        }
        i += 1;
    }
    None
}

proof fn owner_stays(runs: Seq<RunView>, b: int, n: int, m: int)
    requires
        0 <= n <= m <= runs.len(),
        owner(runs, b, n) is Some,
    ensures
        owner(runs, b, m) == owner(runs, b, n),
    decreases m - n,
{
    if n < m {
        owner_stays(runs, b, n, m - 1);
    }
}

fn collect_spans(runs: &Vec<TextRun>, lo: usize, hi: usize) -> (r: Vec<TextSpan>)
    requires
        lo <= hi,
    ensures
        spans_view(r@) == spans_within(runs_view(runs@), lo as int, hi as int, runs@.len() as int),
{
    let ghost view = runs_view(runs@);
    let mut r: Vec<TextSpan> = Vec::new();
    let mut i: usize = 0;
    assert(spans_view(r@) =~= spans_within(view, lo as int, hi as int, 0));
    while i < runs.len()
        invariant
            i <= runs.len(),
            lo <= hi,
            view == runs_view(runs@),
            spans_view(r@) == spans_within(view, lo as int, hi as int, i as int),
        decreases runs.len() - i,
    {
        let run = &runs[i];
        assert(view[i as int] == run@);
        let from = if run.span.start > lo {
            run.span.start
        } else {
            lo
        };
        let to = if run.span.end < hi {
            run.span.end
        } else {
            hi
        };
        let ghost seen = spans_view(r@);
        if from < to {
            let mut span = run.span.duplicate();
            span.start = from - lo;
            span.end = to - lo;
            r.push(span);
            assert(spans_view(r@) =~= seen + span_within(run@, lo as int, hi as int));
        } else {
            assert(spans_view(r@) =~= seen + span_within(run@, lo as int, hi as int));
        }
        i += 1;
    }
    r
}

fn place_is_asked(positions: &Vec<CharPosition>, c: usize) -> (r: bool)
    ensures
        r == asks_place(positions@, c as nat),
{
    c < positions.len() && (positions[c].x.is_some() || positions[c].y.is_some())
}

/// Splits the text of an element into chunks: a new chunk starts with the
/// first character and with every character that names a place of its own.
pub fn collect_text_chunks(text: &str, runs: &Vec<TextRun>, positions: &Vec<CharPosition>) -> (r:
    Vec<TextChunk>)
    ensures
        chunks_view(r@) == chunk_list(encode_utf8(text@), runs_view(runs@), positions@, 0),
{
    let bytes = text.as_bytes();
    let n = bytes.len();
    let ghost all = encode_utf8(text@);
    let ghost view = runs_view(runs@);
    proof {
        encode_utf8_valid_utf8(text@);
    }
    let mut chunks: Vec<TextChunk> = Vec::new();
    let mut lo: usize = 0;
    assert(chunks_view(chunks@) + chunk_list(all, view, positions@, 0) =~= chunk_list(
        all,
        view,
        positions@,
        0,
    ));
    while lo < n
        invariant
            lo <= n,
            n == all.len(),
            bytes@ == all,
            all == encode_utf8(text@),
            vstd::utf8::valid_utf8(all),
            view == runs_view(runs@),
            lo < n ==> is_lead_byte(all[lo as int]),
            chunks_view(chunks@) + chunk_list(all, view, positions@, lo as int) == chunk_list(
                all,
                view,
                positions@,
                0,
            ),
        decreases n - lo,
    {
        let mut hi: usize = lo + 1;
        while hi < n && !((bytes[hi] < 0x80 || bytes[hi] >= 0xC0) && place_is_asked(
            positions,
            char_index(bytes, hi),
        ))
            invariant
                lo < hi <= n,
                n == all.len(),
                bytes@ == all,
                forall|b: int| lo < b < hi ==> !starts_chunk(all, positions@, b),
            decreases n - hi,
        {
            hi += 1;
        }
        proof {
            next_start_found(all, positions@, lo as int + 1, hi as int);
            is_char_boundary_start_end_of_seq(all);
            if hi < n {
                is_char_boundary_iff_not_is_continuation_byte(all, hi as int);
            }
            if lo > 0 {
                is_char_boundary_iff_not_is_continuation_byte(all, lo as int);
            }
        }
        let head = text.split_at(hi).0;
        proof {
            encode_utf8_valid_utf8(head@);
            assert(head.spec_bytes() =~= all.subrange(0, hi as int));
            is_char_boundary_start_end_of_seq(head.spec_bytes());
            if lo > 0 {
                is_char_boundary_iff_not_is_continuation_byte(head.spec_bytes(), lo as int);
            }
        }
        let piece = head.split_at(lo).1;
        proof {
            assert(piece.spec_bytes() =~= all.subrange(lo as int, hi as int));
            encode_utf8_decode_utf8(piece@);
        }
        let c = char_index(bytes, lo);
        let (x, y) = if c < positions.len() {
            (positions[c].x, positions[c].y)
        } else {
            (None, None)
        };
        let (anchor, letter_spacing, word_spacing) = match find_owner(runs, lo) {
            Some(i) => (runs[i].anchor, runs[i].letter_spacing, runs[i].word_spacing),
            None => (TextAnchor::Start, 0, 0),
        };
        let chunk = TextChunk {
            x,
            y,
            anchor,
            letter_spacing,
            word_spacing,
            spans: collect_spans(runs, lo, hi),
            text: String::from_str(piece),
        };
        assert(chunk@ == chunk_for(all, view, positions@, lo as int, hi as int));
        let ghost done = chunks_view(chunks@);
        chunks.push(chunk);
        assert(chunks_view(chunks@) =~= done + seq![chunk@]);
        assert(done + seq![chunk@] + chunk_list(all, view, positions@, hi as int) =~= done + (
        seq![chunk@] + chunk_list(all, view, positions@, hi as int)));
        lo = hi;
    }
    assert(chunks_view(chunks@) + Seq::<ChunkView>::empty() =~= chunks_view(chunks@));
    chunks
}

/// A text element ready for shaping: the chunks of the text, and what its
/// characters ask for.
pub open spec fn prepared(
    text: Seq<char>,
    runs: Seq<RunView>,
    lists: Seq<PositionList>,
    transform: Transform,
    writing_mode: WritingMode,
) -> TextView {
    let positions = Seq::new(text.len(), |c: int| position_at(lists, c, lists.len() as int));
    TextView {
        transform,
        writing_mode,
        chunks: chunk_list(encode_utf8(text), runs, positions, 0),
        shifts: Seq::new(text.len(), |c: int| shift_of(positions[c])),
        rotations: Seq::new(text.len(), |c: int| rotation_of(lists, c, lists.len() as int)),
    }
}

/// Reads a text element: collects what its characters ask for and splits
/// its text into chunks.
pub fn prepare(
    text: &str,
    runs: &Vec<TextRun>,
    lists: &Vec<PositionList>,
    transform: Transform,
    writing_mode: WritingMode,
) -> (r: TextElement)
    ensures
        r@ == prepared(text@, runs_view(runs@), lists@, transform, writing_mode),
{
    let total = text.unicode_len();
    let positions = resolve_positions_list(lists, total);
    let rotations = resolve_rotate_list(lists, total);
    let shifts = shifts_of(&positions);
    let chunks = collect_text_chunks(text, runs, &positions);
    proof {
        let expected = prepared(text@, runs_view(runs@), lists@, transform, writing_mode);
        assert(positions@ =~= Seq::new(
            text@.len(),
            |c: int| position_at(lists@, c, lists@.len() as int),
        ));
        assert(shifts@ =~= expected.shifts);
        assert(rotations@ =~= expected.rotations);
    }
    TextElement { transform, writing_mode, chunks, shifts, rotations }
}

} // verus!
