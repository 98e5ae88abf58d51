//! Affine transforms, path segments and bounding boxes over whole units.

use vstd::prelude::*;
use crate::scalar::{add_spec, mul_spec, neg_spec, sub_spec, sat_add, sat_mul, sat_neg, sat_sub};

verus! {

/// An affine map `(x, y) -> (a*x + c*y + e, b*x + d*y + f)`.
#[derive(Clone, Copy, Debug, PartialEq, Eq, Structural)]
pub struct Transform {
    pub a: i64,
    pub b: i64,
    pub c: i64,
    pub d: i64,
    pub e: i64,
    pub f: i64,
}

/// One command of a path outline.
#[derive(Clone, Copy, Debug, PartialEq, Eq, Structural)]
pub enum PathSegment {
    MoveTo { x: i64, y: i64 },
    LineTo { x: i64, y: i64 },
    CurveTo { x1: i64, y1: i64, x2: i64, y2: i64, x: i64, y: i64 },
    ClosePath,
}

/// An axis-parallel rectangle given by a corner and its extent.
#[derive(Clone, Copy, Debug, PartialEq, Eq, Structural)]
pub struct Rect {
    pub x: i64,
    pub y: i64,
    pub width: i64,
    pub height: i64,
}

/// The least and greatest coordinates of a set of points.
#[derive(Clone, Copy, Debug, PartialEq, Eq, Structural)]
pub struct Bounds {
    pub min_x: i64,
    pub min_y: i64,
    pub max_x: i64,
    pub max_y: i64,
}

impl Transform {
    /// The map that leaves every point where it is.
    pub open spec fn identity_spec() -> Transform {
        Transform { a: 1, b: 0, c: 0, d: 1, e: 0, f: 0 }
    }

    /// The shift by `(x, y)`.
    pub open spec fn translation_spec(x: i64, y: i64) -> Transform {
        Transform { a: 1, b: 0, c: 0, d: 1, e: x, f: y }
    }

    /// The quarter turn that takes the x axis onto the y axis.
    pub open spec fn quarter_turn_spec() -> Transform {
        Transform { a: 0, b: 1, c: -1i64, d: 0, e: 0, f: 0 }
    }

    /// The first coordinate of the image of `(x, y)`.
    pub open spec fn apply_x(self, x: i64, y: i64) -> i64 {
        add_spec(add_spec(mul_spec(self.a, x), mul_spec(self.c, y)), self.e)
    }

    /// The second coordinate of the image of `(x, y)`.
    pub open spec fn apply_y(self, x: i64, y: i64) -> i64 {
        add_spec(add_spec(mul_spec(self.b, x), mul_spec(self.d, y)), self.f)
    }

    /// The map that applies `other` first and `self` second.
    pub open spec fn after(self, other: Transform) -> Transform {
        Transform {
            a: add_spec(mul_spec(self.a, other.a), mul_spec(self.c, other.b)),
            b: add_spec(mul_spec(self.b, other.a), mul_spec(self.d, other.b)),
            c: add_spec(mul_spec(self.a, other.c), mul_spec(self.c, other.d)),
            d: add_spec(mul_spec(self.b, other.c), mul_spec(self.d, other.d)),
            e: add_spec(add_spec(mul_spec(self.a, other.e), mul_spec(self.c, other.f)), self.e),
            f: add_spec(add_spec(mul_spec(self.b, other.e), mul_spec(self.d, other.f)), self.f),
        }
    }

    /// `self` with a shift by `(x, y)` applied before it.
    pub open spec fn translated(self, x: i64, y: i64) -> Transform {
        self.after(Transform::translation_spec(x, y))
    }

    /// `self` with a quarter turn about `(x, y)` applied before it.
    pub open spec fn quarter_turned_at(self, x: i64, y: i64) -> Transform {
        self.translated(x, y).after(Transform::quarter_turn_spec()).translated(
            neg_spec(x),
            neg_spec(y),
        )
    }

    /// The map that takes the unit square onto `r`.
    pub open spec fn from_bbox_spec(r: Rect) -> Transform {
        Transform { a: r.width, b: 0, c: 0, d: r.height, e: r.x, f: r.y }
    }

    /// The image of one path command.
    pub open spec fn apply_segment(self, seg: PathSegment) -> PathSegment {
        match seg {
            PathSegment::MoveTo { x, y } => PathSegment::MoveTo {
                x: self.apply_x(x, y),
                y: self.apply_y(x, y),
            },
            PathSegment::LineTo { x, y } => PathSegment::LineTo {
                x: self.apply_x(x, y),
                y: self.apply_y(x, y),
            },
            PathSegment::CurveTo { x1, y1, x2, y2, x, y } => PathSegment::CurveTo {
                x1: self.apply_x(x1, y1),
                y1: self.apply_y(x1, y1),
                x2: self.apply_x(x2, y2),
                y2: self.apply_y(x2, y2),
                x: self.apply_x(x, y),
                y: self.apply_y(x, y),
            },
            PathSegment::ClosePath => PathSegment::ClosePath,
        }
    }

    /// The image of a whole outline.
    pub open spec fn apply_path(self, segs: Seq<PathSegment>) -> Seq<PathSegment> {
        Seq::new(segs.len(), |i: int| self.apply_segment(segs[i]))
    }

    pub fn identity() -> (r: Transform)
        ensures
            r == Transform::identity_spec(),
    {
        Transform { a: 1, b: 0, c: 0, d: 1, e: 0, f: 0 }
    }

    pub fn new_translate(x: i64, y: i64) -> (r: Transform)
        ensures
            r == Transform::translation_spec(x, y),
    {
        Transform { a: 1, b: 0, c: 0, d: 1, e: x, f: y }
    }

    /// Maps the point `(x, y)`.
    pub fn apply(&self, x: i64, y: i64) -> (r: (i64, i64))
        ensures
            r.0 == self.apply_x(x, y),
            r.1 == self.apply_y(x, y),
    {
        (
            sat_add(sat_add(sat_mul(self.a, x), sat_mul(self.c, y)), self.e),
            sat_add(sat_add(sat_mul(self.b, x), sat_mul(self.d, y)), self.f),
        )
    }

    /// Replaces `self` by the map that applies `other` first and `self` second.
    pub fn append(&mut self, other: &Transform)
        ensures
            *final(self) == old(self).after(*other),
    {
        let s = *self;
        *self = Transform {
            a: sat_add(sat_mul(s.a, other.a), sat_mul(s.c, other.b)),
            b: sat_add(sat_mul(s.b, other.a), sat_mul(s.d, other.b)),
            c: sat_add(sat_mul(s.a, other.c), sat_mul(s.c, other.d)),
            d: sat_add(sat_mul(s.b, other.c), sat_mul(s.d, other.d)),
            e: sat_add(sat_add(sat_mul(s.a, other.e), sat_mul(s.c, other.f)), s.e),
            f: sat_add(sat_add(sat_mul(s.b, other.e), sat_mul(s.d, other.f)), s.f),
        };
    }

    /// Replaces `self` by the map that applies `self` first and `other` second.
    pub fn prepend(&mut self, other: &Transform)
        ensures
            *final(self) == other.after(*old(self)),
    {
        let mut t = *other;
        t.append(self);
        *self = t;
    }

    /// Shifts by `(x, y)` before `self`.
    pub fn translate(&mut self, x: i64, y: i64)
        ensures
            *final(self) == old(self).translated(x, y),
    {
        let t = Transform::new_translate(x, y);
        self.append(&t);
    }

    /// Turns by a right angle about `(x, y)` before `self`.
    pub fn rotate_quarter_at(&mut self, x: i64, y: i64)
        ensures
            *final(self) == old(self).quarter_turned_at(x, y),
    {
        self.translate(x, y);
        let q = Transform { a: 0, b: 1, c: -1, d: 0, e: 0, f: 0 };
        self.append(&q);
        self.translate(sat_neg(x), sat_neg(y));
    }

    /// The map that takes the unit square onto `r`.
    pub fn from_bbox(r: Rect) -> (t: Transform)
        ensures
            t == Transform::from_bbox_spec(r),
    {
        Transform { a: r.width, b: 0, c: 0, d: r.height, e: r.x, f: r.y }
    }

    /// Maps one path command.
    pub fn apply_to_segment(&self, seg: PathSegment) -> (r: PathSegment)
        ensures
            r == self.apply_segment(seg),
    {
        match seg {
            PathSegment::MoveTo { x, y } => {
                let p = self.apply(x, y);
                PathSegment::MoveTo { x: p.0, y: p.1 }
            },
            PathSegment::LineTo { x, y } => {
                let p = self.apply(x, y);
                PathSegment::LineTo { x: p.0, y: p.1 }
            },
            PathSegment::CurveTo { x1, y1, x2, y2, x, y } => {
                let p1 = self.apply(x1, y1);
                let p2 = self.apply(x2, y2);
                let p = self.apply(x, y);
                PathSegment::CurveTo { x1: p1.0, y1: p1.1, x2: p2.0, y2: p2.1, x: p.0, y: p.1 }
            },
            PathSegment::ClosePath => PathSegment::ClosePath,
        }
    }
}

impl Rect {
    /// The coordinate of the right edge.
    pub open spec fn right_spec(self) -> i64 {
        add_spec(self.x, self.width)
    }

    /// The coordinate of the bottom edge.
    pub open spec fn bottom_spec(self) -> i64 {
        add_spec(self.y, self.height)
    }

    /// The outline of the rectangle: four corners, clockwise from the
    /// origin corner, and a closing command.
    pub open spec fn outline(self) -> Seq<PathSegment> {
        seq![
            PathSegment::MoveTo { x: self.x, y: self.y },
            PathSegment::LineTo { x: self.right_spec(), y: self.y },
            PathSegment::LineTo { x: self.right_spec(), y: self.bottom_spec() },
            PathSegment::LineTo { x: self.x, y: self.bottom_spec() },
            PathSegment::ClosePath,
        ]
    }

    /// A rectangle, if both extents are positive.
    pub fn new(x: i64, y: i64, width: i64, height: i64) -> (r: Option<Rect>)
        ensures
            r == if width > 0 && height > 0 {
                Some(Rect { x, y, width, height })
            } else {
                None::<Rect>
            },
    {
        if width > 0 && height > 0 {
            Some(Rect { x, y, width, height })
        } else {
            None
        }
    }

    pub fn right(&self) -> (r: i64)
        ensures
            r == self.right_spec(),
    {
        sat_add(self.x, self.width)
    }

    pub fn bottom(&self) -> (r: i64)
        ensures
            r == self.bottom_spec(),
    {
        sat_add(self.y, self.height)
    }
}

/// Maps every point of an outline.
pub fn transform_path(segments: &mut Vec<PathSegment>, ts: &Transform)
    ensures
        final(segments)@ == ts.apply_path(old(segments)@),
{
    let n = segments.len();
    let mut i: usize = 0;
    while i < n
        invariant
            i <= n,
            segments@.len() == n,
            old(segments)@.len() == n,
            forall|k: int| 0 <= k < i ==> segments@[k] == ts.apply_segment(old(segments)@[k]),
            forall|k: int| i <= k < n ==> segments@[k] == old(segments)@[k],
        decreases n - i,
    {
        let seg = ts.apply_to_segment(segments[i]);
        segments.set(i, seg);
        i += 1;
    }
    assert(segments@ =~= ts.apply_path(old(segments)@));
}

/// Appends the outline of `rect` to `path`.
pub fn add_rect_to_path(rect: Rect, path: &mut Vec<PathSegment>)
    ensures
        final(path)@ == old(path)@ + rect.outline(),
{
    path.push(PathSegment::MoveTo { x: rect.x, y: rect.y });
    path.push(PathSegment::LineTo { x: rect.right(), y: rect.y });
    path.push(PathSegment::LineTo { x: rect.right(), y: rect.bottom() });
    path.push(PathSegment::LineTo { x: rect.x, y: rect.bottom() });
    path.push(PathSegment::ClosePath);
    assert(path@ =~= old(path)@ + rect.outline());
}

/// The outline of `rect` as a path of its own.
pub fn rect_to_path(rect: Rect) -> (path: Vec<PathSegment>)
    ensures
        path@ == rect.outline(),
{
    let mut path: Vec<PathSegment> = Vec::new();
    add_rect_to_path(rect, &mut path);
    assert(path@ =~= rect.outline());
    path
}

impl Bounds {
    /// The bounds of the single point `(x, y)`.
    pub open spec fn point(x: i64, y: i64) -> Bounds {
        Bounds { min_x: x, min_y: y, max_x: x, max_y: y }
    }

    /// The least bounds that hold both `self` and `other`.
    pub open spec fn union(self, other: Bounds) -> Bounds {
        Bounds {
            min_x: if other.min_x < self.min_x { other.min_x } else { self.min_x },
            min_y: if other.min_y < self.min_y { other.min_y } else { self.min_y },
            max_x: if other.max_x > self.max_x { other.max_x } else { self.max_x },
            max_y: if other.max_y > self.max_y { other.max_y } else { self.max_y },
        }
    }

    /// Whether `(x, y)` lies within the bounds.
    pub open spec fn holds(self, x: i64, y: i64) -> bool {
        self.min_x <= x <= self.max_x && self.min_y <= y <= self.max_y
    }

    /// The rectangle from the least corner to the greatest.
    pub open spec fn to_rect_spec(self) -> Rect {
        Rect {
            x: self.min_x,
            y: self.min_y,
            width: sub_spec(self.max_x, self.min_x),
            height: sub_spec(self.max_y, self.min_y),
        }
    }

    pub fn to_rect(&self) -> (r: Rect)
        ensures
            r == self.to_rect_spec(),
    {
        Rect {
            x: self.min_x,
            y: self.min_y,
            width: sat_sub(self.max_x, self.min_x),
            height: sat_sub(self.max_y, self.min_y),
        }
    }

    pub fn merge(&self, other: &Bounds) -> (r: Bounds)
        ensures
            r == self.union(*other),
    {
        Bounds {
            min_x: if other.min_x < self.min_x { other.min_x } else { self.min_x },
            min_y: if other.min_y < self.min_y { other.min_y } else { self.min_y },
            max_x: if other.max_x > self.max_x { other.max_x } else { self.max_x },
            max_y: if other.max_y > self.max_y { other.max_y } else { self.max_y },
        }
    }
}

/// The union of two optional bounds: what is absent adds nothing.
pub open spec fn union_opt(a: Option<Bounds>, b: Option<Bounds>) -> Option<Bounds> {
    match (a, b) {
        (Some(p), Some(q)) => Some(p.union(q)),
        (Some(p), None) => Some(p),
        (None, q) => q,
    }
}

/// The bounds of the points and control points of one path command.
pub open spec fn segment_bounds(seg: PathSegment) -> Option<Bounds> {
    match seg {
        PathSegment::MoveTo { x, y } => Some(Bounds::point(x, y)),
        PathSegment::LineTo { x, y } => Some(Bounds::point(x, y)),
        PathSegment::CurveTo { x1, y1, x2, y2, x, y } => Some(
            Bounds::point(x1, y1).union(Bounds::point(x2, y2)).union(Bounds::point(x, y)),
        ),
        PathSegment::ClosePath => None,
    }
}

/// The bounds of every point and control point of an outline; `None` where
/// it has no point.
pub open spec fn path_bounds(segs: Seq<PathSegment>) -> Option<Bounds>
    decreases segs.len(),
{
    if segs.len() == 0 {
        None
    } else {
        union_opt(path_bounds(segs.drop_last()), segment_bounds(segs.last()))
    }
}

pub fn merge_opt(a: Option<Bounds>, b: Option<Bounds>) -> (r: Option<Bounds>)
    ensures
        r == union_opt(a, b),
{
    match (a, b) {
        (Some(p), Some(q)) => Some(p.merge(&q)),
        (Some(p), None) => Some(p),
        (None, q) => q,
    }
}

fn bounds_of_segment(seg: PathSegment) -> (r: Option<Bounds>)
    ensures
        r == segment_bounds(seg),
{
    match seg {
        PathSegment::MoveTo { x, y } => Some(Bounds { min_x: x, min_y: y, max_x: x, max_y: y }),
        PathSegment::LineTo { x, y } => Some(Bounds { min_x: x, min_y: y, max_x: x, max_y: y }),
        PathSegment::CurveTo { x1, y1, x2, y2, x, y } => {
            let p1 = Bounds { min_x: x1, min_y: y1, max_x: x1, max_y: y1 };
            let p2 = Bounds { min_x: x2, min_y: y2, max_x: x2, max_y: y2 };
            let p = Bounds { min_x: x, min_y: y, max_x: x, max_y: y };
            Some(p1.merge(&p2).merge(&p))
        },
        PathSegment::ClosePath => None,
    }
}

/// The bounds of an outline.
pub fn path_bbox(segments: &Vec<PathSegment>) -> (r: Option<Bounds>)
    ensures
        r == path_bounds(segments@),
{
    let mut acc: Option<Bounds> = None;
    let mut i: usize = 0;
    while i < segments.len()
        invariant
            i <= segments.len(),
            acc == path_bounds(segments@.take(i as int)),
        decreases segments.len() - i,
    {
        assert(segments@.take(i as int + 1).drop_last() =~= segments@.take(i as int));
        acc = merge_opt(acc, bounds_of_segment(segments[i]));
        i += 1;
    }
    assert(segments@.take(i as int) =~= segments@);
    acc
}

/// Every point of an outline lies within its bounds.
pub proof fn path_bounds_hold_points(segs: Seq<PathSegment>, k: int)
    requires
        0 <= k < segs.len(),
    ensures
        segs[k] matches PathSegment::MoveTo { x, y } ==> path_bounds(segs) is Some && path_bounds(
            segs,
        ).unwrap().holds(x, y),
        segs[k] matches PathSegment::LineTo { x, y } ==> path_bounds(segs) is Some && path_bounds(
            segs,
        ).unwrap().holds(x, y),
        segs[k] matches PathSegment::CurveTo { x1, y1, x2, y2, x, y } ==> path_bounds(segs) is Some
            && path_bounds(segs).unwrap().holds(x1, y1) && path_bounds(segs).unwrap().holds(x2, y2)
            && path_bounds(segs).unwrap().holds(x, y),
    decreases segs.len(),
{
    if k < segs.len() - 1 {
        path_bounds_hold_points(segs.drop_last(), k);
    }
}

} // verus!
