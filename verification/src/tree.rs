//! The scene tree: drawable paths and the registry of shared resources.

use vstd::prelude::*;
use vstd::string::StringExecFns;
use crate::geom::{PathSegment, Rect, Transform};

verus! {

/// An opaque colour.
#[derive(Clone, Copy, Debug, PartialEq, Eq, Structural)]
pub struct Color {
    pub red: u8,
    pub green: u8,
    pub blue: u8,
}

/// How the inside of a self-intersecting outline is decided.
#[derive(Clone, Copy, Debug, PartialEq, Eq, Structural)]
pub enum FillRule {
    NonZero,
    EvenOdd,
}

/// Whether an element is drawn.
#[derive(Clone, Copy, Debug, PartialEq, Eq, Structural)]
pub enum Visibility {
    Visible,
    Hidden,
    Collapse,
}

/// The coordinate system in which a paint server is defined.
#[derive(Clone, Copy, Debug, PartialEq, Eq, Structural)]
pub enum Units {
    UserSpaceOnUse,
    ObjectBoundingBox,
}

/// What an outline is painted with: a colour, or a paint server named by id.
#[derive(Clone, Debug, PartialEq, Eq)]
pub enum Paint {
    Color(Color),
    Link(String),
}

/// How the inside of an outline is painted.
#[derive(Clone, Debug, PartialEq, Eq)]
pub struct Fill {
    pub paint: Paint,
    /// The opacity, from 0 for clear to 255 for opaque.
    pub opacity: u8,
    pub rule: FillRule,
}

/// How the line of an outline is painted.
#[derive(Clone, Debug, PartialEq, Eq)]
pub struct Stroke {
    pub paint: Paint,
    /// The opacity, from 0 for clear to 255 for opaque.
    pub opacity: u8,
    pub width: i64,
}

/// A drawable outline.
#[derive(Clone, Debug, PartialEq, Eq)]
pub struct Path {
    pub id: String,
    pub transform: Transform,
    pub visibility: Visibility,
    pub fill: Option<Fill>,
    pub stroke: Option<Stroke>,
    pub segments: Vec<PathSegment>,
}

/// One colour stop of a gradient.
#[derive(Clone, Copy, Debug, PartialEq, Eq, Structural)]
pub struct Stop {
    pub offset: i64,
    pub color: Color,
}

#[derive(Clone, Debug, PartialEq, Eq)]
pub struct Gradient {
    pub id: String,
    pub units: Units,
    pub transform: Transform,
    pub stops: Vec<Stop>,
}

#[derive(Clone, Debug, PartialEq, Eq)]
pub struct Pattern {
    pub id: String,
    pub units: Units,
    pub transform: Transform,
    pub rect: Rect,
    pub children: Vec<Path>,
}

/// An entry of the registry of shared resources.
#[derive(Clone, Debug, PartialEq, Eq)]
pub enum Resource {
    LinearGradient(Gradient),
    RadialGradient(Gradient),
    Pattern(Pattern),
    /// A resource that is no paint server, such as a clip path or a mask.
    Other(String),
}

/// The registry of shared resources of a scene.
#[derive(Clone, Debug, PartialEq, Eq)]
pub struct Tree {
    pub defs: Vec<Resource>,
}

pub enum PaintView {
    Color(Color),
    Link(Seq<char>),
}

pub struct FillView {
    pub paint: PaintView,
    pub opacity: u8,
    pub rule: FillRule,
}

pub struct StrokeView {
    pub paint: PaintView,
    pub opacity: u8,
    pub width: i64,
}

pub struct PathView {
    pub id: Seq<char>,
    pub transform: Transform,
    pub visibility: Visibility,
    pub fill: Option<FillView>,
    pub stroke: Option<StrokeView>,
    pub segments: Seq<PathSegment>,
}

pub struct GradientView {
    pub id: Seq<char>,
    pub units: Units,
    pub transform: Transform,
    pub stops: Seq<Stop>,
}

pub struct PatternView {
    pub id: Seq<char>,
    pub units: Units,
    pub transform: Transform,
    pub rect: Rect,
    pub children: Seq<PathView>,
}

pub enum ResourceView {
    LinearGradient(GradientView),
    RadialGradient(GradientView),
    Pattern(PatternView),
    Other(Seq<char>),
}

impl View for Paint {
    type V = PaintView;

    open spec fn view(&self) -> PaintView {
        match self {
            Paint::Color(c) => PaintView::Color(*c),
            Paint::Link(id) => PaintView::Link(id@),
        }
    }
}

impl View for Fill {
    type V = FillView;

    open spec fn view(&self) -> FillView {
        FillView { paint: self.paint@, opacity: self.opacity, rule: self.rule }
    }
}

impl View for Stroke {
    type V = StrokeView;

    open spec fn view(&self) -> StrokeView {
        StrokeView { paint: self.paint@, opacity: self.opacity, width: self.width }
    }
}

/// The view of an optional fill.
pub open spec fn fill_view(f: Option<Fill>) -> Option<FillView> {
    match f {
        Some(f) => Some(f@),
        None => None,
    }
}

/// The view of an optional stroke.
pub open spec fn stroke_view(s: Option<Stroke>) -> Option<StrokeView> {
    match s {
        Some(s) => Some(s@),
        None => None,
    }
}

impl View for Path {
    type V = PathView;

    open spec fn view(&self) -> PathView {
        PathView {
            id: self.id@,
            transform: self.transform,
            visibility: self.visibility,
            fill: fill_view(self.fill),
            stroke: stroke_view(self.stroke),
            segments: self.segments@,
        }
    }
}

/// The views of a sequence of paths, in order.
pub open spec fn paths_view(paths: Seq<Path>) -> Seq<PathView> {
    Seq::new(paths.len(), |i: int| paths[i]@)
}

impl View for Gradient {
    type V = GradientView;

    open spec fn view(&self) -> GradientView {
        GradientView {
            id: self.id@,
            units: self.units,
            transform: self.transform,
            stops: self.stops@,
        }
    }
}

impl View for Pattern {
    type V = PatternView;

    open spec fn view(&self) -> PatternView {
        PatternView {
            id: self.id@,
            units: self.units,
            transform: self.transform,
            rect: self.rect,
            children: paths_view(self.children@),
        }
    }
}

impl View for Resource {
    type V = ResourceView;

    open spec fn view(&self) -> ResourceView {
        match self {
            Resource::LinearGradient(g) => ResourceView::LinearGradient(g@),
            Resource::RadialGradient(g) => ResourceView::RadialGradient(g@),
            Resource::Pattern(p) => ResourceView::Pattern(p@),
            Resource::Other(id) => ResourceView::Other(id@),
        }
    }
}

impl View for Tree {
    type V = Seq<ResourceView>;

    open spec fn view(&self) -> Seq<ResourceView> {
        Seq::new(self.defs@.len(), |i: int| self.defs@[i]@)
    }
}

impl ResourceView {
    /// The id under which the resource is registered.
    pub open spec fn id(self) -> Seq<char> {
        match self {
            ResourceView::LinearGradient(g) => g.id,
            ResourceView::RadialGradient(g) => g.id,
            ResourceView::Pattern(p) => p.id,
            ResourceView::Other(id) => id,
        }
    }

    /// Whether this is a paint server defined relative to the bounding box
    /// of the element that uses it.
    pub open spec fn is_bbox_relative(self) -> bool {
        match self {
            ResourceView::LinearGradient(g) => g.units == Units::ObjectBoundingBox,
            ResourceView::RadialGradient(g) => g.units == Units::ObjectBoundingBox,
            ResourceView::Pattern(p) => p.units == Units::ObjectBoundingBox,
            ResourceView::Other(_) => false,
        }
    }

    /// The transform of a paint server; the identity for any other resource.
    pub open spec fn transform(self) -> Transform {
        match self {
            ResourceView::LinearGradient(g) => g.transform,
            ResourceView::RadialGradient(g) => g.transform,
            ResourceView::Pattern(p) => p.transform,
            ResourceView::Other(_) => Transform::identity_spec(),
        }
    }

    /// The same paint server under the id `id`, defined in user space, with
    /// the map from the unit square onto `bbox` applied after its own
    /// transform. Any other resource is left as it is.
    pub open spec fn in_user_space(self, id: Seq<char>, bbox: Rect) -> ResourceView {
        match self {
            ResourceView::LinearGradient(g) => ResourceView::LinearGradient(
                GradientView {
                    id,
                    units: Units::UserSpaceOnUse,
                    transform: Transform::from_bbox_spec(bbox).after(g.transform),
                    ..g
                },
            ),
            ResourceView::RadialGradient(g) => ResourceView::RadialGradient(
                GradientView {
                    id,
                    units: Units::UserSpaceOnUse,
                    transform: Transform::from_bbox_spec(bbox).after(g.transform),
                    ..g
                },
            ),
            ResourceView::Pattern(p) => ResourceView::Pattern(
                PatternView {
                    id,
                    units: Units::UserSpaceOnUse,
                    transform: Transform::from_bbox_spec(bbox).after(p.transform),
                    ..p
                },
            ),
            ResourceView::Other(_) => self,
        }
    }
}

/// Whether some entry of `defs` is registered under `id`.
pub open spec fn is_used(defs: Seq<ResourceView>, id: Seq<char>) -> bool {
    exists|i: int| 0 <= i < defs.len() && (#[trigger] defs[i]).id() == id
}

/// The position of the first entry of `defs` registered under `id`.
pub open spec fn position_of(defs: Seq<ResourceView>, id: Seq<char>) -> Option<int>
    decreases defs.len(),
{
    if defs.len() == 0 {
        None
    } else if defs[0].id() == id {
        Some(0int)
    } else {
        match position_of(defs.drop_first(), id) {
            Some(i) => Some(i + 1),
            None => None,
        }
    }
}

/// Whether no two entries of `defs` share an id.
pub open spec fn ids_distinct(defs: Seq<ResourceView>) -> bool {
    forall|i: int, j: int|
        0 <= i < j < defs.len() ==> (#[trigger] defs[i]).id() != (#[trigger] defs[j]).id()
}

impl Color {
    pub fn new(red: u8, green: u8, blue: u8) -> (c: Color)
        ensures
            c == (Color { red, green, blue }),
    {
        Color { red, green, blue }
    }

    pub fn red() -> (c: Color)
        ensures
            c == (Color { red: 255, green: 0, blue: 0 }),
    {
        Color { red: 255, green: 0, blue: 0 }
    }

    pub fn blue() -> (c: Color)
        ensures
            c == (Color { red: 0, green: 0, blue: 255 }),
    {
        Color { red: 0, green: 0, blue: 255 }
    }
}

impl Paint {
    /// A paint with the same view.
    pub fn duplicate(&self) -> (r: Paint)
        ensures
            r@ == self@,
    {
        match self {
            Paint::Color(c) => Paint::Color(*c),
            Paint::Link(id) => Paint::Link(id.clone()),
        }
    }
}

impl Fill {
    /// A fill with the same view.
    pub fn duplicate(&self) -> (r: Fill)
        ensures
            r@ == self@,
    {
        Fill { paint: self.paint.duplicate(), opacity: self.opacity, rule: self.rule }
    }
}

impl Stroke {
    /// A stroke with the same view.
    pub fn duplicate(&self) -> (r: Stroke)
        ensures
            r@ == self@,
    {
        Stroke { paint: self.paint.duplicate(), opacity: self.opacity, width: self.width }
    }
}

/// A vector with the same elements.
pub fn copy_segments(v: &Vec<PathSegment>) -> (r: Vec<PathSegment>)
    ensures
        r@ == v@,
{
    let mut r: Vec<PathSegment> = Vec::new();
    let mut i: usize = 0;
    while i < v.len()
        invariant
            i <= v.len(),
            r@ == v@.take(i as int),
        decreases v.len() - i,
    {
        r.push(v[i]);
        assert(v@.take(i as int).push(v@[i as int]) =~= v@.take(i as int + 1));
        i += 1;
    }
    assert(v@.take(i as int) =~= v@);
    r
}

fn copy_stops(v: &Vec<Stop>) -> (r: Vec<Stop>)
    ensures
        r@ == v@,
{
    let mut r: Vec<Stop> = Vec::new();
    let mut i: usize = 0;
    while i < v.len()
        invariant
            i <= v.len(),
            r@ == v@.take(i as int),
        decreases v.len() - i,
    {
        r.push(v[i]);
        assert(v@.take(i as int).push(v@[i as int]) =~= v@.take(i as int + 1));
        i += 1;
    }
    assert(v@.take(i as int) =~= v@);
    r
}

impl Path {
    /// A path with the same view.
    pub fn duplicate(&self) -> (r: Path)
        ensures
            r@ == self@,
    {
        let fill = match &self.fill {
            Some(f) => Some(f.duplicate()),
            None => None,
        };
        let stroke = match &self.stroke {
            Some(s) => Some(s.duplicate()),
            None => None,
        };
        Path {
            id: self.id.clone(),
            transform: self.transform,
            visibility: self.visibility,
            fill,
            stroke,
            segments: copy_segments(&self.segments),
        }
    }
}

/// A vector of paths with the same views.
pub fn copy_paths(v: &Vec<Path>) -> (r: Vec<Path>)
    ensures
        paths_view(r@) == paths_view(v@),
{
    let mut r: Vec<Path> = Vec::new();
    let mut i: usize = 0;
    while i < v.len()
        invariant
            i <= v.len(),
            r@.len() == i,
            forall|k: int| 0 <= k < i ==> (#[trigger] r@[k])@ == v@[k]@,
        decreases v.len() - i,
    {
        r.push(v[i].duplicate());
        i += 1;
    }
    assert(paths_view(r@) =~= paths_view(v@));
    r
}

impl Resource {
    /// A deep copy: a resource with the same view that shares nothing with
    /// `self`.
    pub fn make_deep_copy(&self) -> (r: Resource)
        ensures
            r@ == self@,
    {
        match self {
            Resource::LinearGradient(g) => Resource::LinearGradient(
                Gradient {
                    id: g.id.clone(),
                    units: g.units,
                    transform: g.transform,
                    stops: copy_stops(&g.stops),
                },
            ),
            Resource::RadialGradient(g) => Resource::RadialGradient(
                Gradient {
                    id: g.id.clone(),
                    units: g.units,
                    transform: g.transform,
                    stops: copy_stops(&g.stops),
                },
            ),
            Resource::Pattern(p) => Resource::Pattern(
                Pattern {
                    id: p.id.clone(),
                    units: p.units,
                    transform: p.transform,
                    rect: p.rect,
                    children: copy_paths(&p.children),
                },
            ),
            Resource::Other(id) => Resource::Other(id.clone()),
        }
    }

    /// The id under which the resource is registered.
    pub fn id(&self) -> (r: &String)
        ensures
            r@ == self@.id(),
    {
        match self {
            Resource::LinearGradient(g) => &g.id,
            Resource::RadialGradient(g) => &g.id,
            Resource::Pattern(p) => &p.id,
            Resource::Other(id) => id,
        }
    }

    /// Whether this is a paint server defined relative to a bounding box.
    pub fn is_bbox_relative(&self) -> (r: bool)
        ensures
            r == self@.is_bbox_relative(),
    {
        match self {
            Resource::LinearGradient(g) => g.units == Units::ObjectBoundingBox,
            Resource::RadialGradient(g) => g.units == Units::ObjectBoundingBox,
            Resource::Pattern(p) => p.units == Units::ObjectBoundingBox,
            Resource::Other(_) => false,
        }
    }
}

impl Tree {
    /// A scene without shared resources.
    pub fn new() -> (t: Tree)
        ensures
            t@ == Seq::<ResourceView>::empty(),
    {
        let t = Tree { defs: Vec::new() };
        assert(t@ =~= Seq::<ResourceView>::empty());
        t
    }

    /// The position of the first resource registered under `id`.
    pub fn defs_by_id(&self, id: &str) -> (r: Option<usize>)
        ensures
            match r {
                Some(i) => position_of(self@, id@) == Some(i as int),
                None => position_of(self@, id@) is None,
            },
    {
        let wanted = String::from_str(id);
        let mut i: usize = 0;
        while i < self.defs.len()
            invariant
                i <= self.defs.len(),
                wanted@ == id@,
                forall|k: int| 0 <= k < i ==> (#[trigger] self@[k]).id() != id@,
            decreases self.defs.len() - i,
        {
            if *self.defs[i].id() == wanted {
                proof {
                    position_of_first(self@, id@, i as int);
                }
                return Some(i);
            }
            i += 1;
        }
        proof {
            position_of_none(self@, id@);
        }
        None
    }
}

/// `position_of` finds the entry at `i` when no earlier entry has the id.
pub proof fn position_of_first(defs: Seq<ResourceView>, id: Seq<char>, i: int)
    requires
        0 <= i < defs.len(),
        defs[i].id() == id,
        forall|k: int| 0 <= k < i ==> (#[trigger] defs[k]).id() != id,
    ensures
        position_of(defs, id) == Some(i),
    decreases defs.len(),
{
    if i > 0 {
        let rest = defs.drop_first();
        assert forall|k: int| 0 <= k < i - 1 implies (#[trigger] rest[k]).id() != id by {
            assert(rest[k] == defs[k + 1]);
        }
        position_of_first(rest, id, i - 1);
    }
}

/// `position_of` finds nothing exactly when no entry has the id.
pub proof fn position_of_none(defs: Seq<ResourceView>, id: Seq<char>)
    ensures
        position_of(defs, id) is None <==> !is_used(defs, id),
        position_of(defs, id) matches Some(i) ==> 0 <= i < defs.len() && defs[i].id() == id,
    decreases defs.len(),
{
    if defs.len() == 0 {
    } else if defs[0].id() == id {
    } else {
        let rest = defs.drop_first();
        position_of_none(rest, id);
        if is_used(rest, id) {
            let j = choose|j: int| 0 <= j < rest.len() && (#[trigger] rest[j]).id() == id;
            assert(defs[j + 1] == rest[j]);
        }
        if is_used(defs, id) {
            let j = choose|j: int| 0 <= j < defs.len() && (#[trigger] defs[j]).id() == id;
            assert(rest[j - 1] == defs[j]);
        }
    }
}

} // verus!
