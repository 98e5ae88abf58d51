//! Moves paint servers that are defined relative to the bounding box of the
//! element that uses them into user space.

use vstd::prelude::*;
use vstd::set_lib::{lemma_int_range, lemma_len_subset, set_int_range};
use vstd::string::StringExecFns;
use crate::geom::{Rect, Transform};
use crate::tree::{
    ids_distinct, is_used, position_of, position_of_none, Fill, Gradient, Paint, PaintView, Path,
    PathView, Pattern, Resource, ResourceView, FillView, Stroke, StrokeView, Tree, Units,
};

verus! {

/// The character that stands for the digit `d`.
pub open spec fn digit_char(d: nat) -> char {
    if d == 0 {
        '0'
    } else if d == 1 {
        '1'
    } else if d == 2 {
        '2'
    } else if d == 3 {
        '3'
    } else if d == 4 {
        '4'
    } else if d == 5 {
        '5'
    } else if d == 6 {
        '6'
    } else if d == 7 {
        '7'
    } else if d == 8 {
        '8'
    } else {
        '9'
    }
}

/// The decimal numeral of `n`, without leading zeros.
pub open spec fn decimal(n: nat) -> Seq<char>
    decreases n,
{
    if n < 10 {
        seq![digit_char(n)]
    } else {
        decimal(n / 10).push(digit_char(n % 10))
    }
}

/// The prefix of every synthetic id.
pub open spec fn synthetic_prefix() -> Seq<char> {
    seq!['u', 's', 'v', 'g']
}

/// The `n`-th synthetic id: the prefix, then `n` in decimal.
pub open spec fn synthetic_name(n: nat) -> Seq<char> {
    synthetic_prefix() + decimal(n)
}

/// Whether `n` numbers the first synthetic id, counting from one, under
/// which nothing is registered in `defs`.
pub open spec fn is_first_free(defs: Seq<ResourceView>, n: nat) -> bool {
    &&& n >= 1
    &&& !is_used(defs, synthetic_name(n))
    &&& forall|m: nat| 1 <= m < n ==> is_used(defs, #[trigger] synthetic_name(m))
}

/// The number of the first synthetic id that is free in `defs`.
pub open spec fn first_free(defs: Seq<ResourceView>) -> nat {
    choose|n: nat| is_first_free(defs, n)
}

/// A numeral has one digit exactly when the number is below ten.
proof fn decimal_len(n: nat)
    ensures
        decimal(n).len() >= 1,
        n >= 10 ==> decimal(n).len() >= 2,
    decreases n,
{
    if n >= 10 {
        decimal_len(n / 10);
    }
}

/// Different numbers have different numerals.
pub proof fn decimal_injective(a: nat, b: nat)
    requires
        decimal(a) == decimal(b),
    ensures
        a == b,
    decreases a,
{
    decimal_len(a);
    decimal_len(b);
    if a < 10 {
        assert(decimal(a).len() == 1);
        assert(b < 10);
        assert(decimal(a)[0] == digit_char(a));
        assert(decimal(b)[0] == digit_char(b));
    } else {
        assert(decimal(a).len() >= 2);
        assert(b >= 10);
        let da = decimal(a / 10);
        let db = decimal(b / 10);
        assert(decimal(a).last() == digit_char(a % 10));
        assert(decimal(b).last() == digit_char(b % 10));
        assert(a % 10 == b % 10);
        assert(da.push(digit_char(a % 10)).drop_last() =~= da);
        assert(db.push(digit_char(b % 10)).drop_last() =~= db);
        decimal_injective(a / 10, b / 10);
    }
}

/// Different numbers give different synthetic ids.
pub proof fn synthetic_name_injective(a: nat, b: nat)
    requires
        synthetic_name(a) == synthetic_name(b),
    ensures
        a == b,
{
    let p = synthetic_prefix();
    assert((p + decimal(a)).subrange(p.len() as int, (p + decimal(a)).len() as int) =~= decimal(a));
    assert((p + decimal(b)).subrange(p.len() as int, (p + decimal(b)).len() as int) =~= decimal(b));
    decimal_injective(a, b);
}

spec fn holder(defs: Seq<ResourceView>, m: nat) -> int {
    choose|i: int| 0 <= i < defs.len() && (#[trigger] defs[i]).id() == synthetic_name(m)
}

spec fn holders(defs: Seq<ResourceView>, k: nat) -> Set<int>
    decreases k,
{
    if k == 0 {
        Set::empty()
    } else {
        holders(defs, (k - 1) as nat).insert(holder(defs, k))
    }
}

proof fn holders_counted(defs: Seq<ResourceView>, k: nat)
    requires
        forall|m: nat| 1 <= m <= k ==> is_used(defs, #[trigger] synthetic_name(m)),
    ensures
        holders(defs, k).finite(),
        holders(defs, k).len() == k,
        holders(defs, k).subset_of(set_int_range(0, defs.len() as int)),
        forall|i: int|
            holders(defs, k).contains(i) ==> exists|m: nat|
                1 <= m <= k && i == #[trigger] holder(defs, m),
    decreases k,
{
    if k > 0 {
        let prev = holders(defs, (k - 1) as nat);
        holders_counted(defs, (k - 1) as nat);
        let h = holder(defs, k);
        assert(is_used(defs, synthetic_name(k)));
        assert(0 <= h < defs.len() && defs[h].id() == synthetic_name(k));
        if prev.contains(h) {
            let m = choose|m: nat| 1 <= m <= k - 1 && h == #[trigger] holder(defs, m);
            assert(is_used(defs, synthetic_name(m)));
            assert(defs[holder(defs, m)].id() == synthetic_name(m));
            synthetic_name_injective(m, k);
        }
        assert forall|i: int| holders(defs, k).contains(i) implies exists|m: nat|
            1 <= m <= k && i == #[trigger] holder(defs, m) by {
            if i == h {
                assert(i == holder(defs, k));
            } else {
                assert(prev.contains(i));
                let m = choose|m: nat| 1 <= m <= k - 1 && i == #[trigger] holder(defs, m);
                assert(1 <= m <= k && i == holder(defs, m));
            }
        }
    }
}

/// Where the first `k` synthetic ids are all taken, the registry has at
/// least `k` entries.
pub proof fn used_names_bounded(defs: Seq<ResourceView>, k: nat)
    requires
        forall|m: nat| 1 <= m <= k ==> is_used(defs, #[trigger] synthetic_name(m)),
    ensures
        k <= defs.len(),
{
    holders_counted(defs, k);
    lemma_int_range(0, defs.len() as int);
    lemma_len_subset(holders(defs, k), set_int_range(0, defs.len() as int));
}

/// At most one number is the first free one.
pub proof fn first_free_unique(defs: Seq<ResourceView>, a: nat, b: nat)
    requires
        is_first_free(defs, a),
        is_first_free(defs, b),
    ensures
        a == b,
{
    if a < b {
        assert(is_used(defs, synthetic_name(a)));
    } else if b < a {
        assert(is_used(defs, synthetic_name(b)));
    }
}

/// Every registry has a first free synthetic id, numbered no higher than
/// one more than its length.
pub proof fn first_free_exists(defs: Seq<ResourceView>)
    ensures
        is_first_free(defs, first_free(defs)),
        first_free(defs) <= defs.len() + 1,
{
    let n = first_free_search(defs, 1);
    assert(is_first_free(defs, n));
    first_free_unique(defs, n, first_free(defs));
}

proof fn first_free_search(defs: Seq<ResourceView>, from: nat) -> (n: nat)
    requires
        from >= 1,
        forall|m: nat| 1 <= m < from ==> is_used(defs, #[trigger] synthetic_name(m)),
    ensures
        is_first_free(defs, n),
        n <= defs.len() + 1,
    decreases defs.len() + 1 - from,
{
    used_names_bounded(defs, (from - 1) as nat);
    if is_used(defs, synthetic_name(from)) {
        used_names_bounded(defs, from);
        first_free_search(defs, from + 1)
    } else {
        from
    }
}

fn digit_str(d: u128) -> (r: &'static str)
    requires
        d < 10,
    ensures
        r@ == seq![digit_char(d as nat)],
{
    proof {
        reveal_strlit("0");
        reveal_strlit("1");
        reveal_strlit("2");
        reveal_strlit("3");
        reveal_strlit("4");
        reveal_strlit("5");
        reveal_strlit("6");
        reveal_strlit("7");
        reveal_strlit("8");
        reveal_strlit("9");
    }
    let r = if d == 0 {
        "0"
    } else if d == 1 {
        "1"
    } else if d == 2 {
        "2"
    } else if d == 3 {
        "3"
    } else if d == 4 {
        "4"
    } else if d == 5 {
        "5"
    } else if d == 6 {
        "6"
    } else if d == 7 {
        "7"
    } else if d == 8 {
        "8"
    } else {
        "9"
    };
    assert(r@ =~= seq![digit_char(d as nat)]);
    r
}

fn push_decimal(s: &mut String, n: u128)
    ensures
        final(s)@ == old(s)@ + decimal(n as nat),
    decreases n,
{
    if n >= 10 {
        push_decimal(s, n / 10);
    }
    s.append(digit_str(n % 10));
    assert(s@ =~= old(s)@ + decimal(n as nat));
}

/// The `n`-th synthetic id.
pub fn synthetic_id(n: u128) -> (id: String)
    ensures
        id@ == synthetic_name(n as nat),
{
    proof {
        reveal_strlit("usvg");
    }
    let mut id = String::from_str("usvg");
    assert(id@ =~= synthetic_prefix());
    push_decimal(&mut id, n);
    id
}

/// An id that is free for a new paint server: the first synthetic id,
/// counting from one, under which nothing is registered.
pub fn gen_paint_server_id(tree: &Tree) -> (id: String)
    ensures
        id@ == synthetic_name(first_free(tree@)),
        is_first_free(tree@, first_free(tree@)),
        !is_used(tree@, id@),
{
    let mut idx: u128 = 1;
    let mut id = synthetic_id(idx);
    let len = tree.defs.len();
    loop
        invariant
            len == tree.defs@.len(),
            1 <= idx <= tree.defs@.len() + 1,
            tree@.len() == tree.defs@.len(),
            id@ == synthetic_name(idx as nat),
            forall|m: nat| 1 <= m < idx ==> is_used(tree@, #[trigger] synthetic_name(m)),
        ensures
            is_first_free(tree@, idx as nat),
            id@ == synthetic_name(idx as nat),
        decreases tree.defs@.len() + 1 - idx,
    {
        let found = tree.defs_by_id(id.as_str());
        proof {
            position_of_none(tree@, id@);
        }
        if found.is_none() {
            break ;
        }
        proof {
            used_names_bounded(tree@, idx as nat);
        }
        idx += 1;
        id = synthetic_id(idx);
    }
    proof {
        first_free_exists(tree@);
        first_free_unique(tree@, idx as nat, first_free(tree@));
    }
    id
}

/// Whether `id` names a paint server of `defs` that is defined relative to
/// a bounding box.
pub open spec fn promotes(defs: Seq<ResourceView>, id: Seq<char>) -> bool {
    position_of(defs, id) matches Some(i) && defs[i].is_bbox_relative()
}

/// The id that a promotion of `id` returns: the first free synthetic id.
pub open spec fn promoted_id(defs: Seq<ResourceView>, id: Seq<char>) -> Option<Seq<char>> {
    if promotes(defs, id) {
        Some(synthetic_name(first_free(defs)))
    } else {
        None
    }
}

/// The registry after a promotion of `id`: where `id` names a paint server
/// relative to a bounding box, a copy of it in user space is added at the
/// end under the first free synthetic id; otherwise nothing changes.
pub open spec fn promoted_defs(defs: Seq<ResourceView>, id: Seq<char>, bbox: Rect) -> Seq<
    ResourceView,
> {
    if promotes(defs, id) {
        defs.push(
            defs[position_of(defs, id).unwrap()].in_user_space(
                synthetic_name(first_free(defs)),
                bbox,
            ),
        )
    } else {
        defs
    }
}

fn into_user_space(copy: Resource, new_id: String, bbox: Rect) -> (r: Resource)
    ensures
        r@ == copy@.in_user_space(new_id@, bbox),
{
    let base = Transform::from_bbox(bbox);
    match copy {
        Resource::LinearGradient(g) => {
            let mut ts = g.transform;
            ts.prepend(&base);
            Resource::LinearGradient(
                Gradient { id: new_id, units: Units::UserSpaceOnUse, transform: ts, stops: g.stops },
            )
        },
        Resource::RadialGradient(g) => {
            let mut ts = g.transform;
            ts.prepend(&base);
            Resource::RadialGradient(
                Gradient { id: new_id, units: Units::UserSpaceOnUse, transform: ts, stops: g.stops },
            )
        },
        Resource::Pattern(p) => {
            let mut ts = p.transform;
            ts.prepend(&base);
            Resource::Pattern(
                Pattern {
                    id: new_id,
                    units: Units::UserSpaceOnUse,
                    transform: ts,
                    rect: p.rect,
                    children: p.children,
                },
            )
        },
        Resource::Other(id) => Resource::Other(id),
    }
}

/// Moves the paint server that `id` names into user space.
///
/// Where `id` names a paint server defined relative to a bounding box, a
/// deep copy of it is registered under a fresh id, in user space, with the
/// map from the unit square onto `bbox` applied after its own transform,
/// and the fresh id is returned. Where the server is in user space already,
/// or what `id` names is no paint server, nothing changes and nothing is
/// returned. The registry must hold an entry under `id`.
pub fn paint_server_to_user_space_on_use(id: &str, bbox: Rect, tree: &mut Tree) -> (r: Option<
    String,
>)
    requires
        is_used(old(tree)@, id@),
    ensures
        match r {
            Some(new_id) => promoted_id(old(tree)@, id@) == Some(new_id@),
            None => promoted_id(old(tree)@, id@) is None,
        },
        final(tree)@ == promoted_defs(old(tree)@, id@, bbox),
{
    let found = tree.defs_by_id(id);
    proof {
        position_of_none(tree@, id@);
    }
    match found {
        Some(i) => {
            if !tree.defs[i].is_bbox_relative() {
                return None;
            }
            let copy = tree.defs[i].make_deep_copy();
            let new_id = gen_paint_server_id(tree);
            let promoted = into_user_space(copy, new_id.clone(), bbox);
            tree.defs.push(promoted);
            assert(tree@ =~= promoted_defs(old(tree)@, id@, bbox));
            Some(new_id)
        },
        None => None,
    }
}

/// A paint after promotion of the server it names, if it names one.
pub open spec fn relinked_paint(paint: PaintView, defs: Seq<ResourceView>) -> PaintView {
    match paint {
        PaintView::Link(id) => match promoted_id(defs, id) {
            Some(new_id) => PaintView::Link(new_id),
            None => paint,
        },
        PaintView::Color(_) => paint,
    }
}

/// The registry after promotion of the server that a paint names, if it
/// names one.
pub open spec fn relinked_defs(paint: PaintView, defs: Seq<ResourceView>, bbox: Rect) -> Seq<
    ResourceView,
> {
    match paint {
        PaintView::Link(id) => promoted_defs(defs, id, bbox),
        PaintView::Color(_) => defs,
    }
}

/// The registry after the fill of a path was relinked.
pub open spec fn defs_after_fill(path: PathView, defs: Seq<ResourceView>, bbox: Rect) -> Seq<
    ResourceView,
> {
    match path.fill {
        Some(f) => relinked_defs(f.paint, defs, bbox),
        None => defs,
    }
}

/// The registry after the fill and then the stroke of a path were relinked.
pub open spec fn defs_after_path(path: PathView, defs: Seq<ResourceView>, bbox: Rect) -> Seq<
    ResourceView,
> {
    match path.stroke {
        Some(s) => relinked_defs(s.paint, defs_after_fill(path, defs, bbox), bbox),
        None => defs_after_fill(path, defs, bbox),
    }
}

/// A path whose fill, and then stroke, name the user-space copies of the
/// servers that they named.
pub open spec fn relinked_path(path: PathView, defs: Seq<ResourceView>, bbox: Rect) -> PathView {
    PathView {
        fill: match path.fill {
            Some(f) => Some(FillView { paint: relinked_paint(f.paint, defs), ..f }),
            None => None,
        },
        stroke: match path.stroke {
            Some(s) => Some(
                StrokeView {
                    paint: relinked_paint(s.paint, defs_after_fill(path, defs, bbox)),
                    ..s
                },
            ),
            None => None,
        },
        ..path
    }
}

/// An entry that is appended does not move the first entry under an id that
/// the registry holds already.
pub proof fn position_of_push(defs: Seq<ResourceView>, id: Seq<char>, entry: ResourceView)
    requires
        position_of(defs, id) is Some,
    ensures
        position_of(defs.push(entry), id) == position_of(defs, id),
    decreases defs.len(),
{
    if defs.len() > 0 && defs[0].id() != id {
        assert(defs.push(entry).drop_first() =~= defs.drop_first().push(entry));
        position_of_push(defs.drop_first(), id, entry);
    }
}

/// Promoting the same bounding-box-relative server twice for the same box
/// gives two different ids, and the two copies carry the same transform:
/// the map onto the box, applied after the transform of the original.
pub proof fn promote_twice_gives_distinct_ids(defs: Seq<ResourceView>, id: Seq<char>, bbox: Rect)
    requires
        promotes(defs, id),
    ensures
        ({
            let once = promoted_defs(defs, id, bbox);
            let twice = promoted_defs(once, id, bbox);
            let original = defs[position_of(defs, id).unwrap()];
            &&& promoted_id(defs, id) is Some
            &&& promoted_id(once, id) is Some
            &&& promoted_id(defs, id) != promoted_id(once, id)
            &&& once.len() == defs.len() + 1
            &&& twice.len() == defs.len() + 2
            &&& once.last().id() == promoted_id(defs, id).unwrap()
            &&& twice.last().id() == promoted_id(once, id).unwrap()
            &&& once.last().transform() == Transform::from_bbox_spec(bbox).after(
                original.transform(),
            )
            &&& twice.last().transform() == once.last().transform()
            &&& !once.last().is_bbox_relative()
            &&& !twice.last().is_bbox_relative()
        }),
{
    let i = position_of(defs, id).unwrap();
    position_of_none(defs, id);
    let first_id = synthetic_name(first_free(defs));
    let copy = defs[i].in_user_space(first_id, bbox);
    let once = promoted_defs(defs, id, bbox);
    assert(once == defs.push(copy));
    position_of_push(defs, id, copy);
    assert(once[i] == defs[i]);
    assert(promotes(once, id));
    first_free_exists(once);
    assert(once[defs.len() as int].id() == first_id);
    assert(is_used(once, first_id));
}

/// Promoting a server that is in user space already returns nothing and
/// leaves the registry as it is.
pub proof fn promote_in_user_space_changes_nothing(
    defs: Seq<ResourceView>,
    id: Seq<char>,
    bbox: Rect,
)
    requires
        position_of(defs, id) matches Some(i) && !defs[i].is_bbox_relative(),
    ensures
        promoted_id(defs, id) is None,
        promoted_defs(defs, id, bbox) == defs,
{
}

/// A promotion keeps every entry of the registry in its place, and where no
/// two entries shared an id before, none do after.
pub proof fn promotion_keeps_registry(defs: Seq<ResourceView>, id: Seq<char>, bbox: Rect)
    ensures
        defs.len() <= promoted_defs(defs, id, bbox).len(),
        forall|k: int| 0 <= k < defs.len() ==> promoted_defs(defs, id, bbox)[k] == defs[k],
        forall|other: Seq<char>|
            is_used(defs, other) ==> is_used(promoted_defs(defs, id, bbox), other),
        ids_distinct(defs) ==> ids_distinct(promoted_defs(defs, id, bbox)),
        promoted_id(defs, id) matches Some(new_id) ==> !is_used(defs, new_id) && is_used(
            promoted_defs(defs, id, bbox),
            new_id,
        ),
{
    let after = promoted_defs(defs, id, bbox);
    assert forall|other: Seq<char>| is_used(defs, other) implies is_used(after, other) by {
        let j = choose|j: int| 0 <= j < defs.len() && (#[trigger] defs[j]).id() == other;
        assert(after[j].id() == other);
    }
    if promotes(defs, id) {
        first_free_exists(defs);
        let new_id = synthetic_name(first_free(defs));
        assert(after[defs.len() as int].id() == new_id);
        if ids_distinct(defs) {
            assert forall|i: int, j: int| 0 <= i < j < after.len() implies (#[trigger] after[i]).id()
                != (#[trigger] after[j]).id() by {
                if j == defs.len() {
                    assert(after[i] == defs[i]);
                } else {
                    assert(after[i] == defs[i] && after[j] == defs[j]);
                }
            }
        }
    }
}

/// Whether a paint is a colour or names an entry of the registry.
pub open spec fn paint_resolves(paint: PaintView, defs: Seq<ResourceView>) -> bool {
    match paint {
        PaintView::Link(id) => is_used(defs, id),
        PaintView::Color(_) => true,
    }
}

/// Whether the fill and the stroke of a path name entries of the registry.
pub open spec fn links_resolve(path: PathView, defs: Seq<ResourceView>) -> bool {
    &&& path.fill matches Some(f) ==> paint_resolves(f.paint, defs)
    &&& path.stroke matches Some(s) ==> paint_resolves(s.paint, defs)
}

/// Relinking a paint keeps every entry of the registry in its place and
/// every id in use; where no two entries shared an id before, none do
/// after; and a paint that named an entry names one after.
pub proof fn relink_paint_keeps_registry(paint: PaintView, defs: Seq<ResourceView>, bbox: Rect)
    ensures
        defs.len() <= relinked_defs(paint, defs, bbox).len(),
        forall|k: int| 0 <= k < defs.len() ==> relinked_defs(paint, defs, bbox)[k] == defs[k],
        forall|other: Seq<char>|
            is_used(defs, other) ==> is_used(relinked_defs(paint, defs, bbox), other),
        ids_distinct(defs) ==> ids_distinct(relinked_defs(paint, defs, bbox)),
        paint_resolves(paint, defs) ==> paint_resolves(
            relinked_paint(paint, defs),
            relinked_defs(paint, defs, bbox),
        ),
{
    match paint {
        PaintView::Link(id) => {
            promotion_keeps_registry(defs, id, bbox);
        },
        PaintView::Color(_) => {},
    }
}

/// Relinking a path keeps every entry of the registry in its place and
/// every id in use; where no two entries shared an id before, none do
/// after; and where the fill and the stroke named entries, they name
/// entries after.
pub proof fn relink_keeps_registry(path: PathView, defs: Seq<ResourceView>, bbox: Rect)
    ensures
        defs.len() <= defs_after_path(path, defs, bbox).len(),
        forall|k: int| 0 <= k < defs.len() ==> defs_after_path(path, defs, bbox)[k] == defs[k],
        forall|other: Seq<char>|
            is_used(defs, other) ==> is_used(defs_after_path(path, defs, bbox), other),
        ids_distinct(defs) ==> ids_distinct(defs_after_path(path, defs, bbox)),
        links_resolve(path, defs) ==> links_resolve(
            relinked_path(path, defs, bbox),
            defs_after_path(path, defs, bbox),
        ),
{
    let mid = defs_after_fill(path, defs, bbox);
    match path.fill {
        Some(f) => {
            relink_paint_keeps_registry(f.paint, defs, bbox);
        },
        None => {},
    }
    match path.stroke {
        Some(s) => {
            relink_paint_keeps_registry(s.paint, mid, bbox);
        },
        None => {},
    }
}

/// Relinking a path whose fill and stroke name entries of the registry
/// leaves them naming entries of the registry.
pub proof fn relink_keeps_links(path: PathView, defs: Seq<ResourceView>, bbox: Rect)
    requires
        links_resolve(path, defs),
    ensures
        links_resolve(relinked_path(path, defs, bbox), defs_after_path(path, defs, bbox)),
{
    relink_keeps_registry(path, defs, bbox);
}

/// What named an entry of a registry names one of any registry that
/// holds the same entries in the same places.
pub proof fn grown_registry_keeps_links(
    path: PathView,
    defs: Seq<ResourceView>,
    grown: Seq<ResourceView>,
)
    requires
        links_resolve(path, defs),
        defs.len() <= grown.len(),
        forall|k: int| 0 <= k < defs.len() ==> grown[k] == defs[k],
    ensures
        links_resolve(path, grown),
{
    assert forall|id: Seq<char>| is_used(defs, id) implies is_used(grown, id) by {
        let j = choose|j: int| 0 <= j < defs.len() && (#[trigger] defs[j]).id() == id;
        assert(grown[j].id() == id);
    }
}

fn relink_paint(paint: Paint, bbox: Rect, tree: &mut Tree) -> (r: Paint)
    requires
        paint_resolves(paint@, old(tree)@),
    ensures
        r@ == relinked_paint(paint@, old(tree)@),
        final(tree)@ == relinked_defs(paint@, old(tree)@, bbox),
{
    match paint {
        Paint::Link(id) => {
            match paint_server_to_user_space_on_use(id.as_str(), bbox, tree) {
                Some(new_id) => Paint::Link(new_id),
                None => Paint::Link(id),
            }
        },
        Paint::Color(c) => Paint::Color(c),
    }
}

/// Repoints the fill and the stroke of `path` to user-space copies of the
/// paint servers that they name, where those are defined relative to a
/// bounding box; `bbox` is the box that stands for the element's own.
/// What the fill and the stroke name must be in the registry, and is so
/// after.
pub fn fix_obj_bounding_box(path: &mut Path, bbox: Rect, tree: &mut Tree)
    requires
        links_resolve(old(path)@, old(tree)@),
    ensures
        final(path)@ == relinked_path(old(path)@, old(tree)@, bbox),
        final(tree)@ == defs_after_path(old(path)@, old(tree)@, bbox),
        links_resolve(final(path)@, final(tree)@),
{
    proof {
        relink_keeps_registry(old(path)@, old(tree)@, bbox);
        match old(path)@.fill {
            Some(f) => {
                relink_paint_keeps_registry(f.paint, old(tree)@, bbox);
            },
            None => {},
        }
    }
    let fill = path.fill.take();
    path.fill = match fill {
        Some(f) => Some(
            Fill { paint: relink_paint(f.paint, bbox, tree), opacity: f.opacity, rule: f.rule },
        ),
        None => None,
    };
    let stroke = path.stroke.take();
    path.stroke = match stroke {
        Some(s) => Some(
            Stroke { paint: relink_paint(s.paint, bbox, tree), opacity: s.opacity, width: s.width },
        ),
        None => None,
    };
}

} // verus!
