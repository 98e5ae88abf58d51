//! Conditional content: which element is kept, and which child of a
//! `switch` is drawn.

use vstd::prelude::*;
use vstd::string::StrSliceExecFns;
use crate::geom::Transform;
use crate::tree::{is_used, position_of_none, ResourceView, Tree};

verus! {

/// What the user agent is set up with.
#[derive(Clone, Debug, PartialEq, Eq)]
pub struct Options {
    /// The languages that the user prefers.
    pub languages: Vec<String>,
}

/// What conditional processing reads of an element.
#[derive(Clone, Debug, PartialEq, Eq)]
pub struct SourceNode {
    /// Whether the node is a graphics element.
    pub is_graphics: bool,
    pub required_extensions: Option<String>,
    pub required_features: Option<String>,
    pub system_language: Option<String>,
}

/// What a container hands on to a group that stands for it.
#[derive(Clone, Debug, PartialEq, Eq)]
pub struct Group {
    pub id: String,
    pub transform: Transform,
    /// The opacity, from 0 for clear to 255 for opaque.
    pub opacity: u8,
    pub clip_path: Option<String>,
    pub mask: Option<String>,
    pub filter: Option<String>,
}

/// A `switch` element: what it carries itself, and its children in
/// document order.
#[derive(Clone, Debug, PartialEq, Eq)]
pub struct SwitchNode {
    pub attrs: Group,
    pub children: Vec<SourceNode>,
}

/// What a `switch` contributes to the scene.
#[derive(Clone, Debug, PartialEq, Eq)]
pub enum SwitchOutcome {
    /// Nothing at all.
    Nothing,
    /// The child at this index, put straight into the parent.
    Splice(usize),
    /// The child at this index, put into a new group that stands for the
    /// container.
    Nest(usize, Group),
}

pub struct NodeView {
    pub is_graphics: bool,
    pub required_extensions: Option<Seq<char>>,
    pub required_features: Option<Seq<char>>,
    pub system_language: Option<Seq<char>>,
}

pub struct GroupView {
    pub id: Seq<char>,
    pub transform: Transform,
    pub opacity: u8,
    pub clip_path: Option<Seq<char>>,
    pub mask: Option<Seq<char>>,
    pub filter: Option<Seq<char>>,
}

pub struct SwitchView {
    pub attrs: GroupView,
    pub children: Seq<NodeView>,
}

pub enum OutcomeView {
    Nothing,
    Splice(usize),
    Nest(usize, GroupView),
}

/// The view of an optional string.
pub open spec fn text_view(s: Option<String>) -> Option<Seq<char>> {
    match s {
        Some(s) => Some(s@),
        None => None,
    }
}

/// The views of a sequence of strings, in order.
pub open spec fn texts_view(v: Seq<String>) -> Seq<Seq<char>> {
    Seq::new(v.len(), |i: int| v[i]@)
}

impl View for Options {
    type V = Seq<Seq<char>>;

    open spec fn view(&self) -> Seq<Seq<char>> {
        texts_view(self.languages@)
    }
}

impl View for SourceNode {
    type V = NodeView;

    open spec fn view(&self) -> NodeView {
        NodeView {
            is_graphics: self.is_graphics,
            required_extensions: text_view(self.required_extensions),
            required_features: text_view(self.required_features),
            system_language: text_view(self.system_language),
        }
    }
}

impl View for Group {
    type V = GroupView;

    open spec fn view(&self) -> GroupView {
        GroupView {
            id: self.id@,
            transform: self.transform,
            opacity: self.opacity,
            clip_path: text_view(self.clip_path),
            mask: text_view(self.mask),
            filter: text_view(self.filter),
        }
    }
}

impl View for SwitchNode {
    type V = SwitchView;

    open spec fn view(&self) -> SwitchView {
        SwitchView {
            attrs: self.attrs@,
            children: Seq::new(self.children@.len(), |i: int| self.children@[i]@),
        }
    }
}

impl View for SwitchOutcome {
    type V = OutcomeView;

    open spec fn view(&self) -> OutcomeView {
        match self {
            SwitchOutcome::Nothing => OutcomeView::Nothing,
            SwitchOutcome::Splice(i) => OutcomeView::Splice(*i),
            SwitchOutcome::Nest(i, g) => OutcomeView::Nest(*i, g@),
        }
    }
}

/// The feature strings that are supported.
pub open spec fn feature_list() -> Seq<Seq<char>> {
    seq![
        "http://www.w3.org/TR/SVG11/feature#SVGDOM-static"@,
        "http://www.w3.org/TR/SVG11/feature#SVG-static"@,
        "http://www.w3.org/TR/SVG11/feature#CoreAttribute"@,
        "http://www.w3.org/TR/SVG11/feature#Structure"@,
        "http://www.w3.org/TR/SVG11/feature#BasicStructure"@,
        "http://www.w3.org/TR/SVG11/feature#ConditionalProcessing"@,
        "http://www.w3.org/TR/SVG11/feature#Image"@,
        "http://www.w3.org/TR/SVG11/feature#Style"@,
        "http://www.w3.org/TR/SVG11/feature#Shape"@,
        "http://www.w3.org/TR/SVG11/feature#Text"@,
        "http://www.w3.org/TR/SVG11/feature#BasicText"@,
        "http://www.w3.org/TR/SVG11/feature#PaintAttribute"@,
        "http://www.w3.org/TR/SVG11/feature#BasicPaintAttribute"@,
        "http://www.w3.org/TR/SVG11/feature#OpacityAttribute"@,
        "http://www.w3.org/TR/SVG11/feature#BasicGraphicsAttribute"@,
        "http://www.w3.org/TR/SVG11/feature#Marker"@,
        "http://www.w3.org/TR/SVG11/feature#Gradient"@,
        "http://www.w3.org/TR/SVG11/feature#Pattern"@,
        "http://www.w3.org/TR/SVG11/feature#Clip"@,
        "http://www.w3.org/TR/SVG11/feature#BasicClip"@,
        "http://www.w3.org/TR/SVG11/feature#Mask"@,
        "http://www.w3.org/TR/SVG11/feature#BasicFilter"@,
        "http://www.w3.org/TR/SVG11/feature#XlinkAttribute"@,
    ]
}

/// Whether `token` is a supported feature string, letter for letter.
pub open spec fn is_feature(token: Seq<char>) -> bool {
    feature_list().contains(token)
}

/// The pieces of `s` between the occurrences of `sep`, in order. There is
/// always one piece more than there are separators; a piece may be empty.
pub open spec fn split(s: Seq<char>, sep: char) -> Seq<Seq<char>>
    decreases s.len(),
{
    if s.len() == 0 {
        seq![Seq::empty()]
    } else {
        let before = split(s.drop_last(), sep);
        if s.last() == sep {
            before.push(Seq::empty())
        } else {
            before.update(before.len() - 1, before.last().push(s.last()))
        }
    }
}

/// Whether `c` is white space.
pub open spec fn is_whitespace(c: char) -> bool {
    ||| '\u{9}' <= c <= '\u{d}'
    ||| c == ' '
    ||| c == '\u{85}'
    ||| c == '\u{a0}'
    ||| c == '\u{1680}'
    ||| '\u{2000}' <= c <= '\u{200a}'
    ||| c == '\u{2028}'
    ||| c == '\u{2029}'
    ||| c == '\u{202f}'
    ||| c == '\u{205f}'
    ||| c == '\u{3000}'
}

/// `s` without the white space that it starts with.
pub open spec fn trim_start(s: Seq<char>) -> Seq<char>
    decreases s.len(),
{
    if s.len() > 0 && is_whitespace(s[0]) {
        trim_start(s.drop_first())
    } else {
        s
    }
}

/// `s` without the white space that it ends with.
pub open spec fn trim_end(s: Seq<char>) -> Seq<char>
    decreases s.len(),
{
    if s.len() > 0 && is_whitespace(s.last()) {
        trim_end(s.drop_last())
    } else {
        s
    }
}

/// `s` without the white space at its two ends.
pub open spec fn trimmed(s: Seq<char>) -> Seq<char> {
    trim_end(trim_start(s))
}

/// Whether a language that a document names fits one that the user
/// prefers: the two are the same, or the named one is the preferred one
/// with a dash and more after it.
pub open spec fn fits(candidate: Seq<char>, language: Seq<char>) -> bool {
    ||| candidate == language
    ||| (candidate.len() > language.len() && candidate.take(language.len() as int) == language
        && candidate[language.len() as int] == '-')
}

/// Whether a language that a document names fits one of the languages
/// that the user prefers.
pub open spec fn language_fits(candidate: Seq<char>, languages: Seq<Seq<char>>) -> bool {
    exists|i: int| 0 <= i < languages.len() && fits(candidate, #[trigger] languages[i])
}

/// The words of `s`: its greatest runs of characters that are not white
/// space, in order.
pub open spec fn words(s: Seq<char>) -> Seq<Seq<char>>
    decreases s.len(),
{
    if s.len() == 0 {
        Seq::empty()
    } else {
        let before = words(s.drop_last());
        if is_whitespace(s.last()) {
            before
        } else if s.len() >= 2 && !is_whitespace(s[s.len() - 2]) && before.len() > 0 {
            before.update(before.len() - 1, before.last().push(s.last()))
        } else {
            before.push(seq![s.last()])
        }
    }
}

/// Whether every feature that a value names, white space between them, is
/// supported.
pub open spec fn features_supported(value: Seq<char>) -> bool {
    forall|i: int| 0 <= i < words(value).len() ==> is_feature(#[trigger] words(value)[i])
}

/// Whether one of the languages that a value names, one between every two
/// commas and with white space around it set aside, fits the preferences.
pub open spec fn language_matches(value: Seq<char>, languages: Seq<Seq<char>>) -> bool {
    exists|i: int|
        0 <= i < split(value, ',').len() && language_fits(
            trimmed(#[trigger] split(value, ',')[i]),
            languages,
        )
}

/// Whether the system language of a node, if it names one, fits.
pub open spec fn valid_sys_lang(node: NodeView, languages: Seq<Seq<char>>) -> bool {
    match node.system_language {
        Some(value) => language_matches(value, languages),
        None => true,
    }
}

/// Whether a node is kept: it is a graphics element, asks for no
/// extension, names only supported features, and fits the languages.
pub open spec fn passes(node: NodeView, languages: Seq<Seq<char>>) -> bool {
    &&& node.is_graphics
    &&& node.required_extensions is None
    &&& (node.required_features matches Some(value) ==> features_supported(value))
    &&& valid_sys_lang(node, languages)
}

/// A vector of the characters of `s`.
pub fn chars_of(s: &str) -> (v: Vec<char>)
    ensures
        v@ == s@,
{
    let mut v: Vec<char> = Vec::new();
    let n = s.unicode_len();
    let mut i: usize = 0;
    while i < n
        invariant
            i <= n,
            n == s@.len(),
            v@ == s@.take(i as int),
        decreases n - i,
    {
        v.push(s.get_char(i));
        assert(s@.take(i as int).push(s@[i as int]) =~= s@.take(i as int + 1));
        i += 1;
    }
    assert(s@.take(n as int) =~= s@);
    v
}

fn range_equals(v: &Vec<char>, from: usize, to: usize, s: &str) -> (r: bool)
    requires
        from <= to <= v@.len(),
    ensures
        r == (v@.subrange(from as int, to as int) == s@),
{
    let n = s.unicode_len();
    if n != to - from {
        return false;
    }
    let mut k: usize = 0;
    while k < n
        invariant
            k <= n,
            n == s@.len(),
            n == to - from,
            from <= to <= v@.len(),
            forall|j: int| 0 <= j < k ==> v@[from + j] == s@[j],
        decreases n - k,
    {
        if v[from + k] != s.get_char(k) {
            assert(v@.subrange(from as int, to as int)[k as int] != s@[k as int]);
            return false;
        }
        k += 1;
    }
    assert(v@.subrange(from as int, to as int) =~= s@);
    true
}

fn feature_at(i: usize) -> (r: &'static str)
    requires
        i < 23,
    ensures
        r@ == feature_list()[i as int],
{
    match i {
        0 => "http://www.w3.org/TR/SVG11/feature#SVGDOM-static",
        1 => "http://www.w3.org/TR/SVG11/feature#SVG-static",
        2 => "http://www.w3.org/TR/SVG11/feature#CoreAttribute",
        3 => "http://www.w3.org/TR/SVG11/feature#Structure",
        4 => "http://www.w3.org/TR/SVG11/feature#BasicStructure",
        5 => "http://www.w3.org/TR/SVG11/feature#ConditionalProcessing",
        6 => "http://www.w3.org/TR/SVG11/feature#Image",
        7 => "http://www.w3.org/TR/SVG11/feature#Style",
        8 => "http://www.w3.org/TR/SVG11/feature#Shape",
        9 => "http://www.w3.org/TR/SVG11/feature#Text",
        10 => "http://www.w3.org/TR/SVG11/feature#BasicText",
        11 => "http://www.w3.org/TR/SVG11/feature#PaintAttribute",
        12 => "http://www.w3.org/TR/SVG11/feature#BasicPaintAttribute",
        13 => "http://www.w3.org/TR/SVG11/feature#OpacityAttribute",
        14 => "http://www.w3.org/TR/SVG11/feature#BasicGraphicsAttribute",
        15 => "http://www.w3.org/TR/SVG11/feature#Marker",
        16 => "http://www.w3.org/TR/SVG11/feature#Gradient",
        17 => "http://www.w3.org/TR/SVG11/feature#Pattern",
        18 => "http://www.w3.org/TR/SVG11/feature#Clip",
        19 => "http://www.w3.org/TR/SVG11/feature#BasicClip",
        20 => "http://www.w3.org/TR/SVG11/feature#Mask",
        21 => "http://www.w3.org/TR/SVG11/feature#BasicFilter",
        _ => "http://www.w3.org/TR/SVG11/feature#XlinkAttribute",
    }
}

fn is_supported(v: &Vec<char>, from: usize, to: usize) -> (r: bool)
    requires
        from <= to <= v@.len(),
    ensures
        r == is_feature(v@.subrange(from as int, to as int)),
{
    let ghost token = v@.subrange(from as int, to as int);
    assert(feature_list().len() == 23);
    let mut i: usize = 0;
    while i < 23
        invariant
            i <= 23,
            from <= to <= v@.len(),
            token == v@.subrange(from as int, to as int),
            feature_list().len() == 23,
            forall|k: int| 0 <= k < i ==> feature_list()[k] != token,
        decreases 23 - i,
    {
        if range_equals(v, from, to, feature_at(i)) {
            assert(feature_list()[i as int] == token);
            return true;
        }
        i += 1;
    }
    false
}

/// The pieces of a text that does not end in a separator, then a
/// separator or one more character.
proof fn split_step(s: Seq<char>, sep: char, n: int)
    requires
        0 <= n < s.len(),
    ensures
        s[n] == sep ==> split(s.take(n + 1), sep) == split(s.take(n), sep).push(Seq::empty()),
        s[n] != sep ==> split(s.take(n + 1), sep) == split(s.take(n), sep).update(
            split(s.take(n), sep).len() - 1,
            split(s.take(n), sep).last().push(s[n]),
        ),
        split(s.take(n), sep).len() >= 1,
{
    assert(s.take(n + 1).drop_last() =~= s.take(n));
    split_nonempty(s.take(n), sep);
}

proof fn split_nonempty(s: Seq<char>, sep: char)
    ensures
        split(s, sep).len() >= 1,
    decreases s.len(),
{
    if s.len() > 0 {
        split_nonempty(s.drop_last(), sep);
    }
}

fn is_space(c: char) -> (r: bool)
    ensures
        r == is_whitespace(c),
{
    ('\u{9}' <= c && c <= '\u{d}') || c == ' ' || c == '\u{85}' || c == '\u{a0}' || c == '\u{1680}'
        || ('\u{2000}' <= c && c <= '\u{200a}') || c == '\u{2028}' || c == '\u{2029}' || c
        == '\u{202f}' || c == '\u{205f}' || c == '\u{3000}'
}

/// The words of a text that is read up to `n`, where the word that is
/// being read, if any, starts at `start`.
spec fn words_so_far(s: Seq<char>, done: Seq<Seq<char>>, start: int, n: int, inside: bool) -> bool {
    &&& 0 <= start <= n <= s.len()
    &&& inside ==> start < n && !is_whitespace(s[n - 1])
    &&& !inside ==> (n == 0 || is_whitespace(s[n - 1]))
    &&& words(s.take(n)) == if inside {
        done.push(s.subrange(start, n))
    } else {
        done
    }
}

proof fn words_step(s: Seq<char>, done: Seq<Seq<char>>, start: int, n: int, inside: bool)
    requires
        words_so_far(s, done, start, n, inside),
        n < s.len(),
    ensures
        is_whitespace(s[n]) ==> words_so_far(
            s,
            if inside {
                done.push(s.subrange(start, n))
            } else {
                done
            },
            n + 1,
            n + 1,
            false,
        ),
        !is_whitespace(s[n]) && inside ==> words_so_far(s, done, start, n + 1, true),
        !is_whitespace(s[n]) && !inside ==> words_so_far(s, done, n, n + 1, true),
{
    let next = s.take(n + 1);
    assert(next.drop_last() =~= s.take(n));
    assert(next.last() == s[n]);
    if !is_whitespace(s[n]) {
        if inside {
            assert(next[next.len() - 2] == s[n - 1]);
            let before = done.push(s.subrange(start, n));
            assert(before.last().push(s[n]) =~= s.subrange(start, n + 1));
            assert(before.update(before.len() - 1, before.last().push(s[n])) =~= done.push(
                s.subrange(start, n + 1),
            ));
        } else {
            if n > 0 {
                assert(next[next.len() - 2] == s[n - 1]);
            }
            assert(seq![s[n]] =~= s.subrange(n, n + 1));
        }
    }
}

fn check_features(value: &str) -> (r: bool)
    ensures
        r == features_supported(value@),
{
    let v = chars_of(value);
    let n = v.len();
    let ghost s = v@;
    let ghost mut done: Seq<Seq<char>> = Seq::empty();
    let mut ok = true;
    let mut inside = false;
    let mut start: usize = 0;
    let mut i: usize = 0;
    proof {
        assert(s.take(0) =~= Seq::<char>::empty());
    }
    while i < n
        invariant
            i <= n,
            n == v@.len(),
            s == v@,
            words_so_far(s, done, start as int, i as int, inside),
            ok == (forall|k: int| 0 <= k < done.len() ==> is_feature(#[trigger] done[k])),
        decreases n - i,
    {
        proof {
            words_step(s, done, start as int, i as int, inside);
        }
        if is_space(v[i]) {
            if inside {
                let fits = is_supported(&v, start, i);
                proof {
                    let longer = done.push(s.subrange(start as int, i as int));
                    if ok && fits {
                        assert forall|k: int| 0 <= k < longer.len() implies is_feature(
                            #[trigger] longer[k],
                        ) by {
                            if k < done.len() {
                                assert(longer[k] == done[k]);
                            }
                        }
                    } else if !fits {
                        assert(!is_feature(longer[done.len() as int]));
                    } else {
                        let k = choose|k: int|
                            0 <= k < done.len() && !is_feature(#[trigger] done[k]);
                        assert(longer[k] == done[k]);
                    }
                    done = longer;
                }
                ok = ok && fits;
                inside = false;
            }
            start = i + 1;
        } else if !inside {
            inside = true;
            start = i;
        }
        i += 1;
    }
    proof {
        assert(s.take(n as int) =~= s);
    }
    if inside {
        let fits = is_supported(&v, start, n);
        proof {
            let all = done.push(s.subrange(start as int, n as int));
            if ok && fits {
                assert forall|k: int| 0 <= k < all.len() implies is_feature(#[trigger] all[k]) by {
                    if k < done.len() {
                        assert(all[k] == done[k]);
                    }
                }
            } else if !fits {
                assert(!is_feature(all[done.len() as int]));
            } else {
                let k = choose|k: int| 0 <= k < done.len() && !is_feature(#[trigger] done[k]);
                assert(all[k] == done[k]);
            }
        }
        ok && fits
    } else {
        ok
    }
}

fn trim_range(v: &Vec<char>, from: usize, to: usize) -> (r: (usize, usize))
    requires
        from <= to <= v@.len(),
    ensures
        from <= r.0 <= r.1 <= to,
        v@.subrange(r.0 as int, r.1 as int) == trimmed(v@.subrange(from as int, to as int)),
{
    let mut a = from;
    while a < to && is_space(v[a])
        invariant
            from <= a <= to <= v@.len(),
            trim_start(v@.subrange(from as int, to as int)) == trim_start(
                v@.subrange(a as int, to as int),
            ),
        decreases to - a,
    {
        assert(v@.subrange(a as int, to as int).drop_first() =~= v@.subrange(
            a as int + 1,
            to as int,
        ));
        a += 1;
    }
    let mut b = to;
    while a < b && is_space(v[b - 1])
        invariant
            a <= b <= to <= v@.len(),
            trim_end(v@.subrange(a as int, to as int)) == trim_end(
                v@.subrange(a as int, b as int),
            ),
        decreases b - a,
    {
        assert(v@.subrange(a as int, b as int).drop_last() =~= v@.subrange(
            a as int,
            b as int - 1,
        ));
        b -= 1;
    }
    (a, b)
}

fn fits_language(v: &Vec<char>, from: usize, to: usize, language: &str) -> (r: bool)
    requires
        from <= to <= v@.len(),
    ensures
        r == fits(v@.subrange(from as int, to as int), language@),
{
    let ghost c = v@.subrange(from as int, to as int);
    let n = language.unicode_len();
    if n > to - from {
        return false;
    }
    let same = range_equals(v, from, from + n, language);
    proof {
        assert(c.take(n as int) =~= v@.subrange(from as int, from + n));
        if n == to - from {
            assert(c.take(n as int) =~= c);
        }
    }
    if n == to - from {
        same
    } else {
        same && v[from + n] == '-'
    }
}

fn candidate_fits(v: &Vec<char>, from: usize, to: usize, languages: &Vec<String>) -> (r: bool)
    requires
        from <= to <= v@.len(),
    ensures
        r == language_fits(v@.subrange(from as int, to as int), texts_view(languages@)),
{
    let ghost c = v@.subrange(from as int, to as int);
    let mut i: usize = 0;
    while i < languages.len()
        invariant
            i <= languages.len(),
            from <= to <= v@.len(),
            c == v@.subrange(from as int, to as int),
            forall|k: int| 0 <= k < i ==> !fits(c, #[trigger] texts_view(languages@)[k]),
        decreases languages.len() - i,
    {
        if fits_language(v, from, to, languages[i].as_str()) {
            assert(fits(c, texts_view(languages@)[i as int]));
            return true;
        }
        i += 1;
    }
    false
}

fn check_languages(value: &str, languages: &Vec<String>) -> (r: bool)
    ensures
        r == language_matches(value@, texts_view(languages@)),
{
    let v = chars_of(value);
    let n = v.len();
    let ghost s = v@;
    let ghost langs = texts_view(languages@);
    let ghost mut done: Seq<Seq<char>> = Seq::empty();
    let mut found = false;
    let mut start: usize = 0;
    let mut i: usize = 0;
    proof {
        assert(s.take(0) =~= Seq::<char>::empty());
        assert(s.subrange(0, 0) =~= Seq::<char>::empty());
        assert(split(s.take(0), ',') =~= done.push(s.subrange(0, 0)));
    }
    while i < n
        invariant
            start <= i <= n,
            n == v@.len(),
            s == v@,
            langs == texts_view(languages@),
            split(s.take(i as int), ',') == done.push(s.subrange(start as int, i as int)),
            found == (exists|k: int|
                0 <= k < done.len() && language_fits(trimmed(#[trigger] done[k]), langs)),
        decreases n - i,
    {
        proof {
            split_step(s, ',', i as int);
        }
        if v[i] == ',' {
            let (a, b) = trim_range(&v, start, i);
            let fits = candidate_fits(&v, a, b, languages);
            proof {
                let token = s.subrange(start as int, i as int);
                let longer = done.push(token);
                assert(s.subrange(i as int + 1, i as int + 1) =~= Seq::<char>::empty());
                assert(longer.push(Seq::empty()) =~= longer.push(
                    s.subrange(i as int + 1, i as int + 1),
                ));
                if found {
                    let k = choose|k: int|
                        0 <= k < done.len() && language_fits(trimmed(#[trigger] done[k]), langs);
                    assert(longer[k] == done[k]);
                } else if fits {
                    assert(language_fits(trimmed(longer[done.len() as int]), langs));
                } else {
                    assert forall|k: int| 0 <= k < longer.len() implies !language_fits(
                        trimmed(#[trigger] longer[k]),
                        langs,
                    ) by {
                        if k < done.len() {
                            assert(longer[k] == done[k]);
                        }
                    }
                }
                done = longer;
            }
            found = found || fits;
            start = i + 1;
        } else {
            proof {
                let before = done.push(s.subrange(start as int, i as int));
                assert(before.last().push(s[i as int]) =~= s.subrange(
                    start as int,
                    i as int + 1,
                ));
                assert(before.update(before.len() - 1, before.last().push(s[i as int]))
                    =~= done.push(s.subrange(start as int, i as int + 1)));
            }
        }
        i += 1;
    }
    let (a, b) = trim_range(&v, start, n);
    let fits = candidate_fits(&v, a, b, languages);
    proof {
        assert(s.take(n as int) =~= s);
        let all = done.push(s.subrange(start as int, n as int));
        assert(split(s, ',') == all);
        if found {
            let k = choose|k: int|
                0 <= k < done.len() && language_fits(trimmed(#[trigger] done[k]), langs);
            assert(all[k] == done[k]);
        } else if fits {
            assert(language_fits(trimmed(all[done.len() as int]), langs));
        } else {
            assert forall|k: int| 0 <= k < all.len() implies !language_fits(
                trimmed(#[trigger] all[k]),
                langs,
            ) by {
                if k < done.len() {
                    assert(all[k] == done[k]);
                }
            }
        }
    }
    found || fits
}

/// Whether the system language of a node, if it names one, fits the
/// languages that the user prefers.
pub fn is_valid_sys_lang(node: &SourceNode, opt: &Options) -> (r: bool)
    ensures
        r == valid_sys_lang(node@, opt@),
{
    match &node.system_language {
        Some(value) => check_languages(value.as_str(), &opt.languages),
        None => true,
    }
}

/// Whether a node is kept.
pub fn is_condition_passed(node: &SourceNode, opt: &Options) -> (r: bool)
    ensures
        r == passes(node@, opt@),
{
    if !node.is_graphics {
        return false;
    }
    if node.required_extensions.is_some() {
        return false;
    }
    match &node.required_features {
        Some(value) => {
            if !check_features(value.as_str()) {
                return false;
            }
        },
        None => {},
    }
    is_valid_sys_lang(node, opt)
}

/// Whether child `i` is kept and no child before it is.
pub open spec fn is_first_passing(children: Seq<NodeView>, languages: Seq<Seq<char>>, i: int) -> bool {
    &&& 0 <= i < children.len()
    &&& passes(children[i], languages)
    &&& forall|k: int| 0 <= k < i ==> !passes(#[trigger] children[k], languages)
}

/// Whether no child is kept.
pub open spec fn none_passes(children: Seq<NodeView>, languages: Seq<Seq<char>>) -> bool {
    forall|k: int| 0 <= k < children.len() ==> !passes(#[trigger] children[k], languages)
}

/// Whether a link names something that the registry does not hold.
pub open spec fn link_dangles(link: Option<Seq<char>>, defs: Seq<ResourceView>) -> bool {
    link matches Some(id) && !is_used(defs, id)
}

/// Whether the clip path, the mask or the filter of a container names
/// something that the registry does not hold.
pub open spec fn dangling(g: GroupView, defs: Seq<ResourceView>) -> bool {
    link_dangles(g.clip_path, defs) || link_dangles(g.mask, defs) || link_dangles(g.filter, defs)
}

/// Whether a container has to be drawn on its own: it is not opaque, it is
/// clipped, masked or filtered, or it has a transform.
pub open spec fn needs_group(g: GroupView) -> bool {
    ||| g.opacity != 255
    ||| g.clip_path is Some
    ||| g.mask is Some
    ||| g.filter is Some
    ||| g.transform != Transform::identity_spec()
}

/// What a `switch` contributes when child `child` is the one that is
/// kept: nothing where the container names something that is missing; the
/// child in a group that stands for the container where the container has
/// to be drawn on its own; else the child itself.
pub open spec fn outcome_for(node: SwitchView, defs: Seq<ResourceView>, child: int) -> OutcomeView {
    if dangling(node.attrs, defs) {
        OutcomeView::Nothing
    } else if needs_group(node.attrs) {
        OutcomeView::Nest(child as usize, node.attrs)
    } else {
        OutcomeView::Splice(child as usize)
    }
}

fn copy_text(s: &Option<String>) -> (r: Option<String>)
    ensures
        text_view(r) == text_view(*s),
{
    match s {
        Some(s) => Some(s.clone()),
        None => None,
    }
}

fn link_is_missing(link: &Option<String>, tree: &Tree) -> (r: bool)
    ensures
        r == link_dangles(text_view(*link), tree@),
{
    match link {
        Some(id) => {
            proof {
                position_of_none(tree@, id@);
            }
            tree.defs_by_id(id.as_str()).is_none()
        },
        None => false,
    }
}

impl Group {
    /// A group with the same view.
    pub fn duplicate(&self) -> (r: Group)
        ensures
            r@ == self@,
    {
        Group {
            id: self.id.clone(),
            transform: self.transform,
            opacity: self.opacity,
            clip_path: copy_text(&self.clip_path),
            mask: copy_text(&self.mask),
            filter: copy_text(&self.filter),
        }
    }

    /// Whether the container has to be drawn on its own.
    pub fn is_required(&self) -> (r: bool)
        ensures
            r == needs_group(self@),
    {
        self.opacity != 255 || self.clip_path.is_some() || self.mask.is_some()
            || self.filter.is_some() || self.transform != Transform::identity()
    }
}

/// Picks the child of a `switch` that is drawn: the first one, in document
/// order, that is kept. The children after it are dropped, whether or not
/// they would be kept.
pub fn convert(node: &SwitchNode, opt: &Options, tree: &Tree) -> (r: SwitchOutcome)
    ensures
        none_passes(node@.children, opt@) ==> r@ == OutcomeView::Nothing,
        forall|i: int|
            is_first_passing(node@.children, opt@, i) ==> r@ == outcome_for(node@, tree@, i),
{
    let mut i: usize = 0;
    while i < node.children.len()
        invariant
            i <= node.children.len(),
            forall|k: int| 0 <= k < i ==> !passes(#[trigger] node@.children[k], opt@),
        decreases node.children.len() - i,
    {
        if is_condition_passed(&node.children[i], opt) {
            assert(is_first_passing(node@.children, opt@, i as int));
            assert(passes(node@.children[i as int], opt@));
            let missing = link_is_missing(&node.attrs.clip_path, tree) || link_is_missing(
                &node.attrs.mask,
                tree,
            ) || link_is_missing(&node.attrs.filter, tree);
            let r = if missing {
                SwitchOutcome::Nothing
            } else if node.attrs.is_required() {
                SwitchOutcome::Nest(i, node.attrs.duplicate())
            } else {
                SwitchOutcome::Splice(i)
            };
            assert(r@ == outcome_for(node@, tree@, i as int));
            assert forall|j: int| is_first_passing(node@.children, opt@, j) implies j == i by {
                if j < i {
                    assert(!passes(node@.children[j], opt@));
                } else if j > i {
                    assert(!passes(node@.children[i as int], opt@));
                }
            }
            return r;
        }
        i += 1;
    }
    SwitchOutcome::Nothing
}

/// A word put after a text, white space between them, is one more word.
pub proof fn words_append(a: Seq<char>, gap: char, t: Seq<char>)
    requires
        is_whitespace(gap),
        t.len() > 0,
        forall|k: int| 0 <= k < t.len() ==> !is_whitespace(t[k]),
    ensures
        words(a + seq![gap] + t) == words(a).push(t),
    decreases t.len(),
{
    let whole = a + seq![gap] + t;
    let head = a + seq![gap];
    assert(whole.len() == a.len() + 1 + t.len());
    assert(whole.last() == t[t.len() - 1]);
    assert(!is_whitespace(t[t.len() - 1]));
    if t.len() == 1 {
        assert(whole.drop_last() =~= head);
        assert(head.drop_last() =~= a);
        assert(head.last() == gap);
        assert(words(head) == words(a));
        assert(whole[whole.len() - 2] == gap);
        assert(words(whole) == words(head).push(seq![whole.last()]));
        assert(seq![whole.last()] =~= t);
    } else {
        let init = t.drop_last();
        assert forall|k: int| 0 <= k < init.len() implies !is_whitespace(init[k]) by {
            assert(init[k] == t[k]);
        }
        words_append(a, gap, init);
        assert(whole.drop_last() =~= a + seq![gap] + init);
        assert(whole[whole.len() - 2] == t[t.len() - 2]);
        assert(!is_whitespace(t[t.len() - 2]));
        let before = words(a).push(init);
        assert(words(whole.drop_last()) == before);
        assert(words(whole) == before.update(before.len() - 1, before.last().push(whole.last())));
        assert(init.push(t[t.len() - 1]) =~= t);
        assert(before.update(before.len() - 1, before.last().push(whole.last())) =~= words(a).push(
            t,
        ));
    }
}

/// A graphics element that asks for no extension and fits the languages
/// is kept where every feature that it names is supported.
pub proof fn listed_features_pass(node: NodeView, languages: Seq<Seq<char>>, value: Seq<char>)
    requires
        node.is_graphics,
        node.required_extensions is None,
        valid_sys_lang(node, languages),
        node.required_features == Some(value),
        forall|i: int| 0 <= i < words(value).len() ==> is_feature(#[trigger] words(value)[i]),
    ensures
        passes(node, languages),
{
}

/// One more feature that is not supported, put after the features that an
/// element names, makes the element fail whatever else holds of it.
pub proof fn unknown_feature_fails(
    node: NodeView,
    languages: Seq<Seq<char>>,
    value: Seq<char>,
    unknown: Seq<char>,
)
    requires
        node.required_features == Some(value + seq![' '] + unknown),
        unknown.len() > 0,
        forall|k: int| 0 <= k < unknown.len() ==> !is_whitespace(unknown[k]),
        !is_feature(unknown),
    ensures
        !passes(node, languages),
{
    words_append(value, ' ', unknown);
    let pieces = words(value + seq![' '] + unknown);
    assert(pieces[pieces.len() - 1] == unknown);
}

/// A language fits itself, and so does the same language with a dash and
/// anything after it.
pub proof fn language_fits_its_regions(language: Seq<char>, rest: Seq<char>)
    ensures
        fits(language, language),
        fits(language + seq!['-'] + rest, language),
{
    let candidate = language + seq!['-'] + rest;
    assert(candidate.take(language.len() as int) =~= language);
}

/// Of three children of which the first fails and the second is kept, a
/// `switch` draws the second, whatever holds of the third.
pub proof fn second_of_three_is_drawn(a: NodeView, b: NodeView, c: NodeView, languages: Seq<Seq<char>>)
    requires
        !passes(a, languages),
        passes(b, languages),
    ensures
        is_first_passing(seq![a, b, c], languages, 1),
        !is_first_passing(seq![a, b, c], languages, 0),
        !is_first_passing(seq![a, b, c], languages, 2),
{
    let children = seq![a, b, c];
    assert(children[1] == b);
}

} // verus!
