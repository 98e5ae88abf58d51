use scene_core::geom::Transform;
use scene_core::switch::{
    chars_of, convert, is_condition_passed, is_valid_sys_lang, Group, Options, SourceNode,
    SwitchNode, SwitchOutcome,
};
use scene_core::tree::{Resource, Tree};

fn node() -> SourceNode {
    SourceNode {
        is_graphics: true,
        required_extensions: None,
        required_features: None,
        system_language: None,
    }
}

fn with_features(value: &str) -> SourceNode {
    SourceNode { required_features: Some(value.to_string()), ..node() }
}

fn with_language(value: &str) -> SourceNode {
    SourceNode { system_language: Some(value.to_string()), ..node() }
}

fn english() -> Options {
    Options { languages: vec!["en".to_string()] }
}

fn plain_group() -> Group {
    Group {
        id: String::new(),
        transform: Transform::identity(),
        opacity: 255,
        clip_path: None,
        mask: None,
        filter: None,
    }
}

#[test]
fn chars_of_keeps_every_character() {
    assert_eq!(chars_of("a-é"), vec!['a', '-', 'é']);
    assert_eq!(chars_of(""), Vec::<char>::new());
}

#[test]
fn plain_graphics_node_passes() {
    assert!(is_condition_passed(&node(), &english()));
}

#[test]
fn non_graphics_node_is_rejected() {
    let n = SourceNode { is_graphics: false, ..node() };
    assert!(!is_condition_passed(&n, &english()));
}

#[test]
fn required_extensions_always_reject() {
    let n = SourceNode { required_extensions: Some(String::new()), ..node() };
    assert!(!is_condition_passed(&n, &english()));
    let n = SourceNode { required_extensions: Some("http://example.org/ext".to_string()), ..node() };
    assert!(!is_condition_passed(&n, &english()));
}

#[test]
fn listed_features_pass() {
    let one = "http://www.w3.org/TR/SVG11/feature#Shape";
    assert!(is_condition_passed(&with_features(one), &english()));
    let two = "http://www.w3.org/TR/SVG11/feature#Shape http://www.w3.org/TR/SVG11/feature#Text";
    assert!(is_condition_passed(&with_features(two), &english()));
}

#[test]
fn every_listed_feature_is_known() {
    let names = [
        "SVGDOM-static",
        "SVG-static",
        "CoreAttribute",
        "Structure",
        "BasicStructure",
        "ConditionalProcessing",
        "Image",
        "Style",
        "Shape",
        "Text",
        "BasicText",
        "PaintAttribute",
        "BasicPaintAttribute",
        "OpacityAttribute",
        "BasicGraphicsAttribute",
        "Marker",
        "Gradient",
        "Pattern",
        "Clip",
        "BasicClip",
        "Mask",
        "BasicFilter",
        "XlinkAttribute",
    ];
    for name in names {
        let value = format!("http://www.w3.org/TR/SVG11/feature#{}", name);
        assert!(is_condition_passed(&with_features(&value), &english()), "{}", name);
    }
}

#[test]
fn unknown_feature_rejects() {
    let two = "http://www.w3.org/TR/SVG11/feature#Shape http://www.w3.org/TR/SVG11/feature#Text";
    let three = format!("{} http://www.w3.org/TR/SVG11/feature#Font", two);
    assert!(!is_condition_passed(&with_features(&three), &english()));
    assert!(!is_condition_passed(&with_features("http://www.w3.org/TR/SVG11/feature#Filter"), &english()));
    assert!(!is_condition_passed(&with_features("Shape"), &english()));
    // The comparison is letter for letter.
    assert!(!is_condition_passed(&with_features("http://www.w3.org/TR/SVG11/feature#shape"), &english()));
}

#[test]
fn features_are_separated_by_white_space() {
    let shape = "http://www.w3.org/TR/SVG11/feature#Shape";
    let text = "http://www.w3.org/TR/SVG11/feature#Text";
    for gap in [" ", "  ", "\t", "\n", " \r\n ", "\u{a0}", "\u{2003}"] {
        let value = format!("{}{}{}", shape, gap, text);
        assert!(is_condition_passed(&with_features(&value), &english()), "{:?}", gap);
        let around = format!("{}{}{}", gap, shape, gap);
        assert!(is_condition_passed(&with_features(&around), &english()), "{:?}", gap);
        let bad = format!("{}{}{}x", shape, gap, text);
        assert!(!is_condition_passed(&with_features(&bad), &english()), "{:?}", gap);
    }
    // Anything else is part of the name.
    let joined = format!("{},{}", shape, text);
    assert!(!is_condition_passed(&with_features(&joined), &english()));
    let glued = format!("{}{}", shape, text);
    assert!(!is_condition_passed(&with_features(&glued), &english()));
}

#[test]
fn value_that_names_no_feature_passes() {
    assert!(is_condition_passed(&with_features(""), &english()));
    assert!(is_condition_passed(&with_features("  \t "), &english()));
}

#[test]
fn language_matches_exactly_or_up_to_a_dash() {
    let opt = english();
    assert!(is_valid_sys_lang(&with_language("en"), &opt));
    assert!(is_valid_sys_lang(&with_language("en-US"), &opt));
    assert!(is_valid_sys_lang(&with_language("fr, en-GB"), &opt));
    assert!(!is_valid_sys_lang(&with_language("eng"), &opt));
    assert!(!is_valid_sys_lang(&with_language("fr"), &opt));
    assert!(is_condition_passed(&with_language("fr, en-GB"), &opt));
    assert!(!is_condition_passed(&with_language("fr"), &opt));
}

#[test]
fn language_edge_cases() {
    let opt = english();
    // Without the attribute the check passes.
    assert!(is_valid_sys_lang(&node(), &opt));
    // With it, something has to match.
    assert!(!is_valid_sys_lang(&with_language(""), &opt));
    assert!(!is_valid_sys_lang(&with_language("-en"), &opt));
    assert!(is_valid_sys_lang(&with_language("  en\t"), &opt));
    assert!(is_valid_sys_lang(&with_language("de,fr,en"), &opt));
    assert!(is_valid_sys_lang(&with_language("en-US-x"), &opt));
    // A preferred language may have a dash of its own.
    let british = Options { languages: vec!["en-GB".to_string()] };
    assert!(is_valid_sys_lang(&with_language("en-GB"), &british));
    assert!(is_valid_sys_lang(&with_language("en-GB-x"), &british));
    assert!(!is_valid_sys_lang(&with_language("en-GBx"), &british));
    assert!(!is_valid_sys_lang(&with_language("en-US"), &british));
    assert!(!is_valid_sys_lang(&with_language("en"), &british));
    let none = Options { languages: vec![] };
    assert!(!is_valid_sys_lang(&with_language("en"), &none));
    let two = Options { languages: vec!["de".to_string(), "fr".to_string()] };
    assert!(is_valid_sys_lang(&with_language("en, fr-CA"), &two));
}

#[test]
fn switch_draws_first_passing_child() {
    let a = with_language("fr");
    let b = node();
    let c = node();
    let switch = SwitchNode { attrs: plain_group(), children: vec![a, b, c] };
    assert_eq!(convert(&switch, &english(), &Tree::new()), SwitchOutcome::Splice(1));
}

#[test]
fn switch_without_passing_child_draws_nothing() {
    let switch = SwitchNode {
        attrs: plain_group(),
        children: vec![with_language("fr"), with_features("x")],
    };
    assert_eq!(convert(&switch, &english(), &Tree::new()), SwitchOutcome::Nothing);
    let empty = SwitchNode { attrs: plain_group(), children: vec![] };
    assert_eq!(convert(&empty, &english(), &Tree::new()), SwitchOutcome::Nothing);
}

#[test]
fn switch_that_needs_isolation_nests_its_child() {
    let faded = Group { opacity: 128, ..plain_group() };
    let switch = SwitchNode { attrs: faded.clone(), children: vec![node()] };
    assert_eq!(convert(&switch, &english(), &Tree::new()), SwitchOutcome::Nest(0, faded));

    let moved = Group { transform: Transform::new_translate(5, 5), ..plain_group() };
    let switch = SwitchNode { attrs: moved.clone(), children: vec![with_language("fr"), node()] };
    assert_eq!(convert(&switch, &english(), &Tree::new()), SwitchOutcome::Nest(1, moved));
}

#[test]
fn switch_with_filter_resolves_its_link() {
    let filtered = Group { filter: Some("blur".to_string()), ..plain_group() };
    let switch = SwitchNode { attrs: filtered.clone(), children: vec![node()] };
    // The filter is not registered: the switch draws nothing.
    assert_eq!(convert(&switch, &english(), &Tree::new()), SwitchOutcome::Nothing);
    let tree = Tree { defs: vec![Resource::Other("blur".to_string())] };
    assert_eq!(convert(&switch, &english(), &tree), SwitchOutcome::Nest(0, filtered));
}
