//! Tests of the property definition registry: adding and finding
//! definitions, resolving datatype references, and the initial-value
//! round-trip over a small corpus.

use css_syntax::definitions::build_definitions;
use css_syntax::definitions::compile_typedefs;
use css_syntax::definitions::resolve_tree;
use css_syntax::definitions::CssPropertyDefinitions;
use css_syntax::definitions::CssPropertyTypeDef;
use css_syntax::definitions::CssPropertyTypeDefs;
use css_syntax::definitions::PropertyDefinition;
use css_syntax::definitions::PropertyEntry;
use css_syntax::syntax::CssSyntax;
use css_syntax::values::CssNumber;
use css_syntax::values::CssValue;

fn kw(s: &str) -> CssValue {
    CssValue::Str(s.to_string())
}

fn length_percentage_typedefs() -> CssPropertyTypeDefs {
    let mut tds = CssPropertyTypeDefs::new();
    tds.add_typedef(
        "length-percentage",
        CssPropertyTypeDef {
            name: "length-percentage".to_string(),
            syntax: CssSyntax::new("<length> | <percentage>").compile().unwrap(),
        },
    );
    tds
}

fn resolved_property(grammar: &str) -> PropertyDefinition {
    let tds = length_percentage_typedefs();
    let tree = CssSyntax::new(grammar).compile().unwrap();
    PropertyDefinition {
        name: "testprop".to_string(),
        expanded_properties: vec![],
        syntax: resolve_tree(&tree, &tds, 8),
        inherits: false,
        initial_value: None,
    }
}

#[test]
fn test_property_definitions() {
    let mut definitions = CssPropertyDefinitions::empty();
    definitions.add_definition(
        "color",
        PropertyDefinition {
            name: "color".to_string(),
            expanded_properties: vec![],
            syntax: CssSyntax::new("color()").compile().expect("Could not compile syntax"),
            inherits: false,
            initial_value: None,
        },
    );

    assert_eq!(definitions.len(), 1);
    assert!(definitions.find("color").is_some());
    assert!(definitions.find("border-top-style").is_none());

    definitions.add_definition(
        "border-style",
        PropertyDefinition {
            name: "border-style".to_string(),
            expanded_properties: vec![
                "border-top-style".to_string(),
                "border-right-style".to_string(),
                "border-bottom-style".to_string(),
                "border-left-style".to_string(),
            ],
            syntax: CssSyntax::new("").compile().expect("Could not compile syntax"),
            inherits: false,
            initial_value: Some(CssValue::Str("thick".to_string())),
        },
    );

    assert_eq!(definitions.len(), 2);
    assert!(definitions.find("border-style").is_some());
}

#[test]
fn test_matcher() {
    let mut definitions = CssPropertyDefinitions::empty();
    definitions.add_definition(
        "testprop",
        resolved_property("[ left | right ] <length>? | [ top | bottom ] <length> | [ top | bottom ]"),
    );

    let prop = definitions.find("testprop").unwrap();

    let px5 = CssValue::Unit(CssNumber::from_int(5), "px".to_string());
    assert!(prop.matches(&CssValue::List(vec![kw("left"), px5.clone()])));
    assert!(prop.matches(&CssValue::List(vec![kw("top"), px5.clone()])));
    assert!(prop.matches(&CssValue::List(vec![kw("bottom"), px5.clone()])));
    assert!(prop.matches(&CssValue::List(vec![kw("right"), px5.clone()])));
    assert!(prop.matches(&kw("left")));
    assert!(prop.matches(&kw("top")));
    assert!(prop.matches(&kw("bottom")));
    assert!(prop.matches(&kw("right")));

    assert!(!prop.matches(&CssValue::List(vec![px5.clone(), kw("right")])));
    let px10 = CssValue::Unit(CssNumber::from_int(10), "px".to_string());
    assert!(!prop.matches(&CssValue::List(vec![px5, px10, kw("right")])));
}

#[test]
fn test_matcher_2() {
    let mut definitions = CssPropertyDefinitions::empty();
    definitions.add_definition(
        "testprop",
        resolved_property("[ [ left | center | right | top | bottom | <length-percentage> ] | [ left | center | right | <length-percentage> ] [ top | center | bottom | <length-percentage> ] ]"),
    );

    let prop = definitions.find("testprop").unwrap();

    assert!(prop.matches(&kw("left")));
    assert!(prop.matches(&CssValue::List(vec![kw("left"), kw("top")])));
    assert!(prop.matches(&CssValue::List(vec![kw("center"), kw("top")])));
    assert!(!prop.matches(&CssValue::List(vec![kw("top"), kw("top")])));
    assert!(!prop.matches(&CssValue::List(vec![kw("top"), kw("center")])));
    assert!(prop.matches(&CssValue::List(vec![kw("center"), kw("center")])));
    assert!(prop.matches(&CssValue::List(vec![
        CssValue::Percentage(CssNumber::from_int(10)),
        CssValue::Percentage(CssNumber::from_int(20)),
    ])));
    assert!(prop.matches(&CssValue::List(vec![
        CssValue::Unit(CssNumber::from_int(10), "px".to_string()),
        CssValue::Percentage(CssNumber::from_int(20)),
    ])));
    assert!(prop.matches(&CssValue::List(vec![
        kw("left"),
        CssValue::Percentage(CssNumber::from_int(20)),
    ])));
    assert!(prop.matches(&CssValue::List(vec![
        CssValue::Unit(CssNumber::from_int(10), "px".to_string()),
        kw("center"),
    ])));
    assert!(prop.matches(&CssValue::List(vec![
        CssValue::Percentage(CssNumber::from_int(10)),
        kw("top"),
    ])));
    assert!(prop.matches(&kw("right")));
    assert!(prop.matches(&kw("top")));
}

#[test]
fn test_matcher_3() {
    let mut definitions = CssPropertyDefinitions::empty();
    definitions.add_definition("testprop", resolved_property("foo | [ foo [ foo | bar ] ]"));

    let prop = definitions.find("testprop").unwrap();

    assert!(prop.matches(&kw("foo")));
    assert!(prop.matches(&CssValue::List(vec![kw("foo"), kw("foo")])));
    assert!(prop.matches(&CssValue::List(vec![kw("foo"), kw("bar")])));

    assert!(!prop.matches(&kw("bar")));
    assert!(!prop.matches(&CssValue::List(vec![kw("bar"), kw("foo")])));
}

#[test]
fn test_matcher_4() {
    let mut definitions = CssPropertyDefinitions::empty();
    definitions.add_definition(
        "testprop",
        resolved_property("[ left | right ] <length>? | [ top | bottom ] <length> | [ top | bottom ]"),
    );

    let prop = definitions.find("testprop").unwrap();

    let px10 = CssValue::Unit(CssNumber::from_int(10), "px".to_string());
    assert!(prop.matches(&CssValue::List(vec![kw("left"), px10.clone()])));
    assert!(prop.matches(&CssValue::List(vec![kw("right"), px10.clone()])));
    assert!(prop.matches(&kw("left")));
    assert!(prop.matches(&kw("right")));
    assert!(prop.matches(&CssValue::List(vec![kw("top"), px10.clone()])));
    assert!(prop.matches(&CssValue::List(vec![kw("bottom"), px10])));
    assert!(prop.matches(&kw("top")));
    assert!(prop.matches(&kw("bottom")));
}

#[test]
fn angle_range_is_ignored_by_builtin() {
    // A resolved angle reference accepts any angle unit value.
    let mut definitions = CssPropertyDefinitions::empty();
    definitions.add_definition("testprop", resolved_property("<angle> | leftwards | rightwards"));
    let prop = definitions.find("testprop").unwrap();
    assert!(prop.matches(&CssValue::Unit(CssNumber::from_int(90), "deg".to_string())));
    assert!(prop.matches(&kw("leftwards")));
    assert!(!prop.matches(&kw("sideways")));
}

#[test]
fn corpus_round_trip() {
    // A miniature corpus: every entry with an initial value, once compiled,
    // accepts its own initial value, and the build reports no issues.
    let typedef_sources = vec![
        (
            "length-percentage".to_string(),
            "<length> | <percentage>".to_string(),
        ),
    ];
    let tds = compile_typedefs(&typedef_sources);
    let entries = vec![
        PropertyEntry {
            name: "display".to_string(),
            syntax: "block | inline | none".to_string(),
            inherits: false,
            initial_value: Some(kw("inline")),
            expanded_properties: vec![],
        },
        PropertyEntry {
            name: "width".to_string(),
            syntax: "auto | <length-percentage>".to_string(),
            inherits: false,
            initial_value: Some(kw("auto")),
            expanded_properties: vec![],
        },
        PropertyEntry {
            name: "margin-top".to_string(),
            syntax: "auto | <length-percentage>".to_string(),
            inherits: false,
            initial_value: Some(CssValue::Zero),
            expanded_properties: vec![],
        },
        PropertyEntry {
            name: "visibility".to_string(),
            syntax: "visible | hidden | collapse".to_string(),
            inherits: true,
            initial_value: Some(kw("visible")),
            expanded_properties: vec![],
        },
    ];
    let (defs, issues) = build_definitions(&tds, entries, 8);
    assert!(issues.is_empty());
    assert_eq!(defs.len(), 4);
    for name in ["display", "width", "margin-top", "visibility"] {
        let prop = defs.find(name).unwrap();
        assert!(prop.has_initial_value());
        let initial = prop.initial_value.clone().unwrap();
        assert!(prop.matches(&initial));
    }
}

#[test]
fn build_reports_initial_value_mismatch() {
    let tds = CssPropertyTypeDefs::new();
    let entries = vec![PropertyEntry {
        name: "display".to_string(),
        syntax: "block | inline".to_string(),
        inherits: false,
        initial_value: Some(kw("sideways")),
        expanded_properties: vec![],
    }];
    let (defs, issues) = build_definitions(&tds, entries, 8);
    assert_eq!(issues, vec!["display".to_string()]);
    // The property is still registered; the mismatch is reported, not fatal.
    assert!(defs.find("display").is_some());
}

#[test]
fn build_skips_uncompilable_grammar() {
    let tds = CssPropertyTypeDefs::new();
    let entries = vec![PropertyEntry {
        name: "broken".to_string(),
        syntax: "@@@".to_string(),
        inherits: false,
        initial_value: None,
        expanded_properties: vec![],
    }];
    let (defs, issues) = build_definitions(&tds, entries, 8);
    assert!(defs.is_empty());
    assert_eq!(issues, vec!["broken".to_string()]);
}

#[test]
fn later_record_under_a_name_wins() {
    let tds = CssPropertyTypeDefs::new();
    let entries = vec![
        PropertyEntry {
            name: "display".to_string(),
            syntax: "block".to_string(),
            inherits: false,
            initial_value: None,
            expanded_properties: vec![],
        },
        PropertyEntry {
            name: "display".to_string(),
            syntax: "inline".to_string(),
            inherits: true,
            initial_value: None,
            expanded_properties: vec![],
        },
    ];
    let (defs, issues) = build_definitions(&tds, entries, 8);
    assert!(issues.is_empty());
    assert_eq!(defs.len(), 1);
    let prop = defs.find("display").unwrap();
    assert!(prop.inherits());
    assert!(prop.matches(&kw("inline")));
    assert!(!prop.matches(&kw("block")));
}

#[test]
fn failing_typedef_is_skipped() {
    let typedef_sources = vec![
        ("good".to_string(), "left | right".to_string()),
        ("broken".to_string(), "@@@".to_string()),
    ];
    let tds = compile_typedefs(&typedef_sources);
    assert_eq!(tds.len(), 1);
    assert!(tds.find("good").is_some());
    assert!(tds.find("broken").is_none());
}
