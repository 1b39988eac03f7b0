//! Tests of the value matcher: the four group combinators, the multipliers
//! and the comma-separated repetition.

use css_syntax::definitions::resolve_tree;
use css_syntax::definitions::CssPropertyTypeDefs;
use css_syntax::match_spec::Fulfillment;
use css_syntax::matcher::MatchError;
use css_syntax::matcher::match_group_all_any_order;
use css_syntax::matcher::match_group_at_least_one_any_order;
use css_syntax::matcher::match_group_exactly_one;
use css_syntax::matcher::match_group_juxtaposition;
use css_syntax::matcher::multiplier_fulfilled;
use css_syntax::syntax::CssSyntax;
use css_syntax::syntax::GroupCombinators;
use css_syntax::syntax::SyntaxComponent;
use css_syntax::syntax::SyntaxComponentMultiplier;
use css_syntax::values::CssNumber;
use css_syntax::values::CssValue;
use css_syntax::values::RgbColor;

fn kw(s: &str) -> CssValue {
    CssValue::Str(s.to_string())
}

fn group_components(source: &str) -> Vec<SyntaxComponent> {
    let tree = CssSyntax::new(source).compile().unwrap();
    match tree.components.into_iter().next().unwrap() {
        SyntaxComponent::Group { components, .. } => components,
        _ => panic!("expected a group"),
    }
}

#[test]
fn test_match_group1() {
    // Exactly one.
    let tree = CssSyntax::new("auto | none | block").compile().unwrap();
    assert!(tree.matches(vec![kw("auto")]));
    assert!(tree.matches(vec![CssValue::NoneKeyword]));
    assert!(tree.matches(vec![kw("block")]));
    assert!(!tree.matches(vec![kw("inline")]));
    assert!(!tree.matches(vec![kw("")]));
    assert!(!tree.matches(vec![kw("foobar")]));
    assert!(!tree.matches(vec![kw("foo"), CssValue::NoneKeyword]));
    assert!(!tree.matches(vec![CssValue::NoneKeyword, kw("foo")]));
    assert!(!tree.matches(vec![kw("auto"), CssValue::NoneKeyword]));
    assert!(!tree.matches(vec![kw("auto"), CssValue::Comma, kw("none")]));
    assert!(!tree.matches(vec![
        kw("auto"),
        CssValue::Comma,
        CssValue::NoneKeyword,
        CssValue::Comma,
        kw("block"),
    ]));
}

#[test]
fn test_match_group2() {
    // Juxtaposition.
    let tree = CssSyntax::new("auto none block").compile().unwrap();
    assert!(!tree.matches(vec![kw("auto")]));
    assert!(!tree.matches(vec![CssValue::NoneKeyword]));
    assert!(!tree.matches(vec![kw("block")]));
    assert!(tree.matches(vec![kw("auto"), CssValue::NoneKeyword, kw("block")]));
    assert!(!tree.matches(vec![kw("block"), CssValue::NoneKeyword, kw("block")]));
    assert!(!tree.matches(vec![kw("auto"), CssValue::NoneKeyword, kw("auto")]));
}

#[test]
fn test_match_group3() {
    // All, any order.
    let tree = CssSyntax::new("auto && none && block").compile().unwrap();
    assert!(!tree.matches(vec![kw("auto")]));
    assert!(!tree.matches(vec![CssValue::NoneKeyword]));
    assert!(!tree.matches(vec![kw("block")]));
    assert!(!tree.matches(vec![kw("inline")]));
    assert!(!tree.matches(vec![kw("")]));
    assert!(!tree.matches(vec![kw("foobar")]));
    assert!(!tree.matches(vec![kw("foo"), CssValue::NoneKeyword]));
    assert!(!tree.matches(vec![CssValue::NoneKeyword, kw("foo")]));
    assert!(!tree.matches(vec![kw("auto"), CssValue::NoneKeyword]));
    assert!(!tree.matches(vec![kw("auto"), CssValue::Comma, kw("none")]));
    assert!(!tree.matches(vec![
        kw("auto"),
        CssValue::Comma,
        CssValue::NoneKeyword,
        CssValue::Comma,
        kw("block")
    ]));
    assert!(tree.matches(vec![kw("block"), kw("auto"), CssValue::NoneKeyword]));
    assert!(tree.matches(vec![kw("auto"), kw("block"), CssValue::NoneKeyword]));
    assert!(tree.matches(vec![kw("block"), CssValue::NoneKeyword, kw("auto")]));
    assert!(tree.matches(vec![CssValue::NoneKeyword, kw("auto"), kw("block")]));
    assert!(!tree.matches(vec![kw("auto"), kw("block")]));
    assert!(!tree.matches(vec![CssValue::NoneKeyword, kw("block")]));
    assert!(!tree.matches(vec![
        kw("block"),
        kw("block"),
        CssValue::NoneKeyword,
        CssValue::NoneKeyword
    ]));
}

#[test]
fn all_any_order_matches_remaining_permutations() {
    let tree = CssSyntax::new("auto && none && block").compile().unwrap();
    assert!(tree.matches(vec![kw("auto"), CssValue::NoneKeyword, kw("block")]));
    assert!(tree.matches(vec![CssValue::NoneKeyword, kw("block"), kw("auto")]));
}

#[test]
fn test_match_group4() {
    // At least one, any order.
    let tree = CssSyntax::new("auto || none || block").compile().unwrap();
    assert!(tree.matches(vec![kw("auto")]));
    assert!(tree.matches(vec![CssValue::NoneKeyword]));
    assert!(tree.matches(vec![kw("block")]));
    assert!(tree.matches(vec![kw("auto"), CssValue::NoneKeyword]));
    assert!(tree.matches(vec![kw("block"), kw("auto"), CssValue::NoneKeyword]));

    assert!(!tree.matches(vec![kw("inline")]));
    assert!(!tree.matches(vec![kw("")]));
    assert!(!tree.matches(vec![kw("foo"), CssValue::NoneKeyword]));
    assert!(!tree.matches(vec![CssValue::NoneKeyword, kw("foo")]));
    assert!(!tree.matches(vec![CssValue::NoneKeyword, CssValue::NoneKeyword]));
    assert!(!tree.matches(vec![kw("auto"), CssValue::Comma, kw("none")]));
    assert!(!tree.matches(vec![
        kw("auto"),
        CssValue::Comma,
        CssValue::NoneKeyword,
        CssValue::Comma,
        kw("block"),
    ]));
    assert!(!tree.matches(vec![
        kw("block"),
        kw("block"),
        CssValue::NoneKeyword,
        CssValue::NoneKeyword,
    ]));
}

#[test]
fn at_least_one_rejects_empty_input() {
    let tree = CssSyntax::new("auto || none || block").compile().unwrap();
    assert!(!tree.matches(vec![]));
}

#[test]
fn test_match_group_juxtaposition() {
    let components = group_components("auto none block");

    let res = match_group_juxtaposition(&vec![kw("auto")], &components);
    assert!(!res.matched);

    let res = match_group_juxtaposition(&vec![kw("auto"), kw("none")], &components);
    assert!(!res.matched);

    let res = match_group_juxtaposition(&vec![kw("auto"), kw("none"), kw("block")], &components);
    assert!(res.matched);

    let res = match_group_juxtaposition(&vec![kw("none"), kw("block"), kw("auto")], &components);
    assert!(!res.matched);

    let res = match_group_juxtaposition(
        &vec![kw("none"), kw("block"), kw("block"), kw("auto"), kw("none")],
        &components,
    );
    assert!(!res.matched);

    let res = match_group_juxtaposition(
        &vec![kw("none"), kw("banana"), kw("car"), kw("block")],
        &components,
    );
    assert!(!res.matched);
}

#[test]
fn test_match_group_juxtaposition_with_groups() {
    let components = group_components("[top | bottom] [ up | down ] [ charm | strange] ");

    let res = match_group_juxtaposition(&vec![kw("top"), kw("up"), kw("strange")], &components);
    assert!(res.matched);

    let res = match_group_juxtaposition(&vec![kw("bottom"), kw("up"), kw("strange")], &components);
    assert!(res.matched);

    let res = match_group_juxtaposition(&vec![kw("bottom"), kw("down"), kw("charm")], &components);
    assert!(res.matched);
}

#[test]
fn test_match_group_all_any_order() {
    let components = group_components("auto none block");

    let res = match_group_all_any_order(&vec![kw("auto")], &components);
    assert!(!res.matched);

    let res = match_group_all_any_order(&vec![kw("auto"), kw("none")], &components);
    assert!(!res.matched);

    let res = match_group_all_any_order(&vec![kw("auto"), kw("none"), kw("block")], &components);
    assert!(res.matched);

    let res = match_group_all_any_order(&vec![kw("none"), kw("block"), kw("auto")], &components);
    assert!(res.matched);

    let res = match_group_all_any_order(
        &vec![kw("none"), kw("block"), kw("block"), kw("auto"), kw("none")],
        &components,
    );
    assert!(!res.matched);

    let res = match_group_all_any_order(
        &vec![kw("none"), kw("banana"), kw("car"), kw("block")],
        &components,
    );
    assert!(!res.matched);
}

#[test]
fn test_match_group_at_least_one_any_order() {
    let components = group_components("auto none block");

    let res = match_group_at_least_one_any_order(&vec![kw("auto")], &components);
    assert!(res.matched);

    let res = match_group_at_least_one_any_order(&vec![kw("auto"), kw("none")], &components);
    assert!(res.matched);

    let res = match_group_at_least_one_any_order(
        &vec![kw("auto"), kw("none"), kw("block")],
        &components,
    );
    assert!(res.matched);

    let res = match_group_at_least_one_any_order(
        &vec![kw("none"), kw("block"), kw("auto")],
        &components,
    );
    assert!(res.matched);

    let res = match_group_at_least_one_any_order(
        &vec![
            kw("none"),
            kw("block"),
            kw("none"),
            kw("block"),
            kw("auto"),
            kw("none"),
        ],
        &components,
    );
    assert!(res.matched);
    assert_eq!(vec![kw("none"), kw("block")], res.matched_values);

    let res = match_group_at_least_one_any_order(
        &vec![kw("none"), kw("block"), kw("banana"), kw("auto")],
        &components,
    );
    assert!(res.matched);
    assert_eq!(vec![kw("none"), kw("block")], res.matched_values);
    assert_eq!(vec![kw("banana"), kw("auto")], res.remainder);

    let res = match_group_at_least_one_any_order(&vec![], &components);
    assert!(!res.matched);
}

#[test]
fn exactly_one_prefers_longest_consumption() {
    let components = group_components("foo | [ foo [ foo | bar ] ]");
    let res = match_group_exactly_one(&vec![kw("foo"), kw("bar")], &components);
    assert!(res.matched);
    assert_eq!(res.matched_values, vec![kw("foo"), kw("bar")]);
    assert!(res.remainder.is_empty());
}

#[test]
fn test_multipliers_optional() {
    let tree = CssSyntax::new("foo bar baz").compile().unwrap();
    assert!(!tree.matches(vec![kw("foo")]));
    assert!(tree.matches(vec![kw("foo"), kw("bar"), kw("baz")]));
    assert!(!tree.matches(vec![kw("foo"), kw("baz")]));

    let tree = CssSyntax::new("foo bar?").compile().unwrap();
    assert!(tree.matches(vec![kw("foo")]));
    assert!(tree.matches(vec![kw("foo"), kw("bar")]));
    assert!(!tree.matches(vec![kw("foo"), kw("bar"), kw("bar")]));
    assert!(!tree.matches(vec![kw("bar"), kw("foo")]));

    let tree = CssSyntax::new("foo bar? baz").compile().unwrap();
    assert!(!tree.matches(vec![kw("foo")]));
    assert!(tree.matches(vec![kw("foo"), kw("baz")]));
    assert!(tree.matches(vec![kw("foo"), kw("bar"), kw("baz")]));
    assert!(!tree.matches(vec![kw("foo"), kw("bar"), kw("bar"), kw("baz")]));
    assert!(!tree.matches(vec![kw("foo"), kw("bar"), kw("baz"), kw("baz")]));
}

#[test]
fn test_multipliers_zero_or_more() {
    let tree = CssSyntax::new("foo bar* baz").compile().unwrap();
    assert!(!tree.matches(vec![kw("foo")]));
    assert!(tree.matches(vec![kw("foo"), kw("bar"), kw("baz")]));
    assert!(tree.matches(vec![kw("foo"), kw("baz")]));
    assert!(tree.matches(vec![
        kw("foo"),
        kw("bar"),
        kw("bar"),
        kw("bar"),
        kw("bar"),
        kw("baz"),
    ]));
    assert!(!tree.matches(vec![
        kw("foo"),
        kw("bar"),
        kw("bar"),
        kw("bar"),
        kw("baz"),
        kw("bar"),
    ]));

    let tree = CssSyntax::new("foo bar*").compile().unwrap();
    assert!(tree.matches(vec![kw("foo")]));
    assert!(tree.matches(vec![kw("foo"), kw("bar")]));
    assert!(tree.matches(vec![kw("foo"), kw("bar"), kw("bar")]));
    assert!(!tree.matches(vec![kw("bar"), kw("foo")]));
}

#[test]
fn test_multipliers_one_or_more() {
    let tree = CssSyntax::new("foo bar+ baz").compile().unwrap();
    assert!(!tree.matches(vec![kw("foo")]));
    assert!(tree.matches(vec![kw("foo"), kw("bar"), kw("baz")]));
    assert!(!tree.matches(vec![kw("foo"), kw("baz")]));
    assert!(tree.matches(vec![
        kw("foo"),
        kw("bar"),
        kw("bar"),
        kw("bar"),
        kw("bar"),
        kw("baz"),
    ]));
    assert!(!tree.matches(vec![
        kw("foo"),
        kw("bar"),
        kw("bar"),
        kw("bar"),
        kw("baz"),
        kw("bar"),
    ]));

    let tree = CssSyntax::new("foo bar+").compile().unwrap();
    assert!(!tree.matches(vec![kw("foo")]));
    assert!(!tree.matches(vec![kw("bar")]));
    assert!(tree.matches(vec![kw("foo"), kw("bar")]));
    assert!(tree.matches(vec![kw("foo"), kw("bar"), kw("bar")]));
    assert!(!tree.matches(vec![kw("bar"), kw("foo")]));

    let tree = CssSyntax::new("foo+ bar+").compile().unwrap();
    assert!(!tree.matches(vec![kw("foo")]));
    assert!(!tree.matches(vec![kw("bar")]));
    assert!(tree.matches(vec![kw("foo"), kw("bar")]));
    assert!(tree.matches(vec![kw("foo"), kw("bar"), kw("bar")]));
    assert!(tree.matches(vec![kw("foo"), kw("foo"), kw("bar"), kw("bar")]));
    assert!(!tree.matches(vec![kw("bar"), kw("foo")]));
}

#[test]
fn test_multipliers_between() {
    let tree = CssSyntax::new("foo bar{1,3} baz").compile().unwrap();
    assert!(!tree.matches(vec![kw("foo")]));
    assert!(tree.matches(vec![kw("foo"), kw("bar"), kw("baz")]));
    assert!(!tree.matches(vec![kw("foo"), kw("baz")]));
    assert!(tree.matches(vec![kw("foo"), kw("bar"), kw("bar"), kw("baz")]));
    assert!(tree.matches(vec![kw("foo"), kw("bar"), kw("bar"), kw("bar"), kw("baz")]));
    assert!(!tree.matches(vec![
        kw("foo"),
        kw("bar"),
        kw("bar"),
        kw("bar"),
        kw("bar"),
        kw("baz"),
    ]));
    assert!(!tree.matches(vec![
        kw("foo"),
        kw("bar"),
        kw("bar"),
        kw("baz"),
        kw("bar"),
        kw("bar"),
    ]));

    let tree = CssSyntax::new("foo bar{0,3}").compile().unwrap();
    assert!(tree.matches(vec![kw("foo")]));
    assert!(tree.matches(vec![kw("foo"), kw("bar")]));
    assert!(tree.matches(vec![kw("foo"), kw("bar"), kw("bar")]));
    assert!(!tree.matches(vec![
        kw("foo"),
        kw("bar"),
        kw("bar"),
        kw("bar"),
        kw("bar"),
    ]));
    assert!(!tree.matches(vec![kw("bar"), kw("foo")]));
}

#[test]
fn test_fulfillment() {
    fn empty_group(multiplier: SyntaxComponentMultiplier) -> SyntaxComponent {
        SyntaxComponent::Group {
            components: vec![],
            combinator: GroupCombinators::Juxtaposition,
            multiplier,
        }
    }

    assert_eq!(
        multiplier_fulfilled(&empty_group(SyntaxComponentMultiplier::Once), 0),
        Fulfillment::NotYetFulfilled
    );
    assert_eq!(
        multiplier_fulfilled(&empty_group(SyntaxComponentMultiplier::Once), 1),
        Fulfillment::Fulfilled
    );
    assert_eq!(
        multiplier_fulfilled(&empty_group(SyntaxComponentMultiplier::Once), 2),
        Fulfillment::NotFulfilled
    );
    assert_eq!(
        multiplier_fulfilled(&empty_group(SyntaxComponentMultiplier::ZeroOrMore), 0),
        Fulfillment::FulfilledButMoreAllowed
    );
    assert_eq!(
        multiplier_fulfilled(&empty_group(SyntaxComponentMultiplier::ZeroOrMore), 1),
        Fulfillment::FulfilledButMoreAllowed
    );
    assert_eq!(
        multiplier_fulfilled(&empty_group(SyntaxComponentMultiplier::ZeroOrMore), 2),
        Fulfillment::FulfilledButMoreAllowed
    );
    assert_eq!(
        multiplier_fulfilled(&empty_group(SyntaxComponentMultiplier::OneOrMore), 0),
        Fulfillment::NotYetFulfilled
    );
    assert_eq!(
        multiplier_fulfilled(&empty_group(SyntaxComponentMultiplier::OneOrMore), 1),
        Fulfillment::FulfilledButMoreAllowed
    );
    assert_eq!(
        multiplier_fulfilled(&empty_group(SyntaxComponentMultiplier::OneOrMore), 2),
        Fulfillment::FulfilledButMoreAllowed
    );
    assert_eq!(
        multiplier_fulfilled(&empty_group(SyntaxComponentMultiplier::Optional), 0),
        Fulfillment::FulfilledButMoreAllowed
    );
}

#[test]
fn test_match_with_subgroups() {
    let tree = CssSyntax::new("[a b ] | [a c]").compile().unwrap();
    assert!(tree.matches(vec![kw("a"), kw("b")]));
    assert!(tree.matches(vec![kw("a"), kw("c")]));
    assert!(!tree.matches(vec![kw("b"), kw("b")]));
}

#[test]
fn test_comma_separated() {
    let tree = CssSyntax::new("[foo | bar | baz]#").compile().unwrap();
    assert!(tree.matches(vec![kw("foo")]));
    assert!(tree.matches(vec![kw("foo"), CssValue::Comma, kw("foo")]));
    assert!(tree.matches(vec![
        kw("foo"),
        CssValue::Comma,
        kw("foo"),
        CssValue::Comma,
        kw("foo")
    ]));
    assert!(tree.matches(vec![kw("foo"), CssValue::Comma, kw("bar")]));
    assert!(tree.matches(vec![kw("foo"), CssValue::Comma, kw("baz")]));
    assert!(tree.matches(vec![
        kw("foo"),
        CssValue::Comma,
        kw("bar"),
        CssValue::Comma,
        kw("baz")
    ]));

    assert!(!tree.matches(vec![kw("foo"), CssValue::Comma]));
    assert!(!tree.matches(vec![
        kw("foo"),
        CssValue::Comma,
        kw("bar"),
        CssValue::Comma
    ]));
    assert!(!tree.matches(vec![
        kw("foo"),
        CssValue::Comma,
        CssValue::Comma,
        kw("bar")
    ]));
}

#[test]
fn matching_is_repeatable() {
    // The same tree and the same input always decide the same way.
    let tree = CssSyntax::new("auto | none | block").compile().unwrap();
    let first = tree.matches(vec![kw("auto")]);
    let second = tree.matches(vec![kw("auto")]);
    assert_eq!(first, second);
    let third = tree.matches(vec![kw("inline")]);
    let fourth = tree.matches(vec![kw("inline")]);
    assert_eq!(third, fourth);
}

#[test]
fn unresolved_datatype_is_a_typed_error() {
    // An unresolved datatype reference cannot be matched; the typed entry
    // point reports it instead of deciding either way.
    let tree = CssSyntax::new("<mystery>").compile().unwrap();
    let outcome = tree.match_values(&vec![kw("anything")]);
    assert_eq!(outcome.unwrap_err(), MatchError::UnsupportedComponent);
    // The boolean entry point treats it as a failed match.
    assert!(!tree.matches(vec![kw("anything")]));
}

#[test]
fn builtin_datatypes_match_their_values() {
    let tds = CssPropertyTypeDefs::new();
    let tree = CssSyntax::new("<length> | <percentage> | <named-color> | <system-color> | <hex-color>")
        .compile()
        .unwrap();
    let resolved = resolve_tree(&tree, &tds, 4);

    assert!(resolved.matches(vec![CssValue::Unit(CssNumber::from_int(4), "px".to_string())]));
    assert!(resolved.matches(vec![CssValue::Zero]));
    assert!(!resolved.matches(vec![CssValue::Unit(CssNumber::from_int(4), "parsecs".to_string())]));
    assert!(resolved.matches(vec![CssValue::Percentage(CssNumber::from_int(50))]));
    assert!(resolved.matches(vec![kw("tomato")]));
    assert!(resolved.matches(vec![kw("Canvas")]));
    assert!(resolved.matches(vec![kw("#ff0000")]));
    assert!(resolved.matches(vec![CssValue::Color(RgbColor::new(255, 0, 0, 255))]));
    assert!(!resolved.matches(vec![kw("notathing")]));
}

#[test]
fn sentinels_match_their_keywords() {
    let tree = CssSyntax::new("inherit").compile().unwrap();
    assert!(tree.matches(vec![CssValue::Inherit]));
    assert!(tree.matches(vec![kw("INHERIT")]));
    assert!(!tree.matches(vec![kw("unset")]));

    let tree = CssSyntax::new("initial").compile().unwrap();
    assert!(tree.matches(vec![CssValue::Initial]));
    assert!(tree.matches(vec![kw("Initial")]));

    let tree = CssSyntax::new("unset").compile().unwrap();
    assert!(tree.matches(vec![kw("unset")]));
    assert!(!tree.matches(vec![CssValue::Inherit]));
}
