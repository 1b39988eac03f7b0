//! Tests of the grammar compiler: primitives, multipliers, precedence and
//! grouping.

use css_syntax::matcher::CssSyntaxTree;
use css_syntax::syntax::CssSyntax;
use css_syntax::syntax::GroupCombinators;
use css_syntax::syntax::NumberOrInfinity;
use css_syntax::syntax::RangeType;
use css_syntax::syntax::SyntaxComponent;
use css_syntax::syntax::SyntaxComponentMultiplier;
use css_syntax::values::CssNumber;
use css_syntax::values::CssValue;

fn kw(name: &str) -> SyntaxComponent {
    SyntaxComponent::GenericKeyword {
        keyword: name.to_string(),
        multiplier: SyntaxComponentMultiplier::Once,
    }
}

fn kw_mult(name: &str, multiplier: SyntaxComponentMultiplier) -> SyntaxComponent {
    SyntaxComponent::GenericKeyword {
        keyword: name.to_string(),
        multiplier,
    }
}

fn group(combinator: GroupCombinators, components: Vec<SyntaxComponent>) -> SyntaxComponent {
    SyntaxComponent::Group {
        components,
        combinator,
        multiplier: SyntaxComponentMultiplier::Once,
    }
}

#[test]
fn test_compile_empty() {
    assert!(CssSyntax::new("").compile().is_ok());
}

#[test]
fn test_generic() {
    let parts = CssSyntax::new("ease-in").compile();
    assert!(parts.is_ok());
    assert_eq!(parts.unwrap(), CssSyntaxTree::new(vec![kw("ease-in")]));

    let parts = CssSyntax::new("color").compile();
    assert!(parts.is_ok());
    assert_eq!(parts.unwrap(), CssSyntaxTree::new(vec![kw("color")]));
}

fn unit_component(from: Option<i64>, to: Option<i64>, unit: Vec<&str>) -> SyntaxComponent {
    SyntaxComponent::Unit {
        from,
        to,
        unit: unit.into_iter().map(|u| u.to_string()).collect(),
        multiplier: SyntaxComponentMultiplier::Once,
    }
}

#[test]
fn test_unit() {
    let parts = CssSyntax::new("unit()").compile();
    assert!(parts.is_ok());
    assert_eq!(
        parts.unwrap(),
        CssSyntaxTree::new(vec![unit_component(None, None, vec![])])
    );

    let parts = CssSyntax::new("unit(khz)").compile();
    assert!(parts.is_ok());
    assert_eq!(
        parts.unwrap(),
        CssSyntaxTree::new(vec![unit_component(None, None, vec!["khz"])])
    );

    let parts = CssSyntax::new("unit(ms|s)").compile();
    assert!(parts.is_ok());
    assert_eq!(
        parts.unwrap(),
        CssSyntaxTree::new(vec![unit_component(None, None, vec!["ms", "s"])])
    );

    let parts = CssSyntax::new("unit(10..10000 khz)").compile();
    assert!(parts.is_ok());
    assert_eq!(
        parts.unwrap(),
        CssSyntaxTree::new(vec![unit_component(
            Some(10_000_000),
            Some(10_000_000_000),
            vec!["khz"]
        )])
    );

    let parts = CssSyntax::new("unit(0.. ms|s)").compile();
    assert!(parts.is_ok());
    assert_eq!(
        parts.unwrap(),
        CssSyntaxTree::new(vec![unit_component(Some(0), None, vec!["ms", "s"])])
    );

    let parts = CssSyntax::new("unit(..10000 khz)").compile();
    assert!(parts.is_ok());
    assert_eq!(
        parts.unwrap(),
        CssSyntaxTree::new(vec![unit_component(None, Some(10_000_000_000), vec!["khz"])])
    );

    let parts = CssSyntax::new("unit(10..10000)").compile();
    assert!(parts.is_ok());
    assert_eq!(
        parts.unwrap(),
        CssSyntaxTree::new(vec![unit_component(
            Some(10_000_000),
            Some(10_000_000_000),
            vec![]
        )])
    );
}

#[test]
fn test_multipliers() {
    let parts = CssSyntax::new("color").compile();
    assert!(parts.is_ok());
    assert_eq!(
        parts.unwrap(),
        CssSyntaxTree::new(vec![kw_mult("color", SyntaxComponentMultiplier::Once)])
    );

    let parts = CssSyntax::new("color*").compile();
    assert!(parts.is_ok());
    assert_eq!(
        parts.unwrap(),
        CssSyntaxTree::new(vec![kw_mult("color", SyntaxComponentMultiplier::ZeroOrMore)])
    );

    let parts = CssSyntax::new("color+").compile();
    assert!(parts.is_ok());
    assert_eq!(
        parts.unwrap(),
        CssSyntaxTree::new(vec![kw_mult("color", SyntaxComponentMultiplier::OneOrMore)])
    );

    let parts = CssSyntax::new("color?").compile();
    assert!(parts.is_ok());
    assert_eq!(
        parts.unwrap(),
        CssSyntaxTree::new(vec![kw_mult("color", SyntaxComponentMultiplier::Optional)])
    );

    let parts = CssSyntax::new("color{3,5}").compile();
    assert!(parts.is_ok());
    assert_eq!(
        parts.unwrap(),
        CssSyntaxTree::new(vec![kw_mult("color", SyntaxComponentMultiplier::Between(3, 5))])
    );

    let parts = CssSyntax::new("color#").compile();
    assert!(parts.is_ok());
    assert_eq!(
        parts.unwrap(),
        CssSyntaxTree::new(vec![kw_mult(
            "color",
            SyntaxComponentMultiplier::CommaSeparatedRepeat(1, u32::MAX as usize)
        )])
    );

    let parts = CssSyntax::new("color#{3,6}").compile();
    assert!(parts.is_ok());
    assert_eq!(
        parts.unwrap(),
        CssSyntaxTree::new(vec![kw_mult(
            "color",
            SyntaxComponentMultiplier::CommaSeparatedRepeat(3, 6)
        )])
    );

    let parts = CssSyntax::new("color!").compile();
    assert!(parts.is_ok());
    assert_eq!(
        parts.unwrap(),
        CssSyntaxTree::new(vec![kw_mult(
            "color",
            SyntaxComponentMultiplier::AtLeastOneValue
        )])
    );
}

#[test]
fn test_function() {
    let parts = CssSyntax::new("length(){2,4}").compile();
    assert!(parts.is_ok());
    assert_eq!(
        parts.unwrap(),
        CssSyntaxTree::new(vec![SyntaxComponent::Function {
            name: "length".to_string(),
            arguments: vec![],
            multiplier: SyntaxComponentMultiplier::Between(2, 4),
        }])
    );

    let parts = CssSyntax::new("color()").compile();
    assert!(parts.is_ok());
    assert_eq!(
        parts.unwrap(),
        CssSyntaxTree::new(vec![SyntaxComponent::Function {
            name: "color".to_string(),
            arguments: vec![],
            multiplier: SyntaxComponentMultiplier::Once,
        }])
    );

    let parts = CssSyntax::new("color(top?){2,4}").compile();
    assert!(parts.is_ok());
    assert_eq!(
        parts.unwrap(),
        CssSyntaxTree::new(vec![SyntaxComponent::Function {
            name: "color".to_string(),
            arguments: vec![kw_mult("top", SyntaxComponentMultiplier::Optional)],
            multiplier: SyntaxComponentMultiplier::Between(2, 4),
        }])
    );
}

#[test]
fn test_literal() {
    let parts = CssSyntax::new("/").compile();
    assert!(parts.is_ok());
    assert_eq!(
        parts.unwrap(),
        CssSyntaxTree::new(vec![SyntaxComponent::Literal {
            literal: "/".to_string(),
            multiplier: SyntaxComponentMultiplier::Once,
        }])
    );

    let parts = CssSyntax::new(",").compile();
    assert!(parts.is_ok());
    assert_eq!(
        parts.unwrap(),
        CssSyntaxTree::new(vec![SyntaxComponent::Literal {
            literal: ",".to_string(),
            multiplier: SyntaxComponentMultiplier::Once,
        }])
    );
}

#[test]
fn test_special_keywords() {
    let parts = CssSyntax::new("unset").compile();
    assert!(parts.is_ok());
    assert_eq!(
        parts.unwrap(),
        CssSyntaxTree::new(vec![SyntaxComponent::Unset {
            multiplier: SyntaxComponentMultiplier::Once,
        }])
    );

    let parts = CssSyntax::new("initial").compile();
    assert!(parts.is_ok());
    assert_eq!(
        parts.unwrap(),
        CssSyntaxTree::new(vec![SyntaxComponent::Initial {
            multiplier: SyntaxComponentMultiplier::Once,
        }])
    );

    let parts = CssSyntax::new("inherit").compile();
    assert!(parts.is_ok());
    assert_eq!(
        parts.unwrap(),
        CssSyntaxTree::new(vec![SyntaxComponent::Inherit {
            multiplier: SyntaxComponentMultiplier::Once,
        }])
    );
}

#[test]
fn test_compile_unit() {
    let parts = CssSyntax::new("10px").compile();
    assert!(parts.is_ok());
    assert_eq!(
        parts.unwrap().components,
        vec![SyntaxComponent::Value {
            value: CssValue::Unit(CssNumber::from_micros(10_000_000), "px".to_string()),
            multiplier: SyntaxComponentMultiplier::Once,
        }]
    );

    let parts = CssSyntax::new("10.43px").compile();
    assert!(parts.is_ok());
    assert_eq!(
        parts.unwrap().components,
        vec![SyntaxComponent::Value {
            value: CssValue::Unit(CssNumber::from_micros(10_430_000), "px".to_string()),
            multiplier: SyntaxComponentMultiplier::Once,
        }]
    );

    let parts = CssSyntax::new("-10.43px").compile();
    assert!(parts.is_ok());
    assert_eq!(
        parts.unwrap().components,
        vec![SyntaxComponent::Value {
            value: CssValue::Unit(CssNumber::from_micros(-10_430_000), "px".to_string()),
            multiplier: SyntaxComponentMultiplier::Once,
        }]
    );

    let parts = CssSyntax::new("0").compile();
    assert!(parts.is_ok());
    assert_eq!(
        parts.unwrap().components,
        vec![SyntaxComponent::Value {
            value: CssValue::Zero,
            multiplier: SyntaxComponentMultiplier::Once,
        }]
    );
}

#[test]
fn test_compile_datatype() {
    let parts = CssSyntax::new("<foo> | <bar()> | <'quoted'>").compile();
    assert!(parts.is_ok());
    assert_eq!(
        parts.unwrap().components,
        vec![group(
            GroupCombinators::ExactlyOne,
            vec![
                SyntaxComponent::Definition {
                    datatype: "foo".to_string(),
                    quoted: false,
                    range: RangeType::empty(),
                    multiplier: SyntaxComponentMultiplier::Once,
                },
                SyntaxComponent::Definition {
                    datatype: "bar()".to_string(),
                    quoted: false,
                    range: RangeType::empty(),
                    multiplier: SyntaxComponentMultiplier::Once,
                },
                SyntaxComponent::Definition {
                    datatype: "quoted".to_string(),
                    quoted: true,
                    range: RangeType::empty(),
                    multiplier: SyntaxComponentMultiplier::Once,
                },
            ]
        )]
    );

    let parts = CssSyntax::new("<foo>#").compile();
    assert!(parts.is_ok());
    assert_eq!(
        parts.unwrap().components,
        vec![SyntaxComponent::Definition {
            datatype: "foo".to_string(),
            quoted: false,
            range: RangeType::empty(),
            multiplier: SyntaxComponentMultiplier::CommaSeparatedRepeat(1, u32::MAX as usize),
        }]
    );
}

#[test]
fn test_parse_unit() {
    assert!(CssSyntax::new("10px").compile().is_ok());
    assert!(CssSyntax::new("0").compile().is_ok());
    // A bare non-zero number has no unit suffix and is not a unit value; it
    // falls back to a generic keyword.
    assert_eq!(
        CssSyntax::new("52").compile().unwrap(),
        CssSyntaxTree::new(vec![kw("52")])
    );
    assert!(CssSyntax::new("0.0").compile().is_ok());
    assert!(CssSyntax::new("0.1px").compile().is_ok());
    assert!(CssSyntax::new("0.1foobar").compile().is_ok());
}

#[test]
fn test_precedence() {
    // `|` binds loosest, then `||`, then `&&`; juxtaposition binds tightest.
    let c = CssSyntax::new("left | right").compile().unwrap();
    assert_eq!(
        c.components[0],
        group(GroupCombinators::ExactlyOne, vec![kw("left"), kw("right")])
    );

    let c = CssSyntax::new("left | right && top").compile().unwrap();
    assert_eq!(
        c.components[0],
        group(
            GroupCombinators::ExactlyOne,
            vec![
                kw("left"),
                group(GroupCombinators::AllAnyOrder, vec![kw("right"), kw("top")]),
            ]
        )
    );

    let c = CssSyntax::new("left && right | top").compile().unwrap();
    assert_eq!(
        c.components[0],
        group(
            GroupCombinators::ExactlyOne,
            vec![
                group(GroupCombinators::AllAnyOrder, vec![kw("left"), kw("right")]),
                kw("top"),
            ]
        )
    );

    let c = CssSyntax::new("left && right || top").compile().unwrap();
    assert_eq!(
        c.components[0],
        group(
            GroupCombinators::AtLeastOneAnyOrder,
            vec![
                group(GroupCombinators::AllAnyOrder, vec![kw("left"), kw("right")]),
                kw("top"),
            ]
        )
    );

    let c = CssSyntax::new("left || right | top").compile().unwrap();
    assert_eq!(
        c.components[0],
        group(
            GroupCombinators::ExactlyOne,
            vec![
                group(
                    GroupCombinators::AtLeastOneAnyOrder,
                    vec![kw("left"), kw("right")]
                ),
                kw("top"),
            ]
        )
    );

    let c = CssSyntax::new("left | right || top").compile().unwrap();
    assert_eq!(
        c.components[0],
        group(
            GroupCombinators::ExactlyOne,
            vec![
                kw("left"),
                group(
                    GroupCombinators::AtLeastOneAnyOrder,
                    vec![kw("right"), kw("top")]
                ),
            ]
        )
    );

    let c = CssSyntax::new("left | right || top && bottom")
        .compile()
        .unwrap();
    assert_eq!(
        c.components[0],
        group(
            GroupCombinators::ExactlyOne,
            vec![
                kw("left"),
                group(
                    GroupCombinators::AtLeastOneAnyOrder,
                    vec![
                        kw("right"),
                        group(GroupCombinators::AllAnyOrder, vec![kw("top"), kw("bottom")]),
                    ]
                ),
            ]
        )
    );

    let c = CssSyntax::new("left || right | top && bottom")
        .compile()
        .unwrap();
    assert_eq!(
        c.components[0],
        group(
            GroupCombinators::ExactlyOne,
            vec![
                group(
                    GroupCombinators::AtLeastOneAnyOrder,
                    vec![kw("left"), kw("right")]
                ),
                group(GroupCombinators::AllAnyOrder, vec![kw("top"), kw("bottom")]),
            ]
        )
    );

    let c = CssSyntax::new("left && right || top | bottom")
        .compile()
        .unwrap();
    assert_eq!(
        c.components[0],
        group(
            GroupCombinators::ExactlyOne,
            vec![
                group(
                    GroupCombinators::AtLeastOneAnyOrder,
                    vec![
                        group(GroupCombinators::AllAnyOrder, vec![kw("left"), kw("right")]),
                        kw("top"),
                    ]
                ),
                kw("bottom"),
            ]
        )
    );

    let c = CssSyntax::new("left  right || top | bottom")
        .compile()
        .unwrap();
    assert_eq!(
        c.components[0],
        group(
            GroupCombinators::ExactlyOne,
            vec![
                group(
                    GroupCombinators::AtLeastOneAnyOrder,
                    vec![
                        group(GroupCombinators::Juxtaposition, vec![kw("left"), kw("right")]),
                        kw("top"),
                    ]
                ),
                kw("bottom"),
            ]
        )
    );

    let c = CssSyntax::new("left | right || top | bottom")
        .compile()
        .unwrap();
    assert_eq!(
        c.components[0],
        group(
            GroupCombinators::ExactlyOne,
            vec![
                kw("left"),
                group(
                    GroupCombinators::AtLeastOneAnyOrder,
                    vec![kw("right"), kw("top")]
                ),
                kw("bottom"),
            ]
        )
    );

    let c = CssSyntax::new("left || right | top || bottom")
        .compile()
        .unwrap();
    assert_eq!(
        c.components[0],
        group(
            GroupCombinators::ExactlyOne,
            vec![
                group(
                    GroupCombinators::AtLeastOneAnyOrder,
                    vec![kw("left"), kw("right")]
                ),
                group(
                    GroupCombinators::AtLeastOneAnyOrder,
                    vec![kw("top"), kw("bottom")]
                ),
            ]
        )
    );

    let c = CssSyntax::new("left right | top bottom").compile().unwrap();
    assert_eq!(
        c.components[0],
        group(
            GroupCombinators::ExactlyOne,
            vec![
                group(GroupCombinators::Juxtaposition, vec![kw("left"), kw("right")]),
                group(GroupCombinators::Juxtaposition, vec![kw("top"), kw("bottom")]),
            ]
        )
    );
}

#[test]
fn test_datatype_ranges() {
    let c = CssSyntax::new("<function [1, 2]>").compile().unwrap();
    assert_eq!(
        c.components[0],
        SyntaxComponent::Definition {
            datatype: "function".to_string(),
            quoted: false,
            range: RangeType {
                min: NumberOrInfinity::FiniteI64(1),
                max: NumberOrInfinity::FiniteI64(2),
            },
            multiplier: SyntaxComponentMultiplier::Once,
        }
    );

    let c = CssSyntax::new("<function>").compile().unwrap();
    assert_eq!(
        c.components[0],
        SyntaxComponent::Definition {
            datatype: "function".to_string(),
            quoted: false,
            range: RangeType {
                min: NumberOrInfinity::Unbounded,
                max: NumberOrInfinity::Unbounded,
            },
            multiplier: SyntaxComponentMultiplier::Once,
        }
    );

    let c = CssSyntax::new("<function [1,]>").compile().unwrap();
    assert_eq!(
        c.components[0],
        SyntaxComponent::Definition {
            datatype: "function".to_string(),
            quoted: false,
            range: RangeType {
                min: NumberOrInfinity::FiniteI64(1),
                max: NumberOrInfinity::Unbounded,
            },
            multiplier: SyntaxComponentMultiplier::Once,
        }
    );

    let c = CssSyntax::new("<function [,1]>").compile().unwrap();
    assert_eq!(
        c.components[0],
        SyntaxComponent::Definition {
            datatype: "function".to_string(),
            quoted: false,
            range: RangeType {
                min: NumberOrInfinity::Unbounded,
                max: NumberOrInfinity::FiniteI64(1),
            },
            multiplier: SyntaxComponentMultiplier::Once,
        }
    );

    let c = CssSyntax::new("<function [-360,360]>").compile().unwrap();
    assert_eq!(
        c.components[0],
        SyntaxComponent::Definition {
            datatype: "function".to_string(),
            quoted: false,
            range: RangeType {
                min: NumberOrInfinity::FiniteI64(-360),
                max: NumberOrInfinity::FiniteI64(360),
            },
            multiplier: SyntaxComponentMultiplier::Once,
        }
    );

    let c = CssSyntax::new("<function [0,inf]>").compile().unwrap();
    assert_eq!(
        c.components[0],
        SyntaxComponent::Definition {
            datatype: "function".to_string(),
            quoted: false,
            range: RangeType {
                min: NumberOrInfinity::FiniteI64(0),
                max: NumberOrInfinity::Infinity,
            },
            multiplier: SyntaxComponentMultiplier::Once,
        }
    );
    let c = CssSyntax::new("<function [-inf, 0]>").compile().unwrap();
    assert_eq!(
        c.components[0],
        SyntaxComponent::Definition {
            datatype: "function".to_string(),
            quoted: false,
            range: RangeType {
                min: NumberOrInfinity::NegativeInfinity,
                max: NumberOrInfinity::FiniteI64(0),
            },
            multiplier: SyntaxComponentMultiplier::Once,
        }
    );
    let c = CssSyntax::new("<function [-inf,inf]>").compile().unwrap();
    assert_eq!(
        c.components[0],
        SyntaxComponent::Definition {
            datatype: "function".to_string(),
            quoted: false,
            range: RangeType {
                min: NumberOrInfinity::NegativeInfinity,
                max: NumberOrInfinity::Infinity,
            },
            multiplier: SyntaxComponentMultiplier::Once,
        }
    );
}

#[test]
fn test_specific_precedence_configurations() {
    assert!(CssSyntax::new("le, ri ,co , bt,tp").compile().is_ok());
    assert!(CssSyntax::new("left | right | center && top")
        .compile()
        .is_ok());
    assert!(CssSyntax::new("left , right color()").compile().is_ok());
    assert!(CssSyntax::new("left , right color() ").compile().is_ok());
    assert!(CssSyntax::new("left, right color()").compile().is_ok());
    assert!(CssSyntax::new("left | right | center && top <length>")
        .compile()
        .is_ok());
    assert!(CssSyntax::new("[ [ <length-percentage>? ]]").compile().is_ok());
    assert!(CssSyntax::new("[ [ center | [ top | bottom ]  ]]")
        .compile()
        .is_ok());
    assert!(CssSyntax::new("[ <length-percentage>? ]").compile().is_ok());
    assert!(CssSyntax::new("[ center <length-percentage>? ]")
        .compile()
        .is_ok());
    assert!(CssSyntax::new("center | [ top | bottom ] <length-percentage>")
        .compile()
        .is_ok());
    assert!(CssSyntax::new("[ center | [ top | bottom ] <length-percentage> ]")
        .compile()
        .is_ok());
    assert!(CssSyntax::new("[ center | [ top | bottom ] <length-percentage>? ]")
        .compile()
        .is_ok());
    assert!(
        CssSyntax::new("[ [ center | [ top | bottom ] <length-percentage>? ]]")
            .compile()
            .is_ok()
    );
    assert!(CssSyntax::new("[ [ top | center | bottom | <length-percentage> ]| [ center | [ left | right ] <length-percentage>? ] && [ center | [ top | bottom ] <length-percentage>? ]]").compile().is_ok());
    assert!(CssSyntax::new("[ [ left | center | right | top | bottom | <length-percentage> ]| [ left | center | right | <length-percentage> ] [ top | center | bottom | <length-percentage> ]| [ center | [ left | right ] <length-percentage>? ] && [ center | [ top | bottom ] <length-percentage>? ]]").compile().is_ok());
}

#[test]
fn test_stuff() {
    let c = CssSyntax::new("foo [ bar | baz]?").compile();
    assert!(c.is_ok());
}

#[test]
fn test_grouping_precedence() {
    let c = CssSyntax::new("left").compile().unwrap();
    assert_eq!(c, CssSyntaxTree::new(vec![kw("left")]));

    let c = CssSyntax::new("left right").compile().unwrap();
    assert_eq!(
        c,
        CssSyntaxTree::new(vec![group(
            GroupCombinators::Juxtaposition,
            vec![kw("left"), kw("right")]
        )])
    );

    let c = CssSyntax::new("left right | top bottom").compile().unwrap();
    assert_eq!(
        c,
        CssSyntaxTree::new(vec![group(
            GroupCombinators::ExactlyOne,
            vec![
                group(GroupCombinators::Juxtaposition, vec![kw("left"), kw("right")]),
                group(GroupCombinators::Juxtaposition, vec![kw("top"), kw("bottom")]),
            ]
        )])
    );

    let c = CssSyntax::new("left && right | foo || bar baz")
        .compile()
        .unwrap();
    assert_eq!(
        c,
        CssSyntaxTree::new(vec![group(
            GroupCombinators::ExactlyOne,
            vec![
                group(GroupCombinators::AllAnyOrder, vec![kw("left"), kw("right")]),
                group(
                    GroupCombinators::AtLeastOneAnyOrder,
                    vec![
                        kw("foo"),
                        group(GroupCombinators::Juxtaposition, vec![kw("bar"), kw("baz")]),
                    ]
                ),
            ]
        )])
    );

    let c = CssSyntax::new("[ left right top ]").compile().unwrap();
    assert!(c.components.len() == 1);
    let c = CssSyntax::new("[ [ left ] ]").compile().unwrap();
    assert!(c.components.len() == 1);
    let c = CssSyntax::new("[ left right ]").compile().unwrap();
    assert!(c.components.len() == 1);
    let c = CssSyntax::new("[left right]").compile().unwrap();
    assert!(c.components.len() == 1);
    let c = CssSyntax::new("[ [ left ] ] right ").compile().unwrap();
    assert!(c.components.len() == 1);
    let c = CssSyntax::new("[ [ left ] [ right ] [ top ] ] a").compile().unwrap();
    assert!(c.components.len() == 1);
    let c = CssSyntax::new("[ [ left ] | [ right ] [ top ] ]").compile().unwrap();
    assert!(c.components.len() == 1);
    let c = CssSyntax::new("[ [ left | center | right | top | bottom | <length-percentage> ] | [ left | center | right | <length-percentage> ] [ top | center | bottom | <length-percentage> ] | [ center | [ left | right ] <length-percentage>? ] && [ center | [ top | bottom ] <length-percentage>? ] ]").compile().unwrap();
    assert!(c.components.len() == 1);
    let c = CssSyntax::new("[ [ left ] | [ center ] [ top ] | [ center1 ] && [ center2 ] ]").compile().unwrap();
    assert!(c.components.len() == 1);
}

#[test]
fn compile_failure_keeps_leftover() {
    let err = CssSyntax::new("left @@").compile();
    assert!(err.is_err());
}
