//! The component tree of the CSS value definition syntax: combinators,
//! multipliers, numeric ranges and the syntax components themselves.

use vstd::prelude::*;

use crate::values::{CssValue, ValueModel};

verus! {

/// How the children of a group combine.
#[derive(Copy, Clone, Debug, PartialEq, Eq, Structural)]
pub enum GroupCombinators {
    /// All children must match, in the given order (space delimited).
    Juxtaposition,
    /// `&&`: all children must match, in any order.
    AllAnyOrder,
    /// `||`: at least one child must match, in any order.
    AtLeastOneAnyOrder,
    /// `|`: exactly one child must match.
    ExactlyOne,
}

/// How many times a syntax component may appear.
#[derive(Copy, Clone, Debug, PartialEq, Eq, Structural)]
pub enum SyntaxComponentMultiplier {
    /// Exactly once; the default.
    Once,
    /// `*`: zero or more times.
    ZeroOrMore,
    /// `+`: one or more times.
    OneOrMore,
    /// `?`: zero or one time.
    Optional,
    /// `{n,m}`: between n and m times.
    Between(usize, usize),
    /// `!`: the group must produce at least one value.
    AtLeastOneValue,
    /// `#` with an optional `{n,m}`: comma separated repetition.
    CommaSeparatedRepeat(usize, usize),
}

/// A number or an infinity, for the bounds of a datatype range.
#[derive(Copy, Clone, Debug, PartialEq, Eq, Structural)]
pub enum NumberOrInfinity {
    /// No bound given.
    Unbounded,
    /// A finite number.
    FiniteI64(i64),
    /// Positive infinity.
    Infinity,
    /// Negative infinity.
    NegativeInfinity,
}

/// An optional minimum and maximum for a datatype reference such as
/// `<angle [-360,360]>`.  A meaningful range has min at or below max when
/// both bounds are finite; the compiler hands every range through exactly
/// as written, so honouring that invariant is the grammar author's
/// obligation.
#[derive(Copy, Clone, Debug, PartialEq, Eq, Structural)]
pub struct RangeType {
    /// Minimum value.
    pub min: NumberOrInfinity,
    /// Maximum value.
    pub max: NumberOrInfinity,
}

impl RangeType {
    /// The range with no bounds at all.
    pub fn empty() -> (r: Self)
        ensures
            r.min == NumberOrInfinity::Unbounded,
            r.max == NumberOrInfinity::Unbounded,
    {
        RangeType { min: NumberOrInfinity::Unbounded, max: NumberOrInfinity::Unbounded }
    }
}

/// The elements that make up a compiled value definition grammar.  Every
/// component carries exactly one multiplier; `Once` when none was written.
#[derive(Debug, PartialEq)]
pub enum SyntaxComponent {
    /// A generic keyword such as `left` or `ease-in`.
    GenericKeyword { keyword: String, multiplier: SyntaxComponentMultiplier },
    /// A quoted property reference such as `'background-color'`.
    Property { property: String, multiplier: SyntaxComponentMultiplier },
    /// A function such as `color()`, with its argument grammar.
    Function { name: String, arguments: Vec<SyntaxComponent>, multiplier: SyntaxComponentMultiplier },
    /// A datatype reference such as `<length>` or `<'background-color'>`,
    /// with an optional numeric range.
    Definition {
        datatype: String,
        quoted: bool,
        range: RangeType,
        multiplier: SyntaxComponentMultiplier,
    },
    /// The `inherit` keyword.
    Inherit { multiplier: SyntaxComponentMultiplier },
    /// The `initial` keyword.
    Initial { multiplier: SyntaxComponentMultiplier },
    /// The `unset` keyword.
    Unset { multiplier: SyntaxComponentMultiplier },
    /// A literal such as `,` or `/` or quoted text.
    Literal { literal: String, multiplier: SyntaxComponentMultiplier },
    /// A concrete CSS value, such as the number written in `10px`.
    Value { value: CssValue, multiplier: SyntaxComponentMultiplier },
    /// A group of components in brackets, with its combinator.
    Group {
        components: Vec<SyntaxComponent>,
        combinator: GroupCombinators,
        multiplier: SyntaxComponentMultiplier,
    },
    /// The `unit(..)` form: a numeric range with a set of allowed unit
    /// suffixes.  The bounds are in millionths.
    Unit {
        from: Option<i64>,
        to: Option<i64>,
        unit: Vec<String>,
        multiplier: SyntaxComponentMultiplier,
    },
    /// A built-in datatype, resolved from a definition, such as `length`.
    Builtin { datatype: String, multiplier: SyntaxComponentMultiplier },
}

/// Mathematical content of a syntax component.
pub ghost enum ComponentModel {
    GenericKeyword { keyword: Seq<char>, multiplier: SyntaxComponentMultiplier },
    Property { property: Seq<char>, multiplier: SyntaxComponentMultiplier },
    Function { name: Seq<char>, arguments: Seq<ComponentModel>, multiplier: SyntaxComponentMultiplier },
    Definition {
        datatype: Seq<char>,
        quoted: bool,
        range: RangeType,
        multiplier: SyntaxComponentMultiplier,
    },
    Inherit { multiplier: SyntaxComponentMultiplier },
    Initial { multiplier: SyntaxComponentMultiplier },
    Unset { multiplier: SyntaxComponentMultiplier },
    Literal { literal: Seq<char>, multiplier: SyntaxComponentMultiplier },
    Value { value: ValueModel, multiplier: SyntaxComponentMultiplier },
    Group {
        components: Seq<ComponentModel>,
        combinator: GroupCombinators,
        multiplier: SyntaxComponentMultiplier,
    },
    Unit {
        from: Option<i64>,
        to: Option<i64>,
        unit: Seq<Seq<char>>,
        multiplier: SyntaxComponentMultiplier,
    },
    Builtin { datatype: Seq<char>, multiplier: SyntaxComponentMultiplier },
}

impl SyntaxComponent {
    /// The component as a mathematical value.
    pub open spec fn model(self) -> ComponentModel
        decreases self,
    {
        match self {
            SyntaxComponent::GenericKeyword { keyword, multiplier } => ComponentModel::GenericKeyword {
                keyword: keyword@,
                multiplier,
            },
            SyntaxComponent::Property { property, multiplier } => ComponentModel::Property {
                property: property@,
                multiplier,
            },
            SyntaxComponent::Function { name, arguments, multiplier } => ComponentModel::Function {
                name: name@,
                arguments: comp_models(arguments@),
                multiplier,
            },
            SyntaxComponent::Definition { datatype, quoted, range, multiplier } => ComponentModel::Definition {
                datatype: datatype@,
                quoted,
                range,
                multiplier,
            },
            SyntaxComponent::Inherit { multiplier } => ComponentModel::Inherit { multiplier },
            SyntaxComponent::Initial { multiplier } => ComponentModel::Initial { multiplier },
            SyntaxComponent::Unset { multiplier } => ComponentModel::Unset { multiplier },
            SyntaxComponent::Literal { literal, multiplier } => ComponentModel::Literal {
                literal: literal@,
                multiplier,
            },
            SyntaxComponent::Value { value, multiplier } => ComponentModel::Value {
                value: value.model(),
                multiplier,
            },
            SyntaxComponent::Group { components, combinator, multiplier } => ComponentModel::Group {
                components: comp_models(components@),
                combinator,
                multiplier,
            },
            SyntaxComponent::Unit { from, to, unit, multiplier } => ComponentModel::Unit {
                from,
                to,
                unit: unit@.map_values(|u: String| u@),
                multiplier,
            },
            SyntaxComponent::Builtin { datatype, multiplier } => ComponentModel::Builtin {
                datatype: datatype@,
                multiplier,
            },
        }
    }

    /// Whether the component is a group.
    pub fn is_group(&self) -> (r: bool)
        ensures
            r == (self.model() is Group),
    {
        matches!(self, SyntaxComponent::Group { .. })
    }

    /// The component's multiplier.
    pub fn get_multiplier(&self) -> (r: SyntaxComponentMultiplier)
        ensures
            r == self.model().multiplier_of(),
    {
        match self {
            SyntaxComponent::Group { multiplier, .. } => *multiplier,
            SyntaxComponent::Function { multiplier, .. } => *multiplier,
            SyntaxComponent::Property { multiplier, .. } => *multiplier,
            SyntaxComponent::GenericKeyword { multiplier, .. } => *multiplier,
            SyntaxComponent::Definition { multiplier, .. } => *multiplier,
            SyntaxComponent::Unit { multiplier, .. } => *multiplier,
            SyntaxComponent::Literal { multiplier, .. } => *multiplier,
            SyntaxComponent::Inherit { multiplier, .. } => *multiplier,
            SyntaxComponent::Initial { multiplier, .. } => *multiplier,
            SyntaxComponent::Unset { multiplier, .. } => *multiplier,
            SyntaxComponent::Value { multiplier, .. } => *multiplier,
            SyntaxComponent::Builtin { multiplier, .. } => *multiplier,
        }
    }

    /// Replaces the component's multiplier.
    pub fn update_multiplier(&mut self, new_multiplier: SyntaxComponentMultiplier)
        ensures
            final(self).model() == old(self).model().with_multiplier(new_multiplier),
    {
        match self {
            SyntaxComponent::Group { multiplier, .. } => {
                *multiplier = new_multiplier;
            },
            SyntaxComponent::Function { multiplier, .. } => {
                *multiplier = new_multiplier;
            },
            SyntaxComponent::Property { multiplier, .. } => {
                *multiplier = new_multiplier;
            },
            SyntaxComponent::GenericKeyword { multiplier, .. } => {
                *multiplier = new_multiplier;
            },
            SyntaxComponent::Definition { multiplier, .. } => {
                *multiplier = new_multiplier;
            },
            SyntaxComponent::Unit { multiplier, .. } => {
                *multiplier = new_multiplier;
            },
            SyntaxComponent::Literal { multiplier, .. } => {
                *multiplier = new_multiplier;
            },
            SyntaxComponent::Inherit { multiplier, .. } => {
                *multiplier = new_multiplier;
            },
            SyntaxComponent::Initial { multiplier, .. } => {
                *multiplier = new_multiplier;
            },
            SyntaxComponent::Unset { multiplier, .. } => {
                *multiplier = new_multiplier;
            },
            SyntaxComponent::Value { multiplier, .. } => {
                *multiplier = new_multiplier;
            },
            SyntaxComponent::Builtin { multiplier, .. } => {
                *multiplier = new_multiplier;
            },
        }
    }
}

impl ComponentModel {
    /// The multiplier carried by the component.
    pub open spec fn multiplier_of(self) -> SyntaxComponentMultiplier {
        match self {
            ComponentModel::GenericKeyword { multiplier, .. } => multiplier,
            ComponentModel::Property { multiplier, .. } => multiplier,
            ComponentModel::Function { multiplier, .. } => multiplier,
            ComponentModel::Definition { multiplier, .. } => multiplier,
            ComponentModel::Inherit { multiplier, .. } => multiplier,
            ComponentModel::Initial { multiplier, .. } => multiplier,
            ComponentModel::Unset { multiplier, .. } => multiplier,
            ComponentModel::Literal { multiplier, .. } => multiplier,
            ComponentModel::Value { multiplier, .. } => multiplier,
            ComponentModel::Group { multiplier, .. } => multiplier,
            ComponentModel::Unit { multiplier, .. } => multiplier,
            ComponentModel::Builtin { multiplier, .. } => multiplier,
        }
    }

    /// The same component with another multiplier.
    pub open spec fn with_multiplier(self, m: SyntaxComponentMultiplier) -> ComponentModel {
        match self {
            ComponentModel::GenericKeyword { keyword, .. } => ComponentModel::GenericKeyword {
                keyword,
                multiplier: m,
            },
            ComponentModel::Property { property, .. } => ComponentModel::Property {
                property,
                multiplier: m,
            },
            ComponentModel::Function { name, arguments, .. } => ComponentModel::Function {
                name,
                arguments,
                multiplier: m,
            },
            ComponentModel::Definition { datatype, quoted, range, .. } => ComponentModel::Definition {
                datatype,
                quoted,
                range,
                multiplier: m,
            },
            ComponentModel::Inherit { .. } => ComponentModel::Inherit { multiplier: m },
            ComponentModel::Initial { .. } => ComponentModel::Initial { multiplier: m },
            ComponentModel::Unset { .. } => ComponentModel::Unset { multiplier: m },
            ComponentModel::Literal { literal, .. } => ComponentModel::Literal {
                literal,
                multiplier: m,
            },
            ComponentModel::Value { value, .. } => ComponentModel::Value { value, multiplier: m },
            ComponentModel::Group { components, combinator, .. } => ComponentModel::Group {
                components,
                combinator,
                multiplier: m,
            },
            ComponentModel::Unit { from, to, unit, .. } => ComponentModel::Unit {
                from,
                to,
                unit,
                multiplier: m,
            },
            ComponentModel::Builtin { datatype, .. } => ComponentModel::Builtin {
                datatype,
                multiplier: m,
            },
        }
    }
}

/// The mathematical content of a sequence of components.
pub open spec fn comp_models(s: Seq<SyntaxComponent>) -> Seq<ComponentModel>
    decreases s,
{
    if s.len() == 0 {
        Seq::empty()
    } else {
        seq![s[0].model()] + comp_models(s.subrange(1, s.len() as int))
    }
}

/// The model sequence is as long as the component sequence and agrees with it
/// at every place.
pub proof fn lemma_comp_models(s: Seq<SyntaxComponent>)
    ensures
        comp_models(s).len() == s.len(),
        forall|i: int| 0 <= i < s.len() ==> comp_models(s)[i] == s[i].model(),
    decreases s,
{
    if s.len() > 0 {
        lemma_comp_models(s.subrange(1, s.len() as int));
    }
}

/// Component models distribute over push.
pub proof fn lemma_comp_models_push(s: Seq<SyntaxComponent>, c: SyntaxComponent)
    ensures
        comp_models(s.push(c)) == comp_models(s).push(c.model()),
{
    lemma_comp_models(s.push(c));
    lemma_comp_models(s);
    assert(comp_models(s.push(c)) =~= comp_models(s).push(c.model()));
}

/// A value definition syntax grammar, before compilation.
pub struct CssSyntax {
    /// Source text of the grammar.
    source: String,
}

impl CssSyntax {
    /// The source text, for specifications.
    pub closed spec fn spec_source(&self) -> Seq<char> {
        self.source@
    }

    /// Wraps a grammar source string.
    pub fn new(source: &str) -> (r: Self)
        ensures
            r.spec_source() == source@,
    {
        CssSyntax { source: source.to_owned() }
    }

    /// The source text.
    pub fn source_str(&self) -> (r: &str)
        ensures
            r@ == self.spec_source(),
    {
        self.source.as_str()
    }
}

impl SyntaxComponent {
    /// A deep copy of the component.
    pub fn duplicate(&self) -> (r: Self)
        ensures
            r.model() == self.model(),
        decreases self,
    {
        match self {
            SyntaxComponent::GenericKeyword { keyword, multiplier } => SyntaxComponent::GenericKeyword {
                keyword: keyword.clone(),
                multiplier: *multiplier,
            },
            SyntaxComponent::Property { property, multiplier } => SyntaxComponent::Property {
                property: property.clone(),
                multiplier: *multiplier,
            },
            SyntaxComponent::Function { name, arguments, multiplier } => SyntaxComponent::Function {
                name: name.clone(),
                arguments: duplicate_components(arguments),
                multiplier: *multiplier,
            },
            SyntaxComponent::Definition { datatype, quoted, range, multiplier } => SyntaxComponent::Definition {
                datatype: datatype.clone(),
                quoted: *quoted,
                range: *range,
                multiplier: *multiplier,
            },
            SyntaxComponent::Inherit { multiplier } => SyntaxComponent::Inherit {
                multiplier: *multiplier,
            },
            SyntaxComponent::Initial { multiplier } => SyntaxComponent::Initial {
                multiplier: *multiplier,
            },
            SyntaxComponent::Unset { multiplier } => SyntaxComponent::Unset {
                multiplier: *multiplier,
            },
            SyntaxComponent::Literal { literal, multiplier } => SyntaxComponent::Literal {
                literal: literal.clone(),
                multiplier: *multiplier,
            },
            SyntaxComponent::Value { value, multiplier } => SyntaxComponent::Value {
                value: value.duplicate(),
                multiplier: *multiplier,
            },
            SyntaxComponent::Group { components, combinator, multiplier } => SyntaxComponent::Group {
                components: duplicate_components(components),
                combinator: *combinator,
                multiplier: *multiplier,
            },
            SyntaxComponent::Unit { from, to, unit, multiplier } => {
                let mut suffixes: Vec<String> = Vec::new();
                let mut i: usize = 0;
                while i < unit.len()
                    invariant
                        i <= unit@.len(),
                        suffixes@.len() == i,
                        forall|j: int| 0 <= j < i ==> #[trigger] suffixes@[j]@ == unit@[j]@,
                    decreases unit@.len() - i,
                {
                    suffixes.push(unit[i].clone());
                    i = i + 1;
                }
                proof {
                    assert(suffixes@.map_values(|u: String| u@) =~= unit@.map_values(
                        |u: String| u@,
                    ));
                }
                SyntaxComponent::Unit {
                    from: *from,
                    to: *to,
                    unit: suffixes,
                    multiplier: *multiplier,
                }
            },
            SyntaxComponent::Builtin { datatype, multiplier } => SyntaxComponent::Builtin {
                datatype: datatype.clone(),
                multiplier: *multiplier,
            },
        }
    }
}

impl Clone for SyntaxComponent {
    /// A deep copy of the component.
    fn clone(&self) -> (r: Self)
        ensures
            r.model() == self.model(),
    {
        self.duplicate()
    }
}

/// A deep copy of a vector of components.
pub fn duplicate_components(cs: &Vec<SyntaxComponent>) -> (r: Vec<SyntaxComponent>)
    ensures
        comp_models(r@) == comp_models(cs@),
        r@.len() == cs@.len(),
    decreases cs@,
{
    let mut out: Vec<SyntaxComponent> = Vec::new();
    let mut i: usize = 0;
    proof {
        lemma_comp_models(cs@);
    }
    while i < cs.len()
        invariant
            i <= cs@.len(),
            out@.len() == i,
            comp_models(out@) == comp_models(cs@.subrange(0, i as int)),
        decreases cs@.len() - i,
    {
        let d = cs[i].duplicate();
        proof {
            lemma_comp_models_push(out@, d);
            lemma_comp_models_push(cs@.subrange(0, i as int), cs@[i as int]);
            assert(cs@.subrange(0, i as int).push(cs@[i as int]) =~= cs@.subrange(0, i + 1));
            lemma_comp_models(cs@);
            lemma_comp_models(cs@.subrange(0, i as int));
        }
        out.push(d);
        i = i + 1;
    }
    proof {
        assert(cs@.subrange(0, i as int) =~= cs@);
    }
    out
}

} // verus!
