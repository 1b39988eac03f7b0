//! The mathematical model of value matching: these specification functions
//! define, value by value, what the matcher computes.  The executable matcher
//! in `matcher` is proved to return exactly these results.

use vstd::prelude::*;

use crate::colors::{spec_is_named_color, spec_is_system_color};
use crate::strings::{lower_seq, seq_in_list};
use crate::syntax::{ComponentModel, GroupCombinators, SyntaxComponentMultiplier};
use crate::values::ValueModel;

verus! {

/// Whether a multiplier's repetition requirement is still open, satisfied,
/// satisfied but extensible, or violated.
#[derive(Copy, Clone, Debug, PartialEq, Eq, Structural)]
pub enum Fulfillment {
    /// Not yet fulfilled: more values are needed.
    NotYetFulfilled,
    /// Fulfilled: no more values may be added.
    Fulfilled,
    /// Fulfilled, but more values may be added.
    FulfilledButMoreAllowed,
    /// Not fulfilled: too many values.
    NotFulfilled,
}

/// A match result: whether the component matched, which values it consumed,
/// and the unconsumed remainder of the input.
pub ghost struct MatchModel {
    pub matched: bool,
    pub matched_values: Seq<ValueModel>,
    pub remainder: Seq<ValueModel>,
}

/// The outcome of a match: a result, or the component is unsupported
/// (an unresolved datatype reference, or function arguments).
pub ghost enum MatchOutcome {
    Res(MatchModel),
    Unsupported,
}

/// The failed match: nothing consumed, the input returned untouched.
pub open spec fn no_match_of(input: Seq<ValueModel>) -> MatchModel {
    MatchModel { matched: false, matched_values: Seq::empty(), remainder: input }
}

/// A match of the first input value alone.
pub open spec fn first_match_of(input: Seq<ValueModel>) -> MatchModel {
    MatchModel {
        matched: true,
        matched_values: seq![input[0]],
        remainder: input.subrange(1, input.len() as int),
    }
}

/// The primary multiplier used by the repetition engine: the comma-separated
/// repeat and the at-least-one-value multipliers are handled by their own
/// loops and count as `Once` here.
pub open spec fn effective_multiplier(m: SyntaxComponentMultiplier) -> SyntaxComponentMultiplier {
    match m {
        SyntaxComponentMultiplier::CommaSeparatedRepeat(_, _) => SyntaxComponentMultiplier::Once,
        SyntaxComponentMultiplier::AtLeastOneValue => SyntaxComponentMultiplier::Once,
        _ => m,
    }
}

/// The fulfillment table: primary multiplier and success count decide
/// whether the repetition requirement is open, met, extensible or violated.
pub open spec fn spec_fulfilled(m: SyntaxComponentMultiplier, cnt: nat) -> Fulfillment {
    match effective_multiplier(m) {
        SyntaxComponentMultiplier::Once => if cnt == 0 {
            Fulfillment::NotYetFulfilled
        } else if cnt == 1 {
            Fulfillment::Fulfilled
        } else {
            Fulfillment::NotFulfilled
        },
        SyntaxComponentMultiplier::ZeroOrMore => Fulfillment::FulfilledButMoreAllowed,
        SyntaxComponentMultiplier::OneOrMore => if cnt == 0 {
            Fulfillment::NotYetFulfilled
        } else {
            Fulfillment::FulfilledButMoreAllowed
        },
        SyntaxComponentMultiplier::Optional => if cnt == 0 {
            Fulfillment::FulfilledButMoreAllowed
        } else if cnt == 1 {
            Fulfillment::Fulfilled
        } else {
            Fulfillment::NotFulfilled
        },
        SyntaxComponentMultiplier::Between(from, to) => if cnt < from {
            Fulfillment::NotYetFulfilled
        } else if cnt <= to {
            Fulfillment::FulfilledButMoreAllowed
        } else {
            Fulfillment::NotFulfilled
        },
        _ => Fulfillment::NotFulfilled,
    }
}

/// The unit suffixes that the `length` built-in accepts.
pub open spec fn spec_length_units() -> Seq<Seq<char>> {
    seq![
        "cap"@, "ch"@, "em"@, "ex"@, "ic"@, "lh"@, "rcap"@, "rch"@, "rem"@, "rex"@, "ric"@,
        "rlh"@, "vh"@, "vw"@, "vmax"@, "vmin"@, "vb"@, "vi"@, "cqw"@, "cqh"@, "cqi"@, "cqb"@,
        "cqmin"@, "cqmax"@, "px"@, "cm"@, "mm"@, "Q"@, "in"@, "pc"@, "pt"@
    ]
}

/// Whether the value is accepted by the `angle` built-in: the zero literal or
/// a unit among `deg`, `grad`, `rad` and `turn`, case-insensitively.
pub open spec fn angle_matches(v: ValueModel) -> bool {
    ||| v == ValueModel::Zero
    ||| match v {
        ValueModel::Unit(_, u) => lower_seq(u) == "deg"@ || lower_seq(u) == "grad"@ || lower_seq(u)
            == "rad"@ || lower_seq(u) == "turn"@,
        _ => false,
    }
}

/// Whether the value is accepted by the `length` built-in: the zero literal
/// or a unit from the length-unit table.
pub open spec fn length_matches(v: ValueModel) -> bool {
    ||| v == ValueModel::Zero
    ||| match v {
        ValueModel::Unit(_, u) => seq_in_list(u, spec_length_units()),
        _ => false,
    }
}

/// Whether the value is accepted by the color built-ins: an explicit color or
/// a string starting with `#`.
pub open spec fn color_value_matches(v: ValueModel) -> bool {
    match v {
        ValueModel::Color(_) => true,
        ValueModel::Str(s) => s.len() > 0 && s[0] == '#',
        _ => false,
    }
}

/// Whether one value is accepted by a leaf component.  `Unsupported` for the
/// leaves whose matching needs information that is not there: unresolved
/// datatype references, function arguments, property references, and unknown
/// built-ins.  Literal text is deliberately matched case-insensitively as
/// one rule: a case-sensitive primary comparison with a case-insensitive
/// fallback would accept exactly the same strings, so no such two-step rule
/// is kept.
pub open spec fn match_single(c: ComponentModel, input: Seq<ValueModel>) -> MatchOutcome {
    if input.len() == 0 {
        MatchOutcome::Res(no_match_of(input))
    } else {
        let v = input[0];
        match c {
            ComponentModel::GenericKeyword { keyword, .. } => {
                if v == ValueModel::NoneKeyword && lower_seq(keyword) == "none"@ {
                    MatchOutcome::Res(first_match_of(input))
                } else {
                    match v {
                        ValueModel::Str(s) => if lower_seq(s) == lower_seq(keyword) {
                            MatchOutcome::Res(first_match_of(input))
                        } else {
                            MatchOutcome::Res(no_match_of(input))
                        },
                        _ => MatchOutcome::Res(no_match_of(input)),
                    }
                }
            },
            ComponentModel::Definition { .. } => MatchOutcome::Unsupported,
            ComponentModel::Builtin { datatype, .. } => {
                if datatype == "percentage"@ {
                    if v is Percentage {
                        MatchOutcome::Res(first_match_of(input))
                    } else {
                        MatchOutcome::Res(no_match_of(input))
                    }
                } else if datatype == "angle"@ {
                    if angle_matches(v) {
                        MatchOutcome::Res(first_match_of(input))
                    } else {
                        MatchOutcome::Res(no_match_of(input))
                    }
                } else if datatype == "length"@ {
                    if length_matches(v) {
                        MatchOutcome::Res(first_match_of(input))
                    } else {
                        MatchOutcome::Res(no_match_of(input))
                    }
                } else if datatype == "system-color"@ {
                    match v {
                        ValueModel::Str(s) => if spec_is_system_color(s) {
                            MatchOutcome::Res(first_match_of(input))
                        } else {
                            MatchOutcome::Res(no_match_of(input))
                        },
                        _ => MatchOutcome::Res(no_match_of(input)),
                    }
                } else if datatype == "named-color"@ {
                    match v {
                        ValueModel::Str(s) => if spec_is_named_color(s) {
                            MatchOutcome::Res(first_match_of(input))
                        } else {
                            MatchOutcome::Res(no_match_of(input))
                        },
                        _ => MatchOutcome::Res(no_match_of(input)),
                    }
                } else if datatype == "color()"@ || datatype == "hex-color"@ {
                    if color_value_matches(v) {
                        MatchOutcome::Res(first_match_of(input))
                    } else {
                        MatchOutcome::Res(no_match_of(input))
                    }
                } else {
                    MatchOutcome::Unsupported
                }
            },
            ComponentModel::Inherit { .. } => {
                if v == ValueModel::Inherit {
                    MatchOutcome::Res(first_match_of(input))
                } else {
                    match v {
                        ValueModel::Str(s) => if lower_seq(s) == "inherit"@ {
                            MatchOutcome::Res(first_match_of(input))
                        } else {
                            MatchOutcome::Res(no_match_of(input))
                        },
                        _ => MatchOutcome::Res(no_match_of(input)),
                    }
                }
            },
            ComponentModel::Initial { .. } => {
                if v == ValueModel::Initial {
                    MatchOutcome::Res(first_match_of(input))
                } else {
                    match v {
                        ValueModel::Str(s) => if lower_seq(s) == "initial"@ {
                            MatchOutcome::Res(first_match_of(input))
                        } else {
                            MatchOutcome::Res(no_match_of(input))
                        },
                        _ => MatchOutcome::Res(no_match_of(input)),
                    }
                }
            },
            ComponentModel::Unset { .. } => {
                match v {
                    ValueModel::Str(s) => if lower_seq(s) == "unset"@ {
                        MatchOutcome::Res(first_match_of(input))
                    } else {
                        MatchOutcome::Res(no_match_of(input))
                    },
                    _ => MatchOutcome::Res(no_match_of(input)),
                }
            },
            ComponentModel::Unit { from, to, unit, .. } => {
                match v {
                    ValueModel::Number(n) => if n == 0 {
                        MatchOutcome::Res(first_match_of(input))
                    } else {
                        MatchOutcome::Res(no_match_of(input))
                    },
                    ValueModel::Unit(n, u) => {
                        let suffix_ok = unit.len() == 0 || seq_in_list(u, unit);
                        let lo_ok = match from {
                            Some(f) => n >= f,
                            None => true,
                        };
                        let hi_ok = match to {
                            Some(t) => n <= t,
                            None => true,
                        };
                        if suffix_ok && lo_ok && hi_ok {
                            MatchOutcome::Res(first_match_of(input))
                        } else {
                            MatchOutcome::Res(no_match_of(input))
                        }
                    },
                    _ => MatchOutcome::Res(no_match_of(input)),
                }
            },
            ComponentModel::Literal { literal, .. } => {
                match v {
                    ValueModel::Str(s) => if lower_seq(s) == lower_seq(literal) {
                        MatchOutcome::Res(first_match_of(input))
                    } else {
                        MatchOutcome::Res(no_match_of(input))
                    },
                    _ => MatchOutcome::Res(no_match_of(input)),
                }
            },
            ComponentModel::Function { name, .. } => {
                match v {
                    ValueModel::Function(vname, vargs) => {
                        if lower_seq(vname) != lower_seq(name) {
                            MatchOutcome::Res(no_match_of(input))
                        } else if vargs.len() == 0 {
                            MatchOutcome::Res(first_match_of(input))
                        } else {
                            MatchOutcome::Unsupported
                        }
                    },
                    _ => MatchOutcome::Res(no_match_of(input)),
                }
            },
            ComponentModel::Value { value, .. } => {
                if v == value {
                    MatchOutcome::Res(first_match_of(input))
                } else {
                    MatchOutcome::Res(no_match_of(input))
                }
            },
            ComponentModel::Property { .. } => MatchOutcome::Unsupported,
            ComponentModel::Group { .. } => MatchOutcome::Unsupported,
        }
    }
}

/// One ordered pass over the children of a juxtaposition group: each child in
/// order matches against the remainder left by the one before it, and the
/// first failing child makes the whole group fail with the group's input
/// returned untouched.
pub open spec fn match_juxtaposition(
    children: Seq<ComponentModel>,
    input: Seq<ValueModel>,
    i: int,
    acc: Seq<ValueModel>,
    cur: Seq<ValueModel>,
) -> MatchOutcome
    decreases children, 0int, children.len() - i, 0int,
{
    if i < 0 || i >= children.len() {
        MatchOutcome::Res(MatchModel { matched: true, matched_values: acc, remainder: cur })
    } else {
        match match_component_m(children[i], cur) {
            MatchOutcome::Unsupported => MatchOutcome::Unsupported,
            MatchOutcome::Res(r) => if r.matched {
                match_juxtaposition(children, input, i + 1, acc + r.matched_values, r.remainder)
            } else {
                MatchOutcome::Res(no_match_of(input))
            },
        }
    }
}

/// The scanning engine shared by the two any-order group combinators: scan
/// the children not yet matched in index order; on a success mark the child
/// matched and restart the scan; on a failure go on with the next unmatched
/// child; stop when the input is exhausted or every child was tried.
/// `remaining` counts the children not yet matched.  The result gives the
/// per-child matched flags, the accumulated values and the remainder.
pub open spec fn match_any_order_scan(
    children: Seq<ComponentModel>,
    done: Seq<bool>,
    c_idx: int,
    remaining: nat,
    acc: Seq<ValueModel>,
    cur: Seq<ValueModel>,
) -> Option<(Seq<bool>, Seq<ValueModel>, Seq<ValueModel>)>
    decreases children, 0int, remaining, children.len() - c_idx,
{
    if c_idx < 0 || c_idx >= children.len() {
        Some((done, acc, cur))
    } else if cur.len() == 0 {
        Some((done, acc, cur))
    } else if done[c_idx] {
        match_any_order_scan(children, done, c_idx + 1, remaining, acc, cur)
    } else {
        match match_component_m(children[c_idx], cur) {
            MatchOutcome::Unsupported => None,
            MatchOutcome::Res(r) => if r.matched {
                if remaining > 0 {
                    match_any_order_scan(
                        children,
                        done.update(c_idx, true),
                        0,
                        (remaining - 1) as nat,
                        acc + r.matched_values,
                        r.remainder,
                    )
                } else {
                    Some((done, acc, cur))
                }
            } else {
                match_any_order_scan(children, done, c_idx + 1, remaining, acc, cur)
            },
        }
    }
}

/// How many children the scan marked as matched.
pub open spec fn count_matched(done: Seq<bool>) -> nat
    decreases done,
{
    if done.len() == 0 {
        0
    } else {
        (if done[0] {
            1nat
        } else {
            0nat
        }) + count_matched(done.subrange(1, done.len() as int))
    }
}

/// The all-any-order group (`&&`): every child must be matched once, in any
/// order.
pub open spec fn match_all_any_order(
    children: Seq<ComponentModel>,
    input: Seq<ValueModel>,
) -> MatchOutcome
    decreases children, 1int, 0int, 0int,
{
    match match_any_order_scan(
        children,
        Seq::new(children.len(), |i: int| false),
        0,
        children.len() as nat,
        Seq::empty(),
        input,
    ) {
        Option::None => MatchOutcome::Unsupported,
        Option::Some((done, acc, cur)) => if count_matched(done) == children.len() {
            MatchOutcome::Res(MatchModel { matched: true, matched_values: acc, remainder: cur })
        } else {
            MatchOutcome::Res(no_match_of(input))
        },
    }
}

/// The at-least-one-any-order group (`||`): at least one child must be
/// matched, in any order.
pub open spec fn match_at_least_one_any_order(
    children: Seq<ComponentModel>,
    input: Seq<ValueModel>,
) -> MatchOutcome
    decreases children, 1int, 0int, 0int,
{
    match match_any_order_scan(
        children,
        Seq::new(children.len(), |i: int| false),
        0,
        children.len() as nat,
        Seq::empty(),
        input,
    ) {
        Option::None => MatchOutcome::Unsupported,
        Option::Some((done, acc, cur)) => if count_matched(done) > 0 {
            MatchOutcome::Res(MatchModel { matched: true, matched_values: acc, remainder: cur })
        } else {
            MatchOutcome::Res(no_match_of(input))
        },
    }
}

/// The exactly-one group (`|`): every child is tried against the same input;
/// among the children that match, the one with the shortest remainder wins,
/// and ties go to the earliest child in declaration order.
pub open spec fn match_exactly_one_scan(
    children: Seq<ComponentModel>,
    input: Seq<ValueModel>,
    i: int,
    best: Option<(Seq<ValueModel>, Seq<ValueModel>)>,
) -> MatchOutcome
    decreases children, 0int, children.len() - i, 0int,
{
    if i < 0 || i >= children.len() || input.len() == 0 {
        match best {
            Option::None => MatchOutcome::Res(no_match_of(input)),
            Option::Some((mv, rem)) => MatchOutcome::Res(
                MatchModel { matched: true, matched_values: mv, remainder: rem },
            ),
        }
    } else {
        match match_component_m(children[i], input) {
            MatchOutcome::Unsupported => MatchOutcome::Unsupported,
            MatchOutcome::Res(r) => {
                let best1 = if r.matched {
                    match best {
                        Option::None => Option::Some((r.matched_values, r.remainder)),
                        Option::Some((bm, br)) => if r.remainder.len() < br.len() {
                            Option::Some((r.matched_values, r.remainder))
                        } else {
                            Option::Some((bm, br))
                        },
                    }
                } else {
                    best
                };
                match_exactly_one_scan(children, input, i + 1, best1)
            },
        }
    }
}

/// A group match dispatches on the combinator; on anything that is not a
/// group the outcome is unsupported.
pub open spec fn match_group_m(c: ComponentModel, input: Seq<ValueModel>) -> MatchOutcome
    decreases c, 1int, 0int, 0int,
{
    match c {
        ComponentModel::Group { components, combinator, .. } => {
            match combinator {
                GroupCombinators::Juxtaposition => match_juxtaposition(
                    components,
                    input,
                    0,
                    Seq::empty(),
                    input,
                ),
                GroupCombinators::AllAnyOrder => match_all_any_order(components, input),
                GroupCombinators::AtLeastOneAnyOrder => match_at_least_one_any_order(
                    components,
                    input,
                ),
                GroupCombinators::ExactlyOne => match_exactly_one_scan(
                    components,
                    input,
                    0,
                    Option::None,
                ),
            }
        },
        _ => MatchOutcome::Unsupported,
    }
}

/// One unit attempt: a group match for groups, a leaf match for leaves.
pub open spec fn match_unit(c: ComponentModel, input: Seq<ValueModel>) -> MatchOutcome
    decreases c, 2int, 0int, 0int,
{
    if c is Group {
        match_group_m(c, input)
    } else {
        match_single(c, input)
    }
}

/// The repetition engine: unit matches are attempted as long as the
/// component's primary multiplier wants or allows more, counting successes.
/// A unit success that consumes nothing is accepted when it completes a
/// once-or-optional multiplier and rejected otherwise, because repeating it
/// could never consume the input.  On a unit failure the count so far
/// decides, with the accumulated values as the result; a violated multiplier
/// fails with the engine's whole input returned untouched.
pub open spec fn match_inner_loop(
    c: ComponentModel,
    input: Seq<ValueModel>,
    cur: Seq<ValueModel>,
    count: nat,
    acc: Seq<ValueModel>,
) -> MatchOutcome
    decreases c, 3int, cur.len(), 0int,
{
    match match_unit(c, cur) {
        MatchOutcome::Unsupported => MatchOutcome::Unsupported,
        MatchOutcome::Res(r) => if r.matched {
            match spec_fulfilled(c.multiplier_of(), (count + 1) as nat) {
                Fulfillment::Fulfilled => MatchOutcome::Res(r),
                Fulfillment::NotFulfilled => MatchOutcome::Res(no_match_of(input)),
                Fulfillment::NotYetFulfilled => if r.remainder.len() == 0 {
                    MatchOutcome::Res(no_match_of(input))
                } else if r.remainder.len() >= cur.len() {
                    MatchOutcome::Res(no_match_of(input))
                } else {
                    match_inner_loop(c, input, r.remainder, count + 1, acc + r.matched_values)
                },
                Fulfillment::FulfilledButMoreAllowed => if r.remainder.len() == 0 {
                    MatchOutcome::Res(r)
                } else if r.remainder.len() >= cur.len() {
                    MatchOutcome::Res(no_match_of(input))
                } else {
                    match_inner_loop(c, input, r.remainder, count + 1, acc + r.matched_values)
                },
            }
        } else {
            match spec_fulfilled(c.multiplier_of(), count) {
                Fulfillment::NotYetFulfilled => MatchOutcome::Res(no_match_of(cur)),
                Fulfillment::Fulfilled => MatchOutcome::Res(no_match_of(cur)),
                Fulfillment::FulfilledButMoreAllowed => MatchOutcome::Res(
                    MatchModel { matched: true, matched_values: acc, remainder: cur },
                ),
                Fulfillment::NotFulfilled => MatchOutcome::Res(no_match_of(input)),
            }
        },
    }
}

/// A component match under its primary multiplier.  An empty input matches,
/// with nothing consumed, exactly when the multiplier tolerates zero
/// occurrences.
pub open spec fn match_inner(c: ComponentModel, input: Seq<ValueModel>) -> MatchOutcome
    decreases c, 4int, 0int, 0int,
{
    if input.len() == 0 {
        let f = spec_fulfilled(c.multiplier_of(), 0);
        if f == Fulfillment::Fulfilled || f == Fulfillment::FulfilledButMoreAllowed {
            MatchOutcome::Res(
                MatchModel { matched: true, matched_values: Seq::empty(), remainder: Seq::empty() },
            )
        } else {
            MatchOutcome::Res(no_match_of(input))
        }
    } else {
        match_inner_loop(c, input, input, 0, Seq::empty())
    }
}

/// The comma-separated repetition loop: the inner matcher runs repeatedly,
/// with a literal comma required between successive matches; a dangling or
/// doubled comma fails; at the end the number of repetitions must lie within
/// the multiplier's bounds.
pub open spec fn match_csv_loop(
    c: ComponentModel,
    input: Seq<ValueModel>,
    cur: Seq<ValueModel>,
    cnt: nat,
    acc: Seq<ValueModel>,
    min: nat,
    max: nat,
) -> MatchOutcome
    decreases c, 5int, cur.len(), 0int,
{
    match match_inner(c, cur) {
        MatchOutcome::Unsupported => MatchOutcome::Unsupported,
        MatchOutcome::Res(r) => if !r.matched {
            csv_close(input, cur, cnt, acc, min, max)
        } else {
            let cnt1 = (cnt + 1) as nat;
            let acc1 = acc + r.matched_values;
            if r.remainder.len() == 0 {
                csv_close(input, r.remainder, cnt1, acc1, min, max)
            } else if r.remainder[0] != ValueModel::Comma {
                MatchOutcome::Res(no_match_of(input))
            } else {
                let after = r.remainder.subrange(1, r.remainder.len() as int);
                if after.len() == 0 {
                    MatchOutcome::Res(no_match_of(input))
                } else if after.len() >= cur.len() {
                    MatchOutcome::Res(no_match_of(input))
                } else {
                    match_csv_loop(c, input, after, cnt1, acc1, min, max)
                }
            }
        },
    }
}

/// The end of the comma-separated loop: the repetition count must lie within
/// the bounds.
pub open spec fn csv_close(
    input: Seq<ValueModel>,
    cur: Seq<ValueModel>,
    cnt: nat,
    acc: Seq<ValueModel>,
    min: nat,
    max: nat,
) -> MatchOutcome {
    if min <= cnt && cnt <= max {
        MatchOutcome::Res(MatchModel { matched: true, matched_values: acc, remainder: cur })
    } else {
        MatchOutcome::Res(no_match_of(input))
    }
}

/// A full component match: the comma-separated wrapper when the component's
/// multiplier asks for it, the plain repetition engine otherwise.
pub open spec fn match_component_m(c: ComponentModel, input: Seq<ValueModel>) -> MatchOutcome
    decreases c, 6int, 0int, 0int,
{
    match c.multiplier_of() {
        SyntaxComponentMultiplier::CommaSeparatedRepeat(min, max) => match_csv_loop(
            c,
            input,
            input,
            0,
            Seq::empty(),
            min as nat,
            max as nat,
        ),
        _ => match_inner(c, input),
    }
}

/// Whether a tree with the given root accepts the input in full: the root
/// must match and consume every value.
pub open spec fn spec_matches(root: ComponentModel, input: Seq<ValueModel>) -> bool {
    match match_component_m(root, input) {
        MatchOutcome::Res(r) => r.matched && r.remainder.len() == 0,
        MatchOutcome::Unsupported => false,
    }
}

/// Whether one child of an exactly-one group matches the input on its own.
pub open spec fn child_succeeds(
    children: Seq<ComponentModel>,
    input: Seq<ValueModel>,
    j: int,
) -> bool {
    match match_component_m(children[j], input) {
        MatchOutcome::Res(m) => m.matched,
        MatchOutcome::Unsupported => false,
    }
}

/// The result that one child of an exactly-one group produces on its own.
pub open spec fn child_outcome(
    children: Seq<ComponentModel>,
    input: Seq<ValueModel>,
    j: int,
) -> MatchModel {
    match match_component_m(children[j], input) {
        MatchOutcome::Res(m) => m,
        MatchOutcome::Unsupported => no_match_of(input),
    }
}

/// What it means for a matched-values/remainder pair to win among the
/// first `n` children of an exactly-one group: some child in that range
/// matched with exactly that result, no child in the range leaves a
/// strictly shorter remainder, and every earlier child that matched leaves
/// a strictly longer one.
pub open spec fn exactly_one_winner(
    children: Seq<ComponentModel>,
    input: Seq<ValueModel>,
    n: int,
    mv: Seq<ValueModel>,
    rem: Seq<ValueModel>,
) -> bool {
    exists|j: int|
        0 <= j < n && #[trigger] child_succeeds(children, input, j) && child_outcome(
            children,
            input,
            j,
        ).matched_values == mv && child_outcome(children, input, j).remainder == rem && (
        forall|k: int|
            0 <= k < n && child_succeeds(children, input, k) ==> child_outcome(
                children,
                input,
                k,
            ).remainder.len() >= rem.len()) && (forall|k: int|
            0 <= k < j && child_succeeds(children, input, k) ==> child_outcome(
                children,
                input,
                k,
            ).remainder.len() > rem.len())
}

/// The scan from position `i` with a running best candidate: when the best
/// summarises the children before `i`, the scan's result summarises them
/// all.
proof fn lemma_exactly_one_scan_props(
    children: Seq<ComponentModel>,
    input: Seq<ValueModel>,
    i: int,
    best: Option<(Seq<ValueModel>, Seq<ValueModel>)>,
)
    requires
        input.len() > 0,
        0 <= i <= children.len(),
        match best {
            Option::None => forall|j: int| 0 <= j < i ==> !child_succeeds(children, input, j),
            Option::Some((mv, rem)) => exactly_one_winner(children, input, i, mv, rem),
        },
    ensures
        match match_exactly_one_scan(children, input, i, best) {
            MatchOutcome::Res(r) => {
                &&& (r.matched <==> (best is Some || exists|j: int|
                    i <= j < children.len() && child_succeeds(children, input, j)))
                &&& (r.matched ==> exactly_one_winner(
                    children,
                    input,
                    children.len() as int,
                    r.matched_values,
                    r.remainder,
                ))
                &&& (!r.matched ==> r == no_match_of(input) && forall|j: int|
                    0 <= j < children.len() ==> !child_succeeds(children, input, j))
            },
            MatchOutcome::Unsupported => true,
        },
    decreases children.len() - i,
{
    if i >= children.len() {
        // The scan ends; the best candidate decides.
    } else {
        match match_component_m(children[i], input) {
            MatchOutcome::Unsupported => {},
            MatchOutcome::Res(m) => {
                let best1 = if m.matched {
                    match best {
                        Option::None => Option::Some((m.matched_values, m.remainder)),
                        Option::Some((bm, br)) => if m.remainder.len() < br.len() {
                            Option::Some((m.matched_values, m.remainder))
                        } else {
                            Option::Some((bm, br))
                        },
                    }
                } else {
                    best
                };
                assert(child_succeeds(children, input, i) == m.matched);
                assert(child_outcome(children, input, i) == m);
                if m.matched {
                    match best {
                        Option::None => {
                            assert(exactly_one_winner(
                                children,
                                input,
                                i + 1,
                                m.matched_values,
                                m.remainder,
                            )) by {
                                assert(child_succeeds(children, input, i));
                            }
                        },
                        Option::Some((bm, br)) => {
                            let jw = choose|jw: int|
                                0 <= jw < i && #[trigger] child_succeeds(children, input, jw)
                                    && child_outcome(children, input, jw).matched_values == bm
                                    && child_outcome(children, input, jw).remainder == br && (
                                forall|k: int|
                                    0 <= k < i && child_succeeds(children, input, k)
                                        ==> child_outcome(children, input, k).remainder.len()
                                        >= br.len()) && (forall|k: int|
                                    0 <= k < jw && child_succeeds(children, input, k)
                                        ==> child_outcome(children, input, k).remainder.len()
                                        > br.len());
                            if m.remainder.len() < br.len() {
                                assert(exactly_one_winner(
                                    children,
                                    input,
                                    i + 1,
                                    m.matched_values,
                                    m.remainder,
                                )) by {
                                    assert(child_succeeds(children, input, i));
                                    assert(forall|k: int|
                                        0 <= k < i + 1 && child_succeeds(children, input, k)
                                            ==> child_outcome(children, input, k).remainder.len()
                                            >= m.remainder.len());
                                    assert(forall|k: int|
                                        0 <= k < i && child_succeeds(children, input, k)
                                            ==> child_outcome(children, input, k).remainder.len()
                                            > m.remainder.len());
                                }
                            } else {
                                assert(exactly_one_winner(children, input, i + 1, bm, br)) by {
                                    assert(child_succeeds(children, input, jw));
                                    assert(forall|k: int|
                                        0 <= k < i + 1 && child_succeeds(children, input, k)
                                            ==> child_outcome(children, input, k).remainder.len()
                                            >= br.len());
                                }
                            }
                        },
                    }
                } else {
                    match best {
                        Option::None => {},
                        Option::Some((bm, br)) => {
                            let jw = choose|jw: int|
                                0 <= jw < i && #[trigger] child_succeeds(children, input, jw)
                                    && child_outcome(children, input, jw).matched_values == bm
                                    && child_outcome(children, input, jw).remainder == br && (
                                forall|k: int|
                                    0 <= k < i && child_succeeds(children, input, k)
                                        ==> child_outcome(children, input, k).remainder.len()
                                        >= br.len()) && (forall|k: int|
                                    0 <= k < jw && child_succeeds(children, input, k)
                                        ==> child_outcome(children, input, k).remainder.len()
                                        > br.len());
                            assert(exactly_one_winner(children, input, i + 1, bm, br)) by {
                                assert(child_succeeds(children, input, jw));
                            }
                        },
                    }
                }
                lemma_exactly_one_scan_props(children, input, i + 1, best1);
                match match_exactly_one_scan(children, input, i, best) {
                    MatchOutcome::Res(r) => {
                        if best is Some || m.matched {
                            assert(best1 is Some);
                            if m.matched {
                                assert(child_succeeds(children, input, i));
                            }
                        } else {
                            assert(best1 is None);
                            if r.matched {
                                let jx = choose|jx: int|
                                    i + 1 <= jx < children.len() && #[trigger] child_succeeds(
                                        children,
                                        input,
                                        jx,
                                    );
                                assert(child_succeeds(children, input, jx));
                            }
                        }
                    },
                    MatchOutcome::Unsupported => {},
                }
            },
        }
    }
}

/// The exactly-one policy, in full: every child of an exactly-one group is
/// tried independently against the same input; the group matches exactly
/// when some child does; the result is then a succeeding child's own
/// result such that no succeeding child leaves a strictly shorter
/// remainder and every earlier succeeding child leaves a strictly longer
/// one — greedy longest consumption, ties to the earliest child; with no
/// succeeding child the group fails with the input untouched.
pub proof fn lemma_exactly_one_semantics(children: Seq<ComponentModel>, input: Seq<ValueModel>)
    requires
        input.len() > 0,
    ensures
        match match_exactly_one_scan(children, input, 0, Option::None) {
            MatchOutcome::Res(r) => {
                &&& (r.matched <==> exists|j: int|
                    0 <= j < children.len() && child_succeeds(children, input, j))
                &&& (r.matched ==> exactly_one_winner(
                    children,
                    input,
                    children.len() as int,
                    r.matched_values,
                    r.remainder,
                ))
                &&& (!r.matched ==> r == no_match_of(input))
            },
            MatchOutcome::Unsupported => true,
        },
{
    lemma_exactly_one_scan_props(children, input, 0, Option::None);
}

} // verus!
