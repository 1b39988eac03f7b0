//! The value matcher: a compiled syntax tree against a flat sequence of CSS
//! values.  Every function here is proved to return exactly what the
//! specification functions in `match_spec` define.

use vstd::prelude::*;

use crate::colors::{is_named_color, is_system_color};
use crate::match_spec::{
    match_all_any_order, match_any_order_scan, match_at_least_one_any_order, match_component_m,
    match_csv_loop, match_exactly_one_scan, match_group_m, match_inner, match_inner_loop,
    match_juxtaposition, match_single, match_unit, spec_fulfilled, spec_length_units,
    spec_matches, count_matched, first_match_of, no_match_of, Fulfillment, MatchModel,
    MatchOutcome,
};
use crate::strings::{eq_ignore_case, seq_in_list, str_eq, str_in_list, to_lower};
use crate::syntax::{
    comp_models, lemma_comp_models, ComponentModel, GroupCombinators, SyntaxComponent,
    SyntaxComponentMultiplier,
};
use crate::values::{
    lemma_models, lemma_models_add, lemma_models_push, models, CssValue, ValueModel,
};

verus! {

/// A matching step failed because the component cannot be matched at all.
#[derive(Debug, Clone, Copy, PartialEq, Eq, Structural)]
pub enum MatchError {
    /// The component needs information that is not there: an unresolved
    /// datatype reference, function arguments, a property reference, or an
    /// unknown built-in.
    UnsupportedComponent,
}

/// An internal match step: the consumed prefix is `values[from..rem_from]`,
/// and `rem_from` points at the unconsumed tail.
struct Step {
    /// Whether the component matched.
    matched: bool,
    /// The values the component consumed.
    matched_values: Vec<CssValue>,
    /// Start of the unconsumed tail.
    rem_from: usize,
}

/// The models of the values from `from` on.
pub open spec fn tail(values: Seq<CssValue>, from: int) -> Seq<ValueModel> {
    models(values).subrange(from, models(values).len() as int)
}

/// Everyday facts about `tail`.
proof fn tail_facts(values: Seq<CssValue>, from: int)
    requires
        0 <= from <= values.len(),
    ensures
        tail(values, from).len() == values.len() - from,
        from < values.len() ==> tail(values, from)[0] == values[from].model(),
        from < values.len() ==> tail(values, from).subrange(
            1,
            values.len() - from,
        ) == tail(values, from + 1),
{
    lemma_models(values);
    if from < values.len() {
        assert(tail(values, from).subrange(1, values.len() - from) =~= tail(values, from + 1));
    }
}

/// How a step realises a specification outcome on the tail starting at
/// `from`.
spec fn step_models(st: Step, values: Seq<CssValue>, from: int, out: MatchOutcome) -> bool {
    &&& from <= st.rem_from <= values.len()
    &&& out == MatchOutcome::Res(
        MatchModel {
            matched: st.matched,
            matched_values: models(st.matched_values@),
            remainder: tail(values, st.rem_from as int),
        },
    )
}

/// The failed step: nothing consumed.
fn step_no_match(from: usize) -> (st: Step)
    ensures
        !st.matched,
        st.rem_from == from,
        models(st.matched_values@) == Seq::<ValueModel>::empty(),
{
    let st = Step { matched: false, matched_values: Vec::new(), rem_from: from };
    proof {
        lemma_models(st.matched_values@);
        assert(models(st.matched_values@) =~= Seq::<ValueModel>::empty());
    }
    st
}

/// The step that consumes exactly the value at `from`.
fn step_first(values: &Vec<CssValue>, from: usize) -> (st: Step)
    requires
        from < values@.len(),
    ensures
        st.matched,
        st.rem_from == from + 1,
        models(st.matched_values@) == seq![values@[from as int].model()],
{
    let _input_len = values.len();
    let mut mv: Vec<CssValue> = Vec::new();
    mv.push(values[from].duplicate());
    proof {
        lemma_models(mv@);
        assert(models(mv@) =~= seq![values@[from as int].model()]);
    }
    Step { matched: true, matched_values: mv, rem_from: from + 1 }
}

/// The unit suffixes accepted by the `length` built-in.
pub fn length_units() -> (r: Vec<String>)
    ensures
        r.deep_view() == spec_length_units(),
{
    let mut v: Vec<String> = Vec::new();
    v.push("cap".to_owned());
    v.push("ch".to_owned());
    v.push("em".to_owned());
    v.push("ex".to_owned());
    v.push("ic".to_owned());
    v.push("lh".to_owned());
    v.push("rcap".to_owned());
    v.push("rch".to_owned());
    v.push("rem".to_owned());
    v.push("rex".to_owned());
    v.push("ric".to_owned());
    v.push("rlh".to_owned());
    v.push("vh".to_owned());
    v.push("vw".to_owned());
    v.push("vmax".to_owned());
    v.push("vmin".to_owned());
    v.push("vb".to_owned());
    v.push("vi".to_owned());
    v.push("cqw".to_owned());
    v.push("cqh".to_owned());
    v.push("cqi".to_owned());
    v.push("cqb".to_owned());
    v.push("cqmin".to_owned());
    v.push("cqmax".to_owned());
    v.push("px".to_owned());
    v.push("cm".to_owned());
    v.push("mm".to_owned());
    v.push("Q".to_owned());
    v.push("in".to_owned());
    v.push("pc".to_owned());
    v.push("pt".to_owned());
    proof {
        assert(v.deep_view() =~~= spec_length_units());
    }
    v
}

/// Whether the string begins with the `#` character.
fn starts_with_hash(s: &str) -> (r: bool)
    ensures
        r == (s@.len() > 0 && s@[0] == '#'),
{
    let n = s.unicode_len();
    if n == 0 {
        return false;
    }
    s.get_char(0) == '#'
}

/// The fulfillment of the component's primary multiplier at the given
/// success count.
pub fn multiplier_fulfilled(component: &SyntaxComponent, cnt: usize) -> (r: Fulfillment)
    ensures
        r == spec_fulfilled(component.model().multiplier_of(), cnt as nat),
{
    match component.get_multiplier() {
        SyntaxComponentMultiplier::ZeroOrMore => Fulfillment::FulfilledButMoreAllowed,
        SyntaxComponentMultiplier::OneOrMore => {
            if cnt == 0 {
                Fulfillment::NotYetFulfilled
            } else {
                Fulfillment::FulfilledButMoreAllowed
            }
        },
        SyntaxComponentMultiplier::Optional => {
            if cnt == 0 {
                Fulfillment::FulfilledButMoreAllowed
            } else if cnt == 1 {
                Fulfillment::Fulfilled
            } else {
                Fulfillment::NotFulfilled
            }
        },
        SyntaxComponentMultiplier::Between(from, to) => {
            if cnt < from {
                Fulfillment::NotYetFulfilled
            } else if cnt <= to {
                Fulfillment::FulfilledButMoreAllowed
            } else {
                Fulfillment::NotFulfilled
            }
        },
        _ => {
            if cnt == 0 {
                Fulfillment::NotYetFulfilled
            } else if cnt == 1 {
                Fulfillment::Fulfilled
            } else {
                Fulfillment::NotFulfilled
            }
        },
    }
}

/// Matches one leaf component against the value at `from`.
fn m_single(values: &Vec<CssValue>, from: usize, c: &SyntaxComponent) -> (r: Result<
    Step,
    MatchError,
>)
    requires
        values@.len() < usize::MAX,
        from <= values@.len(),
    ensures
        match r {
            Ok(st) => step_models(st, values@, from as int, match_single(
                c.model(),
                tail(values@, from as int),
            )),
            Err(_) => match_single(c.model(), tail(values@, from as int))
                == MatchOutcome::Unsupported,
        },
{
    proof {
        tail_facts(values@, from as int);
    }
    if from == values.len() {
        return Ok(step_no_match(from));
    }
    let v = &values[from];
    let ghost sin = tail(values@, from as int);
    proof {
        assert(first_match_of(sin).matched_values =~= seq![values@[from as int].model()]);
        assert(first_match_of(sin).remainder =~= tail(values@, from as int + 1));
    }
    match c {
        SyntaxComponent::GenericKeyword { keyword, .. } => {
            let hit = match v {
                CssValue::NoneKeyword => {
                    let lk = to_lower(keyword.as_str());
                    str_eq(lk.as_str(), "none")
                },
                CssValue::Str(s) => eq_ignore_case(s.as_str(), keyword.as_str()),
                _ => false,
            };
            if hit {
                Ok(step_first(values, from))
            } else {
                Ok(step_no_match(from))
            }
        },
        SyntaxComponent::Definition { .. } => Err(MatchError::UnsupportedComponent),
        SyntaxComponent::Builtin { datatype, .. } => {
            let dt = datatype.as_str();
            if str_eq(dt, "percentage") {
                let hit = matches!(v, CssValue::Percentage(_));
                if hit {
                    Ok(step_first(values, from))
                } else {
                    Ok(step_no_match(from))
                }
            } else if str_eq(dt, "angle") {
                let hit = match v {
                    CssValue::Zero => true,
                    CssValue::Unit(_, u) => {
                        let lu = to_lower(u.as_str());
                        str_eq(lu.as_str(), "deg") || str_eq(lu.as_str(), "grad") || str_eq(
                            lu.as_str(),
                            "rad",
                        ) || str_eq(lu.as_str(), "turn")
                    },
                    _ => false,
                };
                if hit {
                    Ok(step_first(values, from))
                } else {
                    Ok(step_no_match(from))
                }
            } else if str_eq(dt, "length") {
                let hit = match v {
                    CssValue::Zero => true,
                    CssValue::Unit(_, u) => str_in_list(u.as_str(), &length_units()),
                    _ => false,
                };
                if hit {
                    Ok(step_first(values, from))
                } else {
                    Ok(step_no_match(from))
                }
            } else if str_eq(dt, "system-color") {
                let hit = match v {
                    CssValue::Str(s) => is_system_color(s.as_str()),
                    _ => false,
                };
                if hit {
                    Ok(step_first(values, from))
                } else {
                    Ok(step_no_match(from))
                }
            } else if str_eq(dt, "named-color") {
                let hit = match v {
                    CssValue::Str(s) => is_named_color(s.as_str()),
                    _ => false,
                };
                if hit {
                    Ok(step_first(values, from))
                } else {
                    Ok(step_no_match(from))
                }
            } else if str_eq(dt, "color()") || str_eq(dt, "hex-color") {
                let hit = match v {
                    CssValue::Color(_) => true,
                    CssValue::Str(s) => starts_with_hash(s.as_str()),
                    _ => false,
                };
                if hit {
                    Ok(step_first(values, from))
                } else {
                    Ok(step_no_match(from))
                }
            } else {
                Err(MatchError::UnsupportedComponent)
            }
        },
        SyntaxComponent::Inherit { .. } => {
            let hit = match v {
                CssValue::Inherit => true,
                CssValue::Str(s) => {
                    let ls = to_lower(s.as_str());
                    str_eq(ls.as_str(), "inherit")
                },
                _ => false,
            };
            if hit {
                Ok(step_first(values, from))
            } else {
                Ok(step_no_match(from))
            }
        },
        SyntaxComponent::Initial { .. } => {
            let hit = match v {
                CssValue::Initial => true,
                CssValue::Str(s) => {
                    let ls = to_lower(s.as_str());
                    str_eq(ls.as_str(), "initial")
                },
                _ => false,
            };
            if hit {
                Ok(step_first(values, from))
            } else {
                Ok(step_no_match(from))
            }
        },
        SyntaxComponent::Unset { .. } => {
            let hit = match v {
                CssValue::Str(s) => {
                    let ls = to_lower(s.as_str());
                    str_eq(ls.as_str(), "unset")
                },
                _ => false,
            };
            if hit {
                Ok(step_first(values, from))
            } else {
                Ok(step_no_match(from))
            }
        },
        SyntaxComponent::Unit { from: lo, to: hi, unit, .. } => {
            let hit = match v {
                CssValue::Number(n) => n.micros == 0,
                CssValue::Unit(n, u) => {
                    let suffix_ok = unit.len() == 0 || str_in_list_owned(u.as_str(), unit);
                    let lo_ok = match lo {
                        Some(f) => n.micros >= *f,
                        None => true,
                    };
                    let hi_ok = match hi {
                        Some(t) => n.micros <= *t,
                        None => true,
                    };
                    suffix_ok && lo_ok && hi_ok
                },
                _ => false,
            };
            if hit {
                Ok(step_first(values, from))
            } else {
                Ok(step_no_match(from))
            }
        },
        SyntaxComponent::Literal { literal, .. } => {
            // One case-insensitive rule; a case-sensitive fast path would
            // accept the same strings.
            let hit = match v {
                CssValue::Str(s) => eq_ignore_case(s.as_str(), literal.as_str()),
                _ => false,
            };
            if hit {
                Ok(step_first(values, from))
            } else {
                Ok(step_no_match(from))
            }
        },
        SyntaxComponent::Function { name, .. } => {
            match v {
                CssValue::Function(vname, vargs) => {
                    if !eq_ignore_case(vname.as_str(), name.as_str()) {
                        Ok(step_no_match(from))
                    } else if vargs.len() == 0 {
                        proof {
                            lemma_models(vargs@);
                        }
                        Ok(step_first(values, from))
                    } else {
                        proof {
                            lemma_models(vargs@);
                        }
                        Err(MatchError::UnsupportedComponent)
                    }
                },
                _ => Ok(step_no_match(from)),
            }
        },
        SyntaxComponent::Value { value, .. } => {
            if v.same_value(value) {
                Ok(step_first(values, from))
            } else {
                Ok(step_no_match(from))
            }
        },
        SyntaxComponent::Property { .. } => Err(MatchError::UnsupportedComponent),
        SyntaxComponent::Group { .. } => Err(MatchError::UnsupportedComponent),
    }
}

/// Whether the string equals one of the entries of the list, over a list of
/// owned strings.
fn str_in_list_owned(s: &str, list: &Vec<String>) -> (r: bool)
    ensures
        r == seq_in_list(s@, list@.map_values(|u: String| u@)),
{
    let mut i: usize = 0;
    while i < list.len()
        invariant
            i <= list@.len(),
            forall|j: int| 0 <= j < i ==> list@[j]@ != s@,
        decreases list@.len() - i,
    {
        if str_eq(list[i].as_str(), s) {
            proof {
                assert(list@.map_values(|u: String| u@)[i as int] == s@);
            }
            return true;
        }
        i = i + 1;
    }
    proof {
        let mapped = list@.map_values(|u: String| u@);
        assert forall|j: int| 0 <= j < mapped.len() implies #[trigger] mapped[j] != s@ by {
            assert(mapped[j] == list@[j]@);
        }
    }
    false
}

/// Matches one component against the values from `from` on.
fn m_component(values: &Vec<CssValue>, from: usize, c: &SyntaxComponent) -> (r: Result<
    Step,
    MatchError,
>)
    requires
        values@.len() < usize::MAX,
        from <= values@.len(),
    ensures
        match r {
            Ok(st) => step_models(st, values@, from as int, match_component_m(
                c.model(),
                tail(values@, from as int),
            )),
            Err(_) => match_component_m(c.model(), tail(values@, from as int))
                == MatchOutcome::Unsupported,
        },
    decreases c, 6int, 0int, 0int,
{
    match c.get_multiplier() {
        SyntaxComponentMultiplier::CommaSeparatedRepeat(min, max) => {
            let acc: Vec<CssValue> = Vec::new();
            proof {
                lemma_models(acc@);
                assert(models(acc@) =~= Seq::<ValueModel>::empty());
            }
            m_csv_loop(values, from, from, c, 0, acc, min, max)
        },
        _ => m_inner(values, from, c),
    }
}

/// The repetition engine entry: an empty input matches exactly when the
/// multiplier tolerates zero occurrences.
fn m_inner(values: &Vec<CssValue>, from: usize, c: &SyntaxComponent) -> (r: Result<
    Step,
    MatchError,
>)
    requires
        values@.len() < usize::MAX,
        from <= values@.len(),
    ensures
        match r {
            Ok(st) => step_models(st, values@, from as int, match_inner(
                c.model(),
                tail(values@, from as int),
            )),
            Err(_) => match_inner(c.model(), tail(values@, from as int))
                == MatchOutcome::Unsupported,
        },
    decreases c, 4int, 0int, 0int,
{
    proof {
        tail_facts(values@, from as int);
    }
    if from == values.len() {
        let f = multiplier_fulfilled(c, 0);
        if matches!(f, Fulfillment::Fulfilled) || matches!(f, Fulfillment::FulfilledButMoreAllowed) {
            let st = step_no_match(from);
            let res = Step { matched: true, matched_values: st.matched_values, rem_from: from };
            proof {
                assert(tail(values@, from as int) =~= Seq::<ValueModel>::empty());
            }
            return Ok(res);
        }
        return Ok(step_no_match(from));
    }
    let acc: Vec<CssValue> = Vec::new();
    proof {
        lemma_models(acc@);
        assert(models(acc@) =~= Seq::<ValueModel>::empty());
    }
    m_inner_loop(values, from, from, c, 0, acc)
}

/// The repetition loop: unit matches are attempted while the multiplier
/// wants or allows more.
fn m_inner_loop(
    values: &Vec<CssValue>,
    from0: usize,
    cur_from: usize,
    c: &SyntaxComponent,
    count: usize,
    acc: Vec<CssValue>,
) -> (r: Result<Step, MatchError>)
    requires
        values@.len() < usize::MAX,
        from0 <= cur_from <= values@.len(),
        count <= cur_from - from0,
    ensures
        match r {
            Ok(st) => step_models(st, values@, from0 as int, match_inner_loop(
                c.model(),
                tail(values@, from0 as int),
                tail(values@, cur_from as int),
                count as nat,
                models(acc@),
            )),
            Err(_) => match_inner_loop(
                c.model(),
                tail(values@, from0 as int),
                tail(values@, cur_from as int),
                count as nat,
                models(acc@),
            ) == MatchOutcome::Unsupported,
        },
    decreases c, 3int, values@.len() - cur_from, 0int,
{
    let _input_len = values.len();
    proof {
        tail_facts(values@, cur_from as int);
        tail_facts(values@, from0 as int);
    }
    let ur = m_unit(values, cur_from, c);
    match ur {
        Err(e) => Err(e),
        Ok(st) => {
            proof {
                tail_facts(values@, st.rem_from as int);
            }
            if st.matched {
                match multiplier_fulfilled(c, count + 1) {
                    Fulfillment::Fulfilled => Ok(st),
                    Fulfillment::NotFulfilled => {
                        Ok(step_no_match(from0))
                    },
                    Fulfillment::NotYetFulfilled => {
                        if st.rem_from == values.len() {
                            Ok(step_no_match(from0))
                        } else if st.rem_from <= cur_from {
                            proof {
                                tail_facts(values@, st.rem_from as int);
                            }
                            Ok(step_no_match(from0))
                        } else {
                            let mut acc2 = acc;
                            let mut mv = st.matched_values;
                            proof {
                                tail_facts(values@, st.rem_from as int);
                            }
                            let ghost a0 = acc2@;
                            let ghost mv0 = mv@;
                            acc2.append(&mut mv);
                            proof {
                                lemma_models_add(a0, mv0);
                            }
                            m_inner_loop(values, from0, st.rem_from, c, count + 1, acc2)
                        }
                    },
                    Fulfillment::FulfilledButMoreAllowed => {
                        if st.rem_from == values.len() {
                            Ok(st)
                        } else if st.rem_from <= cur_from {
                            proof {
                                tail_facts(values@, st.rem_from as int);
                            }
                            Ok(step_no_match(from0))
                        } else {
                            let mut acc2 = acc;
                            let mut mv = st.matched_values;
                            proof {
                                tail_facts(values@, st.rem_from as int);
                            }
                            let ghost a0 = acc2@;
                            let ghost mv0 = mv@;
                            acc2.append(&mut mv);
                            proof {
                                lemma_models_add(a0, mv0);
                            }
                            m_inner_loop(values, from0, st.rem_from, c, count + 1, acc2)
                        }
                    },
                }
            } else {
                match multiplier_fulfilled(c, count) {
                    Fulfillment::NotYetFulfilled => Ok(step_no_match(cur_from)),
                    Fulfillment::Fulfilled => Ok(step_no_match(cur_from)),
                    Fulfillment::FulfilledButMoreAllowed => Ok(
                        Step { matched: true, matched_values: acc, rem_from: cur_from },
                    ),
                    Fulfillment::NotFulfilled => Ok(step_no_match(from0)),
                }
            }
        },
    }
}

/// One unit attempt: a group match for groups, a leaf match otherwise.
fn m_unit(values: &Vec<CssValue>, from: usize, c: &SyntaxComponent) -> (r: Result<
    Step,
    MatchError,
>)
    requires
        values@.len() < usize::MAX,
        from <= values@.len(),
    ensures
        match r {
            Ok(st) => step_models(st, values@, from as int, match_unit(
                c.model(),
                tail(values@, from as int),
            )),
            Err(_) => match_unit(c.model(), tail(values@, from as int))
                == MatchOutcome::Unsupported,
        },
    decreases c, 2int, 0int, 0int,
{
    if c.is_group() {
        m_group(values, from, c)
    } else {
        m_single(values, from, c)
    }
}

/// A group match dispatches on the combinator.
fn m_group(values: &Vec<CssValue>, from: usize, c: &SyntaxComponent) -> (r: Result<
    Step,
    MatchError,
>)
    requires
        values@.len() < usize::MAX,
        from <= values@.len(),
    ensures
        match r {
            Ok(st) => step_models(st, values@, from as int, match_group_m(
                c.model(),
                tail(values@, from as int),
            )),
            Err(_) => match_group_m(c.model(), tail(values@, from as int))
                == MatchOutcome::Unsupported,
        },
    decreases c, 1int, 0int, 0int,
{
    let acc: Vec<CssValue> = Vec::new();
    proof {
        lemma_models(acc@);
        assert(models(acc@) =~= Seq::<ValueModel>::empty());
    }
    match c {
        SyntaxComponent::Group { components, combinator, .. } => {
            match combinator {
                GroupCombinators::Juxtaposition => m_juxt(values, from, components, 0, acc, from),
                GroupCombinators::AllAnyOrder => {
                    let n = components.len();
                    let mut done: Vec<bool> = Vec::new();
                    let mut k: usize = 0;
                    while k < n
                        invariant
                            k <= n,
                            done@.len() == k,
                            forall|j: int| 0 <= j < k ==> !done@[j],
                        decreases n - k,
                    {
                        done.push(false);
                        k = k + 1;
                    }
                    proof {
                        assert(done@ =~= Seq::new(comp_models(components@).len(), |i: int| false))
                            by {
                            lemma_comp_models(components@);
                        }
                    }
                    match m_anyorder(values, components, done, 0, n, acc, from) {
                        Err(e) => Err(e),
                        Ok((d2, a2, cf2)) => {
                            let t = count_true_from(&d2, 0);
                            proof {
                                assert(d2@.subrange(0, d2@.len() as int) =~= d2@);
                            }
                            if t == n {
                                proof {
                                    lemma_comp_models(components@);
                                }
                                Ok(Step { matched: true, matched_values: a2, rem_from: cf2 })
                            } else {
                                proof {
                                    lemma_comp_models(components@);
                                }
                                Ok(step_no_match(from))
                            }
                        },
                    }
                },
                GroupCombinators::AtLeastOneAnyOrder => {
                    let n = components.len();
                    let mut done: Vec<bool> = Vec::new();
                    let mut k: usize = 0;
                    while k < n
                        invariant
                            k <= n,
                            done@.len() == k,
                            forall|j: int| 0 <= j < k ==> !done@[j],
                        decreases n - k,
                    {
                        done.push(false);
                        k = k + 1;
                    }
                    proof {
                        assert(done@ =~= Seq::new(comp_models(components@).len(), |i: int| false))
                            by {
                            lemma_comp_models(components@);
                        }
                    }
                    match m_anyorder(values, components, done, 0, n, acc, from) {
                        Err(e) => Err(e),
                        Ok((d2, a2, cf2)) => {
                            let t = count_true_from(&d2, 0);
                            proof {
                                assert(d2@.subrange(0, d2@.len() as int) =~= d2@);
                            }
                            if t > 0 {
                                Ok(Step { matched: true, matched_values: a2, rem_from: cf2 })
                            } else {
                                Ok(step_no_match(from))
                            }
                        },
                    }
                },
                GroupCombinators::ExactlyOne => m_exactly(values, from, components, 0, None),
            }
        },
        _ => Err(MatchError::UnsupportedComponent),
    }
}

/// The ordered pass over a juxtaposition group's children.
fn m_juxt(
    values: &Vec<CssValue>,
    from0: usize,
    children: &Vec<SyntaxComponent>,
    i: usize,
    acc: Vec<CssValue>,
    cur_from: usize,
) -> (r: Result<Step, MatchError>)
    requires
        values@.len() < usize::MAX,
        from0 <= cur_from <= values@.len(),
        i <= children@.len(),
    ensures
        match r {
            Ok(st) => step_models(st, values@, from0 as int, match_juxtaposition(
                comp_models(children@),
                tail(values@, from0 as int),
                i as int,
                models(acc@),
                tail(values@, cur_from as int),
            )),
            Err(_) => match_juxtaposition(
                comp_models(children@),
                tail(values@, from0 as int),
                i as int,
                models(acc@),
                tail(values@, cur_from as int),
            ) == MatchOutcome::Unsupported,
        },
    decreases children@, 0int, children@.len() - i, 0int,
{
    proof {
        lemma_comp_models(children@);
    }
    if i == children.len() {
        return Ok(Step { matched: true, matched_values: acc, rem_from: cur_from });
    }
    match m_component(values, cur_from, &children[i]) {
        Err(e) => Err(e),
        Ok(st) => {
            if st.matched {
                let mut acc2 = acc;
                let mut mv = st.matched_values;
                let ghost a0 = acc2@;
                let ghost mv0 = mv@;
                acc2.append(&mut mv);
                proof {
                    lemma_models_add(a0, mv0);
                }
                m_juxt(values, from0, children, i + 1, acc2, st.rem_from)
            } else {
                Ok(step_no_match(from0))
            }
        },
    }
}

/// The scanning engine shared by the two any-order combinators.
fn m_anyorder(
    values: &Vec<CssValue>,
    children: &Vec<SyntaxComponent>,
    done: Vec<bool>,
    c_idx: usize,
    remaining: usize,
    acc: Vec<CssValue>,
    cur_from: usize,
) -> (r: Result<(Vec<bool>, Vec<CssValue>, usize), MatchError>)
    requires
        values@.len() < usize::MAX,
        cur_from <= values@.len(),
        c_idx <= children@.len(),
        done@.len() == children@.len(),
    ensures
        match r {
            Ok(out) => cur_from <= out.2 <= values@.len() && out.0@.len() == children@.len()
                && match_any_order_scan(
                comp_models(children@),
                done@,
                c_idx as int,
                remaining as nat,
                models(acc@),
                tail(values@, cur_from as int),
            ) == Some((out.0@, models(out.1@), tail(values@, out.2 as int))),
            Err(_) => match_any_order_scan(
                comp_models(children@),
                done@,
                c_idx as int,
                remaining as nat,
                models(acc@),
                tail(values@, cur_from as int),
            ) is None,
        },
    decreases children@, 0int, remaining, children@.len() - c_idx,
{
    proof {
        lemma_comp_models(children@);
        tail_facts(values@, cur_from as int);
    }
    if c_idx == children.len() {
        return Ok((done, acc, cur_from));
    }
    if cur_from == values.len() {
        return Ok((done, acc, cur_from));
    }
    if done[c_idx] {
        return m_anyorder(values, children, done, c_idx + 1, remaining, acc, cur_from);
    }
    match m_component(values, cur_from, &children[c_idx]) {
        Err(e) => Err(e),
        Ok(st) => {
            if st.matched {
                if remaining > 0 {
                    let mut d2 = done;
                    d2.set(c_idx, true);
                    let mut acc2 = acc;
                    let mut mv = st.matched_values;
                    let ghost a0 = acc2@;
                    let ghost mv0 = mv@;
                    acc2.append(&mut mv);
                    proof {
                        lemma_models_add(a0, mv0);
                    }
                    m_anyorder(values, children, d2, 0, remaining - 1, acc2, st.rem_from)
                } else {
                    Ok((done, acc, cur_from))
                }
            } else {
                m_anyorder(values, children, done, c_idx + 1, remaining, acc, cur_from)
            }
        },
    }
}

/// The specification-side view of the running best candidate of an
/// exactly-one scan.
pub open spec fn best_model(
    best: Option<(Vec<CssValue>, usize)>,
    values: Seq<CssValue>,
) -> Option<(Seq<ValueModel>, Seq<ValueModel>)> {
    match best {
        Option::None => Option::None,
        Option::Some((mv, rf)) => Option::Some((models(mv@), tail(values, rf as int))),
    }
}

/// The pass over an exactly-one group's children, keeping the candidate with
/// the shortest remainder.
fn m_exactly(
    values: &Vec<CssValue>,
    from0: usize,
    children: &Vec<SyntaxComponent>,
    i: usize,
    best: Option<(Vec<CssValue>, usize)>,
) -> (r: Result<Step, MatchError>)
    requires
        values@.len() < usize::MAX,
        from0 <= values@.len(),
        i <= children@.len(),
        match best {
            Option::Some((_, rf)) => from0 <= rf <= values@.len(),
            Option::None => true,
        },
    ensures
        match r {
            Ok(st) => step_models(st, values@, from0 as int, match_exactly_one_scan(
                comp_models(children@),
                tail(values@, from0 as int),
                i as int,
                best_model(best, values@),
            )),
            Err(_) => match_exactly_one_scan(
                comp_models(children@),
                tail(values@, from0 as int),
                i as int,
                best_model(best, values@),
            ) == MatchOutcome::Unsupported,
        },
    decreases children@, 0int, children@.len() - i, 0int,
{
    proof {
        lemma_comp_models(children@);
        tail_facts(values@, from0 as int);
    }
    if i == children.len() || from0 == values.len() {
        return match best {
            Option::None => Ok(step_no_match(from0)),
            Option::Some((mv, rf)) => Ok(Step { matched: true, matched_values: mv, rem_from: rf }),
        };
    }
    match m_component(values, from0, &children[i]) {
        Err(e) => Err(e),
        Ok(st) => {
            let best1 = if st.matched {
                match best {
                    Option::None => {
                        proof {
                            tail_facts(values@, st.rem_from as int);
                        }
                        Some((st.matched_values, st.rem_from))
                    },
                    Option::Some((bm, brf)) => {
                        proof {
                            tail_facts(values@, st.rem_from as int);
                            tail_facts(values@, brf as int);
                        }
                        if values.len() - st.rem_from < values.len() - brf {
                            Some((st.matched_values, st.rem_from))
                        } else {
                            Some((bm, brf))
                        }
                    },
                }
            } else {
                best
            };
            m_exactly(values, from0, children, i + 1, best1)
        },
    }
}

/// The comma-separated repetition loop.
fn m_csv_loop(
    values: &Vec<CssValue>,
    from0: usize,
    cur_from: usize,
    c: &SyntaxComponent,
    cnt: usize,
    acc: Vec<CssValue>,
    min: usize,
    max: usize,
) -> (r: Result<Step, MatchError>)
    requires
        values@.len() < usize::MAX,
        from0 <= cur_from <= values@.len(),
        cnt <= cur_from - from0,
    ensures
        match r {
            Ok(st) => step_models(st, values@, from0 as int, match_csv_loop(
                c.model(),
                tail(values@, from0 as int),
                tail(values@, cur_from as int),
                cnt as nat,
                models(acc@),
                min as nat,
                max as nat,
            )),
            Err(_) => match_csv_loop(
                c.model(),
                tail(values@, from0 as int),
                tail(values@, cur_from as int),
                cnt as nat,
                models(acc@),
                min as nat,
                max as nat,
            ) == MatchOutcome::Unsupported,
        },
    decreases c, 5int, values@.len() - cur_from, 0int,
{
    proof {
        tail_facts(values@, cur_from as int);
        tail_facts(values@, from0 as int);
    }
    match m_inner(values, cur_from, c) {
        Err(e) => Err(e),
        Ok(st) => {
            if !st.matched {
                if min <= cnt && cnt <= max {
                    Ok(Step { matched: true, matched_values: acc, rem_from: cur_from })
                } else {
                    Ok(step_no_match(from0))
                }
            } else {
                let _input_len = values.len();
                let cnt1 = cnt + 1;
                let mut acc2 = acc;
                let mut mv = st.matched_values;
                let ghost a0 = acc2@;
                let ghost mv0 = mv@;
                acc2.append(&mut mv);
                proof {
                    lemma_models_add(a0, mv0);
                }
                if st.rem_from == values.len() {
                    proof {
                        tail_facts(values@, st.rem_from as int);
                    }
                    if min <= cnt1 && cnt1 <= max {
                        Ok(Step { matched: true, matched_values: acc2, rem_from: st.rem_from })
                    } else {
                        Ok(step_no_match(from0))
                    }
                } else {
                    proof {
                        tail_facts(values@, st.rem_from as int);
                    }
                    if !values[st.rem_from].is_comma() {
                        Ok(step_no_match(from0))
                    } else {
                        let after_from = st.rem_from + 1;
                        proof {
                            tail_facts(values@, after_from as int);
                        }
                        if after_from == values.len() {
                            Ok(step_no_match(from0))
                        } else if after_from <= cur_from {
                            Ok(step_no_match(from0))
                        } else {
                            m_csv_loop(values, from0, after_from, c, cnt1, acc2, min, max)
                        }
                    }
                }
            }
        },
    }
}

/// The number of `true` flags from position `i` on.
fn count_true_from(v: &Vec<bool>, i: usize) -> (r: usize)
    requires
        i <= v@.len(),
    ensures
        r == count_matched(v@.subrange(i as int, v@.len() as int)),
        r <= v@.len() - i,
    decreases v@.len() - i,
{
    if i == v.len() {
        proof {
            assert(v@.subrange(i as int, v@.len() as int) =~= Seq::<bool>::empty());
        }
        return 0;
    }
    let rest = count_true_from(v, i + 1);
    proof {
        let s = v@.subrange(i as int, v@.len() as int);
        assert(s[0] == v@[i as int]);
        assert(s.subrange(1, s.len() as int) =~= v@.subrange(i as int + 1, v@.len() as int));
    }
    if v[i] {
        rest + 1
    } else {
        rest
    }
}

/// A public match result: whether the component matched, the values it
/// consumed, and the unconsumed remainder of the input.
#[derive(Debug, PartialEq)]
pub struct MatchResult {
    /// The values that were not matched: the unconsumed suffix of the input.
    pub remainder: Vec<CssValue>,
    /// True when the match succeeded.
    pub matched: bool,
    /// The values that were matched.
    pub matched_values: Vec<CssValue>,
}

impl MatchResult {
    /// The result as a mathematical value.
    pub open spec fn model(&self) -> MatchModel {
        MatchModel {
            matched: self.matched,
            matched_values: models(self.matched_values@),
            remainder: models(self.remainder@),
        }
    }
}

/// The result that a public matching function hands out for an outcome: the
/// failed match when the component is unsupported.
pub open spec fn settled(o: MatchOutcome, input: Seq<ValueModel>) -> MatchModel {
    match o {
        MatchOutcome::Res(m) => m,
        MatchOutcome::Unsupported => no_match_of(input),
    }
}

/// Copies the values from `from` on.
fn copy_tail(values: &Vec<CssValue>, from: usize) -> (r: Vec<CssValue>)
    requires
        from <= values@.len(),
    ensures
        models(r@) == tail(values@, from as int),
{
    let mut out: Vec<CssValue> = Vec::new();
    let mut i: usize = from;
    proof {
        lemma_models(values@);
        lemma_models(out@);
        assert(models(out@) =~= Seq::<ValueModel>::empty());
    }
    while i < values.len()
        invariant
            from <= i <= values@.len(),
            models(values@).len() == values@.len(),
            forall|j: int| 0 <= j < values@.len() ==> models(values@)[j] == values@[j].model(),
            models(out@).len() == i - from,
            forall|j: int|
                0 <= j < i - from ==> models(out@)[j] == models(values@)[from + j],
        decreases values@.len() - i,
    {
        let d = values[i].duplicate();
        proof {
            lemma_models_push(out@, d);
        }
        out.push(d);
        i = i + 1;
    }
    proof {
        assert(models(out@) =~= tail(values@, from as int));
    }
    out
}

/// Builds the public result from an internal step.
fn step_to_result(values: &Vec<CssValue>, st: Step) -> (r: MatchResult)
    requires
        st.rem_from <= values@.len(),
    ensures
        r.model() == (MatchModel {
            matched: st.matched,
            matched_values: models(st.matched_values@),
            remainder: tail(values@, st.rem_from as int),
        }),
{
    let remainder = copy_tail(values, st.rem_from);
    MatchResult { remainder, matched: st.matched, matched_values: st.matched_values }
}

/// The failed public result: the input returned untouched.
fn result_no_match(values: &Vec<CssValue>) -> (r: MatchResult)
    ensures
        r.model() == no_match_of(models(values@)),
{
    let remainder = crate::values::duplicate_values(values);
    let matched_values: Vec<CssValue> = Vec::new();
    proof {
        lemma_models(matched_values@);
        assert(models(matched_values@) =~= Seq::<ValueModel>::empty());
    }
    MatchResult { remainder, matched: false, matched_values }
}

/// Matches a component, with its multiplier, against the input values.
/// After the match there may be unconsumed values; they are handed back in
/// the result's remainder.  An unsupported component gives the failed match.
pub fn match_component(raw_input: &Vec<CssValue>, component: &SyntaxComponent) -> (r: MatchResult)
    requires
        raw_input@.len() < usize::MAX,
    ensures
        r.model() == settled(
            match_component_m(component.model(), models(raw_input@)),
            models(raw_input@),
        ),
{
    proof {
        assert(tail(raw_input@, 0) =~= models(raw_input@));
    }
    match m_component(raw_input, 0, component) {
        Ok(st) => step_to_result(raw_input, st),
        Err(_) => result_no_match(raw_input),
    }
}

/// Matches the children of a juxtaposition group, in order, against the
/// input.  An unsupported child gives the failed match.
pub fn match_group_juxtaposition(
    raw_input: &Vec<CssValue>,
    components: &Vec<SyntaxComponent>,
) -> (r: MatchResult)
    requires
        raw_input@.len() < usize::MAX,
    ensures
        r.model() == settled(
            match_juxtaposition(
                comp_models(components@),
                models(raw_input@),
                0,
                Seq::empty(),
                models(raw_input@),
            ),
            models(raw_input@),
        ),
{
    let acc: Vec<CssValue> = Vec::new();
    proof {
        lemma_models(acc@);
        assert(models(acc@) =~= Seq::<ValueModel>::empty());
        assert(tail(raw_input@, 0) =~= models(raw_input@));
    }
    match m_juxt(raw_input, 0, components, 0, acc, 0) {
        Ok(st) => step_to_result(raw_input, st),
        Err(_) => result_no_match(raw_input),
    }
}

/// Builds the all-false flags for a scan.
fn fresh_flags(n: usize) -> (r: Vec<bool>)
    ensures
        r@ == Seq::new(n as nat, |i: int| false),
{
    let mut done: Vec<bool> = Vec::new();
    let mut k: usize = 0;
    while k < n
        invariant
            k <= n,
            done@.len() == k,
            forall|j: int| 0 <= j < k ==> !done@[j],
        decreases n - k,
    {
        done.push(false);
        k = k + 1;
    }
    proof {
        assert(done@ =~= Seq::new(n as nat, |i: int| false));
    }
    done
}

/// Matches an all-any-order group (`&&`): every child must match once, in
/// any order.  An unsupported child gives the failed match.
pub fn match_group_all_any_order(
    raw_input: &Vec<CssValue>,
    components: &Vec<SyntaxComponent>,
) -> (r: MatchResult)
    requires
        raw_input@.len() < usize::MAX,
    ensures
        r.model() == settled(
            match_all_any_order(comp_models(components@), models(raw_input@)),
            models(raw_input@),
        ),
{
    let acc: Vec<CssValue> = Vec::new();
    let n = components.len();
    proof {
        lemma_models(acc@);
        lemma_comp_models(components@);
        assert(models(acc@) =~= Seq::<ValueModel>::empty());
        assert(tail(raw_input@, 0) =~= models(raw_input@));
    }
    let done = fresh_flags(n);
    match m_anyorder(raw_input, components, done, 0, n, acc, 0) {
        Err(_) => result_no_match(raw_input),
        Ok((d2, a2, cf2)) => {
            let t = count_true_from(&d2, 0);
            proof {
                assert(d2@.subrange(0, d2@.len() as int) =~= d2@);
            }
            if t == n {
                step_to_result(
                    raw_input,
                    Step { matched: true, matched_values: a2, rem_from: cf2 },
                )
            } else {
                result_no_match(raw_input)
            }
        },
    }
}

/// Matches an at-least-one-any-order group (`||`): at least one child must
/// match, in any order.  An unsupported child gives the failed match.
pub fn match_group_at_least_one_any_order(
    raw_input: &Vec<CssValue>,
    components: &Vec<SyntaxComponent>,
) -> (r: MatchResult)
    requires
        raw_input@.len() < usize::MAX,
    ensures
        r.model() == settled(
            match_at_least_one_any_order(comp_models(components@), models(raw_input@)),
            models(raw_input@),
        ),
{
    let acc: Vec<CssValue> = Vec::new();
    let n = components.len();
    proof {
        lemma_models(acc@);
        lemma_comp_models(components@);
        assert(models(acc@) =~= Seq::<ValueModel>::empty());
        assert(tail(raw_input@, 0) =~= models(raw_input@));
    }
    let done = fresh_flags(n);
    match m_anyorder(raw_input, components, done, 0, n, acc, 0) {
        Err(_) => result_no_match(raw_input),
        Ok((d2, a2, cf2)) => {
            let t = count_true_from(&d2, 0);
            proof {
                assert(d2@.subrange(0, d2@.len() as int) =~= d2@);
            }
            if t > 0 {
                step_to_result(
                    raw_input,
                    Step { matched: true, matched_values: a2, rem_from: cf2 },
                )
            } else {
                result_no_match(raw_input)
            }
        },
    }
}

/// Matches an exactly-one group (`|`): every child is tried on the same
/// input; the child with the shortest remainder wins, ties going to the
/// earliest child.  An unsupported child gives the failed match.
pub fn match_group_exactly_one(
    raw_input: &Vec<CssValue>,
    components: &Vec<SyntaxComponent>,
) -> (r: MatchResult)
    requires
        raw_input@.len() < usize::MAX,
    ensures
        r.model() == settled(
            match_exactly_one_scan(
                comp_models(components@),
                models(raw_input@),
                0,
                Option::None,
            ),
            models(raw_input@),
        ),
{
    proof {
        assert(tail(raw_input@, 0) =~= models(raw_input@));
    }
    match m_exactly(raw_input, 0, components, 0, None) {
        Ok(st) => step_to_result(raw_input, st),
        Err(_) => result_no_match(raw_input),
    }
}

/// A compiled value definition grammar: a tree of syntax components.
#[derive(Debug, PartialEq)]
pub struct CssSyntaxTree {
    /// The root components of the tree.  A tree ready for matching has
    /// exactly one root; the empty tree stands for a property that declares
    /// no constrained syntax.
    pub components: Vec<SyntaxComponent>,
}

impl CssSyntaxTree {
    /// Creates a syntax tree from the given components.
    pub fn new(components: Vec<SyntaxComponent>) -> (r: Self)
        ensures
            r.components == components,
    {
        CssSyntaxTree { components }
    }

    /// Matches a sequence of values against the tree: true exactly when the
    /// root consumes the whole input.  The tree must have exactly one root
    /// component.  Unsupported components never match.
    pub fn matches(&self, input: Vec<CssValue>) -> (r: bool)
        requires
            self.components@.len() == 1,
            input@.len() < usize::MAX,
        ensures
            r == spec_matches(self.components@[0].model(), models(input@)),
    {
        let res = match_component(&input, &self.components[0]);
        proof {
            lemma_models(res.remainder@);
        }
        let empty_rem = res.remainder.len() == 0;
        res.matched && empty_rem
    }

    /// Matches a sequence of values and hands back the full result, or the
    /// error when the tree holds a component that cannot be matched.
    pub fn match_values(&self, input: &Vec<CssValue>) -> (r: Result<MatchResult, MatchError>)
        requires
            self.components@.len() == 1,
            input@.len() < usize::MAX,
        ensures
            match r {
                Ok(mr) => match_component_m(self.components@[0].model(), models(input@))
                    == MatchOutcome::Res(mr.model()),
                Err(_) => match_component_m(self.components@[0].model(), models(input@))
                    == MatchOutcome::Unsupported,
            },
    {
        proof {
            assert(tail(input@, 0) =~= models(input@));
        }
        match m_component(input, 0, &self.components[0]) {
            Ok(st) => Ok(step_to_result(input, st)),
            Err(e) => Err(e),
        }
    }
}

/// Matching is a pure function of the tree and the input: two matches of the
/// same component against the same values give the same outcome, and a full
/// match decision never depends on anything outside its two arguments.
pub proof fn lemma_matching_deterministic(
    c: ComponentModel,
    input: Seq<ValueModel>,
    c2: ComponentModel,
    input2: Seq<ValueModel>,
)
    requires
        c == c2,
        input == input2,
    ensures
        match_component_m(c, input) == match_component_m(c2, input2),
        spec_matches(c, input) == spec_matches(c2, input2),
{
}

} // verus!
