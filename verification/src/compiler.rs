//! The grammar compiler: a recursive-descent parser that turns a value
//! definition syntax string into a component tree.  Every function here is
//! proved to produce exactly what the specification functions in
//! `grammar_spec` define.

use vstd::prelude::*;

use crate::errors::Error;
use crate::grammar_spec::{
    alpha_end, digit_val, digits_end, digits_val, is_alpha, is_digit, is_kw_char, is_sp, is_ws,
    kof_end, kw_end, max_magnitude, p_ampersand_rest, p_component, p_curly_multiplier,
    p_datatype, p_datatype_range, p_decimal, p_doubleampersand, p_doublebar, p_doublebar_rest,
    p_function, p_generic_keyword, p_group, p_hash_multiplier, p_integer, p_juxt_rest,
    p_juxtaposition, p_literal, p_multiplier, p_number_or_infinity, p_property, p_range_pair,
    p_singlebar, p_singlebar_rest, p_specific_keyword, p_suffixes, p_unit_function, p_unit_inner,
    p_unit_value, pow10, quote_end, skip_sp, skip_ws, spec_compile, starts_with_at, collapse,
    CompileModel,
};
use crate::strings::{lower_char, lower_char_x, push_char, str_chars};
use crate::syntax::{
    comp_models, lemma_comp_models, lemma_comp_models_push, ComponentModel, CssSyntax,
    GroupCombinators, NumberOrInfinity, RangeType, SyntaxComponent, SyntaxComponentMultiplier,
};
use crate::matcher::CssSyntaxTree;
use crate::values::{CssNumber, CssValue};

verus! {

/// How an optional component result realises its specification counterpart.
pub open spec fn cres_models(
    r: Option<(SyntaxComponent, usize)>,
    s: Option<(ComponentModel, int)>,
) -> bool {
    match r {
        Option::None => s is None,
        Option::Some((c, p)) => s == Option::Some((c.model(), p as int)),
    }
}

/// Whether the executable character test mirrors `is_ws`.
fn e_is_ws(c: char) -> (r: bool)
    ensures
        r == is_ws(c),
{
    c == ' ' || c == '\t' || c == '\n' || c == '\r'
}

/// Whether the character is plain spacing.
fn e_is_sp(c: char) -> (r: bool)
    ensures
        r == is_sp(c),
{
    c == ' ' || c == '\t'
}

/// Whether the character is an ASCII digit.
fn e_is_digit(c: char) -> (r: bool)
    ensures
        r == is_digit(c),
{
    let u = c as u32;
    48 <= u && u <= 57
}

/// Whether the character is an ASCII letter.
fn e_is_alpha(c: char) -> (r: bool)
    ensures
        r == is_alpha(c),
{
    let u = c as u32;
    (65 <= u && u <= 90) || (97 <= u && u <= 122)
}

/// Whether the character may appear in a keyword.
fn e_is_kw_char(c: char) -> (r: bool)
    ensures
        r == is_kw_char(c),
{
    e_is_alpha(c) || e_is_digit(c) || c == '-'
}

/// Skips whitespace from `pos` on.
fn e_skip_ws(src: &Vec<char>, pos: usize) -> (r: usize)
    requires
        pos <= src@.len(),
    ensures
        r == skip_ws(src@, pos as int),
        pos <= r <= src@.len(),
{
    let mut i = pos;
    while i < src.len() && e_is_ws(src[i])
        invariant
            pos <= i <= src@.len(),
            skip_ws(src@, pos as int) == skip_ws(src@, i as int),
        decreases src@.len() - i,
    {
        i = i + 1;
    }
    i
}

/// Skips plain spacing from `pos` on.
fn e_skip_sp(src: &Vec<char>, pos: usize) -> (r: usize)
    requires
        pos <= src@.len(),
    ensures
        r == skip_sp(src@, pos as int),
        pos <= r <= src@.len(),
{
    let mut i = pos;
    while i < src.len() && e_is_sp(src[i])
        invariant
            pos <= i <= src@.len(),
            skip_sp(src@, pos as int) == skip_sp(src@, i as int),
        decreases src@.len() - i,
    {
        i = i + 1;
    }
    i
}

/// The end of the keyword run from `pos` on.
fn e_kw_end(src: &Vec<char>, pos: usize) -> (r: usize)
    requires
        pos <= src@.len(),
    ensures
        r == kw_end(src@, pos as int),
        pos <= r <= src@.len(),
{
    let mut i = pos;
    while i < src.len() && e_is_kw_char(src[i])
        invariant
            pos <= i <= src@.len(),
            kw_end(src@, pos as int) == kw_end(src@, i as int),
        decreases src@.len() - i,
    {
        i = i + 1;
    }
    i
}

/// The end of the digit run from `pos` on.
fn e_digits_end(src: &Vec<char>, pos: usize) -> (r: usize)
    requires
        pos <= src@.len(),
    ensures
        r == digits_end(src@, pos as int),
        pos <= r <= src@.len(),
{
    let mut i = pos;
    while i < src.len() && e_is_digit(src[i])
        invariant
            pos <= i <= src@.len(),
            digits_end(src@, pos as int) == digits_end(src@, i as int),
        decreases src@.len() - i,
    {
        i = i + 1;
    }
    i
}

/// The end of the letter run from `pos` on.
fn e_alpha_end(src: &Vec<char>, pos: usize) -> (r: usize)
    requires
        pos <= src@.len(),
    ensures
        r == alpha_end(src@, pos as int),
        pos <= r <= src@.len(),
{
    let mut i = pos;
    while i < src.len() && e_is_alpha(src[i])
        invariant
            pos <= i <= src@.len(),
            alpha_end(src@, pos as int) == alpha_end(src@, i as int),
        decreases src@.len() - i,
    {
        i = i + 1;
    }
    i
}

/// The text `src[a..b]` as a string.
fn chars_to_string(src: &Vec<char>, a: usize, b: usize) -> (r: String)
    requires
        a <= b <= src@.len(),
    ensures
        r@ == src@.subrange(a as int, b as int),
{
    let mut out = String::new();
    let mut i = a;
    while i < b
        invariant
            a <= i <= b <= src@.len(),
            out@ == src@.subrange(a as int, i as int),
        decreases b - i,
    {
        push_char(&mut out, src[i]);
        i = i + 1;
        proof {
            assert(out@ =~= src@.subrange(a as int, i as int));
        }
    }
    proof {
        assert(out@ =~= src@.subrange(a as int, b as int));
    }
    out
}

/// Whether the text at `pos` begins with the given word.
fn e_match_word(src: &Vec<char>, pos: usize, w: &str) -> (r: bool)
    requires
        pos <= src@.len(),
    ensures
        r == starts_with_at(src@, pos as int, w@),
{
    let wc = str_chars(w);
    if src.len() - pos < wc.len() {
        return false;
    }
    let mut i: usize = 0;
    while i < wc.len()
        invariant
            wc@ == w@,
            pos + wc@.len() <= src@.len(),
            i <= wc@.len(),
            forall|j: int| 0 <= j < i ==> src@[pos + j] == wc@[j],
        decreases wc@.len() - i,
    {
        let _src_len = src.len();
        if src[pos + i] != wc[i] {
            proof {
                assert(src@.subrange(pos as int, pos + w@.len()) != w@) by {
                    assert(src@.subrange(pos as int, pos + w@.len())[i as int] != w@[i as int]);
                }
            }
            return false;
        }
        i = i + 1;
    }
    proof {
        assert(src@.subrange(pos as int, pos + w@.len()) =~= w@);
    }
    true
}

/// Parses an unsigned integer that fits `u32`.
fn e_integer(src: &Vec<char>, pos: usize) -> (r: Option<(u32, usize)>)
    requires
        pos <= src@.len(),
    ensures
        match r {
            Option::Some((v, p)) => p_integer(src@, pos as int) == Option::Some((v, p as int))
                && pos <= p <= src@.len(),
            Option::None => p_integer(src@, pos as int) is None,
        },
{
    proof {
        reveal(crate::grammar_spec::p_integer);
    }
    let end = e_digits_end(src, pos);
    if end == pos {
        return None;
    }
    let mut acc: u64 = 0;
    let mut over: bool = false;
    let mut i = pos;
    proof {
        lemma_digit_run(src@, pos as int, end as int);
        assert(digits_val(src@, pos as int, pos as int) == 0);
    }
    while i < end
        invariant
            pos <= i <= end <= src@.len(),
            end == digits_end(src@, pos as int),
            forall|j: int| pos <= j < end ==> is_digit(#[trigger] src@[j]),
            !over ==> acc == digits_val(src@, pos as int, i as int) && acc <= 4294967295u64,
            over ==> digits_val(src@, pos as int, i as int) > u32::MAX,
        decreases end - i,
    {
        proof {
            assert(is_digit(src@[i as int]));
        }
        let d = (src[i] as u32) - 48;
        if !over {
            let next = acc * 10 + (d as u64);
            if next > 4294967295u64 {
                over = true;
            } else {
                acc = next;
            }
        }
        proof {
            assert(digits_val(src@, pos as int, i as int + 1) == digits_val(
                src@,
                pos as int,
                i as int,
            ) * 10 + digit_val(src@[i as int]));
        }
        i = i + 1;
    }
    if over {
        None
    } else {
        Some((acc as u32, end))
    }
}

/// The characters inside a digit run are digits.
proof fn lemma_digit_run(src: Seq<char>, pos: int, end: int)
    requires
        0 <= pos <= src.len(),
        end == digits_end(src, pos),
    ensures
        forall|j: int| pos <= j < end ==> is_digit(src[j]),
        pos <= end <= src.len(),
    decreases src.len() - pos,
{
    if pos < src.len() && is_digit(src[pos]) {
        lemma_digit_run(src, pos + 1, end);
    }
}

/// Parses one or two integers for a brace or hash range.
fn e_range_pair(src: &Vec<char>, pos: usize) -> (r: Option<((u32, u32), usize)>)
    requires
        pos <= src@.len(),
    ensures
        match r {
            Option::Some(((a, b), p)) => p_range_pair(src@, pos as int) == Option::Some(
                ((a, b), p as int),
            ) && p <= src@.len(),
            Option::None => p_range_pair(src@, pos as int) is None,
        },
{
    proof {
        reveal(crate::grammar_spec::p_range_pair);
    }
    let q1 = e_skip_ws(src, pos);
    match e_integer(src, q1) {
        None => None,
        Some((a, q2)) => {
            let q3 = e_skip_ws(src, q2);
            if q3 < src.len() && src[q3] == ',' {
                let q5 = e_skip_ws(src, q3 + 1);
                match e_integer(src, q5) {
                    Some((b, q6)) => Some(((a, b), e_skip_ws(src, q6))),
                    None => Some(((a, a), q3)),
                }
            } else {
                Some(((a, a), q3))
            }
        },
    }
}

/// Parses a `{n}` or `{n,m}` multiplier.
fn e_curly_multiplier(src: &Vec<char>, pos: usize) -> (r: Option<(
    SyntaxComponentMultiplier,
    usize,
)>)
    requires
        pos <= src@.len(),
    ensures
        match r {
            Option::Some((m, p)) => p_curly_multiplier(src@, pos as int) == Option::Some(
                (m, p as int),
            ) && p <= src@.len(),
            Option::None => p_curly_multiplier(src@, pos as int) is None,
        },
{
    proof {
        reveal(crate::grammar_spec::p_curly_multiplier);
    }
    if pos < src.len() && src[pos] == '{' {
        match e_range_pair(src, pos + 1) {
            None => None,
            Some(((a, b), q)) => {
                if q < src.len() && src[q] == '}' {
                    Some((SyntaxComponentMultiplier::Between(a as usize, b as usize), q + 1))
                } else {
                    None
                }
            },
        }
    } else {
        None
    }
}

/// Parses a `#` or `#{n,m}` multiplier.
fn e_hash_multiplier(src: &Vec<char>, pos: usize) -> (r: Option<(
    SyntaxComponentMultiplier,
    usize,
)>)
    requires
        pos <= src@.len(),
    ensures
        match r {
            Option::Some((m, p)) => p_hash_multiplier(src@, pos as int) == Option::Some(
                (m, p as int),
            ) && p <= src@.len(),
            Option::None => p_hash_multiplier(src@, pos as int) is None,
        },
{
    proof {
        reveal(crate::grammar_spec::p_hash_multiplier);
    }
    let t1 = e_skip_ws(src, pos);
    if t1 < src.len() && t1 + 1 < src.len() && src[t1] == '#' && src[t1 + 1] == '{' {
        match e_range_pair(src, t1 + 2) {
            None => {},
            Some(((a, b), q)) => {
                if q < src.len() && src[q] == '}' {
                    return Some(
                        (
                            SyntaxComponentMultiplier::CommaSeparatedRepeat(
                                a as usize,
                                b as usize,
                            ),
                            e_skip_ws(src, q + 1),
                        ),
                    );
                }
            },
        }
    }
    if t1 < src.len() && src[t1] == '#' {
        let max32: u32 = 4294967295u32;
        return Some(
            (
                SyntaxComponentMultiplier::CommaSeparatedRepeat(1, max32 as usize),
                e_skip_ws(src, t1 + 1),
            ),
        );
    }
    None
}

/// Parses the optional multiplier suffix; absence means `Once`.
fn e_multiplier(src: &Vec<char>, pos: usize) -> (r: (SyntaxComponentMultiplier, usize))
    requires
        pos <= src@.len(),
    ensures
        p_multiplier(src@, pos as int) == (r.0, r.1 as int),
        r.1 <= src@.len(),
{
    proof {
        reveal(crate::grammar_spec::p_multiplier);
    }
    if pos < src.len() && src[pos] == '*' {
        (SyntaxComponentMultiplier::ZeroOrMore, pos + 1)
    } else if pos < src.len() && src[pos] == '+' {
        (SyntaxComponentMultiplier::OneOrMore, pos + 1)
    } else if pos < src.len() && src[pos] == '?' {
        (SyntaxComponentMultiplier::Optional, pos + 1)
    } else if pos < src.len() && src[pos] == '!' {
        (SyntaxComponentMultiplier::AtLeastOneValue, pos + 1)
    } else {
        match e_hash_multiplier(src, pos) {
            Some((m, p)) => (m, p),
            None => match e_curly_multiplier(src, pos) {
                Some((m, p)) => (m, p),
                None => (SyntaxComponentMultiplier::Once, pos),
            },
        }
    }
}

/// Parses a signed integer or an infinity sentinel.
fn e_number_or_infinity(src: &Vec<char>, pos: usize) -> (r: Option<(NumberOrInfinity, usize)>)
    requires
        pos <= src@.len(),
    ensures
        match r {
            Option::Some((v, p)) => p_number_or_infinity(src@, pos as int) == Option::Some(
                (v, p as int),
            ) && p <= src@.len(),
            Option::None => p_number_or_infinity(src@, pos as int) is None,
        },
{
    proof {
        reveal(crate::grammar_spec::p_number_or_infinity);
    }
    let n = src.len();
    if n - pos > 2 && pos < n && lower_char_x(src[pos]) == 'i' && lower_char_x(src[pos + 1])
        == 'n' && lower_char_x(src[pos + 2]) == 'f' {
        return Some((NumberOrInfinity::Infinity, pos + 3));
    }
    if pos < n && src[pos] == '\u{221E}' {
        return Some((NumberOrInfinity::Infinity, pos + 1));
    }
    if n - pos > 3 && pos < n && src[pos] == '-' && lower_char_x(src[pos + 1]) == 'i'
        && lower_char_x(src[pos + 2]) == 'n' && lower_char_x(src[pos + 3]) == 'f' {
        return Some((NumberOrInfinity::NegativeInfinity, pos + 4));
    }
    if n - pos > 1 && pos < n && src[pos] == '-' && src[pos + 1] == '\u{221E}' {
        return Some((NumberOrInfinity::NegativeInfinity, pos + 2));
    }
    let (neg, dpos) = if pos < n && src[pos] == '-' {
        (true, pos + 1)
    } else {
        (false, pos)
    };
    let end = e_digits_end(src, dpos);
    if end == dpos {
        return None;
    }
    proof {
        lemma_digit_run(src@, dpos as int, end as int);
    }
    match e_digits_capped_i64(src, dpos, end) {
        None => None,
        Some(v) => {
            if neg {
                let ghost gv = digits_val(src@, dpos as int, end as int);
                proof {
                    assert((-gv) as i64 == -(v as i64)) by {
                        assert(gv == v as int);
                    }
                }
                Some((NumberOrInfinity::FiniteI64(-(v as i64)), end))
            } else {
                Some((NumberOrInfinity::FiniteI64(v as i64), end))
            }
        },
    }
}

/// Computes the value of a digit run when it fits `i64`.
fn e_digits_capped_i64(src: &Vec<char>, pos: usize, end: usize) -> (r: Option<u64>)
    requires
        pos <= end <= src@.len(),
        forall|j: int| pos <= j < end ==> is_digit(#[trigger] src@[j]),
    ensures
        match r {
            Option::Some(v) => v as int == digits_val(src@, pos as int, end as int) && v
                <= 9223372036854775807u64,
            Option::None => digits_val(src@, pos as int, end as int) > i64::MAX,
        },
{
    let mut acc: u64 = 0;
    let mut over: bool = false;
    let mut i = pos;
    while i < end
        invariant
            pos <= i <= end <= src@.len(),
            forall|j: int| pos <= j < end ==> is_digit(#[trigger] src@[j]),
            !over ==> acc as int == digits_val(src@, pos as int, i as int) && acc
                <= 9223372036854775807u64,
            over ==> digits_val(src@, pos as int, i as int) > i64::MAX,
        decreases end - i,
    {
        proof {
            assert(is_digit(src@[i as int]));
            assert(digits_val(src@, pos as int, i as int + 1) == digits_val(
                src@,
                pos as int,
                i as int,
            ) * 10 + digit_val(src@[i as int]));
        }
        let d = (src[i] as u32) - 48;
        if !over {
            if acc > 922337203685477580u64 || (acc == 922337203685477580u64 && d > 7) {
                over = true;
            } else {
                acc = acc * 10 + (d as u64);
            }
        }
        i = i + 1;
    }
    if over {
        None
    } else {
        Some(acc)
    }
}

/// Parses the bracketed numeric range of a datatype reference.
fn e_datatype_range(src: &Vec<char>, pos: usize) -> (r: Option<(RangeType, usize)>)
    requires
        pos <= src@.len(),
    ensures
        match r {
            Option::Some((v, p)) => p_datatype_range(src@, pos as int) == Option::Some(
                (v, p as int),
            ) && p <= src@.len(),
            Option::None => p_datatype_range(src@, pos as int) is None,
        },
{
    proof {
        reveal(crate::grammar_spec::p_datatype_range);
    }
    let w1 = e_skip_ws(src, pos);
    if w1 < src.len() && src[w1] == '[' {
        let w2 = e_skip_ws(src, w1 + 1);
        let (min, q) = match e_number_or_infinity(src, e_skip_ws(src, w2)) {
            Some((a, x2)) => (a, e_skip_ws(src, x2)),
            None => (NumberOrInfinity::Unbounded, w2),
        };
        if q < src.len() && src[q] == ',' {
            let (max, q2) = match e_number_or_infinity(src, e_skip_ws(src, q + 1)) {
                Some((b, y2)) => (b, e_skip_ws(src, y2)),
                None => (NumberOrInfinity::Unbounded, e_skip_ws(src, q + 1)),
            };
            let z = e_skip_ws(src, q2);
            if z < src.len() && src[z] == ']' {
                Some((RangeType { min, max }, e_skip_ws(src, z + 1)))
            } else {
                None
            }
        } else {
            None
        }
    } else {
        None
    }
}

/// The end of a keyword-or-function name.
fn e_kof_end(src: &Vec<char>, pos: usize) -> (r: usize)
    requires
        pos <= src@.len(),
    ensures
        r == kof_end(src@, pos as int),
        pos <= r <= src@.len(),
{
    let ke = e_kw_end(src, pos);
    if ke < src.len() && src.len() - ke > 1 && src[ke] == '(' && src[ke + 1] == ')' {
        ke + 2
    } else {
        ke
    }
}

/// Parses a datatype reference such as `<length>` or `<'name'>`.
fn e_datatype(src: &Vec<char>, pos: usize) -> (r: Option<(SyntaxComponent, usize)>)
    requires
        pos <= src@.len(),
    ensures
        cres_models(r, p_datatype(src@, pos as int)),
        match r {
            Option::Some((_, p)) => p <= src@.len(),
            Option::None => true,
        },
{
    proof {
        reveal(crate::grammar_spec::p_datatype);
    }
    let w1 = e_skip_ws(src, pos);
    if !(w1 < src.len() && src[w1] == '<') {
        return None;
    }
    let w2 = e_skip_ws(src, w1 + 1);
    let ke = e_kof_end(src, w2);
    let named: Option<(String, bool, usize)> = if ke != w2 {
        Some((chars_to_string(src, w2, ke), false, ke))
    } else {
        let v1 = e_skip_ws(src, w2);
        if v1 < src.len() && src[v1] == '\'' {
            let v2 = e_skip_ws(src, v1 + 1);
            let ke2 = e_kof_end(src, v2);
            if ke2 == v2 {
                None
            } else {
                let u2 = e_skip_ws(src, ke2);
                if u2 < src.len() && src[u2] == '\'' {
                    Some((chars_to_string(src, v2, ke2), true, e_skip_ws(src, u2 + 1)))
                } else {
                    None
                }
            }
        } else {
            None
        }
    };
    match named {
        None => None,
        Some((name, quoted, q)) => {
            let (range, q2) = match e_datatype_range(src, q) {
                Some((rr, p2)) => (rr, p2),
                None => (RangeType::empty(), q),
            };
            let t = e_skip_ws(src, q2);
            if t < src.len() && src[t] == '>' {
                Some(
                    (
                        SyntaxComponent::Definition {
                            datatype: name,
                            quoted,
                            range,
                            multiplier: SyntaxComponentMultiplier::Once,
                        },
                        e_skip_ws(src, t + 1),
                    ),
                )
            } else {
                None
            }
        },
    }
}

/// Parses the `inherit`, `initial` and `unset` keywords.
fn e_specific_keyword(src: &Vec<char>, pos: usize) -> (r: Option<(SyntaxComponent, usize)>)
    requires
        pos <= src@.len(),
    ensures
        cres_models(r, p_specific_keyword(src@, pos as int)),
        match r {
            Option::Some((_, p)) => p <= src@.len(),
            Option::None => true,
        },
{
    proof {
        reveal(crate::grammar_spec::p_specific_keyword);
    }
    let _src_len = src.len();
    proof {
        reveal_strlit("inherit");
        reveal_strlit("initial");
        reveal_strlit("unset");
    }
    if e_match_word(src, pos, "inherit") {
        Some((SyntaxComponent::Inherit { multiplier: SyntaxComponentMultiplier::Once }, pos + 7))
    } else if e_match_word(src, pos, "initial") {
        Some((SyntaxComponent::Initial { multiplier: SyntaxComponentMultiplier::Once }, pos + 7))
    } else if e_match_word(src, pos, "unset") {
        Some((SyntaxComponent::Unset { multiplier: SyntaxComponentMultiplier::Once }, pos + 5))
    } else {
        None
    }
}

/// The position of the next quote at or after `pos`.
fn e_quote_end(src: &Vec<char>, pos: usize) -> (r: usize)
    requires
        pos <= src@.len(),
    ensures
        r == quote_end(src@, pos as int),
        pos <= r <= src@.len(),
{
    let mut i = pos;
    while i < src.len() && src[i] != '\''
        invariant
            pos <= i <= src@.len(),
            quote_end(src@, pos as int) == quote_end(src@, i as int),
        decreases src@.len() - i,
    {
        i = i + 1;
    }
    i
}

/// Parses a literal: `/`, `,`, or quoted text.
fn e_literal(src: &Vec<char>, pos: usize) -> (r: Option<(SyntaxComponent, usize)>)
    requires
        pos <= src@.len(),
    ensures
        cres_models(r, p_literal(src@, pos as int)),
        match r {
            Option::Some((_, p)) => p <= src@.len(),
            Option::None => true,
        },
{
    proof {
        reveal(crate::grammar_spec::p_literal);
    }
    let l1 = e_skip_ws(src, pos);
    if l1 < src.len() && src[l1] == '/' {
        let mut lit = String::new();
        push_char(&mut lit, '/');
        proof {
            assert(lit@ =~= "/"@) by {
                reveal_strlit("/");
            }
        }
        return Some(
            (
                SyntaxComponent::Literal {
                    literal: lit,
                    multiplier: SyntaxComponentMultiplier::Once,
                },
                e_skip_ws(src, l1 + 1),
            ),
        );
    }
    if l1 < src.len() && src[l1] == ',' {
        let mut lit = String::new();
        push_char(&mut lit, ',');
        proof {
            assert(lit@ =~= ","@) by {
                reveal_strlit(",");
            }
        }
        return Some(
            (
                SyntaxComponent::Literal {
                    literal: lit,
                    multiplier: SyntaxComponentMultiplier::Once,
                },
                e_skip_ws(src, l1 + 1),
            ),
        );
    }
    if pos < src.len() && src[pos] == '\'' {
        let end = e_quote_end(src, pos + 1);
        if end < src.len() {
            return Some(
                (
                    SyntaxComponent::Literal {
                        literal: chars_to_string(src, pos + 1, end),
                        multiplier: SyntaxComponentMultiplier::Once,
                    },
                    end + 1,
                ),
            );
        }
        return None;
    }
    None
}

/// Parses a quoted property reference.
fn e_property(src: &Vec<char>, pos: usize) -> (r: Option<(SyntaxComponent, usize)>)
    requires
        pos <= src@.len(),
    ensures
        cres_models(r, p_property(src@, pos as int)),
        match r {
            Option::Some((_, p)) => p <= src@.len(),
            Option::None => true,
        },
{
    proof {
        reveal(crate::grammar_spec::p_property);
    }
    if pos < src.len() && src[pos] == '\'' {
        let ke = e_kw_end(src, pos + 1);
        if ke == pos + 1 {
            None
        } else if ke < src.len() && src[ke] == '\'' {
            Some(
                (
                    SyntaxComponent::Property {
                        property: chars_to_string(src, pos + 1, ke),
                        multiplier: SyntaxComponentMultiplier::Once,
                    },
                    ke + 1,
                ),
            )
        } else {
            None
        }
    } else {
        None
    }
}

/// Parses a bare keyword.
fn e_generic_keyword(src: &Vec<char>, pos: usize) -> (r: Option<(SyntaxComponent, usize)>)
    requires
        pos <= src@.len(),
    ensures
        cres_models(r, p_generic_keyword(src@, pos as int)),
        match r {
            Option::Some((_, p)) => p <= src@.len(),
            Option::None => true,
        },
{
    proof {
        reveal(crate::grammar_spec::p_generic_keyword);
    }
    let ke = e_kw_end(src, pos);
    if ke == pos {
        None
    } else {
        Some(
            (
                SyntaxComponent::GenericKeyword {
                    keyword: chars_to_string(src, pos, ke),
                    multiplier: SyntaxComponentMultiplier::Once,
                },
                ke,
            ),
        )
    }
}

/// A small power of ten.
fn e_pow10(k: usize) -> (r: u64)
    requires
        k <= 6,
    ensures
        r as int == pow10(k as int),
        r <= 1000000,
{
    proof {
        reveal_with_fuel(pow10, 8);
    }
    if k == 0 {
        1
    } else if k == 1 {
        10
    } else if k == 2 {
        100
    } else if k == 3 {
        1000
    } else if k == 4 {
        10000
    } else if k == 5 {
        100000
    } else {
        1000000
    }
}

/// Parses a decimal number, in millionths.
fn e_decimal(src: &Vec<char>, pos: usize) -> (r: Option<(i64, usize)>)
    requires
        pos <= src@.len(),
    ensures
        match r {
            Option::Some((v, p)) => p_decimal(src@, pos as int) == Option::Some(
                (v as int, p as int),
            ) && p <= src@.len(),
            Option::None => p_decimal(src@, pos as int) is None,
        },
{
    proof {
        reveal(crate::grammar_spec::p_decimal);
    }
    let n = src.len();
    let (neg, dpos) = if pos < n && src[pos] == '-' {
        (true, pos + 1)
    } else if pos < n && src[pos] == '+' {
        (false, pos + 1)
    } else {
        (false, pos)
    };
    let iend = e_digits_end(src, dpos);
    if iend == dpos {
        return None;
    }
    proof {
        lemma_digit_run(src@, dpos as int, iend as int);
        assert(max_magnitude() == 9223372036854int);
    }
    let whole_digits = match e_digits_capped_i64(src, dpos, iend) {
        None => {
            return None;
        },
        Some(v) => v,
    };
    if whole_digits > 9223372036854u64 {
        return None;
    }
    let whole: u64 = whole_digits * 1000000u64;
    let (total, fend) = if iend < n && src[iend] == '.' {
        let fe = e_digits_end(src, iend + 1);
        let used = if fe - (iend + 1) > 6 {
            iend + 1 + 6
        } else {
            fe
        };
        proof {
            lemma_digit_run(src@, iend as int + 1, fe as int);
            lemma_frac_small(src@, iend as int + 1, used as int);
        }
        let fd = match e_digits_capped_i64(src, iend + 1, used) {
            None => 0u64,
            Some(v) => v,
        };
        let pw = e_pow10(6 - (used - (iend + 1)));
        proof {
            assert(fd * pw <= 999999000000u64) by (nonlinear_arith)
                requires
                    fd <= 999999u64,
                    pw <= 1000000u64,
            ;
        }
        let frac: u64 = fd * pw;
        (whole + frac, fe)
    } else {
        (whole, iend)
    };
    if total > 9223372036854775807u64 {
        return None;
    }
    let sv: i64 = total as i64;
    if neg {
        Some((-sv, fend))
    } else {
        Some((sv, fend))
    }
}

/// A fractional digit value of at most six digits is below one million.
proof fn lemma_frac_small(src: Seq<char>, pos: int, end: int)
    requires
        0 <= pos <= end <= src.len(),
        end - pos <= 6,
        forall|j: int| pos <= j < end ==> is_digit(#[trigger] src[j]),
    ensures
        0 <= digits_val(src, pos, end) < pow10(end - pos),
        pow10(end - pos) <= 1000000,
    decreases end - pos,
{
    reveal_with_fuel(pow10, 8);
    if pos < end {
        lemma_frac_small(src, pos, end - 1);
        assert(pow10(end - pos) == 10 * pow10(end - 1 - pos));
    }
}

/// Parses a bare numeric value.
fn e_unit_value(src: &Vec<char>, pos: usize) -> (r: Option<(SyntaxComponent, usize)>)
    requires
        pos <= src@.len(),
    ensures
        cres_models(r, p_unit_value(src@, pos as int)),
        match r {
            Option::Some((_, p)) => p <= src@.len(),
            Option::None => true,
        },
{
    proof {
        reveal(crate::grammar_spec::p_unit_value);
    }
    match e_decimal(src, pos) {
        None => None,
        Some((v, p1)) => {
            let ae = e_alpha_end(src, p1);
            if ae == p1 {
                if v == 0 {
                    Some(
                        (
                            SyntaxComponent::Value {
                                value: CssValue::Zero,
                                multiplier: SyntaxComponentMultiplier::Once,
                            },
                            p1,
                        ),
                    )
                } else {
                    None
                }
            } else {
                Some(
                    (
                        SyntaxComponent::Value {
                            value: CssValue::Unit(
                                CssNumber::from_micros(v),
                                chars_to_string(src, p1, ae),
                            ),
                            multiplier: SyntaxComponentMultiplier::Once,
                        },
                        ae,
                    ),
                )
            }
        },
    }
}

/// The specification view of a suffix list.
pub open spec fn suffix_models(v: Seq<String>) -> Seq<Seq<char>> {
    v.map_values(|u: String| u@)
}

/// Parses the rest of the suffix list inside `unit(..)`.
fn e_suffixes(src: &Vec<char>, pos: usize, acc: Vec<String>) -> (r: (Vec<String>, usize))
    requires
        pos <= src@.len(),
    ensures
        p_suffixes(src@, pos as int, suffix_models(acc@)) == (
            suffix_models(r.0@),
            r.1 as int,
        ),
        r.1 <= src@.len(),
    decreases src@.len() - pos,
{
    proof {
        reveal_with_fuel(crate::grammar_spec::p_suffixes, 1);
    }
    let s1 = e_skip_ws(src, pos);
    if s1 < src.len() && src[s1] == '|' {
        let s2 = e_skip_ws(src, s1 + 1);
        let ae = e_alpha_end(src, s2);
        if ae == s2 {
            (acc, pos)
        } else {
            let mut acc2 = acc;
            let ghost a0 = acc2@;
            acc2.push(chars_to_string(src, s2, ae));
            proof {
                assert(suffix_models(acc2@) =~= suffix_models(a0).push(
                    src@.subrange(s2 as int, ae as int),
                ));
            }
            e_suffixes(src, ae, acc2)
        }
    } else {
        (acc, pos)
    }
}

/// Parses the inside of `unit(..)`.
fn e_unit_inner(src: &Vec<char>, pos: usize) -> (r: (SyntaxComponent, usize))
    requires
        pos <= src@.len(),
    ensures
        p_unit_inner(src@, pos as int) == (r.0.model(), r.1 as int),
        r.1 <= src@.len(),
{
    proof {
        reveal(crate::grammar_spec::p_unit_inner);
    }
    let _src_len = src.len();
    let first = e_integer(src, pos);
    let ranged: Option<((Option<i64>, Option<i64>), usize)> = match first {
        Some((a, p1)) => {
            if e_match_word(src, p1, "..") {
                proof {
                    reveal_strlit("..");
                }
                match e_integer(src, p1 + 2) {
                    Some((b, p2)) => Some(
                        (
                            (
                                Some((a as i64) * 1000000i64),
                                Some((b as i64) * 1000000i64),
                            ),
                            p2,
                        ),
                    ),
                    None => Some(((Some((a as i64) * 1000000i64), None), p1 + 2)),
                }
            } else {
                proof {
                    reveal_strlit("..");
                }
                Some(((Some((a as i64) * 1000000i64), None), p1))
            }
        },
        None => {
            if e_match_word(src, pos, "..") {
                proof {
                    reveal_strlit("..");
                }
                match e_integer(src, pos + 2) {
                    Some((b, p2)) => Some(((None, Some((b as i64) * 1000000i64)), p2)),
                    None => Some(((None, None), pos + 2)),
                }
            } else {
                proof {
                    reveal_strlit("..");
                }
                None
            }
        },
    };
    let ((from, to), p2) = match ranged {
        Some(r) => r,
        None => ((None, None), pos),
    };
    let m = e_skip_ws(src, p2);
    let first_ae = e_alpha_end(src, m);
    let (suffixes, p3) = if first_ae == m {
        let empty_suffixes: Vec<String> = Vec::new();
        proof {
            assert(suffix_models(empty_suffixes@) =~= Seq::<Seq<char>>::empty());
        }
        (empty_suffixes, m)
    } else {
        let mut acc: Vec<String> = Vec::new();
        acc.push(chars_to_string(src, m, first_ae));
        proof {
            assert(suffix_models(acc@) =~= seq![src@.subrange(m as int, first_ae as int)]);
        }
        e_suffixes(src, first_ae, acc)
    };
    (
        SyntaxComponent::Unit {
            from,
            to,
            unit: suffixes,
            multiplier: SyntaxComponentMultiplier::Once,
        },
        p3,
    )
}

/// Parses the `unit(..)` pseudo-function.
fn e_unit_function(src: &Vec<char>, pos: usize) -> (r: Option<(SyntaxComponent, usize)>)
    requires
        pos <= src@.len(),
    ensures
        cres_models(r, p_unit_function(src@, pos as int)),
        match r {
            Option::Some((_, p)) => p <= src@.len(),
            Option::None => true,
        },
{
    proof {
        reveal(crate::grammar_spec::p_unit_function);
    }
    let _src_len = src.len();
    proof {
        reveal_strlit("unit(");
    }
    if e_match_word(src, pos, "unit(") {
        let (c, q) = e_unit_inner(src, pos + 5);
        if q < src.len() && src[q] == ')' {
            Some((c, q + 1))
        } else {
            None
        }
    } else {
        None
    }
}

/// Collapses a layer of parsed items: one item stands alone, several become
/// a group.
fn e_collapse(items: Vec<SyntaxComponent>, comb: GroupCombinators) -> (r: SyntaxComponent)
    requires
        items@.len() >= 1,
    ensures
        r.model() == collapse(comp_models(items@), comb),
{
    proof {
        lemma_comp_models(items@);
    }
    if items.len() == 1 {
        let mut items2 = items;
        let c = items2.pop().unwrap();
        proof {
            assert(comp_models(items@)[0] == c.model());
        }
        c
    } else {
        SyntaxComponent::Group {
            components: items,
            combinator: comb,
            multiplier: SyntaxComponentMultiplier::Once,
        }
    }
}

/// Parses one component with its multiplier suffix.
#[verifier::rlimit(80)]
fn e_component(src: &Vec<char>, pos: usize) -> (r: Option<(SyntaxComponent, usize)>)
    requires
        pos <= src@.len(),
    ensures
        cres_models(r, p_component(src@, pos as int)),
        match r {
            Option::Some((_, p)) => p <= src@.len(),
            Option::None => true,
        },
    decreases src@.len() - pos, 1int,
{
    proof {
        reveal_with_fuel(crate::grammar_spec::p_component, 1);
    }
    let n = src.len();
    let mut prim = e_unit_function(src, pos);
    if prim.is_none() {
        prim = e_function(src, pos);
    }
    if prim.is_none() {
        prim = e_property(src, pos);
    }
    if prim.is_none() {
        prim = e_specific_keyword(src, pos);
    }
    if prim.is_none() {
        prim = e_literal(src, pos);
    }
    if prim.is_none() {
        prim = e_group(src, pos);
    }
    if prim.is_none() {
        prim = e_unit_value(src, pos);
    }
    if prim.is_none() {
        prim = e_datatype(src, pos);
    }
    if prim.is_none() {
        prim = e_generic_keyword(src, pos);
    }
    match prim {
        None => None,
        Some((c, p1)) => {
            if p1 <= pos || p1 > n {
                None
            } else {
                let (m, p2) = e_multiplier(src, p1);
                if p2 > n {
                    None
                } else {
                    let mut c2 = c;
                    c2.update_multiplier(m);
                    Some((c2, p2))
                }
            }
        },
    }
}

/// Parses a function reference with its argument list.
fn e_function(src: &Vec<char>, pos: usize) -> (r: Option<(SyntaxComponent, usize)>)
    requires
        pos <= src@.len(),
    ensures
        cres_models(r, p_function(src@, pos as int)),
        match r {
            Option::Some((_, p)) => p <= src@.len(),
            Option::None => true,
        },
    decreases src@.len() - pos, 0int,
{
    proof {
        reveal_with_fuel(crate::grammar_spec::p_function, 1);
    }
    let n = src.len();
    let ke = e_kw_end(src, pos);
    if ke == pos {
        return None;
    }
    let e1 = e_skip_sp(src, ke);
    if e1 < n && src[e1] == '(' {
        let e2 = e_skip_sp(src, e1 + 1);
        if e2 < n && src[e2] == ')' {
            let after = e_skip_sp(src, e2 + 1);
            return Some(
                (
                    SyntaxComponent::Function {
                        name: chars_to_string(src, pos, ke),
                        arguments: Vec::new(),
                        multiplier: SyntaxComponentMultiplier::Once,
                    },
                    after,
                ),
            );
        }
    }
    let a1 = e_skip_ws(src, ke);
    if a1 < n && src[a1] == '(' {
        let a2 = e_skip_ws(src, a1 + 1);
        if a2 > pos {
            match e_singlebar(src, a2) {
                None => None,
                Some((arg, a4)) => {
                    let a5 = e_skip_ws(src, a4);
                    if a5 < n && src[a5] == ')' {
                        let mut arguments: Vec<SyntaxComponent> = Vec::new();
                        arguments.push(arg);
                        proof {
                            lemma_comp_models(arguments@);
                            assert(comp_models(arguments@) =~= seq![arguments@[0].model()]);
                        }
                        Some(
                            (
                                SyntaxComponent::Function {
                                    name: chars_to_string(src, pos, ke),
                                    arguments,
                                    multiplier: SyntaxComponentMultiplier::Once,
                                },
                                e_skip_ws(src, a5 + 1),
                            ),
                        )
                    } else {
                        None
                    }
                },
            }
        } else {
            None
        }
    } else {
        None
    }
}

/// Parses a bracketed group.
fn e_group(src: &Vec<char>, pos: usize) -> (r: Option<(SyntaxComponent, usize)>)
    requires
        pos <= src@.len(),
    ensures
        cres_models(r, p_group(src@, pos as int)),
        match r {
            Option::Some((_, p)) => p <= src@.len(),
            Option::None => true,
        },
    decreases src@.len() - pos, 0int,
{
    proof {
        reveal_with_fuel(crate::grammar_spec::p_group, 1);
    }
    let n = src.len();
    let g1 = e_skip_ws(src, pos);
    if g1 < n && src[g1] == '[' {
        let g2 = e_skip_ws(src, g1 + 1);
        if g2 > pos {
            match e_singlebar(src, g2) {
                None => None,
                Some((c, g3)) => {
                    let g4 = e_skip_ws(src, g3);
                    if g4 < n && src[g4] == ']' {
                        Some((c, e_skip_ws(src, g4 + 1)))
                    } else {
                        None
                    }
                },
            }
        } else {
            None
        }
    } else {
        None
    }
}

/// Parses the rest of a juxtaposition.
#[verifier::rlimit(80)]
fn e_juxt_rest(src: &Vec<char>, items: Vec<SyntaxComponent>, cur: usize) -> (r: Option<(
    Vec<SyntaxComponent>,
    usize,
)>)
    requires
        cur <= src@.len(),
    ensures
        match r {
            Option::Some((items2, p)) => p_juxt_rest(src@, comp_models(items@), cur as int)
                == Option::Some((comp_models(items2@), p as int)) && p <= src@.len()
                && items2@.len() >= items@.len(),
            Option::None => p_juxt_rest(src@, comp_models(items@), cur as int) is None,
        },
    decreases src@.len() - cur, 2int,
{
    proof {
        reveal_with_fuel(crate::grammar_spec::p_juxt_rest, 1);
    }
    let n = src.len();
    let s = e_skip_sp(src, cur);
    let go_on = if s >= n {
        false
    } else {
        !(src[s] == ']' || src[s] == ')' || src[s] == '|' || src[s] == '&')
    };
    if !go_on {
        return Some((items, s));
    }
    match e_component(src, s) {
        None => None,
        Some((c, p1)) => {
            if p1 > cur {
                let mut items2 = items;
                let ghost i0 = items2@;
                items2.push(c);
                proof {
                    lemma_comp_models_push(i0, c);
                }
                e_juxt_rest(src, items2, p1)
            } else {
                None
            }
        },
    }
}

/// Parses a space-separated juxtaposition list.
#[verifier::rlimit(80)]
fn e_juxtaposition(src: &Vec<char>, pos: usize) -> (r: Option<(SyntaxComponent, usize)>)
    requires
        pos <= src@.len(),
    ensures
        cres_models(r, p_juxtaposition(src@, pos as int)),
        match r {
            Option::Some((_, p)) => p <= src@.len(),
            Option::None => true,
        },
    decreases src@.len() - pos, 3int,
{
    proof {
        reveal_with_fuel(crate::grammar_spec::p_juxtaposition, 1);
    }
    let j1 = e_skip_sp(src, pos);
    match e_component(src, j1) {
        None => None,
        Some((c1, p1)) => {
            if p1 > pos {
                let mut items: Vec<SyntaxComponent> = Vec::new();
                items.push(c1);
                proof {
                    lemma_comp_models(items@);
                    assert(comp_models(items@) =~= seq![items@[0].model()]);
                }
                match e_juxt_rest(src, items, p1) {
                    None => None,
                    Some((items2, p2)) => Some(
                        (e_collapse(items2, GroupCombinators::Juxtaposition), p2),
                    ),
                }
            } else {
                None
            }
        },
    }
}

/// Parses the rest of a `&&`-separated list.
fn e_ampersand_rest(src: &Vec<char>, items: Vec<SyntaxComponent>, cur: usize) -> (r: (
    Vec<SyntaxComponent>,
    usize,
))
    requires
        cur <= src@.len(),
    ensures
        p_ampersand_rest(src@, comp_models(items@), cur as int) == (
            comp_models(r.0@),
            r.1 as int,
        ),
        r.1 <= src@.len(),
        r.0@.len() >= items@.len(),
    decreases src@.len() - cur, 5int,
{
    proof {
        reveal_with_fuel(crate::grammar_spec::p_ampersand_rest, 1);
    }
    let n = src.len();
    let s1 = e_skip_ws(src, cur);
    if s1 < n && n - s1 > 1 && src[s1] == '&' && src[s1 + 1] == '&' {
        let s2 = e_skip_ws(src, s1 + 2);
        if s2 > cur {
            match e_juxtaposition(src, s2) {
                None => (items, cur),
                Some((c, p1)) => {
                    if p1 > cur {
                        let mut items2 = items;
                        let ghost i0 = items2@;
                        items2.push(c);
                        proof {
                            lemma_comp_models_push(i0, c);
                        }
                        e_ampersand_rest(src, items2, p1)
                    } else {
                        (items, cur)
                    }
                },
            }
        } else {
            (items, cur)
        }
    } else {
        (items, cur)
    }
}

/// Parses a `&&`-separated list of juxtapositions.
#[verifier::rlimit(80)]
fn e_doubleampersand(src: &Vec<char>, pos: usize) -> (r: Option<(SyntaxComponent, usize)>)
    requires
        pos <= src@.len(),
    ensures
        cres_models(r, p_doubleampersand(src@, pos as int)),
        match r {
            Option::Some((_, p)) => p <= src@.len(),
            Option::None => true,
        },
    decreases src@.len() - pos, 4int,
{
    proof {
        reveal_with_fuel(crate::grammar_spec::p_doubleampersand, 1);
    }
    match e_juxtaposition(src, pos) {
        None => None,
        Some((c1, p1)) => {
            if p1 > pos {
                let mut items: Vec<SyntaxComponent> = Vec::new();
                items.push(c1);
                proof {
                    lemma_comp_models(items@);
                    assert(comp_models(items@) =~= seq![items@[0].model()]);
                }
                let (items2, p2) = e_ampersand_rest(src, items, p1);
                Some((e_collapse(items2, GroupCombinators::AllAnyOrder), p2))
            } else {
                None
            }
        },
    }
}

/// Parses the rest of a `||`-separated list.
fn e_doublebar_rest(src: &Vec<char>, items: Vec<SyntaxComponent>, cur: usize) -> (r: (
    Vec<SyntaxComponent>,
    usize,
))
    requires
        cur <= src@.len(),
    ensures
        p_doublebar_rest(src@, comp_models(items@), cur as int) == (
            comp_models(r.0@),
            r.1 as int,
        ),
        r.1 <= src@.len(),
        r.0@.len() >= items@.len(),
    decreases src@.len() - cur, 7int,
{
    proof {
        reveal_with_fuel(crate::grammar_spec::p_doublebar_rest, 1);
    }
    let n = src.len();
    let s1 = e_skip_ws(src, cur);
    if s1 < n && n - s1 > 1 && src[s1] == '|' && src[s1 + 1] == '|' {
        let s2 = e_skip_ws(src, s1 + 2);
        if s2 > cur {
            match e_doubleampersand(src, s2) {
                None => (items, cur),
                Some((c, p1)) => {
                    if p1 > cur {
                        let mut items2 = items;
                        let ghost i0 = items2@;
                        items2.push(c);
                        proof {
                            lemma_comp_models_push(i0, c);
                        }
                        e_doublebar_rest(src, items2, p1)
                    } else {
                        (items, cur)
                    }
                },
            }
        } else {
            (items, cur)
        }
    } else {
        (items, cur)
    }
}

/// Parses a `||`-separated list of `&&` lists.
#[verifier::rlimit(80)]
fn e_doublebar(src: &Vec<char>, pos: usize) -> (r: Option<(SyntaxComponent, usize)>)
    requires
        pos <= src@.len(),
    ensures
        cres_models(r, p_doublebar(src@, pos as int)),
        match r {
            Option::Some((_, p)) => p <= src@.len(),
            Option::None => true,
        },
    decreases src@.len() - pos, 6int,
{
    proof {
        reveal_with_fuel(crate::grammar_spec::p_doublebar, 1);
    }
    match e_doubleampersand(src, pos) {
        None => None,
        Some((c1, p1)) => {
            if p1 > pos {
                let mut items: Vec<SyntaxComponent> = Vec::new();
                items.push(c1);
                proof {
                    lemma_comp_models(items@);
                    assert(comp_models(items@) =~= seq![items@[0].model()]);
                }
                let (items2, p2) = e_doublebar_rest(src, items, p1);
                Some((e_collapse(items2, GroupCombinators::AtLeastOneAnyOrder), p2))
            } else {
                None
            }
        },
    }
}

/// Parses the rest of a `|`-separated list.
fn e_singlebar_rest(src: &Vec<char>, items: Vec<SyntaxComponent>, cur: usize) -> (r: (
    Vec<SyntaxComponent>,
    usize,
))
    requires
        cur <= src@.len(),
    ensures
        p_singlebar_rest(src@, comp_models(items@), cur as int) == (
            comp_models(r.0@),
            r.1 as int,
        ),
        r.1 <= src@.len(),
        r.0@.len() >= items@.len(),
    decreases src@.len() - cur, 9int,
{
    proof {
        reveal_with_fuel(crate::grammar_spec::p_singlebar_rest, 1);
    }
    let n = src.len();
    let s1 = e_skip_ws(src, cur);
    if s1 < n && src[s1] == '|' {
        let s2 = e_skip_ws(src, s1 + 1);
        if s2 > cur {
            match e_doublebar(src, s2) {
                None => (items, cur),
                Some((c, p1)) => {
                    if p1 > cur {
                        let mut items2 = items;
                        let ghost i0 = items2@;
                        items2.push(c);
                        proof {
                            lemma_comp_models_push(i0, c);
                        }
                        e_singlebar_rest(src, items2, p1)
                    } else {
                        (items, cur)
                    }
                },
            }
        } else {
            (items, cur)
        }
    } else {
        (items, cur)
    }
}

/// Parses the loosest layer: a `|`-separated list of `||` lists.
#[verifier::rlimit(80)]
fn e_singlebar(src: &Vec<char>, pos: usize) -> (r: Option<(SyntaxComponent, usize)>)
    requires
        pos <= src@.len(),
    ensures
        cres_models(r, p_singlebar(src@, pos as int)),
        match r {
            Option::Some((_, p)) => p <= src@.len(),
            Option::None => true,
        },
    decreases src@.len() - pos, 8int,
{
    proof {
        reveal_with_fuel(crate::grammar_spec::p_singlebar, 1);
    }
    match e_doublebar(src, pos) {
        None => None,
        Some((c1, p1)) => {
            if p1 > pos {
                let mut items: Vec<SyntaxComponent> = Vec::new();
                items.push(c1);
                proof {
                    lemma_comp_models(items@);
                    assert(comp_models(items@) =~= seq![items@[0].model()]);
                }
                let (items2, p2) = e_singlebar_rest(src, items, p1);
                Some((e_collapse(items2, GroupCombinators::ExactlyOne), p2))
            } else {
                None
            }
        },
    }
}

impl CssSyntax {
    /// Compiles the grammar into a syntax tree: the empty source compiles to
    /// the empty tree; a non-empty source must parse and be consumed in full
    /// up to trailing whitespace, yielding a tree with exactly one root.
    /// A failure carries the text that could not be consumed.
    pub fn compile(self) -> (r: Result<CssSyntaxTree, Error>)
        ensures
            match r {
                Ok(t) => spec_compile(self.spec_source()) == CompileModel::Done(
                    comp_models(t.components@),
                ),
                Err(e) => match e {
                    Error::CssCompile(left) => spec_compile(self.spec_source())
                        == CompileModel::Fail(left@),
                },
            },
    {
        let src = crate::strings::str_chars(self.source_str());
        if src.len() == 0 {
            let components: Vec<SyntaxComponent> = Vec::new();
            proof {
                lemma_comp_models(components@);
                assert(comp_models(components@) =~= Seq::<ComponentModel>::empty());
            }
            return Ok(CssSyntaxTree::new(components));
        }
        let start = e_skip_ws(&src, 0);
        match e_singlebar(&src, start) {
            None => Err(Error::CssCompile(self.source_str().to_owned())),
            Some((c, p)) => {
                if e_skip_ws(&src, p) == src.len() {
                    let mut components: Vec<SyntaxComponent> = Vec::new();
                    components.push(c);
                    proof {
                        lemma_comp_models(components@);
                        assert(comp_models(components@) =~= seq![components@[0].model()]);
                    }
                    Ok(CssSyntaxTree::new(components))
                } else {
                    Err(Error::CssCompile(chars_to_string(&src, p, src.len())))
                }
            },
        }
    }
}


} // verus!
