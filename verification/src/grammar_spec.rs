//! The mathematical model of grammar compilation: these specification
//! functions define, character by character, what the recursive-descent
//! compiler in `compiler` produces for a grammar source text.

use vstd::prelude::*;

use crate::syntax::{
    ComponentModel, GroupCombinators, NumberOrInfinity, RangeType, SyntaxComponentMultiplier,
};
use crate::values::ValueModel;

verus! {

/// The characters that count as whitespace between grammar tokens.
pub open spec fn is_ws(c: char) -> bool {
    c == ' ' || c == '\t' || c == '\n' || c == '\r'
}

/// The characters that count as plain spacing inside a juxtaposition.
pub open spec fn is_sp(c: char) -> bool {
    c == ' ' || c == '\t'
}

/// An ASCII decimal digit.
pub open spec fn is_digit(c: char) -> bool {
    48 <= c as u32 <= 57
}

/// An ASCII letter.
pub open spec fn is_alpha(c: char) -> bool {
    (65 <= c as u32 <= 90) || (97 <= c as u32 <= 122)
}

/// A keyword character: a letter, a digit or a dash.
pub open spec fn is_kw_char(c: char) -> bool {
    is_alpha(c) || is_digit(c) || c == '-'
}

/// The numeric value of a digit character.
pub open spec fn digit_val(c: char) -> int {
    c as u32 - 48
}

/// The first position at or after `pos` that does not hold whitespace.
pub open spec fn skip_ws(src: Seq<char>, pos: int) -> int
    decreases src.len() - pos,
{
    if pos < 0 {
        pos
    } else if pos < src.len() && is_ws(src[pos]) {
        skip_ws(src, pos + 1)
    } else {
        pos
    }
}

/// The first position at or after `pos` that does not hold plain spacing.
pub open spec fn skip_sp(src: Seq<char>, pos: int) -> int
    decreases src.len() - pos,
{
    if pos < 0 {
        pos
    } else if pos < src.len() && is_sp(src[pos]) {
        skip_sp(src, pos + 1)
    } else {
        pos
    }
}

/// The end of the run of keyword characters starting at `pos`.
pub open spec fn kw_end(src: Seq<char>, pos: int) -> int
    decreases src.len() - pos,
{
    if pos < 0 {
        pos
    } else if pos < src.len() && is_kw_char(src[pos]) {
        kw_end(src, pos + 1)
    } else {
        pos
    }
}

/// The end of the run of digits starting at `pos`.
pub open spec fn digits_end(src: Seq<char>, pos: int) -> int
    decreases src.len() - pos,
{
    if pos < 0 {
        pos
    } else if pos < src.len() && is_digit(src[pos]) {
        digits_end(src, pos + 1)
    } else {
        pos
    }
}

/// The end of the run of letters starting at `pos`.
pub open spec fn alpha_end(src: Seq<char>, pos: int) -> int
    decreases src.len() - pos,
{
    if pos < 0 {
        pos
    } else if pos < src.len() && is_alpha(src[pos]) {
        alpha_end(src, pos + 1)
    } else {
        pos
    }
}

/// The number written by the digits in `src[pos..end]`.
pub open spec fn digits_val(src: Seq<char>, pos: int, end: int) -> int
    decreases end - pos,
{
    if pos >= end {
        0
    } else {
        digits_val(src, pos, end - 1) * 10 + digit_val(src[end - 1])
    }
}

/// Bounds of the scan functions, proven once.
pub proof fn lemma_scan_bounds(src: Seq<char>, pos: int)
    requires
        0 <= pos <= src.len(),
    ensures
        pos <= skip_ws(src, pos) <= src.len(),
        pos <= skip_sp(src, pos) <= src.len(),
        pos <= kw_end(src, pos) <= src.len(),
        pos <= digits_end(src, pos) <= src.len(),
        pos <= alpha_end(src, pos) <= src.len(),
    decreases src.len() - pos,
{
    if pos < src.len() {
        lemma_scan_bounds(src, pos + 1);
    }
}

/// Parses an unsigned integer that fits `u32`: a non-empty digit run whose
/// value is not too large.
#[verifier::opaque]
pub open spec fn p_integer(src: Seq<char>, pos: int) -> Option<(u32, int)> {
    let end = digits_end(src, pos);
    if end == pos {
        Option::None
    } else {
        let v = digits_val(src, pos, end);
        if v > u32::MAX {
            Option::None
        } else {
            Option::Some((v as u32, end))
        }
    }
}

/// Parses the inside of a curly-brace or hash range: one integer, or two
/// integers separated by a comma, with whitespace allowed throughout.
/// Returns the pair and the position after the range's trailing whitespace.
#[verifier::opaque]
pub open spec fn p_range_pair(src: Seq<char>, pos: int) -> Option<((u32, u32), int)> {
    let q1 = skip_ws(src, pos);
    match p_integer(src, q1) {
        Option::None => Option::None,
        Option::Some((a, q2)) => {
            let q3 = skip_ws(src, q2);
            if q3 < src.len() && src[q3] == ',' {
                let q5 = skip_ws(src, q3 + 1);
                match p_integer(src, q5) {
                    Option::Some((b, q6)) => Option::Some(((a, b), skip_ws(src, q6))),
                    Option::None => Option::Some(((a, a), q3)),
                }
            } else {
                Option::Some(((a, a), q3))
            }
        },
    }
}

/// Parses a `{n}` or `{n,m}` multiplier.
#[verifier::opaque]
pub open spec fn p_curly_multiplier(src: Seq<char>, pos: int) -> Option<(
    SyntaxComponentMultiplier,
    int,
)> {
    if pos < src.len() && src[pos] == '{' {
        match p_range_pair(src, pos + 1) {
            Option::None => Option::None,
            Option::Some(((a, b), q)) => {
                if q < src.len() && src[q] == '}' {
                    Option::Some(
                        (SyntaxComponentMultiplier::Between(a as usize, b as usize), q + 1),
                    )
                } else {
                    Option::None
                }
            },
        }
    } else {
        Option::None
    }
}

/// Parses a `#` or `#{n,m}` comma-separated multiplier; bare `#` means one
/// or more values.
#[verifier::opaque]
pub open spec fn p_hash_multiplier(src: Seq<char>, pos: int) -> Option<(
    SyntaxComponentMultiplier,
    int,
)> {
    let t1 = skip_ws(src, pos);
    let braced = if t1 + 1 < src.len() && src[t1] == '#' && src[t1 + 1] == '{' {
        match p_range_pair(src, t1 + 2) {
            Option::None => Option::None,
            Option::Some(((a, b), q)) => {
                if q < src.len() && src[q] == '}' {
                    Option::Some(
                        (
                            SyntaxComponentMultiplier::CommaSeparatedRepeat(
                                a as usize,
                                b as usize,
                            ),
                            skip_ws(src, q + 1),
                        ),
                    )
                } else {
                    Option::None
                }
            },
        }
    } else {
        Option::None
    };
    match braced {
        Option::Some(r) => Option::Some(r),
        Option::None => {
            if t1 < src.len() && src[t1] == '#' {
                Option::Some(
                    (
                        SyntaxComponentMultiplier::CommaSeparatedRepeat(1, u32::MAX as usize),
                        skip_ws(src, t1 + 1),
                    ),
                )
            } else {
                Option::None
            }
        },
    }
}

/// Parses the optional multiplier suffix after a component; absence means
/// `Once`.
#[verifier::opaque]
pub open spec fn p_multiplier(src: Seq<char>, pos: int) -> (SyntaxComponentMultiplier, int) {
    if pos < src.len() && src[pos] == '*' {
        (SyntaxComponentMultiplier::ZeroOrMore, pos + 1)
    } else if pos < src.len() && src[pos] == '+' {
        (SyntaxComponentMultiplier::OneOrMore, pos + 1)
    } else if pos < src.len() && src[pos] == '?' {
        (SyntaxComponentMultiplier::Optional, pos + 1)
    } else if pos < src.len() && src[pos] == '!' {
        (SyntaxComponentMultiplier::AtLeastOneValue, pos + 1)
    } else {
        match p_hash_multiplier(src, pos) {
            Option::Some((m, p)) => (m, p),
            Option::None => match p_curly_multiplier(src, pos) {
                Option::Some((m, p)) => (m, p),
                Option::None => (SyntaxComponentMultiplier::Once, pos),
            },
        }
    }
}

/// Parses a signed integer or an infinity sentinel for a datatype range.
/// The sentinels are `inf`, `-inf` and the infinity sign, case-insensitive
/// for the letters.
#[verifier::opaque]
pub open spec fn p_number_or_infinity(src: Seq<char>, pos: int) -> Option<(
    NumberOrInfinity,
    int,
)> {
    if pos + 2 < src.len() && crate::strings::lower_char(src[pos]) == 'i'
        && crate::strings::lower_char(src[pos + 1]) == 'n' && crate::strings::lower_char(
        src[pos + 2],
    ) == 'f' {
        Option::Some((NumberOrInfinity::Infinity, pos + 3))
    } else if pos < src.len() && src[pos] == '\u{221E}' {
        Option::Some((NumberOrInfinity::Infinity, pos + 1))
    } else if pos + 3 < src.len() && src[pos] == '-' && crate::strings::lower_char(src[pos + 1])
        == 'i' && crate::strings::lower_char(src[pos + 2]) == 'n' && crate::strings::lower_char(
        src[pos + 3],
    ) == 'f' {
        Option::Some((NumberOrInfinity::NegativeInfinity, pos + 4))
    } else if pos + 1 < src.len() && src[pos] == '-' && src[pos + 1] == '\u{221E}' {
        Option::Some((NumberOrInfinity::NegativeInfinity, pos + 2))
    } else {
        let (neg, dpos) = if pos < src.len() && src[pos] == '-' {
            (true, pos + 1)
        } else {
            (false, pos)
        };
        let end = digits_end(src, dpos);
        if end == dpos {
            Option::None
        } else {
            let v = digits_val(src, dpos, end);
            if v > i64::MAX {
                Option::None
            } else if neg {
                Option::Some((NumberOrInfinity::FiniteI64((-v) as i64), end))
            } else {
                Option::Some((NumberOrInfinity::FiniteI64(v as i64), end))
            }
        }
    }
}

/// Parses the bracketed numeric range of a datatype reference, such as
/// `[-360,360]` or `[0,inf]`; an omitted bound is unbounded.  The bounds
/// are taken exactly as written, even when a finite minimum lies above a
/// finite maximum: a nonsensical range is the grammar author's mistake,
/// not a parse error.
#[verifier::opaque]
pub open spec fn p_datatype_range(src: Seq<char>, pos: int) -> Option<(RangeType, int)> {
    let w1 = skip_ws(src, pos);
    if w1 < src.len() && src[w1] == '[' {
        let w2 = skip_ws(src, w1 + 1);
        let (min, q) = match p_number_or_infinity(src, skip_ws(src, w2)) {
            Option::Some((a, x2)) => (a, skip_ws(src, x2)),
            Option::None => (NumberOrInfinity::Unbounded, w2),
        };
        if q < src.len() && src[q] == ',' {
            let (max, q2) = match p_number_or_infinity(src, skip_ws(src, q + 1)) {
                Option::Some((b, y2)) => (b, skip_ws(src, y2)),
                Option::None => (NumberOrInfinity::Unbounded, skip_ws(src, q + 1)),
            };
            let z = skip_ws(src, q2);
            if z < src.len() && src[z] == ']' {
                Option::Some((RangeType { min, max }, skip_ws(src, z + 1)))
            } else {
                Option::None
            }
        } else {
            Option::None
        }
    } else {
        Option::None
    }
}

/// The end of a keyword-or-function name: the keyword run, extended by `()`
/// when it follows directly.
pub open spec fn kof_end(src: Seq<char>, pos: int) -> int {
    let ke = kw_end(src, pos);
    if ke + 1 < src.len() && src[ke] == '(' && src[ke + 1] == ')' {
        ke + 2
    } else {
        ke
    }
}

/// Parses a datatype reference such as `<length>`, `<name [0,inf]>` or
/// `<'background-color'>`.
#[verifier::opaque]
pub open spec fn p_datatype(src: Seq<char>, pos: int) -> Option<(ComponentModel, int)> {
    let w1 = skip_ws(src, pos);
    if w1 < src.len() && src[w1] == '<' {
        let w2 = skip_ws(src, w1 + 1);
        let bare = {
            let ke = kof_end(src, w2);
            if ke == w2 {
                Option::None
            } else {
                Option::Some((src.subrange(w2, ke), false, ke))
            }
        };
        let named = match bare {
            Option::Some(r) => Option::Some(r),
            Option::None => {
                let v1 = skip_ws(src, w2);
                if v1 < src.len() && src[v1] == '\'' {
                    let v2 = skip_ws(src, v1 + 1);
                    let ke = kof_end(src, v2);
                    if ke == v2 {
                        Option::None
                    } else {
                        let u2 = skip_ws(src, ke);
                        if u2 < src.len() && src[u2] == '\'' {
                            Option::Some((src.subrange(v2, ke), true, skip_ws(src, u2 + 1)))
                        } else {
                            Option::None
                        }
                    }
                } else {
                    Option::None
                }
            },
        };
        match named {
            Option::None => Option::None,
            Option::Some((name, quoted, q)) => {
                let (range, q2) = match p_datatype_range(src, q) {
                    Option::Some((r, p2)) => (r, p2),
                    Option::None => (
                        RangeType {
                            min: NumberOrInfinity::Unbounded,
                            max: NumberOrInfinity::Unbounded,
                        },
                        q,
                    ),
                };
                let t = skip_ws(src, q2);
                if t < src.len() && src[t] == '>' {
                    Option::Some(
                        (
                            ComponentModel::Definition {
                                datatype: name,
                                quoted,
                                range,
                                multiplier: SyntaxComponentMultiplier::Once,
                            },
                            skip_ws(src, t + 1),
                        ),
                    )
                } else {
                    Option::None
                }
            },
        }
    } else {
        Option::None
    }
}

/// Whether the text at `pos` begins with the given word.
pub open spec fn starts_with_at(src: Seq<char>, pos: int, word: Seq<char>) -> bool {
    &&& pos >= 0
    &&& pos + word.len() <= src.len()
    &&& src.subrange(pos, pos + word.len()) == word
}

/// Parses the `inherit`, `initial` and `unset` keywords, as plain prefixes.
#[verifier::opaque]
pub open spec fn p_specific_keyword(src: Seq<char>, pos: int) -> Option<(ComponentModel, int)> {
    if starts_with_at(src, pos, "inherit"@) {
        Option::Some(
            (ComponentModel::Inherit { multiplier: SyntaxComponentMultiplier::Once }, pos + 7),
        )
    } else if starts_with_at(src, pos, "initial"@) {
        Option::Some(
            (ComponentModel::Initial { multiplier: SyntaxComponentMultiplier::Once }, pos + 7),
        )
    } else if starts_with_at(src, pos, "unset"@) {
        Option::Some(
            (ComponentModel::Unset { multiplier: SyntaxComponentMultiplier::Once }, pos + 5),
        )
    } else {
        Option::None
    }
}

/// Parses a literal: `/` or `,` with whitespace around them, or quoted text.
#[verifier::opaque]
pub open spec fn p_literal(src: Seq<char>, pos: int) -> Option<(ComponentModel, int)> {
    let l1 = skip_ws(src, pos);
    if l1 < src.len() && src[l1] == '/' {
        Option::Some(
            (
                ComponentModel::Literal {
                    literal: "/"@,
                    multiplier: SyntaxComponentMultiplier::Once,
                },
                skip_ws(src, l1 + 1),
            ),
        )
    } else if l1 < src.len() && src[l1] == ',' {
        Option::Some(
            (
                ComponentModel::Literal {
                    literal: ","@,
                    multiplier: SyntaxComponentMultiplier::Once,
                },
                skip_ws(src, l1 + 1),
            ),
        )
    } else if pos < src.len() && src[pos] == '\'' {
        let end = quote_end(src, pos + 1);
        if end < src.len() {
            Option::Some(
                (
                    ComponentModel::Literal {
                        literal: src.subrange(pos + 1, end),
                        multiplier: SyntaxComponentMultiplier::Once,
                    },
                    end + 1,
                ),
            )
        } else {
            Option::None
        }
    } else {
        Option::None
    }
}

/// The position of the next single quote at or after `pos`, or the text's
/// end.
pub open spec fn quote_end(src: Seq<char>, pos: int) -> int
    decreases src.len() - pos,
{
    if pos < 0 {
        pos
    } else if pos < src.len() && src[pos] != '\'' {
        quote_end(src, pos + 1)
    } else {
        pos
    }
}

/// Parses a quoted property reference such as `'background-color'`.
#[verifier::opaque]
pub open spec fn p_property(src: Seq<char>, pos: int) -> Option<(ComponentModel, int)> {
    if pos < src.len() && src[pos] == '\'' {
        let ke = kw_end(src, pos + 1);
        if ke == pos + 1 {
            Option::None
        } else if ke < src.len() && src[ke] == '\'' {
            Option::Some(
                (
                    ComponentModel::Property {
                        property: src.subrange(pos + 1, ke),
                        multiplier: SyntaxComponentMultiplier::Once,
                    },
                    ke + 1,
                ),
            )
        } else {
            Option::None
        }
    } else {
        Option::None
    }
}

/// Parses a bare keyword such as `left` or `ease-in`.
#[verifier::opaque]
pub open spec fn p_generic_keyword(src: Seq<char>, pos: int) -> Option<(ComponentModel, int)> {
    let ke = kw_end(src, pos);
    if ke == pos {
        Option::None
    } else {
        Option::Some(
            (
                ComponentModel::GenericKeyword {
                    keyword: src.subrange(pos, ke),
                    multiplier: SyntaxComponentMultiplier::Once,
                },
                ke,
            ),
        )
    }
}

/// Fixed-point steps per whole unit, as a specification value.
pub open spec fn micros_per_unit() -> int {
    1000000
}

/// The largest whole magnitude that the number model holds.
pub open spec fn max_magnitude() -> int {
    i64::MAX / 1000000
}

/// The fractional value, in millionths, of the digits in `src[pos..end]`:
/// the first six fractional digits count, later ones are dropped.
pub open spec fn frac_val(src: Seq<char>, pos: int, end: int) -> int {
    let used = if end - pos > 6 {
        pos + 6
    } else {
        end
    };
    digits_val(src, pos, used) * pow10(6 - (used - pos))
}

/// A small power of ten.
pub open spec fn pow10(n: int) -> int
    decreases n,
{
    if n <= 0 {
        1
    } else {
        10 * pow10(n - 1)
    }
}

/// Parses a decimal number with an optional sign and an optional fraction,
/// in fixed-point millionths.  The whole part must fit the number model.
#[verifier::opaque]
pub open spec fn p_decimal(src: Seq<char>, pos: int) -> Option<(int, int)> {
    let (neg, dpos) = if pos < src.len() && src[pos] == '-' {
        (true, pos + 1)
    } else if pos < src.len() && src[pos] == '+' {
        (false, pos + 1)
    } else {
        (false, pos)
    };
    let iend = digits_end(src, dpos);
    if iend == dpos {
        Option::None
    } else if digits_val(src, dpos, iend) > max_magnitude() {
        Option::None
    } else {
        let whole = digits_val(src, dpos, iend) * micros_per_unit();
        let (total, fend) = if iend < src.len() && src[iend] == '.' {
            let fe = digits_end(src, iend + 1);
            (whole + frac_val(src, iend + 1, fe), fe)
        } else {
            (whole, iend)
        };
        if total > i64::MAX {
            Option::None
        } else if neg {
            Option::Some((-total, fend))
        } else {
            Option::Some((total, fend))
        }
    }
}

/// Parses a bare numeric value: `0` alone is the zero literal, a number with
/// a letter suffix is a unit value, and a non-zero number without a suffix
/// is rejected.
#[verifier::opaque]
pub open spec fn p_unit_value(src: Seq<char>, pos: int) -> Option<(ComponentModel, int)> {
    match p_decimal(src, pos) {
        Option::None => Option::None,
        Option::Some((v, p1)) => {
            let ae = alpha_end(src, p1);
            if ae == p1 {
                if v == 0 {
                    Option::Some(
                        (
                            ComponentModel::Value {
                                value: ValueModel::Zero,
                                multiplier: SyntaxComponentMultiplier::Once,
                            },
                            p1,
                        ),
                    )
                } else {
                    Option::None
                }
            } else {
                Option::Some(
                    (
                        ComponentModel::Value {
                            value: ValueModel::Unit(v, src.subrange(p1, ae)),
                            multiplier: SyntaxComponentMultiplier::Once,
                        },
                        ae,
                    ),
                )
            }
        },
    }
}

/// Parses the suffix list inside `unit(..)`: letters separated by `|`; the
/// list may be empty.
#[verifier::opaque]
pub open spec fn p_suffixes(src: Seq<char>, pos: int, acc: Seq<Seq<char>>) -> (Seq<Seq<char>>, int)
    decreases src.len() - pos,
{
    let s1 = skip_ws(src, pos);
    if s1 < src.len() && src[s1] == '|' {
        let s2 = skip_ws(src, s1 + 1);
        let ae = alpha_end(src, s2);
        if ae == s2 {
            (acc, pos)
        } else if ae > pos && ae <= src.len() {
            p_suffixes(src, ae, acc.push(src.subrange(s2, ae)))
        } else {
            (acc, pos)
        }
    } else {
        (acc, pos)
    }
}

/// Parses the inside of `unit(..)`: an optional numeric range written as
/// `a..b` with either bound optional or a single integer, then an optional
/// `|`-separated suffix list.  The bounds are in millionths.
#[verifier::opaque]
pub open spec fn p_unit_inner(src: Seq<char>, pos: int) -> (ComponentModel, int) {
    let paired = {
        let (a, p1) = match p_integer(src, pos) {
            Option::Some((a, p1)) => (Option::Some(a as int * micros_per_unit()), p1),
            Option::None => (Option::None, pos),
        };
        if starts_with_at(src, p1, ".."@) {
            let (b, p2) = match p_integer(src, p1 + 2) {
                Option::Some((b, p2)) => (Option::Some(b as int * micros_per_unit()), p2),
                Option::None => (Option::None, p1 + 2),
            };
            Option::Some(((a, b), p2))
        } else {
            Option::None
        }
    };
    let ranged = match paired {
        Option::Some(r) => Option::Some(r),
        Option::None => match p_integer(src, pos) {
            Option::Some((a, p1)) => Option::Some(
                ((Option::Some(a as int * micros_per_unit()), Option::None::<int>), p1),
            ),
            Option::None => Option::None,
        },
    };
    let ((from, to), p2) = match ranged {
        Option::Some(r) => r,
        Option::None => ((Option::None, Option::None), pos),
    };
    let m = skip_ws(src, p2);
    let first_ae = alpha_end(src, m);
    let (suffixes, p3) = if first_ae == m {
        (Seq::<Seq<char>>::empty(), m)
    } else {
        p_suffixes(src, first_ae, seq![src.subrange(m, first_ae)])
    };
    (
        ComponentModel::Unit {
            from: match from {
                Option::Some(v) => Option::Some(v as i64),
                Option::None => Option::None,
            },
            to: match to {
                Option::Some(v) => Option::Some(v as i64),
                Option::None => Option::None,
            },
            unit: suffixes,
            multiplier: SyntaxComponentMultiplier::Once,
        },
        p3,
    )
}

/// Parses the `unit(..)` pseudo-function.
#[verifier::opaque]
pub open spec fn p_unit_function(src: Seq<char>, pos: int) -> Option<(ComponentModel, int)> {
    if starts_with_at(src, pos, "unit("@) {
        let (c, q) = p_unit_inner(src, pos + 5);
        if q < src.len() && src[q] == ')' {
            Option::Some((c, q + 1))
        } else {
            Option::None
        }
    } else {
        Option::None
    }
}

/// Checks whether a juxtaposition continues after `pos`: plain spacing is
/// stripped, and a bracket or parenthesis close, a bar or an ampersand, or
/// the text's end, end the group.  Returns the stripped position and the
/// continuation flag.
pub open spec fn juxta_separator(src: Seq<char>, pos: int) -> (int, bool) {
    let s = skip_sp(src, pos);
    if s >= src.len() {
        (s, false)
    } else if src[s] == ']' || src[s] == ')' || src[s] == '|' || src[s] == '&' {
        (s, false)
    } else {
        (s, true)
    }
}

/// Parses one component with its multiplier suffix.
pub open spec fn p_component(src: Seq<char>, pos: int) -> Option<(ComponentModel, int)>
    decreases src.len() - pos, 1int,
{
    if pos < 0 || pos > src.len() {
        Option::None
    } else {
        let prim = if p_unit_function(src, pos) is Some {
            p_unit_function(src, pos)
        } else if p_function(src, pos) is Some {
            p_function(src, pos)
        } else if p_property(src, pos) is Some {
            p_property(src, pos)
        } else if p_specific_keyword(src, pos) is Some {
            p_specific_keyword(src, pos)
        } else if p_literal(src, pos) is Some {
            p_literal(src, pos)
        } else if p_group(src, pos) is Some {
            p_group(src, pos)
        } else if p_unit_value(src, pos) is Some {
            p_unit_value(src, pos)
        } else if p_datatype(src, pos) is Some {
            p_datatype(src, pos)
        } else {
            p_generic_keyword(src, pos)
        };
        match prim {
            Option::None => Option::None,
            Option::Some((c, p1)) => {
                if p1 <= pos || p1 > src.len() {
                    Option::None
                } else {
                    let (m, p2) = p_multiplier(src, p1);
                    if p2 > src.len() {
                        Option::None
                    } else {
                        Option::Some((c.with_multiplier(m), p2))
                    }
                }
            },
        }
    }
}

/// Parses a function reference: a name followed by an argument list in
/// parentheses.  An empty list yields no arguments; otherwise the single
/// argument grammar is recorded.
pub open spec fn p_function(src: Seq<char>, pos: int) -> Option<(ComponentModel, int)>
    decreases src.len() - pos, 0int,
{
    if pos < 0 || pos > src.len() {
        Option::None
    } else {
        let ke = kw_end(src, pos);
        if ke == pos {
            Option::None
        } else {
            let name = src.subrange(pos, ke);
            let e1 = skip_sp(src, ke);
            let empty_args = if e1 < src.len() && src[e1] == '(' {
                let e2 = skip_sp(src, e1 + 1);
                if e2 < src.len() && src[e2] == ')' {
                    Option::Some(skip_sp(src, e2 + 1))
                } else {
                    Option::None
                }
            } else {
                Option::None
            };
            match empty_args {
                Option::Some(after) => Option::Some(
                    (
                        ComponentModel::Function {
                            name,
                            arguments: Seq::empty(),
                            multiplier: SyntaxComponentMultiplier::Once,
                        },
                        after,
                    ),
                ),
                Option::None => {
                    let a1 = skip_ws(src, ke);
                    if a1 < src.len() && src[a1] == '(' {
                        let a2 = skip_ws(src, a1 + 1);
                        if a2 > pos && a2 <= src.len() {
                            match p_singlebar(src, a2) {
                                Option::None => Option::None,
                                Option::Some((arg, a4)) => {
                                    let a5 = skip_ws(src, a4);
                                    if a5 < src.len() && src[a5] == ')' {
                                        Option::Some(
                                            (
                                                ComponentModel::Function {
                                                    name,
                                                    arguments: seq![arg],
                                                    multiplier: SyntaxComponentMultiplier::Once,
                                                },
                                                skip_ws(src, a5 + 1),
                                            ),
                                        )
                                    } else {
                                        Option::None
                                    }
                                },
                            }
                        } else {
                            Option::None
                        }
                    } else {
                        Option::None
                    }
                },
            }
        }
    }
}

/// Parses a bracketed group, recursing into the full operator stack.
pub open spec fn p_group(src: Seq<char>, pos: int) -> Option<(ComponentModel, int)>
    decreases src.len() - pos, 0int,
{
    if pos < 0 || pos > src.len() {
        Option::None
    } else {
        let g1 = skip_ws(src, pos);
        if g1 < src.len() && src[g1] == '[' {
            let g2 = skip_ws(src, g1 + 1);
            if g2 > pos && g2 <= src.len() {
                match p_singlebar(src, g2) {
                    Option::None => Option::None,
                    Option::Some((c, g3)) => {
                        let g4 = skip_ws(src, g3);
                        if g4 < src.len() && src[g4] == ']' {
                            Option::Some((c, skip_ws(src, g4 + 1)))
                        } else {
                            Option::None
                        }
                    },
                }
            } else {
                Option::None
            }
        } else {
            Option::None
        }
    }
}

/// Collapses a parsed layer: a single item stands alone, several items
/// become a group with the layer's combinator.
pub open spec fn collapse(items: Seq<ComponentModel>, comb: GroupCombinators) -> ComponentModel {
    if items.len() == 1 {
        items[0]
    } else {
        ComponentModel::Group {
            components: items,
            combinator: comb,
            multiplier: SyntaxComponentMultiplier::Once,
        }
    }
}

/// Parses the rest of a juxtaposition: as long as the separator check says
/// the group goes on, another component must follow; a missing component
/// fails the whole juxtaposition.
pub open spec fn p_juxt_rest(src: Seq<char>, items: Seq<ComponentModel>, cur: int) -> Option<(
    Seq<ComponentModel>,
    int,
)>
    decreases src.len() - cur, 2int,
{
    if cur < 0 || cur > src.len() {
        Option::None
    } else {
        let (s, go_on) = juxta_separator(src, cur);
        if s < cur || s > src.len() {
            Option::None
        } else if !go_on {
            Option::Some((items, s))
        } else {
            match p_component(src, s) {
                Option::None => Option::None,
                Option::Some((c, p1)) => {
                    if p1 > cur && p1 <= src.len() {
                        p_juxt_rest(src, items.push(c), p1)
                    } else {
                        Option::None
                    }
                },
            }
        }
    }
}

/// Parses a space-separated juxtaposition list.
pub open spec fn p_juxtaposition(src: Seq<char>, pos: int) -> Option<(ComponentModel, int)>
    decreases src.len() - pos, 3int,
{
    if pos < 0 || pos > src.len() {
        Option::None
    } else {
        let j1 = skip_sp(src, pos);
        if j1 < pos || j1 > src.len() {
            Option::None
        } else {
        match p_component(src, j1) {
            Option::None => Option::None,
            Option::Some((c1, p1)) => {
                if p1 > pos && p1 <= src.len() {
                    match p_juxt_rest(src, seq![c1], p1) {
                        Option::None => Option::None,
                        Option::Some((items, p2)) => Option::Some(
                            (collapse(items, GroupCombinators::Juxtaposition), p2),
                        ),
                    }
                } else {
                    Option::None
                }
            },
        }
        }
    }
}

/// Parses the rest of a `&&`-separated list; a separator not followed by an
/// element is left unconsumed.
pub open spec fn p_ampersand_rest(src: Seq<char>, items: Seq<ComponentModel>, cur: int) -> (
    Seq<ComponentModel>,
    int,
)
    decreases src.len() - cur, 5int,
{
    if cur < 0 || cur > src.len() {
        (items, cur)
    } else {
        let s1 = skip_ws(src, cur);
        if s1 + 1 < src.len() && src[s1] == '&' && src[s1 + 1] == '&' {
            let s2 = skip_ws(src, s1 + 2);
            if s2 > cur && s2 <= src.len() {
                match p_juxtaposition(src, s2) {
                    Option::None => (items, cur),
                    Option::Some((c, p1)) => {
                        if p1 > cur && p1 <= src.len() {
                            p_ampersand_rest(src, items.push(c), p1)
                        } else {
                            (items, cur)
                        }
                    },
                }
            } else {
                (items, cur)
            }
        } else {
            (items, cur)
        }
    }
}

/// Parses a `&&`-separated list of juxtapositions.
pub open spec fn p_doubleampersand(src: Seq<char>, pos: int) -> Option<(ComponentModel, int)>
    decreases src.len() - pos, 4int,
{
    if pos < 0 || pos > src.len() {
        Option::None
    } else {
        match p_juxtaposition(src, pos) {
            Option::None => Option::None,
            Option::Some((c1, p1)) => {
                if p1 > pos && p1 <= src.len() {
                    let (items, p2) = p_ampersand_rest(src, seq![c1], p1);
                    Option::Some((collapse(items, GroupCombinators::AllAnyOrder), p2))
                } else {
                    Option::None
                }
            },
        }
    }
}

/// Parses the rest of a `||`-separated list.
pub open spec fn p_doublebar_rest(src: Seq<char>, items: Seq<ComponentModel>, cur: int) -> (
    Seq<ComponentModel>,
    int,
)
    decreases src.len() - cur, 7int,
{
    if cur < 0 || cur > src.len() {
        (items, cur)
    } else {
        let s1 = skip_ws(src, cur);
        if s1 + 1 < src.len() && src[s1] == '|' && src[s1 + 1] == '|' {
            let s2 = skip_ws(src, s1 + 2);
            if s2 > cur && s2 <= src.len() {
                match p_doubleampersand(src, s2) {
                    Option::None => (items, cur),
                    Option::Some((c, p1)) => {
                        if p1 > cur && p1 <= src.len() {
                            p_doublebar_rest(src, items.push(c), p1)
                        } else {
                            (items, cur)
                        }
                    },
                }
            } else {
                (items, cur)
            }
        } else {
            (items, cur)
        }
    }
}

/// Parses a `||`-separated list of `&&` lists.
pub open spec fn p_doublebar(src: Seq<char>, pos: int) -> Option<(ComponentModel, int)>
    decreases src.len() - pos, 6int,
{
    if pos < 0 || pos > src.len() {
        Option::None
    } else {
        match p_doubleampersand(src, pos) {
            Option::None => Option::None,
            Option::Some((c1, p1)) => {
                if p1 > pos && p1 <= src.len() {
                    let (items, p2) = p_doublebar_rest(src, seq![c1], p1);
                    Option::Some((collapse(items, GroupCombinators::AtLeastOneAnyOrder), p2))
                } else {
                    Option::None
                }
            },
        }
    }
}

/// Parses the rest of a `|`-separated list.  A single bar that begins a
/// double bar is not a separator here, because the `||` layer has already
/// consumed any double bars it could.
pub open spec fn p_singlebar_rest(src: Seq<char>, items: Seq<ComponentModel>, cur: int) -> (
    Seq<ComponentModel>,
    int,
)
    decreases src.len() - cur, 9int,
{
    if cur < 0 || cur > src.len() {
        (items, cur)
    } else {
        let s1 = skip_ws(src, cur);
        if s1 < src.len() && src[s1] == '|' {
            let s2 = skip_ws(src, s1 + 1);
            if s2 > cur && s2 <= src.len() {
                match p_doublebar(src, s2) {
                    Option::None => (items, cur),
                    Option::Some((c, p1)) => {
                        if p1 > cur && p1 <= src.len() {
                            p_singlebar_rest(src, items.push(c), p1)
                        } else {
                            (items, cur)
                        }
                    },
                }
            } else {
                (items, cur)
            }
        } else {
            (items, cur)
        }
    }
}

/// Parses a `|`-separated list of `||` lists: the loosest layer of the
/// grammar.
pub open spec fn p_singlebar(src: Seq<char>, pos: int) -> Option<(ComponentModel, int)>
    decreases src.len() - pos, 8int,
{
    if pos < 0 || pos > src.len() {
        Option::None
    } else {
        match p_doublebar(src, pos) {
            Option::None => Option::None,
            Option::Some((c1, p1)) => {
                if p1 > pos && p1 <= src.len() {
                    let (items, p2) = p_singlebar_rest(src, seq![c1], p1);
                    Option::Some((collapse(items, GroupCombinators::ExactlyOne), p2))
                } else {
                    Option::None
                }
            },
        }
    }
}

/// Parses a whole grammar: leading whitespace, then the full operator stack.
pub open spec fn p_parse(src: Seq<char>) -> Option<(ComponentModel, int)> {
    p_singlebar(src, skip_ws(src, 0))
}

/// The outcome of compiling a grammar source: the components of the tree, or
/// a failure carrying the text that could not be compiled.
pub ghost enum CompileModel {
    Done(Seq<ComponentModel>),
    Fail(Seq<char>),
}

/// What compiling a grammar source yields: the empty source compiles to the
/// empty tree; otherwise the source must parse and be consumed in full up to
/// trailing whitespace, and the tree holds the one parsed root.  A failure
/// carries the unconsumed text, or the whole source when nothing parsed.
pub open spec fn spec_compile(src: Seq<char>) -> CompileModel {
    if src.len() == 0 {
        CompileModel::Done(Seq::empty())
    } else {
        match p_parse(src) {
            Option::None => CompileModel::Fail(src),
            Option::Some((c, p)) => {
                if skip_ws(src, p) == src.len() {
                    CompileModel::Done(seq![c])
                } else {
                    CompileModel::Fail(src.subrange(p, src.len() as int))
                }
            },
        }
    }
}

} // verus!
