//! The CSS value model: the token alphabet that the matcher consumes.
//! Numeric magnitudes are fixed-point numbers in millionths, so that the
//! grammar compiler and the matcher work on exact integers.

use vstd::prelude::*;

verus! {

/// How many fixed-point steps make one whole unit.
pub const MICROS_PER_UNIT: i64 = 1000000;

/// A fixed-point decimal number: the value is `micros` millionths.
#[derive(Copy, Clone, Debug, PartialEq, Eq, Structural)]
pub struct CssNumber {
    /// The value in millionths.
    pub micros: i64,
}

impl CssNumber {
    /// The number holding `n` millionths.
    pub fn from_micros(n: i64) -> (r: Self)
        ensures
            r.micros == n,
    {
        Self { micros: n }
    }

    /// The number holding the integer `n`.
    pub fn from_int(n: i32) -> (r: Self)
        ensures
            r.micros == n * MICROS_PER_UNIT,
    {
        Self { micros: (n as i64) * MICROS_PER_UNIT }
    }

    /// The value in millionths.
    pub fn as_micros(&self) -> (r: i64)
        ensures
            r == self.micros,
    {
        self.micros
    }

    /// Whether the number is zero.
    pub fn is_zero(&self) -> (r: bool)
        ensures
            r == (self.micros == 0),
    {
        self.micros == 0
    }
}

/// A color as four 8-bit channels.
#[derive(Copy, Clone, Debug, PartialEq, Eq, Structural)]
pub struct RgbColor {
    /// Red channel.
    pub r: u8,
    /// Green channel.
    pub g: u8,
    /// Blue channel.
    pub b: u8,
    /// Alpha channel.
    pub a: u8,
}

impl RgbColor {
    /// A color from its four channels.
    pub fn new(r: u8, g: u8, b: u8, a: u8) -> (c: Self)
        ensures
            c == (RgbColor { r, g, b, a }),
    {
        Self { r, g, b, a }
    }
}

/// A CSS value token: what the external tokenizer produces and the matcher
/// consumes.
#[derive(Debug, PartialEq)]
pub enum CssValue {
    /// The `none` sentinel.
    NoneKeyword,
    /// A concrete color.
    Color(RgbColor),
    /// A bare number.
    Number(CssNumber),
    /// A percentage.
    Percentage(CssNumber),
    /// A string, also used for keywords.
    Str(String),
    /// A magnitude with a unit suffix, such as `10px`.
    Unit(CssNumber, String),
    /// The bare zero literal.
    Zero,
    /// A comma separator.
    Comma,
    /// A function call with its argument values.
    Function(String, Vec<CssValue>),
    /// A list of values.
    List(Vec<CssValue>),
    /// The `inherit` sentinel.
    Inherit,
    /// The `initial` sentinel.
    Initial,
}

/// Mathematical content of a CSS value.
pub ghost enum ValueModel {
    NoneKeyword,
    Color(RgbColor),
    Number(int),
    Percentage(int),
    Str(Seq<char>),
    Unit(int, Seq<char>),
    Zero,
    Comma,
    Function(Seq<char>, Seq<ValueModel>),
    List(Seq<ValueModel>),
    Inherit,
    Initial,
}

impl CssValue {
    /// The value as a mathematical value.
    pub open spec fn model(self) -> ValueModel
        decreases self,
    {
        match self {
            CssValue::NoneKeyword => ValueModel::NoneKeyword,
            CssValue::Color(c) => ValueModel::Color(c),
            CssValue::Number(n) => ValueModel::Number(n.micros as int),
            CssValue::Percentage(n) => ValueModel::Percentage(n.micros as int),
            CssValue::Str(s) => ValueModel::Str(s@),
            CssValue::Unit(n, u) => ValueModel::Unit(n.micros as int, u@),
            CssValue::Zero => ValueModel::Zero,
            CssValue::Comma => ValueModel::Comma,
            CssValue::Function(name, args) => ValueModel::Function(name@, models(args@)),
            CssValue::List(items) => ValueModel::List(models(items@)),
            CssValue::Inherit => ValueModel::Inherit,
            CssValue::Initial => ValueModel::Initial,
        }
    }
}

/// The mathematical content of a sequence of CSS values.
pub open spec fn models(s: Seq<CssValue>) -> Seq<ValueModel>
    decreases s,
{
    if s.len() == 0 {
        Seq::empty()
    } else {
        seq![s[0].model()] + models(s.subrange(1, s.len() as int))
    }
}

/// The model sequence is as long as the value sequence, and each element is
/// the model of the value at the same place.
pub proof fn lemma_models(s: Seq<CssValue>)
    ensures
        models(s).len() == s.len(),
        forall|i: int| 0 <= i < s.len() ==> models(s)[i] == s[i].model(),
    decreases s,
{
    if s.len() > 0 {
        lemma_models(s.subrange(1, s.len() as int));
    }
}

/// Models distribute over push.
pub proof fn lemma_models_push(s: Seq<CssValue>, v: CssValue)
    ensures
        models(s.push(v)) == models(s).push(v.model()),
    decreases s,
{
    lemma_models(s.push(v));
    lemma_models(s);
    assert(models(s.push(v)) =~= models(s).push(v.model()));
}

/// Models distribute over concatenation.
pub proof fn lemma_models_add(a: Seq<CssValue>, b: Seq<CssValue>)
    ensures
        models(a + b) == models(a) + models(b),
{
    lemma_models(a + b);
    lemma_models(a);
    lemma_models(b);
    assert(models(a + b) =~= models(a) + models(b));
}

/// Models distribute over subrange.
pub proof fn lemma_models_subrange(s: Seq<CssValue>, i: int, j: int)
    requires
        0 <= i <= j <= s.len(),
    ensures
        models(s.subrange(i, j)) == models(s).subrange(i, j),
{
    lemma_models(s.subrange(i, j));
    lemma_models(s);
    assert(models(s.subrange(i, j)) =~= models(s).subrange(i, j));
}

impl CssValue {
    /// A deep copy of the value.
    pub fn duplicate(&self) -> (r: Self)
        ensures
            r.model() == self.model(),
        decreases self,
    {
        match self {
            CssValue::NoneKeyword => CssValue::NoneKeyword,
            CssValue::Color(c) => CssValue::Color(*c),
            CssValue::Number(n) => CssValue::Number(*n),
            CssValue::Percentage(n) => CssValue::Percentage(*n),
            CssValue::Str(s) => CssValue::Str(s.clone()),
            CssValue::Unit(n, u) => CssValue::Unit(*n, u.clone()),
            CssValue::Zero => CssValue::Zero,
            CssValue::Comma => CssValue::Comma,
            CssValue::Function(name, args) => CssValue::Function(name.clone(), duplicate_values(args)),
            CssValue::List(items) => CssValue::List(duplicate_values(items)),
            CssValue::Inherit => CssValue::Inherit,
            CssValue::Initial => CssValue::Initial,
        }
    }

    /// Whether two values have the same mathematical content.
    pub fn same_value(&self, other: &Self) -> (r: bool)
        ensures
            r == (self.model() == other.model()),
        decreases self,
    {
        match (self, other) {
            (CssValue::NoneKeyword, CssValue::NoneKeyword) => true,
            (CssValue::Color(a), CssValue::Color(b)) => a == b,
            (CssValue::Number(a), CssValue::Number(b)) => a == b,
            (CssValue::Percentage(a), CssValue::Percentage(b)) => a == b,
            (CssValue::Str(a), CssValue::Str(b)) => crate::strings::str_eq(
                a.as_str(),
                b.as_str(),
            ),
            (CssValue::Unit(a, ua), CssValue::Unit(b, ub)) => a == b
                && crate::strings::str_eq(ua.as_str(), ub.as_str()),
            (CssValue::Zero, CssValue::Zero) => true,
            (CssValue::Comma, CssValue::Comma) => true,
            (CssValue::Function(na, aa), CssValue::Function(nb, ab)) => crate::strings::str_eq(
                na.as_str(),
                nb.as_str(),
            ) && same_values(aa, ab),
            (CssValue::List(a), CssValue::List(b)) => same_values(a, b),
            (CssValue::Inherit, CssValue::Inherit) => true,
            (CssValue::Initial, CssValue::Initial) => true,
            _ => false,
        }
    }

    /// Whether the value is the comma separator.
    pub fn is_comma(&self) -> (r: bool)
        ensures
            r == (self.model() == ValueModel::Comma),
    {
        matches!(self, CssValue::Comma)
    }
}

/// A deep copy of a vector of values.
pub fn duplicate_values(vs: &Vec<CssValue>) -> (r: Vec<CssValue>)
    ensures
        models(r@) == models(vs@),
        r@.len() == vs@.len(),
    decreases vs@,
{
    let mut out: Vec<CssValue> = Vec::new();
    let mut i: usize = 0;
    proof {
        lemma_models(vs@);
    }
    while i < vs.len()
        invariant
            i <= vs@.len(),
            out@.len() == i,
            models(out@) == models(vs@.subrange(0, i as int)),
        decreases vs@.len() - i,
    {
        let d = vs[i].duplicate();
        proof {
            lemma_models_push(out@, d);
            lemma_models_push(vs@.subrange(0, i as int), vs@[i as int]);
            assert(vs@.subrange(0, i as int).push(vs@[i as int]) =~= vs@.subrange(0, i + 1));
            lemma_models(vs@);
            lemma_models(vs@.subrange(0, i as int));
        }
        out.push(d);
        i = i + 1;
    }
    proof {
        assert(vs@.subrange(0, i as int) =~= vs@);
        lemma_models(vs@);
    }
    out
}

impl Clone for CssValue {
    /// A deep copy of the value.
    fn clone(&self) -> (r: Self)
        ensures
            r.model() == self.model(),
    {
        self.duplicate()
    }
}

/// Whether two vectors of values have the same mathematical content.
pub fn same_values(a: &Vec<CssValue>, b: &Vec<CssValue>) -> (r: bool)
    ensures
        r == (models(a@) == models(b@)),
    decreases a@,
{
    proof {
        lemma_models(a@);
        lemma_models(b@);
    }
    if a.len() != b.len() {
        return false;
    }
    let mut i: usize = 0;
    while i < a.len()
        invariant
            a@.len() == b@.len(),
            i <= a@.len(),
            models(a@).len() == a@.len(),
            models(b@).len() == b@.len(),
            forall|j: int| 0 <= j < a@.len() ==> models(a@)[j] == a@[j].model(),
            forall|j: int| 0 <= j < b@.len() ==> models(b@)[j] == b@[j].model(),
            forall|j: int| 0 <= j < i ==> a@[j].model() == b@[j].model(),
        decreases a@.len() - i,
    {
        if !a[i].same_value(&b[i]) {
            proof {
                assert(models(a@)[i as int] != models(b@)[i as int]);
            }
            return false;
        }
        i = i + 1;
    }
    proof {
        assert(models(a@) =~= models(b@));
    }
    true
}

} // verus!
