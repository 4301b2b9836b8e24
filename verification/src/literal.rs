//! Runtime values.

use crate::number;
use vstd::prelude::*;

verus! {

/// A runtime value. A number is held as its binary64 bit pattern.
#[derive(Debug)]
pub enum Literal {
    True,
    False,
    Number(u64),
    String(String),
}

/// The mathematical model of a [`Literal`].
pub enum Value {
    True,
    False,
    Number(u64),
    Text(Seq<char>),
}

impl View for Literal {
    type V = Value;

    open spec fn view(&self) -> Value {
        match self {
            Literal::True => Value::True,
            Literal::False => Value::False,
            Literal::Number(bits) => Value::Number(*bits),
            Literal::String(s) => Value::Text(s@),
        }
    }
}

/// Structural equality of values: numbers compare as IEEE numbers, texts
/// character by character, and values of different kinds are unequal.
pub open spec fn value_eq(a: Value, b: Value) -> bool {
    match (a, b) {
        (Value::True, Value::True) => true,
        (Value::False, Value::False) => true,
        (Value::Number(x), Value::Number(y)) => number::number_eq(x, y),
        (Value::Text(s), Value::Text(t)) => s == t,
        _ => false,
    }
}

/// The name of a value's kind as diagnostics spell it.
pub open spec fn kind_name(v: Value) -> Seq<char> {
    match v {
        Value::True => "true"@,
        Value::False => "false"@,
        Value::Number(_) => "number"@,
        Value::Text(_) => "string"@,
    }
}

/// The text that `show` gives to the bit pattern of a number.
pub open spec fn shown<S: Fn(u64) -> String>(show: S, bits: u64) -> Seq<char> {
    (choose|s: String| show.ensures((bits,), s))@
}

/// `show` can serve as the printer of numbers: it accepts every pattern,
/// and the text it returns depends on the pattern alone.
pub open spec fn shows<S: Fn(u64) -> String>(show: S) -> bool {
    &&& forall|bits: u64| #[trigger] show.requires((bits,))
    &&& forall|bits: u64, s: String| #[trigger]
        show.ensures((bits,), s) ==> s@ == shown(show, bits)
}

/// The text of a value as it is printed and concatenated: a string is its
/// own text, and a number has the text that `show` gives it.
pub open spec fn text_of<S: Fn(u64) -> String>(v: Value, show: S) -> Seq<char> {
    match v {
        Value::True => "true"@,
        Value::False => "false"@,
        Value::Number(bits) => shown(show, bits),
        Value::Text(s) => s,
    }
}

impl PartialEq for Literal {
    fn eq(&self, other: &Self) -> (r: bool) {
        self.equals(other)
    }
}

impl vstd::std_specs::cmp::PartialEqSpecImpl for Literal {
    open spec fn obeys_eq_spec() -> bool {
        true
    }

    open spec fn eq_spec(&self, other: &Self) -> bool {
        value_eq(self@, other@)
    }
}

impl Clone for Literal {
    fn clone(&self) -> (r: Self)
        ensures
            r == *self,
    {
        match self {
            Literal::True => Literal::True,
            Literal::False => Literal::False,
            Literal::Number(bits) => Literal::Number(*bits),
            Literal::String(s) => Literal::String(s.clone()),
        }
    }
}

impl Literal {
    /// The name of this value's kind: `number`, `string`, `true` or `false`.
    pub fn to_type_string(&self) -> (r: String)
        ensures
            r@ == kind_name(self@),
    {
        match self {
            Literal::True => "true".to_owned(),
            Literal::False => "false".to_owned(),
            Literal::Number(_) => "number".to_owned(),
            Literal::String(_) => "string".to_owned(),
        }
    }

    /// The text of this value as it is printed and concatenated. A number
    /// is printed by `show`.
    pub fn to_text<S: Fn(u64) -> String>(&self, show: &S) -> (r: String)
        requires
            shows(*show),
        ensures
            r@ == text_of(self@, *show),
    {
        match self {
            Literal::True => "true".to_owned(),
            Literal::False => "false".to_owned(),
            Literal::Number(bits) => show(*bits),
            Literal::String(s) => s.clone(),
        }
    }

    /// Structural equality with another value.
    pub fn equals(&self, other: &Literal) -> (r: bool)
        ensures
            r == value_eq(self@, other@),
    {
        match (self, other) {
            (Literal::True, Literal::True) => true,
            (Literal::False, Literal::False) => true,
            (Literal::Number(x), Literal::Number(y)) => number::equal(*x, *y),
            (Literal::String(s), Literal::String(t)) => *s == *t,
            _ => false,
        }
    }
}

} // verus!
