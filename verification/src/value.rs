//! Runtime values and bytecode literal operands.

use vstd::prelude::*;

verus! {

use crate::types::Type;

/// A value held in variable storage, passed to library functions, or pushed
/// on the virtual machine's evaluation stack.  Numbers are 64-bit signed
/// integers.
#[derive(Debug, PartialEq, Eq)]
pub enum YarnValue {
    Str(String),
    Number(i64),
    Bool(bool),
}

/// Equality of values: same variant, and the payloads agree (string payloads
/// by their character sequences).
pub open spec fn value_eq(a: YarnValue, b: YarnValue) -> bool {
    match (a, b) {
        (YarnValue::Str(x), YarnValue::Str(y)) => x@ == y@,
        (YarnValue::Number(x), YarnValue::Number(y)) => x == y,
        (YarnValue::Bool(x), YarnValue::Bool(y)) => x == y,
        _ => false,
    }
}

/// The language type of a value.
pub open spec fn value_type_spec(v: YarnValue) -> Type {
    match v {
        YarnValue::Str(_) => Type::String,
        YarnValue::Number(_) => Type::Number,
        YarnValue::Bool(_) => Type::Boolean,
    }
}

impl YarnValue {
    /// Returns the language type of this value.
    pub fn value_type(&self) -> (r: Type)
        ensures
            r == value_type_spec(*self),
    {
        match self {
            YarnValue::Str(_) => Type::String,
            YarnValue::Number(_) => Type::Number,
            YarnValue::Bool(_) => Type::Boolean,
        }
    }

    /// Decides `value_eq`.
    pub fn eq_value(&self, other: &YarnValue) -> (r: bool)
        ensures
            r == value_eq(*self, *other),
    {
        match (self, other) {
            (YarnValue::Str(x), YarnValue::Str(y)) => x.eq(y),
            (YarnValue::Number(x), YarnValue::Number(y)) => x == y,
            (YarnValue::Bool(x), YarnValue::Bool(y)) => x == y,
            _ => false,
        }
    }
}

impl Clone for YarnValue {
    /// Cloning preserves the value exactly.
    fn clone(&self) -> (r: Self)
        ensures
            r == *self,
    {
        match self {
            YarnValue::Str(s) => YarnValue::Str(s.clone()),
            YarnValue::Number(n) => YarnValue::Number(*n),
            YarnValue::Bool(b) => YarnValue::Bool(*b),
        }
    }
}

/// The mathematical content of a value: its variant and payload, with string
/// payloads as character sequences.
pub enum ValueView {
    VStr(Seq<char>),
    VNum(i64),
    VBool(bool),
}

/// The view of a value.
pub open spec fn value_view(v: YarnValue) -> ValueView {
    match v {
        YarnValue::Str(s) => ValueView::VStr(s@),
        YarnValue::Number(n) => ValueView::VNum(n),
        YarnValue::Bool(b) => ValueView::VBool(b),
    }
}

/// The view of an optional value.
pub open spec fn opt_value_view(v: Option<YarnValue>) -> Option<ValueView> {
    match v {
        Option::Some(x) => Some(value_view(x)),
        Option::None => None,
    }
}

/// The views of a sequence of values.
pub open spec fn value_views(s: Seq<YarnValue>) -> Seq<ValueView> {
    s.map_values(|v: YarnValue| value_view(v))
}

/// A literal operand of a bytecode instruction, and the representation of a
/// variable's registered initial value in a compiled program.
#[derive(Debug, PartialEq, Eq)]
pub enum Operand {
    StringValue(String),
    NumberValue(i64),
    BoolValue(bool),
}

/// Equality of operands, string payloads by their character sequences.
pub open spec fn operand_eq(a: Operand, b: Operand) -> bool {
    match (a, b) {
        (Operand::StringValue(x), Operand::StringValue(y)) => x@ == y@,
        (Operand::NumberValue(x), Operand::NumberValue(y)) => x == y,
        (Operand::BoolValue(x), Operand::BoolValue(y)) => x == y,
        _ => false,
    }
}

/// The operand that registers a value: each value variant maps to the operand
/// variant of the matching type.
pub open spec fn operand_of_value(v: YarnValue) -> Operand {
    match v {
        YarnValue::Str(s) => Operand::StringValue(s),
        YarnValue::Number(n) => Operand::NumberValue(n),
        YarnValue::Bool(b) => Operand::BoolValue(b),
    }
}

/// Converts a value into the literal operand of the matching type.
pub fn operand_from_value(v: &YarnValue) -> (r: Operand)
    ensures
        r == operand_of_value(*v),
{
    match v {
        YarnValue::Str(s) => Operand::StringValue(s.clone()),
        YarnValue::Number(n) => Operand::NumberValue(*n),
        YarnValue::Bool(b) => Operand::BoolValue(*b),
    }
}

/// The value a literal operand stands for.
pub open spec fn value_of_operand_spec(op: Operand) -> YarnValue {
    match op {
        Operand::StringValue(s) => YarnValue::Str(s),
        Operand::NumberValue(n) => YarnValue::Number(n),
        Operand::BoolValue(b) => YarnValue::Bool(b),
    }
}

/// Converts a literal operand back into the value it stands for.
pub fn value_of_operand(op: &Operand) -> (r: YarnValue)
    ensures
        r == value_of_operand_spec(*op),
{
    match op {
        Operand::StringValue(s) => YarnValue::Str(s.clone()),
        Operand::NumberValue(n) => YarnValue::Number(*n),
        Operand::BoolValue(b) => YarnValue::Bool(*b),
    }
}

impl Clone for Operand {
    /// Cloning preserves the operand exactly.
    fn clone(&self) -> (r: Self)
        ensures
            r == *self,
    {
        match self {
            Operand::StringValue(s) => Operand::StringValue(s.clone()),
            Operand::NumberValue(n) => Operand::NumberValue(*n),
            Operand::BoolValue(b) => Operand::BoolValue(*b),
        }
    }
}

} // verus!
