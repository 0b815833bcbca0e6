//! The values of the language and the operators on them.
//!
//! A number is held as the 64 bits of its IEEE 754 double. Comparing and
//! negating work on those bits. Adding, subtracting, multiplying and dividing
//! do not: they are left to the host, see [`Applied::Arithmetic`].

use vstd::prelude::*;
use crate::ast::{LiteralValue, LiteralView, Operator};
use crate::text::join;

verus! {

/// The bit that holds the sign of a number.
pub const SIGN_BIT: u64 = 0x8000_0000_0000_0000;

/// The bits that hold exponent and fraction of a number.
pub const MAGNITUDE_BITS: u64 = 0x7fff_ffff_ffff_ffff;

/// The magnitude of infinity; every magnitude above it is not a number.
pub const INFINITY_BITS: u64 = 0x7ff0_0000_0000_0000;

/// A value of the language.
#[derive(Debug, Clone)]
pub enum Value {
    /// A number, by the bits of its double.
    Number(u64),
    Str(String),
    Bool(bool),
    Nil,
    /// A function, by its index among the closures of the interpreter.
    Function(usize),
    /// A class, by its index among the classes of the interpreter.
    Class(usize),
    /// An instance of a class, by its index among the instances of the
    /// interpreter.
    Instance(usize),
}

/// What a [`Value`] holds, with a sequence of characters for its string.
pub enum ValueView {
    Number(u64),
    Str(Seq<char>),
    Bool(bool),
    Nil,
    Function(usize),
    Class(usize),
    Instance(usize),
}

impl View for Value {
    type V = ValueView;

    open spec fn view(&self) -> ValueView {
        match self {
            Value::Number(bits) => ValueView::Number(*bits),
            Value::Str(s) => ValueView::Str(s@),
            Value::Bool(b) => ValueView::Bool(*b),
            Value::Nil => ValueView::Nil,
            Value::Function(id) => ValueView::Function(*id),
            Value::Class(id) => ValueView::Class(*id),
            Value::Instance(id) => ValueView::Instance(*id),
        }
    }
}

/// The view of a value that may be missing.
pub open spec fn optional_value_view(value: Option<Value>) -> Option<ValueView> {
    match value {
        Some(v) => Some(v@),
        None => None,
    }
}

/// The views of `values`, in order.
pub open spec fn values_view(values: Seq<Value>) -> Seq<ValueView> {
    values.map_values(|v: Value| v@)
}

/// Exponent and fraction of a number, without its sign.
pub open spec fn magnitude(bits: u64) -> u64 {
    bits & MAGNITUDE_BITS
}

/// Whether the sign of a number is set.
pub open spec fn negative(bits: u64) -> bool {
    bits & SIGN_BIT != 0
}

/// Whether `bits` hold no number (NaN).
pub open spec fn not_a_number(bits: u64) -> bool {
    magnitude(bits) > INFINITY_BITS
}

/// Where a number stands among the numbers: its magnitude, below zero for a
/// negative number. Both zeros stand at 0.
pub open spec fn rank(bits: u64) -> int {
    if negative(bits) {
        -(magnitude(bits) as int)
    } else {
        magnitude(bits) as int
    }
}

/// `a == b` for numbers: no NaN is equal to anything, and the two zeros are
/// equal.
pub open spec fn number_eq(a: u64, b: u64) -> bool {
    !not_a_number(a) && !not_a_number(b) && rank(a) == rank(b)
}

/// `a < b` for numbers: false where one of them is NaN.
pub open spec fn number_lt(a: u64, b: u64) -> bool {
    !not_a_number(a) && !not_a_number(b) && rank(a) < rank(b)
}

/// `a <= b` for numbers: false where one of them is NaN.
pub open spec fn number_le(a: u64, b: u64) -> bool {
    !not_a_number(a) && !not_a_number(b) && rank(a) <= rank(b)
}

/// `-a` for numbers: the sign is flipped.
pub open spec fn number_neg(a: u64) -> u64 {
    a ^ SIGN_BIT
}

/// Whether `bits` hold no number (NaN).
pub fn is_nan(bits: u64) -> (r: bool)
    ensures
        r == not_a_number(bits),
{
    bits & MAGNITUDE_BITS > INFINITY_BITS
}

/// `a < b` or, with `or_equal`, `a <= b`.
pub fn less(a: u64, b: u64, or_equal: bool) -> (r: bool)
    ensures
        r == if or_equal {
            number_le(a, b)
        } else {
            number_lt(a, b)
        },
{
    if is_nan(a) || is_nan(b) {
        return false;
    }
    let a_mag = a & MAGNITUDE_BITS;
    let b_mag = b & MAGNITUDE_BITS;
    let a_neg = a & SIGN_BIT != 0;
    let b_neg = b & SIGN_BIT != 0;
    if a_neg {
        if b_neg {
            if or_equal {
                b_mag <= a_mag
            } else {
                b_mag < a_mag
            }
        } else {
            if or_equal {
                true
            } else {
                a_mag != 0 || b_mag != 0
            }
        }
    } else {
        if b_neg {
            or_equal && a_mag == 0 && b_mag == 0
        } else {
            if or_equal {
                a_mag <= b_mag
            } else {
                a_mag < b_mag
            }
        }
    }
}

/// `a == b` for numbers.
pub fn equal_numbers(a: u64, b: u64) -> (r: bool)
    ensures
        r == number_eq(a, b),
{
    if is_nan(a) || is_nan(b) {
        return false;
    }
    let a_mag = a & MAGNITUDE_BITS;
    let b_mag = b & MAGNITUDE_BITS;
    assert((a & 0x7fff_ffff_ffff_ffff == b & 0x7fff_ffff_ffff_ffff && (a & 0x8000_0000_0000_0000
        != 0) == (b & 0x8000_0000_0000_0000 != 0)) ==> a == b) by (bit_vector);
    a == b || (a_mag == 0 && b_mag == 0)
}

impl ValueView {
    /// Truthiness: `nil` and `false` are false, everything else is true.
    pub open spec fn truthy(self) -> bool {
        match self {
            ValueView::Bool(b) => b,
            ValueView::Nil => false,
            _ => true,
        }
    }

    /// Equality: values of one kind are compared, values of two kinds are
    /// unequal.
    pub open spec fn equals(self, other: ValueView) -> bool {
        match (self, other) {
            (ValueView::Number(a), ValueView::Number(b)) => number_eq(a, b),
            (ValueView::Str(a), ValueView::Str(b)) => a == b,
            (ValueView::Bool(a), ValueView::Bool(b)) => a == b,
            (ValueView::Nil, ValueView::Nil) => true,
            (ValueView::Function(a), ValueView::Function(b)) => a == b,
            (ValueView::Class(a), ValueView::Class(b)) => a == b,
            (ValueView::Instance(a), ValueView::Instance(b)) => a == b,
            _ => false,
        }
    }

    /// The name of the value's kind.
    pub open spec fn kind_name(self) -> Seq<char> {
        match self {
            ValueView::Number(_) => "number"@,
            ValueView::Str(_) => "string"@,
            ValueView::Bool(_) => "bool"@,
            ValueView::Nil => "nil"@,
            ValueView::Function(_) => "function"@,
            ValueView::Class(_) => "class"@,
            ValueView::Instance(_) => "instance"@,
        }
    }
}

/// What an operator gives.
#[derive(Debug)]
pub enum Applied {
    /// The result.
    Value(Value),
    /// The result is `left op right` on two numbers: the host computes it.
    Arithmetic(Operator, u64, u64),
    /// The operator does not take such operands.
    Error(String),
}

/// What an [`Applied`] holds, with a sequence of characters for its string.
pub enum AppliedView {
    Value(ValueView),
    Arithmetic(Operator, u64, u64),
    Error(Seq<char>),
}

impl View for Applied {
    type V = AppliedView;

    open spec fn view(&self) -> AppliedView {
        match self {
            Applied::Value(v) => AppliedView::Value(v@),
            Applied::Arithmetic(op, a, b) => AppliedView::Arithmetic(*op, *a, *b),
            Applied::Error(e) => AppliedView::Error(e@),
        }
    }
}

/// The operators that compute a number from two numbers.
pub open spec fn arithmetic(op: Operator) -> bool {
    op == Operator::Plus || op == Operator::Minus || op == Operator::Multiply || op
        == Operator::Divide
}

/// `left op right` for a binary operator:
/// - `+` on two strings joins them;
/// - `+`, `-`, `*`, `/` on two numbers are left to the host;
/// - `>`, `>=`, `<`, `<=` compare two numbers;
/// - with other operands, these fail with `Operands must be numbers.`;
/// - `==` and `!=` take any two values.
pub open spec fn binary(op: Operator, left: ValueView, right: ValueView) -> AppliedView {
    match op {
        Operator::Equal => AppliedView::Value(ValueView::Bool(left.equals(right))),
        Operator::NotEqual => AppliedView::Value(ValueView::Bool(!left.equals(right))),
        Operator::Not | Operator::And | Operator::Or => AppliedView::Error(
            "Invalid binary operator: "@ + op.symbol_of(),
        ),
        _ => match (left, right) {
            (ValueView::Number(a), ValueView::Number(b)) => match op {
                Operator::Greater => AppliedView::Value(ValueView::Bool(number_lt(b, a))),
                Operator::GreaterEqual => AppliedView::Value(ValueView::Bool(number_le(b, a))),
                Operator::Less => AppliedView::Value(ValueView::Bool(number_lt(a, b))),
                Operator::LessEqual => AppliedView::Value(ValueView::Bool(number_le(a, b))),
                _ => AppliedView::Arithmetic(op, a, b),
            },
            (ValueView::Str(a), ValueView::Str(b)) => if op == Operator::Plus {
                AppliedView::Value(ValueView::Str(a + b))
            } else {
                AppliedView::Error("Operands must be numbers."@)
            },
            _ => AppliedView::Error("Operands must be numbers."@),
        },
    }
}

/// `op right` for a unary operator: `-` negates a number and fails with
/// `Operand must be a number.` on anything else; `!` negates the truthiness
/// of any value.
pub open spec fn unary(op: Operator, right: ValueView) -> AppliedView {
    match op {
        Operator::Minus => match right {
            ValueView::Number(a) => AppliedView::Value(ValueView::Number(number_neg(a))),
            _ => AppliedView::Error("Operand must be a number."@),
        },
        Operator::Not => AppliedView::Value(ValueView::Bool(!right.truthy())),
        _ => AppliedView::Error("Invalid unary operator: "@ + op.symbol_of()),
    }
}

impl Value {
    /// A copy of the value.
    pub fn duplicate(&self) -> (r: Value)
        ensures
            r@ == self@,
    {
        match self {
            Value::Number(bits) => Value::Number(*bits),
            Value::Str(s) => Value::Str(s.clone()),
            Value::Bool(b) => Value::Bool(*b),
            Value::Nil => Value::Nil,
            Value::Function(id) => Value::Function(*id),
            Value::Class(id) => Value::Class(*id),
            Value::Instance(id) => Value::Instance(*id),
        }
    }

    /// Truthiness: `nil` and `false` are false, everything else is true.
    pub fn is_true(&self) -> (r: bool)
        ensures
            r == self@.truthy(),
    {
        match self {
            Value::Bool(b) => *b,
            Value::Nil => false,
            _ => true,
        }
    }

    /// The name of the value's kind.
    pub fn get_type(&self) -> (r: &'static str)
        ensures
            r@ == self@.kind_name(),
    {
        match self {
            Value::Number(_) => "number",
            Value::Str(_) => "string",
            Value::Bool(_) => "bool",
            Value::Nil => "nil",
            Value::Function(_) => "function",
            Value::Class(_) => "class",
            Value::Instance(_) => "instance",
        }
    }

    /// Equality: values of one kind are compared, values of two kinds are
    /// unequal.
    pub fn equals(&self, other: &Value) -> (r: bool)
        ensures
            r == self@.equals(other@),
    {
        match (self, other) {
            (Value::Number(a), Value::Number(b)) => equal_numbers(*a, *b),
            (Value::Str(a), Value::Str(b)) => *a == *b,
            (Value::Bool(a), Value::Bool(b)) => *a == *b,
            (Value::Nil, Value::Nil) => true,
            (Value::Function(a), Value::Function(b)) => *a == *b,
            (Value::Class(a), Value::Class(b)) => *a == *b,
            (Value::Instance(a), Value::Instance(b)) => *a == *b,
            _ => false,
        }
    }

    /// `left op right` for a binary operator.
    pub fn binary(op: Operator, left: &Value, right: &Value) -> (r: Applied)
        ensures
            r@ == binary(op, left@, right@),
    {
        match op {
            Operator::Equal => Applied::Value(Value::Bool(left.equals(right))),
            Operator::NotEqual => Applied::Value(Value::Bool(!left.equals(right))),
            Operator::Not | Operator::And | Operator::Or => Applied::Error(
                join("Invalid binary operator: ".to_owned(), op.symbol()),
            ),
            _ => match (left, right) {
                (Value::Number(a), Value::Number(b)) => match op {
                    Operator::Greater => Applied::Value(Value::Bool(less(*b, *a, false))),
                    Operator::GreaterEqual => Applied::Value(Value::Bool(less(*b, *a, true))),
                    Operator::Less => Applied::Value(Value::Bool(less(*a, *b, false))),
                    Operator::LessEqual => Applied::Value(Value::Bool(less(*a, *b, true))),
                    _ => Applied::Arithmetic(op, *a, *b),
                },
                (Value::Str(a), Value::Str(b)) => if op == Operator::Plus {
                    Applied::Value(Value::Str(join(a.clone(), b.as_str())))
                } else {
                    Applied::Error("Operands must be numbers.".to_owned())
                },
                _ => Applied::Error("Operands must be numbers.".to_owned()),
            },
        }
    }

    /// `op right` for a unary operator.
    pub fn unary(op: Operator, right: &Value) -> (r: Applied)
        ensures
            r@ == unary(op, right@),
    {
        match op {
            Operator::Minus => match right {
                Value::Number(a) => Applied::Value(Value::Number(*a ^ SIGN_BIT)),
                _ => Applied::Error("Operand must be a number.".to_owned()),
            },
            Operator::Not => Applied::Value(Value::Bool(!right.is_true())),
            _ => Applied::Error(join("Invalid unary operator: ".to_owned(), op.symbol())),
        }
    }
}

impl LiteralView {
    /// Truthiness: `nil` and `false` are false, everything else is true.
    pub open spec fn truthy(self) -> bool {
        match self {
            LiteralView::Bool(b) => b,
            LiteralView::Nil => false,
            _ => true,
        }
    }

    /// The name of the literal's kind.
    pub open spec fn kind_name(self) -> Seq<char> {
        match self {
            LiteralView::Number(_) => "number"@,
            LiteralView::String(_) => "string"@,
            LiteralView::Bool(_) => "bool"@,
            LiteralView::Nil => "nil"@,
        }
    }
}

impl LiteralValue {
    /// Truthiness: `nil` and `false` are false, everything else is true.
    pub fn is_true(&self) -> (r: bool)
        ensures
            r == self@.truthy(),
    {
        match self {
            LiteralValue::Bool(b) => *b,
            LiteralValue::Nil => false,
            _ => true,
        }
    }

    /// The name of the literal's kind.
    pub fn get_type(&self) -> (r: &'static str)
        ensures
            r@ == self@.kind_name(),
    {
        match self {
            LiteralValue::Number(_) => "number",
            LiteralValue::String(_) => "string",
            LiteralValue::Bool(_) => "bool",
            LiteralValue::Nil => "nil",
        }
    }
}

} // verus!
