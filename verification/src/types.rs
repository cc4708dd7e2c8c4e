//! The values of the language and what its operators make of them.
//!
//! Single-precision numbers are carried by their bits. This module orders
//! and compares them, but it computes none: where an operator's result is a
//! single-precision number, or its text, [`Outcome`] names the computation
//! and leaves it to the caller.

use crate::error::{result_view, Error, ErrorView, TypeError, TypeErrorView};
use crate::text::{append_decimal, comes_before, decimal, precedes};
use vstd::prelude::*;
use vstd::string::StringExecFns;

verus! {

/// A single-precision number, held as the 32 bits of its IEEE 754 encoding:
/// the sign in the highest bit, then eight bits of exponent, then the
/// fraction.
#[derive(Clone, Copy, Debug, PartialEq, Eq, Structural)]
pub struct Float {
    pub bits: u32,
}

impl Float {
    /// The encoding without its sign bit.
    pub open spec fn magnitude(self) -> int {
        if self.bits >= 0x8000_0000 {
            self.bits - 0x8000_0000
        } else {
            self.bits as int
        }
    }

    /// Whether this is no number: all exponent bits set and a fraction that
    /// is not zero.
    pub open spec fn is_nan(self) -> bool {
        self.magnitude() > 0x7f80_0000
    }

    /// Where this number stands among the encodings: numbers that are not
    /// NaN are ordered as their ranks are, and both zeros have rank 0.
    pub open spec fn rank(self) -> int {
        if self.bits >= 0x8000_0000 {
            -self.magnitude()
        } else {
            self.magnitude()
        }
    }

    /// Equality of numbers: NaN equals nothing, and the two zeros are equal.
    pub open spec fn equal(self, other: Float) -> bool {
        !self.is_nan() && !other.is_nan() && self.rank() == other.rank()
    }

    /// The strict order of numbers: NaN is below nothing and nothing is
    /// below it.
    pub open spec fn less(self, other: Float) -> bool {
        !self.is_nan() && !other.is_nan() && self.rank() < other.rank()
    }

    fn ranked(self) -> (r: Option<i64>)
        ensures
            r is None <==> self.is_nan(),
            r matches Some(k) ==> k == self.rank(),
    {
        let negative = self.bits >= 0x8000_0000;
        let magnitude: u32 = if negative {
            self.bits - 0x8000_0000
        } else {
            self.bits
        };
        if magnitude > 0x7f80_0000 {
            None
        } else if negative {
            Some(-(magnitude as i64))
        } else {
            Some(magnitude as i64)
        }
    }

    /// Whether the two numbers are equal.
    pub fn equals(self, other: Float) -> (r: bool)
        ensures
            r == self.equal(other),
    {
        match (self.ranked(), other.ranked()) {
            (Some(a), Some(b)) => a == b,
            _ => false,
        }
    }

    /// Whether this number is less than `other`.
    pub fn less_than(self, other: Float) -> (r: bool)
        ensures
            r == self.less(other),
    {
        match (self.ranked(), other.ranked()) {
            (Some(a), Some(b)) => a < b,
            _ => false,
        }
    }
}

/// The kind of text an input expression asks for.
#[derive(Clone, Copy, Debug, PartialEq, Eq, Structural)]
pub enum InputType {
    Number,
    String,
}

/// A value of the language.
///
/// The derived `==` compares representations: two `Float`s are equal when
/// their bits are. The language's own equality is [`Value::compare`].
#[derive(Debug, PartialEq)]
pub enum Value {
    /// What a statement without a result leaves.
    Void,
    String(String),
    Integer(i32),
    Float(Float),
    Bool(bool),
}

/// The model of a [`Value`].
pub enum ValueView {
    Void,
    String(Seq<char>),
    Integer(i32),
    Float(Float),
    Bool(bool),
}

impl View for Value {
    type V = ValueView;

    open spec fn view(&self) -> ValueView {
        match self {
            Value::Void => ValueView::Void,
            Value::String(s) => ValueView::String(s@),
            Value::Integer(i) => ValueView::Integer(*i),
            Value::Float(f) => ValueView::Float(*f),
            Value::Bool(b) => ValueView::Bool(*b),
        }
    }
}

impl Clone for Value {
    fn clone(&self) -> (r: Value)
        ensures
            r@ == self@,
    {
        match self {
            Value::Void => Value::Void,
            Value::String(s) => Value::String(s.clone()),
            Value::Integer(i) => Value::Integer(*i),
            Value::Float(f) => Value::Float(*f),
            Value::Bool(b) => Value::Bool(*b),
        }
    }
}

/// The four operators of arithmetic.
#[derive(Clone, Copy, Debug, PartialEq, Eq, Structural)]
pub enum Arithmetic {
    Sum,
    Sub,
    Mult,
    Div,
}

/// The six operators that compare.
#[derive(Clone, Copy, Debug, PartialEq, Eq, Structural)]
pub enum Comparison {
    Is,
    IsNot,
    Smlr,
    Bigr,
    SmlrEq,
    BigrEq,
}

/// The two operators on truth values.
#[derive(Clone, Copy, Debug, PartialEq, Eq, Structural)]
pub enum Logic {
    And,
    Or,
}

/// An operand of a single-precision computation: a number, or an integer
/// that is to be converted to the nearest one first.
#[derive(Clone, Copy, Debug, PartialEq, Eq, Structural)]
pub enum Operand {
    Integer(i32),
    Float(Float),
}

/// What an operator of arithmetic comes to.
#[derive(Debug, PartialEq)]
pub enum Outcome {
    /// The result itself.
    Value(Value),
    /// The result is the single-precision number that the operator gives on
    /// the two operands, in this order.
    Float(Arithmetic, Operand, Operand),
    /// The result is a string: `text`, with the text of `number` before it
    /// if `number_first` holds and after it otherwise.
    Format { number: Float, text: String, number_first: bool },
}

/// The model of an [`Outcome`].
pub enum OutcomeView {
    Value(ValueView),
    Float(Arithmetic, Operand, Operand),
    Format { number: Float, text: Seq<char>, number_first: bool },
}

impl View for Outcome {
    type V = OutcomeView;

    open spec fn view(&self) -> OutcomeView {
        match self {
            Outcome::Value(v) => OutcomeView::Value(v@),
            Outcome::Float(op, left, right) => OutcomeView::Float(*op, *left, *right),
            Outcome::Format { number, text, number_first } => OutcomeView::Format {
                number: *number,
                text: text@,
                number_first: *number_first,
            },
        }
    }
}

/// The 32-bit integer that `i` wraps around to: the one that differs from
/// `i` by a multiple of 2^32.
pub open spec fn wrap(i: int) -> i32 {
    let m = i % 0x1_0000_0000;
    if m > i32::MAX {
        (m - 0x1_0000_0000) as i32
    } else {
        m as i32
    }
}

/// The quotient of `a` by `b`, rounded toward zero.
pub open spec fn quotient(a: int, b: int) -> int
    recommends
        b != 0,
{
    if a >= 0 {
        if b > 0 {
            a / b
        } else {
            -(a / (-b))
        }
    } else {
        if b > 0 {
            -((-a) / b)
        } else {
            (-a) / (-b)
        }
    }
}

impl Arithmetic {
    /// The name of the operation, as errors give it.
    pub open spec fn name(self) -> Seq<char> {
        match self {
            Arithmetic::Sum => "addition"@,
            Arithmetic::Sub => "subtraction"@,
            Arithmetic::Mult => "multiplication"@,
            Arithmetic::Div => "division"@,
        }
    }

    /// The operator on two integers: the exact result, wrapped around to 32
    /// bits.
    pub open spec fn on_integers(self, a: i32, b: i32) -> i32
        recommends
            self is Div ==> b != 0,
    {
        match self {
            Arithmetic::Sum => wrap(a + b),
            Arithmetic::Sub => wrap(a - b),
            Arithmetic::Mult => wrap(a * b),
            Arithmetic::Div => wrap(quotient(a as int, b as int)),
        }
    }

    /// The error for an operand of the kind named `kind`.
    pub open spec fn illegal(self, kind: Seq<char>) -> ErrorView {
        ErrorView::TypeError(TypeErrorView::IllegalOperation(self.name(), "any"@, kind))
    }

    fn integers(self, a: i32, b: i32) -> (r: i32)
        requires
            self is Div ==> b != 0,
        ensures
            r == self.on_integers(a, b),
    {
        match self {
            Arithmetic::Sum => a.wrapping_add(b),
            Arithmetic::Sub => a.wrapping_sub(b),
            Arithmetic::Mult => a.wrapping_mul(b),
            Arithmetic::Div => match a.checked_div(b) {
                Some(q) => q,
                None => i32::MIN,
            },
        }
    }

    fn refuse(self, kind: &str) -> (e: Error)
        ensures
            e@ == self.illegal(kind@),
    {
        let name = match self {
            Arithmetic::Sum => "addition",
            Arithmetic::Sub => "subtraction",
            Arithmetic::Mult => "multiplication",
            Arithmetic::Div => "division",
        };
        Error::TypeError(
            TypeError::IllegalOperation(name.to_owned(), "any".to_owned(), kind.to_owned()),
        )
    }
}

impl ValueView {
    /// The name of the value's kind.
    pub open spec fn kind(self) -> Seq<char> {
        match self {
            ValueView::Void => "void"@,
            ValueView::String(_) => "string"@,
            ValueView::Integer(_) => "integer"@,
            ValueView::Float(_) => "float"@,
            ValueView::Bool(_) => "bool"@,
        }
    }

    /// The text a value prints as: nothing for `Void`, `true` or `false`, a
    /// string's own characters, an integer's decimal numeral. The text of a
    /// single-precision number is not defined here.
    pub open spec fn text(self) -> Option<Seq<char>> {
        match self {
            ValueView::Void => Some(Seq::empty()),
            ValueView::String(s) => Some(s),
            ValueView::Integer(i) => Some(decimal(i as int)),
            ValueView::Float(_) => None,
            ValueView::Bool(b) => Some(
                if b {
                    "true"@
                } else {
                    "false"@
                },
            ),
        }
    }

    /// The integer or number of a numeric value.
    pub open spec fn operand(self) -> Operand
        recommends
            self is Integer || self is Float,
    {
        match self {
            ValueView::Float(f) => Operand::Float(f),
            ValueView::Integer(i) => Operand::Integer(i),
            _ => Operand::Integer(0),
        }
    }

    /// What an operator of arithmetic comes to on `a` and `b`, in this
    /// order of precedence:
    /// - `Void` beside any value gives that value;
    /// - a truth value on either side is an error;
    /// - a string on either side makes a sum the two texts joined, left
    ///   operand first, and any other operator an error;
    /// - two integers give the wrapped integer result;
    /// - an integer and a number, or two numbers, give a single-precision
    ///   result, the integer converted first.
    pub open spec fn arithmetic(op: Arithmetic, a: ValueView, b: ValueView) -> Result<
        OutcomeView,
        ErrorView,
    >
        recommends
            op is Div && a is Integer && b is Integer ==> b->Integer_0 != 0,
    {
        if a is Void {
            Ok(OutcomeView::Value(b))
        } else if b is Void {
            Ok(OutcomeView::Value(a))
        } else if a is Bool || b is Bool {
            Err(op.illegal("bool"@))
        } else if a is String || b is String {
            if !(op is Sum) {
                Err(op.illegal("string"@))
            } else if a is Float {
                Ok(
                    OutcomeView::Format {
                        number: a->Float_0,
                        text: b->String_0,
                        number_first: true,
                    },
                )
            } else if b is Float {
                Ok(
                    OutcomeView::Format {
                        number: b->Float_0,
                        text: a->String_0,
                        number_first: false,
                    },
                )
            } else {
                Ok(OutcomeView::Value(ValueView::String(a.text().unwrap() + b.text().unwrap())))
            }
        } else if a is Integer && b is Integer {
            Ok(
                OutcomeView::Value(
                    ValueView::Integer(op.on_integers(a->Integer_0, b->Integer_0)),
                ),
            )
        } else {
            Ok(OutcomeView::Float(op, a.operand(), b.operand()))
        }
    }

    /// Equality in the language: values of one kind are equal when what
    /// they hold is, numbers as numbers; values of two kinds never are.
    pub open spec fn same(a: ValueView, b: ValueView) -> bool {
        match (a, b) {
            (ValueView::Void, ValueView::Void) => true,
            (ValueView::String(s), ValueView::String(t)) => s == t,
            (ValueView::Integer(x), ValueView::Integer(y)) => x == y,
            (ValueView::Float(f), ValueView::Float(g)) => f.equal(g),
            (ValueView::Bool(p), ValueView::Bool(q)) => p == q,
            _ => false,
        }
    }

    /// The strict order of the language: within one kind, strings as in a
    /// dictionary, integers and numbers by size, `false` before `true`; no
    /// value is below one of another kind.
    pub open spec fn below(a: ValueView, b: ValueView) -> bool {
        match (a, b) {
            (ValueView::String(s), ValueView::String(t)) => precedes(s, t),
            (ValueView::Integer(x), ValueView::Integer(y)) => x < y,
            (ValueView::Float(f), ValueView::Float(g)) => f.less(g),
            (ValueView::Bool(p), ValueView::Bool(q)) => !p && q,
            _ => false,
        }
    }

    /// What an operator that compares gives on `a` and `b`.
    pub open spec fn compare(op: Comparison, a: ValueView, b: ValueView) -> bool {
        match op {
            Comparison::Is => Self::same(a, b),
            Comparison::IsNot => !Self::same(a, b),
            Comparison::Smlr => Self::below(a, b),
            Comparison::Bigr => Self::below(b, a),
            Comparison::SmlrEq => Self::below(a, b) || Self::same(a, b),
            Comparison::BigrEq => Self::below(b, a) || Self::same(a, b),
        }
    }

    /// What an operator on truth values gives on `a` and `b`: an error
    /// that names the kind of the first operand that is no truth value.
    pub open spec fn logic(op: Logic, a: ValueView, b: ValueView) -> Result<bool, ErrorView> {
        match (a, b) {
            (ValueView::Bool(p), ValueView::Bool(q)) => Ok(
                match op {
                    Logic::And => p && q,
                    Logic::Or => p || q,
                },
            ),
            (ValueView::Bool(_), _) => Err(b.not_bool()),
            _ => Err(a.not_bool()),
        }
    }

    /// The error for this value where a truth value must stand.
    pub open spec fn not_bool(self) -> ErrorView {
        ErrorView::TypeError(TypeErrorView::ToBoolError(self.kind()))
    }
}

impl Value {
    /// The name of the value's kind.
    pub fn kind(&self) -> (name: String)
        ensures
            name@ == self@.kind(),
    {
        match self {
            Value::Void => "void".to_owned(),
            Value::String(_) => "string".to_owned(),
            Value::Integer(_) => "integer".to_owned(),
            Value::Float(_) => "float".to_owned(),
            Value::Bool(_) => "bool".to_owned(),
        }
    }

    /// The text the value prints as, or `None` for a single-precision
    /// number.
    pub fn text(&self) -> (text: Option<String>)
        ensures
            text is Some <==> !(self is Float),
            text matches Some(t) ==> self@.text() == Some(t@),
    {
        match self {
            Value::Void => Some(String::new()),
            Value::String(s) => Some(s.clone()),
            Value::Integer(i) => {
                let mut out = String::new();
                append_decimal(&mut out, *i as i64);
                assert(out@ =~= decimal(*i as int));
                Some(out)
            },
            Value::Float(_) => None,
            Value::Bool(b) => Some(
                if *b {
                    "true".to_owned()
                } else {
                    "false".to_owned()
                },
            ),
        }
    }

    /// The error for this value where a truth value must stand.
    pub fn not_bool(&self) -> (e: Error)
        ensures
            e@ == self@.not_bool(),
    {
        Error::TypeError(TypeError::ToBoolError(self.kind()))
    }

    /// What `op` comes to on `self` and `other`.
    pub fn arithmetic(self, op: Arithmetic, other: Value) -> (r: Result<Outcome, Error>)
        requires
            op is Div && self is Integer && other is Integer ==> other->Integer_0 != 0,
        ensures
            result_view(r) == ValueView::arithmetic(op, self@, other@),
    {
        match (self, other) {
            (Value::Void, b) => Ok(Outcome::Value(b)),
            (a, Value::Void) => Ok(Outcome::Value(a)),
            (Value::Bool(_), _) => Err(op.refuse("bool")),
            (_, Value::Bool(_)) => Err(op.refuse("bool")),
            (Value::String(s), b) => {
                match op {
                    Arithmetic::Sum => match b {
                        Value::Float(f) => Ok(
                            Outcome::Format { number: f, text: s, number_first: false },
                        ),
                        _ => {
                            let tail = b.text().unwrap();
                            Ok(Outcome::Value(Value::String(s.concat(tail.as_str()))))
                        },
                    },
                    _ => Err(op.refuse("string")),
                }
            },
            (a, Value::String(t)) => {
                match op {
                    Arithmetic::Sum => match a {
                        Value::Float(f) => Ok(
                            Outcome::Format { number: f, text: t, number_first: true },
                        ),
                        _ => {
                            let head = a.text().unwrap();
                            Ok(Outcome::Value(Value::String(head.concat(t.as_str()))))
                        },
                    },
                    _ => Err(op.refuse("string")),
                }
            },
            (Value::Integer(x), Value::Integer(y)) => Ok(
                Outcome::Value(Value::Integer(op.integers(x, y))),
            ),
            (Value::Integer(x), Value::Float(g)) => Ok(
                Outcome::Float(op, Operand::Integer(x), Operand::Float(g)),
            ),
            (Value::Float(f), Value::Integer(y)) => Ok(
                Outcome::Float(op, Operand::Float(f), Operand::Integer(y)),
            ),
            (Value::Float(f), Value::Float(g)) => Ok(
                Outcome::Float(op, Operand::Float(f), Operand::Float(g)),
            ),
        }
    }

    /// The sum of `self` and `other`.
    pub fn add(self, other: Value) -> (r: Result<Outcome, Error>)
        ensures
            result_view(r) == ValueView::arithmetic(Arithmetic::Sum, self@, other@),
    {
        self.arithmetic(Arithmetic::Sum, other)
    }

    /// The difference of `self` and `other`.
    pub fn sub(self, other: Value) -> (r: Result<Outcome, Error>)
        ensures
            result_view(r) == ValueView::arithmetic(Arithmetic::Sub, self@, other@),
    {
        self.arithmetic(Arithmetic::Sub, other)
    }

    /// The product of `self` and `other`.
    pub fn mul(self, other: Value) -> (r: Result<Outcome, Error>)
        ensures
            result_view(r) == ValueView::arithmetic(Arithmetic::Mult, self@, other@),
    {
        self.arithmetic(Arithmetic::Mult, other)
    }

    /// The quotient of `self` by `other`. Dividing an integer by the
    /// integer zero has no result: the caller rules it out.
    pub fn div(self, other: Value) -> (r: Result<Outcome, Error>)
        requires
            self is Integer && other is Integer ==> other->Integer_0 != 0,
        ensures
            result_view(r) == ValueView::arithmetic(Arithmetic::Div, self@, other@),
    {
        self.arithmetic(Arithmetic::Div, other)
    }

    /// What an operator that compares gives on `self` and `other`.
    pub fn compare(&self, op: Comparison, other: &Value) -> (r: bool)
        ensures
            r == ValueView::compare(op, self@, other@),
    {
        match op {
            Comparison::Is => self.same(other),
            Comparison::IsNot => !self.same(other),
            Comparison::Smlr => self.below(other),
            Comparison::Bigr => other.below(self),
            Comparison::SmlrEq => self.below(other) || self.same(other),
            Comparison::BigrEq => other.below(self) || self.same(other),
        }
    }

    /// What an operator on truth values gives on `self` and `other`.
    pub fn logic(&self, op: Logic, other: &Value) -> (r: Result<bool, Error>)
        ensures
            result_view(r) == ValueView::logic(op, self@, other@),
    {
        match (self, other) {
            (Value::Bool(p), Value::Bool(q)) => Ok(
                match op {
                    Logic::And => *p && *q,
                    Logic::Or => *p || *q,
                },
            ),
            (Value::Bool(_), _) => Err(other.not_bool()),
            _ => Err(self.not_bool()),
        }
    }

    fn same(&self, other: &Value) -> (r: bool)
        ensures
            r == ValueView::same(self@, other@),
    {
        match (self, other) {
            (Value::Void, Value::Void) => true,
            (Value::String(s), Value::String(t)) => *s == *t,
            (Value::Integer(x), Value::Integer(y)) => *x == *y,
            (Value::Float(f), Value::Float(g)) => f.equals(*g),
            (Value::Bool(p), Value::Bool(q)) => *p == *q,
            _ => false,
        }
    }

    fn below(&self, other: &Value) -> (r: bool)
        ensures
            r == ValueView::below(self@, other@),
    {
        match (self, other) {
            (Value::String(s), Value::String(t)) => comes_before(s.as_str(), t.as_str()),
            (Value::Integer(x), Value::Integer(y)) => *x < *y,
            (Value::Float(f), Value::Float(g)) => f.less_than(*g),
            (Value::Bool(p), Value::Bool(q)) => !*p && *q,
            _ => false,
        }
    }
}

/// An integer within 32 bits wraps around to itself.
pub proof fn lemma_wrap_in_range(i: int)
    requires
        i32::MIN <= i <= i32::MAX,
    ensures
        wrap(i) == i,
{
}

/// Wrapping around changes an integer by a multiple of 2^32.
pub proof fn lemma_wrap_congruent(i: int)
    ensures
        (wrap(i) - i) % 0x1_0000_0000 == 0,
{
}

/// The sum of two integers is an integer: their exact sum, wrapped around
/// to 32 bits.
pub proof fn lemma_integer_sum(a: i32, b: i32)
    ensures
        ValueView::arithmetic(Arithmetic::Sum, ValueView::Integer(a), ValueView::Integer(b)) == Ok::<
            OutcomeView,
            ErrorView,
        >(OutcomeView::Value(ValueView::Integer(wrap(a + b)))),
{
}

/// An operator of arithmetic on two integers gives an integer, and on an
/// integer and a number, either way round, the single-precision result on
/// the number and the integer converted.
pub proof fn lemma_promotion(op: Arithmetic, a: i32, b: i32, f: Float)
    ensures
        ValueView::arithmetic(op, ValueView::Integer(a), ValueView::Integer(b)) == Ok::<
            OutcomeView,
            ErrorView,
        >(OutcomeView::Value(ValueView::Integer(op.on_integers(a, b)))),
        ValueView::arithmetic(op, ValueView::Integer(a), ValueView::Float(f)) == Ok::<
            OutcomeView,
            ErrorView,
        >(OutcomeView::Float(op, Operand::Integer(a), Operand::Float(f))),
        ValueView::arithmetic(op, ValueView::Float(f), ValueView::Integer(a)) == Ok::<
            OutcomeView,
            ErrorView,
        >(OutcomeView::Float(op, Operand::Float(f), Operand::Integer(a))),
{
}

/// The sum of a string and an integer, either way round, is a string: the
/// text of the left operand, then that of the right one.
pub proof fn lemma_concatenation(s: Seq<char>, i: i32)
    ensures
        ValueView::arithmetic(Arithmetic::Sum, ValueView::String(s), ValueView::Integer(i)) == Ok::<
            OutcomeView,
            ErrorView,
        >(OutcomeView::Value(ValueView::String(s + decimal(i as int)))),
        ValueView::arithmetic(Arithmetic::Sum, ValueView::Integer(i), ValueView::String(s)) == Ok::<
            OutcomeView,
            ErrorView,
        >(OutcomeView::Value(ValueView::String(decimal(i as int) + s))),
{
}

/// `Void` beside any value gives that value, whatever the operator.
pub proof fn lemma_void_absorbed(op: Arithmetic, v: ValueView)
    ensures
        ValueView::arithmetic(op, ValueView::Void, v) == Ok::<OutcomeView, ErrorView>(
            OutcomeView::Value(v),
        ),
        ValueView::arithmetic(op, v, ValueView::Void) == Ok::<OutcomeView, ErrorView>(
            OutcomeView::Value(v),
        ),
{
}

/// The order of numbers. Of two numbers that are not NaN exactly one of
/// three holds: the first is less, they are equal, or the second is less;
/// and the order passes on through a number between. NaN is neither equal
/// to any number, itself included, nor less than one, nor is any less than
/// it.
pub proof fn lemma_numbers_are_ordered(a: Float, b: Float, c: Float)
    ensures
        !a.is_nan() && !b.is_nan() ==> (a.less(b) || a.equal(b) || b.less(a)),
        !(a.less(b) && a.equal(b)),
        !(a.less(b) && b.less(a)),
        a.equal(b) == b.equal(a),
        a.less(b) && b.less(c) ==> a.less(c),
        a.equal(b) && b.equal(c) ==> a.equal(c),
        a.is_nan() ==> !a.equal(b) && !a.less(b) && !b.less(a) && !a.equal(a),
        !a.is_nan() ==> a.equal(a),
{
}

/// In the order of the language a value is below another, equal to it, or
/// above it, at most one of the three; and values of one kind that hold no
/// NaN stand in exactly one of them.
pub proof fn lemma_values_are_ordered(a: ValueView, b: ValueView)
    ensures
        !(ValueView::below(a, b) && ValueView::same(a, b)),
        !(ValueView::below(a, b) && ValueView::below(b, a)),
        ValueView::same(a, b) == ValueView::same(b, a),
        a is Integer && b is Integer || a is Bool && b is Bool || a is Void && b is Void ==> (
        ValueView::below(a, b) || ValueView::same(a, b) || ValueView::below(b, a)),
        ValueView::compare(Comparison::IsNot, a, b) == !ValueView::compare(Comparison::Is, a, b),
        ValueView::compare(Comparison::Bigr, a, b) == ValueView::compare(Comparison::Smlr, b, a),
        ValueView::compare(Comparison::BigrEq, a, b) == ValueView::compare(
            Comparison::SmlrEq,
            b,
            a,
        ),
{
    if let (ValueView::String(s), ValueView::String(t)) = (a, b) {
        crate::text::lemma_precedes_is_strict(s, t);
    }
}

} // verus!
