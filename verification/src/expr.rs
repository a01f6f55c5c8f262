//! Values and the syntax tree.

use vstd::prelude::*;
use crate::lox::RuntimeError;
use crate::number;
use crate::token::{Token, TokenView};

verus! {

/// A value of the language: what a literal denotes and what evaluation
/// yields. A number is the bit pattern of an IEEE-754 double.
#[derive(Debug)]
pub enum Value {
    String(String),
    Number(u64),
    True,
    False,
    Nil,
}

/// The mathematical content of a [`Value`].
pub enum ValueView {
    String(Seq<char>),
    Number(u64),
    True,
    False,
    Nil,
}

impl View for Value {
    type V = ValueView;

    open spec fn view(&self) -> ValueView {
        match self {
            Value::String(text) => ValueView::String(text@),
            Value::Number(bits) => ValueView::Number(*bits),
            Value::True => ValueView::True,
            Value::False => ValueView::False,
            Value::Nil => ValueView::Nil,
        }
    }
}

impl ValueView {
    /// Equality of values: strings by their characters, numbers as IEEE-754
    /// compares them (a NaN equals nothing, the two zeros equal each other),
    /// and values of different kinds never.
    pub open spec fn equals(self, other: ValueView) -> bool {
        match (self, other) {
            (ValueView::String(a), ValueView::String(b)) => a == b,
            (ValueView::Number(a), ValueView::Number(b)) => number::equal(a, b),
            (ValueView::True, ValueView::True) => true,
            (ValueView::False, ValueView::False) => true,
            (ValueView::Nil, ValueView::Nil) => true,
            _ => false,
        }
    }

    /// What a value counts as where a truth value is wanted. `true` counts
    /// as true, `false` and `nil` as false; a string counts as true exactly
    /// when it is empty, and a number exactly when it is zero.
    pub open spec fn truth(self) -> bool {
        match self {
            ValueView::True => true,
            ValueView::False => false,
            ValueView::Nil => false,
            ValueView::String(text) => text.len() == 0,
            ValueView::Number(bits) => number::is_zero(bits),
        }
    }

    /// The number that a value is, or the error for a value that is none.
    pub open spec fn number(self) -> Result<u64, Seq<char>> {
        match self {
            ValueView::Number(bits) => Ok(bits),
            _ => Err("Not a number"@),
        }
    }

    /// The text that a value is, or the error for a value that is none.
    pub open spec fn text(self) -> Result<Seq<char>, Seq<char>> {
        match self {
            ValueView::String(text) => Ok(text),
            _ => Err("Not a string"@),
        }
    }

    /// The value that stands for a truth value.
    pub open spec fn of_bool(b: bool) -> ValueView {
        if b {
            ValueView::True
        } else {
            ValueView::False
        }
    }
}

impl Clone for Value {
    fn clone(&self) -> (r: Self)
        ensures
            r == *self,
    {
        match self {
            Value::String(text) => Value::String(text.clone()),
            Value::Number(bits) => Value::Number(*bits),
            Value::True => Value::True,
            Value::False => Value::False,
            Value::Nil => Value::Nil,
        }
    }
}

impl PartialEq for Value {
    fn eq(&self, other: &Self) -> (r: bool) {
        match (self, other) {
            (Value::String(a), Value::String(b)) => *a == *b,
            (Value::Number(a), Value::Number(b)) => number::eq(*a, *b),
            (Value::True, Value::True) => true,
            (Value::False, Value::False) => true,
            (Value::Nil, Value::Nil) => true,
            _ => false,
        }
    }
}

impl vstd::std_specs::cmp::PartialEqSpecImpl for Value {
    open spec fn obeys_eq_spec() -> bool {
        true
    }

    open spec fn eq_spec(&self, other: &Self) -> bool {
        self@.equals(other@)
    }
}

impl Value {
    /// The value that stands for `b`.
    pub fn from_bool(b: bool) -> (v: Self)
        ensures
            v@ == ValueView::of_bool(b),
    {
        if b {
            Value::True
        } else {
            Value::False
        }
    }

    /// What the value counts as where a truth value is wanted. This never
    /// fails.
    pub fn try_into_bool(self) -> (r: Result<bool, RuntimeError>)
        ensures
            r matches Ok(b) && b == self@.truth(),
    {
        let coerced = match self {
            Value::True => true,
            Value::False => false,
            Value::Nil => false,
            Value::String(s) => s.as_str().is_empty(),
            Value::Number(n) => number::zero(n),
        };
        Ok(coerced)
    }

    /// The value as a number; only a number is one.
    pub fn try_into_number(self) -> (r: Result<u64, RuntimeError>)
        ensures
            match r {
                Ok(bits) => self@.number() == Ok::<u64, Seq<char>>(bits),
                Err(e) => self@.number() == Err::<u64, Seq<char>>(e@),
            },
    {
        if let Value::Number(n) = self {
            Ok(n)
        } else {
            Err(RuntimeError::new("Not a number"))
        }
    }

    /// The value as a string; only a string is one.
    pub fn try_into_string(self) -> (r: Result<String, RuntimeError>)
        ensures
            match r {
                Ok(text) => self@.text() == Ok::<Seq<char>, Seq<char>>(text@),
                Err(e) => self@.text() == Err::<Seq<char>, Seq<char>>(e@),
            },
    {
        if let Value::String(s) = self {
            Ok(s)
        } else {
            Err(RuntimeError::new("Not a string"))
        }
    }
}

/// An expression: a tree whose inner nodes are operators, with the tokens
/// they were written as, and whose leaves are values.
#[derive(Debug)]
pub enum Expr {
    Binary(Box<Expr>, Token, Box<Expr>),
    Unary(Token, Box<Expr>),
    Grouping(Box<Expr>),
    Literal(Value),
}

/// The mathematical content of an [`Expr`].
pub enum ExprView {
    Binary(Box<ExprView>, TokenView, Box<ExprView>),
    Unary(TokenView, Box<ExprView>),
    Grouping(Box<ExprView>),
    Literal(ValueView),
}

impl View for Expr {
    type V = ExprView;

    open spec fn view(&self) -> ExprView
        decreases self,
    {
        match self {
            Expr::Binary(left, operator, right) => ExprView::Binary(
                Box::new((**left).view()),
                operator@,
                Box::new((**right).view()),
            ),
            Expr::Unary(operator, operand) => ExprView::Unary(
                operator@,
                Box::new((**operand).view()),
            ),
            Expr::Grouping(inner) => ExprView::Grouping(Box::new((**inner).view())),
            Expr::Literal(value) => ExprView::Literal(value@),
        }
    }
}

impl Expr {
    /// The application of a binary operator to two operands.
    pub fn binary(left: Expr, operator: Token, right: Expr) -> (e: Self)
        ensures
            e@ == ExprView::Binary(Box::new(left@), operator@, Box::new(right@)),
    {
        Self::Binary(Box::new(left), operator, Box::new(right))
    }

    /// The application of a prefix operator to an operand.
    pub fn unary(operator: Token, expr: Expr) -> (e: Self)
        ensures
            e@ == ExprView::Unary(operator@, Box::new(expr@)),
    {
        Self::Unary(operator, Box::new(expr))
    }

    /// The literal of a number, given by its bits.
    pub fn literal_num(num: u64) -> (e: Self)
        ensures
            e@ == ExprView::Literal(ValueView::Number(num)),
    {
        Self::Literal(Value::Number(num))
    }

    /// The literal of a string.
    pub fn literal_str(string: String) -> (e: Self)
        ensures
            e@ == ExprView::Literal(ValueView::String(string@)),
    {
        Self::Literal(Value::String(string))
    }

    /// An expression in parentheses.
    pub fn grouping(expr: Expr) -> (e: Self)
        ensures
            e@ == ExprView::Grouping(Box::new(expr@)),
    {
        Self::Grouping(Box::new(expr))
    }
}

} // verus!
