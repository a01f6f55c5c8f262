//! The evaluator: from a syntax tree to its value.

use vstd::prelude::*;
use vstd::string::StringExecFns;
use crate::expr::{Expr, ExprView, Value, ValueView};
use crate::lox::RuntimeError;
use crate::number;
use crate::number::Operation;
use crate::token::Token;
use crate::token_type::{TokenType, TokenTypeView};

verus! {

/// The two numbers that a comparison or an arithmetic operator is applied
/// to, or the error where one operand is no number.
pub open spec fn operands(left: ValueView, right: ValueView) -> Result<(u64, u64), Seq<char>> {
    match (left, right) {
        (ValueView::Number(a), ValueView::Number(b)) => Ok((a, b)),
        _ => Err("Not a number"@),
    }
}

/// The value of a prefix operator applied to `operand`. `!` negates what
/// the operand counts as; `-` negates a number.
pub open spec fn apply_unary(operator: TokenTypeView, operand: ValueView) -> Result<
    ValueView,
    Seq<char>,
> {
    match operator {
        TokenTypeView::Bang => Ok(ValueView::of_bool(!operand.truth())),
        TokenTypeView::Minus => match operand {
            ValueView::Number(bits) => Ok(ValueView::Number(number::negated(bits))),
            _ => Err("Not a number"@),
        },
        _ => Err("Invalid token?"@),
    }
}

/// The value of a binary operator applied to `left` and `right`, where
/// `arithmetic` says what the operations that round yield. Comparisons and
/// `-`, `*`, `/` want two numbers. `==` and `!=` take any two values. `+`
/// adds two numbers and joins two strings.
pub open spec fn apply_binary(
    operator: TokenTypeView,
    left: ValueView,
    right: ValueView,
    arithmetic: spec_fn(Operation, u64, u64) -> u64,
) -> Result<ValueView, Seq<char>> {
    match operator {
        TokenTypeView::Greater => match operands(left, right) {
            Ok((a, b)) => Ok(ValueView::of_bool(number::less(b, a))),
            Err(e) => Err(e),
        },
        TokenTypeView::GreaterEqual => match operands(left, right) {
            Ok((a, b)) => Ok(ValueView::of_bool(number::less_equal(b, a))),
            Err(e) => Err(e),
        },
        TokenTypeView::Less => match operands(left, right) {
            Ok((a, b)) => Ok(ValueView::of_bool(number::less(a, b))),
            Err(e) => Err(e),
        },
        TokenTypeView::LessEqual => match operands(left, right) {
            Ok((a, b)) => Ok(ValueView::of_bool(number::less_equal(a, b))),
            Err(e) => Err(e),
        },
        TokenTypeView::EqualEqual => Ok(ValueView::of_bool(left.equals(right))),
        TokenTypeView::BangEqual => Ok(ValueView::of_bool(!left.equals(right))),
        TokenTypeView::Minus => match operands(left, right) {
            Ok((a, b)) => Ok(ValueView::Number(arithmetic(Operation::Subtract, a, b))),
            Err(e) => Err(e),
        },
        TokenTypeView::Slash => match operands(left, right) {
            Ok((a, b)) => Ok(ValueView::Number(arithmetic(Operation::Divide, a, b))),
            Err(e) => Err(e),
        },
        TokenTypeView::Star => match operands(left, right) {
            Ok((a, b)) => Ok(ValueView::Number(arithmetic(Operation::Multiply, a, b))),
            Err(e) => Err(e),
        },
        TokenTypeView::Plus => match (left, right) {
            (ValueView::Number(a), ValueView::Number(b)) => Ok(
                ValueView::Number(arithmetic(Operation::Add, a, b)),
            ),
            (ValueView::String(a), ValueView::String(b)) => Ok(ValueView::String(a + b)),
            _ => Err("Invalid operation"@),
        },
        _ => Err("Invalid operation"@),
    }
}

/// The value of an expression: operands first, the left one before the
/// right one, and the first error ends the evaluation.
pub open spec fn value_of(expr: ExprView, arithmetic: spec_fn(Operation, u64, u64) -> u64) -> Result<
    ValueView,
    Seq<char>,
>
    decreases expr,
{
    match expr {
        ExprView::Literal(value) => Ok(value),
        ExprView::Grouping(inner) => value_of(*inner, arithmetic),
        ExprView::Unary(operator, operand) => match value_of(*operand, arithmetic) {
            Ok(value) => apply_unary(operator.type_, value),
            Err(e) => Err(e),
        },
        ExprView::Binary(left, operator, right) => match value_of(*left, arithmetic) {
            Ok(left_value) => match value_of(*right, arithmetic) {
                Ok(right_value) => apply_binary(operator.type_, left_value, right_value, arithmetic),
                Err(e) => Err(e),
            },
            Err(e) => Err(e),
        },
    }
}

/// Whether `arithmetic` can be called on every operation and every two
/// numbers.
pub open spec fn computes_everything<A: Fn(Operation, u64, u64) -> u64>(arithmetic: &A) -> bool {
    forall|operation: Operation, a: u64, b: u64| #[trigger] arithmetic.requires((operation, a, b))
}

/// Whether `arithmetic` computes what the function `model` says.
pub open spec fn computes_as<A: Fn(Operation, u64, u64) -> u64>(
    arithmetic: &A,
    model: spec_fn(Operation, u64, u64) -> u64,
) -> bool {
    forall|operation: Operation, a: u64, b: u64, c: u64| #[trigger]
        arithmetic.ensures((operation, a, b), c) ==> c == model(operation, a, b)
}

/// The mathematical content of what an evaluation returned.
pub open spec fn outcome(r: Result<Value, RuntimeError>) -> Result<ValueView, Seq<char>> {
    match r {
        Ok(value) => Ok(value@),
        Err(error) => Err(error@),
    }
}

/// The height of an expression.
pub open spec fn height(expr: Expr) -> nat
    decreases expr,
{
    match expr {
        Expr::Literal(_) => 0,
        Expr::Grouping(inner) => 1 + height(*inner),
        Expr::Unary(_, operand) => 1 + height(*operand),
        Expr::Binary(left, _, right) => 1 + if height(*left) >= height(*right) {
            height(*left)
        } else {
            height(*right)
        },
    }
}

/// The evaluator. It has no state: evaluating an expression changes nothing.
pub struct Interpreter {}

impl Interpreter {
    /// An evaluator.
    pub fn new() -> Self {
        Interpreter {  }
    }

    /// Evaluates `expr`. The operations that round are computed by
    /// `arithmetic`; everything else is decided here.
    ///
    /// The evaluation recurses as deep as the tree is high, and nothing
    /// bounds that height.
    pub fn evaluate<A: Fn(Operation, u64, u64) -> u64>(expr: &Expr, arithmetic: &A) -> (r: Result<
        Value,
        RuntimeError,
    >)
        requires
            computes_everything(arithmetic),
        ensures
            forall|model: spec_fn(Operation, u64, u64) -> u64|
                computes_as(arithmetic, model) ==> outcome(r) == #[trigger] value_of(
                    expr@,
                    model,
                ),
        decreases height(*expr), 1int,
    {
        match expr {
            Expr::Literal(value) => {
                let r = Ok(value.clone());
                assert forall|model: spec_fn(Operation, u64, u64) -> u64|
                    computes_as(arithmetic, model) implies outcome(r) == #[trigger] value_of(
                    expr@,
                    model,
                ) by {}
                r
            },
            Expr::Grouping(inner) => {
                let r = Self::evaluate(inner, arithmetic);
                assert forall|model: spec_fn(Operation, u64, u64) -> u64|
                    computes_as(arithmetic, model) implies outcome(r) == #[trigger] value_of(
                    expr@,
                    model,
                ) by {
                    assert(outcome(r) == value_of(inner@, model));
                }
                r
            },
            Expr::Unary(token, operand) => {
                let operand_result = Self::evaluate(operand, arithmetic);
                let ghost operand_outcome = outcome(operand_result);
                let r = match operand_result {
                    Ok(val) => match token.type_ {
                        TokenType::Bang => match val.try_into_bool() {
                            Ok(truth) => if !truth {
                                Ok(Value::True)
                            } else {
                                Ok(Value::False)
                            },
                            Err(error) => Err(error),
                        },
                        TokenType::Minus => match val.try_into_number() {
                            Ok(bits) => Ok(Value::Number(number::neg(bits))),
                            Err(error) => Err(error),
                        },
                        _ => Err(RuntimeError::new("Invalid token?")),
                    },
                    Err(error) => Err(error),
                };
                assert forall|model: spec_fn(Operation, u64, u64) -> u64|
                    computes_as(arithmetic, model) implies outcome(r) == #[trigger] value_of(
                    expr@,
                    model,
                ) by {
                    assert(operand_outcome == value_of(operand@, model));
                }
                r
            },
            Expr::Binary(left, token, right) => {
                let r = Self::evaluate_binary(left, token, right, arithmetic);
                assert forall|model: spec_fn(Operation, u64, u64) -> u64|
                    computes_as(arithmetic, model) implies outcome(r) == #[trigger] value_of(
                    expr@,
                    model,
                ) by {
                    assert(outcome(r) == value_of(
                        ExprView::Binary(Box::new(left@), token@, Box::new(right@)),
                        model,
                    ));
                }
                r
            },
        }
    }

    /// Evaluates the application of `token` to `left` and `right`: the
    /// operands first, the left one before the right one.
    fn evaluate_binary<A: Fn(Operation, u64, u64) -> u64>(
        left: &Expr,
        token: &Token,
        right: &Expr,
        arithmetic: &A,
    ) -> (r: Result<Value, RuntimeError>)
        requires
            computes_everything(arithmetic),
        ensures
            forall|model: spec_fn(Operation, u64, u64) -> u64|
                computes_as(arithmetic, model) ==> outcome(r) == #[trigger] value_of(
                    ExprView::Binary(Box::new(left@), token@, Box::new(right@)),
                    model,
                ),
        decreases
                1 + if height(*left) >= height(*right) {
                    height(*left)
                } else {
                    height(*right)
                },
                0int,
    {
        let left_result = Self::evaluate(left, arithmetic);
        let ghost left_outcome = outcome(left_result);
        let r = match left_result {
            Ok(left_val) => {
                let right_result = Self::evaluate(right, arithmetic);
                let ghost right_outcome = outcome(right_result);
                let r = match right_result {
                    Ok(right_val) => Self::apply(&token.type_, left_val, right_val, arithmetic),
                    Err(error) => Err(error),
                };
                assert forall|model: spec_fn(Operation, u64, u64) -> u64|
                    computes_as(arithmetic, model) implies outcome(r) == #[trigger] value_of(
                    ExprView::Binary(Box::new(left@), token@, Box::new(right@)),
                    model,
                ) by {
                    assert(left_outcome == value_of(left@, model));
                    assert(right_outcome == value_of(right@, model));
                    if right_outcome is Ok {
                        assert(outcome(r) == apply_binary(
                            token.type_@,
                            left_outcome->Ok_0,
                            right_outcome->Ok_0,
                            model,
                        ));
                    }
                }
                r
            },
            Err(error) => {
                let r = Err(error);
                assert forall|model: spec_fn(Operation, u64, u64) -> u64|
                    computes_as(arithmetic, model) implies outcome(r) == #[trigger] value_of(
                    ExprView::Binary(Box::new(left@), token@, Box::new(right@)),
                    model,
                ) by {
                    assert(left_outcome == value_of(left@, model));
                }
                r
            },
        };
        r
    }

    /// Applies a binary operator to the values of its operands.
    pub fn apply<A: Fn(Operation, u64, u64) -> u64>(
        operator: &TokenType,
        left_val: Value,
        right_val: Value,
        arithmetic: &A,
    ) -> (r: Result<Value, RuntimeError>)
        requires
            computes_everything(arithmetic),
        ensures
            forall|model: spec_fn(Operation, u64, u64) -> u64|
                computes_as(arithmetic, model) ==> outcome(r) == #[trigger] apply_binary(
                    operator@,
                    left_val@,
                    right_val@,
                    model,
                ),
    {
        match operator {
            TokenType::Greater => match Self::numbers(left_val, right_val) {
                Ok((a, b)) => Ok(Value::from_bool(number::gt(a, b))),
                Err(error) => Err(error),
            },
            TokenType::GreaterEqual => match Self::numbers(left_val, right_val) {
                Ok((a, b)) => Ok(Value::from_bool(number::ge(a, b))),
                Err(error) => Err(error),
            },
            TokenType::Less => match Self::numbers(left_val, right_val) {
                Ok((a, b)) => Ok(Value::from_bool(number::lt(a, b))),
                Err(error) => Err(error),
            },
            TokenType::LessEqual => match Self::numbers(left_val, right_val) {
                Ok((a, b)) => Ok(Value::from_bool(number::le(a, b))),
                Err(error) => Err(error),
            },
            TokenType::EqualEqual => Ok(Value::from_bool(left_val == right_val)),
            TokenType::BangEqual => Ok(Value::from_bool(!(left_val == right_val))),
            TokenType::Minus => match Self::numbers(left_val, right_val) {
                Ok((a, b)) => Ok(Value::Number(arithmetic(Operation::Subtract, a, b))),
                Err(error) => Err(error),
            },
            TokenType::Slash => match Self::numbers(left_val, right_val) {
                Ok((a, b)) => Ok(Value::Number(arithmetic(Operation::Divide, a, b))),
                Err(error) => Err(error),
            },
            TokenType::Star => match Self::numbers(left_val, right_val) {
                Ok((a, b)) => Ok(Value::Number(arithmetic(Operation::Multiply, a, b))),
                Err(error) => Err(error),
            },
            TokenType::Plus => match (left_val, right_val) {
                (Value::Number(left_num), Value::Number(right_num)) => Ok(
                    Value::Number(arithmetic(Operation::Add, left_num, right_num)),
                ),
                (Value::String(left_str), Value::String(right_str)) => Ok(
                    Value::String(left_str.concat(right_str.as_str())),
                ),
                _ => Err(RuntimeError::new("Invalid operation")),
            },
            _ => Err(RuntimeError::new("Invalid operation")),
        }
    }

    /// The two numbers that `left` and `right` are.
    fn numbers(left: Value, right: Value) -> (r: Result<(u64, u64), RuntimeError>)
        ensures
            match r {
                Ok(pair) => operands(left@, right@) == Ok::<(u64, u64), Seq<char>>(pair),
                Err(e) => operands(left@, right@) == Err::<(u64, u64), Seq<char>>(e@),
            },
    {
        let a = match left.try_into_number() {
            Ok(a) => a,
            Err(error) => {
                return Err(error);
            },
        };
        let b = match right.try_into_number() {
            Ok(b) => b,
            Err(error) => {
                return Err(error);
            },
        };
        Ok((a, b))
    }
}

} // verus!
