//! The operators of the language on values.

use vstd::prelude::*;
use crate::errors::{name_error, runtime_error, type_error, EvalError, EvalErrorView};
use crate::host::{Arith, Awaiting, HostRequest, RequestView};
use crate::number::Number;
use crate::stdlib::{Outcome, OutcomeView};
use crate::store::{field, with_field, Store, StoreView};
use crate::text::{copy_string, push_text};
use crate::tokenizer::TokenKind;
use crate::value::{same_value, Value, ValueView};

verus! {

/// The binary operators that work on two values.
#[derive(Debug, Clone, Copy, PartialEq, Eq, Structural, Hash)]
pub enum Operator {
    Add,
    Sub,
    Mul,
    Div,
    Mod,
    Eq,
    Ne,
    Lt,
    Le,
    Gt,
    Ge,
    BitAnd,
    BitOr,
}

/// The operator that a token stands for between two operands that are both
/// evaluated. `=`, `&&` and `||` are none of these: they do not evaluate
/// both sides first.
pub open spec fn operator_of(kind: TokenKind) -> Option<Operator> {
    match kind {
        TokenKind::Plus => Some(Operator::Add),
        TokenKind::Minus => Some(Operator::Sub),
        TokenKind::Star => Some(Operator::Mul),
        TokenKind::Slash => Some(Operator::Div),
        TokenKind::Percent => Some(Operator::Mod),
        TokenKind::Equal => Some(Operator::Eq),
        TokenKind::NotEqual => Some(Operator::Ne),
        TokenKind::Less => Some(Operator::Lt),
        TokenKind::LessEqual => Some(Operator::Le),
        TokenKind::Greater => Some(Operator::Gt),
        TokenKind::GreaterEqual => Some(Operator::Ge),
        TokenKind::BitAnd => Some(Operator::BitAnd),
        TokenKind::BitOr => Some(Operator::BitOr),
        _ => None,
    }
}

/// The operator that a token stands for.
pub fn to_operator(kind: TokenKind) -> (r: Option<Operator>)
    ensures
        r == operator_of(kind),
{
    match kind {
        TokenKind::Plus => Some(Operator::Add),
        TokenKind::Minus => Some(Operator::Sub),
        TokenKind::Star => Some(Operator::Mul),
        TokenKind::Slash => Some(Operator::Div),
        TokenKind::Percent => Some(Operator::Mod),
        TokenKind::Equal => Some(Operator::Eq),
        TokenKind::NotEqual => Some(Operator::Ne),
        TokenKind::Less => Some(Operator::Lt),
        TokenKind::LessEqual => Some(Operator::Le),
        TokenKind::Greater => Some(Operator::Gt),
        TokenKind::GreaterEqual => Some(Operator::Ge),
        TokenKind::BitAnd => Some(Operator::BitAnd),
        TokenKind::BitOr => Some(Operator::BitOr),
        _ => None,
    }
}

/// The request for the arithmetic `op` on two numbers.
pub open spec fn asked(op: Arith, left: Number, right: Number) -> OutcomeView {
    OutcomeView::Ask { request: RequestView::Binary { op, left, right }, awaiting: Awaiting::Number }
}

/// The bits that two integers have in common.
pub open spec fn bits_and(a: i64, b: i64) -> i64 {
    a & b
}

/// The bits that either of two integers has.
pub open spec fn bits_or(a: i64, b: i64) -> i64 {
    a | b
}

/// What an operator gives on two numbers: arithmetic is asked of the host,
/// and its answer is the value; comparisons and the operators on bits are
/// decided here. The operators on bits work on the numbers cut to 64-bit
/// integers.
pub open spec fn operated_numbers(op: Operator, a: Number, b: Number) -> OutcomeView {
    match op {
        Operator::Add => asked(Arith::Add, a, b),
        Operator::Sub => asked(Arith::Sub, a, b),
        Operator::Mul => asked(Arith::Mul, a, b),
        Operator::Div => asked(Arith::Div, a, b),
        Operator::Mod => asked(Arith::Rem, a, b),
        Operator::Eq => OutcomeView::Value(ValueView::Boolean(a.same(b))),
        Operator::Ne => OutcomeView::Value(ValueView::Boolean(!a.same(b))),
        Operator::Lt => OutcomeView::Value(ValueView::Boolean(a.below(b))),
        Operator::Le => OutcomeView::Value(ValueView::Boolean(a.below(b) || a.same(b))),
        Operator::Gt => OutcomeView::Value(ValueView::Boolean(b.below(a))),
        Operator::Ge => OutcomeView::Value(ValueView::Boolean(b.below(a) || a.same(b))),
        Operator::BitAnd => OutcomeView::Value(
            ValueView::Number(
                Number::of_integer(bits_and(a.truncated() as i64, b.truncated() as i64) as int),
            ),
        ),
        Operator::BitOr => OutcomeView::Value(
            ValueView::Number(
                Number::of_integer(bits_or(a.truncated() as i64, b.truncated() as i64) as int),
            ),
        ),
    }
}

/// What an operator gives on two values. Equality works on all values;
/// `+` joins two strings; everything else works on two numbers only, and is
/// a type error on anything else.
pub open spec fn operated(op: Operator, a: ValueView, b: ValueView) -> OutcomeView {
    match op {
        Operator::Eq => OutcomeView::Value(ValueView::Boolean(same_value(a, b))),
        Operator::Ne => OutcomeView::Value(ValueView::Boolean(!same_value(a, b))),
        _ => match (a, b) {
            (ValueView::Number(x), ValueView::Number(y)) => operated_numbers(op, x, y),
            (ValueView::String(x), ValueView::String(y)) => if op == Operator::Add {
                OutcomeView::Value(ValueView::String(x + y))
            } else {
                OutcomeView::Fail(type_error("Unsupported binary operation"@))
            },
            _ => OutcomeView::Fail(type_error("Unsupported binary operation"@)),
        },
    }
}

fn ask(op: Arith, left: Number, right: Number) -> (r: Outcome)
    ensures
        r@ == asked(op, left, right),
{
    Outcome::Ask { request: HostRequest::Binary { op, left, right }, awaiting: Awaiting::Number }
}

fn operate_numbers(op: Operator, a: Number, b: Number) -> (r: Outcome)
    ensures
        r@ == operated_numbers(op, a, b),
{
    match op {
        Operator::Add => ask(Arith::Add, a, b),
        Operator::Sub => ask(Arith::Sub, a, b),
        Operator::Mul => ask(Arith::Mul, a, b),
        Operator::Div => ask(Arith::Div, a, b),
        Operator::Mod => ask(Arith::Rem, a, b),
        Operator::Eq => Outcome::Value(Value::Boolean(a.equals(b))),
        Operator::Ne => Outcome::Value(Value::Boolean(!a.equals(b))),
        Operator::Lt => Outcome::Value(Value::Boolean(a.less_than(b))),
        Operator::Le => Outcome::Value(Value::Boolean(a.less_than_or_equal(b))),
        Operator::Gt => Outcome::Value(Value::Boolean(a.greater_than(b))),
        Operator::Ge => Outcome::Value(Value::Boolean(a.greater_than_or_equal(b))),
        Operator::BitAnd => Outcome::Value(
            Value::Number(Number::from_integer(a.to_integer() & b.to_integer())),
        ),
        Operator::BitOr => Outcome::Value(
            Value::Number(Number::from_integer(a.to_integer() | b.to_integer())),
        ),
    }
}

/// Applies an operator to two values.
pub fn operate(op: Operator, a: &Value, b: &Value) -> (r: Outcome)
    ensures
        r@ == operated(op, a@, b@),
{
    match op {
        Operator::Eq => Outcome::Value(Value::Boolean(a.equals(b))),
        Operator::Ne => Outcome::Value(Value::Boolean(!a.equals(b))),
        _ => match (a, b) {
            (Value::Number(x), Value::Number(y)) => operate_numbers(op, *x, *y),
            (Value::String(x), Value::String(y)) => {
                if op == Operator::Add {
                    let mut joined = copy_string(x);
                    push_text(&mut joined, y.as_str());
                    Outcome::Value(Value::String(joined))
                } else {
                    Outcome::Fail(EvalError::wrong_type("Unsupported binary operation"))
                }
            },
            _ => Outcome::Fail(EvalError::wrong_type("Unsupported binary operation")),
        },
    }
}

/// What unary `-` gives: the number with its sign turned; a type error on
/// anything but a number.
pub open spec fn negative_of(v: ValueView) -> Result<ValueView, EvalErrorView> {
    match v {
        ValueView::Number(n) => Ok(ValueView::Number(n.negated())),
        _ => Err(type_error("Operand must be a number"@)),
    }
}

/// What `!` gives: the other boolean; a type error on anything but a
/// boolean.
pub open spec fn inverse_of(v: ValueView) -> Result<ValueView, EvalErrorView> {
    match v {
        ValueView::Boolean(b) => Ok(ValueView::Boolean(!b)),
        _ => Err(type_error("Operand must be a boolean"@)),
    }
}

/// What a value has under the name `name`: the property of an object, which
/// must be there; for any other value the method of that name, bound to the
/// value and looked up when it is called.
pub open spec fn member_of(store: StoreView, object: ValueView, name: Seq<char>) -> Result<
    ValueView,
    EvalErrorView,
> {
    match object {
        ValueView::Object(h) => if h >= store.objects.len() {
            Err(runtime_error("Invalid reference"@))
        } else {
            match field(store.objects[h as int], name) {
                Some(v) => Ok(v),
                None => Err(name_error(name)),
            }
        },
        _ => Ok(ValueView::Method { receiver: Box::new(object), name }),
    }
}

/// The store after the property `name` of `object` was set, or the error
/// of setting it: only an object has properties that can be set.
pub open spec fn member_put(store: StoreView, object: ValueView, name: Seq<char>, value: ValueView) -> Result<
    StoreView,
    EvalErrorView,
> {
    match object {
        ValueView::Object(h) => if h >= store.objects.len() {
            Err(runtime_error("Invalid reference"@))
        } else {
            Ok(
                StoreView {
                    objects: store.objects.update(
                        h as int,
                        with_field(store.objects[h as int], name, value),
                    ),
                    ..store
                },
            )
        },
        _ => Err(type_error("Attempted member access on non-object value"@)),
    }
}

/// Result of an operation, as its view.
pub open spec fn result_view(r: Result<Value, EvalError>) -> Result<ValueView, EvalErrorView> {
    match r {
        Ok(v) => Ok(v@),
        Err(e) => Err(e@),
    }
}

/// Applies unary `-`.
pub fn negate_value(v: &Value) -> (r: Result<Value, EvalError>)
    ensures
        result_view(r) == negative_of(v@),
{
    match v {
        Value::Number(n) => Ok(Value::Number(n.negate())),
        _ => Err(EvalError::wrong_type("Operand must be a number")),
    }
}

/// Applies `!`.
pub fn invert_value(v: &Value) -> (r: Result<Value, EvalError>)
    ensures
        result_view(r) == inverse_of(v@),
{
    match v {
        Value::Boolean(b) => Ok(Value::Boolean(!*b)),
        _ => Err(EvalError::wrong_type("Operand must be a boolean")),
    }
}

/// What `object` has under the name `name`.
pub fn get_member(store: &Store, object: Value, name: &String) -> (r: Result<Value, EvalError>)
    ensures
        result_view(r) == member_of(store@, object@, name@),
{
    match object {
        Value::Object(h) => {
            if h >= store.objects.len() {
                return Err(EvalError::failed("Invalid reference"));
            }
            match store.object_get(h, name) {
                Some(v) => Ok(v),
                None => Err(EvalError::UndefinedVariable(copy_string(name))),
            }
        },
        other => Ok(Value::Method { receiver: Box::new(other), name: copy_string(name) }),
    }
}

/// Sets the property `name` of `object`.
pub fn set_member(store: &mut Store, object: &Value, name: &String, value: Value) -> (r: Result<
    (),
    EvalError,
>)
    ensures
        match r {
            Ok(_) => member_put(old(store)@, object@, name@, value@) == Ok::<
                StoreView,
                EvalErrorView,
            >(final(store)@),
            Err(e) => member_put(old(store)@, object@, name@, value@) == Err::<
                StoreView,
                EvalErrorView,
            >(e@) && final(store)@ == old(store)@,
        },
{
    match object {
        Value::Object(h) => {
            if store.object_set(*h, copy_string(name), value) {
                Ok(())
            } else {
                Err(EvalError::failed("Invalid reference"))
            }
        },
        _ => Err(EvalError::wrong_type("Attempted member access on non-object value")),
    }
}

} // verus!
