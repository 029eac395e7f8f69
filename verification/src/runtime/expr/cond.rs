use vstd::prelude::*;
use crate::runtime::error::AmvmFault;
use crate::runtime::result::AmvmResult;
use crate::runtime::result::Outcome;
use crate::runtime::result::outcome_model;
use crate::runtime::result::raise;
use crate::tokens::expr::BinaryKind;
use crate::tokens::scope::AmvmScope;
use crate::tokens::scope::ScopeModel;
use crate::tokens::value::Value;
use crate::tokens::value::ValueModel;
use crate::utils::text_eq;

verus! {

/// Whether `x` and `y` stand in the order that `kind` asks for; `false` for a
/// kind that is no ordering.
pub open spec fn ordered(kind: BinaryKind, x: int, y: int) -> bool {
    match kind {
        BinaryKind::GreaterThan => x > y,
        BinaryKind::GreaterThanEqual => x >= y,
        BinaryKind::LessThan => x < y,
        BinaryKind::LessThanEqual => x <= y,
        _ => false,
    }
}

/// Whether `kind` compares by order.
pub open spec fn is_ordering(kind: BinaryKind) -> bool {
    kind is GreaterThan || kind is GreaterThanEqual || kind is LessThan || kind is LessThanEqual
}

/// The result of an ordering of two values: numbers of one integer type
/// compare.
#[verifier::opaque]
pub open spec fn compare_order(sc: ScopeModel, kind: BinaryKind, a: ValueModel, b: ValueModel) -> Outcome<
    ValueModel,
> {
    match (a, b) {
        (ValueModel::U8(x), ValueModel::U8(y)) => Ok(ValueModel::Bool(ordered(kind, x as int, y as int))),
        (ValueModel::I16(x), ValueModel::I16(y)) => Ok(
            ValueModel::Bool(ordered(kind, x as int, y as int)),
        ),
        (ValueModel::F32(_), ValueModel::F32(_)) => raise(sc, AmvmFault::FloatUnsupported),
        _ => raise(sc, AmvmFault::TypeMismatch),
    }
}

/// The result of `==` on two values: strings and booleans compare.
#[verifier::opaque]
pub open spec fn compare_equal(sc: ScopeModel, a: ValueModel, b: ValueModel) -> Outcome<ValueModel> {
    match (a, b) {
        (ValueModel::String(x), ValueModel::String(y)) => Ok(ValueModel::Bool(x == y)),
        (ValueModel::Bool(x), ValueModel::Bool(y)) => Ok(ValueModel::Bool(x == y)),
        _ => raise(sc, AmvmFault::TypeMismatch),
    }
}

/// The result of `!=` on two values: strings compare, a string differs from
/// no value of another type, and null from null.
#[verifier::opaque]
pub open spec fn compare_unequal(sc: ScopeModel, a: ValueModel, b: ValueModel) -> Outcome<ValueModel> {
    match (a, b) {
        (ValueModel::String(x), ValueModel::String(y)) => Ok(ValueModel::Bool(x != y)),
        (ValueModel::String(_), _) => Ok(ValueModel::Bool(false)),
        (ValueModel::Null, ValueModel::Null) => Ok(ValueModel::Bool(true)),
        _ => raise(sc, AmvmFault::TypeMismatch),
    }
}

/// The result of a comparison of two values.
#[verifier::opaque]
pub open spec fn compare(sc: ScopeModel, kind: BinaryKind, a: ValueModel, b: ValueModel) -> Outcome<
    ValueModel,
> {
    if is_ordering(kind) {
        compare_order(sc, kind, a, b)
    } else if kind is Equal {
        compare_equal(sc, a, b)
    } else if kind is NotEqual {
        compare_unequal(sc, a, b)
    } else {
        raise(sc, AmvmFault::TypeMismatch)
    }
}

/// Whether `x` and `y` stand in the order that `kind` asks for.
pub fn in_order(kind: BinaryKind, x: i32, y: i32) -> (r: bool)
    ensures
        r == ordered(kind, x as int, y as int),
{
    match kind {
        BinaryKind::GreaterThan => x > y,
        BinaryKind::GreaterThanEqual => x >= y,
        BinaryKind::LessThan => x < y,
        BinaryKind::LessThanEqual => x <= y,
        _ => false,
    }
}

/// The result of an ordering of two evaluated operands.
pub fn eval_order(scope: &AmvmScope, kind: BinaryKind, a: &Value, b: &Value) -> (r: AmvmResult)
    ensures
        outcome_model(r) == compare_order(scope@, kind, a@, b@),
{
    reveal(compare_order);
    match a {
        Value::U8(x) => match b {
            Value::U8(y) => Ok(Value::Bool(in_order(kind, *x as i32, *y as i32))),
            _ => Err(scope.fail(AmvmFault::TypeMismatch)),
        },
        Value::I16(x) => match b {
            Value::I16(y) => Ok(Value::Bool(in_order(kind, *x as i32, *y as i32))),
            _ => Err(scope.fail(AmvmFault::TypeMismatch)),
        },
        Value::F32(_) => match b {
            Value::F32(_) => Err(scope.fail(AmvmFault::FloatUnsupported)),
            _ => Err(scope.fail(AmvmFault::TypeMismatch)),
        },
        _ => Err(scope.fail(AmvmFault::TypeMismatch)),
    }
}

/// The result of `==` on two evaluated operands.
pub fn eval_equal(scope: &AmvmScope, a: &Value, b: &Value) -> (r: AmvmResult)
    ensures
        outcome_model(r) == compare_equal(scope@, a@, b@),
{
    reveal(compare_equal);
    match a {
        Value::String(x) => match b {
            Value::String(y) => Ok(Value::Bool(text_eq(x.as_str(), y.as_str()))),
            _ => Err(scope.fail(AmvmFault::TypeMismatch)),
        },
        Value::Bool(x) => match b {
            Value::Bool(y) => Ok(Value::Bool(*x == *y)),
            _ => Err(scope.fail(AmvmFault::TypeMismatch)),
        },
        _ => Err(scope.fail(AmvmFault::TypeMismatch)),
    }
}

/// The result of `!=` on two evaluated operands.
pub fn eval_unequal(scope: &AmvmScope, a: &Value, b: &Value) -> (r: AmvmResult)
    ensures
        outcome_model(r) == compare_unequal(scope@, a@, b@),
{
    reveal(compare_unequal);
    match a {
        Value::String(x) => match b {
            Value::String(y) => Ok(Value::Bool(!text_eq(x.as_str(), y.as_str()))),
            _ => Ok(Value::Bool(false)),
        },
        Value::Null => match b {
            Value::Null => Ok(Value::Bool(true)),
            _ => Err(scope.fail(AmvmFault::TypeMismatch)),
        },
        _ => Err(scope.fail(AmvmFault::TypeMismatch)),
    }
}

/// The result of a comparison of two evaluated operands.
pub fn eval_compare(scope: &AmvmScope, kind: BinaryKind, a: &Value, b: &Value) -> (r: AmvmResult)
    ensures
        outcome_model(r) == compare(scope@, kind, a@, b@),
{
    reveal(compare);
    match kind {
        BinaryKind::GreaterThan => eval_order(scope, kind, a, b),
        BinaryKind::GreaterThanEqual => eval_order(scope, kind, a, b),
        BinaryKind::LessThan => eval_order(scope, kind, a, b),
        BinaryKind::LessThanEqual => eval_order(scope, kind, a, b),
        BinaryKind::Equal => eval_equal(scope, a, b),
        BinaryKind::NotEqual => eval_unequal(scope, a, b),
        _ => Err(scope.fail(AmvmFault::TypeMismatch)),
    }
}

} // verus!
