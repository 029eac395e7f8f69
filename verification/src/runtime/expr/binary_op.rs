use vstd::prelude::*;
use crate::runtime::error::AmvmFault;
use crate::runtime::result::AmvmResult;
use crate::runtime::result::Outcome;
use crate::runtime::result::outcome_model;
use crate::runtime::result::raise;
use crate::tokens::scope::AmvmScope;
use crate::tokens::scope::ScopeModel;
use crate::tokens::value::Value;
use crate::tokens::value::ValueModel;

verus! {

/// The arithmetic operations besides addition.
#[derive(Debug, Clone, Copy, PartialEq, Eq, Structural)]
pub enum BinaryOpKind {
    Sub,
    Mult,
    Div,
}

/// The quotient of two integers, rounded towards zero.
pub open spec fn quotient(x: int, y: int) -> int
    recommends
        y != 0,
{
    if (x >= 0) == (y > 0) {
        (if x >= 0 { x } else { -x }) / (if y > 0 { y } else { -y })
    } else {
        -((if x >= 0 { x } else { -x }) / (if y > 0 { y } else { -y }))
    }
}

/// The exact result of an operation on two integers; nothing for a division
/// by zero.
pub open spec fn calculate(kind: BinaryOpKind, x: int, y: int) -> Option<int> {
    match kind {
        BinaryOpKind::Sub => Some(x - y),
        BinaryOpKind::Mult => Some(x * y),
        BinaryOpKind::Div => if y == 0 {
            None
        } else {
            Some(quotient(x, y))
        },
    }
}

/// The result of an operation on two numbers of one integer type: an error
/// where the exact result does not fit the type.
#[verifier::opaque]
pub open spec fn operate(sc: ScopeModel, kind: BinaryOpKind, a: ValueModel, b: ValueModel) -> Outcome<
    ValueModel,
> {
    match (a, b) {
        (ValueModel::U8(x), ValueModel::U8(y)) => match calculate(kind, x as int, y as int) {
            None => raise(sc, AmvmFault::DivisionByZero),
            Some(z) => if 0 <= z <= u8::MAX {
                Ok(ValueModel::U8(z as u8))
            } else {
                raise(sc, AmvmFault::ArithmeticOverflow)
            },
        },
        (ValueModel::I16(x), ValueModel::I16(y)) => match calculate(kind, x as int, y as int) {
            None => raise(sc, AmvmFault::DivisionByZero),
            Some(z) => if i16::MIN <= z <= i16::MAX {
                Ok(ValueModel::I16(z as i16))
            } else {
                raise(sc, AmvmFault::ArithmeticOverflow)
            },
        },
        (ValueModel::F32(_), ValueModel::F32(_)) => raise(sc, AmvmFault::FloatUnsupported),
        _ => raise(sc, AmvmFault::TypeMismatch),
    }
}

/// The exact result of an operation on two integers of at most 16 bits;
/// nothing for a division by zero.
fn calculate_exact(kind: BinaryOpKind, x: i32, y: i32) -> (r: Option<i64>)
    requires
        -32768 <= x <= 32767,
        -32768 <= y <= 32767,
    ensures
        match r {
            Some(z) => calculate(kind, x as int, y as int) == Some(z as int),
            None => calculate(kind, x as int, y as int) == None::<int>,
        },
{
    match kind {
        BinaryOpKind::Sub => Some((x as i64) - (y as i64)),
        BinaryOpKind::Mult => {
            assert(-32768 * 32768 <= x * y <= 32768 * 32768) by (nonlinear_arith)
                requires
                    -32768 <= x <= 32767,
                    -32768 <= y <= 32767,
            ;
            Some((x as i64) * (y as i64))
        },
        BinaryOpKind::Div => {
            if y == 0 {
                None
            } else {
                let ax: u32 = if x >= 0 { x as u32 } else { (-x) as u32 };
                let ay: u32 = if y > 0 { y as u32 } else { (-y) as u32 };
                let q: u32 = ax / ay;
                assert(q <= ax) by (nonlinear_arith)
                    requires
                        q == ax / ay,
                        ay >= 1,
                ;
                if (x >= 0) == (y > 0) {
                    Some(q as i64)
                } else {
                    Some(-(q as i64))
                }
            }
        },
    }
}

/// The result of an operation on two evaluated operands.
pub fn eval_post(scope: &AmvmScope, kind: BinaryOpKind, a: &Value, b: &Value) -> (r: AmvmResult)
    ensures
        outcome_model(r) == operate(scope@, kind, a@, b@),
{
    reveal(operate);
    match a {
        Value::U8(x) => match b {
            Value::U8(y) => match calculate_exact(kind, *x as i32, *y as i32) {
                None => Err(scope.fail(AmvmFault::DivisionByZero)),
                Some(z) => if 0 <= z && z <= 255 {
                    Ok(Value::U8(z as u8))
                } else {
                    Err(scope.fail(AmvmFault::ArithmeticOverflow))
                },
            },
            _ => Err(scope.fail(AmvmFault::TypeMismatch)),
        },
        Value::I16(x) => match b {
            Value::I16(y) => match calculate_exact(kind, *x as i32, *y as i32) {
                None => Err(scope.fail(AmvmFault::DivisionByZero)),
                Some(z) => if -32768 <= z && z <= 32767 {
                    Ok(Value::I16(z as i16))
                } else {
                    Err(scope.fail(AmvmFault::ArithmeticOverflow))
                },
            },
            _ => Err(scope.fail(AmvmFault::TypeMismatch)),
        },
        Value::F32(_) => match b {
            Value::F32(_) => Err(scope.fail(AmvmFault::FloatUnsupported)),
            _ => Err(scope.fail(AmvmFault::TypeMismatch)),
        },
        _ => Err(scope.fail(AmvmFault::TypeMismatch)),
    }
}

} // verus!
