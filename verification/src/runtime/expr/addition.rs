use vstd::prelude::*;
use vstd::string::*;
use crate::runtime::error::AmvmFault;
use crate::runtime::machine::Machine;
use crate::runtime::machine::MachineModel;
use crate::runtime::result::AmvmResult;
use crate::runtime::result::Outcome;
use crate::runtime::result::outcome_model;
use crate::runtime::result::raise;
use crate::runtime::text::text_of;
use crate::tokens::header::AmvmTypeCasting;
use crate::tokens::scope::AmvmScope;
use crate::tokens::scope::ScopeModel;
use crate::tokens::value::Value;
use crate::tokens::value::ValueModel;

verus! {

/// The sum of two values of one type: numbers add, with an error where the
/// sum does not fit their type; strings join; null and null is null.
#[verifier::opaque]
pub open spec fn add_strict(sc: ScopeModel, a: ValueModel, b: ValueModel) -> Outcome<ValueModel> {
    match (a, b) {
        (ValueModel::Null, ValueModel::Null) => Ok(ValueModel::Null),
        (ValueModel::U8(x), ValueModel::U8(y)) => if x + y <= u8::MAX {
            Ok(ValueModel::U8((x + y) as u8))
        } else {
            raise(sc, AmvmFault::ArithmeticOverflow)
        },
        (ValueModel::I16(x), ValueModel::I16(y)) => if i16::MIN <= x + y <= i16::MAX {
            Ok(ValueModel::I16((x + y) as i16))
        } else {
            raise(sc, AmvmFault::ArithmeticOverflow)
        },
        (ValueModel::F32(_), ValueModel::F32(_)) => raise(sc, AmvmFault::FloatUnsupported),
        (ValueModel::String(x), ValueModel::String(y)) => Ok(ValueModel::String(x + y)),
        _ => raise(sc, AmvmFault::TypeMismatch),
    }
}

/// Whether two values have one of the types that add as they are.
pub open spec fn adds_strictly(a: ValueModel, b: ValueModel) -> bool {
    ||| a is Null && b is Null
    ||| a is U8 && b is U8
    ||| a is I16 && b is I16
    ||| a is F32 && b is F32
    ||| a is String && b is String
}

/// The sum of two values where values of different types join as text.
#[verifier::opaque]
pub open spec fn add_as_text(st: MachineModel, sc: ScopeModel, a: ValueModel, b: ValueModel) -> Outcome<
    ValueModel,
> {
    if adds_strictly(a, b) {
        add_strict(sc, a, b)
    } else {
        Ok(ValueModel::String(text_of(st, a) + text_of(st, b)))
    }
}

/// The sum of two values under the machine's casting policy.
#[verifier::opaque]
pub open spec fn add_values(st: MachineModel, sc: ScopeModel, a: ValueModel, b: ValueModel) -> Outcome<
    ValueModel,
> {
    match st.casting {
        AmvmTypeCasting::Strict => add_strict(sc, a, b),
        AmvmTypeCasting::TypeCastingStrictlessString => add_as_text(st, sc, a, b),
        _ => raise(sc, AmvmFault::CastingUnsupported),
    }
}

/// The sum of two values of one type.
pub fn eval_strict(scope: &AmvmScope, a: &Value, b: &Value) -> (r: AmvmResult)
    ensures
        outcome_model(r) == add_strict(scope@, a@, b@),
{
    reveal(add_strict);
    match a {
        Value::Null => match b {
            Value::Null => Ok(Value::Null),
            _ => Err(scope.fail(AmvmFault::TypeMismatch)),
        },
        Value::U8(x) => match b {
            Value::U8(y) => {
                if *y <= u8::MAX - *x {
                    Ok(Value::U8(*x + *y))
                } else {
                    Err(scope.fail(AmvmFault::ArithmeticOverflow))
                }
            },
            _ => Err(scope.fail(AmvmFault::TypeMismatch)),
        },
        Value::I16(x) => match b {
            Value::I16(y) => {
                let sum: i32 = (*x as i32) + (*y as i32);
                if sum >= -32768 && sum <= 32767 {
                    Ok(Value::I16(sum as i16))
                } else {
                    Err(scope.fail(AmvmFault::ArithmeticOverflow))
                }
            },
            _ => Err(scope.fail(AmvmFault::TypeMismatch)),
        },
        Value::F32(_) => match b {
            Value::F32(_) => Err(scope.fail(AmvmFault::FloatUnsupported)),
            _ => Err(scope.fail(AmvmFault::TypeMismatch)),
        },
        Value::String(x) => match b {
            Value::String(y) => Ok(Value::String(x.clone().concat(y.as_str()))),
            _ => Err(scope.fail(AmvmFault::TypeMismatch)),
        },
        _ => Err(scope.fail(AmvmFault::TypeMismatch)),
    }
}

/// Whether two values have one of the types that add as they are.
pub fn same_addable(a: &Value, b: &Value) -> (r: bool)
    ensures
        r == adds_strictly(a@, b@),
{
    match a {
        Value::Null => match b {
            Value::Null => true,
            _ => false,
        },
        Value::U8(_) => match b {
            Value::U8(_) => true,
            _ => false,
        },
        Value::I16(_) => match b {
            Value::I16(_) => true,
            _ => false,
        },
        Value::F32(_) => match b {
            Value::F32(_) => true,
            _ => false,
        },
        Value::String(_) => match b {
            Value::String(_) => true,
            _ => false,
        },
        _ => false,
    }
}

/// The sum of two values where values of different types join as text.
pub fn eval_cast_strictless_string(vm: &Machine, scope: &AmvmScope, a: &Value, b: &Value) -> (r:
    AmvmResult)
    ensures
        outcome_model(r) == add_as_text(vm@, scope@, a@, b@),
{
    reveal(add_as_text);
    if same_addable(a, b) {
        eval_strict(scope, a, b)
    } else {
        let left = vm.text_of(a);
        let right = vm.text_of(b);
        Ok(Value::String(left.concat(right.as_str())))
    }
}

/// The sum of two values under the machine's casting policy.
pub fn eval_sum(vm: &Machine, scope: &AmvmScope, a: &Value, b: &Value) -> (r: AmvmResult)
    ensures
        outcome_model(r) == add_values(vm@, scope@, a@, b@),
{
    reveal(add_values);
    match vm.casting {
        AmvmTypeCasting::Strict => eval_strict(scope, a, b),
        AmvmTypeCasting::TypeCastingStrictlessString => eval_cast_strictless_string(vm, scope, a, b),
        _ => Err(scope.fail(AmvmFault::CastingUnsupported)),
    }
}

} // verus!
