use vstd::prelude::*;
use vstd::string::*;
use crate::runtime::error::AmvmFault;
use crate::runtime::expr::property::access_field;
use crate::runtime::expr::property::mut_access;
use crate::runtime::machine::Machine;
use crate::runtime::machine::MachineModel;
use crate::runtime::result::AmvmPropagate;
use crate::runtime::result::AmvmResult;
use crate::runtime::result::Outcome;
use crate::runtime::result::outcome_model;
use crate::runtime::result::raise;
use crate::tokens::kind::VariableKind;
use crate::tokens::scope::AmvmScope;
use crate::tokens::scope::ScopeModel;
use crate::tokens::types::AmvmType;
use crate::tokens::types::TypeModel;
use crate::tokens::value::AmvmVariable;
use crate::tokens::value::FunModel;
use crate::tokens::value::NativeFun;
use crate::tokens::value::ObjectModel;
use crate::tokens::value::Parameter;
use crate::tokens::value::Value;
use crate::tokens::value::ValueFun;
use crate::tokens::value::ValueModel;
use crate::tokens::value::ValueObject;
use crate::tokens::value::VariableModel;
use crate::tokens::value::fields_model;
use crate::tokens::value::parameters_model;

verus! {

/// The step function of a range from `from` to `to`: the sides must be
/// numbers of one integer type, and the range descends where `from` is above
/// `to`.
#[verifier::opaque]
pub open spec fn range_step(sc: ScopeModel, from: ValueModel, to: ValueModel) -> Outcome<NativeFun> {
    if from is Null || to is Null {
        raise(sc, AmvmFault::NullNotIterable)
    } else {
        match from {
            ValueModel::U8(a) => match to {
                ValueModel::U8(b) => Ok(NativeFun::RangeU8 { to: b, descending: a > b }),
                _ => raise(sc, AmvmFault::RangeSidesDiffer),
            },
            ValueModel::I16(a) => match to {
                ValueModel::I16(b) => Ok(NativeFun::RangeI16 { to: b, descending: a > b }),
                _ => raise(sc, AmvmFault::RangeSidesDiffer),
            },
            ValueModel::F32(_) => match to {
                ValueModel::F32(_) => raise(sc, AmvmFault::FloatUnsupported),
                _ => raise(sc, AmvmFault::RangeSidesDiffer),
            },
            _ => raise(sc, AmvmFault::RangeNotNumber),
        }
    }
}

/// The `next` function of an iterator whose step is `native`: it takes the
/// iterator itself as a mutable `self`.
pub open spec fn iterator_next(native: NativeFun) -> FunModel {
    FunModel::Native(
        seq![("self"@, VariableKind::Mut, TypeModel::Named("Iterator"@))],
        TypeModel::Named("IteratorResult"@),
        native,
    )
}

/// The iterator object over the storage cells `value` and `next`.
pub open spec fn iterator_object(value: usize, next: usize) -> ValueModel {
    ValueModel::Object(
        ObjectModel::Instance(TypeModel::Named("Iterator"@), seq![("value"@, value), ("next"@, next)]),
    )
}

/// The machine with the iterator of a range in three new storage cells: the
/// current value, the `next` function, and the iterator object itself.
pub open spec fn with_range(st: MachineModel, from: ValueModel, native: NativeFun) -> MachineModel {
    let c = st.cells.len();
    st.allocate(from).allocate(ValueModel::Fun(iterator_next(native))).allocate(
        iterator_object(c as usize, (c + 1) as usize),
    )
}

/// The machine after a range from `from` to `to` was built.
#[verifier::opaque]
pub open spec fn range_machine(st: MachineModel, sc: ScopeModel, from: ValueModel, to: ValueModel) -> MachineModel {
    match range_step(sc, from, to) {
        Ok(native) => with_range(st, from, native),
        Err(_) => st,
    }
}

/// The value of a range from `from` to `to`: a reference to a mutable binding
/// of the iterator object.
#[verifier::opaque]
pub open spec fn range_value(st: MachineModel, sc: ScopeModel, from: ValueModel, to: ValueModel) -> Outcome<
    ValueModel,
> {
    match range_step(sc, from, to) {
        Ok(native) => Ok(ValueModel::Ref(VariableModel::Mut((st.cells.len() + 2) as usize))),
        Err(e) => Err(e),
    }
}

/// The result object of an iterator step over the storage cells `done` and
/// `value`.
pub open spec fn step_object(done: usize, value: usize) -> ValueModel {
    ValueModel::Object(
        ObjectModel::Instance(
            TypeModel::Named("IteratorResult"@),
            seq![("done"@, done), ("value"@, value)],
        ),
    )
}

/// Whether a range that runs towards `to` has reached it at `v`.
pub open spec fn reached(v: int, to: int, descending: bool) -> bool {
    if descending {
        v <= to
    } else {
        v >= to
    }
}

/// The value behind `v` in a range that has not reached its end at `v`.
pub open spec fn stepped(v: int, descending: bool) -> int {
    if descending {
        v - 1
    } else {
        v + 1
    }
}

/// The value that a step of the range leaves in the iterator whose current
/// value is `current`; nothing where the value is no number of the range's
/// type.
#[verifier::opaque]
pub open spec fn step_value(native: NativeFun, current: ValueModel) -> Option<ValueModel> {
    match native {
        NativeFun::RangeU8 { to, descending } => match current {
            ValueModel::U8(v) => if reached(v as int, to as int, descending) {
                Some(current)
            } else {
                Some(ValueModel::U8(stepped(v as int, descending) as u8))
            },
            _ => None,
        },
        NativeFun::RangeI16 { to, descending } => match current {
            ValueModel::I16(v) => if reached(v as int, to as int, descending) {
                Some(current)
            } else {
                Some(ValueModel::I16(stepped(v as int, descending) as i16))
            },
            _ => None,
        },
    }
}

/// Whether the range is at its end once its iterator holds `value`.
#[verifier::opaque]
pub open spec fn step_done(native: NativeFun, value: ValueModel) -> bool {
    match native {
        NativeFun::RangeU8 { to, descending } => match value {
            ValueModel::U8(v) => reached(v as int, to as int, descending),
            _ => true,
        },
        NativeFun::RangeI16 { to, descending } => match value {
            ValueModel::I16(v) => reached(v as int, to as int, descending),
            _ => true,
        },
    }
}

/// The machine after a step of the range on the iterator that the binding
/// `iterator` holds: the iterator's value moves one towards the end, unless
/// it is there, and the step's result stands in two new storage cells.
#[verifier::opaque]
pub open spec fn step_machine(st: MachineModel, sc: ScopeModel, native: NativeFun, iterator: VariableModel) -> MachineModel {
    match mut_access(st, sc, iterator, ValueModel::String("value"@)) {
        Err(_) => st,
        Ok(slot) => match step_value(native, st.read(slot)) {
            None => st,
            Some(v) => st.write(slot, v).allocate(ValueModel::Bool(step_done(native, v))).allocate(v),
        },
    }
}

/// The result of a step of the range: an object with the fields `done` and
/// `value`.
#[verifier::opaque]
pub open spec fn step_result(st: MachineModel, sc: ScopeModel, native: NativeFun, iterator: VariableModel) -> Outcome<
    ValueModel,
> {
    match mut_access(st, sc, iterator, ValueModel::String("value"@)) {
        Err(e) => Err(e),
        Ok(slot) => match step_value(native, st.read(slot)) {
            None => raise(sc, AmvmFault::TypeMismatch),
            Some(v) => Ok(step_object(st.cells.len() as usize, (st.cells.len() + 1) as usize)),
        },
    }
}

/// The model of the outcome of a function that gives a native function.
pub open spec fn native_outcome(r: Result<NativeFun, AmvmPropagate>) -> Outcome<NativeFun> {
    match r {
        Ok(v) => Ok(v),
        Err(p) => Err(p@),
    }
}

/// The step function of a range from `from` to `to`.
pub fn step_of(scope: &AmvmScope, from: &Value, to: &Value) -> (r: Result<NativeFun, AmvmPropagate>)
    ensures
        native_outcome(r) == range_step(scope@, from@, to@),
{
    reveal(range_step);
    match from {
        Value::Null => Err(scope.fail(AmvmFault::NullNotIterable)),
        _ => match to {
            Value::Null => Err(scope.fail(AmvmFault::NullNotIterable)),
            _ => match from {
                Value::U8(a) => match to {
                    Value::U8(b) => Ok(NativeFun::RangeU8 { to: *b, descending: *a > *b }),
                    _ => Err(scope.fail(AmvmFault::RangeSidesDiffer)),
                },
                Value::I16(a) => match to {
                    Value::I16(b) => Ok(NativeFun::RangeI16 { to: *b, descending: *a > *b }),
                    _ => Err(scope.fail(AmvmFault::RangeSidesDiffer)),
                },
                Value::F32(_) => match to {
                    Value::F32(_) => Err(scope.fail(AmvmFault::FloatUnsupported)),
                    _ => Err(scope.fail(AmvmFault::RangeSidesDiffer)),
                },
                _ => Err(scope.fail(AmvmFault::RangeNotNumber)),
            },
        },
    }
}

/// The `next` function of an iterator whose step is `native`.
pub fn next_function(native: NativeFun) -> (r: ValueFun)
    ensures
        r@ == iterator_next(native),
{
    let mut params: Vec<Parameter> = Vec::new();
    params.push(
        (String::from_str("self"), VariableKind::Mut, AmvmType::Named(String::from_str("Iterator"))),
    );
    assert(parameters_model(params@) =~= seq![
        ("self"@, VariableKind::Mut, TypeModel::Named("Iterator"@)),
    ]);
    ValueFun::Native(params, AmvmType::Named(String::from_str("IteratorResult")), native)
}

/// An object of the type `kind_of` with two fields.
pub fn pair_object(kind_of: &str, first: &str, a: usize, second: &str, b: usize) -> (r: Value)
    ensures
        r@ == ValueModel::Object(
            ObjectModel::Instance(TypeModel::Named(kind_of@), seq![(first@, a), (second@, b)]),
        ),
{
    let mut fields: Vec<(String, usize)> = Vec::new();
    fields.push((String::from_str(first), a));
    fields.push((String::from_str(second), b));
    assert(fields_model(fields@) =~= seq![(first@, a), (second@, b)]);
    Value::Object(ValueObject::Instance(AmvmType::Named(String::from_str(kind_of)), fields))
}

/// Builds the iterator of a range from the evaluated sides.
pub fn build(vm: &mut Machine, scope: &AmvmScope, from: &Value, to: &Value) -> (r: AmvmResult)
    ensures
        outcome_model(r) == range_value(old(vm)@, scope@, from@, to@),
        final(vm)@ == range_machine(old(vm)@, scope@, from@, to@),
{
    reveal(range_machine);
    reveal(range_value);
    let native = step_of(scope, from, to)?;
    let value = vm.allocate(from.clone());
    let next = vm.allocate(Value::Fun(next_function(native)));
    let object = vm.allocate(pair_object("Iterator", "value", value, "next", next));
    Ok(Value::Ref(AmvmVariable::Mut(object)))
}

/// The value that a step of the range leaves in the iterator.
pub fn step_from(native: NativeFun, current: &Value) -> (r: Option<Value>)
    ensures
        match r {
            Some(v) => step_value(native, current@) == Some(v@),
            None => step_value(native, current@) == None::<ValueModel>,
        },
{
    reveal(step_value);
    match native {
        NativeFun::RangeU8 { to, descending } => match current {
            Value::U8(v) => {
                if descending {
                    if *v <= to {
                        Some(Value::U8(*v))
                    } else {
                        Some(Value::U8(*v - 1))
                    }
                } else {
                    if *v >= to {
                        Some(Value::U8(*v))
                    } else {
                        Some(Value::U8(*v + 1))
                    }
                }
            },
            _ => None,
        },
        NativeFun::RangeI16 { to, descending } => match current {
            Value::I16(v) => {
                if descending {
                    if *v <= to {
                        Some(Value::I16(*v))
                    } else {
                        Some(Value::I16(*v - 1))
                    }
                } else {
                    if *v >= to {
                        Some(Value::I16(*v))
                    } else {
                        Some(Value::I16(*v + 1))
                    }
                }
            },
            _ => None,
        },
    }
}

/// Whether the range is at its end once its iterator holds `value`.
pub fn at_end(native: NativeFun, value: &Value) -> (r: bool)
    ensures
        r == step_done(native, value@),
{
    reveal(step_done);
    match native {
        NativeFun::RangeU8 { to, descending } => match value {
            Value::U8(v) => if descending {
                *v <= to
            } else {
                *v >= to
            },
            _ => true,
        },
        NativeFun::RangeI16 { to, descending } => match value {
            Value::I16(v) => if descending {
                *v <= to
            } else {
                *v >= to
            },
            _ => true,
        },
    }
}

/// One step of a range on the iterator that the binding `iterator` holds.
pub fn step(vm: &mut Machine, scope: &AmvmScope, native: NativeFun, iterator: &AmvmVariable) -> (r:
    AmvmResult)
    ensures
        outcome_model(r) == step_result(old(vm)@, scope@, native, iterator@),
        final(vm)@ == step_machine(old(vm)@, scope@, native, iterator@),
{
    reveal(step_machine);
    reveal(step_result);
    let slot = access_field(vm, scope, iterator, &Value::String(String::from_str("value")))?;
    let current = vm.read(&slot);
    match step_from(native, &current) {
        None => Err(scope.fail(AmvmFault::TypeMismatch)),
        Some(v) => {
            let done = at_end(native, &v);
            vm.write(&slot, v.clone());
            let done_cell = vm.allocate(Value::Bool(done));
            let value_cell = vm.allocate(v);
            Ok(pair_object("IteratorResult", "done", done_cell, "value", value_cell))
        },
    }
}

} // verus!
