use vstd::prelude::*;
use crate::runtime::error::AmvmFault;
use crate::runtime::expr::addition::add_values;
use crate::runtime::expr::binary_op::BinaryOpKind;
use crate::runtime::expr::binary_op::operate;
use crate::runtime::expr::cond::compare;
use crate::runtime::expr::property::get_property;
use crate::runtime::expr::range::range_machine;
use crate::runtime::expr::range::range_value;
use crate::runtime::machine::MachineModel;
use crate::runtime::result::Outcome;
use crate::runtime::result::ResultModel;
use crate::runtime::result::raise;
use crate::runtime::table::bind;
use crate::tokens::expr::BinaryKind;
use crate::tokens::expr::ExprModel;
use crate::tokens::scope::ScopeModel;
use crate::tokens::value::ObjectModel;
use crate::tokens::value::ValueModel;
use crate::tokens::value::VariableModel;

verus! {

/// The machine and what came out, after something was evaluated.
pub ghost struct Evaluated<T> {
    pub st: MachineModel,
    pub out: Outcome<T>,
}

/// The binding that a result stands for: a reference's own, a value's as a
/// new constant, and for a binding that holds a reference what it refers to.
pub open spec fn result_ref(st: MachineModel, r: ResultModel) -> VariableModel {
    match r {
        ResultModel::Value(v) => match v {
            ValueModel::Ref(var) => var,
            _ => VariableModel::Const(Box::new(v)),
        },
        ResultModel::Variable(var) => match st.read(var) {
            ValueModel::Ref(inner) => inner,
            _ => var,
        },
    }
}

/// The value of a result, read through one reference.
pub open spec fn result_value(st: MachineModel, r: ResultModel) -> ValueModel {
    st.read(result_ref(st, r))
}

/// The value of a result as it stands: a reference stays one.
pub open spec fn result_value_ref(st: MachineModel, r: ResultModel) -> ValueModel {
    match r {
        ResultModel::Value(v) => v,
        ResultModel::Variable(var) => st.read(var),
    }
}

/// The value that a binary operation gives for two evaluated operands.
#[verifier::opaque]
pub open spec fn apply_binary(
    st: MachineModel,
    sc: ScopeModel,
    kind: BinaryKind,
    a: ValueModel,
    b: ValueModel,
) -> Outcome<ValueModel> {
    match kind {
        BinaryKind::Add => add_values(st, sc, a, b),
        BinaryKind::Sub => operate(sc, BinaryOpKind::Sub, a, b),
        BinaryKind::Mult => operate(sc, BinaryOpKind::Mult, a, b),
        _ => compare(sc, kind, a, b),
    }
}

/// The reference that `&` makes of a binding: to what the binding refers to,
/// where it holds a reference itself, and to the binding otherwise.
#[verifier::opaque]
pub open spec fn reference_to(st: MachineModel, var: VariableModel) -> ValueModel {
    match st.read(var) {
        ValueModel::Ref(inner) => ValueModel::Ref(inner),
        _ => ValueModel::Ref(var),
    }
}

/// A value as a result.
pub open spec fn as_result(out: Outcome<ValueModel>) -> Outcome<ResultModel> {
    match out {
        Ok(v) => Ok(ResultModel::Value(v)),
        Err(p) => Err(p),
    }
}

/// The two operands of a binary node, evaluated from left to right. The
/// value of the left one is read before the right one is evaluated.
pub open spec fn sem_operands(st: MachineModel, sc: ScopeModel, e: ExprModel) -> Evaluated<
    (ValueModel, ValueModel),
>
    decreases e, 0nat,
{
    let sides = match e {
        ExprModel::Binary(_, a, b) => Some((*a, *b)),
        ExprModel::Property(a, b) => Some((*a, *b)),
        ExprModel::Range(a, b) => Some((*a, *b)),
        _ => None,
    };
    match sides {
        None => Evaluated { st, out: raise(sc, AmvmFault::TypeMismatch) },
        Some((a, b)) => {
            let left = sem_expr(st, sc, a);
            match left.out {
                Err(p) => Evaluated { st: left.st, out: Err(p) },
                Ok(ra) => {
                    let va = result_value(left.st, ra);
                    let right = sem_expr(left.st, sc, b);
                    match right.out {
                        Err(p) => Evaluated { st: right.st, out: Err(p) },
                        Ok(rb) => Evaluated {
                            st: right.st,
                            out: Ok((va, result_value(right.st, rb))),
                        },
                    }
                },
            }
        },
    }
}

/// The field initialisers of a struct construction, evaluated in turn behind
/// the fields in `acc`. Each value goes into a new storage cell; a later field
/// of a name takes the place of an earlier one.
pub open spec fn sem_inits(
    st: MachineModel,
    sc: ScopeModel,
    inits: Seq<(Seq<char>, ExprModel)>,
    acc: Seq<(Seq<char>, usize)>,
) -> Evaluated<Seq<(Seq<char>, usize)>>
    decreases inits, 0nat,
{
    if inits.len() == 0 {
        Evaluated { st, out: Ok(acc) }
    } else {
        let first = sem_expr(st, sc, inits[0].1);
        match first.out {
            Err(p) => Evaluated { st: first.st, out: Err(p) },
            Ok(r) => sem_inits(
                first.st.allocate(result_value(first.st, r)),
                sc,
                inits.drop_first(),
                bind(acc, inits[0].0, first.st.cells.len() as usize),
            ),
        }
    }
}

/// What an expression evaluates to in the scope `sc`, and the machine after
/// it.
pub open spec fn sem_expr(st: MachineModel, sc: ScopeModel, e: ExprModel) -> Evaluated<ResultModel>
    decreases e, 1nat,
{
    match e {
        ExprModel::Binary(kind, _, _) => {
            let sides = sem_operands(st, sc, e);
            match sides.out {
                Err(p) => Evaluated { st: sides.st, out: Err(p) },
                Ok(ab) => Evaluated {
                    st: sides.st,
                    out: as_result(apply_binary(sides.st, sc, kind, ab.0, ab.1)),
                },
            }
        },
        ExprModel::Prev => match st.top_prev(sc.context) {
            Some(r) => Evaluated { st: st.pop_prev(sc.context), out: Ok(r) },
            None => Evaluated { st, out: raise(sc, AmvmFault::NoPreviousValue) },
        },
        ExprModel::Property(_, _) => {
            let sides = sem_operands(st, sc, e);
            match sides.out {
                Err(p) => Evaluated { st: sides.st, out: Err(p) },
                Ok(ab) => Evaluated {
                    st: sides.st,
                    out: as_result(get_property(sides.st, sc, ab.0, ab.1)),
                },
            }
        },
        ExprModel::Range(_, _) => {
            let sides = sem_operands(st, sc, e);
            match sides.out {
                Err(p) => Evaluated { st: sides.st, out: Err(p) },
                Ok(ab) => Evaluated {
                    st: range_machine(sides.st, sc, ab.0, ab.1),
                    out: as_result(range_value(sides.st, sc, ab.0, ab.1)),
                },
            }
        },
        ExprModel::Ref(_, inner) => {
            let target = sem_expr(st, sc, *inner);
            match target.out {
                Err(p) => Evaluated { st: target.st, out: Err(p) },
                Ok(r) => Evaluated {
                    st: target.st,
                    out: Ok(ResultModel::Value(reference_to(target.st, result_ref(target.st, r)))),
                },
            }
        },
        ExprModel::Struct(t, inits) => {
            let fields = sem_inits(st, sc, inits, Seq::empty());
            match fields.out {
                Err(p) => Evaluated { st: fields.st, out: Err(p) },
                Ok(fs) => Evaluated {
                    st: fields.st,
                    out: Ok(ResultModel::Value(ValueModel::Object(ObjectModel::Instance(t, fs)))),
                },
            }
        },
        ExprModel::Value(v) => Evaluated { st, out: Ok(ResultModel::Value(v)) },
        ExprModel::Var(name) => match st.resolve(sc.context as int, name) {
            Some(var) => Evaluated { st, out: Ok(ResultModel::Variable(var)) },
            None => Evaluated { st, out: raise(sc, AmvmFault::UndefinedVariable) },
        },
    }
}

/// What an expression evaluates to, as `sem_expr` says.
#[verifier::opaque]
pub open spec fn sem_result(st: MachineModel, sc: ScopeModel, e: ExprModel) -> Evaluated<ResultModel> {
    sem_expr(st, sc, e)
}

/// An expression evaluated to a value.
#[verifier::opaque]
pub open spec fn sem_value(st: MachineModel, sc: ScopeModel, e: ExprModel) -> Evaluated<ValueModel> {
    let done = sem_expr(st, sc, e);
    match done.out {
        Err(p) => Evaluated { st: done.st, out: Err(p) },
        Ok(r) => Evaluated { st: done.st, out: Ok(result_value(done.st, r)) },
    }
}

} // verus!
