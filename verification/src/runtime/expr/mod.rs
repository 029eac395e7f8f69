//! The evaluation of expressions.

use vstd::prelude::*;
use crate::runtime::error::AmvmFault;
use crate::runtime::expr::addition::eval_sum;
use crate::runtime::expr::binary_op::BinaryOpKind;
use crate::runtime::expr::binary_op::eval_post;
use crate::runtime::expr::cond::eval_compare;
use crate::runtime::expr::semantics::apply_binary;
use crate::runtime::expr::semantics::reference_to;
use crate::runtime::expr::semantics::result_ref;
use crate::runtime::expr::semantics::result_value;
use crate::runtime::expr::semantics::result_value_ref;
use crate::runtime::expr::semantics::sem_expr;
use crate::runtime::expr::semantics::sem_inits;
use crate::runtime::expr::semantics::sem_operands;
use crate::runtime::expr::semantics::sem_result;
use crate::runtime::expr::semantics::sem_value;
use crate::runtime::machine::Machine;
use crate::runtime::result::AmvmExprResult;
use crate::runtime::result::AmvmPropagate;
use crate::runtime::result::AmvmResult;
use crate::runtime::result::Outcome;
use crate::runtime::result::PropagateModel;
use crate::runtime::result::ResultModel;
use crate::runtime::result::outcome_model;
use crate::runtime::table::bind;
use crate::runtime::table::distinct_names;
use crate::runtime::table::entry_keys;
use crate::runtime::table::find_entry;
use crate::runtime::table::lemma_bind_distinct;
use crate::runtime::table::model_keys;
use crate::tokens::expr::BinaryKind;
use crate::tokens::expr::CommandExpression;
use crate::tokens::expr::ExprModel;
use crate::tokens::expr::inits_model;
use crate::tokens::scope::AmvmScope;
use crate::tokens::value::AmvmVariable;
use crate::tokens::value::Value;
use crate::tokens::value::ValueModel;
use crate::tokens::value::ValueObject;
use crate::tokens::value::fields_model;

pub mod addition;
pub mod binary_op;
pub mod cond;
pub mod property;
pub mod range;
pub mod semantics;

verus! {

/// The model of the outcome of an expression.
pub open spec fn result_outcome(r: Result<AmvmExprResult, AmvmPropagate>) -> Outcome<ResultModel> {
    match r {
        Ok(v) => Ok(v@),
        Err(p) => Err(p@),
    }
}

/// The model of the outcome of two operands.
pub open spec fn pair_outcome(r: Result<(Value, Value), AmvmPropagate>) -> Outcome<
    (ValueModel, ValueModel),
> {
    match r {
        Ok(ab) => Ok((ab.0@, ab.1@)),
        Err(p) => Err(p@),
    }
}

impl AmvmExprResult {
    /// The binding that the result stands for.
    pub fn as_ref(&self, vm: &Machine) -> (r: AmvmVariable)
        ensures
            r@ == result_ref(vm@, self@),
    {
        match self {
            AmvmExprResult::Value(v) => match v {
                Value::Ref(var) => var.clone(),
                _ => AmvmVariable::Const(Box::new(v.clone())),
            },
            AmvmExprResult::Variable(var) => match vm.read(var) {
                Value::Ref(inner) => inner,
                _ => var.clone(),
            },
        }
    }

    /// The value of the result, read through one reference.
    pub fn as_value(&self, vm: &Machine) -> (r: Value)
        ensures
            r@ == result_value(vm@, self@),
    {
        let var = self.as_ref(vm);
        vm.read(&var)
    }

    /// The value of the result as it stands.
    pub fn as_value_ref(&self, vm: &Machine) -> (r: Value)
        ensures
            r@ == result_value_ref(vm@, self@),
    {
        match self {
            AmvmExprResult::Value(v) => v.clone(),
            AmvmExprResult::Variable(var) => vm.read(var),
        }
    }
}

/// Puts `cell` under `name` among the fields, in place of a field of that
/// name. Where no name stood twice among the fields, none does afterwards.
pub fn bind_field(fields: &mut Vec<(String, usize)>, name: String, cell: usize)
    ensures
        fields_model(final(fields)@) == bind(fields_model(old(fields)@), name@, cell),
        distinct_names(fields_model(old(fields)@)) ==> distinct_names(fields_model(final(fields)@)),
{
    let ghost before = fields@;
    proof {
        if distinct_names(fields_model(before)) {
            lemma_bind_distinct(fields_model(before), name@, cell);
        }
    }
    assert(model_keys(fields_model(before)) =~= entry_keys(before));
    let ghost entry = (name@, cell);
    match find_entry(fields, name.as_str()) {
        Some(i) => {
            fields[i] = (name, cell);
            assert(fields_model(fields@) =~= fields_model(before).update(i as int, entry));
        },
        None => {
            fields.push((name, cell));
            assert(fields_model(fields@) =~= fields_model(before).push(entry));
        },
    }
}

/// The value that a binary operation gives for two evaluated operands.
pub fn eval_binary_post(vm: &Machine, scope: &AmvmScope, kind: BinaryKind, a: &Value, b: &Value) -> (r:
    AmvmResult)
    ensures
        outcome_model(r) == apply_binary(vm@, scope@, kind, a@, b@),
{
    reveal(apply_binary);
    match kind {
        BinaryKind::Add => eval_sum(vm, scope, a, b),
        BinaryKind::Sub => eval_post(scope, BinaryOpKind::Sub, a, b),
        BinaryKind::Mult => eval_post(scope, BinaryOpKind::Mult, a, b),
        _ => eval_compare(scope, kind, a, b),
    }
}

/// The reference that `&` makes of a binding.
pub fn make_reference(vm: &Machine, var: AmvmVariable) -> (r: Value)
    ensures
        r@ == reference_to(vm@, var@),
{
    reveal(reference_to);
    match vm.read(&var) {
        Value::Ref(inner) => Value::Ref(inner),
        _ => Value::Ref(var),
    }
}

/// Evaluates the two operands of a binary node from left to right.
pub fn eval_operands(vm: &mut Machine, scope: &AmvmScope, e: &CommandExpression) -> (r: Result<
    (Value, Value),
    AmvmPropagate,
>)
    ensures
        final(vm)@ == sem_operands(old(vm)@, scope@, e@).st,
        pair_outcome(r) == sem_operands(old(vm)@, scope@, e@).out,
    decreases e, 0nat,
{
    let (a, b) = match e {
        CommandExpression::Binary(_, a, b) => (a, b),
        CommandExpression::Property(a, b) => (a, b),
        CommandExpression::Range(a, b) => (a, b),
        _ => {
            return Err(scope.fail(AmvmFault::TypeMismatch));
        },
    };
    let ra = eval(vm, scope, a)?;
    let va = ra.as_value(vm);
    let rb = eval(vm, scope, b)?;
    let vb = rb.as_value(vm);
    Ok((va, vb))
}

/// Evaluates a binary operation.
fn eval_binary(vm: &mut Machine, scope: &AmvmScope, e: &CommandExpression) -> (r: Result<
    AmvmExprResult,
    AmvmPropagate,
>)
    requires
        e is Binary,
    ensures
        final(vm)@ == sem_expr(old(vm)@, scope@, e@).st,
        result_outcome(r) == sem_expr(old(vm)@, scope@, e@).out,
    decreases e, 1nat,
{
    let kind = match e {
        CommandExpression::Binary(kind, _, _) => *kind,
        _ => BinaryKind::Add,
    };
    let (a, b) = eval_operands(vm, scope, e)?;
    let v = eval_binary_post(vm, scope, kind, &a, &b)?;
    Ok(AmvmExprResult::Value(v))
}

/// Evaluates a property access.
fn eval_property(vm: &mut Machine, scope: &AmvmScope, e: &CommandExpression) -> (r: Result<
    AmvmExprResult,
    AmvmPropagate,
>)
    requires
        e is Property,
    ensures
        final(vm)@ == sem_expr(old(vm)@, scope@, e@).st,
        result_outcome(r) == sem_expr(old(vm)@, scope@, e@).out,
    decreases e, 1nat,
{
    let (a, b) = eval_operands(vm, scope, e)?;
    let v = property::get(vm, scope, &a, &b)?;
    Ok(AmvmExprResult::Value(v))
}

/// Evaluates a range.
fn eval_range(vm: &mut Machine, scope: &AmvmScope, e: &CommandExpression) -> (r: Result<
    AmvmExprResult,
    AmvmPropagate,
>)
    requires
        e is Range,
    ensures
        final(vm)@ == sem_expr(old(vm)@, scope@, e@).st,
        result_outcome(r) == sem_expr(old(vm)@, scope@, e@).out,
    decreases e, 1nat,
{
    let (a, b) = eval_operands(vm, scope, e)?;
    let v = range::build(vm, scope, &a, &b)?;
    Ok(AmvmExprResult::Value(v))
}

/// Evaluates the field initialisers of a struct construction.
#[verifier::loop_isolation(false)]
fn eval_inits(vm: &mut Machine, scope: &AmvmScope, inits: &Vec<(String, CommandExpression)>) -> (r:
    Result<Vec<(String, usize)>, AmvmPropagate>)
    ensures
        final(vm)@ == sem_inits(old(vm)@, scope@, inits_model(inits@), Seq::empty()).st,
        match r {
            Ok(fs) => sem_inits(old(vm)@, scope@, inits_model(inits@), Seq::empty()).out == Ok::<
                Seq<(Seq<char>, usize)>,
                PropagateModel,
            >(fields_model(fs@)),
            Err(p) => sem_inits(old(vm)@, scope@, inits_model(inits@), Seq::empty()).out == Err::<
                Seq<(Seq<char>, usize)>,
                PropagateModel,
            >(p@),
        },
    decreases inits, 0nat,
{
    let ghost ms = inits_model(inits@);
    let ghost goal = sem_inits(old(vm)@, scope@, ms, Seq::empty());
    let mut fields: Vec<(String, usize)> = Vec::new();
    let mut i: usize = 0;
    assert(ms.skip(0) =~= ms);
    assert(fields_model(fields@) =~= Seq::<(Seq<char>, usize)>::empty());
    while i < inits.len()
        invariant
            i <= inits.len(),
            goal == sem_inits(vm@, scope@, ms.skip(i as int), fields_model(fields@)),
        decreases inits.len() - i,
    {
        proof {
            let rest = ms.skip(i as int);
            assert(rest.drop_first() =~= ms.skip(i + 1));
            assert(rest[0] == ms[i as int]);
        }
        let item = &inits[i];
        let r = eval(vm, scope, &item.1)?;
        let v = r.as_value(vm);
        let cell = vm.allocate(v);
        bind_field(&mut fields, item.0.clone(), cell);
        i += 1;
    }
    assert(ms.skip(ms.len() as int) =~= Seq::<(Seq<char>, ExprModel)>::empty());
    Ok(fields)
}

/// Evaluates a struct construction.
fn eval_struct(vm: &mut Machine, scope: &AmvmScope, e: &CommandExpression) -> (r: Result<
    AmvmExprResult,
    AmvmPropagate,
>)
    requires
        e is Struct,
    ensures
        final(vm)@ == sem_expr(old(vm)@, scope@, e@).st,
        result_outcome(r) == sem_expr(old(vm)@, scope@, e@).out,
    decreases e, 1nat,
{
    match e {
        CommandExpression::Struct(t, inits) => {
            let fields = eval_inits(vm, scope, inits)?;
            Ok(AmvmExprResult::Value(Value::Object(ValueObject::Instance(t.clone(), fields))))
        },
        _ => Err(scope.fail(AmvmFault::TypeMismatch)),
    }
}

/// Evaluates a reference.
fn eval_ref(vm: &mut Machine, scope: &AmvmScope, e: &CommandExpression) -> (r: Result<
    AmvmExprResult,
    AmvmPropagate,
>)
    requires
        e is Ref,
    ensures
        final(vm)@ == sem_expr(old(vm)@, scope@, e@).st,
        result_outcome(r) == sem_expr(old(vm)@, scope@, e@).out,
    decreases e, 1nat,
{
    match e {
        CommandExpression::Ref(_, inner) => {
            let target = eval(vm, scope, inner)?;
            let var = target.as_ref(vm);
            Ok(AmvmExprResult::Value(make_reference(vm, var)))
        },
        _ => Err(scope.fail(AmvmFault::TypeMismatch)),
    }
}

/// Takes the result of the last call.
fn eval_prev(vm: &mut Machine, scope: &AmvmScope) -> (r: Result<AmvmExprResult, AmvmPropagate>)
    ensures
        final(vm)@ == sem_expr(old(vm)@, scope@, ExprModel::Prev).st,
        result_outcome(r) == sem_expr(old(vm)@, scope@, ExprModel::Prev).out,
{
    match vm.pop_prev(scope.context) {
        Some(res) => Ok(res),
        None => Err(scope.fail(AmvmFault::NoPreviousValue)),
    }
}

/// Looks a variable up.
fn eval_var(vm: &Machine, scope: &AmvmScope, name: &String) -> (r: Result<
    AmvmExprResult,
    AmvmPropagate,
>)
    ensures
        vm@ == sem_expr(vm@, scope@, ExprModel::Var(name@)).st,
        result_outcome(r) == sem_expr(vm@, scope@, ExprModel::Var(name@)).out,
{
    match vm.resolve(scope.context, name.as_str()) {
        Some(var) => Ok(AmvmExprResult::Variable(var)),
        None => Err(scope.fail(AmvmFault::UndefinedVariable)),
    }
}

/// Evaluates an expression in the scope `scope`.
pub fn eval(vm: &mut Machine, scope: &AmvmScope, e: &CommandExpression) -> (r: Result<
    AmvmExprResult,
    AmvmPropagate,
>)
    ensures
        final(vm)@ == sem_expr(old(vm)@, scope@, e@).st,
        result_outcome(r) == sem_expr(old(vm)@, scope@, e@).out,
    decreases e, 2nat,
{
    match e {
        CommandExpression::Binary(_, _, _) => eval_binary(vm, scope, e),
        CommandExpression::Prev => eval_prev(vm, scope),
        CommandExpression::Property(_, _) => eval_property(vm, scope, e),
        CommandExpression::Range(_, _) => eval_range(vm, scope, e),
        CommandExpression::Ref(_, _) => eval_ref(vm, scope, e),
        CommandExpression::Struct(_, _) => eval_struct(vm, scope, e),
        CommandExpression::Value(v) => Ok(AmvmExprResult::Value(v.clone())),
        CommandExpression::Var(name) => eval_var(vm, scope, name),
    }
}

/// Evaluates an expression to a result.
pub fn eval_result(vm: &mut Machine, scope: &AmvmScope, e: &CommandExpression) -> (r: Result<
    AmvmExprResult,
    AmvmPropagate,
>)
    ensures
        final(vm)@ == sem_result(old(vm)@, scope@, e@).st,
        result_outcome(r) == sem_result(old(vm)@, scope@, e@).out,
{
    reveal(sem_result);
    eval(vm, scope, e)
}

/// Evaluates an expression to a value.
pub fn eval_value(vm: &mut Machine, scope: &AmvmScope, e: &CommandExpression) -> (r: AmvmResult)
    ensures
        final(vm)@ == sem_value(old(vm)@, scope@, e@).st,
        outcome_model(r) == sem_value(old(vm)@, scope@, e@).out,
{
    reveal(sem_value);
    let res = eval(vm, scope, e)?;
    Ok(res.as_value(vm))
}

} // verus!
