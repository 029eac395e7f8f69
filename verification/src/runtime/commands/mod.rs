//! The execution of statements.

use vstd::prelude::*;
use vstd::string::*;
use crate::runtime::commands::semantics::Ran;
use crate::runtime::commands::semantics::caught_return;
use crate::runtime::commands::semantics::done;
use crate::runtime::commands::semantics::is_compound;
use crate::runtime::commands::semantics::parameter_binding;
use crate::runtime::commands::semantics::parameters_of;
use crate::runtime::commands::semantics::pushed;
use crate::runtime::commands::semantics::sem_arg_refs;
use crate::runtime::commands::semantics::sem_args;
use crate::runtime::commands::semantics::sem_assign;
use crate::runtime::commands::semantics::sem_bind;
use crate::runtime::commands::semantics::sem_block;
use crate::runtime::commands::semantics::sem_body;
use crate::runtime::commands::semantics::sem_builtin_command;
use crate::runtime::commands::semantics::sem_call;
use crate::runtime::commands::semantics::sem_call_command;
use crate::runtime::commands::semantics::sem_command;
use crate::runtime::commands::semantics::sem_conditional;
use crate::runtime::commands::semantics::sem_declare;
use crate::runtime::commands::semantics::sem_dispatch;
use crate::runtime::commands::semantics::sem_for;
use crate::runtime::commands::semantics::sem_for_rounds;
use crate::runtime::commands::semantics::sem_function;
use crate::runtime::commands::semantics::sem_loop;
use crate::runtime::commands::semantics::sem_push;
use crate::runtime::commands::semantics::sem_puts;
use crate::runtime::commands::semantics::sem_return;
use crate::runtime::commands::semantics::sem_simple;
use crate::runtime::commands::semantics::sem_struct;
use crate::runtime::error::AmvmFault;
use crate::runtime::expr::eval_result as eval_expr;
use crate::runtime::expr::eval_value;
use crate::runtime::expr::property;
use crate::runtime::expr::range;
use crate::runtime::expr::semantics::Evaluated;
use crate::runtime::machine::Machine;
use crate::runtime::machine::results_model;
use crate::runtime::result::AmvmExprResult;
use crate::runtime::result::AmvmPropagate;
use crate::runtime::result::AmvmResult;
use crate::runtime::result::PropagateModel;
use crate::runtime::result::ResultModel;
use crate::runtime::result::outcome_model;
use crate::tokens::command::Command;
use crate::tokens::command::CommandModel;
use crate::tokens::command::clone_commands;
use crate::tokens::command::commands_model;
use crate::tokens::command::members_model;
use crate::tokens::expr::CommandExpression;
use crate::tokens::expr::ExprModel;
use crate::tokens::expr::exprs_model;
use crate::tokens::kind::VariableKind;
use crate::tokens::scope::AmvmScope;
use crate::tokens::types::AmvmType;
use crate::tokens::types::AmvmTypeDefinition;
use crate::tokens::types::DefinitionModel;
use crate::tokens::types::clone_struct_fields;
use crate::tokens::types::struct_fields_model;
use crate::tokens::value::AmvmVariable;
use crate::tokens::value::Parameter;
use crate::tokens::value::Value;
use crate::tokens::value::ValueFun;
use crate::tokens::value::ValueModel;
use crate::tokens::value::VariableModel;
use crate::tokens::value::clone_parameters;
use crate::tokens::value::parameters_model;

pub mod builtin;
pub mod semantics;

verus! {

/// The models of some bindings.
pub open spec fn variables_model(vs: Seq<AmvmVariable>) -> Seq<VariableModel> {
    Seq::new(vs.len(), |i: int| vs[i]@)
}

/// The machine, the scope and the outcome are what the statement `goal` asks
/// for.
pub open spec fn ran_as(vm: Machine, scope: AmvmScope, r: AmvmResult, goal: Ran) -> bool {
    vm@ == goal.st && scope@ == goal.sc && outcome_model(r) == goal.out
}

/// The machine and the outcome are what the evaluation `goal` asks for.
pub open spec fn evaluated_as(vm: Machine, r: AmvmResult, goal: Evaluated<ValueModel>) -> bool {
    vm@ == goal.st && outcome_model(r) == goal.out
}

/// Evaluates some expressions in turn to results.
#[verifier::loop_isolation(false)]
pub fn eval_args(vm: &mut Machine, scope: &AmvmScope, args: &Vec<CommandExpression>) -> (r: Result<
    Vec<AmvmExprResult>,
    AmvmPropagate,
>)
    ensures
        final(vm)@ == sem_args(old(vm)@, scope@, exprs_model(args@), Seq::empty()).st,
        match r {
            Ok(rs) => sem_args(old(vm)@, scope@, exprs_model(args@), Seq::empty()).out == Ok::<
                Seq<ResultModel>,
                PropagateModel,
            >(results_model(rs@)),
            Err(p) => sem_args(old(vm)@, scope@, exprs_model(args@), Seq::empty()).out == Err::<
                Seq<ResultModel>,
                PropagateModel,
            >(p@),
        },
{
    reveal(sem_args);
    let ghost ms = exprs_model(args@);
    let ghost goal = sem_args(old(vm)@, scope@, ms, Seq::empty());
    let mut out: Vec<AmvmExprResult> = Vec::new();
    let mut i: usize = 0;
    assert(ms.skip(0) =~= ms);
    assert(results_model(out@) =~= Seq::<ResultModel>::empty());
    while i < args.len()
        invariant
            i <= args.len(),
            goal == sem_args(vm@, scope@, ms.skip(i as int), results_model(out@)),
        decreases args.len() - i,
    {
        proof {
            let rest = ms.skip(i as int);
            assert(rest.drop_first() =~= ms.skip(i + 1));
            assert(rest[0] == ms[i as int]);
        }
        let r = eval_expr(vm, scope, &args[i])?;
        let ghost before = out@;
        let ghost m = r@;
        out.push(r);
        assert(results_model(out@) =~= results_model(before).push(m));
        i += 1;
    }
    assert(ms.skip(ms.len() as int) =~= Seq::<ExprModel>::empty());
    Ok(out)
}

/// Evaluates some expressions in turn to bindings.
#[verifier::loop_isolation(false)]
pub fn eval_arg_refs(vm: &mut Machine, scope: &AmvmScope, args: &Vec<CommandExpression>) -> (r:
    Result<Vec<AmvmVariable>, AmvmPropagate>)
    ensures
        final(vm)@ == sem_arg_refs(old(vm)@, scope@, exprs_model(args@), Seq::empty()).st,
        match r {
            Ok(vs) => sem_arg_refs(old(vm)@, scope@, exprs_model(args@), Seq::empty()).out == Ok::<
                Seq<VariableModel>,
                PropagateModel,
            >(variables_model(vs@)),
            Err(p) => sem_arg_refs(old(vm)@, scope@, exprs_model(args@), Seq::empty()).out == Err::<
                Seq<VariableModel>,
                PropagateModel,
            >(p@),
        },
{
    reveal(sem_arg_refs);
    let ghost ms = exprs_model(args@);
    let ghost goal = sem_arg_refs(old(vm)@, scope@, ms, Seq::empty());
    let mut out: Vec<AmvmVariable> = Vec::new();
    let mut i: usize = 0;
    assert(ms.skip(0) =~= ms);
    assert(variables_model(out@) =~= Seq::<VariableModel>::empty());
    while i < args.len()
        invariant
            i <= args.len(),
            goal == sem_arg_refs(vm@, scope@, ms.skip(i as int), variables_model(out@)),
        decreases args.len() - i,
    {
        proof {
            let rest = ms.skip(i as int);
            assert(rest.drop_first() =~= ms.skip(i + 1));
            assert(rest[0] == ms[i as int]);
        }
        let r = eval_expr(vm, scope, &args[i])?;
        let var = r.as_ref(vm);
        let ghost before = out@;
        let ghost m = var@;
        out.push(var);
        assert(variables_model(out@) =~= variables_model(before).push(m));
        i += 1;
    }
    assert(ms.skip(ms.len() as int) =~= Seq::<ExprModel>::empty());
    Ok(out)
}

/// Puts a result on the stack of previous results of the scope.
pub fn push_result(vm: &mut Machine, scope: &AmvmScope, res: AmvmExprResult) -> (r: AmvmResult)
    ensures
        ran_as(*final(vm), *scope, r, pushed(old(vm)@, scope@, res@)),
{
    reveal(pushed);
    if vm.push_prev(scope.context, res) {
        Ok(Value::Null)
    } else {
        Err(scope.fail(AmvmFault::PreviousOverflow))
    }
}

/// Runs an assignment.
pub fn eval_assign(vm: &mut Machine, scope: &AmvmScope, name: &String, value: &CommandExpression) -> (r:
    AmvmResult)
    ensures
        ran_as(*final(vm), *scope, r, sem_assign(old(vm)@, scope@, name@, value@)),
{
    reveal(sem_assign);
    let val = eval_value(vm, scope, value)?;
    match vm.resolve(scope.context, name.as_str()) {
        None => Err(scope.fail(AmvmFault::UndefinedVariable)),
        Some(var) => vm.assign(scope, &var, val),
    }
}

/// Runs a declaration.
pub fn eval_declare(
    vm: &mut Machine,
    scope: &AmvmScope,
    name: &String,
    kind: VariableKind,
    value: &CommandExpression,
) -> (r: AmvmResult)
    ensures
        ran_as(*final(vm), *scope, r, sem_declare(old(vm)@, scope@, name@, kind, value@)),
{
    reveal(sem_declare);
    let res = eval_expr(vm, scope, value)?;
    let val = res.as_value_ref(vm);
    let var = vm.new_variable(kind, val);
    vm.declare(scope.context, name.clone(), var);
    Ok(Value::Null)
}

/// Runs a function definition.
pub fn eval_function(
    vm: &mut Machine,
    scope: &AmvmScope,
    name: &String,
    args: &Vec<Parameter>,
    ret: &AmvmType,
    body: &Vec<Command>,
) -> (r: AmvmResult)
    ensures
        ran_as(
            *final(vm),
            *scope,
            r,
            sem_function(old(vm)@, scope@, name@, parameters_model(args@), ret@, commands_model(body@)),
        ),
{
    reveal(sem_function);
    let fun = ValueFun::Const(clone_parameters(args), ret.clone(), clone_commands(body));
    let ghost f = fun@;
    assert(f == crate::tokens::value::FunModel::Const(
        parameters_model(args@),
        ret@,
        commands_model(body@),
    ));
    let value = Value::Fun(fun);
    assert(value@ == ValueModel::Fun(f));
    let var = AmvmVariable::Const(Box::new(value));
    assert(var@ == VariableModel::Const(Box::new(ValueModel::Fun(f))));
    vm.declare(scope.context, name.clone(), var);
    Ok(Value::Null)
}

/// Runs a push.
pub fn eval_push(vm: &mut Machine, scope: &AmvmScope, value: &CommandExpression) -> (r: AmvmResult)
    ensures
        ran_as(*final(vm), *scope, r, sem_push(old(vm)@, scope@, value@)),
{
    reveal(sem_push);
    let res = eval_expr(vm, scope, value)?;
    push_result(vm, scope, res)
}

/// Runs an output.
pub fn eval_puts(vm: &mut Machine, scope: &AmvmScope, value: &CommandExpression) -> (r: AmvmResult)
    ensures
        ran_as(*final(vm), *scope, r, sem_puts(old(vm)@, scope@, value@)),
{
    reveal(sem_puts);
    let val = eval_value(vm, scope, value)?;
    let text = vm.printed(&val);
    vm.emit(text.as_str());
    Ok(Value::Null)
}

/// Runs a return.
pub fn eval_return(vm: &mut Machine, scope: &AmvmScope, value: &CommandExpression) -> (r: AmvmResult)
    ensures
        ran_as(*final(vm), *scope, r, sem_return(old(vm)@, scope@, value@)),
{
    reveal(sem_return);
    let val = eval_value(vm, scope, value)?;
    Err(AmvmPropagate::Return(val))
}

/// Runs a struct declaration.
pub fn eval_struct(vm: &mut Machine, scope: &AmvmScope, name: &String, body: &Vec<(String, AmvmType)>) -> (r:
    AmvmResult)
    ensures
        ran_as(*final(vm), *scope, r, sem_struct(old(vm)@, scope@, name@, members_model(body@))),
{
    reveal(sem_struct);
    let def = AmvmTypeDefinition::Struct { generics: Vec::new(), fields: clone_struct_fields(body) };
    assert(def@ == (DefinitionModel::Struct {
        generics: Seq::<(Seq<char>, Option<crate::tokens::types::TypeModel>)>::empty(),
        fields: members_model(body@),
    })) by {
        assert(crate::tokens::types::generics_model(Seq::<(String, Option<AmvmType>)>::empty())
            =~= Seq::<(Seq<char>, Option<crate::tokens::types::TypeModel>)>::empty());
        assert(struct_fields_model(body@) =~= members_model(body@));
    }
    vm.declare_type(scope.context, name.clone(), def);
    Ok(Value::Null)
}

/// Runs a statement without nested statements.
fn eval_simple(vm: &mut Machine, scope: &mut AmvmScope, c: &Command) -> (r: AmvmResult)
    requires
        !is_compound(c@),
    ensures
        ran_as(*final(vm), *final(scope), r, sem_simple(old(vm)@, old(scope)@, c@)),
{
    reveal(sem_simple);
    match c {
        Command::AssignVariable { name, value } => eval_assign(vm, scope, name, value),
        Command::Break => Err(AmvmPropagate::Break),
        Command::DeclareVariable { name, kind, value } => eval_declare(vm, scope, name, *kind, value),
        Command::Function { name, args, ret, body } => eval_function(vm, scope, name, args, ret, body),
        Command::Meta { pos, code } => {
            scope.locate(*pos, code);
            Ok(Value::Null)
        },
        Command::MetaFile(name) => {
            scope.name_file(name);
            Ok(Value::Null)
        },
        Command::Push { value } => eval_push(vm, scope, value),
        Command::Puts { value } => eval_puts(vm, scope, value),
        Command::Return { value } => eval_return(vm, scope, value),
        Command::Struct { name, body } => eval_struct(vm, scope, name, body),
        _ => Ok(Value::Null),
    }
}

/// The model of an outcome without a value.
pub open spec fn unit_outcome(r: Result<(), AmvmPropagate>) -> Result<(), PropagateModel> {
    match r {
        Ok(_) => Ok(()),
        Err(p) => Err(p@),
    }
}

/// The binding that a parameter of kind `kind` gets for the argument `arg`.
pub fn bind_argument(vm: &Machine, kind: VariableKind, arg: &AmvmVariable) -> (r: AmvmVariable)
    ensures
        r@ == parameter_binding(vm@, kind, arg@),
{
    reveal(parameter_binding);
    match kind {
        VariableKind::Const => AmvmVariable::Const(Box::new(vm.read(arg))),
        _ => match arg.get_rw() {
            Some((_, c)) => match AmvmVariable::from_rw(kind, c) {
                Some(v) => v,
                None => arg.clone(),
            },
            None => arg.clone(),
        },
    }
}

/// Binds the parameters to the arguments in the context `ctx`.
#[verifier::loop_isolation(false)]
pub fn bind_parameters(
    vm: &mut Machine,
    scope: &AmvmScope,
    ctx: usize,
    params: &Vec<Parameter>,
    args: &Vec<AmvmVariable>,
) -> (r: Result<(), AmvmPropagate>)
    ensures
        final(vm)@ == sem_bind(
            old(vm)@,
            scope@,
            ctx,
            parameters_model(params@),
            variables_model(args@),
            0,
        ).st,
        unit_outcome(r) == sem_bind(
            old(vm)@,
            scope@,
            ctx,
            parameters_model(params@),
            variables_model(args@),
            0,
        ).out,
{
    reveal(sem_bind);
    let ghost pm = parameters_model(params@);
    let ghost am = variables_model(args@);
    let ghost goal = sem_bind(old(vm)@, scope@, ctx, pm, am, 0);
    let mut i: usize = 0;
    while i < params.len() && i < args.len()
        invariant
            goal == sem_bind(vm@, scope@, ctx, pm, am, i as int),
        decreases params.len() - i,
    {
        let p = &params[i];
        let a = &args[i];
        assert(pm[i as int] == (p.0@, p.1, p.2@));
        assert(am[i as int] == a@);
        if p.1.strictness() > a.get_kind().strictness() {
            return Err(scope.fail(AmvmFault::KindMismatch));
        }
        let var = bind_argument(vm, p.1, a);
        vm.declare(ctx, p.0.clone(), var);
        i += 1;
    }
    Ok(())
}

/// The parameters of a function.
pub fn parameters(fun: &ValueFun) -> (r: &Vec<Parameter>)
    ensures
        parameters_model(r@) == parameters_of(fun@),
{
    match fun {
        ValueFun::Native(ps, _, _) => ps,
        ValueFun::Const(ps, _, _) => ps,
        ValueFun::Mutable(ps, _, _) => ps,
    }
}

/// What the body of a call gives to the caller.
pub fn catch_return(r: AmvmResult) -> (out: AmvmResult)
    ensures
        outcome_model(out) == caught_return(outcome_model(r)),
{
    match r {
        Err(AmvmPropagate::Return(v)) => Ok(v),
        other => other,
    }
}

/// Calls `fun` with the arguments `args` from the scope `scope`.
pub fn call(vm: &mut Machine, scope: &AmvmScope, fun: &ValueFun, args: &Vec<AmvmVariable>, fuel: u64) -> (r:
    AmvmResult)
    ensures
        evaluated_as(
            *final(vm),
            r,
            sem_call(old(vm)@, scope@, fun@, variables_model(args@), fuel as nat),
        ),
    decreases fuel, 0nat, Seq::<Command>::empty(), 0nat,
{
    if fuel == 0 {
        return Err(scope.fail(AmvmFault::OutOfFuel));
    }
    if !vm.has_room() {
        return Err(scope.fail(AmvmFault::OutOfContexts));
    }
    let ctx = vm.open_context(Some(scope.context));
    let mut inner = scope.create_sub(ctx);
    bind_parameters(vm, scope, ctx, parameters(fun), args)?;
    match fun {
        ValueFun::Native(_, _, native) => match vm.local(ctx, "self") {
            None => Err(inner.fail(AmvmFault::SelfNotDefined)),
            Some(me) => range::step(vm, &inner, *native, &me),
        },
        ValueFun::Const(_, _, body) => catch_return(eval_body(vm, &mut inner, body, fuel - 1)),
        ValueFun::Mutable(_, _, body) => catch_return(eval_body(vm, &mut inner, body, fuel - 1)),
    }
}

/// Runs a builtin call.
fn eval_builtin(vm: &mut Machine, scope: &AmvmScope, c: &Command, fuel: u64) -> (r: AmvmResult)
    requires
        c is Builtin,
    ensures
        ran_as(*final(vm), *scope, r, sem_builtin_command(old(vm)@, scope@, c@, fuel as nat)),
    decreases fuel, 1nat, c, 0nat,
{
    match c {
        Command::Builtin { name, args } => {
            let evaluated = eval_args(vm, scope, args)?;
            match builtin::call(vm, scope, name.as_str(), &evaluated, fuel)? {
                None => Ok(Value::Null),
                Some(res) => push_result(vm, scope, res),
            }
        },
        _ => Ok(Value::Null),
    }
}

/// Runs a call statement.
fn eval_call(vm: &mut Machine, scope: &AmvmScope, c: &Command, fuel: u64) -> (r: AmvmResult)
    requires
        c is Call,
    ensures
        ran_as(*final(vm), *scope, r, sem_call_command(old(vm)@, scope@, c@, fuel as nat)),
    decreases fuel, 1nat, c, 0nat,
{
    match c {
        Command::Call { name, args } => {
            let callee = eval_value(vm, scope, name)?;
            match callee {
                Value::Fun(fun) => {
                    let vars = eval_arg_refs(vm, scope, args)?;
                    let v = call(vm, scope, &fun, &vars, fuel)?;
                    push_result(vm, scope, AmvmExprResult::Value(v))
                },
                _ => Err(scope.fail(AmvmFault::NotCallable)),
            }
        },
        _ => Ok(Value::Null),
    }
}

/// Runs some statements in a new scope inside `scope`.
pub fn eval_block(vm: &mut Machine, scope: &AmvmScope, body: &Vec<Command>, fuel: u64) -> (r:
    AmvmResult)
    ensures
        ran_as(*final(vm), *scope, r, sem_block(old(vm)@, scope@, commands_model(body@), fuel as nat)),
    decreases fuel, 1nat, body, 2nat,
{
    if !vm.has_room() {
        return Err(scope.fail(AmvmFault::OutOfContexts));
    }
    let ctx = vm.open_context(Some(scope.context));
    let mut inner = scope.create_sub(ctx);
    match eval_body(vm, &mut inner, body, fuel) {
        Ok(_) => Ok(Value::Null),
        Err(p) => Err(p),
    }
}

/// Runs some statements in the scope `scope` itself (`use_same`), or in a new
/// scope inside it.
pub fn eval_scope(
    vm: &mut Machine,
    scope: &mut AmvmScope,
    body: &Vec<Command>,
    use_same: bool,
    fuel: u64,
) -> (r: AmvmResult)
    ensures
        ran_as(
            *final(vm),
            *final(scope),
            r,
            if use_same {
                sem_body(old(vm)@, old(scope)@, commands_model(body@), fuel as nat)
            } else {
                sem_block(old(vm)@, old(scope)@, commands_model(body@), fuel as nat)
            },
        ),
    decreases fuel, 1nat, body, 3nat,
{
    if use_same {
        eval_body(vm, scope, body, fuel)
    } else {
        eval_block(vm, scope, body, fuel)
    }
}

/// Runs a conditional.
fn eval_conditional(vm: &mut Machine, scope: &AmvmScope, c: &Command, fuel: u64) -> (r: AmvmResult)
    requires
        c is Conditional,
    ensures
        ran_as(*final(vm), *scope, r, sem_conditional(old(vm)@, scope@, c@, fuel as nat)),
    decreases fuel, 1nat, c, 0nat,
{
    match c {
        Command::Conditional { condition, body, otherwise } => {
            let v = eval_value(vm, scope, condition)?;
            match v {
                Value::Bool(b) => {
                    if b {
                        eval_block(vm, scope, body, fuel)
                    } else {
                        match otherwise {
                            Some(other) => eval_block(vm, scope, other, fuel),
                            None => Ok(Value::Null),
                        }
                    }
                },
                _ => Err(scope.fail(AmvmFault::ConditionNotBool)),
            }
        },
        _ => Ok(Value::Null),
    }
}

/// Runs a loop.
#[verifier::loop_isolation(false)]
pub fn eval_loop(vm: &mut Machine, scope: &AmvmScope, body: &Vec<Command>, fuel: u64) -> (r:
    AmvmResult)
    ensures
        ran_as(*final(vm), *scope, r, sem_loop(old(vm)@, scope@, commands_model(body@), fuel as nat)),
    decreases fuel, 1nat, body, 3nat,
{
    let ghost bm = commands_model(body@);
    let ghost goal = sem_loop(old(vm)@, scope@, bm, fuel as nat);
    let mut left: u64 = fuel;
    loop
        invariant
            left <= fuel,
            goal == sem_loop(vm@, scope@, bm, left as nat),
        decreases left,
    {
        if left == 0 {
            return Err(scope.fail(AmvmFault::OutOfFuel));
        }
        if !vm.has_room() {
            return Err(scope.fail(AmvmFault::OutOfContexts));
        }
        let ctx = vm.open_context(Some(scope.context));
        let mut inner = scope.create_sub(ctx);
        match eval_body(vm, &mut inner, body, left - 1) {
            Err(AmvmPropagate::Break) => {
                return Ok(Value::Null);
            },
            Err(p) => {
                return Err(p);
            },
            Ok(_) => {},
        }
        left = left - 1;
    }
}

/// Runs the rounds of a `for` loop.
#[verifier::loop_isolation(false)]
pub fn eval_for_rounds(
    vm: &mut Machine,
    scope: &AmvmScope,
    var: &String,
    iterator: &AmvmVariable,
    next: &ValueFun,
    body: &Vec<Command>,
    fuel: u64,
) -> (r: AmvmResult)
    ensures
        ran_as(
            *final(vm),
            *scope,
            r,
            sem_for_rounds(
                old(vm)@,
                scope@,
                var@,
                iterator@,
                next@,
                commands_model(body@),
                fuel as nat,
            ),
        ),
    decreases fuel, 1nat, body, 3nat,
{
    let ghost bm = commands_model(body@);
    let ghost goal = sem_for_rounds(old(vm)@, scope@, var@, iterator@, next@, bm, fuel as nat);
    let mut left: u64 = fuel;
    loop
        invariant
            left <= fuel,
            goal == sem_for_rounds(vm@, scope@, var@, iterator@, next@, bm, left as nat),
        decreases left,
    {
        if left == 0 {
            return Err(scope.fail(AmvmFault::OutOfFuel));
        }
        if !vm.has_room() {
            return Err(scope.fail(AmvmFault::OutOfContexts));
        }
        let ctx = vm.open_context(Some(scope.context));
        let mut inner = scope.create_sub(ctx);
        let held = vm.read(iterator);
        let value = property::get(vm, &inner, &held, &Value::String(String::from_str("value")))?;
        vm.declare(ctx, var.clone(), AmvmVariable::Const(Box::new(value)));
        match eval_body(vm, &mut inner, body, left - 1) {
            Err(AmvmPropagate::Break) => {
                return Ok(Value::Null);
            },
            Err(p) => {
                return Err(p);
            },
            Ok(_) => {},
        }
        let mut args: Vec<AmvmVariable> = Vec::new();
        args.push(iterator.clone());
        assert(variables_model(args@) =~= seq![iterator@]);
        let res = call(vm, &inner, next, &args, left - 1)?;
        match property::get(vm, &inner, &res, &Value::String(String::from_str("done")))? {
            Value::Bool(finished) => {
                if finished {
                    return Ok(Value::Null);
                }
            },
            _ => {
                return Err(inner.fail(AmvmFault::IteratorResultMalformed));
            },
        }
        left = left - 1;
    }
}

/// Runs a `for` loop.
fn eval_for(vm: &mut Machine, scope: &AmvmScope, c: &Command, fuel: u64) -> (r: AmvmResult)
    requires
        c is For,
    ensures
        ran_as(*final(vm), *scope, r, sem_for(old(vm)@, scope@, c@, fuel as nat)),
    decreases fuel, 1nat, c, 0nat,
{
    match c {
        Command::For { var, iterator, body } => {
            let it = eval_expr(vm, scope, iterator)?;
            let target = it.as_ref(vm);
            let held = vm.read(&target);
            match property::get(vm, scope, &held, &Value::String(String::from_str("next")))? {
                Value::Fun(next) => eval_for_rounds(vm, scope, var, &target, &next, body, fuel),
                _ => Err(scope.fail(AmvmFault::IteratorNextNotFunction)),
            }
        },
        _ => Ok(Value::Null),
    }
}

/// Runs a statement, up to the point where the scope forgets the position at
/// hand.
fn eval_dispatch(vm: &mut Machine, scope: &mut AmvmScope, c: &Command, fuel: u64) -> (r: AmvmResult)
    ensures
        ran_as(*final(vm), *final(scope), r, sem_dispatch(old(vm)@, old(scope)@, c@, fuel as nat)),
    decreases fuel, 1nat, c, 1nat,
{
    match c {
        Command::Builtin { .. } => eval_builtin(vm, scope, c, fuel),
        Command::Call { .. } => eval_call(vm, scope, c, fuel),
        Command::Conditional { .. } => eval_conditional(vm, scope, c, fuel),
        Command::For { .. } => eval_for(vm, scope, c, fuel),
        Command::Loop { body } => eval_loop(vm, scope, body, fuel),
        Command::Scope { body } => eval_block(vm, scope, body, fuel),
        _ => eval_simple(vm, scope, c),
    }
}

/// Runs a statement in the scope `scope` with `fuel` units of fuel.
pub fn eval(vm: &mut Machine, scope: &mut AmvmScope, c: &Command, fuel: u64) -> (r: AmvmResult)
    ensures
        ran_as(*final(vm), *final(scope), r, sem_command(old(vm)@, old(scope)@, c@, fuel as nat)),
    decreases fuel, 1nat, c, 2nat,
{
    let r = eval_dispatch(vm, scope, c, fuel);
    match c {
        Command::Meta { .. } => {},
        _ => {
            scope.settle();
        },
    }
    r
}

/// Runs some statements in turn in the scope `scope`.
#[verifier::loop_isolation(false)]
pub fn eval_body(vm: &mut Machine, scope: &mut AmvmScope, cs: &Vec<Command>, fuel: u64) -> (r:
    AmvmResult)
    ensures
        ran_as(
            *final(vm),
            *final(scope),
            r,
            sem_body(old(vm)@, old(scope)@, commands_model(cs@), fuel as nat),
        ),
    decreases fuel, 1nat, cs, 1nat,
{
    let ghost cm = commands_model(cs@);
    let ghost goal = sem_body(old(vm)@, old(scope)@, cm, fuel as nat);
    let mut i: usize = 0;
    assert(cm.skip(0) =~= cm);
    while i < cs.len()
        invariant
            i <= cs.len(),
            goal == sem_body(vm@, scope@, cm.skip(i as int), fuel as nat),
        decreases cs.len() - i,
    {
        proof {
            let rest = cm.skip(i as int);
            assert(rest.drop_first() =~= cm.skip(i + 1));
            assert(rest[0] == cm[i as int]);
            assert(cm[i as int] == cs@[i as int]@);
        }
        match eval(vm, scope, &cs[i], fuel) {
            Err(p) => {
                return Err(p);
            },
            Ok(_) => {},
        }
        i += 1;
    }
    assert(cm.skip(cm.len() as int) =~= Seq::<CommandModel>::empty());
    Ok(Value::Null)
}

} // verus!
