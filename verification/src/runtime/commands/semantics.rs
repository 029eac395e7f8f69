use vstd::prelude::*;
use crate::runtime::commands::builtin::sem_builtin;
use crate::runtime::error::AmvmFault;
use crate::runtime::expr::property::get_property;
use crate::runtime::expr::range::step_machine;
use crate::runtime::expr::range::step_result;
use crate::runtime::expr::semantics::Evaluated;
use crate::runtime::expr::semantics::result_ref;
use crate::runtime::expr::semantics::result_value_ref;
use crate::runtime::expr::semantics::sem_result;
use crate::runtime::expr::semantics::sem_value;
use crate::runtime::machine::MachineModel;
use crate::runtime::result::Outcome;
use crate::runtime::result::PropagateModel;
use crate::runtime::result::ResultModel;
use crate::runtime::result::raise;
use crate::runtime::text::printed;
use crate::runtime::variable::assign_outcome;
use crate::tokens::command::CommandModel;
use crate::tokens::expr::ExprModel;
use crate::tokens::kind::VariableKind;
use crate::tokens::scope::ScopeModel;
use crate::tokens::types::DefinitionModel;
use crate::tokens::types::TypeModel;
use crate::tokens::value::FunModel;
use crate::tokens::value::ParameterModel;
use crate::tokens::value::ValueModel;
use crate::tokens::value::VariableModel;

verus! {

/// The machine, the scope and what came out, after a statement ran.
pub ghost struct Ran {
    pub st: MachineModel,
    pub sc: ScopeModel,
    pub out: Outcome<ValueModel>,
}

/// A statement that ended without a value.
pub open spec fn done(st: MachineModel, sc: ScopeModel) -> Ran {
    Ran { st, sc, out: Ok(ValueModel::Null) }
}

/// A statement that ended early.
pub open spec fn stopped(st: MachineModel, sc: ScopeModel, p: PropagateModel) -> Ran {
    Ran { st, sc, out: Err(p) }
}

/// A statement that failed with a fault raised in `sc`.
pub open spec fn failed(st: MachineModel, sc: ScopeModel, fault: AmvmFault) -> Ran {
    Ran { st, sc, out: raise(sc, fault) }
}

/// A statement that put `r` on the stack of previous results: it fails where
/// the stack is full.
#[verifier::opaque]
pub open spec fn pushed(st: MachineModel, sc: ScopeModel, r: ResultModel) -> Ran {
    if st.can_push(sc.context) {
        done(st.push_prev(sc.context, r), sc)
    } else {
        failed(st, sc, AmvmFault::PreviousOverflow)
    }
}

/// Some expressions evaluated in turn to results, behind those in `acc`.
#[verifier::opaque]
pub open spec fn sem_args(st: MachineModel, sc: ScopeModel, args: Seq<ExprModel>, acc: Seq<ResultModel>) -> Evaluated<
    Seq<ResultModel>,
>
    decreases args.len(),
{
    if args.len() == 0 {
        Evaluated { st, out: Ok(acc) }
    } else {
        let first = sem_result(st, sc, args[0]);
        match first.out {
            Err(p) => Evaluated { st: first.st, out: Err(p) },
            Ok(r) => sem_args(first.st, sc, args.drop_first(), acc.push(r)),
        }
    }
}

/// Some expressions evaluated in turn to bindings, behind those in `acc`.
#[verifier::opaque]
pub open spec fn sem_arg_refs(
    st: MachineModel,
    sc: ScopeModel,
    args: Seq<ExprModel>,
    acc: Seq<VariableModel>,
) -> Evaluated<Seq<VariableModel>>
    decreases args.len(),
{
    if args.len() == 0 {
        Evaluated { st, out: Ok(acc) }
    } else {
        let first = sem_result(st, sc, args[0]);
        match first.out {
            Err(p) => Evaluated { st: first.st, out: Err(p) },
            Ok(r) => sem_arg_refs(
                first.st,
                sc,
                args.drop_first(),
                acc.push(result_ref(first.st, r)),
            ),
        }
    }
}

/// An assignment: the value is evaluated, the name resolved, and the binding
/// assigned to.
#[verifier::opaque]
pub open spec fn sem_assign(st: MachineModel, sc: ScopeModel, name: Seq<char>, value: ExprModel) -> Ran {
    let v = sem_value(st, sc, value);
    match v.out {
        Err(p) => stopped(v.st, sc, p),
        Ok(val) => match v.st.resolve(sc.context as int, name) {
            None => failed(v.st, sc, AmvmFault::UndefinedVariable),
            Some(var) => Ran { st: v.st.assigned(var, val), sc, out: assign_outcome(sc, var) },
        },
    }
}

/// A declaration: the value is evaluated and bound to the name in the
/// context of the scope.
#[verifier::opaque]
pub open spec fn sem_declare(
    st: MachineModel,
    sc: ScopeModel,
    name: Seq<char>,
    kind: VariableKind,
    value: ExprModel,
) -> Ran {
    let e = sem_result(st, sc, value);
    match e.out {
        Err(p) => stopped(e.st, sc, p),
        Ok(r) => {
            let val = result_value_ref(e.st, r);
            done(
                e.st.with_variable(kind, val).declare(sc.context, name, e.st.new_variable(kind, val)),
                sc,
            )
        },
    }
}

/// A function definition: the function is bound to its name as a constant.
#[verifier::opaque]
pub open spec fn sem_function(
    st: MachineModel,
    sc: ScopeModel,
    name: Seq<char>,
    args: Seq<ParameterModel>,
    ret: TypeModel,
    body: Seq<CommandModel>,
) -> Ran {
    done(
        st.declare(
            sc.context,
            name,
            VariableModel::Const(Box::new(ValueModel::Fun(FunModel::Const(args, ret, body)))),
        ),
        sc,
    )
}

/// A push: the result of the expression goes on the stack of previous
/// results.
#[verifier::opaque]
pub open spec fn sem_push(st: MachineModel, sc: ScopeModel, value: ExprModel) -> Ran {
    let e = sem_result(st, sc, value);
    match e.out {
        Err(p) => stopped(e.st, sc, p),
        Ok(r) => pushed(e.st, sc, r),
    }
}

/// An output: the text of the value is written.
#[verifier::opaque]
pub open spec fn sem_puts(st: MachineModel, sc: ScopeModel, value: ExprModel) -> Ran {
    let v = sem_value(st, sc, value);
    match v.out {
        Err(p) => stopped(v.st, sc, p),
        Ok(val) => done(v.st.emit(printed(v.st, val)), sc),
    }
}

/// A return: the value sets out for the call that it ends.
#[verifier::opaque]
pub open spec fn sem_return(st: MachineModel, sc: ScopeModel, value: ExprModel) -> Ran {
    let v = sem_value(st, sc, value);
    match v.out {
        Err(p) => stopped(v.st, sc, p),
        Ok(val) => stopped(v.st, sc, PropagateModel::Return(val)),
    }
}

/// A struct declaration: the type is entered in the context of the scope.
#[verifier::opaque]
pub open spec fn sem_struct(
    st: MachineModel,
    sc: ScopeModel,
    name: Seq<char>,
    body: Seq<(Seq<char>, TypeModel)>,
) -> Ran {
    done(
        st.declare_type(
            sc.context,
            name,
            DefinitionModel::Struct { generics: Seq::empty(), fields: body },
        ),
        sc,
    )
}

/// What a statement without nested statements does.
#[verifier::opaque]
pub open spec fn sem_simple(st: MachineModel, sc: ScopeModel, c: CommandModel) -> Ran {
    match c {
        CommandModel::AssignVariable { name, value } => sem_assign(st, sc, name, value),
        CommandModel::Break => stopped(st, sc, PropagateModel::Break),
        CommandModel::DeclareVariable { name, kind, value } => sem_declare(st, sc, name, kind, value),
        CommandModel::Function { name, args, ret, body } => sem_function(
            st,
            sc,
            name,
            args,
            ret,
            body,
        ),
        CommandModel::Meta { pos, code } => done(st, sc.at(pos, code)),
        CommandModel::MetaFile(name) => done(st, sc.in_file(name)),
        CommandModel::Push { value } => sem_push(st, sc, value),
        CommandModel::Puts { value } => sem_puts(st, sc, value),
        CommandModel::Return { value } => sem_return(st, sc, value),
        CommandModel::Struct { name, body } => sem_struct(st, sc, name, body),
        _ => done(st, sc),
    }
}

/// Whether a statement has statements or calls nested in it.
pub open spec fn is_compound(c: CommandModel) -> bool {
    c is Builtin || c is Call || c is Conditional || c is For || c is Loop || c is Scope
}

/// The binding that a parameter of kind `kind` gets for the argument `arg`:
/// a constant parameter gets a copy of the argument's value, any other shares
/// the argument's storage.
#[verifier::opaque]
pub open spec fn parameter_binding(st: MachineModel, kind: VariableKind, arg: VariableModel) -> VariableModel {
    match kind {
        VariableKind::Const => VariableModel::Const(Box::new(st.read(arg))),
        _ => match arg.cell() {
            Some(c) => match VariableModel::on_cell(kind, c) {
                Some(v) => v,
                None => arg,
            },
            None => arg,
        },
    }
}

/// The parameters from the `i`th on bound to the arguments in the context
/// `ctx`. An argument must not be of a stricter kind than its parameter asks
/// for. Arguments without a parameter are left out, as are parameters without
/// an argument.
#[verifier::opaque]
pub open spec fn sem_bind(
    st: MachineModel,
    sc: ScopeModel,
    ctx: usize,
    params: Seq<ParameterModel>,
    args: Seq<VariableModel>,
    i: int,
) -> Evaluated<()>
    decreases params.len() - i,
{
    if i < 0 || i >= params.len() || i >= args.len() {
        Evaluated { st, out: Ok(()) }
    } else if params[i].1.rank() > args[i].kind().rank() {
        Evaluated { st, out: raise(sc, AmvmFault::KindMismatch) }
    } else {
        sem_bind(
            st.declare(ctx, params[i].0, parameter_binding(st, params[i].1, args[i])),
            sc,
            ctx,
            params,
            args,
            i + 1,
        )
    }
}

/// The parameters of a function.
pub open spec fn parameters_of(f: FunModel) -> Seq<ParameterModel> {
    match f {
        FunModel::Native(ps, _, _) => ps,
        FunModel::Const(ps, _, _) => ps,
        FunModel::Mutable(ps, _, _) => ps,
    }
}

/// What the body of a call gives to the caller: the value of a `return`, or
/// the value of the body.
pub open spec fn caught_return(out: Outcome<ValueModel>) -> Outcome<ValueModel> {
    match out {
        Err(PropagateModel::Return(v)) => Ok(v),
        _ => out,
    }
}

/// A call of `fun` with the arguments `args`, made in the scope `sc`. The
/// call runs in a new scope inside the caller's; it costs one unit of fuel.
pub open spec fn sem_call(
    st: MachineModel,
    sc: ScopeModel,
    fun: FunModel,
    args: Seq<VariableModel>,
    fuel: nat,
) -> Evaluated<ValueModel>
    decreases fuel, 0nat, Seq::<CommandModel>::empty(), 0nat,
{
    if fuel == 0 {
        Evaluated { st, out: raise(sc, AmvmFault::OutOfFuel) }
    } else if !st.has_room() {
        Evaluated { st, out: raise(sc, AmvmFault::OutOfContexts) }
    } else {
        let ctx = st.contexts.len() as usize;
        let inner = sc.sub(ctx);
        let bound = sem_bind(st.open_context(Some(sc.context)), sc, ctx, parameters_of(fun), args, 0);
        match bound.out {
            Err(p) => Evaluated { st: bound.st, out: Err(p) },
            Ok(_) => match fun {
                FunModel::Native(_, _, native) => match bound.st.local(ctx, "self"@) {
                    None => Evaluated { st: bound.st, out: raise(inner, AmvmFault::SelfNotDefined) },
                    Some(me) => Evaluated {
                        st: step_machine(bound.st, inner, native, me),
                        out: step_result(bound.st, inner, native, me),
                    },
                },
                FunModel::Const(_, _, body) => {
                    let ran = sem_body(bound.st, inner, body, (fuel - 1) as nat);
                    Evaluated { st: ran.st, out: caught_return(ran.out) }
                },
                FunModel::Mutable(_, _, body) => {
                    let ran = sem_body(bound.st, inner, body, (fuel - 1) as nat);
                    Evaluated { st: ran.st, out: caught_return(ran.out) }
                },
            },
        }
    }
}

/// A builtin call: the arguments are evaluated, the builtin runs, and what it
/// hands back goes on the stack of previous results.
pub open spec fn sem_builtin_command(st: MachineModel, sc: ScopeModel, c: CommandModel, fuel: nat) -> Ran
    decreases fuel, 1nat, c, 0nat,
{
    match c {
        CommandModel::Builtin { name, args } => {
            let a = sem_args(st, sc, args, Seq::empty());
            match a.out {
                Err(p) => stopped(a.st, sc, p),
                Ok(rs) => {
                    let b = sem_builtin(a.st, sc, name, rs, fuel);
                    match b.out {
                        Err(p) => stopped(b.st, sc, p),
                        Ok(None) => done(b.st, sc),
                        Ok(Some(r)) => pushed(b.st, sc, r),
                    }
                },
            }
        },
        _ => done(st, sc),
    }
}

/// A call statement: the callee and the arguments are evaluated, the call is
/// made, and its value goes on the stack of previous results.
pub open spec fn sem_call_command(st: MachineModel, sc: ScopeModel, c: CommandModel, fuel: nat) -> Ran
    decreases fuel, 1nat, c, 0nat,
{
    match c {
        CommandModel::Call { name, args } => {
            let f = sem_value(st, sc, name);
            match f.out {
                Err(p) => stopped(f.st, sc, p),
                Ok(ValueModel::Fun(fun)) => {
                    let a = sem_arg_refs(f.st, sc, args, Seq::empty());
                    match a.out {
                        Err(p) => stopped(a.st, sc, p),
                        Ok(vars) => {
                            let r = sem_call(a.st, sc, fun, vars, fuel);
                            match r.out {
                                Err(p) => stopped(r.st, sc, p),
                                Ok(v) => pushed(r.st, sc, ResultModel::Value(v)),
                            }
                        },
                    }
                },
                Ok(_) => failed(f.st, sc, AmvmFault::NotCallable),
            }
        },
        _ => done(st, sc),
    }
}

/// A block: its statements run in a new scope inside `sc`. A machine that can
/// hold no more contexts fails.
pub open spec fn sem_block(st: MachineModel, sc: ScopeModel, body: Seq<CommandModel>, fuel: nat) -> Ran
    decreases fuel, 1nat, body, 2nat,
{
    if !st.has_room() {
        failed(st, sc, AmvmFault::OutOfContexts)
    } else {
        let ran = sem_body(
            st.open_context(Some(sc.context)),
            sc.sub(st.contexts.len() as usize),
            body,
            fuel,
        );
        match ran.out {
            Ok(_) => done(ran.st, sc),
            Err(p) => stopped(ran.st, sc, p),
        }
    }
}

/// A conditional: the condition must be a boolean, and chooses the block that
/// runs.
pub open spec fn sem_conditional(st: MachineModel, sc: ScopeModel, c: CommandModel, fuel: nat) -> Ran
    decreases fuel, 1nat, c, 0nat,
{
    match c {
        CommandModel::Conditional { condition, body, otherwise } => {
            let v = sem_value(st, sc, condition);
            match v.out {
                Err(p) => stopped(v.st, sc, p),
                Ok(ValueModel::Bool(b)) => if b {
                    sem_block(v.st, sc, body, fuel)
                } else {
                    match otherwise {
                        Some(other) => sem_block(v.st, sc, other, fuel),
                        None => done(v.st, sc),
                    }
                },
                Ok(_) => failed(v.st, sc, AmvmFault::ConditionNotBool),
            }
        },
        _ => done(st, sc),
    }
}

/// A loop: each round runs the body in a new scope and costs one unit of
/// fuel. A `break` ends the loop; anything else that ends a round early ends
/// the loop with it.
pub open spec fn sem_loop(st: MachineModel, sc: ScopeModel, body: Seq<CommandModel>, fuel: nat) -> Ran
    decreases fuel, 1nat, body, 3nat,
{
    if fuel == 0 {
        failed(st, sc, AmvmFault::OutOfFuel)
    } else if !st.has_room() {
        failed(st, sc, AmvmFault::OutOfContexts)
    } else {
        let round = sem_body(
            st.open_context(Some(sc.context)),
            sc.sub(st.contexts.len() as usize),
            body,
            (fuel - 1) as nat,
        );
        match round.out {
            Err(PropagateModel::Break) => done(round.st, sc),
            Err(p) => stopped(round.st, sc, p),
            Ok(_) => sem_loop(round.st, sc, body, (fuel - 1) as nat),
        }
    }
}

/// The rounds of a `for` loop over the iterator that the binding `iterator`
/// holds. Each round binds the iterator's `value` to `var` as a constant in a
/// new scope, runs the body, and calls `next` on the iterator; the loop ends
/// when the result of that call is `done`, or with a `break`.
pub open spec fn sem_for_rounds(
    st: MachineModel,
    sc: ScopeModel,
    var: Seq<char>,
    iterator: VariableModel,
    next: FunModel,
    body: Seq<CommandModel>,
    fuel: nat,
) -> Ran
    decreases fuel, 1nat, body, 3nat,
{
    if fuel == 0 {
        failed(st, sc, AmvmFault::OutOfFuel)
    } else if !st.has_room() {
        failed(st, sc, AmvmFault::OutOfContexts)
    } else {
        let ctx = st.contexts.len() as usize;
        let st1 = st.open_context(Some(sc.context));
        let inner = sc.sub(ctx);
        match get_property(st1, inner, st1.read(iterator), ValueModel::String("value"@)) {
            Err(p) => stopped(st1, sc, p),
            Ok(v) => {
                let round = sem_body(
                    st1.declare(ctx, var, VariableModel::Const(Box::new(v))),
                    inner,
                    body,
                    (fuel - 1) as nat,
                );
                match round.out {
                    Err(PropagateModel::Break) => done(round.st, sc),
                    Err(p) => stopped(round.st, sc, p),
                    Ok(_) => {
                        let called = sem_call(
                            round.st,
                            round.sc,
                            next,
                            seq![iterator],
                            (fuel - 1) as nat,
                        );
                        match called.out {
                            Err(p) => stopped(called.st, sc, p),
                            Ok(res) => match get_property(
                                called.st,
                                round.sc,
                                res,
                                ValueModel::String("done"@),
                            ) {
                                Err(p) => stopped(called.st, sc, p),
                                Ok(ValueModel::Bool(finished)) => if finished {
                                    done(called.st, sc)
                                } else {
                                    sem_for_rounds(
                                        called.st,
                                        sc,
                                        var,
                                        iterator,
                                        next,
                                        body,
                                        (fuel - 1) as nat,
                                    )
                                },
                                Ok(_) => Ran {
                                    st: called.st,
                                    sc,
                                    out: raise(round.sc, AmvmFault::IteratorResultMalformed),
                                },
                            },
                        }
                    },
                }
            },
        }
    }
}

/// A `for` loop: the iterator is evaluated once, and its `next` must be a
/// function.
pub open spec fn sem_for(st: MachineModel, sc: ScopeModel, c: CommandModel, fuel: nat) -> Ran
    decreases fuel, 1nat, c, 0nat,
{
    match c {
        CommandModel::For { var, iterator, body } => {
            let it = sem_result(st, sc, iterator);
            match it.out {
                Err(p) => stopped(it.st, sc, p),
                Ok(r) => {
                    let target = result_ref(it.st, r);
                    match get_property(it.st, sc, it.st.read(target), ValueModel::String("next"@)) {
                        Err(p) => stopped(it.st, sc, p),
                        Ok(ValueModel::Fun(next)) => sem_for_rounds(
                            it.st,
                            sc,
                            var,
                            target,
                            next,
                            body,
                            fuel,
                        ),
                        Ok(_) => failed(it.st, sc, AmvmFault::IteratorNextNotFunction),
                    }
                },
            }
        },
        _ => done(st, sc),
    }
}

/// What a statement does before the scope forgets the position at hand.
pub open spec fn sem_dispatch(st: MachineModel, sc: ScopeModel, c: CommandModel, fuel: nat) -> Ran
    decreases fuel, 1nat, c, 1nat,
{
    match c {
        CommandModel::Builtin { .. } => sem_builtin_command(st, sc, c, fuel),
        CommandModel::Call { .. } => sem_call_command(st, sc, c, fuel),
        CommandModel::Conditional { .. } => sem_conditional(st, sc, c, fuel),
        CommandModel::For { .. } => sem_for(st, sc, c, fuel),
        CommandModel::Loop { body } => sem_loop(st, sc, body, fuel),
        CommandModel::Scope { body } => sem_block(st, sc, body, fuel),
        _ => sem_simple(st, sc, c),
    }
}

/// What a statement does in the scope `sc` with `fuel` units of fuel. After
/// every statement but a source position, the scope forgets the position at
/// hand.
pub open spec fn sem_command(st: MachineModel, sc: ScopeModel, c: CommandModel, fuel: nat) -> Ran
    decreases fuel, 1nat, c, 2nat,
{
    let ran = sem_dispatch(st, sc, c, fuel);
    if c is Meta {
        ran
    } else {
        Ran { sc: ran.sc.settled(), ..ran }
    }
}

/// Some statements run in turn in one scope. The first that ends early ends
/// the run.
pub open spec fn sem_body(st: MachineModel, sc: ScopeModel, cs: Seq<CommandModel>, fuel: nat) -> Ran
    decreases fuel, 1nat, cs, 1nat,
{
    if cs.len() == 0 {
        done(st, sc)
    } else {
        let first = sem_command(st, sc, cs[0], fuel);
        match first.out {
            Err(_) => first,
            Ok(_) => sem_body(first.st, first.sc, cs.drop_first(), fuel),
        }
    }
}

} // verus!
