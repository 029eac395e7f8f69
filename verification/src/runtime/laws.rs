use vstd::prelude::*;
use crate::runtime::commands::semantics::parameter_binding;
use crate::runtime::commands::semantics::parameters_of;
use crate::runtime::commands::semantics::sem_bind;
use crate::runtime::commands::semantics::sem_block;
use crate::runtime::commands::semantics::sem_body;
use crate::runtime::commands::semantics::sem_call;
use crate::runtime::commands::semantics::sem_conditional;
use crate::runtime::commands::semantics::sem_loop;
use crate::runtime::error::AmvmFault;
use crate::runtime::expr::property::mut_access;
use crate::runtime::expr::range::step_result;
use crate::runtime::expr::semantics::sem_value;
use crate::runtime::machine::MachineModel;
use crate::runtime::result::PropagateModel;
use crate::runtime::result::raise;
use crate::runtime::variable::assign_outcome;
use crate::tokens::command::CommandModel;
use crate::tokens::scope::ScopeModel;
use crate::tokens::value::FunModel;
use crate::tokens::value::ParameterModel;
use crate::tokens::value::ValueModel;
use crate::tokens::value::VariableModel;

verus! {

/// An assignment to a constant or single-assignment binding fails and leaves
/// the machine as it was.
pub proof fn assignment_to_immutable_fails(
    st: MachineModel,
    sc: ScopeModel,
    var: VariableModel,
    value: ValueModel,
)
    requires
        var is Const || var is Let,
    ensures
        assign_outcome(sc, var) == raise::<ValueModel>(sc, AmvmFault::ImmutableAssignment),
        st.assigned(var, value) == st,
{
}

/// An assignment to a binding of kind `Mut` or `Var` succeeds, and every
/// binding that shares its storage cell then reads the new value.
pub proof fn assignment_to_mutable_is_seen_by_aliases(
    st: MachineModel,
    sc: ScopeModel,
    var: VariableModel,
    alias: VariableModel,
    value: ValueModel,
)
    requires
        var is Mut || var is Var,
        var.cell().unwrap() < st.cells.len(),
        alias.cell() == var.cell(),
    ensures
        assign_outcome(sc, var) == Ok::<ValueModel, PropagateModel>(ValueModel::Null),
        st.assigned(var, value).read(alias) == value,
        st.assigned(var, value).read(var) == value,
{
}

/// A loop never passes a `break` on: the `break` that ends a round ends the
/// loop, and the statement behind the loop runs next.
pub proof fn loop_catches_break(st: MachineModel, sc: ScopeModel, body: Seq<CommandModel>, fuel: nat)
    ensures
        sem_loop(st, sc, body, fuel).out != Err::<ValueModel, PropagateModel>(PropagateModel::Break),
        sem_loop(st, sc, body, fuel).sc == sc,
    decreases fuel,
{
    if fuel > 0 && st.has_room() {
        let round = sem_body(
            st.open_context(Some(sc.context)),
            sc.sub(st.contexts.len() as usize),
            body,
            (fuel - 1) as nat,
        );
        match round.out {
            Ok(_) => {
                loop_catches_break(round.st, sc, body, (fuel - 1) as nat);
            },
            Err(_) => {},
        }
    }
}

/// A round of a loop that ends with a `break` ends the loop without an error,
/// in the state that the round left.
pub proof fn break_ends_the_loop(st: MachineModel, sc: ScopeModel, body: Seq<CommandModel>, fuel: nat)
    requires
        fuel > 0,
        st.has_room(),
        sem_body(
            st.open_context(Some(sc.context)),
            sc.sub(st.contexts.len() as usize),
            body,
            (fuel - 1) as nat,
        ).out == Err::<ValueModel, PropagateModel>(PropagateModel::Break),
    ensures
        sem_loop(st, sc, body, fuel).out == Ok::<ValueModel, PropagateModel>(ValueModel::Null),
        sem_loop(st, sc, body, fuel).st == sem_body(
            st.open_context(Some(sc.context)),
            sc.sub(st.contexts.len() as usize),
            body,
            (fuel - 1) as nat,
        ).st,
{
}

/// A loop passes on whatever ends a round early and is no `break`: a `return`
/// inside the loop leaves the loop as it is, on its way to the call that it
/// ends.
pub proof fn loop_passes_on(st: MachineModel, sc: ScopeModel, body: Seq<CommandModel>, fuel: nat)
    requires
        fuel > 0,
        st.has_room(),
    ensures
        sem_body(
            st.open_context(Some(sc.context)),
            sc.sub(st.contexts.len() as usize),
            body,
            (fuel - 1) as nat,
        ).out matches Err(p) ==> p is Break || sem_loop(st, sc, body, fuel).out == Err::<
            ValueModel,
            PropagateModel,
        >(p),
{
}

/// A block passes on whatever ends its statements early: a `break` or a
/// `return` inside it leaves the block as it is.
pub proof fn block_passes_on(st: MachineModel, sc: ScopeModel, body: Seq<CommandModel>, fuel: nat)
    requires
        st.has_room(),
    ensures
        sem_body(
            st.open_context(Some(sc.context)),
            sc.sub(st.contexts.len() as usize),
            body,
            fuel,
        ).out matches Err(p) ==> sem_block(st, sc, body, fuel).out == Err::<
            ValueModel,
            PropagateModel,
        >(p),
{
}

/// A conditional whose condition holds ends as the block of its first branch
/// ends: a `break` or a `return` in the branch leaves the conditional as it
/// is.
pub proof fn conditional_passes_on(st: MachineModel, sc: ScopeModel, c: CommandModel, fuel: nat)
    requires
        c is Conditional,
        sem_value(st, sc, c->condition).out == Ok::<ValueModel, PropagateModel>(
            ValueModel::Bool(true),
        ),
    ensures
        sem_conditional(st, sc, c, fuel) == sem_block(
            sem_value(st, sc, c->condition).st,
            sc,
            c->Conditional_body,
            fuel,
        ),
{
}

/// Binding parameters to arguments ends with an error or not at all early.
pub proof fn bind_ends_with_error(
    st: MachineModel,
    sc: ScopeModel,
    ctx: usize,
    params: Seq<ParameterModel>,
    args: Seq<VariableModel>,
    i: int,
)
    ensures
        sem_bind(st, sc, ctx, params, args, i).out matches Err(p) ==> p is Error,
    decreases params.len() - i,
{
    reveal(sem_bind);
    if !(i < 0 || i >= params.len() || i >= args.len()) && params[i].1.rank() <= args[i].kind().rank() {
        bind_ends_with_error(
            st.declare(ctx, params[i].0, parameter_binding(st, params[i].1, args[i])),
            sc,
            ctx,
            params,
            args,
            i + 1,
        );
    }
}

/// A call never passes a `return` on: the value of a `return` in the body of
/// the function is the value of the call.
pub proof fn call_catches_return(
    st: MachineModel,
    sc: ScopeModel,
    fun: FunModel,
    args: Seq<VariableModel>,
    fuel: nat,
)
    ensures
        !(sem_call(st, sc, fun, args, fuel).out matches Err(PropagateModel::Return(_))),
{
    reveal(step_result);
    reveal(mut_access);
    if fuel > 0 && st.has_room() {
        bind_ends_with_error(
            st.open_context(Some(sc.context)),
            sc,
            st.contexts.len() as usize,
            parameters_of(fun),
            args,
            0,
        );
    }
}

} // verus!
