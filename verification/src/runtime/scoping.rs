use vstd::prelude::*;
use crate::aml3::statements::src_program;
use crate::runtime::commands::builtin::eval_target;
use crate::runtime::commands::builtin::io_read_line;
use crate::runtime::commands::builtin::mem_replace;
use crate::runtime::commands::builtin::obj_mut_access;
use crate::runtime::commands::builtin::sem_builtin;
use crate::runtime::commands::builtin::vm_create;
use crate::runtime::commands::builtin::vm_eval;
use crate::runtime::commands::semantics::parameter_binding;
use crate::runtime::commands::semantics::parameters_of;
use crate::runtime::commands::semantics::pushed;
use crate::runtime::commands::semantics::sem_arg_refs;
use crate::runtime::commands::semantics::sem_args;
use crate::runtime::commands::semantics::sem_assign;
use crate::runtime::commands::semantics::sem_bind;
use crate::runtime::commands::semantics::sem_block;
use crate::runtime::commands::semantics::sem_body;
use crate::runtime::commands::semantics::sem_builtin_command;
use crate::runtime::commands::semantics::sem_call;
use crate::runtime::commands::semantics::sem_call_command;
use crate::runtime::commands::semantics::sem_command;
use crate::runtime::commands::semantics::sem_conditional;
use crate::runtime::commands::semantics::sem_declare;
use crate::runtime::commands::semantics::sem_dispatch;
use crate::runtime::commands::semantics::sem_for;
use crate::runtime::commands::semantics::sem_for_rounds;
use crate::runtime::commands::semantics::sem_function;
use crate::runtime::commands::semantics::sem_loop;
use crate::runtime::commands::semantics::sem_push;
use crate::runtime::commands::semantics::sem_puts;
use crate::runtime::commands::semantics::sem_return;
use crate::runtime::commands::semantics::sem_simple;
use crate::runtime::commands::semantics::sem_struct;
use crate::runtime::expr::property::get_property;
use crate::runtime::expr::range::range_machine;
use crate::runtime::expr::range::step_machine;
use crate::runtime::expr::semantics::result_ref;
use crate::runtime::expr::semantics::result_value;
use crate::runtime::expr::semantics::result_value_ref;
use crate::runtime::expr::semantics::sem_expr;
use crate::runtime::expr::semantics::sem_inits;
use crate::runtime::expr::semantics::sem_operands;
use crate::runtime::expr::semantics::sem_result;
use crate::runtime::expr::semantics::sem_value;
use crate::runtime::machine::MachineModel;
use crate::runtime::machine::lemma_declare_type_well_formed;
use crate::runtime::machine::lemma_declare_well_formed;
use crate::runtime::machine::lemma_open_well_formed;
use crate::runtime::machine::lemma_same_tables;
use crate::runtime::result::ResultModel;
use crate::runtime::table::bind;
use crate::tokens::command::CommandModel;
use crate::tokens::expr::ExprModel;
use crate::tokens::scope::ScopeModel;
use crate::tokens::types::DefinitionModel;
use crate::tokens::value::FunModel;
use crate::tokens::value::ParameterModel;
use crate::tokens::value::ValueModel;
use crate::tokens::value::VariableModel;

verus! {

/// Whether a builtin has handed out the scope of the context `ctx`.
pub open spec fn handed_out(st: MachineModel, ctx: int) -> bool {
    exists|h: int| 0 <= h < st.handles.len() && (#[trigger] st.handles[h]).context == ctx
}

/// Every context of `a` is there in `b` with the same enclosing context, and,
/// unless it is the context `except` or one whose scope a builtin has handed
/// out, with the same bindings. The scopes handed out in `a` are handed out in
/// `b` with the same contexts, and those handed out since have new contexts.
pub open spec fn bindings_kept_but(a: MachineModel, b: MachineModel, except: int) -> bool {
    &&& a.contexts.len() <= b.contexts.len()
    &&& a.handles.len() <= b.handles.len()
    &&& forall|i: int|
        0 <= i < a.contexts.len() ==> (#[trigger] b.contexts[i]).parent == a.contexts[i].parent
    &&& forall|h: int|
        0 <= h < a.handles.len() ==> (#[trigger] b.handles[h]).context == a.handles[h].context
    &&& forall|h: int|
        a.handles.len() <= h < b.handles.len() ==> (#[trigger] b.handles[h]).context
            >= a.contexts.len()
    &&& forall|i: int|
        0 <= i < a.contexts.len() && i != except && !handed_out(a, i) ==> (
        #[trigger] b.contexts[i]).variables == a.contexts[i].variables
}

/// Every context of `a` is there in `b` with the same enclosing context and,
/// unless a builtin has handed out its scope, the same bindings.
pub open spec fn bindings_kept(a: MachineModel, b: MachineModel) -> bool {
    bindings_kept_but(a, b, -1)
}

/// Neither the scope of the context `ctx` nor one around it was handed out by
/// a builtin.
pub open spec fn chain_free(st: MachineModel, ctx: int) -> bool
    decreases ctx,
{
    if 0 <= ctx < st.contexts.len() {
        !handed_out(st, ctx) && match st.contexts[ctx].parent {
            Some(p) => p < ctx ==> chain_free(st, p as int),
            None => true,
        }
    } else {
        true
    }
}

/// Whether a step from `a` to `b` keeps the machine's invariant: where no
/// table of `a` holds a name twice, none of `b` does.
pub open spec fn stays_well_formed(a: MachineModel, b: MachineModel) -> bool {
    a.well_formed() ==> b.well_formed()
}

/// What is kept over two steps is kept over both.
pub proof fn lemma_kept_trans(a: MachineModel, b: MachineModel, c: MachineModel, except: int)
    requires
        bindings_kept_but(a, b, except),
        bindings_kept_but(b, c, except),
    ensures
        bindings_kept_but(a, c, except),
{
    assert forall|i: int|
        0 <= i < a.contexts.len() && i != except && !handed_out(a, i) implies (
    #[trigger] c.contexts[i]).variables == a.contexts[i].variables by {
        lemma_still_free(a, b, except, i);
        assert(b.contexts[i].variables == a.contexts[i].variables);
    }
    assert forall|i: int| 0 <= i < a.contexts.len() implies (#[trigger] c.contexts[i]).parent
        == a.contexts[i].parent by {
        assert(b.contexts[i].parent == a.contexts[i].parent);
    }
    assert forall|h: int| 0 <= h < a.handles.len() implies (#[trigger] c.handles[h]).context
        == a.handles[h].context by {
        assert(b.handles[h].context == a.handles[h].context);
    }
    assert forall|h: int| a.handles.len() <= h < c.handles.len() implies (
    #[trigger] c.handles[h]).context >= a.contexts.len() by {
        if h < b.handles.len() {
            assert(b.handles[h].context >= a.contexts.len());
        }
    }
}

/// A context whose scope was not handed out before a step was not handed out
/// after it.
pub proof fn lemma_still_free(a: MachineModel, b: MachineModel, except: int, i: int)
    requires
        bindings_kept_but(a, b, except),
        0 <= i < a.contexts.len(),
        !handed_out(a, i),
    ensures
        !handed_out(b, i),
{
    if handed_out(b, i) {
        let h = choose|h: int| 0 <= h < b.handles.len() && (#[trigger] b.handles[h]).context == i;
        if h < a.handles.len() {
            assert(a.handles[h].context == i);
        }
    }
}

/// What is kept but for one context is kept altogether where that context is
/// new, or is one whose scope was handed out.
pub proof fn lemma_kept_narrow(a: MachineModel, b: MachineModel, except: int, other: int)
    requires
        bindings_kept_but(a, b, except),
        except >= a.contexts.len() || except < 0 || handed_out(a, except) || except == other,
    ensures
        bindings_kept_but(a, b, other),
{
}

/// A machine keeps its own bindings.
pub proof fn lemma_kept_self(a: MachineModel, except: int)
    ensures
        bindings_kept_but(a, a, except),
{
}

/// The bindings of a machine are kept where a context is added to it.
pub proof fn lemma_kept_opened(a: MachineModel, b: MachineModel, parent: Option<usize>, except: int)
    requires
        bindings_kept_but(a.open_context(parent), b, except),
    ensures
        bindings_kept_but(a, b, except),
{
    let o = a.open_context(parent);
    assert forall|i: int|
        0 <= i < a.contexts.len() && i != except && !handed_out(a, i) implies (
    #[trigger] b.contexts[i]).variables == a.contexts[i].variables by {
        if handed_out(o, i) {
            let h = choose|h: int| 0 <= h < o.handles.len() && (#[trigger] o.handles[h]).context == i;
            assert(a.handles[h].context == i);
        }
        assert(o.contexts[i] == a.contexts[i]);
    }
    assert forall|i: int| 0 <= i < a.contexts.len() implies (#[trigger] b.contexts[i]).parent
        == a.contexts[i].parent by {
        assert(o.contexts[i] == a.contexts[i]);
    }
}

/// Where the bindings are kept, every name resolves as before in a context
/// that neither is nor lies in one whose scope was handed out.
pub proof fn lemma_resolve_kept(a: MachineModel, b: MachineModel, ctx: int, name: Seq<char>)
    requires
        bindings_kept(a, b),
        ctx < a.contexts.len(),
        chain_free(a, ctx),
    ensures
        b.resolve(ctx, name) == a.resolve(ctx, name),
    decreases ctx,
{
    if 0 <= ctx {
        assert(b.contexts[ctx].variables == a.contexts[ctx].variables);
        assert(b.contexts[ctx].parent == a.contexts[ctx].parent);
        match a.contexts[ctx].parent {
            Some(p) => {
                if p < ctx {
                    lemma_resolve_kept(a, b, p as int, name);
                }
            },
            None => {},
        }
    }
}

/// Evaluating an expression keeps the bindings of every context.
/// The step keeps the machine well formed too.
pub proof fn lemma_expr_keeps(st: MachineModel, sc: ScopeModel, e: ExprModel)
    ensures
        bindings_kept(st, sem_expr(st, sc, e).st),
        stays_well_formed(st, sem_expr(st, sc, e).st),
    decreases e, 1nat,
{
    reveal(range_machine);
    match e {
        ExprModel::Binary(_, _, _) => {
            lemma_operands_keep(st, sc, e);
        },
        ExprModel::Property(_, _) => {
            lemma_operands_keep(st, sc, e);
        },
        ExprModel::Prev => {
            lemma_same_tables(st, sem_expr(st, sc, e).st);
        },
        ExprModel::Range(_, _) => {
            lemma_operands_keep(st, sc, e);
            let sides = sem_operands(st, sc, e);
            lemma_kept_trans(st, sides.st, sem_expr(st, sc, e).st, -1);
            lemma_same_tables(sides.st, sem_expr(st, sc, e).st);
        },
        ExprModel::Ref(_, inner) => {
            lemma_expr_keeps(st, sc, *inner);
        },
        ExprModel::Struct(_, inits) => {
            lemma_inits_keep(st, sc, inits, Seq::empty());
        },
        _ => {},
    }
}

/// Evaluating two operands keeps the bindings of every context.
/// The step keeps the machine well formed too.
pub proof fn lemma_operands_keep(st: MachineModel, sc: ScopeModel, e: ExprModel)
    ensures
        bindings_kept(st, sem_operands(st, sc, e).st),
        stays_well_formed(st, sem_operands(st, sc, e).st),
    decreases e, 0nat,
{
    let sides = match e {
        ExprModel::Binary(_, a, b) => Some((*a, *b)),
        ExprModel::Property(a, b) => Some((*a, *b)),
        ExprModel::Range(a, b) => Some((*a, *b)),
        _ => None,
    };
    match sides {
        None => {},
        Some((a, b)) => {
            lemma_expr_keeps(st, sc, a);
            let left = sem_expr(st, sc, a);
            if left.out is Ok {
                lemma_expr_keeps(left.st, sc, b);
                lemma_kept_trans(st, left.st, sem_expr(left.st, sc, b).st, -1);
            }
        },
    }
}

/// Evaluating field initialisers keeps the bindings of every context.
/// The step keeps the machine well formed too.
pub proof fn lemma_inits_keep(
    st: MachineModel,
    sc: ScopeModel,
    inits: Seq<(Seq<char>, ExprModel)>,
    acc: Seq<(Seq<char>, usize)>,
)
    ensures
        bindings_kept(st, sem_inits(st, sc, inits, acc).st),
        stays_well_formed(st, sem_inits(st, sc, inits, acc).st),
    decreases inits, 0nat,
{
    if inits.len() > 0 {
        lemma_expr_keeps(st, sc, inits[0].1);
        let first = sem_expr(st, sc, inits[0].1);
        match first.out {
            Err(_) => {},
            Ok(r) => {
                let next = first.st.allocate(result_value(first.st, r));
                lemma_kept_trans(st, first.st, next, -1);
                lemma_same_tables(first.st, next);
                lemma_inits_keep(
                    next,
                    sc,
                    inits.drop_first(),
                    bind(acc, inits[0].0, first.st.cells.len() as usize),
                );
                lemma_kept_trans(st, next, sem_inits(st, sc, inits, acc).st, -1);
            },
        }
    }
}

/// Evaluating an expression to a result keeps the bindings of every context.
/// The step keeps the machine well formed too.
pub proof fn lemma_result_keeps(st: MachineModel, sc: ScopeModel, e: ExprModel)
    ensures
        bindings_kept(st, sem_result(st, sc, e).st),
        stays_well_formed(st, sem_result(st, sc, e).st),
        bindings_kept(st, sem_value(st, sc, e).st),
        stays_well_formed(st, sem_value(st, sc, e).st),
{
    reveal(sem_result);
    reveal(sem_value);
    lemma_expr_keeps(st, sc, e);
}

/// Evaluating some arguments keeps the bindings of every context.
/// The step keeps the machine well formed too.
pub proof fn lemma_args_keep(st: MachineModel, sc: ScopeModel, args: Seq<ExprModel>, acc: Seq<ResultModel>)
    ensures
        bindings_kept(st, sem_args(st, sc, args, acc).st),
        stays_well_formed(st, sem_args(st, sc, args, acc).st),
    decreases args.len(),
{
    reveal(sem_args);
    if args.len() > 0 {
        lemma_result_keeps(st, sc, args[0]);
        let first = sem_result(st, sc, args[0]);
        match first.out {
            Err(_) => {},
            Ok(r) => {
                lemma_args_keep(first.st, sc, args.drop_first(), acc.push(r));
                lemma_kept_trans(st, first.st, sem_args(st, sc, args, acc).st, -1);
            },
        }
    }
}

/// Evaluating some arguments to bindings keeps the bindings of every context.
/// The step keeps the machine well formed too.
pub proof fn lemma_arg_refs_keep(
    st: MachineModel,
    sc: ScopeModel,
    args: Seq<ExprModel>,
    acc: Seq<VariableModel>,
)
    ensures
        bindings_kept(st, sem_arg_refs(st, sc, args, acc).st),
        stays_well_formed(st, sem_arg_refs(st, sc, args, acc).st),
    decreases args.len(),
{
    reveal(sem_arg_refs);
    if args.len() > 0 {
        lemma_result_keeps(st, sc, args[0]);
        let first = sem_result(st, sc, args[0]);
        match first.out {
            Err(_) => {},
            Ok(r) => {
                lemma_arg_refs_keep(first.st, sc, args.drop_first(), acc.push(result_ref(first.st, r)));
                lemma_kept_trans(st, first.st, sem_arg_refs(st, sc, args, acc).st, -1);
            },
        }
    }
}

/// Putting a result on the stack of previous results keeps the bindings of
/// every context.
/// The step keeps the machine well formed too.
pub proof fn lemma_pushed_keeps(st: MachineModel, sc: ScopeModel, r: ResultModel)
    ensures
        bindings_kept(st, pushed(st, sc, r).st),
        stays_well_formed(st, pushed(st, sc, r).st),
        pushed(st, sc, r).sc == sc,
{
    reveal(pushed);
    lemma_same_tables(st, pushed(st, sc, r).st);
}

/// The builtins that run no statements keep the bindings of every context.
/// The step keeps the machine well formed too.
pub proof fn lemma_plain_builtins_keep(st: MachineModel, sc: ScopeModel, args: Seq<ResultModel>)
    ensures
        bindings_kept(st, vm_create(st, sc).st),
        stays_well_formed(st, vm_create(st, sc).st),
        bindings_kept(st, io_read_line(st, sc, args).st),
        stays_well_formed(st, io_read_line(st, sc, args).st),
        bindings_kept(st, obj_mut_access(st, sc, args).st),
        stays_well_formed(st, obj_mut_access(st, sc, args).st),
        bindings_kept(st, mem_replace(st, sc, args).st),
        stays_well_formed(st, mem_replace(st, sc, args).st),
{
    reveal(vm_create);
    reveal(io_read_line);
    reveal(obj_mut_access);
    reveal(mem_replace);
    lemma_same_tables(st, io_read_line(st, sc, args).st);
    lemma_same_tables(st, obj_mut_access(st, sc, args).st);
    lemma_same_tables(st, mem_replace(st, sc, args).st);
    let created = vm_create(st, sc).st;
    if created != st {
        let opened = st.open_context(Some(sc.context));
        lemma_open_well_formed(st, Some(sc.context));
        lemma_same_tables(opened, created);
        assert forall|i: int| 0 <= i < st.contexts.len() implies (
        #[trigger] created.contexts[i]) == st.contexts[i] by {}
        assert forall|h: int| 0 <= h < st.handles.len() implies (
        #[trigger] created.handles[h]) == st.handles[h] by {}
    }
}

/// A builtin keeps the bindings of every context.
/// The step keeps the machine well formed too.
pub proof fn lemma_builtin_keeps(
    st: MachineModel,
    sc: ScopeModel,
    name: Seq<char>,
    args: Seq<ResultModel>,
    fuel: nat,
)
    ensures
        bindings_kept(st, sem_builtin(st, sc, name, args, fuel).st),
        stays_well_formed(st, sem_builtin(st, sc, name, args, fuel).st),
    decreases fuel, 0nat, Seq::<CommandModel>::empty(), 1nat,
{
    lemma_plain_builtins_keep(st, sc, args);
    if name == ".vm.eval"@ {
        lemma_eval_keeps(st, sc, args, fuel);
    }
}

/// An evaluation of source text keeps the bindings of every context but that
/// of the scope that it runs in, which was handed out.
/// The step keeps the machine well formed too.
pub proof fn lemma_eval_keeps(st: MachineModel, sc: ScopeModel, args: Seq<ResultModel>, fuel: nat)
    ensures
        bindings_kept(st, vm_eval(st, sc, args, fuel).st),
        stays_well_formed(st, vm_eval(st, sc, args, fuel).st),
    decreases fuel, 0nat, Seq::<CommandModel>::empty(), 0nat,
{
    match eval_target(st, sc, args) {
        Err(_) => {},
        Ok((h, code)) => match src_program(vstd::utf8::encode_utf8(code), false) {
            Err(_) => {},
            Ok((cmds, _)) => {
                if fuel > 0 && h < st.handles.len() {
                    let target = st.handles[h as int];
                    lemma_body_keeps(st, target, cmds, (fuel - 1) as nat);
                    let ran = sem_body(st, target, cmds, (fuel - 1) as nat);
                    assert(handed_out(st, target.context as int));
                    lemma_kept_narrow(st, ran.st, target.context as int, -1);
                    let after = ran.st.put_back(h, ran.sc);
                    lemma_same_tables(ran.st, after);
                    assert forall|k: int| 0 <= k < st.handles.len() implies (
                    #[trigger] after.handles[k]).context == st.handles[k].context by {
                        assert(ran.st.handles[k].context == st.handles[k].context);
                    }
                    assert forall|k: int| st.handles.len() <= k < after.handles.len() implies (
                    #[trigger] after.handles[k]).context >= st.contexts.len() by {
                        assert(ran.st.handles[k].context >= st.contexts.len());
                    }
                    assert forall|i: int| 0 <= i < st.contexts.len() implies (
                    #[trigger] after.contexts[i]) == ran.st.contexts[i] by {}
                }
            },
        },
    }
}

/// A statement without nested statements keeps the bindings of every context
/// but that of its scope, and leaves the scope with its context.
/// The step keeps the machine well formed too.
pub proof fn lemma_simple_keeps(st: MachineModel, sc: ScopeModel, c: CommandModel)
    ensures
        bindings_kept_but(st, sem_simple(st, sc, c).st, sc.context as int),
        stays_well_formed(st, sem_simple(st, sc, c).st),
        sem_simple(st, sc, c).sc.context == sc.context,
{
    reveal(sem_simple);
    match c {
        CommandModel::AssignVariable { name, value } => {
            reveal(sem_assign);
            lemma_result_keeps(st, sc, value);
            let v = sem_value(st, sc, value);
            lemma_kept_trans(st, v.st, sem_simple(st, sc, c).st, -1);
            lemma_same_tables(v.st, sem_simple(st, sc, c).st);
        },
        CommandModel::DeclareVariable { name, kind, value } => {
            reveal(sem_declare);
            lemma_result_keeps(st, sc, value);
            let e = sem_result(st, sc, value);
            lemma_kept_narrow(st, e.st, -1, sc.context as int);
            lemma_declared_keeps(e.st, sem_simple(st, sc, c).st, sc.context);
            lemma_kept_trans(st, e.st, sem_simple(st, sc, c).st, sc.context as int);
            match e.out {
                Ok(r) => {
                    let val = result_value_ref(e.st, r);
                    let stored = e.st.with_variable(kind, val);
                    lemma_same_tables(e.st, stored);
                    lemma_declare_well_formed(stored, sc.context, name, e.st.new_variable(kind, val));
                },
                Err(_) => {},
            }
        },
        CommandModel::Function { name, args, ret, body } => {
            reveal(sem_function);
            lemma_declared_keeps(st, sem_simple(st, sc, c).st, sc.context);
            lemma_declare_well_formed(
                st,
                sc.context,
                name,
                VariableModel::Const(Box::new(ValueModel::Fun(FunModel::Const(args, ret, body)))),
            );
        },
        CommandModel::Push { value } => {
            reveal(sem_push);
            lemma_result_keeps(st, sc, value);
            let e = sem_result(st, sc, value);
            match e.out {
                Ok(r) => {
                    lemma_pushed_keeps(e.st, sc, r);
                    lemma_kept_trans(st, e.st, sem_simple(st, sc, c).st, -1);
                },
                Err(_) => {},
            }
        },
        CommandModel::Puts { value } => {
            reveal(sem_puts);
            lemma_result_keeps(st, sc, value);
            let v = sem_value(st, sc, value);
            lemma_kept_trans(st, v.st, sem_simple(st, sc, c).st, -1);
            lemma_same_tables(v.st, sem_simple(st, sc, c).st);
        },
        CommandModel::Return { value } => {
            reveal(sem_return);
            lemma_result_keeps(st, sc, value);
        },
        CommandModel::Struct { name, body } => {
            reveal(sem_struct);
            lemma_declared_keeps(st, sem_simple(st, sc, c).st, sc.context);
            lemma_declare_type_well_formed(
                st,
                sc.context,
                name,
                DefinitionModel::Struct { generics: Seq::empty(), fields: body },
            );
        },
        _ => {},
    }
}

/// A machine that differs from another in the bindings, types and previous
/// results of one context, and in its storage cells, keeps the bindings of
/// every other context.
pub proof fn lemma_declared_keeps(a: MachineModel, b: MachineModel, ctx: usize)
    requires
        a.contexts.len() == b.contexts.len(),
        a.handles == b.handles,
        forall|i: int| 0 <= i < a.contexts.len() ==> (#[trigger] b.contexts[i]).parent == a.contexts[i].parent,
        forall|i: int|
            0 <= i < a.contexts.len() && i != ctx ==> (#[trigger] b.contexts[i]).variables
                == a.contexts[i].variables,
    ensures
        bindings_kept_but(a, b, ctx as int),
{
}

/// Binding parameters in the context `ctx` keeps the bindings of every other
/// context.
/// The step keeps the machine well formed too.
pub proof fn lemma_bind_keeps(
    st: MachineModel,
    sc: ScopeModel,
    ctx: usize,
    params: Seq<ParameterModel>,
    args: Seq<VariableModel>,
    i: int,
)
    ensures
        bindings_kept_but(st, sem_bind(st, sc, ctx, params, args, i).st, ctx as int),
        stays_well_formed(st, sem_bind(st, sc, ctx, params, args, i).st),
    decreases params.len() - i,
{
    reveal(sem_bind);
    if !(i < 0 || i >= params.len() || i >= args.len()) && params[i].1.rank() <= args[i].kind().rank() {
        let next = st.declare(ctx, params[i].0, parameter_binding(st, params[i].1, args[i]));
        lemma_declared_keeps(st, next, ctx);
        lemma_declare_well_formed(st, ctx, params[i].0, parameter_binding(st, params[i].1, args[i]));
        lemma_bind_keeps(next, sc, ctx, params, args, i + 1);
        lemma_kept_trans(st, next, sem_bind(st, sc, ctx, params, args, i).st, ctx as int);
    }
}

/// A call keeps the bindings of every context that was there before it.
/// The step keeps the machine well formed too.
pub proof fn lemma_call_keeps(
    st: MachineModel,
    sc: ScopeModel,
    fun: FunModel,
    args: Seq<VariableModel>,
    fuel: nat,
)
    ensures
        bindings_kept(st, sem_call(st, sc, fun, args, fuel).st),
        stays_well_formed(st, sem_call(st, sc, fun, args, fuel).st),
    decreases fuel, 0nat, Seq::<CommandModel>::empty(), 0nat,
{
    reveal(step_machine);
    if fuel > 0 && st.has_room() {
        let ctx = st.contexts.len() as usize;
        let inner = sc.sub(ctx);
        let st1 = st.open_context(Some(sc.context));
        lemma_open_well_formed(st, Some(sc.context));
        lemma_bind_keeps(st1, sc, ctx, parameters_of(fun), args, 0);
        let bound = sem_bind(st1, sc, ctx, parameters_of(fun), args, 0);
        lemma_kept_opened(st, bound.st, Some(sc.context), ctx as int);
        lemma_kept_narrow(st, bound.st, ctx as int, -1);
        match bound.out {
            Err(_) => {},
            Ok(_) => {
                match fun {
                    FunModel::Native(_, _, _) => {
                        lemma_kept_trans(st, bound.st, sem_call(st, sc, fun, args, fuel).st, -1);
                        lemma_same_tables(bound.st, sem_call(st, sc, fun, args, fuel).st);
                    },
                    FunModel::Const(_, _, body) => {
                        lemma_body_keeps(bound.st, inner, body, (fuel - 1) as nat);
                        let ran = sem_body(bound.st, inner, body, (fuel - 1) as nat);
                        lemma_kept_narrow(st, bound.st, -1, ctx as int);
                        lemma_kept_trans(st, bound.st, ran.st, ctx as int);
                        lemma_kept_narrow(st, ran.st, ctx as int, -1);
                    },
                    FunModel::Mutable(_, _, body) => {
                        lemma_body_keeps(bound.st, inner, body, (fuel - 1) as nat);
                        let ran = sem_body(bound.st, inner, body, (fuel - 1) as nat);
                        lemma_kept_narrow(st, bound.st, -1, ctx as int);
                        lemma_kept_trans(st, bound.st, ran.st, ctx as int);
                        lemma_kept_narrow(st, ran.st, ctx as int, -1);
                    },
                }
            },
        }
    }
}

/// A builtin call keeps the bindings of every context.
/// The step keeps the machine well formed too.
pub proof fn lemma_builtin_command_keeps(st: MachineModel, sc: ScopeModel, c: CommandModel, fuel: nat)
    ensures
        bindings_kept(st, sem_builtin_command(st, sc, c, fuel).st),
        stays_well_formed(st, sem_builtin_command(st, sc, c, fuel).st),
        sem_builtin_command(st, sc, c, fuel).sc == sc,
    decreases fuel, 1nat, c, 0nat,
{
    match c {
        CommandModel::Builtin { name, args } => {
            lemma_args_keep(st, sc, args, Seq::empty());
            let a = sem_args(st, sc, args, Seq::empty());
            match a.out {
                Err(_) => {},
                Ok(rs) => {
                    lemma_builtin_keeps(a.st, sc, name, rs, fuel);
                    let b = sem_builtin(a.st, sc, name, rs, fuel);
                    lemma_kept_trans(st, a.st, b.st, -1);
                    match b.out {
                        Ok(Some(r)) => {
                            lemma_pushed_keeps(b.st, sc, r);
                            lemma_kept_trans(st, b.st, pushed(b.st, sc, r).st, -1);
                        },
                        _ => {},
                    }
                },
            }
        },
        _ => {},
    }
}

/// A call statement keeps the bindings of every context.
/// The step keeps the machine well formed too.
pub proof fn lemma_call_command_keeps(st: MachineModel, sc: ScopeModel, c: CommandModel, fuel: nat)
    ensures
        bindings_kept(st, sem_call_command(st, sc, c, fuel).st),
        stays_well_formed(st, sem_call_command(st, sc, c, fuel).st),
        sem_call_command(st, sc, c, fuel).sc == sc,
    decreases fuel, 1nat, c, 0nat,
{
    match c {
        CommandModel::Call { name, args } => {
            lemma_result_keeps(st, sc, name);
            let f = sem_value(st, sc, name);
            match f.out {
                Ok(ValueModel::Fun(fun)) => {
                    lemma_arg_refs_keep(f.st, sc, args, Seq::empty());
                    let a = sem_arg_refs(f.st, sc, args, Seq::empty());
                    lemma_kept_trans(st, f.st, a.st, -1);
                    match a.out {
                        Err(_) => {},
                        Ok(vars) => {
                            lemma_call_keeps(a.st, sc, fun, vars, fuel);
                            let r = sem_call(a.st, sc, fun, vars, fuel);
                            lemma_kept_trans(st, a.st, r.st, -1);
                            match r.out {
                                Ok(v) => {
                                    lemma_pushed_keeps(r.st, sc, ResultModel::Value(v));
                                    lemma_kept_trans(
                                        st,
                                        r.st,
                                        pushed(r.st, sc, ResultModel::Value(v)).st,
                                        -1,
                                    );
                                },
                                Err(_) => {},
                            }
                        },
                    }
                },
                _ => {},
            }
        },
        _ => {},
    }
}

/// A block keeps the bindings of every context that was there before it.
/// The step keeps the machine well formed too.
pub proof fn lemma_block_keeps(st: MachineModel, sc: ScopeModel, body: Seq<CommandModel>, fuel: nat)
    ensures
        bindings_kept(st, sem_block(st, sc, body, fuel).st),
        stays_well_formed(st, sem_block(st, sc, body, fuel).st),
        sem_block(st, sc, body, fuel).sc == sc,
    decreases fuel, 1nat, body, 2nat,
{
    if st.has_room() {
        let ctx = st.contexts.len() as usize;
        let st1 = st.open_context(Some(sc.context));
        lemma_open_well_formed(st, Some(sc.context));
        lemma_body_keeps(st1, sc.sub(ctx), body, fuel);
        let ran = sem_body(st1, sc.sub(ctx), body, fuel);
        lemma_kept_opened(st, ran.st, Some(sc.context), ctx as int);
        lemma_kept_narrow(st, ran.st, ctx as int, -1);
    }
}

/// A conditional keeps the bindings of every context.
/// The step keeps the machine well formed too.
pub proof fn lemma_conditional_keeps(st: MachineModel, sc: ScopeModel, c: CommandModel, fuel: nat)
    ensures
        bindings_kept(st, sem_conditional(st, sc, c, fuel).st),
        stays_well_formed(st, sem_conditional(st, sc, c, fuel).st),
        sem_conditional(st, sc, c, fuel).sc == sc,
    decreases fuel, 1nat, c, 0nat,
{
    match c {
        CommandModel::Conditional { condition, body, otherwise } => {
            lemma_result_keeps(st, sc, condition);
            let v = sem_value(st, sc, condition);
            match v.out {
                Ok(ValueModel::Bool(b)) => {
                    if b {
                        lemma_block_keeps(v.st, sc, body, fuel);
                        lemma_kept_trans(st, v.st, sem_block(v.st, sc, body, fuel).st, -1);
                    } else {
                        match otherwise {
                            Some(other) => {
                                lemma_block_keeps(v.st, sc, other, fuel);
                                lemma_kept_trans(st, v.st, sem_block(v.st, sc, other, fuel).st, -1);
                            },
                            None => {},
                        }
                    }
                },
                _ => {},
            }
        },
        _ => {},
    }
}

/// A loop keeps the bindings of every context that was there before it.
/// The step keeps the machine well formed too.
pub proof fn lemma_loop_keeps(st: MachineModel, sc: ScopeModel, body: Seq<CommandModel>, fuel: nat)
    ensures
        bindings_kept(st, sem_loop(st, sc, body, fuel).st),
        stays_well_formed(st, sem_loop(st, sc, body, fuel).st),
        sem_loop(st, sc, body, fuel).sc == sc,
    decreases fuel, 1nat, body, 3nat,
{
    if fuel > 0 && st.has_room() {
        let ctx = st.contexts.len() as usize;
        let st1 = st.open_context(Some(sc.context));
        lemma_open_well_formed(st, Some(sc.context));
        let inner = sc.sub(ctx);
        lemma_body_keeps(st1, inner, body, (fuel - 1) as nat);
        let round = sem_body(st1, inner, body, (fuel - 1) as nat);
        lemma_kept_opened(st, round.st, Some(sc.context), ctx as int);
        lemma_kept_narrow(st, round.st, ctx as int, -1);
        match round.out {
            Ok(_) => {
                lemma_loop_keeps(round.st, sc, body, (fuel - 1) as nat);
                lemma_kept_trans(st, round.st, sem_loop(round.st, sc, body, (fuel - 1) as nat).st, -1);
            },
            Err(_) => {},
        }
    }
}

/// The rounds of a `for` loop keep the bindings of every context that was
/// there before them.
/// The step keeps the machine well formed too.
pub proof fn lemma_for_rounds_keep(
    st: MachineModel,
    sc: ScopeModel,
    var: Seq<char>,
    iterator: VariableModel,
    next: FunModel,
    body: Seq<CommandModel>,
    fuel: nat,
)
    ensures
        bindings_kept(st, sem_for_rounds(st, sc, var, iterator, next, body, fuel).st),
        stays_well_formed(st, sem_for_rounds(st, sc, var, iterator, next, body, fuel).st),
        sem_for_rounds(st, sc, var, iterator, next, body, fuel).sc == sc,
    decreases fuel, 1nat, body, 3nat,
{
    if fuel > 0 && st.has_room() {
        let ctx = st.contexts.len() as usize;
        let st1 = st.open_context(Some(sc.context));
        lemma_open_well_formed(st, Some(sc.context));
        let inner = sc.sub(ctx);
        lemma_kept_self(st1, ctx as int);
        lemma_kept_opened(st, st1, Some(sc.context), ctx as int);
        lemma_kept_narrow(st, st1, ctx as int, -1);
        match get_property(st1, inner, st1.read(iterator), ValueModel::String("value"@)) {
            Err(_) => {},
            Ok(v) => {
                let st2 = st1.declare(ctx, var, VariableModel::Const(Box::new(v)));
                lemma_declared_keeps(st1, st2, ctx);
                lemma_declare_well_formed(st1, ctx, var, VariableModel::Const(Box::new(v)));
                lemma_body_keeps(st2, inner, body, (fuel - 1) as nat);
                let round = sem_body(st2, inner, body, (fuel - 1) as nat);
                lemma_kept_trans(st1, st2, round.st, ctx as int);
                lemma_kept_opened(st, round.st, Some(sc.context), ctx as int);
                lemma_kept_narrow(st, round.st, ctx as int, -1);
                match round.out {
                    Ok(_) => {
                        lemma_call_keeps(round.st, round.sc, next, seq![iterator], (fuel - 1) as nat);
                        let called = sem_call(
                            round.st,
                            round.sc,
                            next,
                            seq![iterator],
                            (fuel - 1) as nat,
                        );
                        lemma_kept_trans(st, round.st, called.st, -1);
                        match called.out {
                            Ok(res) => {
                                match get_property(
                                    called.st,
                                    round.sc,
                                    res,
                                    ValueModel::String("done"@),
                                ) {
                                    Ok(ValueModel::Bool(finished)) => {
                                        if !finished {
                                            lemma_for_rounds_keep(
                                                called.st,
                                                sc,
                                                var,
                                                iterator,
                                                next,
                                                body,
                                                (fuel - 1) as nat,
                                            );
                                            lemma_kept_trans(
                                                st,
                                                called.st,
                                                sem_for_rounds(
                                                    called.st,
                                                    sc,
                                                    var,
                                                    iterator,
                                                    next,
                                                    body,
                                                    (fuel - 1) as nat,
                                                ).st,
                                                -1,
                                            );
                                        }
                                    },
                                    _ => {},
                                }
                            },
                            Err(_) => {},
                        }
                    },
                    Err(_) => {},
                }
            },
        }
    }
}

/// A `for` loop keeps the bindings of every context.
/// The step keeps the machine well formed too.
pub proof fn lemma_for_keeps(st: MachineModel, sc: ScopeModel, c: CommandModel, fuel: nat)
    ensures
        bindings_kept(st, sem_for(st, sc, c, fuel).st),
        stays_well_formed(st, sem_for(st, sc, c, fuel).st),
        sem_for(st, sc, c, fuel).sc == sc,
    decreases fuel, 1nat, c, 0nat,
{
    match c {
        CommandModel::For { var, iterator, body } => {
            lemma_result_keeps(st, sc, iterator);
            let it = sem_result(st, sc, iterator);
            match it.out {
                Err(_) => {},
                Ok(r) => {
                    let target = result_ref(it.st, r);
                    match get_property(it.st, sc, it.st.read(target), ValueModel::String("next"@)) {
                        Ok(ValueModel::Fun(next)) => {
                            lemma_for_rounds_keep(it.st, sc, var, target, next, body, fuel);
                            lemma_kept_trans(
                                st,
                                it.st,
                                sem_for_rounds(it.st, sc, var, target, next, body, fuel).st,
                                -1,
                            );
                        },
                        _ => {},
                    }
                },
            }
        },
        _ => {},
    }
}

/// A statement keeps the bindings of every context but that of its scope,
/// and leaves the scope with its context.
/// The step keeps the machine well formed too.
pub proof fn lemma_dispatch_keeps(st: MachineModel, sc: ScopeModel, c: CommandModel, fuel: nat)
    ensures
        bindings_kept_but(st, sem_dispatch(st, sc, c, fuel).st, sc.context as int),
        stays_well_formed(st, sem_dispatch(st, sc, c, fuel).st),
        sem_dispatch(st, sc, c, fuel).sc.context == sc.context,
    decreases fuel, 1nat, c, 1nat,
{
    match c {
        CommandModel::Builtin { .. } => {
            lemma_builtin_command_keeps(st, sc, c, fuel);
            lemma_kept_narrow(st, sem_dispatch(st, sc, c, fuel).st, -1, sc.context as int);
        },
        CommandModel::Call { .. } => {
            lemma_call_command_keeps(st, sc, c, fuel);
            lemma_kept_narrow(st, sem_dispatch(st, sc, c, fuel).st, -1, sc.context as int);
        },
        CommandModel::Conditional { .. } => {
            lemma_conditional_keeps(st, sc, c, fuel);
            lemma_kept_narrow(st, sem_dispatch(st, sc, c, fuel).st, -1, sc.context as int);
        },
        CommandModel::For { .. } => {
            lemma_for_keeps(st, sc, c, fuel);
            lemma_kept_narrow(st, sem_dispatch(st, sc, c, fuel).st, -1, sc.context as int);
        },
        CommandModel::Loop { body } => {
            lemma_loop_keeps(st, sc, body, fuel);
            lemma_kept_narrow(st, sem_dispatch(st, sc, c, fuel).st, -1, sc.context as int);
        },
        CommandModel::Scope { body } => {
            lemma_block_keeps(st, sc, body, fuel);
            lemma_kept_narrow(st, sem_dispatch(st, sc, c, fuel).st, -1, sc.context as int);
        },
        _ => {
            lemma_simple_keeps(st, sc, c);
        },
    }
}

/// Some statements run in one scope keep the bindings of every context but
/// that of the scope, and leave the scope with its context.
/// The step keeps the machine well formed too.
pub proof fn lemma_body_keeps(st: MachineModel, sc: ScopeModel, cs: Seq<CommandModel>, fuel: nat)
    ensures
        bindings_kept_but(st, sem_body(st, sc, cs, fuel).st, sc.context as int),
        stays_well_formed(st, sem_body(st, sc, cs, fuel).st),
        sem_body(st, sc, cs, fuel).sc.context == sc.context,
    decreases fuel, 1nat, cs, 1nat,
{
    if cs.len() > 0 {
        lemma_dispatch_keeps(st, sc, cs[0], fuel);
        let first = sem_command(st, sc, cs[0], fuel);
        match first.out {
            Err(_) => {},
            Ok(_) => {
                lemma_body_keeps(first.st, first.sc, cs.drop_first(), fuel);
                lemma_kept_trans(
                    st,
                    first.st,
                    sem_body(first.st, first.sc, cs.drop_first(), fuel).st,
                    sc.context as int,
                );
            },
        }
    } else {
        lemma_kept_self(st, sc.context as int);
    }
}

/// What a block declares is gone when the block ends, and what it shadows is
/// as it was: behind the block every name resolves, in the scope around it and
/// in every scope that was there before, to the binding that it resolved to
/// before the block. (The block may have assigned to that binding.) This
/// holds of every scope that neither is nor lies in one that a builtin has
/// handed out: code that a builtin evaluates in such a scope may declare in
/// it.
pub proof fn block_leaves_bindings(
    st: MachineModel,
    sc: ScopeModel,
    body: Seq<CommandModel>,
    fuel: nat,
    ctx: int,
    name: Seq<char>,
)
    requires
        ctx < st.contexts.len(),
        chain_free(st, ctx),
    ensures
        sem_block(st, sc, body, fuel).st.resolve(ctx, name) == st.resolve(ctx, name),
{
    lemma_block_keeps(st, sc, body, fuel);
    lemma_resolve_kept(st, sem_block(st, sc, body, fuel).st, ctx, name);
}

/// Behind a call every name resolves, in every scope that was there before
/// and that neither is nor lies in one that a builtin has handed out, to the
/// binding that it resolved to before the call: what the function declares
/// stays in the scope of the call.
pub proof fn call_leaves_bindings(
    st: MachineModel,
    sc: ScopeModel,
    fun: FunModel,
    args: Seq<VariableModel>,
    fuel: nat,
    ctx: int,
    name: Seq<char>,
)
    requires
        ctx < st.contexts.len(),
        chain_free(st, ctx),
    ensures
        sem_call(st, sc, fun, args, fuel).st.resolve(ctx, name) == st.resolve(ctx, name),
{
    lemma_call_keeps(st, sc, fun, args, fuel);
    lemma_resolve_kept(st, sem_call(st, sc, fun, args, fuel).st, ctx, name);
}

/// A name that is declared in a context resolves there to what it was
/// declared as, whatever it resolved to before.
pub proof fn declared_name_resolves(
    st: MachineModel,
    ctx: usize,
    name: Seq<char>,
    var: VariableModel,
)
    requires
        ctx < st.contexts.len(),
    ensures
        st.declare(ctx, name, var).resolve(ctx as int, name) == Some(var),
{
    crate::runtime::table::lemma_lookup_bound(st.contexts[ctx as int].variables, name, var);
}

/// A declaration in a context changes nothing for the contexts made before
/// it: there every name resolves as before. A scope's context is made after
/// the context of the scope around it, so that shadowing a name in a scope
/// leaves the binding of the scope around it alone.
pub proof fn declaration_leaves_earlier_contexts(
    st: MachineModel,
    ctx: usize,
    name: Seq<char>,
    var: VariableModel,
    earlier: int,
    other: Seq<char>,
)
    requires
        earlier < ctx,
    ensures
        st.declare(ctx, name, var).resolve(earlier, other) == st.resolve(earlier, other),
    decreases earlier,
{
    let after = st.declare(ctx, name, var);
    if 0 <= earlier < st.contexts.len() {
        assert(after.contexts[earlier] == st.contexts[earlier]);
        match st.contexts[earlier].parent {
            Some(p) => {
                if p < earlier {
                    declaration_leaves_earlier_contexts(st, ctx, name, var, p as int, other);
                }
            },
            None => {},
        }
    }
}

/// A declaration of one name changes nothing for any other name.
pub proof fn declaration_leaves_other_names(
    st: MachineModel,
    ctx: usize,
    name: Seq<char>,
    var: VariableModel,
    at: int,
    other: Seq<char>,
)
    requires
        other != name,
    ensures
        st.declare(ctx, name, var).resolve(at, other) == st.resolve(at, other),
    decreases at,
{
    let after = st.declare(ctx, name, var);
    if 0 <= at < st.contexts.len() {
        if at == ctx {
            crate::runtime::table::lemma_lookup_other(st.contexts[at].variables, name, var, other);
        } else {
            assert(after.contexts[at] == st.contexts[at]);
        }
        match st.contexts[at].parent {
            Some(p) => {
                if p < at {
                    declaration_leaves_other_names(st, ctx, name, var, p as int, other);
                }
            },
            None => {},
        }
    }
}

} // verus!
