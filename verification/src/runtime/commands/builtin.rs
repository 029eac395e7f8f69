use vstd::prelude::*;
use vstd::string::*;
use vstd::utf8::*;
use crate::aml3::statements::src_program;
use crate::runtime::commands::eval_body;
use crate::runtime::commands::semantics::sem_body;
use crate::runtime::error::AmvmFault;
use crate::runtime::expr::property::access_field;
use crate::runtime::expr::property::mut_access;
use crate::runtime::expr::semantics::Evaluated;
use crate::runtime::expr::semantics::result_ref;
use crate::runtime::expr::semantics::result_value;
use crate::runtime::machine::Machine;
use crate::runtime::machine::MachineModel;
use crate::runtime::machine::results_model;
use crate::runtime::result::AmvmExprResult;
use crate::runtime::result::AmvmPropagate;
use crate::runtime::result::Outcome;
use crate::runtime::result::PropagateModel;
use crate::runtime::result::ResultModel;
use crate::runtime::result::raise;
use crate::tokens::command::Command;
use crate::tokens::command::CommandModel;
use crate::tokens::scope::AmvmScope;
use crate::tokens::scope::ScopeModel;
use crate::tokens::value::ObjectModel;
use crate::tokens::value::Value;
use crate::tokens::value::ValueModel;
use crate::tokens::value::ValueObject;
use crate::utils::text_eq;

verus! {

/// What a builtin hands back: nothing, or a result for the stack of previous
/// results.
pub type Reply = Option<ResultModel>;

/// The builtin that makes a scope inside the current one and hands out a
/// handle to it. A machine hands out no more handles than 32 bits can count.
#[verifier::opaque]
pub open spec fn vm_create(st: MachineModel, sc: ScopeModel) -> Evaluated<Reply> {
    if st.handles.len() >= u32::MAX {
        Evaluated { st, out: raise(sc, AmvmFault::BadHandle) }
    } else if !st.has_room() {
        Evaluated { st, out: raise(sc, AmvmFault::OutOfContexts) }
    } else {
        Evaluated {
            st: st.open_context(Some(sc.context)).hand_out(sc.sub(st.contexts.len() as usize)),
            out: Ok(
                Some(
                    ResultModel::Value(
                        ValueModel::Object(ObjectModel::Native(st.handles.len() as u32)),
                    ),
                ),
            ),
        }
    }
}

/// The handle and the code that an evaluation of source text is asked for: the
/// first argument must be a variable that holds a handle of this machine, the
/// second a string.
#[verifier::opaque]
pub open spec fn eval_target(st: MachineModel, sc: ScopeModel, args: Seq<ResultModel>) -> Outcome<
    (usize, Seq<char>),
> {
    if args.len() < 2 {
        raise(sc, AmvmFault::MissingArgument)
    } else {
        match args[0] {
            ResultModel::Value(_) => raise(sc, AmvmFault::NotAVariable),
            ResultModel::Variable(var) => match st.read(var) {
                ValueModel::Object(ObjectModel::Native(h)) => if h >= st.handles.len() {
                    raise(sc, AmvmFault::BadHandle)
                } else {
                    match result_value(st, args[1]) {
                        ValueModel::String(code) => Ok((h as usize, code)),
                        _ => raise(sc, AmvmFault::CodeNotString),
                    }
                },
                _ => raise(sc, AmvmFault::BadHandle),
            },
        }
    }
}

/// What the evaluated code hands back: its value as a result.
pub open spec fn evaluated_reply(out: Outcome<ValueModel>) -> Outcome<Reply> {
    match out {
        Ok(v) => Ok(Some(ResultModel::Value(v))),
        Err(p) => Err(p),
    }
}

/// The builtin that evaluates source text in the scope behind a handle: the
/// text is read as statements, and the statements run in that scope, which
/// keeps what they declare. The evaluation costs one unit of fuel.
pub open spec fn vm_eval(st: MachineModel, sc: ScopeModel, args: Seq<ResultModel>, fuel: nat) -> Evaluated<
    Reply,
>
    decreases fuel, 0nat, Seq::<CommandModel>::empty(), 0nat,
{
    match eval_target(st, sc, args) {
        Err(p) => Evaluated { st, out: Err(p) },
        Ok((h, code)) => match src_program(encode_utf8(code), false) {
            Err(_) => Evaluated { st, out: raise(sc, AmvmFault::FrontEnd) },
            Ok((cmds, _)) => if fuel == 0 {
                Evaluated { st, out: raise(sc, AmvmFault::OutOfFuel) }
            } else if h >= st.handles.len() {
                Evaluated { st, out: raise(sc, AmvmFault::BadHandle) }
            } else {
                let ran = sem_body(st, st.handles[h as int], cmds, (fuel - 1) as nat);
                Evaluated { st: ran.st.put_back(h, ran.sc), out: evaluated_reply(ran.out) }
            },
        },
    }
}

/// The builtin that reads a line of input into a variable.
#[verifier::opaque]
pub open spec fn io_read_line(st: MachineModel, sc: ScopeModel, args: Seq<ResultModel>) -> Evaluated<
    Reply,
> {
    if args.len() < 1 {
        Evaluated { st, out: raise(sc, AmvmFault::MissingArgument) }
    } else {
        match args[0] {
            ResultModel::Value(_) => Evaluated { st, out: raise(sc, AmvmFault::NotAVariable) },
            ResultModel::Variable(var) => if var.cell() is None {
                Evaluated { st, out: raise(sc, AmvmFault::NotMutable) }
            } else {
                Evaluated {
                    st: st.advance_input().write(var, ValueModel::String(st.next_line())),
                    out: Ok(None),
                }
            },
        }
    }
}

/// The builtin that hands back a binding on the storage of a field of an
/// object.
#[verifier::opaque]
pub open spec fn obj_mut_access(st: MachineModel, sc: ScopeModel, args: Seq<ResultModel>) -> Evaluated<
    Reply,
> {
    if args.len() < 2 {
        Evaluated { st, out: raise(sc, AmvmFault::MissingArgument) }
    } else {
        match mut_access(st, sc, result_ref(st, args[0]), result_value(st, args[1])) {
            Ok(var) => Evaluated { st, out: Ok(Some(ResultModel::Variable(var))) },
            Err(p) => Evaluated { st, out: Err(p) },
        }
    }
}

/// The builtin that overwrites the storage of a variable.
#[verifier::opaque]
pub open spec fn mem_replace(st: MachineModel, sc: ScopeModel, args: Seq<ResultModel>) -> Evaluated<
    Reply,
> {
    if args.len() < 2 {
        Evaluated { st, out: raise(sc, AmvmFault::MissingArgument) }
    } else if result_ref(st, args[0]).cell() is None {
        Evaluated { st, out: raise(sc, AmvmFault::NotMutable) }
    } else {
        Evaluated {
            st: st.write(result_ref(st, args[0]), result_value(st, args[1])),
            out: Ok(None),
        }
    }
}

/// What the builtin `name` does with its evaluated arguments.
pub open spec fn sem_builtin(
    st: MachineModel,
    sc: ScopeModel,
    name: Seq<char>,
    args: Seq<ResultModel>,
    fuel: nat,
) -> Evaluated<Reply>
    decreases fuel, 0nat, Seq::<CommandModel>::empty(), 1nat,
{
    if name == ".vm.create"@ {
        vm_create(st, sc)
    } else if name == ".vm.eval"@ {
        vm_eval(st, sc, args, fuel)
    } else if name == ".io.stdout.flush"@ {
        Evaluated { st, out: Ok(None) }
    } else if name == ".io.stdin.read_line"@ {
        io_read_line(st, sc, args)
    } else if name == ".obj.mut_access"@ {
        obj_mut_access(st, sc, args)
    } else if name == ".mem.replace"@ {
        mem_replace(st, sc, args)
    } else {
        Evaluated { st, out: raise(sc, AmvmFault::UnknownBuiltin) }
    }
}

/// The model of what a builtin hands back.
pub open spec fn reply_outcome(r: Result<Option<AmvmExprResult>, AmvmPropagate>) -> Outcome<Reply> {
    match r {
        Ok(Some(res)) => Ok(Some(res@)),
        Ok(None) => Ok(None),
        Err(p) => Err(p@),
    }
}

/// Makes a scope inside the current one and hands out a handle to it.
fn call_vm_create(vm: &mut Machine, scope: &AmvmScope) -> (r: Result<
    Option<AmvmExprResult>,
    AmvmPropagate,
>)
    ensures
        final(vm)@ == vm_create(old(vm)@, scope@).st,
        reply_outcome(r) == vm_create(old(vm)@, scope@).out,
{
    reveal(vm_create);
    if vm.handles.len() >= u32::MAX as usize {
        return Err(scope.fail(AmvmFault::BadHandle));
    }
    if !vm.has_room() {
        return Err(scope.fail(AmvmFault::OutOfContexts));
    }
    let ctx = vm.open_context(Some(scope.context));
    let handle = vm.hand_out(scope.create_sub(ctx));
    Ok(Some(AmvmExprResult::Value(Value::Object(ValueObject::Native(handle as u32)))))
}

/// The handle and the code that an evaluation of source text is asked for.
fn eval_target_of(vm: &Machine, scope: &AmvmScope, args: &Vec<AmvmExprResult>) -> (r: Result<
    (usize, String),
    AmvmPropagate,
>)
    ensures
        match r {
            Ok((h, code)) => eval_target(vm@, scope@, results_model(args@)) == Ok::<
                (usize, Seq<char>),
                PropagateModel,
            >((h, code@)),
            Err(p) => eval_target(vm@, scope@, results_model(args@)) == Err::<
                (usize, Seq<char>),
                PropagateModel,
            >(p@),
        },
{
    reveal(eval_target);
    if args.len() < 2 {
        return Err(scope.fail(AmvmFault::MissingArgument));
    }
    match &args[0] {
        AmvmExprResult::Value(_) => Err(scope.fail(AmvmFault::NotAVariable)),
        AmvmExprResult::Variable(var) => match vm.read(var) {
            Value::Object(ValueObject::Native(h)) => {
                if h as usize >= vm.handles.len() {
                    Err(scope.fail(AmvmFault::BadHandle))
                } else {
                    match args[1].as_value(vm) {
                        Value::String(code) => Ok((h as usize, code)),
                        _ => Err(scope.fail(AmvmFault::CodeNotString)),
                    }
                }
            },
            _ => Err(scope.fail(AmvmFault::BadHandle)),
        },
    }
}

/// Evaluates source text in the scope behind a handle.
fn call_vm_eval(vm: &mut Machine, scope: &AmvmScope, args: &Vec<AmvmExprResult>, fuel: u64) -> (r:
    Result<Option<AmvmExprResult>, AmvmPropagate>)
    ensures
        final(vm)@ == vm_eval(old(vm)@, scope@, results_model(args@), fuel as nat).st,
        reply_outcome(r) == vm_eval(old(vm)@, scope@, results_model(args@), fuel as nat).out,
    decreases fuel, 0nat, Seq::<Command>::empty(), 0nat,
{
    let (h, code) = eval_target_of(vm, scope, args)?;
    let cmds = match crate::aml3::parse(code.as_str().as_bytes(), false) {
        Ok(cmds) => cmds,
        Err(_) => {
            return Err(scope.fail(AmvmFault::FrontEnd));
        },
    };
    if fuel == 0 {
        return Err(scope.fail(AmvmFault::OutOfFuel));
    }
    let mut target = match vm.borrow_scope(h) {
        Some(target) => target,
        None => {
            return Err(scope.fail(AmvmFault::BadHandle));
        },
    };
    let r = eval_body(vm, &mut target, &cmds, fuel - 1);
    vm.put_back(h, target);
    match r {
        Ok(v) => Ok(Some(AmvmExprResult::Value(v))),
        Err(p) => Err(p),
    }
}

/// Reads a line of input into a variable.
fn call_read_line(vm: &mut Machine, scope: &AmvmScope, args: &Vec<AmvmExprResult>) -> (r: Result<
    Option<AmvmExprResult>,
    AmvmPropagate,
>)
    ensures
        final(vm)@ == io_read_line(old(vm)@, scope@, results_model(args@)).st,
        reply_outcome(r) == io_read_line(old(vm)@, scope@, results_model(args@)).out,
{
    reveal(io_read_line);
    if args.len() < 1 {
        return Err(scope.fail(AmvmFault::MissingArgument));
    }
    match &args[0] {
        AmvmExprResult::Value(_) => Err(scope.fail(AmvmFault::NotAVariable)),
        AmvmExprResult::Variable(var) => {
            if var.get_rw().is_none() {
                Err(scope.fail(AmvmFault::NotMutable))
            } else {
                let line = vm.read_line();
                vm.write(var, Value::String(line));
                Ok(None)
            }
        },
    }
}

/// Hands back a binding on the storage of a field of an object.
fn call_mut_access(vm: &Machine, scope: &AmvmScope, args: &Vec<AmvmExprResult>) -> (r: Result<
    Option<AmvmExprResult>,
    AmvmPropagate,
>)
    ensures
        vm@ == obj_mut_access(vm@, scope@, results_model(args@)).st,
        reply_outcome(r) == obj_mut_access(vm@, scope@, results_model(args@)).out,
{
    reveal(obj_mut_access);
    if args.len() < 2 {
        return Err(scope.fail(AmvmFault::MissingArgument));
    }
    let var = args[0].as_ref(vm);
    let field = args[1].as_value(vm);
    let got = access_field(vm, scope, &var, &field)?;
    Ok(Some(AmvmExprResult::Variable(got)))
}

/// Overwrites the storage of a variable.
fn call_mem_replace(vm: &mut Machine, scope: &AmvmScope, args: &Vec<AmvmExprResult>) -> (r: Result<
    Option<AmvmExprResult>,
    AmvmPropagate,
>)
    ensures
        final(vm)@ == mem_replace(old(vm)@, scope@, results_model(args@)).st,
        reply_outcome(r) == mem_replace(old(vm)@, scope@, results_model(args@)).out,
{
    reveal(mem_replace);
    if args.len() < 2 {
        return Err(scope.fail(AmvmFault::MissingArgument));
    }
    let var = args[0].as_ref(vm);
    if var.get_rw().is_none() {
        return Err(scope.fail(AmvmFault::NotMutable));
    }
    let value = args[1].as_value(vm);
    vm.write(&var, value);
    Ok(None)
}

/// Runs the builtin `name` on its evaluated arguments.
pub fn call(vm: &mut Machine, scope: &AmvmScope, name: &str, args: &Vec<AmvmExprResult>, fuel: u64) -> (r:
    Result<Option<AmvmExprResult>, AmvmPropagate>)
    ensures
        final(vm)@ == sem_builtin(old(vm)@, scope@, name@, results_model(args@), fuel as nat).st,
        reply_outcome(r) == sem_builtin(old(vm)@, scope@, name@, results_model(args@), fuel as nat).out,
    decreases fuel, 0nat, Seq::<Command>::empty(), 1nat,
{
    if text_eq(name, ".vm.create") {
        call_vm_create(vm, scope)
    } else if text_eq(name, ".vm.eval") {
        call_vm_eval(vm, scope, args, fuel)
    } else if text_eq(name, ".io.stdout.flush") {
        Ok(None)
    } else if text_eq(name, ".io.stdin.read_line") {
        call_read_line(vm, scope, args)
    } else if text_eq(name, ".obj.mut_access") {
        call_mut_access(vm, scope, args)
    } else if text_eq(name, ".mem.replace") {
        call_mem_replace(vm, scope, args)
    } else {
        Err(scope.fail(AmvmFault::UnknownBuiltin))
    }
}

} // verus!
