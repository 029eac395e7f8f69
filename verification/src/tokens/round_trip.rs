use vstd::prelude::*;
use crate::error::Failure;
use crate::tokens::command::Command;
use crate::tokens::command::CommandModel;
use crate::tokens::command::lemma_command_roundtrip;
use crate::tokens::command::read_command;
use crate::tokens::expr::CommandExpression;
use crate::tokens::expr::ExprModel;
use crate::tokens::expr::lemma_expr_roundtrip;
use crate::tokens::expr::read_expr;
use crate::tokens::program::Program;
use crate::tokens::program::ProgramModel;
use crate::tokens::program::lemma_program_roundtrip;
use crate::tokens::program::read_program;
use crate::tokens::types::AmvmType;
use crate::tokens::types::TypeModel;
use crate::tokens::types::lemma_type_roundtrip;
use crate::tokens::types::read_type;
use crate::tokens::value::Value;
use crate::tokens::value::ValueModel;
use crate::tokens::value::lemma_value_roundtrip;
use crate::tokens::value::read_value;
use crate::utils::Compilable;

verus! {

/// Decoding the bytes that a type encodes to gives the type back, and ends
/// behind the last of these bytes.
pub proof fn type_round_trip(t: AmvmType)
    requires
        t.wire() is Some,
    ensures
        read_type(t.wire().unwrap(), 0) == Ok::<(TypeModel, int), Failure>(
            (t@, t.wire().unwrap().len() as int),
        ),
{
    let w = t.wire().unwrap();
    assert(w.subrange(0, w.len() as int) =~= w);
    lemma_type_roundtrip(w, 0, t@);
}

/// Decoding the bytes that a literal encodes to gives the literal back, and
/// ends behind the last of these bytes.
pub proof fn value_round_trip(v: Value)
    requires
        v.wire() is Some,
    ensures
        read_value(v.wire().unwrap(), 0) == Ok::<(ValueModel, int), Failure>(
            (v@, v.wire().unwrap().len() as int),
        ),
{
    let w = v.wire().unwrap();
    assert(w.subrange(0, w.len() as int) =~= w);
    lemma_value_roundtrip(w, 0, v@);
}

/// Decoding the bytes that an expression encodes to gives the expression
/// back, and ends behind the last of these bytes.
pub proof fn expression_round_trip(e: CommandExpression)
    requires
        e.wire() is Some,
    ensures
        read_expr(e.wire().unwrap(), 0) == Ok::<(ExprModel, int), Failure>(
            (e@, e.wire().unwrap().len() as int),
        ),
{
    let w = e.wire().unwrap();
    assert(w.subrange(0, w.len() as int) =~= w);
    lemma_expr_roundtrip(w, 0, e@);
}

/// Decoding the bytes that a statement encodes to gives the statement back,
/// and ends behind the last of these bytes. A conditional keeps its second
/// branch as it was: none, an empty one, or one with statements.
pub proof fn command_round_trip(c: Command)
    requires
        c.wire() is Some,
    ensures
        read_command(c.wire().unwrap(), 0) == Ok::<(CommandModel, int), Failure>(
            (c@, c.wire().unwrap().len() as int),
        ),
{
    let w = c.wire().unwrap();
    assert(w.subrange(0, w.len() as int) =~= w);
    lemma_command_roundtrip(w, 0, c@);
}

/// Decoding the bytes that a program encodes to gives the program back:
/// its casting policy and its statements, in their order.
pub proof fn program_round_trip(p: Program)
    requires
        p.wire() is Some,
    ensures
        read_program(p.wire().unwrap(), 0) == Ok::<(ProgramModel, int), Failure>(
            (p@, p.wire().unwrap().len() as int),
        ),
{
    lemma_program_roundtrip(p@);
}

} // verus!
