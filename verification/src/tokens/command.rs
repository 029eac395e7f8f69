use vstd::prelude::*;
use crate::error::DecodeError;
use crate::error::DecodeFault;
use crate::error::Failure;
use crate::error::Parsed;
use crate::error::fail;
use crate::parser::Parser;
use crate::parser::agrees;
use crate::parser::agrees_as;
use crate::parser::agrees_plain;
use crate::parser::read_byte;
use crate::tokens::expr::CommandExpression;
use crate::tokens::expr::ExprModel;
use crate::tokens::expr::clone_exprs;
use crate::tokens::expr::expr_fits;
use crate::tokens::expr::expr_model;
use crate::tokens::expr::exprs_fit;
use crate::tokens::expr::exprs_model;
use crate::tokens::expr::lemma_expr_list_roundtrip;
use crate::tokens::expr::lemma_expr_roundtrip;
use crate::tokens::expr::read_expr;
use crate::tokens::expr::read_expr_list;
use crate::tokens::expr::wire_expr;
use crate::tokens::expr::wire_expr_list;
use crate::tokens::kind::VariableKind;
use crate::tokens::kind::read_kind;
use crate::tokens::types::AmvmType;
use crate::tokens::types::TypeModel;
use crate::tokens::types::lemma_type_roundtrip;
use crate::tokens::types::read_type;
use crate::tokens::types::type_fits;
use crate::tokens::types::type_model;
use crate::tokens::types::wire_type;
use crate::tokens::value::Parameter;
use crate::tokens::value::ParameterModel;
use crate::tokens::value::Value;
use crate::tokens::value::clone_parameters;
use crate::tokens::value::compile_u16;
use crate::tokens::value::lemma_u16_roundtrip;
use crate::tokens::value::parameters_model;
use crate::tokens::value::read_u16;
use crate::tokens::value::wire_u16;
use crate::utils::Compilable;
use crate::utils::CompileResult;
use crate::utils::compile_text;
use crate::utils::compiled;
use crate::utils::holds_at;
use crate::utils::lemma_holds_first;
use crate::utils::lemma_holds_split;
use crate::utils::lemma_holds_tag;
use crate::utils::lemma_read_text;
use crate::utils::read_text;
use crate::utils::text_fits;
use crate::utils::visit_text;
use crate::utils::wire_text;

verus! {

/// Wire tag of an assignment.
pub const CMD_ASGN_VAR: u8 = 0x51;

/// Wire tag of `break`.
pub const CMD_BREAK: u8 = 0x52;

/// Wire tag of a builtin call.
pub const CMD_BUILTIN: u8 = 0x53;

/// Wire tag of a function call.
pub const CMD_CALL: u8 = 0x54;

/// Wire tag of a conditional.
pub const CMD_COND: u8 = 0x55;

/// Wire tag of a declaration.
pub const CMD_DCLR_VAR: u8 = 0x56;

/// Wire tag of a function definition.
pub const CMD_FN: u8 = 0x57;

/// Wire tag of a `for` loop.
pub const CMD_FOR: u8 = 0x58;

/// Wire tag of a source position.
pub const CMD_META: u8 = 0x59;

/// Wire tag of a source file name.
pub const CMD_META_FILE: u8 = 0x5A;

/// Wire tag of a loop.
pub const CMD_LOOP: u8 = 0x5B;

/// Wire tag of a push onto the stack of previous results.
pub const CMD_PUSH: u8 = 0x5C;

/// Wire tag of an output.
pub const CMD_PUTS: u8 = 0x5D;

/// Wire tag of a return.
pub const CMD_RET: u8 = 0x5E;

/// Wire tag of a block.
pub const CMD_SCOPE: u8 = 0x5F;

/// Wire tag of a struct declaration.
pub const CMD_STRUCT: u8 = 0x60;

/// Mark behind the body of a conditional that has no second branch.
pub const NO_BRANCH: u8 = 0x00;

/// Mark behind the body of a conditional before its second branch.
pub const HAS_BRANCH: u8 = 0x01;

/// A statement.
#[allow(inconsistent_fields)]
#[derive(Debug, PartialEq)]
pub enum Command {
    AssignVariable { name: String, value: CommandExpression },
    Break,
    Builtin { name: String, args: Vec<CommandExpression> },
    Call { name: CommandExpression, args: Vec<CommandExpression> },
    Conditional { condition: CommandExpression, body: Vec<Command>, otherwise: Option<Vec<Command>> },
    DeclareVariable { name: String, kind: VariableKind, value: CommandExpression },
    For { var: String, iterator: CommandExpression, body: Vec<Command> },
    Function { name: String, args: Vec<Parameter>, ret: AmvmType, body: Vec<Command> },
    Meta { pos: (u16, u16), code: String },
    MetaFile(String),
    Loop { body: Vec<Command> },
    Push { value: CommandExpression },
    Puts { value: CommandExpression },
    Return { value: CommandExpression },
    Scope { body: Vec<Command> },
    Struct { name: String, body: Vec<(String, AmvmType)> },
}

/// A statement as the contracts speak of it.
#[allow(inconsistent_fields)]
pub ghost enum CommandModel {
    AssignVariable { name: Seq<char>, value: ExprModel },
    Break,
    Builtin { name: Seq<char>, args: Seq<ExprModel> },
    Call { name: ExprModel, args: Seq<ExprModel> },
    Conditional { condition: ExprModel, body: Seq<CommandModel>, otherwise: Option<Seq<CommandModel>> },
    DeclareVariable { name: Seq<char>, kind: VariableKind, value: ExprModel },
    For { var: Seq<char>, iterator: ExprModel, body: Seq<CommandModel> },
    Function { name: Seq<char>, args: Seq<ParameterModel>, ret: TypeModel, body: Seq<CommandModel> },
    Meta { pos: (u16, u16), code: Seq<char> },
    MetaFile(Seq<char>),
    Loop { body: Seq<CommandModel> },
    Push { value: ExprModel },
    Puts { value: ExprModel },
    Return { value: ExprModel },
    Scope { body: Seq<CommandModel> },
    Struct { name: Seq<char>, body: Seq<(Seq<char>, TypeModel)> },
}

/// The models of the fields of a struct declaration.
pub open spec fn members_model(fs: Seq<(String, AmvmType)>) -> Seq<(Seq<char>, TypeModel)> {
    Seq::new(fs.len(), |i: int| (fs[i].0@, type_model(fs[i].1)))
}

/// The model of a statement.
pub open spec fn command_model(c: Command) -> CommandModel
    decreases c,
{
    match c {
        Command::AssignVariable { name, value } => CommandModel::AssignVariable {
            name: name@,
            value: expr_model(value),
        },
        Command::Break => CommandModel::Break,
        Command::Builtin { name, args } => CommandModel::Builtin {
            name: name@,
            args: exprs_model(args@),
        },
        Command::Call { name, args } => CommandModel::Call {
            name: expr_model(name),
            args: exprs_model(args@),
        },
        Command::Conditional { condition, body, otherwise } => CommandModel::Conditional {
            condition: expr_model(condition),
            body: commands_model(body@),
            otherwise: match otherwise {
                Some(other) => Some(commands_model(other@)),
                None => None,
            },
        },
        Command::DeclareVariable { name, kind, value } => CommandModel::DeclareVariable {
            name: name@,
            kind,
            value: expr_model(value),
        },
        Command::For { var, iterator, body } => CommandModel::For {
            var: var@,
            iterator: expr_model(iterator),
            body: commands_model(body@),
        },
        Command::Function { name, args, ret, body } => CommandModel::Function {
            name: name@,
            args: parameters_model(args@),
            ret: type_model(ret),
            body: commands_model(body@),
        },
        Command::Meta { pos, code } => CommandModel::Meta { pos, code: code@ },
        Command::MetaFile(name) => CommandModel::MetaFile(name@),
        Command::Loop { body } => CommandModel::Loop { body: commands_model(body@) },
        Command::Push { value } => CommandModel::Push { value: expr_model(value) },
        Command::Puts { value } => CommandModel::Puts { value: expr_model(value) },
        Command::Return { value } => CommandModel::Return { value: expr_model(value) },
        Command::Scope { body } => CommandModel::Scope { body: commands_model(body@) },
        Command::Struct { name, body } => CommandModel::Struct {
            name: name@,
            body: members_model(body@),
        },
    }
}

/// The models of a list of statements.
pub open spec fn commands_model(cs: Seq<Command>) -> Seq<CommandModel>
    decreases cs,
{
    Seq::new(
        cs.len(),
        |i: int|
            if 0 <= i < cs.len() {
                command_model(cs[i])
            } else {
                CommandModel::Break
            },
    )
}

impl View for Command {
    type V = CommandModel;

    open spec fn view(&self) -> CommandModel {
        command_model(*self)
    }
}

/// Whether a parameter can be written.
pub open spec fn parameter_fits(p: ParameterModel) -> bool {
    text_fits(p.0) && type_fits(p.2)
}

/// Whether a list of parameters can be written.
pub open spec fn parameters_fit(ps: Seq<ParameterModel>) -> bool
    decreases ps,
{
    ps.len() <= 255 && forall|i: int| 0 <= i < ps.len() ==> parameter_fits(#[trigger] ps[i])
}

/// Whether a field of a struct declaration can be written.
pub open spec fn member_fits(m: (Seq<char>, TypeModel)) -> bool {
    text_fits(m.0) && type_fits(m.1)
}

/// Whether the fields of a struct declaration can be written.
pub open spec fn members_fit(ms: Seq<(Seq<char>, TypeModel)>) -> bool
    decreases ms,
{
    ms.len() <= 255 && forall|i: int| 0 <= i < ms.len() ==> member_fits(#[trigger] ms[i])
}

/// Whether a statement can be written: its expressions and types are
/// writable, no list in it has over 255 members and no name over 255 bytes.
pub open spec fn command_fits(c: CommandModel) -> bool
    decreases c,
{
    match c {
        CommandModel::AssignVariable { name, value } => text_fits(name) && expr_fits(value),
        CommandModel::Break => true,
        CommandModel::Builtin { name, args } => text_fits(name) && exprs_fit(args),
        CommandModel::Call { name, args } => expr_fits(name) && exprs_fit(args),
        CommandModel::Conditional { condition, body, otherwise } => expr_fits(condition)
            && commands_fit(body) && match otherwise {
            Some(other) => commands_fit(other),
            None => true,
        },
        CommandModel::DeclareVariable { name, kind, value } => text_fits(name) && expr_fits(value),
        CommandModel::For { var, iterator, body } => text_fits(var) && expr_fits(iterator)
            && commands_fit(body),
        CommandModel::Function { name, args, ret, body } => text_fits(name) && parameters_fit(args)
            && type_fits(ret) && commands_fit(body),
        CommandModel::Meta { pos, code } => text_fits(code),
        CommandModel::MetaFile(name) => text_fits(name),
        CommandModel::Loop { body } => commands_fit(body),
        CommandModel::Push { value } => expr_fits(value),
        CommandModel::Puts { value } => expr_fits(value),
        CommandModel::Return { value } => expr_fits(value),
        CommandModel::Scope { body } => commands_fit(body),
        CommandModel::Struct { name, body } => text_fits(name) && members_fit(body),
    }
}

/// Whether a counted list of statements can be written.
pub open spec fn commands_fit(cs: Seq<CommandModel>) -> bool
    decreases cs,
{
    cs.len() <= 255 && forall|i: int| 0 <= i < cs.len() ==> command_fits(#[trigger] cs[i])
}

/// Whether every statement of a list can be written.
pub open spec fn each_command_fits(cs: Seq<CommandModel>) -> bool {
    forall|i: int| 0 <= i < cs.len() ==> command_fits(#[trigger] cs[i])
}

/// The bytes of a parameter: its name, its kind, its type.
pub open spec fn wire_parameter(p: ParameterModel) -> Seq<u8> {
    wire_text(p.0) + seq![p.1.wire_byte()] + wire_type(p.2)
}

/// The bytes of some parameters, one behind the other.
pub open spec fn wire_parameters(ps: Seq<ParameterModel>) -> Seq<u8>
    decreases ps,
{
    if ps.len() == 0 {
        Seq::<u8>::empty()
    } else {
        wire_parameter(ps[0]) + wire_parameters(ps.drop_first())
    }
}

/// The bytes of a field of a struct declaration: its name, its type.
pub open spec fn wire_member(m: (Seq<char>, TypeModel)) -> Seq<u8> {
    wire_text(m.0) + wire_type(m.1)
}

/// The bytes of some fields, one behind the other.
pub open spec fn wire_members(ms: Seq<(Seq<char>, TypeModel)>) -> Seq<u8>
    decreases ms,
{
    if ms.len() == 0 {
        Seq::<u8>::empty()
    } else {
        wire_member(ms[0]) + wire_members(ms.drop_first())
    }
}

/// The bytes of the second branch of a conditional: the mark that there is
/// none, or the mark that one follows and its counted list, which may be
/// empty.
pub open spec fn wire_otherwise(o: Option<Seq<CommandModel>>) -> Seq<u8>
    decreases o, 3nat,
{
    match o {
        Some(other) => seq![HAS_BRANCH] + wire_command_list(other),
        None => seq![NO_BRANCH],
    }
}

/// The bytes of a statement.
pub open spec fn wire_command(c: CommandModel) -> Seq<u8>
    decreases c, 0nat,
{
    match c {
        CommandModel::AssignVariable { name, value } => seq![CMD_ASGN_VAR] + wire_text(name)
            + wire_expr(value),
        CommandModel::Break => seq![CMD_BREAK],
        CommandModel::Builtin { name, args } => seq![CMD_BUILTIN] + wire_text(name)
            + wire_expr_list(args),
        CommandModel::Call { name, args } => seq![CMD_CALL] + wire_expr(name) + wire_expr_list(args),
        CommandModel::Conditional { condition, body, otherwise } => seq![CMD_COND] + wire_expr(
            condition,
        ) + wire_command_list(body) + wire_otherwise(otherwise),
        CommandModel::DeclareVariable { name, kind, value } => seq![CMD_DCLR_VAR, kind.wire_byte()]
            + wire_text(name) + wire_expr(value),
        CommandModel::For { var, iterator, body } => seq![CMD_FOR] + wire_text(var) + wire_expr(
            iterator,
        ) + wire_command_list(body),
        CommandModel::Function { name, args, ret, body } => seq![CMD_FN] + wire_text(name)
            + seq![args.len() as u8] + wire_parameters(args) + wire_type(ret) + wire_command_list(
            body,
        ),
        CommandModel::Meta { pos, code } => seq![CMD_META] + wire_u16(pos.0) + wire_u16(pos.1)
            + wire_text(code),
        CommandModel::MetaFile(name) => seq![CMD_META_FILE] + wire_text(name),
        CommandModel::Loop { body } => seq![CMD_LOOP] + wire_command_list(body),
        CommandModel::Push { value } => seq![CMD_PUSH] + wire_expr(value),
        CommandModel::Puts { value } => seq![CMD_PUTS] + wire_expr(value),
        CommandModel::Return { value } => seq![CMD_RET] + wire_expr(value),
        CommandModel::Scope { body } => seq![CMD_SCOPE] + wire_command_list(body),
        CommandModel::Struct { name, body } => seq![CMD_STRUCT] + wire_text(name)
            + seq![body.len() as u8] + wire_members(body),
    }
}

/// The bytes of a list of statements: their number, then each in turn.
pub open spec fn wire_command_list(cs: Seq<CommandModel>) -> Seq<u8>
    decreases cs, 2nat,
{
    seq![cs.len() as u8] + wire_commands(cs)
}

/// The bytes of some statements, one behind the other.
pub open spec fn wire_commands(cs: Seq<CommandModel>) -> Seq<u8>
    decreases cs, 1nat,
{
    if cs.len() == 0 {
        Seq::<u8>::empty()
    } else {
        wire_command(cs[0]) + wire_commands(cs.drop_first())
    }
}

/// Reads a parameter at `pos`.
pub open spec fn read_parameter(s: Seq<u8>, pos: int) -> Parsed<ParameterModel> {
    match read_text(s, pos) {
        Err(e) => Err(e),
        Ok((name, p1)) => match read_kind(s, p1) {
            Err(e) => Err(e),
            Ok((kind, p2)) => match read_type(s, p2) {
                Err(e) => Err(e),
                Ok((t, p3)) => Ok(((name, kind, t), p3)),
            },
        },
    }
}

/// Reads `n` parameters at `pos`, behind those in `acc`.
pub open spec fn read_parameters(s: Seq<u8>, pos: int, n: nat, acc: Seq<ParameterModel>) -> Parsed<
    Seq<ParameterModel>,
>
    decreases n,
{
    if n == 0 {
        Ok((acc, pos))
    } else {
        match read_parameter(s, pos) {
            Err(e) => Err(e),
            Ok((p, p1)) => read_parameters(s, p1, (n - 1) as nat, acc.push(p)),
        }
    }
}

/// Reads a counted list of parameters at `pos`.
pub open spec fn read_parameter_list(s: Seq<u8>, pos: int) -> Parsed<Seq<ParameterModel>> {
    match read_byte(s, pos) {
        Err(e) => Err(e),
        Ok((n, p1)) => read_parameters(s, p1, n as nat, Seq::<ParameterModel>::empty()),
    }
}

/// Reads a field of a struct declaration at `pos`.
pub open spec fn read_member(s: Seq<u8>, pos: int) -> Parsed<(Seq<char>, TypeModel)> {
    match read_text(s, pos) {
        Err(e) => Err(e),
        Ok((name, p1)) => match read_type(s, p1) {
            Err(e) => Err(e),
            Ok((t, p2)) => Ok(((name, t), p2)),
        },
    }
}

/// Reads `n` fields at `pos`, behind those in `acc`.
pub open spec fn read_members(
    s: Seq<u8>,
    pos: int,
    n: nat,
    acc: Seq<(Seq<char>, TypeModel)>,
) -> Parsed<Seq<(Seq<char>, TypeModel)>>
    decreases n,
{
    if n == 0 {
        Ok((acc, pos))
    } else {
        match read_member(s, pos) {
            Err(e) => Err(e),
            Ok((m, p1)) => read_members(s, p1, (n - 1) as nat, acc.push(m)),
        }
    }
}

/// Reads a counted list of fields at `pos`.
pub open spec fn read_member_list(s: Seq<u8>, pos: int) -> Parsed<Seq<(Seq<char>, TypeModel)>> {
    match read_byte(s, pos) {
        Err(e) => Err(e),
        Ok((n, p1)) => read_members(s, p1, n as nat, Seq::<(Seq<char>, TypeModel)>::empty()),
    }
}

/// Reads a name and then an expression at `pos`.
pub open spec fn read_named_expr(s: Seq<u8>, pos: int) -> Parsed<(Seq<char>, ExprModel)> {
    match read_text(s, pos) {
        Err(e) => Err(e),
        Ok((name, p1)) => match read_expr(s, p1) {
            Err(e) => Err(e),
            Ok((value, p2)) => Ok(((name, value), p2)),
        },
    }
}

/// Reads an assignment behind its tag.
pub open spec fn read_asgn(s: Seq<u8>, pos: int) -> Parsed<CommandModel> {
    match read_named_expr(s, pos) {
        Err(e) => Err(e),
        Ok((nv, p1)) => Ok((CommandModel::AssignVariable { name: nv.0, value: nv.1 }, p1)),
    }
}

/// Reads a declaration behind its tag.
pub open spec fn read_declare(s: Seq<u8>, pos: int) -> Parsed<CommandModel> {
    match read_kind(s, pos) {
        Err(e) => Err(e),
        Ok((kind, p1)) => match read_named_expr(s, p1) {
            Err(e) => Err(e),
            Ok((nv, p2)) => Ok((CommandModel::DeclareVariable { name: nv.0, kind, value: nv.1 }, p2)),
        },
    }
}

/// Reads a builtin call behind its tag.
pub open spec fn read_builtin(s: Seq<u8>, pos: int) -> Parsed<CommandModel> {
    match read_text(s, pos) {
        Err(e) => Err(e),
        Ok((name, p1)) => match read_expr_list(s, p1) {
            Err(e) => Err(e),
            Ok((args, p2)) => Ok((CommandModel::Builtin { name, args }, p2)),
        },
    }
}

/// Reads a function call behind its tag.
pub open spec fn read_call(s: Seq<u8>, pos: int) -> Parsed<CommandModel> {
    match read_expr(s, pos) {
        Err(e) => Err(e),
        Ok((name, p1)) => match read_expr_list(s, p1) {
            Err(e) => Err(e),
            Ok((args, p2)) => Ok((CommandModel::Call { name, args }, p2)),
        },
    }
}

/// Reads a source position behind its tag.
pub open spec fn read_meta(s: Seq<u8>, pos: int) -> Parsed<CommandModel> {
    match read_u16(s, pos) {
        Err(e) => Err(e),
        Ok((line, p1)) => match read_u16(s, p1) {
            Err(e) => Err(e),
            Ok((col, p2)) => match read_text(s, p2) {
                Err(e) => Err(e),
                Ok((code, p3)) => Ok((CommandModel::Meta { pos: (line, col), code }, p3)),
            },
        },
    }
}

/// Reads a struct declaration behind its tag.
pub open spec fn read_struct(s: Seq<u8>, pos: int) -> Parsed<CommandModel> {
    match read_text(s, pos) {
        Err(e) => Err(e),
        Ok((name, p1)) => match read_member_list(s, p1) {
            Err(e) => Err(e),
            Ok((body, p2)) => Ok((CommandModel::Struct { name, body }, p2)),
        },
    }
}

/// Reads the head of a function definition behind its tag: name, parameters,
/// return type.
pub open spec fn read_function_head(s: Seq<u8>, pos: int) -> Parsed<
    (Seq<char>, Seq<ParameterModel>, TypeModel),
> {
    match read_text(s, pos) {
        Err(e) => Err(e),
        Ok((name, p1)) => match read_parameter_list(s, p1) {
            Err(e) => Err(e),
            Ok((args, p2)) => match read_type(s, p2) {
                Err(e) => Err(e),
                Ok((ret, p3)) => Ok(((name, args, ret), p3)),
            },
        },
    }
}

/// Reads the second branch of a conditional behind its body: the mark that
/// there is none, or the mark that one follows and then a counted list of
/// statements. Any other byte in the mark's place is a fault.
pub open spec fn read_otherwise(s: Seq<u8>, pos: int) -> Parsed<Option<Seq<CommandModel>>>
    decreases s.len() - pos, 3nat, 0nat,
{
    if !(0 <= pos < s.len()) {
        fail(DecodeFault::UnexpectedEnd, pos)
    } else if s[pos] == NO_BRANCH {
        Ok((None, pos + 1))
    } else if s[pos] == HAS_BRANCH {
        match read_command_list(s, pos + 1) {
            Err(e) => Err(e),
            Ok((other, p1)) => Ok((Some(other), p1)),
        }
    } else {
        fail(DecodeFault::UnknownBranchMark, pos)
    }
}

/// Reads a conditional behind its tag.
pub open spec fn read_conditional(s: Seq<u8>, pos: int) -> Parsed<CommandModel>
    decreases s.len() - pos, 4nat, 0nat,
{
    match read_expr(s, pos) {
        Err(e) => Err(e),
        Ok((condition, p1)) => if pos < p1 <= s.len() {
            match read_command_list(s, p1) {
                Err(e) => Err(e),
                Ok((body, p2)) => if pos < p2 <= s.len() {
                    match read_otherwise(s, p2) {
                        Err(e) => Err(e),
                        Ok((otherwise, p3)) => Ok(
                            (CommandModel::Conditional { condition, body, otherwise }, p3),
                        ),
                    }
                } else {
                    fail(DecodeFault::UnexpectedEnd, pos)
                },
            }
        } else {
            fail(DecodeFault::UnexpectedEnd, pos)
        },
    }
}

/// Reads a function definition behind its tag.
pub open spec fn read_function(s: Seq<u8>, pos: int) -> Parsed<CommandModel>
    decreases s.len() - pos, 4nat, 0nat,
{
    match read_function_head(s, pos) {
        Err(e) => Err(e),
        Ok((head, p1)) => if pos < p1 <= s.len() {
            match read_command_list(s, p1) {
                Err(e) => Err(e),
                Ok((body, p2)) => Ok(
                    (CommandModel::Function { name: head.0, args: head.1, ret: head.2, body }, p2),
                ),
            }
        } else {
            fail(DecodeFault::UnexpectedEnd, pos)
        },
    }
}

/// Reads a `for` loop behind its tag.
pub open spec fn read_for(s: Seq<u8>, pos: int) -> Parsed<CommandModel>
    decreases s.len() - pos, 4nat, 0nat,
{
    match read_named_expr(s, pos) {
        Err(e) => Err(e),
        Ok((nv, p1)) => if pos < p1 <= s.len() {
            match read_command_list(s, p1) {
                Err(e) => Err(e),
                Ok((body, p2)) => Ok((CommandModel::For { var: nv.0, iterator: nv.1, body }, p2)),
            }
        } else {
            fail(DecodeFault::UnexpectedEnd, pos)
        },
    }
}

/// Reads a loop behind its tag.
pub open spec fn read_loop(s: Seq<u8>, pos: int) -> Parsed<CommandModel>
    decreases s.len() - pos, 4nat, 0nat,
{
    match read_command_list(s, pos) {
        Err(e) => Err(e),
        Ok((body, p1)) => Ok((CommandModel::Loop { body }, p1)),
    }
}

/// Reads a block behind its tag.
pub open spec fn read_block(s: Seq<u8>, pos: int) -> Parsed<CommandModel>
    decreases s.len() - pos, 4nat, 0nat,
{
    match read_command_list(s, pos) {
        Err(e) => Err(e),
        Ok((body, p1)) => Ok((CommandModel::Scope { body }, p1)),
    }
}

/// Reads a push behind its tag.
pub open spec fn read_push(s: Seq<u8>, pos: int) -> Parsed<CommandModel> {
    match read_expr(s, pos) {
        Err(e) => Err(e),
        Ok((value, p1)) => Ok((CommandModel::Push { value }, p1)),
    }
}

/// Reads an output behind its tag.
pub open spec fn read_puts(s: Seq<u8>, pos: int) -> Parsed<CommandModel> {
    match read_expr(s, pos) {
        Err(e) => Err(e),
        Ok((value, p1)) => Ok((CommandModel::Puts { value }, p1)),
    }
}

/// Reads a return behind its tag.
pub open spec fn read_return(s: Seq<u8>, pos: int) -> Parsed<CommandModel> {
    match read_expr(s, pos) {
        Err(e) => Err(e),
        Ok((value, p1)) => Ok((CommandModel::Return { value }, p1)),
    }
}

/// Reads a source file name behind its tag.
pub open spec fn read_meta_file(s: Seq<u8>, pos: int) -> Parsed<CommandModel> {
    match read_text(s, pos) {
        Err(e) => Err(e),
        Ok((name, p1)) => Ok((CommandModel::MetaFile(name), p1)),
    }
}

/// Reads a statement at `pos`.
pub open spec fn read_command(s: Seq<u8>, pos: int) -> Parsed<CommandModel>
    decreases s.len() - pos, 0nat, 0nat,
{
    if !(0 <= pos < s.len()) {
        fail(DecodeFault::UnexpectedEnd, pos)
    } else if s[pos] == CMD_ASGN_VAR {
        read_asgn(s, pos + 1)
    } else if s[pos] == CMD_BREAK {
        Ok((CommandModel::Break, pos + 1))
    } else if s[pos] == CMD_BUILTIN {
        read_builtin(s, pos + 1)
    } else if s[pos] == CMD_CALL {
        read_call(s, pos + 1)
    } else if s[pos] == CMD_COND {
        read_conditional(s, pos + 1)
    } else if s[pos] == CMD_DCLR_VAR {
        read_declare(s, pos + 1)
    } else if s[pos] == CMD_FN {
        read_function(s, pos + 1)
    } else if s[pos] == CMD_FOR {
        read_for(s, pos + 1)
    } else if s[pos] == CMD_META {
        read_meta(s, pos + 1)
    } else if s[pos] == CMD_META_FILE {
        read_meta_file(s, pos + 1)
    } else if s[pos] == CMD_LOOP {
        read_loop(s, pos + 1)
    } else if s[pos] == CMD_PUSH {
        read_push(s, pos + 1)
    } else if s[pos] == CMD_PUTS {
        read_puts(s, pos + 1)
    } else if s[pos] == CMD_RET {
        read_return(s, pos + 1)
    } else if s[pos] == CMD_SCOPE {
        read_block(s, pos + 1)
    } else if s[pos] == CMD_STRUCT {
        read_struct(s, pos + 1)
    } else {
        fail(DecodeFault::UnknownCommandKind, pos)
    }
}

/// Reads a counted list of statements at `pos`.
pub open spec fn read_command_list(s: Seq<u8>, pos: int) -> Parsed<Seq<CommandModel>>
    decreases s.len() - pos, 2nat, 0nat,
{
    if !(0 <= pos < s.len()) {
        fail(DecodeFault::UnexpectedEnd, pos)
    } else {
        read_commands(s, pos + 1, s[pos] as nat, Seq::<CommandModel>::empty())
    }
}

/// Reads `n` statements at `pos`, behind those in `acc`.
pub open spec fn read_commands(s: Seq<u8>, pos: int, n: nat, acc: Seq<CommandModel>) -> Parsed<
    Seq<CommandModel>,
>
    decreases s.len() - pos, 1nat, n,
{
    if n == 0 {
        Ok((acc, pos))
    } else {
        match read_command(s, pos) {
            Err(e) => Err(e),
            Ok((c, p1)) => if pos < p1 <= s.len() {
                read_commands(s, p1, (n - 1) as nat, acc.push(c))
            } else {
                fail(DecodeFault::UnexpectedEnd, pos)
            },
        }
    }
}

/// The model of the branch behind the body of a conditional.
pub open spec fn otherwise_model(o: Option<Vec<Command>>) -> Option<Seq<CommandModel>> {
    match o {
        Some(other) => Some(commands_model(other@)),
        None => None,
    }
}

impl Command {
    /// Reads a variable kind.
    pub fn visit_kind<'a>(parser: Parser<'a>) -> (r: Result<(Parser<'a>, VariableKind), DecodeError>)
        ensures
            agrees_plain(r, read_kind(parser.bytes@, parser.pointer as int), parser),
    {
        VariableKind::visit(parser)
    }

    /// Reads a name and then an expression.
    fn visit_named_expr<'a>(parser: Parser<'a>) -> (r: Result<
        (Parser<'a>, (String, CommandExpression)),
        DecodeError,
    >)
        ensures
            agrees_as(
                r,
                read_named_expr(parser.bytes@, parser.pointer as int),
                parser,
                |nv: (String, CommandExpression)| (nv.0@, nv.1@),
            ),
    {
        let (p1, name) = visit_text(parser)?;
        let (p2, value) = CommandExpression::visit(p1)?;
        Ok((parser.at(p2.pointer), (name, value)))
    }

    /// Reads an assignment behind its tag.
    pub fn visit_asgn<'a>(parser: Parser<'a>) -> (r: Result<(Parser<'a>, Command), DecodeError>)
        ensures
            agrees(r, read_asgn(parser.bytes@, parser.pointer as int), parser),
    {
        let (p1, nv) = Command::visit_named_expr(parser)?;
        Ok((p1, Command::AssignVariable { name: nv.0, value: nv.1 }))
    }

    /// Reads a declaration behind its tag.
    pub fn visit_var<'a>(parser: Parser<'a>) -> (r: Result<(Parser<'a>, Command), DecodeError>)
        ensures
            agrees(r, read_declare(parser.bytes@, parser.pointer as int), parser),
    {
        let (p1, kind) = Command::visit_kind(parser)?;
        let (p2, nv) = Command::visit_named_expr(p1)?;
        Ok((parser.at(p2.pointer), Command::DeclareVariable { name: nv.0, kind, value: nv.1 }))
    }

    /// Reads a builtin call behind its tag.
    fn visit_builtin<'a>(parser: Parser<'a>) -> (r: Result<(Parser<'a>, Command), DecodeError>)
        ensures
            agrees(r, read_builtin(parser.bytes@, parser.pointer as int), parser),
    {
        let (p1, name) = visit_text(parser)?;
        let (p2, args) = CommandExpression::visit_list(p1)?;
        Ok((parser.at(p2.pointer), Command::Builtin { name, args }))
    }

    /// Reads a function call behind its tag.
    fn visit_call<'a>(parser: Parser<'a>) -> (r: Result<(Parser<'a>, Command), DecodeError>)
        ensures
            agrees(r, read_call(parser.bytes@, parser.pointer as int), parser),
    {
        let (p1, name) = CommandExpression::visit(parser)?;
        let (p2, args) = CommandExpression::visit_list(p1)?;
        Ok((parser.at(p2.pointer), Command::Call { name, args }))
    }

    /// Reads a source position behind its tag.
    fn visit_meta<'a>(parser: Parser<'a>) -> (r: Result<(Parser<'a>, Command), DecodeError>)
        ensures
            agrees(r, read_meta(parser.bytes@, parser.pointer as int), parser),
    {
        let (p1, line) = Value::visit_u16(parser)?;
        let (p2, col) = Value::visit_u16(p1)?;
        let (p3, code) = visit_text(p2)?;
        Ok((parser.at(p3.pointer), Command::Meta { pos: (line, col), code }))
    }

    /// Reads a parameter.
    fn visit_parameter<'a>(parser: Parser<'a>) -> (r: Result<(Parser<'a>, Parameter), DecodeError>)
        ensures
            agrees_as(
                r,
                read_parameter(parser.bytes@, parser.pointer as int),
                parser,
                |p: Parameter| (p.0@, p.1, p.2@),
            ),
    {
        let (p1, name) = visit_text(parser)?;
        let (p2, kind) = Command::visit_kind(p1)?;
        let (p3, t) = AmvmType::visit(p2)?;
        Ok((parser.at(p3.pointer), (name, kind, t)))
    }

    /// Reads a counted list of parameters.
    #[verifier::loop_isolation(false)]
    fn visit_parameters<'a>(parser: Parser<'a>) -> (r: Result<
        (Parser<'a>, Vec<Parameter>),
        DecodeError,
    >)
        ensures
            agrees_as(
                r,
                read_parameter_list(parser.bytes@, parser.pointer as int),
                parser,
                |v: Vec<Parameter>| parameters_model(v@),
            ),
    {
        let (first, n) = parser.take_byte()?;
        let ghost s = parser.bytes@;
        let mut out: Vec<Parameter> = Vec::new();
        let mut cur = first;
        let mut i: u8 = 0;
        assert(parameters_model(out@) =~= Seq::<ParameterModel>::empty());
        while i < n
            invariant
                i <= n,
                cur == parser.spec_at(cur.pointer as int),
                parser.pointer < cur.pointer <= s.len(),
                read_parameter_list(s, parser.pointer as int) == read_parameters(
                    s,
                    cur.pointer as int,
                    (n - i) as nat,
                    parameters_model(out@),
                ),
            decreases n - i,
        {
            let (p1, item) = Command::visit_parameter(cur)?;
            let ghost before = out@;
            let ghost m = (item.0@, item.1, item.2@);
            out.push(item);
            assert(parameters_model(out@) =~= parameters_model(before).push(m));
            cur = parser.at(p1.pointer);
            i = i + 1;
        }
        Ok((cur, out))
    }

    /// Reads a field of a struct declaration.
    fn visit_member<'a>(parser: Parser<'a>) -> (r: Result<
        (Parser<'a>, (String, AmvmType)),
        DecodeError,
    >)
        ensures
            agrees_as(
                r,
                read_member(parser.bytes@, parser.pointer as int),
                parser,
                |m: (String, AmvmType)| (m.0@, m.1@),
            ),
    {
        let (p1, name) = visit_text(parser)?;
        let (p2, t) = AmvmType::visit(p1)?;
        Ok((parser.at(p2.pointer), (name, t)))
    }

    /// Reads a counted list of fields.
    #[verifier::loop_isolation(false)]
    fn visit_members<'a>(parser: Parser<'a>) -> (r: Result<
        (Parser<'a>, Vec<(String, AmvmType)>),
        DecodeError,
    >)
        ensures
            agrees_as(
                r,
                read_member_list(parser.bytes@, parser.pointer as int),
                parser,
                |v: Vec<(String, AmvmType)>| members_model(v@),
            ),
    {
        let (first, n) = parser.take_byte()?;
        let ghost s = parser.bytes@;
        let mut out: Vec<(String, AmvmType)> = Vec::new();
        let mut cur = first;
        let mut i: u8 = 0;
        assert(members_model(out@) =~= Seq::<(Seq<char>, TypeModel)>::empty());
        while i < n
            invariant
                i <= n,
                cur == parser.spec_at(cur.pointer as int),
                parser.pointer < cur.pointer <= s.len(),
                read_member_list(s, parser.pointer as int) == read_members(
                    s,
                    cur.pointer as int,
                    (n - i) as nat,
                    members_model(out@),
                ),
            decreases n - i,
        {
            let (p1, item) = Command::visit_member(cur)?;
            let ghost before = out@;
            let ghost m = (item.0@, item.1@);
            out.push(item);
            assert(members_model(out@) =~= members_model(before).push(m));
            cur = parser.at(p1.pointer);
            i = i + 1;
        }
        Ok((cur, out))
    }

    /// Reads a struct declaration behind its tag.
    fn visit_struct<'a>(parser: Parser<'a>) -> (r: Result<(Parser<'a>, Command), DecodeError>)
        ensures
            agrees(r, read_struct(parser.bytes@, parser.pointer as int), parser),
    {
        let (p1, name) = visit_text(parser)?;
        let (p2, body) = Command::visit_members(p1)?;
        Ok((parser.at(p2.pointer), Command::Struct { name, body }))
    }

    /// Reads the head of a function definition behind its tag.
    fn visit_function_head<'a>(parser: Parser<'a>) -> (r: Result<
        (Parser<'a>, (String, Vec<Parameter>, AmvmType)),
        DecodeError,
    >)
        ensures
            agrees_as(
                r,
                read_function_head(parser.bytes@, parser.pointer as int),
                parser,
                |h: (String, Vec<Parameter>, AmvmType)| (h.0@, parameters_model(h.1@), h.2@),
            ),
    {
        let (p1, name) = visit_text(parser)?;
        let (p2, args) = Command::visit_parameters(p1)?;
        let (p3, ret) = AmvmType::visit(p2)?;
        Ok((parser.at(p3.pointer), (name, args, ret)))
    }

    /// Reads the branch behind the body of a conditional.
    fn visit_otherwise<'a>(parser: Parser<'a>) -> (r: Result<
        (Parser<'a>, Option<Vec<Command>>),
        DecodeError,
    >)
        ensures
            agrees_as(
                r,
                read_otherwise(parser.bytes@, parser.pointer as int),
                parser,
                |o: Option<Vec<Command>>| otherwise_model(o),
            ),
        decreases parser.bytes@.len() - parser.pointer, 3nat,
    {
        let (next, mark) = parser.take_byte()?;
        if mark == NO_BRANCH {
            Ok((next, None))
        } else if mark == HAS_BRANCH {
            let (p1, other) = Command::visit_scope(next)?;
            Ok((parser.at(p1.pointer), Some(other)))
        } else {
            Err(DecodeError { fault: DecodeFault::UnknownBranchMark, at: parser.pointer })
        }
    }

    /// Reads a counted list of statements.
    #[verifier::loop_isolation(false)]
    pub fn visit_scope<'a>(parser: Parser<'a>) -> (r: Result<(Parser<'a>, Vec<Command>), DecodeError>)
        ensures
            agrees_as(
                r,
                read_command_list(parser.bytes@, parser.pointer as int),
                parser,
                |v: Vec<Command>| commands_model(v@),
            ),
        decreases parser.bytes@.len() - parser.pointer, 2nat,
    {
        let (first, n) = parser.take_byte()?;
        let ghost s = parser.bytes@;
        let mut out: Vec<Command> = Vec::new();
        let mut cur = first;
        let mut i: u8 = 0;
        assert(commands_model(out@) =~= Seq::<CommandModel>::empty());
        while i < n
            invariant
                i <= n,
                cur == parser.spec_at(cur.pointer as int),
                parser.pointer < cur.pointer <= s.len(),
                read_command_list(s, parser.pointer as int) == read_commands(
                    s,
                    cur.pointer as int,
                    (n - i) as nat,
                    commands_model(out@),
                ),
            decreases n - i,
        {
            let (p1, c) = Command::visit(cur)?;
            let ghost before = out@;
            let ghost m = c@;
            out.push(c);
            assert(commands_model(out@) =~= commands_model(before).push(m));
            cur = parser.at(p1.pointer);
            i = i + 1;
        }
        Ok((cur, out))
    }

    /// Reads a conditional behind its tag.
    fn visit_conditional<'a>(parser: Parser<'a>) -> (r: Result<(Parser<'a>, Command), DecodeError>)
        ensures
            agrees(r, read_conditional(parser.bytes@, parser.pointer as int), parser),
        decreases parser.bytes@.len() - parser.pointer, 4nat,
    {
        let (p1, condition) = CommandExpression::visit(parser)?;
        let (p2, body) = Command::visit_scope(p1)?;
        let (p3, otherwise) = Command::visit_otherwise(p2)?;
        Ok((parser.at(p3.pointer), Command::Conditional { condition, body, otherwise }))
    }

    /// Reads a function definition behind its tag.
    fn visit_function<'a>(parser: Parser<'a>) -> (r: Result<(Parser<'a>, Command), DecodeError>)
        ensures
            agrees(r, read_function(parser.bytes@, parser.pointer as int), parser),
        decreases parser.bytes@.len() - parser.pointer, 4nat,
    {
        let (p1, head) = Command::visit_function_head(parser)?;
        let (p2, body) = Command::visit_scope(p1)?;
        Ok((parser.at(p2.pointer), Command::Function { name: head.0, args: head.1, ret: head.2, body }))
    }

    /// Reads a `for` loop behind its tag.
    fn visit_for<'a>(parser: Parser<'a>) -> (r: Result<(Parser<'a>, Command), DecodeError>)
        ensures
            agrees(r, read_for(parser.bytes@, parser.pointer as int), parser),
        decreases parser.bytes@.len() - parser.pointer, 4nat,
    {
        let (p1, nv) = Command::visit_named_expr(parser)?;
        let (p2, body) = Command::visit_scope(p1)?;
        Ok((parser.at(p2.pointer), Command::For { var: nv.0, iterator: nv.1, body }))
    }

    /// Reads a loop behind its tag.
    fn visit_loop<'a>(parser: Parser<'a>) -> (r: Result<(Parser<'a>, Command), DecodeError>)
        ensures
            agrees(r, read_loop(parser.bytes@, parser.pointer as int), parser),
        decreases parser.bytes@.len() - parser.pointer, 4nat,
    {
        let (p1, body) = Command::visit_scope(parser)?;
        Ok((p1, Command::Loop { body }))
    }

    /// Reads a block behind its tag.
    fn visit_block<'a>(parser: Parser<'a>) -> (r: Result<(Parser<'a>, Command), DecodeError>)
        ensures
            agrees(r, read_block(parser.bytes@, parser.pointer as int), parser),
        decreases parser.bytes@.len() - parser.pointer, 4nat,
    {
        let (p1, body) = Command::visit_scope(parser)?;
        Ok((p1, Command::Scope { body }))
    }

    /// Reads a push behind its tag.
    fn visit_push<'a>(parser: Parser<'a>) -> (r: Result<(Parser<'a>, Command), DecodeError>)
        ensures
            agrees(r, read_push(parser.bytes@, parser.pointer as int), parser),
    {
        let (p1, value) = CommandExpression::visit(parser)?;
        Ok((p1, Command::Push { value }))
    }

    /// Reads an output behind its tag.
    fn visit_puts<'a>(parser: Parser<'a>) -> (r: Result<(Parser<'a>, Command), DecodeError>)
        ensures
            agrees(r, read_puts(parser.bytes@, parser.pointer as int), parser),
    {
        let (p1, value) = CommandExpression::visit(parser)?;
        Ok((p1, Command::Puts { value }))
    }

    /// Reads a return behind its tag.
    fn visit_return<'a>(parser: Parser<'a>) -> (r: Result<(Parser<'a>, Command), DecodeError>)
        ensures
            agrees(r, read_return(parser.bytes@, parser.pointer as int), parser),
    {
        let (p1, value) = CommandExpression::visit(parser)?;
        Ok((p1, Command::Return { value }))
    }

    /// Reads a source file name behind its tag.
    fn visit_meta_file<'a>(parser: Parser<'a>) -> (r: Result<(Parser<'a>, Command), DecodeError>)
        ensures
            agrees(r, read_meta_file(parser.bytes@, parser.pointer as int), parser),
    {
        let (p1, name) = visit_text(parser)?;
        Ok((p1, Command::MetaFile(name)))
    }

    /// Reads a statement.
    pub fn visit<'a>(parser: Parser<'a>) -> (r: Result<(Parser<'a>, Command), DecodeError>)
        ensures
            agrees(r, read_command(parser.bytes@, parser.pointer as int), parser),
        decreases parser.bytes@.len() - parser.pointer, 6nat,
    {
        let (next, tag) = parser.take_byte()?;
        let (p1, c) = if tag == CMD_ASGN_VAR {
            Command::visit_asgn(next)?
        } else if tag == CMD_BREAK {
            (next, Command::Break)
        } else if tag == CMD_BUILTIN {
            Command::visit_builtin(next)?
        } else if tag == CMD_CALL {
            Command::visit_call(next)?
        } else if tag == CMD_COND {
            Command::visit_conditional(next)?
        } else if tag == CMD_DCLR_VAR {
            Command::visit_var(next)?
        } else if tag == CMD_FN {
            Command::visit_function(next)?
        } else if tag == CMD_FOR {
            Command::visit_for(next)?
        } else if tag == CMD_META {
            Command::visit_meta(next)?
        } else if tag == CMD_META_FILE {
            Command::visit_meta_file(next)?
        } else if tag == CMD_LOOP {
            Command::visit_loop(next)?
        } else if tag == CMD_PUSH {
            Command::visit_push(next)?
        } else if tag == CMD_PUTS {
            Command::visit_puts(next)?
        } else if tag == CMD_RET {
            Command::visit_return(next)?
        } else if tag == CMD_SCOPE {
            Command::visit_block(next)?
        } else if tag == CMD_STRUCT {
            Command::visit_struct(next)?
        } else {
            return Err(DecodeError { fault: DecodeFault::UnknownCommandKind, at: parser.pointer });
        };
        Ok((parser.at(p1.pointer), c))
    }
}

impl Command {
    /// Appends a counted list of parameters to `buffer`.
    #[verifier::loop_isolation(false)]
    fn compile_parameters(list: &Vec<Parameter>, buffer: Vec<u8>) -> (r: CompileResult)
        ensures
            compiled(
                r,
                buffer@,
                if parameters_fit(parameters_model(list@)) {
                    Some(seq![list@.len() as u8] + wire_parameters(parameters_model(list@)))
                } else {
                    None
                },
            ),
    {
        if list.len() > 255 {
            return Err(());
        }
        let ghost ms = parameters_model(list@);
        let mut out = buffer;
        out.push(list.len() as u8);
        let mut i: usize = 0;
        assert(ms.skip(0) =~= ms);
        assert(out@ =~= buffer@ + seq![ms.len() as u8]);
        while i < list.len()
            invariant
                i <= list.len(),
                forall|j: int| 0 <= j < i ==> parameter_fits(#[trigger] ms[j]),
                buffer@ + (seq![list@.len() as u8] + wire_parameters(ms)) == out@ + wire_parameters(
                    ms.skip(i as int),
                ),
            decreases list.len() - i,
        {
            proof {
                let rest = ms.skip(i as int);
                assert(rest.drop_first() =~= ms.skip(i + 1));
                assert(rest[0] == ms[i as int]);
                assert(out@ + wire_parameters(rest) =~= out@ + wire_text(ms[i as int].0)
                    + seq![ms[i as int].1.wire_byte()] + wire_type(ms[i as int].2) + wire_parameters(
                    ms.skip(i + 1),
                ));
            }
            let item = &list[i];
            out = match compile_text(out, item.0.as_str()) {
                Ok(b) => b,
                Err(e) => {
                    assert(!parameter_fits(ms[i as int]));
                    return Err(e);
                },
            };
            out = match item.1.compile_bytecode(out) {
                Ok(b) => b,
                Err(e) => {
                    return Err(e);
                },
            };
            out = match item.2.compile_bytecode(out) {
                Ok(b) => b,
                Err(e) => {
                    assert(!parameter_fits(ms[i as int]));
                    return Err(e);
                },
            };
            i += 1;
        }
        assert(ms.skip(ms.len() as int) =~= Seq::<ParameterModel>::empty());
        assert(out@ + Seq::<u8>::empty() =~= out@);
        Ok(out)
    }

    /// Appends the counted fields of a struct declaration to `buffer`.
    #[verifier::loop_isolation(false)]
    fn compile_members(list: &Vec<(String, AmvmType)>, buffer: Vec<u8>) -> (r: CompileResult)
        ensures
            compiled(
                r,
                buffer@,
                if members_fit(members_model(list@)) {
                    Some(seq![list@.len() as u8] + wire_members(members_model(list@)))
                } else {
                    None
                },
            ),
    {
        if list.len() > 255 {
            return Err(());
        }
        let ghost ms = members_model(list@);
        let mut out = buffer;
        out.push(list.len() as u8);
        let mut i: usize = 0;
        assert(ms.skip(0) =~= ms);
        assert(out@ =~= buffer@ + seq![ms.len() as u8]);
        while i < list.len()
            invariant
                i <= list.len(),
                forall|j: int| 0 <= j < i ==> member_fits(#[trigger] ms[j]),
                buffer@ + (seq![list@.len() as u8] + wire_members(ms)) == out@ + wire_members(
                    ms.skip(i as int),
                ),
            decreases list.len() - i,
        {
            proof {
                let rest = ms.skip(i as int);
                assert(rest.drop_first() =~= ms.skip(i + 1));
                assert(rest[0] == ms[i as int]);
                assert(out@ + wire_members(rest) =~= out@ + wire_text(ms[i as int].0) + wire_type(
                    ms[i as int].1,
                ) + wire_members(ms.skip(i + 1)));
            }
            let item = &list[i];
            out = match compile_text(out, item.0.as_str()) {
                Ok(b) => b,
                Err(e) => {
                    assert(!member_fits(ms[i as int]));
                    return Err(e);
                },
            };
            out = match item.1.compile_bytecode(out) {
                Ok(b) => b,
                Err(e) => {
                    assert(!member_fits(ms[i as int]));
                    return Err(e);
                },
            };
            i += 1;
        }
        assert(ms.skip(ms.len() as int) =~= Seq::<(Seq<char>, TypeModel)>::empty());
        assert(out@ + Seq::<u8>::empty() =~= out@);
        Ok(out)
    }

    /// Appends some statements to `buffer`, one behind the other.
    #[verifier::loop_isolation(false)]
    pub fn compile_each(list: &Vec<Command>, buffer: Vec<u8>) -> (r: CompileResult)
        ensures
            compiled(
                r,
                buffer@,
                if each_command_fits(commands_model(list@)) {
                    Some(wire_commands(commands_model(list@)))
                } else {
                    None
                },
            ),
        decreases list, 0nat,
    {
        let ghost ms = commands_model(list@);
        let mut out = buffer;
        let mut i: usize = 0;
        assert(ms.skip(0) =~= ms);
        while i < list.len()
            invariant
                i <= list.len(),
                forall|j: int| 0 <= j < i ==> command_fits(#[trigger] ms[j]),
                buffer@ + wire_commands(ms) == out@ + wire_commands(ms.skip(i as int)),
            decreases list.len() - i,
        {
            proof {
                let rest = ms.skip(i as int);
                assert(rest.drop_first() =~= ms.skip(i + 1));
                assert(rest[0] == ms[i as int]);
                assert(out@ + wire_commands(rest) =~= out@ + wire_command(ms[i as int])
                    + wire_commands(ms.skip(i + 1)));
            }
            assert(ms[i as int] == list@[i as int]@);
            let item = &list[i];
            out = match item.compile_bytecode(out) {
                Ok(b) => b,
                Err(e) => {
                    assert(!command_fits(ms[i as int]));
                    return Err(e);
                },
            };
            i += 1;
        }
        assert(ms.skip(ms.len() as int) =~= Seq::<CommandModel>::empty());
        assert(out@ + Seq::<u8>::empty() =~= out@);
        Ok(out)
    }

    /// Appends a counted list of statements to `buffer`.
    pub fn compile_list(list: &Vec<Command>, buffer: Vec<u8>) -> (r: CompileResult)
        ensures
            compiled(
                r,
                buffer@,
                if commands_fit(commands_model(list@)) {
                    Some(wire_command_list(commands_model(list@)))
                } else {
                    None
                },
            ),
        decreases list, 1nat,
    {
        if list.len() > 255 {
            return Err(());
        }
        let mut out = buffer;
        out.push(list.len() as u8);
        let out = Command::compile_each(list, out)?;
        assert(out@ =~= buffer@ + wire_command_list(commands_model(list@)));
        Ok(out)
    }
}

impl Command {
    /// Appends an assignment to `buffer`.
    fn compile_assign(&self, buffer: Vec<u8>) -> (r: CompileResult)
        requires
            self is AssignVariable,
        ensures
            compiled(r, buffer@, self.wire()),
        decreases self, 2nat,
    {
        let mut out = buffer;
        match self {
            Command::AssignVariable { name, value } => {
                out.push(CMD_ASGN_VAR);
                let out = compile_text(out, name.as_str())?;
                let out = value.compile_bytecode(out)?;
                assert(out@ =~= buffer@ + wire_command(self@));
                Ok(out)
            },
            _ => Err(()),
        }
    }

    /// Appends a `break` to `buffer`.
    fn compile_break(&self, buffer: Vec<u8>) -> (r: CompileResult)
        requires
            self is Break,
        ensures
            compiled(r, buffer@, self.wire()),
        decreases self, 2nat,
    {
        let mut out = buffer;
        match self {
            Command::Break => {
                out.push(CMD_BREAK);
                assert(out@ =~= buffer@ + wire_command(self@));
                Ok(out)
            },
            _ => Err(()),
        }
    }

    /// Appends a builtin call to `buffer`.
    fn compile_builtin(&self, buffer: Vec<u8>) -> (r: CompileResult)
        requires
            self is Builtin,
        ensures
            compiled(r, buffer@, self.wire()),
        decreases self, 2nat,
    {
        let mut out = buffer;
        match self {
            Command::Builtin { name, args } => {
                out.push(CMD_BUILTIN);
                let out = compile_text(out, name.as_str())?;
                let out = CommandExpression::compile_list(args, out)?;
                assert(out@ =~= buffer@ + wire_command(self@));
                Ok(out)
            },
            _ => Err(()),
        }
    }

    /// Appends a function call to `buffer`.
    fn compile_call(&self, buffer: Vec<u8>) -> (r: CompileResult)
        requires
            self is Call,
        ensures
            compiled(r, buffer@, self.wire()),
        decreases self, 2nat,
    {
        let mut out = buffer;
        match self {
            Command::Call { name, args } => {
                out.push(CMD_CALL);
                let out = name.compile_bytecode(out)?;
                let out = CommandExpression::compile_list(args, out)?;
                assert(out@ =~= buffer@ + wire_command(self@));
                Ok(out)
            },
            _ => Err(()),
        }
    }

    /// Appends a conditional to `buffer`.
    fn compile_conditional(&self, buffer: Vec<u8>) -> (r: CompileResult)
        requires
            self is Conditional,
        ensures
            compiled(r, buffer@, self.wire()),
        decreases self, 2nat,
    {
        let mut out = buffer;
        match self {
            Command::Conditional { condition, body, otherwise } => {
                out.push(CMD_COND);
                let out = condition.compile_bytecode(out)?;
                let mut out = Command::compile_list(body, out)?;
                match otherwise {
                    Some(other) => {
                        out.push(HAS_BRANCH);
                        let out = Command::compile_list(other, out)?;
                        assert(out@ =~= buffer@ + wire_command(self@));
                        Ok(out)
                    },
                    None => {
                        out.push(NO_BRANCH);
                        assert(out@ =~= buffer@ + wire_command(self@));
                        Ok(out)
                    },
                }
            },
            _ => Err(()),
        }
    }

    /// Appends a declaration to `buffer`.
    fn compile_declare(&self, buffer: Vec<u8>) -> (r: CompileResult)
        requires
            self is DeclareVariable,
        ensures
            compiled(r, buffer@, self.wire()),
        decreases self, 2nat,
    {
        let mut out = buffer;
        match self {
            Command::DeclareVariable { name, kind, value } => {
                out.push(CMD_DCLR_VAR);
                let out = kind.compile_bytecode(out)?;
                let out = compile_text(out, name.as_str())?;
                let out = value.compile_bytecode(out)?;
                assert(out@ =~= buffer@ + wire_command(self@));
                Ok(out)
            },
            _ => Err(()),
        }
    }

    /// Appends a `for` loop to `buffer`.
    fn compile_for(&self, buffer: Vec<u8>) -> (r: CompileResult)
        requires
            self is For,
        ensures
            compiled(r, buffer@, self.wire()),
        decreases self, 2nat,
    {
        let mut out = buffer;
        match self {
            Command::For { var, iterator, body } => {
                out.push(CMD_FOR);
                let out = compile_text(out, var.as_str())?;
                let out = iterator.compile_bytecode(out)?;
                let out = Command::compile_list(body, out)?;
                assert(out@ =~= buffer@ + wire_command(self@));
                Ok(out)
            },
            _ => Err(()),
        }
    }

    /// Appends a function definition to `buffer`.
    fn compile_function(&self, buffer: Vec<u8>) -> (r: CompileResult)
        requires
            self is Function,
        ensures
            compiled(r, buffer@, self.wire()),
        decreases self, 2nat,
    {
        let mut out = buffer;
        match self {
            Command::Function { name, args, ret, body } => {
                out.push(CMD_FN);
                let out = compile_text(out, name.as_str())?;
                let out = Command::compile_parameters(args, out)?;
                let out = ret.compile_bytecode(out)?;
                let out = Command::compile_list(body, out)?;
                assert(out@ =~= buffer@ + wire_command(self@));
                Ok(out)
            },
            _ => Err(()),
        }
    }

    /// Appends a source position to `buffer`.
    fn compile_meta(&self, buffer: Vec<u8>) -> (r: CompileResult)
        requires
            self is Meta,
        ensures
            compiled(r, buffer@, self.wire()),
        decreases self, 2nat,
    {
        let mut out = buffer;
        match self {
            Command::Meta { pos, code } => {
                out.push(CMD_META);
                let out = compile_u16(pos.0, out);
                let out = compile_u16(pos.1, out);
                let out = compile_text(out, code.as_str())?;
                assert(out@ =~= buffer@ + wire_command(self@));
                Ok(out)
            },
            _ => Err(()),
        }
    }

    /// Appends a source file name to `buffer`.
    fn compile_meta_file(&self, buffer: Vec<u8>) -> (r: CompileResult)
        requires
            self is MetaFile,
        ensures
            compiled(r, buffer@, self.wire()),
        decreases self, 2nat,
    {
        let mut out = buffer;
        match self {
            Command::MetaFile(name) => {
                out.push(CMD_META_FILE);
                let out = compile_text(out, name.as_str())?;
                assert(out@ =~= buffer@ + wire_command(self@));
                Ok(out)
            },
            _ => Err(()),
        }
    }

    /// Appends a loop to `buffer`.
    fn compile_loop(&self, buffer: Vec<u8>) -> (r: CompileResult)
        requires
            self is Loop,
        ensures
            compiled(r, buffer@, self.wire()),
        decreases self, 2nat,
    {
        let mut out = buffer;
        match self {
            Command::Loop { body } => {
                out.push(CMD_LOOP);
                let out = Command::compile_list(body, out)?;
                assert(out@ =~= buffer@ + wire_command(self@));
                Ok(out)
            },
            _ => Err(()),
        }
    }

    /// Appends a push to `buffer`.
    fn compile_push(&self, buffer: Vec<u8>) -> (r: CompileResult)
        requires
            self is Push,
        ensures
            compiled(r, buffer@, self.wire()),
        decreases self, 2nat,
    {
        let mut out = buffer;
        match self {
            Command::Push { value } => {
                out.push(CMD_PUSH);
                let out = value.compile_bytecode(out)?;
                assert(out@ =~= buffer@ + wire_command(self@));
                Ok(out)
            },
            _ => Err(()),
        }
    }

    /// Appends an output to `buffer`.
    fn compile_puts(&self, buffer: Vec<u8>) -> (r: CompileResult)
        requires
            self is Puts,
        ensures
            compiled(r, buffer@, self.wire()),
        decreases self, 2nat,
    {
        let mut out = buffer;
        match self {
            Command::Puts { value } => {
                out.push(CMD_PUTS);
                let out = value.compile_bytecode(out)?;
                assert(out@ =~= buffer@ + wire_command(self@));
                Ok(out)
            },
            _ => Err(()),
        }
    }

    /// Appends a return to `buffer`.
    fn compile_return(&self, buffer: Vec<u8>) -> (r: CompileResult)
        requires
            self is Return,
        ensures
            compiled(r, buffer@, self.wire()),
        decreases self, 2nat,
    {
        let mut out = buffer;
        match self {
            Command::Return { value } => {
                out.push(CMD_RET);
                let out = value.compile_bytecode(out)?;
                assert(out@ =~= buffer@ + wire_command(self@));
                Ok(out)
            },
            _ => Err(()),
        }
    }

    /// Appends a block to `buffer`.
    fn compile_block(&self, buffer: Vec<u8>) -> (r: CompileResult)
        requires
            self is Scope,
        ensures
            compiled(r, buffer@, self.wire()),
        decreases self, 2nat,
    {
        let mut out = buffer;
        match self {
            Command::Scope { body } => {
                out.push(CMD_SCOPE);
                let out = Command::compile_list(body, out)?;
                assert(out@ =~= buffer@ + wire_command(self@));
                Ok(out)
            },
            _ => Err(()),
        }
    }

    /// Appends a struct declaration to `buffer`.
    fn compile_struct(&self, buffer: Vec<u8>) -> (r: CompileResult)
        requires
            self is Struct,
        ensures
            compiled(r, buffer@, self.wire()),
        decreases self, 2nat,
    {
        let mut out = buffer;
        match self {
            Command::Struct { name, body } => {
                out.push(CMD_STRUCT);
                let out = compile_text(out, name.as_str())?;
                let out = Command::compile_members(body, out)?;
                assert(out@ =~= buffer@ + wire_command(self@));
                Ok(out)
            },
            _ => Err(()),
        }
    }
}

impl Compilable for Command {
    open spec fn wire(&self) -> Option<Seq<u8>> {
        if command_fits(self@) {
            Some(wire_command(self@))
        } else {
            None
        }
    }

    fn compile_bytecode(&self, buffer: Vec<u8>) -> (r: CompileResult)
        decreases self, 3nat,
    {
        match self {
            Command::AssignVariable { .. } => self.compile_assign(buffer),
            Command::Break => self.compile_break(buffer),
            Command::Builtin { .. } => self.compile_builtin(buffer),
            Command::Call { .. } => self.compile_call(buffer),
            Command::Conditional { .. } => self.compile_conditional(buffer),
            Command::DeclareVariable { .. } => self.compile_declare(buffer),
            Command::For { .. } => self.compile_for(buffer),
            Command::Function { .. } => self.compile_function(buffer),
            Command::Meta { .. } => self.compile_meta(buffer),
            Command::MetaFile(..) => self.compile_meta_file(buffer),
            Command::Loop { .. } => self.compile_loop(buffer),
            Command::Push { .. } => self.compile_push(buffer),
            Command::Puts { .. } => self.compile_puts(buffer),
            Command::Return { .. } => self.compile_return(buffer),
            Command::Scope { .. } => self.compile_block(buffer),
            Command::Struct { .. } => self.compile_struct(buffer),
        }
    }
}

/// What reading the bytes of `c` at `pos` must give: `c`, and the offset
/// behind its bytes.
pub open spec fn reads_back(s: Seq<u8>, pos: int, c: CommandModel) -> bool {
    read_command(s, pos) == Ok::<(CommandModel, int), Failure>((c, pos + wire_command(c).len()))
        && wire_command(c).len() > 0
}

/// Reading the bytes of some parameters gives them back.
pub proof fn lemma_parameters_roundtrip(
    s: Seq<u8>,
    pos: int,
    ps: Seq<ParameterModel>,
    acc: Seq<ParameterModel>,
)
    requires
        forall|i: int| 0 <= i < ps.len() ==> parameter_fits(#[trigger] ps[i]),
        holds_at(s, pos, wire_parameters(ps)),
    ensures
        read_parameters(s, pos, ps.len(), acc) == Ok::<(Seq<ParameterModel>, int), Failure>(
            (acc + ps, pos + wire_parameters(ps).len()),
        ),
    decreases ps.len(),
{
    if ps.len() == 0 {
        assert(acc + ps =~= acc);
    } else {
        let rest = ps.drop_first();
        let p = ps[0];
        assert(parameter_fits(p));
        assert(wire_parameters(ps) =~= wire_text(p.0) + (seq![p.1.wire_byte()] + (wire_type(p.2)
            + wire_parameters(rest))));
        lemma_holds_split(s, pos, wire_text(p.0), seq![p.1.wire_byte()] + (wire_type(p.2)
            + wire_parameters(rest)));
        lemma_read_text(s, pos, p.0);
        let p1 = pos + wire_text(p.0).len();
        lemma_holds_tag(s, p1, p.1.wire_byte(), wire_type(p.2) + wire_parameters(rest));
        lemma_holds_split(s, p1 + 1, wire_type(p.2), wire_parameters(rest));
        lemma_type_roundtrip(s, p1 + 1, p.2);
        assert(read_parameter(s, pos) == Ok::<(ParameterModel, int), Failure>(
            (p, p1 + 1 + wire_type(p.2).len()),
        ));
        assert forall|i: int| 0 <= i < rest.len() implies parameter_fits(#[trigger] rest[i]) by {
            assert(rest[i] == ps[i + 1]);
        }
        lemma_parameters_roundtrip(s, p1 + 1 + wire_type(p.2).len(), rest, acc.push(p));
        assert(acc.push(p) + rest =~= acc + ps);
    }
}

/// Reading the bytes of some fields gives them back.
pub proof fn lemma_members_roundtrip(
    s: Seq<u8>,
    pos: int,
    ms: Seq<(Seq<char>, TypeModel)>,
    acc: Seq<(Seq<char>, TypeModel)>,
)
    requires
        forall|i: int| 0 <= i < ms.len() ==> member_fits(#[trigger] ms[i]),
        holds_at(s, pos, wire_members(ms)),
    ensures
        read_members(s, pos, ms.len(), acc) == Ok::<(Seq<(Seq<char>, TypeModel)>, int), Failure>(
            (acc + ms, pos + wire_members(ms).len()),
        ),
    decreases ms.len(),
{
    if ms.len() == 0 {
        assert(acc + ms =~= acc);
    } else {
        let rest = ms.drop_first();
        let m = ms[0];
        assert(member_fits(m));
        assert(wire_members(ms) =~= wire_text(m.0) + (wire_type(m.1) + wire_members(rest)));
        lemma_holds_split(s, pos, wire_text(m.0), wire_type(m.1) + wire_members(rest));
        lemma_read_text(s, pos, m.0);
        let p1 = pos + wire_text(m.0).len();
        lemma_holds_split(s, p1, wire_type(m.1), wire_members(rest));
        lemma_type_roundtrip(s, p1, m.1);
        assert forall|i: int| 0 <= i < rest.len() implies member_fits(#[trigger] rest[i]) by {
            assert(rest[i] == ms[i + 1]);
        }
        lemma_members_roundtrip(s, p1 + wire_type(m.1).len(), rest, acc.push(m));
        assert(acc.push(m) + rest =~= acc + ms);
    }
}

/// Reading a name and an expression that stand one behind the other gives
/// both back.
pub proof fn lemma_named_expr_roundtrip(s: Seq<u8>, pos: int, name: Seq<char>, value: ExprModel)
    requires
        text_fits(name),
        expr_fits(value),
        holds_at(s, pos, wire_text(name) + wire_expr(value)),
    ensures
        read_named_expr(s, pos) == Ok::<((Seq<char>, ExprModel), int), Failure>(
            ((name, value), pos + wire_text(name).len() + wire_expr(value).len()),
        ),
        wire_expr(value).len() > 0,
{
    lemma_holds_split(s, pos, wire_text(name), wire_expr(value));
    lemma_read_text(s, pos, name);
    lemma_expr_roundtrip(s, pos + wire_text(name).len(), value);
}

/// Reading the bytes of an assignment gives it back.
pub proof fn lemma_assign_roundtrip(s: Seq<u8>, pos: int, c: CommandModel)
    requires
        command_fits(c),
        holds_at(s, pos, wire_command(c)),
        c is AssignVariable,
    ensures
        reads_back(s, pos, c),
{
    match c {
        CommandModel::AssignVariable { name, value } => {
            assert(wire_command(c) =~= seq![CMD_ASGN_VAR] + (wire_text(name) + wire_expr(value)));
            lemma_holds_tag(s, pos, CMD_ASGN_VAR, wire_text(name) + wire_expr(value));
            lemma_named_expr_roundtrip(s, pos + 1, name, value);
        },
        _ => {},
    }
}

/// Reading the bytes of a `break` gives it back.
pub proof fn lemma_break_roundtrip(s: Seq<u8>, pos: int, c: CommandModel)
    requires
        command_fits(c),
        holds_at(s, pos, wire_command(c)),
        c is Break,
    ensures
        reads_back(s, pos, c),
{
    match c {
        CommandModel::Break => {
            lemma_holds_tag(s, pos, CMD_BREAK, Seq::<u8>::empty());
        },
        _ => {},
    }
}

/// Reading the bytes of a builtin call gives it back.
pub proof fn lemma_builtin_roundtrip(s: Seq<u8>, pos: int, c: CommandModel)
    requires
        command_fits(c),
        holds_at(s, pos, wire_command(c)),
        c is Builtin,
    ensures
        reads_back(s, pos, c),
{
    match c {
        CommandModel::Builtin { name, args } => {
            assert(wire_command(c) =~= seq![CMD_BUILTIN] + (wire_text(name) + wire_expr_list(args)));
            lemma_holds_tag(s, pos, CMD_BUILTIN, wire_text(name) + wire_expr_list(args));
            lemma_holds_split(s, pos + 1, wire_text(name), wire_expr_list(args));
            lemma_read_text(s, pos + 1, name);
            lemma_expr_list_roundtrip(s, pos + 1 + wire_text(name).len(), args);
        },
        _ => {},
    }
}

/// Reading the bytes of a function call gives it back.
pub proof fn lemma_call_roundtrip(s: Seq<u8>, pos: int, c: CommandModel)
    requires
        command_fits(c),
        holds_at(s, pos, wire_command(c)),
        c is Call,
    ensures
        reads_back(s, pos, c),
{
    match c {
        CommandModel::Call { name, args } => {
            assert(wire_command(c) =~= seq![CMD_CALL] + (wire_expr(name) + wire_expr_list(args)));
            lemma_holds_tag(s, pos, CMD_CALL, wire_expr(name) + wire_expr_list(args));
            lemma_holds_split(s, pos + 1, wire_expr(name), wire_expr_list(args));
            lemma_expr_roundtrip(s, pos + 1, name);
            lemma_expr_list_roundtrip(s, pos + 1 + wire_expr(name).len(), args);
        },
        _ => {},
    }
}

/// Reading the bytes of a declaration gives it back.
pub proof fn lemma_declare_roundtrip(s: Seq<u8>, pos: int, c: CommandModel)
    requires
        command_fits(c),
        holds_at(s, pos, wire_command(c)),
        c is DeclareVariable,
    ensures
        reads_back(s, pos, c),
{
    match c {
        CommandModel::DeclareVariable { name, kind, value } => {
            assert(wire_command(c) =~= seq![CMD_DCLR_VAR] + (seq![kind.wire_byte()] + (wire_text(
                name,
            ) + wire_expr(value))));
            lemma_holds_tag(s, pos, CMD_DCLR_VAR, seq![kind.wire_byte()] + (wire_text(name)
                + wire_expr(value)));
            lemma_holds_tag(s, pos + 1, kind.wire_byte(), wire_text(name) + wire_expr(value));
            lemma_named_expr_roundtrip(s, pos + 2, name, value);
        },
        _ => {},
    }
}

/// Reading the bytes of a source position gives it back.
pub proof fn lemma_meta_roundtrip(s: Seq<u8>, pos: int, c: CommandModel)
    requires
        command_fits(c),
        holds_at(s, pos, wire_command(c)),
        c is Meta,
    ensures
        reads_back(s, pos, c),
{
    match c {
        CommandModel::Meta { pos: at, code } => {
            assert(wire_command(c) =~= seq![CMD_META] + (wire_u16(at.0) + (wire_u16(at.1)
                + wire_text(code))));
            lemma_holds_tag(s, pos, CMD_META, wire_u16(at.0) + (wire_u16(at.1) + wire_text(code)));
            lemma_holds_split(s, pos + 1, wire_u16(at.0), wire_u16(at.1) + wire_text(code));
            lemma_u16_roundtrip(s, pos + 1, at.0);
            lemma_holds_split(s, pos + 3, wire_u16(at.1), wire_text(code));
            lemma_u16_roundtrip(s, pos + 3, at.1);
            lemma_read_text(s, pos + 5, code);
        },
        _ => {},
    }
}

/// Reading the bytes of a source file name gives it back.
pub proof fn lemma_meta_file_roundtrip(s: Seq<u8>, pos: int, c: CommandModel)
    requires
        command_fits(c),
        holds_at(s, pos, wire_command(c)),
        c is MetaFile,
    ensures
        reads_back(s, pos, c),
{
    match c {
        CommandModel::MetaFile(name) => {
            lemma_holds_tag(s, pos, CMD_META_FILE, wire_text(name));
            lemma_read_text(s, pos + 1, name);
        },
        _ => {},
    }
}

/// Reading the bytes of a push gives it back.
pub proof fn lemma_push_roundtrip(s: Seq<u8>, pos: int, c: CommandModel)
    requires
        command_fits(c),
        holds_at(s, pos, wire_command(c)),
        c is Push,
    ensures
        reads_back(s, pos, c),
{
    match c {
        CommandModel::Push { value } => {
            lemma_holds_tag(s, pos, CMD_PUSH, wire_expr(value));
            lemma_expr_roundtrip(s, pos + 1, value);
        },
        _ => {},
    }
}

/// Reading the bytes of an output gives it back.
pub proof fn lemma_puts_roundtrip(s: Seq<u8>, pos: int, c: CommandModel)
    requires
        command_fits(c),
        holds_at(s, pos, wire_command(c)),
        c is Puts,
    ensures
        reads_back(s, pos, c),
{
    match c {
        CommandModel::Puts { value } => {
            lemma_holds_tag(s, pos, CMD_PUTS, wire_expr(value));
            lemma_expr_roundtrip(s, pos + 1, value);
        },
        _ => {},
    }
}

/// Reading the bytes of a return gives it back.
pub proof fn lemma_return_roundtrip(s: Seq<u8>, pos: int, c: CommandModel)
    requires
        command_fits(c),
        holds_at(s, pos, wire_command(c)),
        c is Return,
    ensures
        reads_back(s, pos, c),
{
    match c {
        CommandModel::Return { value } => {
            lemma_holds_tag(s, pos, CMD_RET, wire_expr(value));
            lemma_expr_roundtrip(s, pos + 1, value);
        },
        _ => {},
    }
}

/// Reading the bytes of a struct declaration gives it back.
pub proof fn lemma_struct_roundtrip(s: Seq<u8>, pos: int, c: CommandModel)
    requires
        command_fits(c),
        holds_at(s, pos, wire_command(c)),
        c is Struct,
    ensures
        reads_back(s, pos, c),
{
    match c {
        CommandModel::Struct { name, body } => {
            let tail = seq![body.len() as u8] + wire_members(body);
            assert(wire_command(c) =~= seq![CMD_STRUCT] + (wire_text(name) + tail));
            lemma_holds_tag(s, pos, CMD_STRUCT, wire_text(name) + tail);
            lemma_holds_split(s, pos + 1, wire_text(name), tail);
            lemma_read_text(s, pos + 1, name);
            let p1 = pos + 1 + wire_text(name).len();
            lemma_holds_tag(s, p1, body.len() as u8, wire_members(body));
            lemma_members_roundtrip(s, p1 + 1, body, Seq::<(Seq<char>, TypeModel)>::empty());
            assert(Seq::<(Seq<char>, TypeModel)>::empty() + body =~= body);
        },
        _ => {},
    }
}

/// Reading the bytes of a statement without nested statements gives it back.
pub proof fn lemma_simple_roundtrip(s: Seq<u8>, pos: int, c: CommandModel)
    requires
        command_fits(c),
        holds_at(s, pos, wire_command(c)),
        c is AssignVariable || c is Break || c is Builtin || c is Call || c is DeclareVariable
            || c is Meta || c is MetaFile || c is Push || c is Puts || c is Return || c is Struct,
    ensures
        reads_back(s, pos, c),
{
    if c is AssignVariable {
        lemma_assign_roundtrip(s, pos, c);
    } else if c is Break {
        lemma_break_roundtrip(s, pos, c);
    } else if c is Builtin {
        lemma_builtin_roundtrip(s, pos, c);
    } else if c is Call {
        lemma_call_roundtrip(s, pos, c);
    } else if c is DeclareVariable {
        lemma_declare_roundtrip(s, pos, c);
    } else if c is Meta {
        lemma_meta_roundtrip(s, pos, c);
    } else if c is MetaFile {
        lemma_meta_file_roundtrip(s, pos, c);
    } else if c is Push {
        lemma_push_roundtrip(s, pos, c);
    } else if c is Puts {
        lemma_puts_roundtrip(s, pos, c);
    } else if c is Return {
        lemma_return_roundtrip(s, pos, c);
    } else if c is Struct {
        lemma_struct_roundtrip(s, pos, c);
    }
}

/// Reading the bytes of a conditional gives it back.
pub proof fn lemma_conditional_roundtrip(s: Seq<u8>, pos: int, c: CommandModel)
    requires
        command_fits(c),
        holds_at(s, pos, wire_command(c)),
        c is Conditional,
    ensures
        reads_back(s, pos, c),
    decreases c, 0nat,
{
    match c {
        CommandModel::Conditional { condition, body, otherwise } => {
            let last = wire_otherwise(otherwise);
            assert(wire_command(c) =~= seq![CMD_COND] + (wire_expr(condition) + (wire_command_list(
                body,
            ) + last)));
            lemma_holds_tag(s, pos, CMD_COND, wire_expr(condition) + (wire_command_list(body) + last));
            lemma_holds_split(s, pos + 1, wire_expr(condition), wire_command_list(body) + last);
            lemma_expr_roundtrip(s, pos + 1, condition);
            let p1 = pos + 1 + wire_expr(condition).len();
            lemma_holds_split(s, p1, wire_command_list(body), last);
            lemma_command_list_roundtrip(s, p1, body);
            let p2 = p1 + wire_command_list(body).len();
            match otherwise {
                Some(other) => {
                    lemma_holds_tag(s, p2, HAS_BRANCH, wire_command_list(other));
                    lemma_command_list_roundtrip(s, p2 + 1, other);
                    assert(read_otherwise(s, p2) == Ok::<(Option<Seq<CommandModel>>, int), Failure>(
                        (otherwise, p2 + last.len()),
                    ));
                },
                None => {
                    lemma_holds_first(s, p2, last);
                    assert(read_otherwise(s, p2) == Ok::<(Option<Seq<CommandModel>>, int), Failure>(
                        (otherwise, p2 + last.len()),
                    ));
                },
            }
            assert(read_conditional(s, pos + 1) == Ok::<(CommandModel, int), Failure>(
                (c, p2 + last.len()),
            ));
        },
        _ => {},
    }
}

/// Reading the bytes of a function definition gives it back.
pub proof fn lemma_function_roundtrip(s: Seq<u8>, pos: int, c: CommandModel)
    requires
        command_fits(c),
        holds_at(s, pos, wire_command(c)),
        c is Function,
    ensures
        reads_back(s, pos, c),
    decreases c, 0nat,
{
    match c {
        CommandModel::Function { name, args, ret, body } => {
            let params = seq![args.len() as u8] + wire_parameters(args);
            assert(wire_command(c) =~= seq![CMD_FN] + (wire_text(name) + (params + (wire_type(ret)
                + wire_command_list(body)))));
            lemma_holds_tag(s, pos, CMD_FN, wire_text(name) + (params + (wire_type(ret)
                + wire_command_list(body))));
            lemma_holds_split(s, pos + 1, wire_text(name), params + (wire_type(ret)
                + wire_command_list(body)));
            lemma_read_text(s, pos + 1, name);
            let p1 = pos + 1 + wire_text(name).len();
            lemma_holds_split(s, p1, params, wire_type(ret) + wire_command_list(body));
            lemma_holds_tag(s, p1, args.len() as u8, wire_parameters(args));
            assert(parameters_fit(args));
            lemma_parameters_roundtrip(s, p1 + 1, args, Seq::<ParameterModel>::empty());
            assert(Seq::<ParameterModel>::empty() + args =~= args);
            let p2 = p1 + params.len();
            lemma_holds_split(s, p2, wire_type(ret), wire_command_list(body));
            lemma_type_roundtrip(s, p2, ret);
            let p3 = p2 + wire_type(ret).len();
            assert(read_function_head(s, pos + 1) == Ok::<
                ((Seq<char>, Seq<ParameterModel>, TypeModel), int),
                Failure,
            >(((name, args, ret), p3)));
            lemma_command_list_roundtrip(s, p3, body);
            assert(read_function(s, pos + 1) == Ok::<(CommandModel, int), Failure>(
                (c, p3 + wire_command_list(body).len()),
            ));
        },
        _ => {},
    }
}

/// Reading the bytes of a `for` loop gives it back.
pub proof fn lemma_for_roundtrip(s: Seq<u8>, pos: int, c: CommandModel)
    requires
        command_fits(c),
        holds_at(s, pos, wire_command(c)),
        c is For,
    ensures
        reads_back(s, pos, c),
    decreases c, 0nat,
{
    match c {
        CommandModel::For { var, iterator, body } => {
            assert(wire_command(c) =~= seq![CMD_FOR] + ((wire_text(var) + wire_expr(iterator))
                + wire_command_list(body)));
            lemma_holds_tag(s, pos, CMD_FOR, (wire_text(var) + wire_expr(iterator))
                + wire_command_list(body));
            lemma_holds_split(s, pos + 1, wire_text(var) + wire_expr(iterator), wire_command_list(
                body,
            ));
            lemma_named_expr_roundtrip(s, pos + 1, var, iterator);
            let p1 = pos + 1 + wire_text(var).len() + wire_expr(iterator).len();
            lemma_command_list_roundtrip(s, p1, body);
            assert(read_for(s, pos + 1) == Ok::<(CommandModel, int), Failure>(
                (c, p1 + wire_command_list(body).len()),
            ));
        },
        _ => {},
    }
}

/// Reading the bytes of a loop or of a block gives it back.
pub proof fn lemma_body_roundtrip(s: Seq<u8>, pos: int, c: CommandModel)
    requires
        command_fits(c),
        holds_at(s, pos, wire_command(c)),
        c is Loop || c is Scope,
    ensures
        reads_back(s, pos, c),
    decreases c, 0nat,
{
    match c {
        CommandModel::Loop { body } => {
            lemma_holds_tag(s, pos, CMD_LOOP, wire_command_list(body));
            lemma_command_list_roundtrip(s, pos + 1, body);
            assert(read_loop(s, pos + 1) == Ok::<(CommandModel, int), Failure>(
                (c, pos + 1 + wire_command_list(body).len()),
            ));
        },
        CommandModel::Scope { body } => {
            lemma_holds_tag(s, pos, CMD_SCOPE, wire_command_list(body));
            lemma_command_list_roundtrip(s, pos + 1, body);
            assert(read_block(s, pos + 1) == Ok::<(CommandModel, int), Failure>(
                (c, pos + 1 + wire_command_list(body).len()),
            ));
        },
        _ => {},
    }
}

/// Reading the bytes of a statement gives the statement back.
pub proof fn lemma_command_roundtrip(s: Seq<u8>, pos: int, c: CommandModel)
    requires
        command_fits(c),
        holds_at(s, pos, wire_command(c)),
    ensures
        reads_back(s, pos, c),
    decreases c, 1nat,
{
    if c is Conditional {
        lemma_conditional_roundtrip(s, pos, c);
    } else if c is Function {
        lemma_function_roundtrip(s, pos, c);
    } else if c is For {
        lemma_for_roundtrip(s, pos, c);
    } else if c is Loop || c is Scope {
        lemma_body_roundtrip(s, pos, c);
    } else {
        lemma_simple_roundtrip(s, pos, c);
    }
}

/// Reading the bytes of a counted list of statements gives the list back.
pub proof fn lemma_command_list_roundtrip(s: Seq<u8>, pos: int, cs: Seq<CommandModel>)
    requires
        commands_fit(cs),
        holds_at(s, pos, wire_command_list(cs)),
    ensures
        read_command_list(s, pos) == Ok::<(Seq<CommandModel>, int), Failure>(
            (cs, pos + wire_command_list(cs).len()),
        ),
        wire_command_list(cs).len() > 0,
    decreases cs, 3nat,
{
    lemma_holds_tag(s, pos, cs.len() as u8, wire_commands(cs));
    lemma_commands_roundtrip(s, pos + 1, cs, Seq::<CommandModel>::empty());
    assert(Seq::<CommandModel>::empty() + cs =~= cs);
}

/// Reading the bytes of some statements, one behind the other, gives them
/// back.
pub proof fn lemma_commands_roundtrip(
    s: Seq<u8>,
    pos: int,
    cs: Seq<CommandModel>,
    acc: Seq<CommandModel>,
)
    requires
        each_command_fits(cs),
        holds_at(s, pos, wire_commands(cs)),
    ensures
        read_commands(s, pos, cs.len(), acc) == Ok::<(Seq<CommandModel>, int), Failure>(
            (acc + cs, pos + wire_commands(cs).len()),
        ),
    decreases cs, 2nat,
{
    if cs.len() == 0 {
        assert(acc + cs =~= acc);
    } else {
        let rest = cs.drop_first();
        lemma_holds_split(s, pos, wire_command(cs[0]), wire_commands(rest));
        assert(command_fits(cs[0]));
        lemma_command_roundtrip(s, pos, cs[0]);
        assert forall|i: int| 0 <= i < rest.len() implies command_fits(#[trigger] rest[i]) by {
            assert(rest[i] == cs[i + 1]);
        }
        lemma_commands_roundtrip(s, pos + wire_command(cs[0]).len(), rest, acc.push(cs[0]));
        assert(acc.push(cs[0]) + rest =~= acc + cs);
    }
}

/// A copy of a list of statements.
#[verifier::loop_isolation(false)]
pub fn clone_commands(list: &Vec<Command>) -> (r: Vec<Command>)
    ensures
        commands_model(r@) == commands_model(list@),
    decreases list, 0nat,
{
    let mut out: Vec<Command> = Vec::new();
    let mut i: usize = 0;
    while i < list.len()
        invariant
            i <= list.len(),
            out@.len() == i,
            forall|j: int| 0 <= j < i ==> (#[trigger] out@[j])@ == list@[j]@,
        decreases list.len() - i,
    {
        out.push(list[i].clone());
        i += 1;
    }
    assert(commands_model(out@) =~= commands_model(list@));
    out
}

/// A copy of the fields of a struct declaration.
#[verifier::loop_isolation(false)]
pub fn clone_members(list: &Vec<(String, AmvmType)>) -> (r: Vec<(String, AmvmType)>)
    ensures
        members_model(r@) == members_model(list@),
{
    let mut out: Vec<(String, AmvmType)> = Vec::new();
    let mut i: usize = 0;
    while i < list.len()
        invariant
            i <= list.len(),
            out@.len() == i,
            forall|j: int|
                0 <= j < i ==> (#[trigger] out@[j]).0@ == list@[j].0@ && out@[j].1@ == list@[j].1@,
        decreases list.len() - i,
    {
        let item = &list[i];
        out.push((item.0.clone(), item.1.clone()));
        i += 1;
    }
    assert(members_model(out@) =~= members_model(list@));
    out
}

impl Clone for Command {
    fn clone(&self) -> (r: Self)
        ensures
            r@ == self@,
        decreases self, 1nat,
    {
        match self {
            Command::AssignVariable { name, value } => Command::AssignVariable {
                name: name.clone(),
                value: value.clone(),
            },
            Command::Break => Command::Break,
            Command::Builtin { name, args } => Command::Builtin {
                name: name.clone(),
                args: clone_exprs(args),
            },
            Command::Call { name, args } => Command::Call {
                name: name.clone(),
                args: clone_exprs(args),
            },
            Command::Conditional { condition, body, otherwise } => Command::Conditional {
                condition: condition.clone(),
                body: clone_commands(body),
                otherwise: match otherwise {
                    Some(other) => Some(clone_commands(other)),
                    None => None,
                },
            },
            Command::DeclareVariable { name, kind, value } => Command::DeclareVariable {
                name: name.clone(),
                kind: *kind,
                value: value.clone(),
            },
            Command::For { var, iterator, body } => Command::For {
                var: var.clone(),
                iterator: iterator.clone(),
                body: clone_commands(body),
            },
            Command::Function { name, args, ret, body } => Command::Function {
                name: name.clone(),
                args: clone_parameters(args),
                ret: ret.clone(),
                body: clone_commands(body),
            },
            Command::Meta { pos, code } => Command::Meta { pos: *pos, code: code.clone() },
            Command::MetaFile(name) => Command::MetaFile(name.clone()),
            Command::Loop { body } => Command::Loop { body: clone_commands(body) },
            Command::Push { value } => Command::Push { value: value.clone() },
            Command::Puts { value } => Command::Puts { value: value.clone() },
            Command::Return { value } => Command::Return { value: value.clone() },
            Command::Scope { body } => Command::Scope { body: clone_commands(body) },
            Command::Struct { name, body } => Command::Struct {
                name: name.clone(),
                body: clone_members(body),
            },
        }
    }
}

} // verus!
