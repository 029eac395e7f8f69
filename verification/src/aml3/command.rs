use vstd::prelude::*;
use crate::aml3::expr::Aml3Expr;
use crate::aml3::grammar::src_args;
use crate::aml3::lexer::count_lines;
use crate::aml3::lexer::find_line_end;
use crate::aml3::lexer::pass_blank;
use crate::aml3::lexer::reads;
use crate::aml3::lexer::take_until_space;
use crate::aml3::lexer::text_of;
use crate::aml3::meta::Aml3Meta;
use crate::aml3::statements::src_after_keyword;
use crate::aml3::statements::src_assign;
use crate::aml3::statements::src_block;
use crate::aml3::statements::src_builtin;
use crate::aml3::statements::src_call;
use crate::aml3::statements::src_command;
use crate::aml3::statements::src_commands;
use crate::aml3::statements::src_condition;
use crate::aml3::statements::src_conditional;
use crate::aml3::statements::src_declare;
use crate::aml3::statements::src_for;
use crate::aml3::statements::src_for_head;
use crate::aml3::statements::src_function;
use crate::aml3::statements::src_function_head;
use crate::aml3::statements::src_keyword;
use crate::aml3::statements::src_kind;
use crate::aml3::statements::src_loop;
use crate::aml3::statements::src_otherwise;
use crate::aml3::statements::src_parameter;
use crate::aml3::statements::src_parameters;
use crate::aml3::statements::src_position;
use crate::aml3::statements::src_struct;
use crate::aml3::statements::src_variable_space;
use crate::aml3::statements::src_with_value;
use crate::aml3::structs::Aml3Struct;
use crate::aml3::types::Aml3Type;
use crate::aml3::variable::Aml3Variable;
use crate::error::DecodeError;
use crate::error::DecodeFault;
use crate::error::Failure;
use crate::parser::Parser;
use crate::tokens::command::Command;
use crate::tokens::command::CommandModel;
use crate::tokens::command::commands_model;
use crate::tokens::command::otherwise_model;
use crate::tokens::expr::CommandExpression;
use crate::tokens::expr::ExprModel;
use crate::tokens::expr::exprs_model;
use crate::tokens::kind::VariableKind;
use crate::tokens::types::AmvmType;
use crate::tokens::value::Parameter;
use crate::tokens::value::ParameterModel;
use crate::tokens::value::parameters_model;
use crate::utils::text_eq;

verus! {

/// The reader of statements in source text.
pub struct Aml3Command;

/// The reader of blocks in source text.
pub struct Aml3Scope;

impl Aml3Command {
    /// Reads a variable and the space behind it.
    fn variable_space<'a>(parser: Parser<'a>) -> (r: Result<(Parser<'a>, String), DecodeError>)
        ensures
            reads(
                r,
                src_variable_space(parser.bytes@, parser.pointer as int),
                parser,
                |t: String| t@,
            ),
    {
        let bytes = parser.bytes;
        let (p, name) = Aml3Variable::visit(parser)?;
        if p.pointer < bytes.len() && bytes[p.pointer] == 32 {
            Ok((parser.at(p.pointer + 1), name))
        } else {
            Err(DecodeError { fault: DecodeFault::ExpectedSpace, at: p.pointer })
        }
    }

    /// Reads the arguments of a call up to the end of the line.
    #[verifier::loop_isolation(false)]
    fn visit_args<'a>(parser: Parser<'a>) -> (r: Result<
        (Parser<'a>, Vec<CommandExpression>),
        DecodeError,
    >)
        ensures
            reads(
                r,
                src_args(parser.bytes@, parser.pointer as int, Seq::empty()),
                parser,
                |v: Vec<CommandExpression>| exprs_model(v@),
            ),
    {
        let bytes = parser.bytes;
        let ghost s = bytes@;
        let ghost goal = src_args(s, parser.pointer as int, Seq::empty());
        let mut out: Vec<CommandExpression> = Vec::new();
        let mut cur: usize = parser.pointer;
        assert(exprs_model(out@) =~= Seq::<ExprModel>::empty());
        loop
            invariant
                parser.pointer <= cur,
                parser.pointer <= s.len() ==> cur <= s.len(),
                goal == src_args(s, cur as int, exprs_model(out@)),
            decreases s.len() - cur,
        {
            if cur >= bytes.len() || bytes[cur] == 10 || bytes[cur] == 13 {
                return Ok((parser.at(cur), out));
            }
            if bytes[cur] != 32 {
                return Err(DecodeError { fault: DecodeFault::ExpectedSpace, at: cur });
            }
            let (p1, e) = Aml3Expr::visit(parser.at(cur + 1))?;
            let ghost before = out@;
            let ghost m = e@;
            out.push(e);
            assert(exprs_model(out@) =~= exprs_model(before).push(m));
            cur = p1.pointer;
        }
    }

    /// Reads an assignment behind its `=`.
    fn visit_asgn<'a>(parser: Parser<'a>) -> (r: Result<(Parser<'a>, Command), DecodeError>)
        ensures
            reads(r, src_assign(parser.bytes@, parser.pointer as int), parser, |c: Command| c@),
    {
        let bytes = parser.bytes;
        let pos = parser.pointer;
        let p: usize = if pos < bytes.len() && bytes[pos] == 32 {
            pos + 1
        } else {
            pos
        };
        let (p1, name) = Aml3Command::variable_space(parser.at(p))?;
        let (p2, value) = Aml3Expr::visit(p1)?;
        Ok((parser.at(p2.pointer), Command::AssignVariable { name, value }))
    }

    /// Reads the kind of a declaration.
    fn visit_kind<'a>(parser: Parser<'a>) -> (r: Result<(Parser<'a>, VariableKind), DecodeError>)
        ensures
            reads(r, src_kind(parser.bytes@, parser.pointer as int), parser, |k: VariableKind| k),
    {
        let bytes = parser.bytes;
        let pos = parser.pointer;
        if pos < bytes.len() && bytes[pos] == 36 {
            return Ok((parser, VariableKind::Const));
        }
        let (p, word) = take_until_space(parser)?;
        match VariableKind::from_str(word.as_str()) {
            None => Err(DecodeError { fault: DecodeFault::UnknownVariableKind, at: pos }),
            Some(kind) => if p.pointer < bytes.len() && bytes[p.pointer] == 32 {
                Ok((parser.at(p.pointer + 1), kind))
            } else {
                Err(DecodeError { fault: DecodeFault::ExpectedSpace, at: p.pointer })
            },
        }
    }

    /// Reads a declaration behind its keyword.
    fn visit_declare<'a>(parser: Parser<'a>) -> (r: Result<(Parser<'a>, Command), DecodeError>)
        ensures
            reads(r, src_declare(parser.bytes@, parser.pointer as int), parser, |c: Command| c@),
    {
        let (p1, kind) = Aml3Command::visit_kind(parser)?;
        let (p2, name) = Aml3Command::variable_space(p1)?;
        let (p3, value) = Aml3Expr::visit(p2)?;
        Ok((parser.at(p3.pointer), Command::DeclareVariable { name, kind, value }))
    }

    /// Reads a builtin call behind its keyword.
    fn visit_builtin<'a>(parser: Parser<'a>) -> (r: Result<(Parser<'a>, Command), DecodeError>)
        ensures
            reads(r, src_builtin(parser.bytes@, parser.pointer as int), parser, |c: Command| c@),
    {
        let (p1, name) = take_until_space(parser)?;
        let (p2, args) = Aml3Command::visit_args(p1)?;
        Ok((parser.at(p2.pointer), Command::Builtin { name, args }))
    }

    /// Reads a call behind its keyword.
    fn visit_call<'a>(parser: Parser<'a>) -> (r: Result<(Parser<'a>, Command), DecodeError>)
        ensures
            reads(r, src_call(parser.bytes@, parser.pointer as int), parser, |c: Command| c@),
    {
        let (p1, name) = Aml3Expr::visit(parser)?;
        let (p2, args) = Aml3Command::visit_args(p1)?;
        Ok((parser.at(p2.pointer), Command::Call { name, args }))
    }

    /// Reads a struct declaration behind its keyword.
    fn visit_struct<'a>(parser: Parser<'a>) -> (r: Result<(Parser<'a>, Command), DecodeError>)
        ensures
            reads(r, src_struct(parser.bytes@, parser.pointer as int), parser, |c: Command| c@),
    {
        let bytes = parser.bytes;
        let (p1, name) = Aml3Type::visit_name(parser)?;
        if !(p1.pointer < bytes.len() && bytes[p1.pointer] == 32) {
            return Err(DecodeError { fault: DecodeFault::ExpectedSpace, at: p1.pointer });
        }
        let (p2, body) = Aml3Struct::visit_decl_block(parser.at(p1.pointer + 1))?;
        let name = match name {
            Some(n) => n,
            None => String::new(),
        };
        Ok((parser.at(p2.pointer), Command::Struct { name, body }))
    }

    /// Reads a statement that takes an expression behind its keyword.
    fn visit_with_value<'a>(parser: Parser<'a>, word: &String) -> (r: Result<
        (Parser<'a>, Command),
        DecodeError,
    >)
        ensures
            reads(
                r,
                src_with_value(parser.bytes@, parser.pointer as int, word@),
                parser,
                |c: Command| c@,
            ),
    {
        let (p, value) = Aml3Expr::visit(parser)?;
        if text_eq(word.as_str(), "puts") {
            Ok((p, Command::Puts { value }))
        } else {
            Ok((p, Command::Return { value }))
        }
    }

    /// Reads one parameter.
    fn visit_parameter<'a>(parser: Parser<'a>) -> (r: Result<(Parser<'a>, Parameter), DecodeError>)
        ensures
            reads(
                r,
                src_parameter(parser.bytes@, parser.pointer as int),
                parser,
                |p: Parameter| (p.0@, p.1, p.2@),
            ),
    {
        let (p1, kind) = Aml3Command::visit_kind(parser)?;
        let (p2, name) = Aml3Command::variable_space(p1)?;
        let (p3, t) = Aml3Type::visit(p2)?;
        Ok((parser.at(p3.pointer), (name, kind, t)))
    }

    /// Reads the parameters of a function up to the space before its body.
    #[verifier::loop_isolation(false)]
    fn visit_parameters<'a>(parser: Parser<'a>) -> (r: Result<
        (Parser<'a>, Vec<Parameter>),
        DecodeError,
    >)
        ensures
            reads(
                r,
                src_parameters(parser.bytes@, parser.pointer as int, Seq::empty()),
                parser,
                |v: Vec<Parameter>| parameters_model(v@),
            ),
    {
        let bytes = parser.bytes;
        let ghost s = bytes@;
        let ghost goal = src_parameters(s, parser.pointer as int, Seq::empty());
        let mut out: Vec<Parameter> = Vec::new();
        let mut cur: usize = parser.pointer;
        assert(parameters_model(out@) =~= Seq::<ParameterModel>::empty());
        loop
            invariant
                parser.pointer <= cur,
                parser.pointer <= s.len() ==> cur <= s.len(),
                goal == src_parameters(s, cur as int, parameters_model(out@)),
            decreases s.len() - cur,
        {
            if !(cur < bytes.len() && bytes[cur] == 32) {
                return Err(DecodeError { fault: DecodeFault::ExpectedSpace, at: cur });
            }
            if cur + 1 < bytes.len() && bytes[cur + 1] == 123 {
                return Ok((parser.at(cur + 1), out));
            }
            let (p1, item) = Aml3Command::visit_parameter(parser.at(cur + 1))?;
            let ghost before = out@;
            let ghost m = (item.0@, item.1, item.2@);
            out.push(item);
            assert(parameters_model(out@) =~= parameters_model(before).push(m));
            cur = p1.pointer;
        }
    }

    /// Reads the head of a function definition behind its keyword.
    fn visit_function_head<'a>(parser: Parser<'a>) -> (r: Result<
        (Parser<'a>, (String, Vec<Parameter>, AmvmType)),
        DecodeError,
    >)
        ensures
            reads(
                r,
                src_function_head(parser.bytes@, parser.pointer as int),
                parser,
                |h: (String, Vec<Parameter>, AmvmType)| (h.0@, parameters_model(h.1@), h.2@),
            ),
    {
        let bytes = parser.bytes;
        let (p1, ret) = Aml3Type::visit(parser)?;
        if !(p1.pointer < bytes.len() && bytes[p1.pointer] == 32) {
            return Err(DecodeError { fault: DecodeFault::ExpectedSpace, at: p1.pointer });
        }
        let (p2, name) = Aml3Variable::visit(parser.at(p1.pointer + 1))?;
        let (p3, args) = Aml3Command::visit_parameters(p2)?;
        Ok((parser.at(p3.pointer), (name, args, ret)))
    }

    /// Reads the head of a `for` loop behind its keyword.
    fn visit_for_head<'a>(parser: Parser<'a>) -> (r: Result<
        (Parser<'a>, (String, CommandExpression)),
        DecodeError,
    >)
        ensures
            reads(
                r,
                src_for_head(parser.bytes@, parser.pointer as int),
                parser,
                |h: (String, CommandExpression)| (h.0@, h.1@),
            ),
    {
        let bytes = parser.bytes;
        let (p1, var) = Aml3Command::variable_space(parser)?;
        let (p2, iterator) = Aml3Expr::visit(p1)?;
        if p2.pointer < bytes.len() && bytes[p2.pointer] == 32 {
            Ok((parser.at(p2.pointer + 1), (var, iterator)))
        } else {
            Err(DecodeError { fault: DecodeFault::ExpectedSpace, at: p2.pointer })
        }
    }

    /// Reads the condition of a conditional and the space behind it.
    fn visit_condition<'a>(parser: Parser<'a>) -> (r: Result<
        (Parser<'a>, CommandExpression),
        DecodeError,
    >)
        ensures
            reads(
                r,
                src_condition(parser.bytes@, parser.pointer as int),
                parser,
                |e: CommandExpression| e@,
            ),
    {
        let bytes = parser.bytes;
        let (p1, condition) = Aml3Expr::visit(parser)?;
        if p1.pointer < bytes.len() && bytes[p1.pointer] == 32 {
            Ok((parser.at(p1.pointer + 1), condition))
        } else {
            Err(DecodeError { fault: DecodeFault::ExpectedSpace, at: p1.pointer })
        }
    }

    /// Reads the second branch of a conditional.
    fn visit_otherwise<'a>(parser: Parser<'a>, debug: bool) -> (r: Result<
        (Parser<'a>, Option<Vec<Command>>),
        DecodeError,
    >)
        requires
            parser.pointer <= parser.bytes@.len(),
        ensures
            reads(
                r,
                src_otherwise(parser.bytes@, parser.pointer as int, debug),
                parser,
                |o: Option<Vec<Command>>| otherwise_model(o),
            ),
        decreases parser.bytes@.len() - parser.pointer, 1nat,
    {
        let bytes = parser.bytes;
        let pos = parser.pointer;
        let p: usize = if pos < bytes.len() && bytes[pos] == 32 {
            pos + 1
        } else {
            pos
        };
        if !(p < bytes.len() && bytes[p] == 64) {
            return Ok((parser.at(p), None));
        }
        let (p1, word) = take_until_space(parser.at(p + 1))?;
        if !text_eq(word.as_str(), "else") {
            return Err(DecodeError { fault: DecodeFault::ExpectedElse, at: p });
        }
        if !(p1.pointer < bytes.len() && bytes[p1.pointer] == 32) {
            return Err(DecodeError { fault: DecodeFault::ExpectedSpace, at: p1.pointer });
        }
        let (p2, other) = Aml3Scope::block(parser.at(p1.pointer + 1), debug)?;
        Ok((parser.at(p2.pointer), Some(other)))
    }

    /// Reads a conditional behind its keyword.
    pub fn visit_conditional<'a>(parser: Parser<'a>, debug: bool) -> (r: Result<
        (Parser<'a>, Command),
        DecodeError,
    >)
        ensures
            reads(
                r,
                src_conditional(parser.bytes@, parser.pointer as int, debug),
                parser,
                |c: Command| c@,
            ),
        decreases parser.bytes@.len() - parser.pointer, 2nat,
    {
        let (p1, condition) = Aml3Command::visit_condition(parser)?;
        let (p2, body) = Aml3Scope::block(p1, debug)?;
        let (p3, otherwise) = Aml3Command::visit_otherwise(parser.at(p2.pointer), debug)?;
        Ok((parser.at(p3.pointer), Command::Conditional { condition, body, otherwise }))
    }

    /// Reads a function definition behind its keyword.
    fn visit_function<'a>(parser: Parser<'a>, debug: bool) -> (r: Result<
        (Parser<'a>, Command),
        DecodeError,
    >)
        requires
            parser.pointer <= parser.bytes@.len(),
        ensures
            reads(
                r,
                src_function(parser.bytes@, parser.pointer as int, debug),
                parser,
                |c: Command| c@,
            ),
        decreases parser.bytes@.len() - parser.pointer, 2nat,
    {
        let (p1, head) = Aml3Command::visit_function_head(parser)?;
        let (p2, body) = Aml3Scope::block(p1, debug)?;
        Ok((parser.at(p2.pointer), Command::Function { name: head.0, args: head.1, ret: head.2, body }))
    }

    /// Reads a `for` loop behind its keyword.
    fn visit_for<'a>(parser: Parser<'a>, debug: bool) -> (r: Result<
        (Parser<'a>, Command),
        DecodeError,
    >)
        requires
            parser.pointer <= parser.bytes@.len(),
        ensures
            reads(
                r,
                src_for(parser.bytes@, parser.pointer as int, debug),
                parser,
                |c: Command| c@,
            ),
        decreases parser.bytes@.len() - parser.pointer, 2nat,
    {
        let (p1, head) = Aml3Command::visit_for_head(parser)?;
        let (p2, body) = Aml3Scope::block(p1, debug)?;
        Ok((parser.at(p2.pointer), Command::For { var: head.0, iterator: head.1, body }))
    }

    /// Reads a loop behind its keyword.
    fn visit_loop<'a>(parser: Parser<'a>, debug: bool) -> (r: Result<
        (Parser<'a>, Command),
        DecodeError,
    >)
        requires
            parser.pointer <= parser.bytes@.len(),
        ensures
            reads(
                r,
                src_loop(parser.bytes@, parser.pointer as int, debug),
                parser,
                |c: Command| c@,
            ),
        decreases parser.bytes@.len() - parser.pointer, 2nat,
    {
        let (p, body) = Aml3Scope::block(parser, debug)?;
        Ok((p, Command::Loop { body }))
    }

    /// Reads what stands behind a keyword and the space after it.
    fn visit_after_keyword<'a>(parser: Parser<'a>, start: usize, word: &String, debug: bool) -> (r:
        Result<(Parser<'a>, Command), DecodeError>)
        requires
            parser.pointer <= parser.bytes@.len(),
        ensures
            reads(
                r,
                src_after_keyword(parser.bytes@, parser.pointer as int, start as int, word@, debug),
                parser,
                |c: Command| c@,
            ),
        decreases parser.bytes@.len() - parser.pointer, 3nat,
    {
        let w = word.as_str();
        if text_eq(w, "builtin") {
            Aml3Command::visit_builtin(parser)
        } else if text_eq(w, "call") {
            Aml3Command::visit_call(parser)
        } else if text_eq(w, "declare") {
            Aml3Command::visit_declare(parser)
        } else if text_eq(w, "if") {
            Aml3Command::visit_conditional(parser, debug)
        } else if text_eq(w, "loop") {
            Aml3Command::visit_loop(parser, debug)
        } else if text_eq(w, "puts") || text_eq(w, "ret") {
            Aml3Command::visit_with_value(parser, word)
        } else if text_eq(w, "struct") {
            Aml3Command::visit_struct(parser)
        } else if text_eq(w, "fn") {
            Aml3Command::visit_function(parser, debug)
        } else if text_eq(w, "for") {
            Aml3Command::visit_for(parser, debug)
        } else {
            Err(DecodeError { fault: DecodeFault::UnknownCommand, at: start })
        }
    }

    /// Reads a statement that starts with `@`.
    fn visit_command<'a>(parser: Parser<'a>, debug: bool) -> (r: Result<
        (Parser<'a>, Command),
        DecodeError,
    >)
        requires
            parser.pointer < parser.bytes@.len(),
        ensures
            reads(
                r,
                src_keyword(parser.bytes@, parser.pointer as int, debug),
                parser,
                |c: Command| c@,
            ),
        decreases parser.bytes@.len() - parser.pointer, 4nat,
    {
        let bytes = parser.bytes;
        let pos = parser.pointer;
        let (p1, word) = take_until_space(parser.at(pos + 1))?;
        if text_eq(word.as_str(), "break") {
            return Ok((parser.at(p1.pointer), Command::Break));
        }
        if !(p1.pointer < bytes.len() && bytes[p1.pointer] == 32) {
            return Err(DecodeError { fault: DecodeFault::ExpectedSpace, at: p1.pointer });
        }
        let (p2, c) = Aml3Command::visit_after_keyword(parser.at(p1.pointer + 1), pos, &word, debug)?;
        Ok((parser.at(p2.pointer), c))
    }

    /// Reads a statement.
    pub fn visit<'a>(parser: Parser<'a>, debug: bool) -> (r: Result<
        (Parser<'a>, Command),
        DecodeError,
    >)
        ensures
            reads(
                r,
                src_command(parser.bytes@, parser.pointer as int, debug),
                parser,
                |c: Command| c@,
            ),
        decreases parser.bytes@.len() - parser.pointer, 5nat,
    {
        let bytes = parser.bytes;
        let pos = parser.pointer;
        if pos >= bytes.len() {
            return Err(DecodeError { fault: DecodeFault::ExpectedCommand, at: pos });
        }
        let b = bytes[pos];
        if b == 64 {
            Aml3Command::visit_command(parser, debug)
        } else if b == 61 {
            let (p, c) = Aml3Command::visit_asgn(parser.at(pos + 1))?;
            Ok((parser.at(p.pointer), c))
        } else if b == 123 {
            let (p, body) = Aml3Scope::block(parser, debug)?;
            Ok((p, Command::Scope { body }))
        } else {
            Err(DecodeError { fault: DecodeFault::ExpectedCommand, at: pos })
        }
    }
}

impl Aml3Scope {
    /// Reads a block: statements between braces.
    pub fn block<'a>(parser: Parser<'a>, debug: bool) -> (r: Result<
        (Parser<'a>, Vec<Command>),
        DecodeError,
    >)
        ensures
            reads(
                r,
                src_block(parser.bytes@, parser.pointer as int, debug),
                parser,
                |v: Vec<Command>| commands_model(v@),
            ),
        decreases parser.bytes@.len() - parser.pointer, 0nat,
    {
        let bytes = parser.bytes;
        let pos = parser.pointer;
        if !(pos < bytes.len() && bytes[pos] == 123) {
            return Err(DecodeError { fault: DecodeFault::ExpectedBlock, at: pos });
        }
        let (p, body) = Aml3Scope::visit(parser.at(pos + 1), true, debug)?;
        Ok((parser.at(p.pointer), body))
    }

    /// The source position that a statement at `pos` gets where positions
    /// are asked for.
    fn position(bytes: &[u8], pos: usize) -> (r: Result<Command, DecodeError>)
        ensures
            match r {
                Ok(c) => src_position(bytes@, pos as int) == Ok::<(CommandModel, int), Failure>(
                    (c@, pos as int),
                ),
                Err(e) => src_position(bytes@, pos as int) == Err::<(CommandModel, int), Failure>(
                    e@,
                ),
            },
    {
        let end = find_line_end(bytes, pos);
        let code = text_of(bytes, pos, end)?;
        Ok(Command::Meta { pos: (count_lines(bytes, pos), 0), code })
    }

    /// Reads statements: up to the closing brace inside a block (`outer`), up
    /// to the end of the text outside. With `debug` every statement gets a
    /// source position before it.
    #[verifier::loop_isolation(false)]
    pub fn visit<'a>(parser: Parser<'a>, outer: bool, debug: bool) -> (r: Result<
        (Parser<'a>, Vec<Command>),
        DecodeError,
    >)
        ensures
            reads(
                r,
                src_commands(parser.bytes@, parser.pointer as int, outer, debug, Seq::empty()),
                parser,
                |v: Vec<Command>| commands_model(v@),
            ),
        decreases parser.bytes@.len() - parser.pointer, 6nat,
    {
        let bytes = parser.bytes;
        let ghost s = bytes@;
        let ghost goal = src_commands(s, parser.pointer as int, outer, debug, Seq::empty());
        let mut out: Vec<Command> = Vec::new();
        let mut cur: usize = parser.pointer;
        assert(commands_model(out@) =~= Seq::<CommandModel>::empty());
        if cur > bytes.len() {
            if outer {
                return Err(DecodeError { fault: DecodeFault::UnclosedBlock, at: cur });
            } else {
                return Ok((parser, out));
            }
        }
        loop
            invariant
                parser.pointer <= cur <= s.len(),
                goal == src_commands(s, cur as int, outer, debug, commands_model(out@)),
            decreases s.len() - cur,
        {
            let p = pass_blank(bytes, cur);
            if p >= bytes.len() {
                if outer {
                    return Err(DecodeError { fault: DecodeFault::UnclosedBlock, at: p });
                } else {
                    return Ok((parser.at(p), out));
                }
            }
            if outer && bytes[p] == 125 {
                return Ok((parser.at(p + 1), out));
            }
            if bytes[p] == 33 {
                let (p1, meta) = Aml3Meta::visit(parser.at(p))?;
                if p1.pointer <= p {
                    return Err(DecodeError { fault: DecodeFault::UnexpectedEnd, at: p });
                }
                let ghost before = out@;
                let ghost m = meta@;
                out.push(meta);
                assert(commands_model(out@) =~= commands_model(before).push(m));
                cur = p1.pointer;
            } else {
                if debug {
                    let meta = Aml3Scope::position(bytes, p)?;
                    let ghost before = out@;
                    let ghost m = meta@;
                    out.push(meta);
                    assert(commands_model(out@) =~= commands_model(before).push(m));
                }
                let (p1, c) = Aml3Command::visit(parser.at(p), debug)?;
                if p1.pointer <= p {
                    return Err(DecodeError { fault: DecodeFault::UnexpectedEnd, at: p });
                }
                let ghost before = out@;
                let ghost m = c@;
                out.push(c);
                assert(commands_model(out@) =~= commands_model(before).push(m));
                cur = p1.pointer;
            }
        }
    }
}

} // verus!
