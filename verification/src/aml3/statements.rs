use vstd::prelude::*;
use crate::aml3::grammar::at;
use crate::aml3::grammar::line_end;
use crate::aml3::grammar::line_of;
use crate::aml3::grammar::skip_blank;
use crate::aml3::grammar::src_args;
use crate::aml3::grammar::src_decl_block;
use crate::aml3::grammar::src_expr;
use crate::aml3::grammar::src_meta;
use crate::aml3::grammar::src_type;
use crate::aml3::grammar::src_type_name;
use crate::aml3::grammar::src_variable;
use crate::aml3::grammar::src_word;
use crate::aml3::grammar::text_between;
use crate::error::DecodeFault;
use crate::error::Parsed;
use crate::error::fail;
use crate::tokens::command::CommandModel;
use crate::tokens::expr::ExprModel;
use crate::tokens::kind::VariableKind;
use crate::tokens::kind::kind_of_keyword;
use crate::tokens::types::TypeModel;
use crate::tokens::value::ParameterModel;

verus! {

/// Reads a variable and the space behind it at `pos`.
pub open spec fn src_variable_space(s: Seq<u8>, pos: int) -> Parsed<Seq<char>> {
    match src_variable(s, pos) {
        Err(e) => Err(e),
        Ok((name, p)) => if at(s, p, 32) {
            Ok((name, p + 1))
        } else {
            fail(DecodeFault::ExpectedSpace, p)
        },
    }
}

/// Reads an assignment behind its `=`: a variable, with or without a space
/// before it, a space, and an expression.
pub open spec fn src_assign(s: Seq<u8>, pos: int) -> Parsed<CommandModel> {
    let p = if at(s, pos, 32) {
        pos + 1
    } else {
        pos
    };
    match src_variable_space(s, p) {
        Err(e) => Err(e),
        Ok((name, p1)) => match src_expr(s, p1) {
            Err(e) => Err(e),
            Ok((value, p2)) => Ok((CommandModel::AssignVariable { name, value }, p2)),
        },
    }
}

/// Reads the kind of a declaration at `pos`: a keyword and a space, or
/// nothing before the `$` of a constant.
pub open spec fn src_kind(s: Seq<u8>, pos: int) -> Parsed<VariableKind> {
    if at(s, pos, 36) {
        Ok((VariableKind::Const, pos))
    } else {
        match src_word(s, pos) {
            Err(e) => Err(e),
            Ok((word, p)) => match kind_of_keyword(word) {
                None => fail(DecodeFault::UnknownVariableKind, pos),
                Some(kind) => if at(s, p, 32) {
                    Ok((kind, p + 1))
                } else {
                    fail(DecodeFault::ExpectedSpace, p)
                },
            },
        }
    }
}

/// Reads a declaration behind its keyword: a kind, a variable, and an
/// expression.
pub open spec fn src_declare(s: Seq<u8>, pos: int) -> Parsed<CommandModel> {
    match src_kind(s, pos) {
        Err(e) => Err(e),
        Ok((kind, p1)) => match src_variable_space(s, p1) {
            Err(e) => Err(e),
            Ok((name, p2)) => match src_expr(s, p2) {
                Err(e) => Err(e),
                Ok((value, p3)) => Ok((CommandModel::DeclareVariable { name, kind, value }, p3)),
            },
        },
    }
}

/// Reads a builtin call behind its keyword: the name of the builtin and its
/// arguments.
pub open spec fn src_builtin(s: Seq<u8>, pos: int) -> Parsed<CommandModel> {
    match src_word(s, pos) {
        Err(e) => Err(e),
        Ok((name, p1)) => match src_args(s, p1, Seq::empty()) {
            Err(e) => Err(e),
            Ok((args, p2)) => Ok((CommandModel::Builtin { name, args }, p2)),
        },
    }
}

/// Reads a call behind its keyword: the callee and the arguments.
pub open spec fn src_call(s: Seq<u8>, pos: int) -> Parsed<CommandModel> {
    match src_expr(s, pos) {
        Err(e) => Err(e),
        Ok((name, p1)) => match src_args(s, p1, Seq::empty()) {
            Err(e) => Err(e),
            Ok((args, p2)) => Ok((CommandModel::Call { name, args }, p2)),
        },
    }
}

/// Reads a struct declaration behind its keyword: the name of the type, a
/// space, and the fields between braces.
pub open spec fn src_struct(s: Seq<u8>, pos: int) -> Parsed<CommandModel> {
    match src_type_name(s, pos) {
        Err(e) => Err(e),
        Ok((name, p1)) => if !at(s, p1, 32) {
            fail(DecodeFault::ExpectedSpace, p1)
        } else {
            match src_decl_block(s, p1 + 1) {
                Err(e) => Err(e),
                Ok((body, p2)) => Ok(
                    (
                        CommandModel::Struct {
                            name: match name {
                                Some(n) => n,
                                None => Seq::empty(),
                            },
                            body,
                        },
                        p2,
                    ),
                ),
            }
        },
    }
}

/// Reads one parameter at `pos`: a kind where it is not constant, a variable,
/// and a type.
pub open spec fn src_parameter(s: Seq<u8>, pos: int) -> Parsed<ParameterModel> {
    match src_kind(s, pos) {
        Err(e) => Err(e),
        Ok((kind, p1)) => match src_variable_space(s, p1) {
            Err(e) => Err(e),
            Ok((name, p2)) => match src_type(s, p2) {
                Err(e) => Err(e),
                Ok((t, p3)) => Ok(((name, kind, t), p3)),
            },
        },
    }
}

/// Reads the parameters of a function behind those in `acc`: a space stands
/// before each, and the space before the opening brace of the body ends them.
pub open spec fn src_parameters(s: Seq<u8>, pos: int, acc: Seq<ParameterModel>) -> Parsed<
    Seq<ParameterModel>,
>
    decreases s.len() - pos,
{
    if !at(s, pos, 32) {
        fail(DecodeFault::ExpectedSpace, pos)
    } else if at(s, pos + 1, 123) {
        Ok((acc, pos + 1))
    } else {
        match src_parameter(s, pos + 1) {
            Err(e) => Err(e),
            Ok((p, p1)) => if pos < p1 <= s.len() {
                src_parameters(s, p1, acc.push(p))
            } else {
                fail(DecodeFault::UnexpectedEnd, pos)
            },
        }
    }
}

/// Reads the head of a function definition behind its keyword: the return
/// type, the name, and the parameters.
pub open spec fn src_function_head(s: Seq<u8>, pos: int) -> Parsed<
    (Seq<char>, Seq<ParameterModel>, TypeModel),
> {
    match src_type(s, pos) {
        Err(e) => Err(e),
        Ok((ret, p1)) => if !at(s, p1, 32) {
            fail(DecodeFault::ExpectedSpace, p1)
        } else {
            match src_variable(s, p1 + 1) {
                Err(e) => Err(e),
                Ok((name, p2)) => match src_parameters(s, p2, Seq::empty()) {
                    Err(e) => Err(e),
                    Ok((args, p3)) => Ok(((name, args, ret), p3)),
                },
            }
        },
    }
}

/// Reads the head of a `for` loop behind its keyword: the variable, the
/// iterator, and the space before the body.
pub open spec fn src_for_head(s: Seq<u8>, pos: int) -> Parsed<(Seq<char>, ExprModel)> {
    match src_variable_space(s, pos) {
        Err(e) => Err(e),
        Ok((var, p1)) => match src_expr(s, p1) {
            Err(e) => Err(e),
            Ok((iterator, p2)) => if at(s, p2, 32) {
                Ok(((var, iterator), p2 + 1))
            } else {
                fail(DecodeFault::ExpectedSpace, p2)
            },
        },
    }
}

/// Reads the condition of a conditional behind its keyword, and the space
/// before the body.
pub open spec fn src_condition(s: Seq<u8>, pos: int) -> Parsed<ExprModel> {
    match src_expr(s, pos) {
        Err(e) => Err(e),
        Ok((condition, p1)) => if at(s, p1, 32) {
            Ok((condition, p1 + 1))
        } else {
            fail(DecodeFault::ExpectedSpace, p1)
        },
    }
}

/// Reads a statement that takes an expression behind its keyword.
pub open spec fn src_with_value(s: Seq<u8>, pos: int, word: Seq<char>) -> Parsed<CommandModel> {
    match src_expr(s, pos) {
        Err(e) => Err(e),
        Ok((value, p)) => if word == "puts"@ {
            Ok((CommandModel::Puts { value }, p))
        } else {
            Ok((CommandModel::Return { value }, p))
        },
    }
}

/// The position that a statement at `pos` gets where positions are asked
/// for: its line, and the text of the line from the statement on.
pub open spec fn src_position(s: Seq<u8>, pos: int) -> Parsed<CommandModel> {
    match text_between(s, pos, line_end(s, pos)) {
        Err(e) => Err(e),
        Ok((code, p)) => Ok(
            (CommandModel::Meta { pos: ((line_of(s, pos) % 65536) as u16, 0), code }, pos),
        ),
    }
}

/// Reads the second branch of a conditional behind its first: a space may
/// stand before it, and `@else` and a block make it.
pub open spec fn src_otherwise(s: Seq<u8>, pos: int, debug: bool) -> Parsed<
    Option<Seq<CommandModel>>,
>
    decreases s.len() - pos, 1nat,
{
    let p = if at(s, pos, 32) {
        pos + 1
    } else {
        pos
    };
    if pos < 0 || !at(s, p, 64) {
        Ok((None, p))
    } else {
        match src_word(s, p + 1) {
            Err(e) => Err(e),
            Ok((word, p1)) => if word != "else"@ {
                fail(DecodeFault::ExpectedElse, p)
            } else if !(p < p1 < s.len()) || s[p1] != 32 {
                fail(DecodeFault::ExpectedSpace, p1)
            } else {
                match src_block(s, p1 + 1, debug) {
                    Err(e) => Err(e),
                    Ok((other, p2)) => Ok((Some(other), p2)),
                }
            },
        }
    }
}

/// Reads a conditional behind its keyword.
pub open spec fn src_conditional(s: Seq<u8>, pos: int, debug: bool) -> Parsed<CommandModel>
    decreases s.len() - pos, 2nat,
{
    match src_condition(s, pos) {
        Err(e) => Err(e),
        Ok((condition, p1)) => if !(pos <= p1 <= s.len()) {
            fail(DecodeFault::UnexpectedEnd, pos)
        } else {
            match src_block(s, p1, debug) {
                Err(e) => Err(e),
                Ok((body, p2)) => if !(pos <= p2 <= s.len()) {
                    fail(DecodeFault::UnexpectedEnd, pos)
                } else {
                    match src_otherwise(s, p2, debug) {
                        Err(e) => Err(e),
                        Ok((otherwise, p3)) => Ok(
                            (CommandModel::Conditional { condition, body, otherwise }, p3),
                        ),
                    }
                },
            }
        },
    }
}

/// Reads a function definition behind its keyword.
pub open spec fn src_function(s: Seq<u8>, pos: int, debug: bool) -> Parsed<CommandModel>
    decreases s.len() - pos, 2nat,
{
    match src_function_head(s, pos) {
        Err(e) => Err(e),
        Ok((head, p1)) => if !(pos <= p1 <= s.len()) {
            fail(DecodeFault::UnexpectedEnd, pos)
        } else {
            match src_block(s, p1, debug) {
                Err(e) => Err(e),
                Ok((body, p2)) => Ok(
                    (CommandModel::Function { name: head.0, args: head.1, ret: head.2, body }, p2),
                ),
            }
        },
    }
}

/// Reads a `for` loop behind its keyword.
pub open spec fn src_for(s: Seq<u8>, pos: int, debug: bool) -> Parsed<CommandModel>
    decreases s.len() - pos, 2nat,
{
    match src_for_head(s, pos) {
        Err(e) => Err(e),
        Ok((head, p1)) => if !(pos <= p1 <= s.len()) {
            fail(DecodeFault::UnexpectedEnd, pos)
        } else {
            match src_block(s, p1, debug) {
                Err(e) => Err(e),
                Ok((body, p2)) => Ok((CommandModel::For { var: head.0, iterator: head.1, body }, p2)),
            }
        },
    }
}

/// Reads a loop behind its keyword.
pub open spec fn src_loop(s: Seq<u8>, pos: int, debug: bool) -> Parsed<CommandModel>
    decreases s.len() - pos, 2nat,
{
    match src_block(s, pos, debug) {
        Err(e) => Err(e),
        Ok((body, p)) => Ok((CommandModel::Loop { body }, p)),
    }
}

/// Reads what stands behind the keyword `word` and the space after it.
pub open spec fn src_after_keyword(s: Seq<u8>, pos: int, start: int, word: Seq<char>, debug: bool) -> Parsed<
    CommandModel,
>
    decreases s.len() - pos, 3nat,
{
    if word == "builtin"@ {
        src_builtin(s, pos)
    } else if word == "call"@ {
        src_call(s, pos)
    } else if word == "declare"@ {
        src_declare(s, pos)
    } else if word == "if"@ {
        src_conditional(s, pos, debug)
    } else if word == "loop"@ {
        src_loop(s, pos, debug)
    } else if word == "puts"@ || word == "ret"@ {
        src_with_value(s, pos, word)
    } else if word == "struct"@ {
        src_struct(s, pos)
    } else if word == "fn"@ {
        src_function(s, pos, debug)
    } else if word == "for"@ {
        src_for(s, pos, debug)
    } else {
        fail(DecodeFault::UnknownCommand, start)
    }
}

/// Reads a statement that starts with `@` at `pos`: a keyword, and for every
/// keyword but `break` a space and what the keyword asks for.
pub open spec fn src_keyword(s: Seq<u8>, pos: int, debug: bool) -> Parsed<CommandModel>
    decreases s.len() - pos, 4nat,
{
    match src_word(s, pos + 1) {
        Err(e) => Err(e),
        Ok((word, p1)) => if word == "break"@ {
            Ok((CommandModel::Break, p1))
        } else if !(pos < p1 < s.len()) || s[p1] != 32 {
            fail(DecodeFault::ExpectedSpace, p1)
        } else {
            src_after_keyword(s, p1 + 1, pos, word, debug)
        },
    }
}

/// Reads a statement at `pos`.
pub open spec fn src_command(s: Seq<u8>, pos: int, debug: bool) -> Parsed<CommandModel>
    decreases s.len() - pos, 5nat,
{
    if !(0 <= pos < s.len()) {
        fail(DecodeFault::ExpectedCommand, pos)
    } else if s[pos] == 64 {
        src_keyword(s, pos, debug)
    } else if s[pos] == 61 {
        src_assign(s, pos + 1)
    } else if s[pos] == 123 {
        match src_block(s, pos, debug) {
            Err(e) => Err(e),
            Ok((body, p)) => Ok((CommandModel::Scope { body }, p)),
        }
    } else {
        fail(DecodeFault::ExpectedCommand, pos)
    }
}

/// Reads a block at `pos`: statements between braces.
pub open spec fn src_block(s: Seq<u8>, pos: int, debug: bool) -> Parsed<Seq<CommandModel>>
    decreases s.len() - pos, 0nat,
{
    if !at(s, pos, 123) {
        fail(DecodeFault::ExpectedBlock, pos)
    } else {
        src_commands(s, pos + 1, true, debug, Seq::empty())
    }
}

/// Reads statements behind those in `acc`. Blank bytes and comments stand
/// between them. Inside a block (`outer`) a closing brace ends them, and the
/// end of the text is an error; outside the end of the text ends them. A line
/// that starts with `!` is a source position or a file name. With `debug`
/// every statement gets a source position before it.
pub open spec fn src_commands(
    s: Seq<u8>,
    pos: int,
    outer: bool,
    debug: bool,
    acc: Seq<CommandModel>,
) -> Parsed<Seq<CommandModel>>
    decreases s.len() - pos, 6nat,
{
    let p = skip_blank(s, pos);
    if !(0 <= pos <= p < s.len()) {
        if outer {
            fail(DecodeFault::UnclosedBlock, p)
        } else {
            Ok((acc, p))
        }
    } else if outer && s[p] == 125 {
        Ok((acc, p + 1))
    } else if s[p] == 33 {
        match src_meta(s, p) {
            Err(e) => Err(e),
            Ok((meta, p1)) => if p < p1 <= s.len() {
                src_commands(s, p1, outer, debug, acc.push(meta))
            } else {
                fail(DecodeFault::UnexpectedEnd, p)
            },
        }
    } else {
        match src_marked(s, p, debug, acc) {
            Err(e) => Err(e),
            Ok((marked, _)) => match src_command(s, p, debug) {
                Err(e) => Err(e),
                Ok((c, p1)) => if p < p1 <= s.len() {
                    src_commands(s, p1, outer, debug, marked.push(c))
                } else {
                    fail(DecodeFault::UnexpectedEnd, p)
                },
            },
        }
    }
}

/// The statements in `acc`, and with `debug` the source position of the
/// statement at `pos` behind them.
pub open spec fn src_marked(s: Seq<u8>, pos: int, debug: bool, acc: Seq<CommandModel>) -> Parsed<
    Seq<CommandModel>,
> {
    if debug {
        match src_position(s, pos) {
            Err(e) => Err(e),
            Ok((meta, p)) => Ok((acc.push(meta), p)),
        }
    } else {
        Ok((acc, pos))
    }
}

/// Reads a whole source text.
pub open spec fn src_program(s: Seq<u8>, debug: bool) -> Parsed<Seq<CommandModel>> {
    src_commands(s, 0, false, debug, Seq::empty())
}

/// Statements outside a block are read up to the end of the text.
pub proof fn lemma_program_ends(s: Seq<u8>, pos: int, debug: bool, acc: Seq<CommandModel>)
    requires
        0 <= pos <= s.len(),
    ensures
        src_commands(s, pos, false, debug, acc) matches Ok((_, p)) ==> p == s.len(),
    decreases s.len() - pos,
{
    let p = skip_blank(s, pos);
    lemma_skip_blank_bounds(s, pos);
    if 0 <= pos <= p < s.len() {
        if s[p] == 33 {
            match src_meta(s, p) {
                Ok((meta, p1)) => {
                    if p < p1 <= s.len() {
                        lemma_program_ends(s, p1, debug, acc.push(meta));
                    }
                },
                Err(_) => {},
            }
        } else {
            match src_marked(s, p, debug, acc) {
                Ok((marked, _)) => {
                    match src_command(s, p, debug) {
                        Ok((c, p1)) => {
                            if p < p1 <= s.len() {
                                lemma_program_ends(s, p1, debug, marked.push(c));
                            }
                        },
                        Err(_) => {},
                    }
                },
                Err(_) => {},
            }
        }
    }
}

/// Skipping blank bytes and comments never moves back, nor beyond the end of
/// the text.
pub proof fn lemma_skip_blank_bounds(s: Seq<u8>, pos: int)
    requires
        0 <= pos <= s.len(),
    ensures
        pos <= skip_blank(s, pos) <= s.len(),
    decreases s.len() - pos,
{
    if pos < s.len() {
        if crate::aml3::grammar::is_space(s[pos]) {
            lemma_skip_blank_bounds(s, pos + 1);
        } else if s[pos] == 59 {
            let e = crate::aml3::grammar::comment_end(s, pos + 1);
            if pos < e <= s.len() {
                lemma_skip_blank_bounds(s, e);
            }
        }
    }
}

} // verus!
