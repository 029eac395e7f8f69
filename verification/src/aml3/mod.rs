//! The front end for source text.

use vstd::prelude::*;
use crate::aml3::command::Aml3Scope;
use crate::aml3::error::Aml3Error;
use crate::aml3::statements::src_program;
use crate::error::DecodeError;
use crate::error::Failure;
use crate::parser::Parser;
use crate::tokens::command::Command;
use crate::tokens::command::CommandModel;
use crate::tokens::command::commands_model;

pub mod command;
pub mod error;
pub mod expr;
pub mod grammar;
pub mod lexer;
pub mod meta;
pub mod statements;
pub mod structs;
pub mod types;
pub mod value;
pub mod variable;

verus! {

/// Reads a whole source text. With `debug` every statement gets a source
/// position before it.
pub fn parse(source: &[u8], debug: bool) -> (r: Result<Vec<Command>, DecodeError>)
    ensures
        match r {
            Ok(cs) => src_program(source@, debug) == Ok::<(Seq<CommandModel>, int), Failure>(
                (commands_model(cs@), source@.len() as int),
            ),
            Err(e) => src_program(source@, debug) == Err::<(Seq<CommandModel>, int), Failure>(e@),
        },
{
    let (p, cs) = Aml3Scope::visit(Parser::new(source, false), false, debug)?;
    proof {
        crate::aml3::statements::lemma_program_ends(source@, 0, debug, Seq::empty());
    }
    Ok(cs)
}

/// Reads a whole source text, without source positions for its statements.
pub fn from_str(source: &str) -> (r: Result<Vec<Command>, Aml3Error>)
    ensures
        match r {
            Ok(cs) => src_program(vstd::utf8::encode_utf8(source@), false) matches Ok((m, _)) && m
                == commands_model(cs@),
            Err(e) => src_program(vstd::utf8::encode_utf8(source@), false) matches Err(f) && e.at
                == f.at && e.description@ == crate::error::fault_message(f.fault) && e.line
                == crate::aml3::grammar::line_of(vstd::utf8::encode_utf8(source@), f.at) && e.column
                == f.at - crate::aml3::error::line_start(vstd::utf8::encode_utf8(source@), f.at)
                && e.context@ == crate::render::text_line(
                vstd::utf8::encode_utf8(source@),
                crate::aml3::error::line_start(vstd::utf8::encode_utf8(source@), f.at),
            ),
        },
{
    let bytes = source.as_bytes();
    match parse(bytes, false) {
        Ok(cs) => Ok(cs),
        Err(e) => Err(Aml3Error::locate(bytes, &e)),
    }
}

} // verus!
