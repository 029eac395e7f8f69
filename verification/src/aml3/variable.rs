use vstd::prelude::*;
use crate::aml3::grammar::src_variable;
use crate::aml3::grammar::src_word;
use crate::aml3::lexer::reads;
use crate::aml3::lexer::take_until_space;
use crate::error::DecodeError;
use crate::error::DecodeFault;
use crate::parser::Parser;

verus! {

/// The reader of variables in source text.
pub struct Aml3Variable;

impl Aml3Variable {
    /// Reads the name of a variable: a word.
    pub fn visit_ident<'a>(parser: Parser<'a>) -> (r: Result<(Parser<'a>, String), DecodeError>)
        ensures
            reads(r, src_word(parser.bytes@, parser.pointer as int), parser, |t: String| t@),
    {
        take_until_space(parser)
    }

    /// Reads a variable: a `$` and its name.
    pub fn visit<'a>(parser: Parser<'a>) -> (r: Result<(Parser<'a>, String), DecodeError>)
        ensures
            reads(r, src_variable(parser.bytes@, parser.pointer as int), parser, |t: String| t@),
    {
        if parser.pointer < parser.bytes.len() && parser.bytes[parser.pointer] == 36 {
            let (p, name) = Aml3Variable::visit_ident(parser.at(parser.pointer + 1))?;
            Ok((parser.at(p.pointer), name))
        } else {
            Err(DecodeError { fault: DecodeFault::ExpectedVariable, at: parser.pointer })
        }
    }
}

} // verus!
