use vstd::prelude::*;
use crate::aml3::grammar::src_meta;
use crate::aml3::lexer::find_line_end;
use crate::aml3::lexer::reads;
use crate::aml3::lexer::take_u16;
use crate::aml3::lexer::text_of;
use crate::error::DecodeError;
use crate::error::DecodeFault;
use crate::parser::Parser;
use crate::tokens::command::Command;

verus! {

/// The reader of source positions in source text.
pub struct Aml3Meta;

impl Aml3Meta {
    /// Reads the name of a source file: `!! name`, up to the end of the line.
    fn visit_file_meta<'a>(parser: Parser<'a>) -> (r: Result<(Parser<'a>, Command), DecodeError>)
        requires
            crate::aml3::grammar::at(parser.bytes@, parser.pointer as int, 33),
            crate::aml3::grammar::at(parser.bytes@, parser.pointer + 1, 33),
        ensures
            reads(r, src_meta(parser.bytes@, parser.pointer as int), parser, |c: Command| c@),
    {
        let bytes = parser.bytes;
        let pos = parser.pointer;
        let n = bytes.len();
        assert(pos + 1 < n);
        if !(pos + 2 < n && bytes[pos + 2] == 32) {
            return Err(DecodeError { fault: DecodeFault::ExpectedSpace, at: pos + 2 });
        }
        let end = find_line_end(bytes, pos + 3);
        let name = text_of(bytes, pos + 3, end)?;
        Ok((parser.at(end), Command::MetaFile(name)))
    }

    /// Reads a source position, `! line:column code`, or the name of a source
    /// file, `!! name`.
    pub fn visit<'a>(parser: Parser<'a>) -> (r: Result<(Parser<'a>, Command), DecodeError>)
        ensures
            reads(r, src_meta(parser.bytes@, parser.pointer as int), parser, |c: Command| c@),
    {
        let bytes = parser.bytes;
        let pos = parser.pointer;
        if !(pos < bytes.len() && bytes[pos] == 33) {
            return Err(DecodeError { fault: DecodeFault::ExpectedCommand, at: pos });
        }
        if pos + 1 < bytes.len() && bytes[pos + 1] == 33 {
            return Aml3Meta::visit_file_meta(parser);
        }
        if !(pos + 1 < bytes.len() && bytes[pos + 1] == 32) {
            return Err(DecodeError { fault: DecodeFault::ExpectedSpace, at: pos + 1 });
        }
        let (p1, line) = take_u16(parser.at(pos + 2))?;
        if !(p1.pointer < bytes.len() && bytes[p1.pointer] == 58) {
            return Err(DecodeError { fault: DecodeFault::ExpectedColon, at: p1.pointer });
        }
        let (p2, col) = take_u16(parser.at(p1.pointer + 1))?;
        if !(p2.pointer < bytes.len() && bytes[p2.pointer] == 32) {
            return Err(DecodeError { fault: DecodeFault::ExpectedSpace, at: p2.pointer });
        }
        let end = find_line_end(bytes, p2.pointer + 1);
        let code = text_of(bytes, p2.pointer + 1, end)?;
        Ok((parser.at(end), Command::Meta { pos: (line, col), code }))
    }
}

} // verus!
