use vstd::prelude::*;
use crate::aml3::expr::Aml3Expr;
use crate::aml3::grammar::src_decl_block;
use crate::aml3::grammar::src_def_block;
use crate::aml3::grammar::src_members;
use crate::aml3::lexer::pass_space;
use crate::aml3::lexer::reads;
use crate::aml3::lexer::take_until_space;
use crate::aml3::types::Aml3Type;
use crate::error::DecodeError;
use crate::error::DecodeFault;
use crate::parser::Parser;
use crate::tokens::command::members_model;
use crate::tokens::expr::CommandExpression;
use crate::tokens::expr::inits_model;
use crate::tokens::types::AmvmType;
use crate::tokens::types::TypeModel;

verus! {

/// The reader of the braces of structs in source text.
pub struct Aml3Struct;

impl Aml3Struct {
    /// Reads the fields of a struct declaration up to the closing brace.
    #[verifier::loop_isolation(false)]
    fn members<'a>(parser: Parser<'a>) -> (r: Result<
        (Parser<'a>, Vec<(String, AmvmType)>),
        DecodeError,
    >)
        ensures
            reads(
                r,
                src_members(parser.bytes@, parser.pointer as int, Seq::empty()),
                parser,
                |v: Vec<(String, AmvmType)>| members_model(v@),
            ),
    {
        let bytes = parser.bytes;
        let ghost s = bytes@;
        let ghost goal = src_members(s, parser.pointer as int, Seq::empty());
        let mut out: Vec<(String, AmvmType)> = Vec::new();
        let mut cur: usize = parser.pointer;
        assert(members_model(out@) =~= Seq::<(Seq<char>, TypeModel)>::empty());
        loop
            invariant
                parser.pointer <= cur,
                parser.pointer <= s.len() ==> cur <= s.len(),
                goal == src_members(s, cur as int, members_model(out@)),
            decreases s.len() - cur,
        {
            let p = pass_space(bytes, cur);
            if p >= bytes.len() {
                return Err(DecodeError { fault: DecodeFault::UnclosedBlock, at: p });
            }
            if bytes[p] == 125 {
                return Ok((parser.at(p + 1), out));
            }
            let (p1, name) = take_until_space(parser.at(p))?;
            if !(p1.pointer < bytes.len() && bytes[p1.pointer] == 32) {
                return Err(DecodeError { fault: DecodeFault::ExpectedSpace, at: p1.pointer });
            }
            let (p2, t) = Aml3Type::visit(parser.at(p1.pointer + 1))?;
            let ghost before = out@;
            let ghost m = (name@, t@);
            out.push((name, t));
            assert(members_model(out@) =~= members_model(before).push(m));
            cur = p2.pointer;
        }
    }

    /// Reads the fields of a struct declaration between braces.
    pub fn visit_decl_block<'a>(parser: Parser<'a>) -> (r: Result<
        (Parser<'a>, Vec<(String, AmvmType)>),
        DecodeError,
    >)
        ensures
            reads(
                r,
                src_decl_block(parser.bytes@, parser.pointer as int),
                parser,
                |v: Vec<(String, AmvmType)>| members_model(v@),
            ),
    {
        let bytes = parser.bytes;
        let pos = parser.pointer;
        if !(pos < bytes.len() && bytes[pos] == 123) {
            return Err(DecodeError { fault: DecodeFault::ExpectedBlock, at: pos });
        }
        let (p, v) = Aml3Struct::members(parser.at(pos + 1))?;
        Ok((parser.at(p.pointer), v))
    }

    /// Reads the field initialisers of a struct construction between braces.
    pub fn visit_def_block<'a>(parser: Parser<'a>) -> (r: Result<
        (Parser<'a>, Vec<(String, CommandExpression)>),
        DecodeError,
    >)
        ensures
            reads(
                r,
                src_def_block(parser.bytes@, parser.pointer as int),
                parser,
                |v: Vec<(String, CommandExpression)>| inits_model(v@),
            ),
    {
        Aml3Expr::def_block(parser)
    }
}

} // verus!
