use vstd::prelude::*;
use crate::aml3::grammar::src_tuple;
use crate::aml3::grammar::src_tuple_items;
use crate::aml3::grammar::src_type;
use crate::aml3::grammar::src_type_name;
use crate::aml3::grammar::src_type_word;
use crate::aml3::grammar::type_of_word;
use crate::aml3::lexer::find_type_word_end;
use crate::aml3::lexer::find_word_end;
use crate::aml3::lexer::reads;
use crate::aml3::lexer::text_of;
use crate::error::DecodeError;
use crate::error::DecodeFault;
use crate::parser::Parser;
use crate::tokens::scope::name_model;
use crate::tokens::types::AmvmPrimitiveType;
use crate::tokens::types::AmvmType;
use crate::tokens::types::TypeModel;
use crate::tokens::types::types_model;
use crate::utils::text_eq;

verus! {

/// The reader of types in source text.
pub struct Aml3Type;

/// The type that a word names.
pub fn type_from_word(word: String) -> (r: AmvmType)
    ensures
        r@ == type_of_word(word@),
{
    if text_eq(word.as_str(), "string") {
        AmvmType::Primitive(AmvmPrimitiveType::String)
    } else if text_eq(word.as_str(), "u8") {
        AmvmType::Primitive(AmvmPrimitiveType::U8)
    } else if text_eq(word.as_str(), "bool") {
        AmvmType::Primitive(AmvmPrimitiveType::Bool)
    } else {
        AmvmType::Named(word)
    }
}

impl Aml3Type {
    /// Reads the name of a type: a `#` and a word, or a lone `#`.
    pub fn visit_name<'a>(parser: Parser<'a>) -> (r: Result<
        (Parser<'a>, Option<String>),
        DecodeError,
    >)
        ensures
            reads(
                r,
                src_type_name(parser.bytes@, parser.pointer as int),
                parser,
                |n: Option<String>| name_model(n),
            ),
    {
        if !(parser.pointer < parser.bytes.len() && parser.bytes[parser.pointer] == 35) {
            return Err(DecodeError { fault: DecodeFault::ExpectedType, at: parser.pointer });
        }
        let start = parser.pointer + 1;
        let end = find_word_end(parser.bytes, start);
        if end <= start {
            Ok((parser.at(start), None))
        } else {
            let name = text_of(parser.bytes, start, end)?;
            Ok((parser.at(end), Some(name)))
        }
    }

    /// Reads a type that is one word.
    fn visit_word<'a>(parser: Parser<'a>) -> (r: Result<(Parser<'a>, AmvmType), DecodeError>)
        ensures
            reads(
                r,
                src_type_word(parser.bytes@, parser.pointer as int),
                parser,
                |t: AmvmType| t@,
            ),
    {
        let pos = parser.pointer;
        let end = find_type_word_end(parser.bytes, pos);
        if end <= pos {
            Ok((parser, AmvmType::Anonymous))
        } else if parser.bytes[pos] == 35 {
            if end == pos + 1 {
                Ok((parser.at(end), AmvmType::Anonymous))
            } else {
                let name = text_of(parser.bytes, pos + 1, end)?;
                Ok((parser.at(end), AmvmType::Named(name)))
            }
        } else {
            let word = text_of(parser.bytes, pos, end)?;
            Ok((parser.at(end), type_from_word(word)))
        }
    }

    /// Reads the members of a tuple type, behind its opening bracket.
    #[verifier::loop_isolation(false)]
    fn visit_items<'a>(parser: Parser<'a>) -> (r: Result<(Parser<'a>, AmvmType), DecodeError>)
        requires
            parser.pointer <= parser.bytes@.len(),
        ensures
            reads(
                r,
                src_tuple_items(parser.bytes@, parser.pointer as int, Seq::empty()),
                parser,
                |t: AmvmType| t@,
            ),
        decreases parser.bytes@.len() - parser.pointer, 2nat,
    {
        let bytes = parser.bytes;
        let ghost s = bytes@;
        let ghost goal = src_tuple_items(s, parser.pointer as int, Seq::empty());
        let mut items: Vec<AmvmType> = Vec::new();
        let mut cur: usize = parser.pointer;
        assert(types_model(items@) =~= Seq::<TypeModel>::empty());
        loop
            invariant
                parser.pointer <= cur <= s.len(),
                goal == src_tuple_items(s, cur as int, types_model(items@)),
            decreases s.len() - cur,
        {
            let p: usize = if cur < bytes.len() && bytes[cur] == 32 {
                cur + 1
            } else {
                cur
            };
            let (p1, t) = Aml3Type::visit(parser.at(p))?;
            let ghost before = items@;
            let ghost m = t@;
            items.push(t);
            assert(types_model(items@) =~= types_model(before).push(m));
            if p1.pointer < bytes.len() && bytes[p1.pointer] == 41 {
                return Ok((parser.at(p1.pointer + 1), AmvmType::Tuple(items)));
            } else if p1.pointer < bytes.len() && bytes[p1.pointer] == 44 {
                cur = p1.pointer + 1;
            } else {
                return Err(DecodeError { fault: DecodeFault::UnclosedTuple, at: p1.pointer });
            }
        }
    }

    /// Reads a tuple type: its members between round brackets.
    pub fn visit_tuple<'a>(parser: Parser<'a>) -> (r: Result<(Parser<'a>, AmvmType), DecodeError>)
        ensures
            reads(r, src_tuple(parser.bytes@, parser.pointer as int), parser, |t: AmvmType| t@),
        decreases parser.bytes@.len() - parser.pointer, 3nat,
    {
        if parser.pointer < parser.bytes.len() && parser.bytes[parser.pointer] == 40 {
            let (p, t) = Aml3Type::visit_items(parser.at(parser.pointer + 1))?;
            Ok((parser.at(p.pointer), t))
        } else {
            Err(DecodeError { fault: DecodeFault::UnclosedTuple, at: parser.pointer })
        }
    }

    /// Reads a type.
    pub fn visit<'a>(parser: Parser<'a>) -> (r: Result<(Parser<'a>, AmvmType), DecodeError>)
        ensures
            reads(r, src_type(parser.bytes@, parser.pointer as int), parser, |t: AmvmType| t@),
        decreases parser.bytes@.len() - parser.pointer, 1nat,
    {
        let bytes = parser.bytes;
        let pos = parser.pointer;
        if pos >= bytes.len() {
            return Err(DecodeError { fault: DecodeFault::UnexpectedEnd, at: pos });
        }
        if bytes[pos] == 43 {
            if !(pos + 1 < bytes.len() && bytes[pos + 1] == 32) {
                return Err(DecodeError { fault: DecodeFault::ExpectedSpace, at: pos + 1 });
            }
            let (p1, a) = Aml3Type::visit(parser.at(pos + 2))?;
            if !(p1.pointer < bytes.len() && bytes[p1.pointer] == 32) {
                return Err(DecodeError { fault: DecodeFault::ExpectedSpace, at: p1.pointer });
            }
            let (p2, b) = Aml3Type::visit(parser.at(p1.pointer + 1))?;
            Ok((parser.at(p2.pointer), AmvmType::Union(Box::new(a), Box::new(b))))
        } else if bytes[pos] == 40 {
            let (p, t) = Aml3Type::visit_items(parser.at(pos + 1))?;
            Ok((parser.at(p.pointer), t))
        } else {
            Aml3Type::visit_word(parser)
        }
    }
}

} // verus!
