use vstd::prelude::*;
use crate::aml3::grammar::operation;
use crate::aml3::grammar::src_def_block;
use crate::aml3::grammar::src_expr;
use crate::aml3::grammar::src_inits;
use crate::aml3::grammar::src_operands;
use crate::aml3::grammar::src_operator;
use crate::aml3::grammar::src_struct_expr;
use crate::aml3::lexer::pass_space;
use crate::aml3::lexer::reads;
use crate::aml3::lexer::take_until_space;
use crate::aml3::types::Aml3Type;
use crate::aml3::value::Aml3Value;
use crate::aml3::variable::Aml3Variable;
use crate::error::DecodeError;
use crate::error::DecodeFault;
use crate::error::Failure;
use crate::error::Parsed;
use crate::parser::Parser;
use crate::tokens::expr::BinaryKind;
use crate::tokens::expr::CommandExpression;
use crate::tokens::expr::ExprModel;
use crate::tokens::expr::inits_model;

verus! {

/// The reader of expressions in source text.
pub struct Aml3Expr;

/// The operator that starts at the cursor, and where its operands start.
pub fn take_operator<'a>(parser: Parser<'a>) -> (r: Option<
    Result<(usize, Option<BinaryKind>), DecodeError>,
>)
    ensures
        match r {
            None => src_operator(parser.bytes@, parser.pointer as int) == None::<
                Parsed<Option<BinaryKind>>,
            >,
            Some(Ok((start, kind))) => src_operator(parser.bytes@, parser.pointer as int) == Some(
                Ok::<(Option<BinaryKind>, int), Failure>((kind, start as int)),
            ) && parser.pointer < start <= parser.bytes@.len(),
            Some(Err(e)) => src_operator(parser.bytes@, parser.pointer as int) == Some(
                Err::<(Option<BinaryKind>, int), Failure>(e@),
            ),
        },
{
    let bytes = parser.bytes;
    let pos = parser.pointer;
    if pos >= bytes.len() {
        return None;
    }
    let b = bytes[pos];
    if b == 43 {
        Some(Ok((pos + 1, Some(BinaryKind::Add))))
    } else if b == 45 {
        Some(Ok((pos + 1, Some(BinaryKind::Sub))))
    } else if b == 42 {
        Some(Ok((pos + 1, Some(BinaryKind::Mult))))
    } else if b == 62 || b == 60 || b == 61 || b == 33 || b == 46 {
        if pos + 1 >= bytes.len() {
            return Some(Err(DecodeError { fault: DecodeFault::ExpectedOperator, at: pos + 1 }));
        }
        let c = bytes[pos + 1];
        if b == 62 {
            if c == 61 {
                Some(Ok((pos + 2, Some(BinaryKind::GreaterThanEqual))))
            } else {
                Some(Ok((pos + 1, Some(BinaryKind::GreaterThan))))
            }
        } else if b == 60 {
            if c == 61 {
                Some(Ok((pos + 2, Some(BinaryKind::LessThanEqual))))
            } else {
                Some(Ok((pos + 1, Some(BinaryKind::LessThan))))
            }
        } else if b == 61 {
            if c == 61 {
                Some(Ok((pos + 2, Some(BinaryKind::Equal))))
            } else {
                Some(Err(DecodeError { fault: DecodeFault::ExpectedOperator, at: pos }))
            }
        } else if b == 33 {
            if c == 61 {
                Some(Ok((pos + 2, Some(BinaryKind::NotEqual))))
            } else {
                Some(Err(DecodeError { fault: DecodeFault::ExpectedOperator, at: pos }))
            }
        } else {
            Some(Ok((pos + 1, None)))
        }
    } else {
        None
    }
}

impl Aml3Expr {
    /// Reads the two operands of an operator.
    fn operands<'a>(parser: Parser<'a>) -> (r: Result<
        (Parser<'a>, (CommandExpression, CommandExpression)),
        DecodeError,
    >)
        ensures
            reads(
                r,
                src_operands(parser.bytes@, parser.pointer as int),
                parser,
                |ab: (CommandExpression, CommandExpression)| (ab.0@, ab.1@),
            ),
        decreases parser.bytes@.len() - parser.pointer, 2nat,
    {
        let bytes = parser.bytes;
        let pos = parser.pointer;
        if !(pos < bytes.len() && bytes[pos] == 32) {
            return Err(DecodeError { fault: DecodeFault::ExpectedSpace, at: pos });
        }
        let (p1, a) = Aml3Expr::visit(parser.at(pos + 1))?;
        if !(p1.pointer < bytes.len() && bytes[p1.pointer] == 32) {
            return Err(DecodeError { fault: DecodeFault::ExpectedSpace, at: p1.pointer });
        }
        let (p2, b) = Aml3Expr::visit(parser.at(p1.pointer + 1))?;
        Ok((parser.at(p2.pointer), (a, b)))
    }

    /// Reads field initialisers up to the closing brace.
    #[verifier::loop_isolation(false)]
    fn inits<'a>(parser: Parser<'a>) -> (r: Result<
        (Parser<'a>, Vec<(String, CommandExpression)>),
        DecodeError,
    >)
        ensures
            reads(
                r,
                src_inits(parser.bytes@, parser.pointer as int, Seq::empty()),
                parser,
                |v: Vec<(String, CommandExpression)>| inits_model(v@),
            ),
        decreases parser.bytes@.len() - parser.pointer, 3nat,
    {
        let bytes = parser.bytes;
        let ghost s = bytes@;
        let ghost goal = src_inits(s, parser.pointer as int, Seq::empty());
        let mut out: Vec<(String, CommandExpression)> = Vec::new();
        let mut cur: usize = parser.pointer;
        assert(inits_model(out@) =~= Seq::<(Seq<char>, ExprModel)>::empty());
        loop
            invariant
                parser.pointer <= cur,
                parser.pointer <= s.len() ==> cur <= s.len(),
                goal == src_inits(s, cur as int, inits_model(out@)),
            decreases s.len() - cur,
        {
            let p = pass_space(bytes, cur);
            if p >= bytes.len() {
                return Err(DecodeError { fault: DecodeFault::UnclosedBlock, at: p });
            }
            if bytes[p] == 125 {
                return Ok((parser.at(p + 1), out));
            }
            let (p1, name) = take_until_space(parser.at(p))?;
            if !(p1.pointer < bytes.len() && bytes[p1.pointer] == 32) {
                return Err(DecodeError { fault: DecodeFault::ExpectedSpace, at: p1.pointer });
            }
            let (p2, value) = Aml3Expr::visit(parser.at(p1.pointer + 1))?;
            let ghost before = out@;
            let ghost m = (name@, value@);
            out.push((name, value));
            assert(inits_model(out@) =~= inits_model(before).push(m));
            cur = p2.pointer;
        }
    }

    /// Reads the field initialisers of a struct construction between braces.
    pub fn def_block<'a>(parser: Parser<'a>) -> (r: Result<
        (Parser<'a>, Vec<(String, CommandExpression)>),
        DecodeError,
    >)
        ensures
            reads(
                r,
                src_def_block(parser.bytes@, parser.pointer as int),
                parser,
                |v: Vec<(String, CommandExpression)>| inits_model(v@),
            ),
    {
        let bytes = parser.bytes;
        let pos = parser.pointer;
        if !(pos < bytes.len() && bytes[pos] == 123) {
            return Err(DecodeError { fault: DecodeFault::ExpectedBlock, at: pos });
        }
        let (p, v) = Aml3Expr::inits(parser.at(pos + 1))?;
        Ok((parser.at(p.pointer), v))
    }

    /// Reads a struct construction.
    fn construction<'a>(parser: Parser<'a>) -> (r: Result<
        (Parser<'a>, CommandExpression),
        DecodeError,
    >)
        requires
            parser.pointer < parser.bytes@.len(),
        ensures
            reads(
                r,
                src_struct_expr(parser.bytes@, parser.pointer as int),
                parser,
                |e: CommandExpression| e@,
            ),
        decreases parser.bytes@.len() - parser.pointer, 4nat,
    {
        let bytes = parser.bytes;
        let (p1, t) = Aml3Type::visit(parser)?;
        if !(p1.pointer < bytes.len() && bytes[p1.pointer] == 32) || p1.pointer <= parser.pointer {
            return Err(DecodeError { fault: DecodeFault::ExpectedSpace, at: p1.pointer });
        }
        if !(p1.pointer + 1 < bytes.len() && bytes[p1.pointer + 1] == 123) {
            return Err(DecodeError { fault: DecodeFault::ExpectedBlock, at: p1.pointer + 1 });
        }
        let (p2, fields) = Aml3Expr::inits(parser.at(p1.pointer + 2))?;
        Ok((parser.at(p2.pointer), CommandExpression::Struct(t, fields)))
    }

    /// The expression that an operator makes of two operands.
    fn operate(
        bytes: &[u8],
        pos: usize,
        kind: Option<BinaryKind>,
        a: CommandExpression,
        b: CommandExpression,
    ) -> (r: CommandExpression)
        ensures
            r@ == operation(bytes@, pos as int, kind, a@, b@),
    {
        match kind {
            Some(k) => CommandExpression::Binary(k, Box::new(a), Box::new(b)),
            None => if pos < bytes.len() && pos + 1 < bytes.len() && bytes[pos + 1] == 46 {
                CommandExpression::Range(Box::new(a), Box::new(b))
            } else {
                CommandExpression::Property(Box::new(a), Box::new(b))
            },
        }
    }

    /// Reads an expression.
    pub fn visit<'a>(parser: Parser<'a>) -> (r: Result<(Parser<'a>, CommandExpression), DecodeError>)
        ensures
            reads(
                r,
                src_expr(parser.bytes@, parser.pointer as int),
                parser,
                |e: CommandExpression| e@,
            ),
        decreases parser.bytes@.len() - parser.pointer, 5nat,
    {
        let bytes = parser.bytes;
        let pos = parser.pointer;
        if pos >= bytes.len() {
            return Err(DecodeError { fault: DecodeFault::ExpectedOperator, at: pos });
        }
        match take_operator(parser) {
            Some(Err(e)) => Err(e),
            Some(Ok((start, kind))) => {
                let from: usize = if kind.is_none() && pos + 1 < bytes.len() && bytes[pos + 1] == 46 {
                    pos + 2
                } else {
                    start
                };
                let (p, ab) = Aml3Expr::operands(parser.at(from))?;
                Ok((parser.at(p.pointer), Aml3Expr::operate(bytes, pos, kind, ab.0, ab.1)))
            },
            None => {
                let b = bytes[pos];
                if b == 35 {
                    Aml3Expr::construction(parser)
                } else if b == 36 {
                    let (p, name) = Aml3Variable::visit(parser)?;
                    Ok((p, CommandExpression::Var(name)))
                } else if b == 95 {
                    Ok((parser.at(pos + 1), CommandExpression::Prev))
                } else {
                    let (p, v) = Aml3Value::visit(parser)?;
                    Ok((p, CommandExpression::Value(v)))
                }
            },
        }
    }
}

} // verus!
