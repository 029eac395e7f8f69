use vstd::prelude::*;
use crate::error::DecodeError;
use crate::error::DecodeFault;
use crate::error::Failure;
use crate::error::Parsed;
use crate::error::fail;
use crate::parser::Parser;
use crate::parser::agrees;
use crate::parser::agrees_as;
use crate::parser::agrees_plain;
use crate::tokens::kind::VariableKind;
use crate::tokens::kind::read_kind;
use crate::tokens::types::AmvmType;
use crate::tokens::types::TypeModel;
use crate::tokens::types::lemma_type_roundtrip;
use crate::tokens::types::read_type;
use crate::tokens::types::type_fits;
use crate::tokens::types::type_model;
use crate::tokens::types::wire_type;
use crate::tokens::value::Value;
use crate::tokens::value::ValueModel;
use crate::tokens::value::lemma_value_roundtrip;
use crate::tokens::value::read_value;
use crate::tokens::value::value_fits;
use crate::tokens::value::value_model;
use crate::tokens::value::wire_value;
use crate::utils::Compilable;
use crate::utils::CompileResult;
use crate::utils::compile_text;
use crate::utils::compiled;
use crate::utils::holds_at;
use crate::utils::lemma_holds_split;
use crate::utils::lemma_holds_tag;
use crate::utils::lemma_read_text;
use crate::utils::read_text;
use crate::utils::text_fits;
use crate::utils::visit_text;
use crate::utils::wire_text;

verus! {

/// Wire tag of a binary operation.
pub const EXPR_BINARY: u8 = 0x11;

/// Wire tag of the result of the last call.
pub const EXPR_PREV: u8 = 0x12;

/// Wire tag of a property access.
pub const EXPR_PROP: u8 = 0x13;

/// Wire tag of a range.
pub const EXPR_RANGE: u8 = 0x14;

/// Wire tag of a reference.
pub const EXPR_REF: u8 = 0x15;

/// Wire tag of a struct construction.
pub const EXPR_STRUCT: u8 = 0x16;

/// Wire tag of a literal.
pub const EXPR_VALUE: u8 = 0x17;

/// Wire tag of a variable.
pub const EXPR_VAR: u8 = 0x18;

/// Wire tag of addition, behind the binary tag.
pub const EXPR_KIND_ADD: u8 = 0x01;

/// Wire tag of subtraction, behind the binary tag.
pub const EXPR_KIND_SUB: u8 = 0x02;

/// Wire tag of multiplication, behind the binary tag.
pub const EXPR_KIND_MUL: u8 = 0x03;

/// Wire tag of `==`, behind the binary tag.
pub const EXPR_KIND_EQUAL: u8 = 0x04;

/// Wire tag of `!=`, behind the binary tag.
pub const EXPR_KIND_NOT_EQUAL: u8 = 0x05;

/// Wire tag of `>`, behind the binary tag.
pub const EXPR_KIND_GREATER_THAN: u8 = 0x06;

/// Wire tag of `>=`, behind the binary tag.
pub const EXPR_KIND_GREATER_THAN_EQUAL: u8 = 0x07;

/// Wire tag of `<`, behind the binary tag.
pub const EXPR_KIND_LESS_THAN: u8 = 0x08;

/// Wire tag of `<=`, behind the binary tag.
pub const EXPR_KIND_LESS_THAN_EQUAL: u8 = 0x09;

/// The binary operators.
#[derive(Debug, Clone, Copy, PartialEq, Eq, Structural)]
pub enum BinaryKind {
    Add,
    Sub,
    Mult,
    Equal,
    NotEqual,
    GreaterThan,
    GreaterThanEqual,
    LessThan,
    LessThanEqual,
}

/// An expression.
#[derive(Debug, PartialEq)]
pub enum CommandExpression {
    Binary(BinaryKind, Box<CommandExpression>, Box<CommandExpression>),
    Prev,
    Property(Box<CommandExpression>, Box<CommandExpression>),
    Range(Box<CommandExpression>, Box<CommandExpression>),
    Ref(VariableKind, Box<CommandExpression>),
    Struct(AmvmType, Vec<(String, CommandExpression)>),
    Value(Value),
    Var(String),
}

/// An expression as the contracts speak of it.
pub ghost enum ExprModel {
    Binary(BinaryKind, Box<ExprModel>, Box<ExprModel>),
    Prev,
    Property(Box<ExprModel>, Box<ExprModel>),
    Range(Box<ExprModel>, Box<ExprModel>),
    Ref(VariableKind, Box<ExprModel>),
    Struct(TypeModel, Seq<(Seq<char>, ExprModel)>),
    Value(ValueModel),
    Var(Seq<char>),
}

/// The model of an expression.
pub open spec fn expr_model(e: CommandExpression) -> ExprModel
    decreases e,
{
    match e {
        CommandExpression::Binary(kind, a, b) => ExprModel::Binary(
            kind,
            Box::new(expr_model(*a)),
            Box::new(expr_model(*b)),
        ),
        CommandExpression::Prev => ExprModel::Prev,
        CommandExpression::Property(a, b) => ExprModel::Property(
            Box::new(expr_model(*a)),
            Box::new(expr_model(*b)),
        ),
        CommandExpression::Range(a, b) => ExprModel::Range(
            Box::new(expr_model(*a)),
            Box::new(expr_model(*b)),
        ),
        CommandExpression::Ref(kind, inner) => ExprModel::Ref(kind, Box::new(expr_model(*inner))),
        CommandExpression::Struct(t, inits) => ExprModel::Struct(type_model(t), inits_model(inits@)),
        CommandExpression::Value(v) => ExprModel::Value(value_model(v)),
        CommandExpression::Var(name) => ExprModel::Var(name@),
    }
}

/// The models of the field initialisers of a struct construction.
pub open spec fn inits_model(inits: Seq<(String, CommandExpression)>) -> Seq<(Seq<char>, ExprModel)>
    decreases inits,
{
    Seq::new(
        inits.len(),
        |i: int|
            if 0 <= i < inits.len() {
                (inits[i].0@, expr_model(inits[i].1))
            } else {
                (Seq::<char>::empty(), ExprModel::Prev)
            },
    )
}

/// The models of a list of expressions.
pub open spec fn exprs_model(es: Seq<CommandExpression>) -> Seq<ExprModel>
    decreases es,
{
    Seq::new(
        es.len(),
        |i: int|
            if 0 <= i < es.len() {
                expr_model(es[i])
            } else {
                ExprModel::Prev
            },
    )
}

impl View for CommandExpression {
    type V = ExprModel;

    open spec fn view(&self) -> ExprModel {
        expr_model(*self)
    }
}

/// The wire tag of a binary operator.
pub open spec fn binary_tag(k: BinaryKind) -> u8 {
    match k {
        BinaryKind::Add => EXPR_KIND_ADD,
        BinaryKind::Sub => EXPR_KIND_SUB,
        BinaryKind::Mult => EXPR_KIND_MUL,
        BinaryKind::Equal => EXPR_KIND_EQUAL,
        BinaryKind::NotEqual => EXPR_KIND_NOT_EQUAL,
        BinaryKind::GreaterThan => EXPR_KIND_GREATER_THAN,
        BinaryKind::GreaterThanEqual => EXPR_KIND_GREATER_THAN_EQUAL,
        BinaryKind::LessThan => EXPR_KIND_LESS_THAN,
        BinaryKind::LessThanEqual => EXPR_KIND_LESS_THAN_EQUAL,
    }
}

/// Reads a binary operator at `pos`.
pub open spec fn read_binary_kind(s: Seq<u8>, pos: int) -> Parsed<BinaryKind> {
    if !(0 <= pos < s.len()) {
        fail(DecodeFault::UnexpectedEnd, pos)
    } else if s[pos] == EXPR_KIND_ADD {
        Ok((BinaryKind::Add, pos + 1))
    } else if s[pos] == EXPR_KIND_SUB {
        Ok((BinaryKind::Sub, pos + 1))
    } else if s[pos] == EXPR_KIND_MUL {
        Ok((BinaryKind::Mult, pos + 1))
    } else if s[pos] == EXPR_KIND_EQUAL {
        Ok((BinaryKind::Equal, pos + 1))
    } else if s[pos] == EXPR_KIND_NOT_EQUAL {
        Ok((BinaryKind::NotEqual, pos + 1))
    } else if s[pos] == EXPR_KIND_GREATER_THAN {
        Ok((BinaryKind::GreaterThan, pos + 1))
    } else if s[pos] == EXPR_KIND_GREATER_THAN_EQUAL {
        Ok((BinaryKind::GreaterThanEqual, pos + 1))
    } else if s[pos] == EXPR_KIND_LESS_THAN {
        Ok((BinaryKind::LessThan, pos + 1))
    } else if s[pos] == EXPR_KIND_LESS_THAN_EQUAL {
        Ok((BinaryKind::LessThanEqual, pos + 1))
    } else {
        fail(DecodeFault::UnknownBinaryKind, pos)
    }
}

/// Whether an expression can be written: its literals are writable, no list
/// in it has over 255 members and no name over 255 bytes.
pub open spec fn expr_fits(e: ExprModel) -> bool
    decreases e,
{
    match e {
        ExprModel::Binary(_, a, b) => expr_fits(*a) && expr_fits(*b),
        ExprModel::Prev => true,
        ExprModel::Property(a, b) => expr_fits(*a) && expr_fits(*b),
        ExprModel::Range(a, b) => expr_fits(*a) && expr_fits(*b),
        ExprModel::Ref(_, inner) => expr_fits(*inner),
        ExprModel::Struct(t, inits) => type_fits(t) && inits_fit(inits),
        ExprModel::Value(v) => value_fits(v),
        ExprModel::Var(name) => text_fits(name),
    }
}

/// Whether the field initialisers of a struct construction can be written.
pub open spec fn inits_fit(inits: Seq<(Seq<char>, ExprModel)>) -> bool
    decreases inits,
{
    inits.len() <= 255 && forall|i: int|
        0 <= i < inits.len() ==> init_fits(#[trigger] inits[i])
}

/// Whether one field initialiser can be written.
pub open spec fn init_fits(init: (Seq<char>, ExprModel)) -> bool
    decreases init,
{
    text_fits(init.0) && expr_fits(init.1)
}

/// Whether a list of expressions can be written.
pub open spec fn exprs_fit(es: Seq<ExprModel>) -> bool
    decreases es,
{
    es.len() <= 255 && forall|i: int| 0 <= i < es.len() ==> expr_fits(#[trigger] es[i])
}

/// The bytes of an expression.
pub open spec fn wire_expr(e: ExprModel) -> Seq<u8>
    decreases e, 0nat,
{
    match e {
        ExprModel::Binary(kind, a, b) => seq![EXPR_BINARY, binary_tag(kind)] + wire_expr(*a)
            + wire_expr(*b),
        ExprModel::Prev => seq![EXPR_PREV],
        ExprModel::Property(a, b) => seq![EXPR_PROP] + wire_expr(*a) + wire_expr(*b),
        ExprModel::Range(a, b) => seq![EXPR_RANGE] + wire_expr(*a) + wire_expr(*b),
        ExprModel::Ref(kind, inner) => seq![EXPR_REF, kind.wire_byte()] + wire_expr(*inner),
        ExprModel::Struct(t, inits) => seq![EXPR_STRUCT] + wire_type(t) + seq![inits.len() as u8]
            + wire_inits(inits),
        ExprModel::Value(v) => seq![EXPR_VALUE] + wire_value(v),
        ExprModel::Var(name) => seq![EXPR_VAR] + wire_text(name),
    }
}

/// The bytes of some field initialisers, one behind the other: each name as a
/// counted string, then its expression.
pub open spec fn wire_inits(inits: Seq<(Seq<char>, ExprModel)>) -> Seq<u8>
    decreases inits, 1nat,
{
    if inits.len() == 0 {
        Seq::<u8>::empty()
    } else {
        wire_text(inits[0].0) + wire_expr(inits[0].1) + wire_inits(inits.drop_first())
    }
}

/// The bytes of a list of expressions: their number, then each in turn.
pub open spec fn wire_expr_list(es: Seq<ExprModel>) -> Seq<u8> {
    seq![es.len() as u8] + wire_exprs(es)
}

/// The bytes of some expressions, one behind the other.
pub open spec fn wire_exprs(es: Seq<ExprModel>) -> Seq<u8>
    decreases es,
{
    if es.len() == 0 {
        Seq::<u8>::empty()
    } else {
        wire_expr(es[0]) + wire_exprs(es.drop_first())
    }
}

/// The bytes of some expressions from the `i`-th on are the bytes of the
/// `i`-th and then those of the ones behind it.
pub proof fn lemma_exprs_step(es: Seq<ExprModel>, i: int)
    requires
        0 <= i < es.len(),
    ensures
        wire_exprs(es.skip(i)) == wire_expr(es[i]) + wire_exprs(es.skip(i + 1)),
{
    let rest = es.skip(i);
    assert(rest.drop_first() =~= es.skip(i + 1));
    assert(rest[0] == es[i]);
}

/// Reads two expressions, one behind the other, at `pos`.
pub open spec fn read_operands(s: Seq<u8>, pos: int) -> Parsed<(ExprModel, ExprModel)>
    decreases s.len() - pos, 1nat, 0nat,
{
    match read_expr(s, pos) {
        Err(e) => Err(e),
        Ok((a, p1)) => if pos < p1 <= s.len() {
            match read_expr(s, p1) {
                Err(e) => Err(e),
                Ok((b, p2)) => Ok(((a, b), p2)),
            }
        } else {
            fail(DecodeFault::UnexpectedEnd, pos)
        },
    }
}

/// Reads a binary operation behind its tag: the operator, then the operands.
pub open spec fn read_binary(s: Seq<u8>, pos: int) -> Parsed<ExprModel>
    decreases s.len() - pos, 2nat, 0nat,
{
    match read_binary_kind(s, pos) {
        Err(e) => Err(e),
        Ok((kind, p1)) => match read_operands(s, pos + 1) {
            Err(e) => Err(e),
            Ok((ab, p2)) => Ok((ExprModel::Binary(kind, Box::new(ab.0), Box::new(ab.1)), p2)),
        },
    }
}

/// Reads an expression at `pos`.
pub open spec fn read_expr(s: Seq<u8>, pos: int) -> Parsed<ExprModel>
    decreases s.len() - pos, 0nat, 0nat,
{
    if !(0 <= pos < s.len()) {
        fail(DecodeFault::UnexpectedEnd, pos)
    } else if s[pos] == EXPR_BINARY {
        read_binary(s, pos + 1)
    } else if s[pos] == EXPR_PREV {
        Ok((ExprModel::Prev, pos + 1))
    } else if s[pos] == EXPR_PROP {
        match read_operands(s, pos + 1) {
            Err(e) => Err(e),
            Ok((ab, p2)) => Ok((ExprModel::Property(Box::new(ab.0), Box::new(ab.1)), p2)),
        }
    } else if s[pos] == EXPR_RANGE {
        match read_operands(s, pos + 1) {
            Err(e) => Err(e),
            Ok((ab, p2)) => Ok((ExprModel::Range(Box::new(ab.0), Box::new(ab.1)), p2)),
        }
    } else if s[pos] == EXPR_REF {
        match read_kind(s, pos + 1) {
            Err(e) => Err(e),
            Ok((kind, p1)) => match read_expr(s, pos + 2) {
                Err(e) => Err(e),
                Ok((inner, p2)) => Ok((ExprModel::Ref(kind, Box::new(inner)), p2)),
            },
        }
    } else if s[pos] == EXPR_STRUCT {
        match read_type(s, pos + 1) {
            Err(e) => Err(e),
            Ok((t, p1)) => if pos < p1 < s.len() {
                match read_inits(s, p1 + 1, s[p1] as nat, Seq::<(Seq<char>, ExprModel)>::empty()) {
                    Err(e) => Err(e),
                    Ok((inits, p2)) => Ok((ExprModel::Struct(t, inits), p2)),
                }
            } else {
                fail(DecodeFault::UnexpectedEnd, p1)
            },
        }
    } else if s[pos] == EXPR_VALUE {
        match read_value(s, pos + 1) {
            Err(e) => Err(e),
            Ok((v, p1)) => Ok((ExprModel::Value(v), p1)),
        }
    } else if s[pos] == EXPR_VAR {
        match read_text(s, pos + 1) {
            Err(e) => Err(e),
            Ok((name, p1)) => Ok((ExprModel::Var(name), p1)),
        }
    } else {
        fail(DecodeFault::UnknownExpressionKind, pos)
    }
}

/// Reads `n` field initialisers at `pos`, behind those in `acc`.
pub open spec fn read_inits(s: Seq<u8>, pos: int, n: nat, acc: Seq<(Seq<char>, ExprModel)>) -> Parsed<
    Seq<(Seq<char>, ExprModel)>,
>
    decreases s.len() - pos, 3nat, n,
{
    if n == 0 {
        Ok((acc, pos))
    } else {
        match read_text(s, pos) {
            Err(e) => Err(e),
            Ok((name, p1)) => if pos < p1 <= s.len() {
                match read_expr(s, p1) {
                    Err(e) => Err(e),
                    Ok((value, p2)) => if p1 < p2 <= s.len() {
                        read_inits(s, p2, (n - 1) as nat, acc.push((name, value)))
                    } else {
                        fail(DecodeFault::UnexpectedEnd, p1)
                    },
                }
            } else {
                fail(DecodeFault::UnexpectedEnd, pos)
            },
        }
    }
}

/// Reads a counted list of expressions at `pos`.
pub open spec fn read_expr_list(s: Seq<u8>, pos: int) -> Parsed<Seq<ExprModel>> {
    if !(0 <= pos < s.len()) {
        fail(DecodeFault::UnexpectedEnd, pos)
    } else {
        read_exprs(s, pos + 1, s[pos] as nat, Seq::<ExprModel>::empty())
    }
}

/// Reads `n` expressions at `pos`, behind those in `acc`.
pub open spec fn read_exprs(s: Seq<u8>, pos: int, n: nat, acc: Seq<ExprModel>) -> Parsed<
    Seq<ExprModel>,
>
    decreases n,
{
    if n == 0 {
        Ok((acc, pos))
    } else {
        match read_expr(s, pos) {
            Err(e) => Err(e),
            Ok((e, p1)) => read_exprs(s, p1, (n - 1) as nat, acc.push(e)),
        }
    }
}

impl BinaryKind {
    /// Reads a binary operator.
    pub fn visit<'a>(parser: Parser<'a>) -> (r: Result<(Parser<'a>, BinaryKind), DecodeError>)
        ensures
            agrees_plain(r, read_binary_kind(parser.bytes@, parser.pointer as int), parser),
    {
        let (next, b) = parser.take_byte()?;
        let kind = if b == EXPR_KIND_ADD {
            BinaryKind::Add
        } else if b == EXPR_KIND_SUB {
            BinaryKind::Sub
        } else if b == EXPR_KIND_MUL {
            BinaryKind::Mult
        } else if b == EXPR_KIND_EQUAL {
            BinaryKind::Equal
        } else if b == EXPR_KIND_NOT_EQUAL {
            BinaryKind::NotEqual
        } else if b == EXPR_KIND_GREATER_THAN {
            BinaryKind::GreaterThan
        } else if b == EXPR_KIND_GREATER_THAN_EQUAL {
            BinaryKind::GreaterThanEqual
        } else if b == EXPR_KIND_LESS_THAN {
            BinaryKind::LessThan
        } else if b == EXPR_KIND_LESS_THAN_EQUAL {
            BinaryKind::LessThanEqual
        } else {
            return Err(DecodeError { fault: DecodeFault::UnknownBinaryKind, at: parser.pointer });
        };
        Ok((next, kind))
    }
}

impl Compilable for BinaryKind {
    open spec fn wire(&self) -> Option<Seq<u8>> {
        Some(seq![binary_tag(*self)])
    }

    fn compile_bytecode(&self, buffer: Vec<u8>) -> (r: CompileResult) {
        let mut out = buffer;
        out.push(
            match self {
                BinaryKind::Add => EXPR_KIND_ADD,
                BinaryKind::Sub => EXPR_KIND_SUB,
                BinaryKind::Mult => EXPR_KIND_MUL,
                BinaryKind::Equal => EXPR_KIND_EQUAL,
                BinaryKind::NotEqual => EXPR_KIND_NOT_EQUAL,
                BinaryKind::GreaterThan => EXPR_KIND_GREATER_THAN,
                BinaryKind::GreaterThanEqual => EXPR_KIND_GREATER_THAN_EQUAL,
                BinaryKind::LessThan => EXPR_KIND_LESS_THAN,
                BinaryKind::LessThanEqual => EXPR_KIND_LESS_THAN_EQUAL,
            },
        );
        assert(out@ =~= buffer@ + seq![binary_tag(*self)]);
        Ok(out)
    }
}

impl CommandExpression {
    /// Reads two expressions, one behind the other.
    fn operands<'a>(parser: Parser<'a>) -> (r: Result<
        (Parser<'a>, (CommandExpression, CommandExpression)),
        DecodeError,
    >)
        ensures
            agrees_as(
                r,
                read_operands(parser.bytes@, parser.pointer as int),
                parser,
                |ab: (CommandExpression, CommandExpression)| (ab.0@, ab.1@),
            ),
        decreases parser.bytes@.len() - parser.pointer, 1nat,
    {
        let (p1, a) = CommandExpression::visit(parser)?;
        let (p2, b) = CommandExpression::visit(p1)?;
        Ok((parser.at(p2.pointer), (a, b)))
    }

    /// Reads a binary operation behind its tag.
    pub fn visit_binary<'a>(parser: Parser<'a>) -> (r: Result<
        (Parser<'a>, CommandExpression),
        DecodeError,
    >)
        ensures
            agrees(r, read_binary(parser.bytes@, parser.pointer as int), parser),
        decreases parser.bytes@.len() - parser.pointer, 2nat,
    {
        let (p1, kind) = BinaryKind::visit(parser)?;
        let (p2, ab) = CommandExpression::operands(p1)?;
        Ok((parser.at(p2.pointer), CommandExpression::Binary(kind, Box::new(ab.0), Box::new(ab.1))))
    }

    /// Reads an expression.
    pub fn visit<'a>(parser: Parser<'a>) -> (r: Result<(Parser<'a>, CommandExpression), DecodeError>)
        ensures
            agrees(r, read_expr(parser.bytes@, parser.pointer as int), parser),
        decreases parser.bytes@.len() - parser.pointer, 0nat,
    {
        let (next, tag) = parser.take_byte()?;
        if tag == EXPR_BINARY {
            let (p1, e) = CommandExpression::visit_binary(next)?;
            Ok((parser.at(p1.pointer), e))
        } else if tag == EXPR_PREV {
            Ok((next, CommandExpression::Prev))
        } else if tag == EXPR_PROP {
            let (p1, ab) = CommandExpression::operands(next)?;
            Ok((parser.at(p1.pointer), CommandExpression::Property(Box::new(ab.0), Box::new(ab.1))))
        } else if tag == EXPR_RANGE {
            let (p1, ab) = CommandExpression::operands(next)?;
            Ok((parser.at(p1.pointer), CommandExpression::Range(Box::new(ab.0), Box::new(ab.1))))
        } else if tag == EXPR_REF {
            let (p1, kind) = VariableKind::visit(next)?;
            let (p2, inner) = CommandExpression::visit(p1)?;
            Ok((parser.at(p2.pointer), CommandExpression::Ref(kind, Box::new(inner))))
        } else if tag == EXPR_STRUCT {
            let (p1, t) = AmvmType::visit(next)?;
            let (p2, inits) = CommandExpression::visit_inits(parser.at(p1.pointer))?;
            Ok((parser.at(p2.pointer), CommandExpression::Struct(t, inits)))
        } else if tag == EXPR_VALUE {
            let (p1, v) = Value::visit(next)?;
            Ok((parser.at(p1.pointer), CommandExpression::Value(v)))
        } else if tag == EXPR_VAR {
            let (p1, name) = visit_text(next)?;
            Ok((parser.at(p1.pointer), CommandExpression::Var(name)))
        } else {
            Err(DecodeError { fault: DecodeFault::UnknownExpressionKind, at: parser.pointer })
        }
    }

    /// Reads the counted field initialisers of a struct construction.
    #[verifier::loop_isolation(false)]
    fn visit_inits<'a>(parser: Parser<'a>) -> (r: Result<
        (Parser<'a>, Vec<(String, CommandExpression)>),
        DecodeError,
    >)
        ensures
            match r {
                Ok((p, v)) => parser.pointer < parser.bytes@.len() && read_inits(
                    parser.bytes@,
                    parser.pointer + 1,
                    parser.bytes@[parser.pointer as int] as nat,
                    Seq::<(Seq<char>, ExprModel)>::empty(),
                ) == Ok::<(Seq<(Seq<char>, ExprModel)>, int), Failure>(
                    (inits_model(v@), p.pointer as int),
                ) && p == parser.spec_at(p.pointer as int) && parser.pointer < p.pointer
                    <= parser.bytes@.len(),
                Err(e) => if parser.pointer < parser.bytes@.len() {
                    read_inits(
                        parser.bytes@,
                        parser.pointer + 1,
                        parser.bytes@[parser.pointer as int] as nat,
                        Seq::<(Seq<char>, ExprModel)>::empty(),
                    ) == Err::<(Seq<(Seq<char>, ExprModel)>, int), Failure>(e@)
                } else {
                    e@ == (Failure { fault: DecodeFault::UnexpectedEnd, at: parser.pointer as int })
                },
            },
        decreases parser.bytes@.len() - parser.pointer, 4nat,
    {
        let (first, n) = parser.take_byte()?;
        let ghost s = parser.bytes@;
        let mut out: Vec<(String, CommandExpression)> = Vec::new();
        let mut cur = first;
        let mut i: u8 = 0;
        assert(inits_model(out@) =~= Seq::<(Seq<char>, ExprModel)>::empty());
        while i < n
            invariant
                i <= n,
                cur == parser.spec_at(cur.pointer as int),
                parser.pointer < cur.pointer <= s.len(),
                read_inits(
                    s,
                    parser.pointer + 1,
                    n as nat,
                    Seq::<(Seq<char>, ExprModel)>::empty(),
                ) == read_inits(s, cur.pointer as int, (n - i) as nat, inits_model(out@)),
            decreases n - i,
        {
            let (p1, name) = visit_text(cur)?;
            let (p2, value) = CommandExpression::visit(p1)?;
            let ghost before = out@;
            let ghost item = (name@, value@);
            out.push((name, value));
            assert(inits_model(out@) =~= inits_model(before).push(item));
            cur = parser.at(p2.pointer);
            i = i + 1;
        }
        Ok((cur, out))
    }

    /// Reads a counted list of expressions.
    #[verifier::loop_isolation(false)]
    pub fn visit_list<'a>(parser: Parser<'a>) -> (r: Result<
        (Parser<'a>, Vec<CommandExpression>),
        DecodeError,
    >)
        ensures
            agrees_as(
                r,
                read_expr_list(parser.bytes@, parser.pointer as int),
                parser,
                |v: Vec<CommandExpression>| exprs_model(v@),
            ),
    {
        let (first, n) = parser.take_byte()?;
        let ghost s = parser.bytes@;
        let mut out: Vec<CommandExpression> = Vec::new();
        let mut cur = first;
        let mut i: u8 = 0;
        assert(exprs_model(out@) =~= Seq::<ExprModel>::empty());
        while i < n
            invariant
                i <= n,
                cur == parser.spec_at(cur.pointer as int),
                parser.pointer < cur.pointer <= s.len(),
                read_expr_list(s, parser.pointer as int) == read_exprs(
                    s,
                    cur.pointer as int,
                    (n - i) as nat,
                    exprs_model(out@),
                ),
            decreases n - i,
        {
            let (p1, e) = CommandExpression::visit(cur)?;
            let ghost before = out@;
            let ghost item = e@;
            out.push(e);
            assert(exprs_model(out@) =~= exprs_model(before).push(item));
            cur = parser.at(p1.pointer);
            i = i + 1;
        }
        Ok((cur, out))
    }

    /// Appends a counted list of expressions to `buffer`.
    #[verifier::loop_isolation(false)]
    #[verifier::spinoff_prover]
    #[verifier::rlimit(50)]
    pub fn compile_list(list: &Vec<CommandExpression>, buffer: Vec<u8>) -> (r: CompileResult)
        ensures
            compiled(
                r,
                buffer@,
                if exprs_fit(exprs_model(list@)) {
                    Some(wire_expr_list(exprs_model(list@)))
                } else {
                    None
                },
            ),
    {
        if list.len() > 255 {
            return Err(());
        }
        let ghost ms = exprs_model(list@);
        let mut out = buffer;
        out.push(list.len() as u8);
        let mut i: usize = 0;
        assert(ms.skip(0) =~= ms);
        assert(out@ =~= buffer@ + seq![ms.len() as u8]);
        while i < list.len()
            invariant
                i <= list.len(),
                forall|j: int| 0 <= j < i ==> expr_fits(#[trigger] ms[j]),
                buffer@ + wire_expr_list(ms) == out@ + wire_exprs(ms.skip(i as int)),
            decreases list.len() - i,
        {
            let ghost before = out@;
            let ghost head = wire_expr(ms[i as int]);
            let ghost tail = wire_exprs(ms.skip(i + 1));
            proof {
                lemma_exprs_step(ms, i as int);
                assert(before + (head + tail) =~= (before + head) + tail);
            }
            assert(ms[i as int] == list@[i as int]@);
            let item = &list[i];
            out = match item.compile_bytecode(out) {
                Ok(b) => b,
                Err(e) => {
                    assert(!expr_fits(ms[i as int]));
                    assert(!exprs_fit(ms));
                    return Err(e);
                },
            };
            assert(out@ == before + head);
            i += 1;
        }
        assert(ms.skip(ms.len() as int) =~= Seq::<ExprModel>::empty());
        assert(out@ + Seq::<u8>::empty() =~= out@);
        Ok(out)
    }

    /// Appends the counted field initialisers of a struct construction.
    #[verifier::loop_isolation(false)]
    fn compile_inits(list: &Vec<(String, CommandExpression)>, buffer: Vec<u8>) -> (r: CompileResult)
        ensures
            compiled(
                r,
                buffer@,
                if inits_fit(inits_model(list@)) {
                    Some(seq![list@.len() as u8] + wire_inits(inits_model(list@)))
                } else {
                    None
                },
            ),
        decreases list, 0nat,
    {
        if list.len() > 255 {
            return Err(());
        }
        let ghost ms = inits_model(list@);
        let mut out = buffer;
        out.push(list.len() as u8);
        let mut i: usize = 0;
        assert(ms.skip(0) =~= ms);
        assert(out@ =~= buffer@ + seq![ms.len() as u8]);
        while i < list.len()
            invariant
                i <= list.len(),
                forall|j: int| 0 <= j < i ==> init_fits(#[trigger] ms[j]),
                buffer@ + (seq![list@.len() as u8] + wire_inits(ms)) == out@ + wire_inits(
                    ms.skip(i as int),
                ),
            decreases list.len() - i,
        {
            proof {
                let rest = ms.skip(i as int);
                assert(rest.drop_first() =~= ms.skip(i + 1));
                assert(rest[0] == ms[i as int]);
                assert(out@ + wire_inits(rest) =~= out@ + wire_text(ms[i as int].0) + wire_expr(
                    ms[i as int].1,
                ) + wire_inits(ms.skip(i + 1)));
            }
            out = match compile_text(out, list[i].0.as_str()) {
                Ok(b) => b,
                Err(e) => {
                    assert(!init_fits(ms[i as int]));
                    return Err(e);
                },
            };
            out = match list[i].1.compile_bytecode(out) {
                Ok(b) => b,
                Err(e) => {
                    assert(!init_fits(ms[i as int]));
                    return Err(e);
                },
            };
            i += 1;
        }
        assert(ms.skip(ms.len() as int) =~= Seq::<(Seq<char>, ExprModel)>::empty());
        assert(out@ + Seq::<u8>::empty() =~= out@);
        Ok(out)
    }
}

impl Compilable for CommandExpression {
    open spec fn wire(&self) -> Option<Seq<u8>> {
        if expr_fits(self@) {
            Some(wire_expr(self@))
        } else {
            None
        }
    }

    fn compile_bytecode(&self, buffer: Vec<u8>) -> (r: CompileResult)
        decreases self, 1nat,
    {
        let mut out = buffer;
        match self {
            CommandExpression::Binary(kind, a, b) => {
                out.push(EXPR_BINARY);
                let out = kind.compile_bytecode(out)?;
                let out = a.compile_bytecode(out)?;
                let out = b.compile_bytecode(out)?;
                assert(out@ =~= buffer@ + wire_expr(self@));
                Ok(out)
            },
            CommandExpression::Prev => {
                out.push(EXPR_PREV);
                assert(out@ =~= buffer@ + wire_expr(self@));
                Ok(out)
            },
            CommandExpression::Property(a, b) => {
                out.push(EXPR_PROP);
                let out = a.compile_bytecode(out)?;
                let out = b.compile_bytecode(out)?;
                assert(out@ =~= buffer@ + wire_expr(self@));
                Ok(out)
            },
            CommandExpression::Range(a, b) => {
                out.push(EXPR_RANGE);
                let out = a.compile_bytecode(out)?;
                let out = b.compile_bytecode(out)?;
                assert(out@ =~= buffer@ + wire_expr(self@));
                Ok(out)
            },
            CommandExpression::Ref(kind, inner) => {
                out.push(EXPR_REF);
                let out = kind.compile_bytecode(out)?;
                let out = inner.compile_bytecode(out)?;
                assert(out@ =~= buffer@ + wire_expr(self@));
                Ok(out)
            },
            CommandExpression::Struct(t, inits) => {
                out.push(EXPR_STRUCT);
                let out = t.compile_bytecode(out)?;
                let out = CommandExpression::compile_inits(inits, out)?;
                assert(out@ =~= buffer@ + wire_expr(self@));
                Ok(out)
            },
            CommandExpression::Value(v) => {
                out.push(EXPR_VALUE);
                let out = v.compile_bytecode(out)?;
                assert(out@ =~= buffer@ + wire_expr(self@));
                Ok(out)
            },
            CommandExpression::Var(name) => {
                out.push(EXPR_VAR);
                let out = compile_text(out, name.as_str())?;
                assert(out@ =~= buffer@ + wire_expr(self@));
                Ok(out)
            },
        }
    }
}

/// Two expressions read one behind the other are the two operands read.
pub proof fn lemma_operands_step(
    s: Seq<u8>,
    pos: int,
    a: ExprModel,
    b: ExprModel,
    p1: int,
    p2: int,
)
    requires
        read_expr(s, pos) == Ok::<(ExprModel, int), Failure>((a, p1)),
        pos < p1 <= s.len(),
        read_expr(s, p1) == Ok::<(ExprModel, int), Failure>((b, p2)),
    ensures
        read_operands(s, pos) == Ok::<((ExprModel, ExprModel), int), Failure>(((a, b), p2)),
{
}

/// An operator and two operands read one behind the other are the binary
/// operation read.
pub proof fn lemma_binary_step(
    s: Seq<u8>,
    pos: int,
    kind: BinaryKind,
    a: ExprModel,
    b: ExprModel,
    p2: int,
)
    requires
        0 <= pos < s.len(),
        s[pos] == binary_tag(kind),
        read_operands(s, pos + 1) == Ok::<((ExprModel, ExprModel), int), Failure>(((a, b), p2)),
    ensures
        read_binary(s, pos) == Ok::<(ExprModel, int), Failure>(
            (ExprModel::Binary(kind, Box::new(a), Box::new(b)), p2),
        ),
{
}

/// Reading the bytes of an expression gives the expression back.
#[verifier::rlimit(60)]
#[verifier::spinoff_prover]
pub proof fn lemma_expr_roundtrip(s: Seq<u8>, pos: int, e: ExprModel)
    requires
        expr_fits(e),
        holds_at(s, pos, wire_expr(e)),
    ensures
        read_expr(s, pos) == Ok::<(ExprModel, int), Failure>((e, pos + wire_expr(e).len())),
        wire_expr(e).len() > 0,
    decreases e, 0nat, 0nat,
{
    match e {
        ExprModel::Binary(kind, a, b) => {
            assert(wire_expr(e) =~= seq![EXPR_BINARY] + (seq![binary_tag(kind)] + (wire_expr(*a)
                + wire_expr(*b))));
            lemma_holds_tag(s, pos, EXPR_BINARY, seq![binary_tag(kind)] + (wire_expr(*a) + wire_expr(*b)));
            lemma_holds_tag(s, pos + 1, binary_tag(kind), wire_expr(*a) + wire_expr(*b));
            lemma_holds_split(s, pos + 2, wire_expr(*a), wire_expr(*b));
            lemma_expr_roundtrip(s, pos + 2, *a);
            lemma_expr_roundtrip(s, pos + 2 + wire_expr(*a).len(), *b);
            lemma_operands_step(
                s,
                pos + 2,
                *a,
                *b,
                pos + 2 + wire_expr(*a).len(),
                pos + 2 + wire_expr(*a).len() + wire_expr(*b).len(),
            );
            lemma_binary_step(
                s,
                pos + 1,
                kind,
                *a,
                *b,
                pos + 2 + wire_expr(*a).len() + wire_expr(*b).len(),
            );
        },
        ExprModel::Prev => {
            lemma_holds_tag(s, pos, EXPR_PREV, Seq::<u8>::empty());
        },
        ExprModel::Property(a, b) => {
            assert(wire_expr(e) =~= seq![EXPR_PROP] + (wire_expr(*a) + wire_expr(*b)));
            lemma_holds_tag(s, pos, EXPR_PROP, wire_expr(*a) + wire_expr(*b));
            lemma_holds_split(s, pos + 1, wire_expr(*a), wire_expr(*b));
            lemma_expr_roundtrip(s, pos + 1, *a);
            lemma_expr_roundtrip(s, pos + 1 + wire_expr(*a).len(), *b);
            lemma_operands_step(
                s,
                pos + 1,
                *a,
                *b,
                pos + 1 + wire_expr(*a).len(),
                pos + 1 + wire_expr(*a).len() + wire_expr(*b).len(),
            );
        },
        ExprModel::Range(a, b) => {
            assert(wire_expr(e) =~= seq![EXPR_RANGE] + (wire_expr(*a) + wire_expr(*b)));
            lemma_holds_tag(s, pos, EXPR_RANGE, wire_expr(*a) + wire_expr(*b));
            lemma_holds_split(s, pos + 1, wire_expr(*a), wire_expr(*b));
            lemma_expr_roundtrip(s, pos + 1, *a);
            lemma_expr_roundtrip(s, pos + 1 + wire_expr(*a).len(), *b);
            lemma_operands_step(
                s,
                pos + 1,
                *a,
                *b,
                pos + 1 + wire_expr(*a).len(),
                pos + 1 + wire_expr(*a).len() + wire_expr(*b).len(),
            );
        },
        ExprModel::Ref(kind, inner) => {
            assert(wire_expr(e) =~= seq![EXPR_REF] + (seq![kind.wire_byte()] + wire_expr(*inner)));
            lemma_holds_tag(s, pos, EXPR_REF, seq![kind.wire_byte()] + wire_expr(*inner));
            lemma_holds_tag(s, pos + 1, kind.wire_byte(), wire_expr(*inner));
            lemma_expr_roundtrip(s, pos + 2, *inner);
        },
        ExprModel::Struct(t, inits) => {
            let tail = seq![inits.len() as u8] + wire_inits(inits);
            assert(wire_expr(e) =~= seq![EXPR_STRUCT] + (wire_type(t) + tail));
            lemma_holds_tag(s, pos, EXPR_STRUCT, wire_type(t) + tail);
            lemma_holds_split(s, pos + 1, wire_type(t), tail);
            lemma_type_roundtrip(s, pos + 1, t);
            let p1 = pos + 1 + wire_type(t).len();
            lemma_holds_tag(s, p1, inits.len() as u8, wire_inits(inits));
            assert(inits_fit(inits));
            lemma_inits_roundtrip(s, p1 + 1, inits, Seq::<(Seq<char>, ExprModel)>::empty());
            assert(Seq::<(Seq<char>, ExprModel)>::empty() + inits =~= inits);
        },
        ExprModel::Value(v) => {
            lemma_holds_tag(s, pos, EXPR_VALUE, wire_value(v));
            lemma_value_roundtrip(s, pos + 1, v);
        },
        ExprModel::Var(name) => {
            lemma_holds_tag(s, pos, EXPR_VAR, wire_text(name));
            lemma_read_text(s, pos + 1, name);
        },
    }
}

/// Reading the bytes of some field initialisers gives them back.
pub proof fn lemma_inits_roundtrip(
    s: Seq<u8>,
    pos: int,
    inits: Seq<(Seq<char>, ExprModel)>,
    acc: Seq<(Seq<char>, ExprModel)>,
)
    requires
        forall|i: int| 0 <= i < inits.len() ==> init_fits(#[trigger] inits[i]),
        holds_at(s, pos, wire_inits(inits)),
    ensures
        read_inits(s, pos, inits.len(), acc) == Ok::<(Seq<(Seq<char>, ExprModel)>, int), Failure>(
            (acc + inits, pos + wire_inits(inits).len()),
        ),
    decreases inits, 0nat, 1nat,
{
    if inits.len() == 0 {
        assert(acc + inits =~= acc);
    } else {
        let rest = inits.drop_first();
        let name = inits[0].0;
        let value = inits[0].1;
        assert(init_fits(inits[0]));
        assert(wire_inits(inits) =~= wire_text(name) + (wire_expr(value) + wire_inits(rest)));
        lemma_holds_split(s, pos, wire_text(name), wire_expr(value) + wire_inits(rest));
        lemma_read_text(s, pos, name);
        let p1 = pos + wire_text(name).len();
        lemma_holds_split(s, p1, wire_expr(value), wire_inits(rest));
        lemma_expr_roundtrip(s, p1, value);
        assert forall|i: int| 0 <= i < rest.len() implies init_fits(#[trigger] rest[i]) by {
            assert(rest[i] == inits[i + 1]);
        }
        lemma_inits_roundtrip(s, p1 + wire_expr(value).len(), rest, acc.push(inits[0]));
        assert(acc.push(inits[0]) + rest =~= acc + inits);
    }
}

/// Reading the bytes of a counted list of expressions gives the list back.
pub proof fn lemma_expr_list_roundtrip(s: Seq<u8>, pos: int, es: Seq<ExprModel>)
    requires
        exprs_fit(es),
        holds_at(s, pos, wire_expr_list(es)),
    ensures
        read_expr_list(s, pos) == Ok::<(Seq<ExprModel>, int), Failure>(
            (es, pos + wire_expr_list(es).len()),
        ),
        wire_expr_list(es).len() > 0,
{
    lemma_holds_tag(s, pos, es.len() as u8, wire_exprs(es));
    lemma_exprs_roundtrip(s, pos + 1, es, Seq::<ExprModel>::empty());
    assert(Seq::<ExprModel>::empty() + es =~= es);
}

/// Reading the bytes of some expressions, one behind the other, gives them
/// back.
pub proof fn lemma_exprs_roundtrip(s: Seq<u8>, pos: int, es: Seq<ExprModel>, acc: Seq<ExprModel>)
    requires
        forall|i: int| 0 <= i < es.len() ==> expr_fits(#[trigger] es[i]),
        holds_at(s, pos, wire_exprs(es)),
    ensures
        read_exprs(s, pos, es.len(), acc) == Ok::<(Seq<ExprModel>, int), Failure>(
            (acc + es, pos + wire_exprs(es).len()),
        ),
    decreases es.len(),
{
    if es.len() == 0 {
        assert(acc + es =~= acc);
    } else {
        let rest = es.drop_first();
        lemma_holds_split(s, pos, wire_expr(es[0]), wire_exprs(rest));
        lemma_expr_roundtrip(s, pos, es[0]);
        assert forall|i: int| 0 <= i < rest.len() implies expr_fits(#[trigger] rest[i]) by {
            assert(rest[i] == es[i + 1]);
        }
        lemma_exprs_roundtrip(s, pos + wire_expr(es[0]).len(), rest, acc.push(es[0]));
        assert(acc.push(es[0]) + rest =~= acc + es);
    }
}

/// A copy of a list of expressions.
#[verifier::loop_isolation(false)]
pub fn clone_exprs(list: &Vec<CommandExpression>) -> (r: Vec<CommandExpression>)
    ensures
        exprs_model(r@) == exprs_model(list@),
    decreases list, 0nat,
{
    let mut out: Vec<CommandExpression> = Vec::new();
    let mut i: usize = 0;
    while i < list.len()
        invariant
            i <= list.len(),
            out@.len() == i,
            forall|j: int| 0 <= j < i ==> (#[trigger] out@[j])@ == list@[j]@,
        decreases list.len() - i,
    {
        out.push(list[i].clone());
        i += 1;
    }
    assert(exprs_model(out@) =~= exprs_model(list@));
    out
}

/// A copy of the field initialisers of a struct construction.
#[verifier::loop_isolation(false)]
pub fn clone_inits(list: &Vec<(String, CommandExpression)>) -> (r: Vec<(String, CommandExpression)>)
    ensures
        inits_model(r@) == inits_model(list@),
    decreases list, 0nat,
{
    let mut out: Vec<(String, CommandExpression)> = Vec::new();
    let mut i: usize = 0;
    while i < list.len()
        invariant
            i <= list.len(),
            out@.len() == i,
            forall|j: int|
                0 <= j < i ==> (#[trigger] out@[j]).0@ == list@[j].0@ && out@[j].1@ == list@[j].1@,
        decreases list.len() - i,
    {
        let item = &list[i];
        out.push((item.0.clone(), item.1.clone()));
        i += 1;
    }
    assert(inits_model(out@) =~= inits_model(list@));
    out
}

impl Clone for CommandExpression {
    fn clone(&self) -> (r: Self)
        ensures
            r@ == self@,
        decreases self, 1nat,
    {
        match self {
            CommandExpression::Binary(kind, a, b) => CommandExpression::Binary(
                *kind,
                Box::new((**a).clone()),
                Box::new((**b).clone()),
            ),
            CommandExpression::Prev => CommandExpression::Prev,
            CommandExpression::Property(a, b) => CommandExpression::Property(
                Box::new((**a).clone()),
                Box::new((**b).clone()),
            ),
            CommandExpression::Range(a, b) => CommandExpression::Range(
                Box::new((**a).clone()),
                Box::new((**b).clone()),
            ),
            CommandExpression::Ref(kind, inner) => CommandExpression::Ref(
                *kind,
                Box::new((**inner).clone()),
            ),
            CommandExpression::Struct(t, inits) => CommandExpression::Struct(
                t.clone(),
                clone_inits(inits),
            ),
            CommandExpression::Value(v) => CommandExpression::Value(v.clone()),
            CommandExpression::Var(name) => CommandExpression::Var(name.clone()),
        }
    }
}

} // verus!
