use vstd::prelude::*;
use vstd::utf8::*;
use crate::error::DecodeFault;
use crate::error::Parsed;
use crate::error::fail;
use crate::tokens::command::CommandModel;
use crate::tokens::expr::BinaryKind;
use crate::tokens::expr::ExprModel;
use crate::tokens::types::AmvmPrimitiveType;
use crate::tokens::types::TypeModel;
use crate::tokens::value::ValueModel;
use crate::tokens::value::read_char;

verus! {

/// Whether a byte is a space, a tab, a carriage return or a line feed.
pub open spec fn is_space(b: u8) -> bool {
    b == 32 || b == 9 || b == 13 || b == 10
}

/// Whether a byte is a decimal digit.
pub open spec fn is_digit(b: u8) -> bool {
    48 <= b <= 57
}

/// Whether the byte `b` stands at `pos`.
pub open spec fn at(s: Seq<u8>, pos: int, b: u8) -> bool {
    0 <= pos < s.len() && s[pos] == b
}

/// Where the word ends that starts at `pos`: at the next blank byte, or at
/// the end of the text.
pub open spec fn word_end(s: Seq<u8>, pos: int) -> int
    decreases s.len() - pos,
{
    if pos < 0 || pos >= s.len() || is_space(s[pos]) {
        pos
    } else {
        word_end(s, pos + 1)
    }
}

/// Where the word of a type ends that starts at `pos`: at the next blank
/// byte, comma or closing bracket, or at the end of the text.
pub open spec fn type_word_end(s: Seq<u8>, pos: int) -> int
    decreases s.len() - pos,
{
    if pos < 0 || pos >= s.len() || is_space(s[pos]) || s[pos] == 44 || s[pos] == 41 {
        pos
    } else {
        type_word_end(s, pos + 1)
    }
}

/// Where the line ends that holds `pos`: at the next line feed, or at the end
/// of the text.
pub open spec fn line_end(s: Seq<u8>, pos: int) -> int
    decreases s.len() - pos,
{
    if pos < 0 || pos >= s.len() || s[pos] == 10 {
        pos
    } else {
        line_end(s, pos + 1)
    }
}

/// Where a comment ends that holds `pos`: at the next line feed or carriage
/// return, or at the end of the text.
pub open spec fn comment_end(s: Seq<u8>, pos: int) -> int
    decreases s.len() - pos,
{
    if pos < 0 || pos >= s.len() || s[pos] == 10 || s[pos] == 13 {
        pos
    } else {
        comment_end(s, pos + 1)
    }
}

/// The first place at or behind `pos` that holds no blank byte.
pub open spec fn skip_space(s: Seq<u8>, pos: int) -> int
    decreases s.len() - pos,
{
    if pos < 0 || pos >= s.len() || !is_space(s[pos]) {
        pos
    } else {
        skip_space(s, pos + 1)
    }
}

/// The first place at or behind `pos` that holds neither a blank byte nor a
/// comment. A comment runs from a semicolon to the end of its line.
pub open spec fn skip_blank(s: Seq<u8>, pos: int) -> int
    decreases s.len() - pos,
{
    if pos < 0 || pos >= s.len() {
        pos
    } else if is_space(s[pos]) {
        skip_blank(s, pos + 1)
    } else if s[pos] == 59 {
        if pos < comment_end(s, pos + 1) <= s.len() {
            skip_blank(s, comment_end(s, pos + 1))
        } else {
            pos
        }
    } else {
        pos
    }
}

/// Where the digits end that start at `pos`.
pub open spec fn digits_end(s: Seq<u8>, pos: int) -> int
    decreases s.len() - pos,
{
    if pos < 0 || pos >= s.len() || !is_digit(s[pos]) {
        pos
    } else {
        digits_end(s, pos + 1)
    }
}

/// The number that the digits from `from` up to `to` write.
pub open spec fn digits_value(s: Seq<u8>, from: int, to: int) -> nat
    decreases to - from,
{
    if from >= to || from < 0 || to > s.len() {
        0
    } else {
        digits_value(s, from, to - 1) * 10 + (s[to - 1] - 48) as nat
    }
}

/// How many line feeds stand before `pos`.
pub open spec fn line_of(s: Seq<u8>, pos: int) -> nat
    decreases pos,
{
    if pos <= 0 || pos > s.len() {
        0
    } else {
        line_of(s, pos - 1) + (if s[pos - 1] == 10 { 1nat } else { 0nat })
    }
}

/// The text from `from` up to `to`, which must be UTF-8.
pub open spec fn text_between(s: Seq<u8>, from: int, to: int) -> Parsed<Seq<char>> {
    if 0 <= from <= to <= s.len() && valid_utf8(s.subrange(from, to)) {
        Ok((decode_utf8(s.subrange(from, to)), to))
    } else {
        fail(DecodeFault::InvalidUtf8, from)
    }
}

/// Reads the word at `pos`: the bytes up to the next blank byte, of which
/// there must be one at least.
pub open spec fn src_word(s: Seq<u8>, pos: int) -> Parsed<Seq<char>> {
    if word_end(s, pos) <= pos {
        fail(DecodeFault::ExpectedWord, pos)
    } else {
        text_between(s, pos, word_end(s, pos))
    }
}

/// Reads a variable at `pos`: a `$` and a word.
pub open spec fn src_variable(s: Seq<u8>, pos: int) -> Parsed<Seq<char>> {
    if at(s, pos, 36) {
        src_word(s, pos + 1)
    } else {
        fail(DecodeFault::ExpectedVariable, pos)
    }
}

/// Reads the name of a type at `pos`: a `#` and a word, or the lone `#` of a
/// type without a name.
pub open spec fn src_type_name(s: Seq<u8>, pos: int) -> Parsed<Option<Seq<char>>> {
    if !at(s, pos, 35) {
        fail(DecodeFault::ExpectedType, pos)
    } else if word_end(s, pos + 1) <= pos + 1 {
        Ok((None, pos + 1))
    } else {
        match text_between(s, pos + 1, word_end(s, pos + 1)) {
            Err(e) => Err(e),
            Ok((name, p)) => Ok((Some(name), p)),
        }
    }
}

/// The type that a word names: `string`, `u8` and `bool` are the primitive
/// types, any other word is the name of a type.
pub open spec fn type_of_word(word: Seq<char>) -> TypeModel {
    if word == "string"@ {
        TypeModel::Primitive(AmvmPrimitiveType::String)
    } else if word == "u8"@ {
        TypeModel::Primitive(AmvmPrimitiveType::U8)
    } else if word == "bool"@ {
        TypeModel::Primitive(AmvmPrimitiveType::Bool)
    } else {
        TypeModel::Named(word)
    }
}

/// Reads a type that is one word at `pos`. No word at all is the anonymous
/// type, as is a lone `#`; a `#` before a word makes the word a name.
pub open spec fn src_type_word(s: Seq<u8>, pos: int) -> Parsed<TypeModel> {
    let end = type_word_end(s, pos);
    if end <= pos {
        Ok((TypeModel::Anonymous, pos))
    } else if s[pos] == 35 {
        if end == pos + 1 {
            Ok((TypeModel::Anonymous, end))
        } else {
            match text_between(s, pos + 1, end) {
                Err(e) => Err(e),
                Ok((name, p)) => Ok((TypeModel::Named(name), p)),
            }
        }
    } else {
        match text_between(s, pos, end) {
            Err(e) => Err(e),
            Ok((word, p)) => Ok((type_of_word(word), p)),
        }
    }
}

/// Reads a type at `pos`: `+ a b` is the union of two types, `(a, b)` a
/// tuple, anything else a type of one word.
pub open spec fn src_type(s: Seq<u8>, pos: int) -> Parsed<TypeModel>
    decreases s.len() - pos, 1nat,
{
    if !(0 <= pos < s.len()) {
        fail(DecodeFault::UnexpectedEnd, pos)
    } else if s[pos] == 43 {
        if !at(s, pos + 1, 32) {
            fail(DecodeFault::ExpectedSpace, pos + 1)
        } else {
            match src_type(s, pos + 2) {
                Err(e) => Err(e),
                Ok((a, p1)) => if !(pos < p1 < s.len()) || s[p1] != 32 {
                    fail(DecodeFault::ExpectedSpace, p1)
                } else {
                    match src_type(s, p1 + 1) {
                        Err(e) => Err(e),
                        Ok((b, p2)) => Ok((TypeModel::Union(Box::new(a), Box::new(b)), p2)),
                    }
                },
            }
        }
    } else if s[pos] == 40 {
        src_tuple_items(s, pos + 1, Seq::empty())
    } else {
        src_type_word(s, pos)
    }
}

/// Reads the members of a tuple type behind those in `acc`: each may have a
/// space before it, a comma stands between two, and a closing bracket ends
/// them.
pub open spec fn src_tuple_items(s: Seq<u8>, pos: int, acc: Seq<TypeModel>) -> Parsed<TypeModel>
    decreases s.len() - pos, 2nat,
{
    let p = if at(s, pos, 32) {
        pos + 1
    } else {
        pos
    };
    if pos < 0 {
        fail(DecodeFault::UnclosedTuple, pos)
    } else {
        match src_type(s, p) {
            Err(e) => Err(e),
            Ok((t, p1)) => if at(s, p1, 41) && p <= p1 {
                Ok((TypeModel::Tuple(acc.push(t)), p1 + 1))
            } else if at(s, p1, 44) && p <= p1 {
                src_tuple_items(s, p1 + 1, acc.push(t))
            } else {
                fail(DecodeFault::UnclosedTuple, p1)
            },
        }
    }
}

/// Reads a tuple type at `pos`: its members between round brackets.
pub open spec fn src_tuple(s: Seq<u8>, pos: int) -> Parsed<TypeModel> {
    if at(s, pos, 40) {
        src_tuple_items(s, pos + 1, Seq::empty())
    } else {
        fail(DecodeFault::UnclosedTuple, pos)
    }
}

/// Reads a number at `pos`: digits and a size, `u8` or `i16`.
pub open spec fn src_number(s: Seq<u8>, pos: int) -> Parsed<ValueModel> {
    let end = digits_end(s, pos);
    let v = digits_value(s, pos, end);
    if end <= pos {
        fail(DecodeFault::ExpectedNumber, pos)
    } else if at(s, end, 117) && at(s, end + 1, 56) {
        if v <= 255 {
            Ok((ValueModel::U8(v as u8), end + 2))
        } else {
            fail(DecodeFault::NumberOutOfRange, pos)
        }
    } else if at(s, end, 105) && at(s, end + 1, 49) && at(s, end + 2, 54) {
        if v <= 32767 {
            Ok((ValueModel::I16(v as i16), end + 3))
        } else {
            fail(DecodeFault::NumberOutOfRange, pos)
        }
    } else {
        fail(DecodeFault::UnknownNumberSize, end)
    }
}

/// Reads a number of at most 16 bits at `pos`: digits only.
pub open spec fn src_u16(s: Seq<u8>, pos: int) -> Parsed<u16> {
    let end = digits_end(s, pos);
    let v = digits_value(s, pos, end);
    if end <= pos {
        fail(DecodeFault::ExpectedNumber, pos)
    } else if v <= 65535 {
        Ok((v as u16, end))
    } else {
        fail(DecodeFault::NumberOutOfRange, pos)
    }
}

/// The byte that a backslash before `b` stands for in a string.
pub open spec fn string_escape(b: u8) -> Option<u8> {
    if b == 34 {
        Some(34u8)
    } else if b == 92 {
        Some(92u8)
    } else if b == 110 {
        Some(10u8)
    } else {
        None
    }
}

/// Reads the rest of a string behind its opening quote, behind the bytes in
/// `acc`. The string ends at the next quote that no backslash stands before,
/// and must end on its line.
pub open spec fn src_string(s: Seq<u8>, pos: int, acc: Seq<u8>) -> Parsed<ValueModel>
    decreases s.len() - pos,
{
    if !(0 <= pos < s.len()) || s[pos] == 10 {
        fail(DecodeFault::UnterminatedString, pos)
    } else if s[pos] == 34 {
        if valid_utf8(acc) {
            Ok((ValueModel::String(decode_utf8(acc)), pos + 1))
        } else {
            fail(DecodeFault::InvalidUtf8, pos)
        }
    } else if s[pos] == 92 {
        if pos + 1 >= s.len() {
            fail(DecodeFault::UnterminatedString, pos + 1)
        } else {
            match string_escape(s[pos + 1]) {
                Some(b) => src_string(s, pos + 2, acc.push(b)),
                None => fail(DecodeFault::InvalidEscapedChar, pos + 1),
            }
        }
    } else {
        src_string(s, pos + 1, acc.push(s[pos]))
    }
}

/// The character that a backslash before `b` stands for in a character.
pub open spec fn char_escape(b: u8) -> Option<char> {
    if b == 92 {
        Some('\\')
    } else if b == 110 {
        Some('\n')
    } else if b == 39 {
        Some('\'')
    } else {
        None
    }
}

/// Reads a character between single quotes at `pos`.
pub open spec fn src_char(s: Seq<u8>, pos: int) -> Parsed<ValueModel> {
    let p = pos + 1;
    if !(0 <= p < s.len()) || s[p] == 10 || s[p] == 13 || s[p] == 9 {
        fail(DecodeFault::UnterminatedChar, p)
    } else if s[p] == 92 {
        if p + 1 >= s.len() {
            fail(DecodeFault::UnterminatedChar, p + 1)
        } else {
            match char_escape(s[p + 1]) {
                None => fail(DecodeFault::InvalidEscapedChar, p + 1),
                Some(c) => if at(s, p + 2, 39) {
                    Ok((ValueModel::Char(c), p + 3))
                } else {
                    fail(DecodeFault::UnterminatedChar, p + 2)
                },
            }
        }
    } else {
        match read_char(s, p) {
            Err(e) => Err(e),
            Ok((c, p1)) => if at(s, p1, 39) {
                Ok((ValueModel::Char(c), p1 + 1))
            } else {
                fail(DecodeFault::UnterminatedChar, p1)
            },
        }
    }
}

/// Reads a boolean at `pos`: the word `true` or `false`.
pub open spec fn src_bool(s: Seq<u8>, pos: int) -> Parsed<ValueModel> {
    match src_word(s, pos) {
        Err(e) => Err(e),
        Ok((word, p)) => if word == "true"@ {
            Ok((ValueModel::Bool(true), p))
        } else if word == "false"@ {
            Ok((ValueModel::Bool(false), p))
        } else {
            fail(DecodeFault::ExpectedBool, pos)
        },
    }
}

/// Reads a literal at `pos`.
pub open spec fn src_value(s: Seq<u8>, pos: int) -> Parsed<ValueModel> {
    if !(0 <= pos < s.len()) {
        fail(DecodeFault::UnexpectedEnd, pos)
    } else if is_digit(s[pos]) {
        src_number(s, pos)
    } else if s[pos] == 34 {
        src_string(s, pos + 1, Seq::empty())
    } else if s[pos] == 39 {
        src_char(s, pos)
    } else if s[pos] == 116 || s[pos] == 102 {
        src_bool(s, pos)
    } else {
        fail(DecodeFault::UnknownValue, pos)
    }
}

/// The operator that the byte at `pos` starts, and where its operands start;
/// nothing where the byte starts no operator that takes two operands.
pub open spec fn src_operator(s: Seq<u8>, pos: int) -> Option<Parsed<Option<BinaryKind>>> {
    if !(0 <= pos < s.len()) {
        None
    } else if s[pos] == 43 {
        Some(Ok((Some(BinaryKind::Add), pos + 1)))
    } else if s[pos] == 45 {
        Some(Ok((Some(BinaryKind::Sub), pos + 1)))
    } else if s[pos] == 42 {
        Some(Ok((Some(BinaryKind::Mult), pos + 1)))
    } else if s[pos] == 62 || s[pos] == 60 || s[pos] == 61 || s[pos] == 33 || s[pos] == 46 {
        if pos + 1 >= s.len() {
            Some(fail(DecodeFault::ExpectedOperator, pos + 1))
        } else if s[pos] == 62 {
            if s[pos + 1] == 61 {
                Some(Ok((Some(BinaryKind::GreaterThanEqual), pos + 2)))
            } else {
                Some(Ok((Some(BinaryKind::GreaterThan), pos + 1)))
            }
        } else if s[pos] == 60 {
            if s[pos + 1] == 61 {
                Some(Ok((Some(BinaryKind::LessThanEqual), pos + 2)))
            } else {
                Some(Ok((Some(BinaryKind::LessThan), pos + 1)))
            }
        } else if s[pos] == 61 {
            if s[pos + 1] == 61 {
                Some(Ok((Some(BinaryKind::Equal), pos + 2)))
            } else {
                Some(fail(DecodeFault::ExpectedOperator, pos))
            }
        } else if s[pos] == 33 {
            if s[pos + 1] == 61 {
                Some(Ok((Some(BinaryKind::NotEqual), pos + 2)))
            } else {
                Some(fail(DecodeFault::ExpectedOperator, pos))
            }
        } else {
            Some(Ok((None, pos + 1)))
        }
    } else {
        None
    }
}

/// The expression that an operator makes of two operands. A lone dot is a
/// property access, two dots are a range.
pub open spec fn operation(
    s: Seq<u8>,
    pos: int,
    kind: Option<BinaryKind>,
    a: ExprModel,
    b: ExprModel,
) -> ExprModel {
    match kind {
        Some(k) => ExprModel::Binary(k, Box::new(a), Box::new(b)),
        None => if at(s, pos + 1, 46) {
            ExprModel::Range(Box::new(a), Box::new(b))
        } else {
            ExprModel::Property(Box::new(a), Box::new(b))
        },
    }
}

/// Where the operands of the operator at `pos` start, given where `start`
/// says they do: behind the second dot of a range.
pub open spec fn operands_start(s: Seq<u8>, pos: int, kind: Option<BinaryKind>, start: int) -> int {
    if kind is None && at(s, pos + 1, 46) {
        pos + 2
    } else {
        start
    }
}

/// Reads the two operands of an operator at `pos`: a space and an expression,
/// twice.
pub open spec fn src_operands(s: Seq<u8>, pos: int) -> Parsed<(ExprModel, ExprModel)>
    decreases s.len() - pos, 2nat,
{
    if !at(s, pos, 32) {
        fail(DecodeFault::ExpectedSpace, pos)
    } else {
        match src_expr(s, pos + 1) {
            Err(e) => Err(e),
            Ok((a, p1)) => if !(pos < p1 < s.len()) || s[p1] != 32 {
                fail(DecodeFault::ExpectedSpace, p1)
            } else {
                match src_expr(s, p1 + 1) {
                    Err(e) => Err(e),
                    Ok((b, p2)) => Ok(((a, b), p2)),
                }
            },
        }
    }
}

/// Reads the field initialisers of a struct construction behind those in
/// `acc`: each is a word, a space and an expression, blank bytes stand
/// between them, and a closing brace ends them.
pub open spec fn src_inits(s: Seq<u8>, pos: int, acc: Seq<(Seq<char>, ExprModel)>) -> Parsed<
    Seq<(Seq<char>, ExprModel)>,
>
    decreases s.len() - pos, 3nat,
{
    let p = skip_space(s, pos);
    if !(0 <= pos <= p < s.len()) {
        fail(DecodeFault::UnclosedBlock, p)
    } else if s[p] == 125 {
        Ok((acc, p + 1))
    } else {
        match src_word(s, p) {
            Err(e) => Err(e),
            Ok((name, p1)) => if !(p < p1 < s.len()) || s[p1] != 32 {
                fail(DecodeFault::ExpectedSpace, p1)
            } else {
                match src_expr(s, p1 + 1) {
                    Err(e) => Err(e),
                    Ok((value, p2)) => if p1 < p2 <= s.len() {
                        src_inits(s, p2, acc.push((name, value)))
                    } else {
                        fail(DecodeFault::UnexpectedEnd, p1)
                    },
                }
            },
        }
    }
}

/// Reads a struct construction at `pos`: its type, a space, and its field
/// initialisers between braces.
pub open spec fn src_struct_expr(s: Seq<u8>, pos: int) -> Parsed<ExprModel>
    decreases s.len() - pos, 4nat,
{
    match src_type(s, pos) {
        Err(e) => Err(e),
        Ok((t, p1)) => if !(pos < p1 < s.len()) || s[p1] != 32 {
            fail(DecodeFault::ExpectedSpace, p1)
        } else if !at(s, p1 + 1, 123) {
            fail(DecodeFault::ExpectedBlock, p1 + 1)
        } else {
            match src_inits(s, p1 + 2, Seq::empty()) {
                Err(e) => Err(e),
                Ok((inits, p2)) => Ok((ExprModel::Struct(t, inits), p2)),
            }
        },
    }
}

/// Reads an expression at `pos`. An operator stands before its operands.
pub open spec fn src_expr(s: Seq<u8>, pos: int) -> Parsed<ExprModel>
    decreases s.len() - pos, 5nat,
{
    if !(0 <= pos < s.len()) {
        fail(DecodeFault::ExpectedOperator, pos)
    } else {
        match src_operator(s, pos) {
            Some(Err(e)) => Err(e),
            Some(Ok((kind, start))) => match src_operands(s, operands_start(s, pos, kind, start)) {
                Err(e) => Err(e),
                Ok((ab, p)) => Ok((operation(s, pos, kind, ab.0, ab.1), p)),
            },
            None => if s[pos] == 35 {
                src_struct_expr(s, pos)
            } else if s[pos] == 36 {
                match src_variable(s, pos) {
                    Err(e) => Err(e),
                    Ok((name, p)) => Ok((ExprModel::Var(name), p)),
                }
            } else if s[pos] == 95 {
                Ok((ExprModel::Prev, pos + 1))
            } else {
                match src_value(s, pos) {
                    Err(e) => Err(e),
                    Ok((v, p)) => Ok((ExprModel::Value(v), p)),
                }
            },
        }
    }
}

/// Reads the arguments of a call behind those in `acc`: each is a space and
/// an expression, and the end of the line ends them.
pub open spec fn src_args(s: Seq<u8>, pos: int, acc: Seq<ExprModel>) -> Parsed<Seq<ExprModel>>
    decreases s.len() - pos,
{
    if !(0 <= pos < s.len()) || s[pos] == 10 || s[pos] == 13 {
        Ok((acc, pos))
    } else if s[pos] != 32 {
        fail(DecodeFault::ExpectedSpace, pos)
    } else {
        match src_expr(s, pos + 1) {
            Err(e) => Err(e),
            Ok((e, p1)) => if pos < p1 <= s.len() {
                src_args(s, p1, acc.push(e))
            } else {
                fail(DecodeFault::UnexpectedEnd, pos)
            },
        }
    }
}

/// Reads the fields of a struct declaration behind those in `acc`: each is a
/// word, a space and a type, blank bytes stand between them, and a closing
/// brace ends them.
pub open spec fn src_members(s: Seq<u8>, pos: int, acc: Seq<(Seq<char>, TypeModel)>) -> Parsed<
    Seq<(Seq<char>, TypeModel)>,
>
    decreases s.len() - pos,
{
    let p = skip_space(s, pos);
    if !(0 <= pos <= p < s.len()) {
        fail(DecodeFault::UnclosedBlock, p)
    } else if s[p] == 125 {
        Ok((acc, p + 1))
    } else {
        match src_word(s, p) {
            Err(e) => Err(e),
            Ok((name, p1)) => if !(p < p1 < s.len()) || s[p1] != 32 {
                fail(DecodeFault::ExpectedSpace, p1)
            } else {
                match src_type(s, p1 + 1) {
                    Err(e) => Err(e),
                    Ok((t, p2)) => if p1 < p2 <= s.len() {
                        src_members(s, p2, acc.push((name, t)))
                    } else {
                        fail(DecodeFault::UnexpectedEnd, p1)
                    },
                }
            },
        }
    }
}

/// Reads the fields of a struct declaration between braces at `pos`.
pub open spec fn src_decl_block(s: Seq<u8>, pos: int) -> Parsed<Seq<(Seq<char>, TypeModel)>> {
    if !at(s, pos, 123) {
        fail(DecodeFault::ExpectedBlock, pos)
    } else {
        src_members(s, pos + 1, Seq::empty())
    }
}

/// Reads the field initialisers of a struct construction between braces at
/// `pos`.
pub open spec fn src_def_block(s: Seq<u8>, pos: int) -> Parsed<Seq<(Seq<char>, ExprModel)>> {
    if !at(s, pos, 123) {
        fail(DecodeFault::ExpectedBlock, pos)
    } else {
        src_inits(s, pos + 1, Seq::empty())
    }
}

/// Reads a source position or the name of a source file at `pos`:
/// `!! name` names the file, `! line:column code` gives a position. Both run
/// to the end of the line.
pub open spec fn src_meta(s: Seq<u8>, pos: int) -> Parsed<CommandModel> {
    if !at(s, pos, 33) {
        fail(DecodeFault::ExpectedCommand, pos)
    } else if at(s, pos + 1, 33) {
        if !at(s, pos + 2, 32) {
            fail(DecodeFault::ExpectedSpace, pos + 2)
        } else {
            match text_between(s, pos + 3, line_end(s, pos + 3)) {
                Err(e) => Err(e),
                Ok((name, p)) => Ok((CommandModel::MetaFile(name), p)),
            }
        }
    } else if !at(s, pos + 1, 32) {
        fail(DecodeFault::ExpectedSpace, pos + 1)
    } else {
        match src_u16(s, pos + 2) {
            Err(e) => Err(e),
            Ok((line, p1)) => if !at(s, p1, 58) {
                fail(DecodeFault::ExpectedColon, p1)
            } else {
                match src_u16(s, p1 + 1) {
                    Err(e) => Err(e),
                    Ok((col, p2)) => if !at(s, p2, 32) {
                        fail(DecodeFault::ExpectedSpace, p2)
                    } else {
                        match text_between(s, p2 + 1, line_end(s, p2 + 1)) {
                            Err(e) => Err(e),
                            Ok((code, p3)) => Ok((CommandModel::Meta { pos: (line, col), code }, p3)),
                        }
                    },
                }
            },
        }
    }
}

} // verus!
