use vstd::prelude::*;
use vstd::utf8::*;
use crate::aml3::grammar::src_bool;
use crate::aml3::grammar::src_char;
use crate::aml3::grammar::src_number;
use crate::aml3::grammar::src_string;
use crate::aml3::grammar::src_value;
use crate::aml3::lexer::find_digits_end;
use crate::aml3::lexer::lemma_digits_are_digits;
use crate::aml3::lexer::number_between;
use crate::aml3::lexer::reads;
use crate::aml3::lexer::take_until_space;
use crate::error::DecodeError;
use crate::error::DecodeFault;
use crate::parser::Parser;
use crate::tokens::value::Value;
use crate::utils::string_from_utf8;
use crate::utils::text_eq;

verus! {

/// The reader of literals in source text.
pub struct Aml3Value;

impl Aml3Value {
    /// Reads a number: digits and a size.
    fn visit_number<'a>(parser: Parser<'a>) -> (r: Result<(Parser<'a>, Value), DecodeError>)
        ensures
            reads(r, src_number(parser.bytes@, parser.pointer as int), parser, |v: Value| v@),
    {
        let bytes = parser.bytes;
        let pos = parser.pointer;
        let end = find_digits_end(bytes, pos);
        if end <= pos {
            return Err(DecodeError { fault: DecodeFault::ExpectedNumber, at: pos });
        }
        proof {
            lemma_digits_are_digits(bytes@, pos as int);
        }
        if end < bytes.len() && bytes[end] == 117 && end + 1 < bytes.len() && bytes[end + 1] == 56 {
            match number_between(bytes, pos, end, 255) {
                Some(v) => Ok((parser.at(end + 2), Value::U8(v as u8))),
                None => Err(DecodeError { fault: DecodeFault::NumberOutOfRange, at: pos }),
            }
        } else if end < bytes.len() && bytes[end] == 105 && end + 1 < bytes.len() && bytes[end + 1]
            == 49 && end + 2 < bytes.len() && bytes[end + 2] == 54 {
            match number_between(bytes, pos, end, 32767) {
                Some(v) => Ok((parser.at(end + 3), Value::I16(v as i16))),
                None => Err(DecodeError { fault: DecodeFault::NumberOutOfRange, at: pos }),
            }
        } else {
            Err(DecodeError { fault: DecodeFault::UnknownNumberSize, at: end })
        }
    }

    /// Reads the rest of a string behind its opening quote.
    #[verifier::loop_isolation(false)]
    fn visit_string<'a>(parser: Parser<'a>) -> (r: Result<(Parser<'a>, Value), DecodeError>)
        ensures
            reads(
                r,
                src_string(parser.bytes@, parser.pointer as int, Seq::empty()),
                parser,
                |v: Value| v@,
            ),
    {
        let bytes = parser.bytes;
        let ghost s = bytes@;
        let ghost goal = src_string(s, parser.pointer as int, Seq::empty());
        let mut raw: Vec<u8> = Vec::new();
        let mut i: usize = parser.pointer;
        loop
            invariant
                parser.pointer <= i,
                goal == src_string(s, i as int, raw@),
            decreases s.len() - i,
        {
            if i >= bytes.len() || bytes[i] == 10 {
                return Err(DecodeError { fault: DecodeFault::UnterminatedString, at: i });
            }
            let b = bytes[i];
            if b == 34 {
                match string_from_utf8(raw) {
                    Some(text) => {
                        proof {
                            encode_utf8_decode_utf8(text@);
                        }
                        return Ok((parser.at(i + 1), Value::String(text)));
                    },
                    None => {
                        return Err(DecodeError { fault: DecodeFault::InvalidUtf8, at: i });
                    },
                }
            } else if b == 92 {
                if i + 1 >= bytes.len() {
                    return Err(DecodeError { fault: DecodeFault::UnterminatedString, at: i + 1 });
                }
                let c = bytes[i + 1];
                let escaped: u8 = if c == 34 {
                    34
                } else if c == 92 {
                    92
                } else if c == 110 {
                    10
                } else {
                    return Err(DecodeError { fault: DecodeFault::InvalidEscapedChar, at: i + 1 });
                };
                raw.push(escaped);
                i = i + 2;
            } else {
                raw.push(b);
                i = i + 1;
            }
        }
    }

    /// Reads a character between single quotes.
    fn visit_char<'a>(parser: Parser<'a>) -> (r: Result<(Parser<'a>, Value), DecodeError>)
        requires
            parser.pointer < parser.bytes@.len(),
        ensures
            reads(r, src_char(parser.bytes@, parser.pointer as int), parser, |v: Value| v@),
    {
        let bytes = parser.bytes;
        let p = parser.pointer + 1;
        if p >= bytes.len() || bytes[p] == 10 || bytes[p] == 13 || bytes[p] == 9 {
            return Err(DecodeError { fault: DecodeFault::UnterminatedChar, at: p });
        }
        if bytes[p] == 92 {
            if p + 1 >= bytes.len() {
                return Err(DecodeError { fault: DecodeFault::UnterminatedChar, at: p + 1 });
            }
            let b = bytes[p + 1];
            let c: char = if b == 92 {
                '\\'
            } else if b == 110 {
                '\n'
            } else if b == 39 {
                '\''
            } else {
                return Err(DecodeError { fault: DecodeFault::InvalidEscapedChar, at: p + 1 });
            };
            if p + 2 < bytes.len() && bytes[p + 2] == 39 {
                Ok((parser.at(p + 3), Value::Char(c)))
            } else {
                Err(DecodeError { fault: DecodeFault::UnterminatedChar, at: p + 2 })
            }
        } else {
            let (p1, c) = Value::visit_char(parser.at(p))?;
            if p1.pointer < bytes.len() && bytes[p1.pointer] == 39 {
                Ok((parser.at(p1.pointer + 1), Value::Char(c)))
            } else {
                Err(DecodeError { fault: DecodeFault::UnterminatedChar, at: p1.pointer })
            }
        }
    }

    /// Reads a boolean: the word `true` or `false`.
    fn visit_bool<'a>(parser: Parser<'a>) -> (r: Result<(Parser<'a>, Value), DecodeError>)
        ensures
            reads(r, src_bool(parser.bytes@, parser.pointer as int), parser, |v: Value| v@),
    {
        let (p, word) = take_until_space(parser)?;
        if text_eq(word.as_str(), "true") {
            Ok((p, Value::Bool(true)))
        } else if text_eq(word.as_str(), "false") {
            Ok((p, Value::Bool(false)))
        } else {
            Err(DecodeError { fault: DecodeFault::ExpectedBool, at: parser.pointer })
        }
    }

    /// Reads a literal.
    pub fn visit<'a>(parser: Parser<'a>) -> (r: Result<(Parser<'a>, Value), DecodeError>)
        ensures
            reads(r, src_value(parser.bytes@, parser.pointer as int), parser, |v: Value| v@),
    {
        let bytes = parser.bytes;
        let pos = parser.pointer;
        if pos >= bytes.len() {
            return Err(DecodeError { fault: DecodeFault::UnexpectedEnd, at: pos });
        }
        let b = bytes[pos];
        if 48 <= b && b <= 57 {
            Aml3Value::visit_number(parser)
        } else if b == 34 {
            let (p, v) = Aml3Value::visit_string(parser.at(pos + 1))?;
            Ok((parser.at(p.pointer), v))
        } else if b == 39 {
            Aml3Value::visit_char(parser)
        } else if b == 116 || b == 102 {
            Aml3Value::visit_bool(parser)
        } else {
            Err(DecodeError { fault: DecodeFault::UnknownValue, at: pos })
        }
    }
}

} // verus!
