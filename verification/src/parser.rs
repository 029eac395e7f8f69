use vstd::prelude::*;
use vstd::slice::*;
use vstd::string::*;
use vstd::utf8::*;
use crate::error::DecodeError;
use crate::error::DecodeFault;
use crate::error::Failure;
use crate::error::Parsed;
use crate::error::ParserError;

verus! {

/// A cursor over a byte string. It is cheap to copy: reading hands back a new
/// cursor and leaves the old one usable for error reports.
#[derive(Clone, Copy, Debug)]
pub struct Parser<'a> {
    /// The whole input.
    pub bytes: &'a [u8],
    /// Offset of the next byte to read.
    pub pointer: usize,
    /// The current line: a count of line breaks for text, the offset of the
    /// current command for bytecode.
    pub line: usize,
    /// Offset at which the current line starts.
    pub line_byte_start: usize,
    /// Whether the input is bytecode rather than source text.
    pub is_bytecode: bool,
}

impl<'a> Parser<'a> {
    /// A cursor at the start of `input`.
    pub fn new(input: &'a [u8], is_bytecode: bool) -> (r: Parser<'a>)
        ensures
            r.bytes == input,
            r.pointer == 0,
            r.line == 0,
            r.line_byte_start == 0,
            r.is_bytecode == is_bytecode,
    {
        Parser { bytes: input, pointer: 0, line: 0, line_byte_start: 0, is_bytecode }
    }

    /// A bytecode cursor over the bytes of a string.
    pub fn from_string(content: &'a str) -> (r: Parser<'a>)
        ensures
            r.bytes@ == encode_utf8(content@),
            r.pointer == 0,
            r.line == 0,
            r.line_byte_start == 0,
            r.is_bytecode,
    {
        Parser { bytes: content.as_bytes(), pointer: 0, line: 0, line_byte_start: 0, is_bytecode: true }
    }

    /// The byte `count` places after the cursor, if the input reaches that far.
    pub open spec fn spec_peek(&self, count: int) -> Option<u8> {
        if 0 <= self.pointer + count < self.bytes@.len() {
            Some(self.bytes@[self.pointer + count])
        } else {
            None
        }
    }

    /// The byte `count` places after the cursor, if the input reaches that far.
    pub fn peek(&self, count: usize) -> (r: Option<u8>)
        ensures
            r == self.spec_peek(count as int),
    {
        if count < self.bytes.len() && self.pointer < self.bytes.len() - count {
            Some(self.bytes[self.pointer + count])
        } else {
            None
        }
    }

    /// Reads the byte under the cursor and steps over it. At the end of the
    /// input the cursor still steps, unless it would overflow.
    pub fn consume(&mut self) -> (r: Option<u8>)
        ensures
            r == old(self).spec_peek(0),
            final(self).pointer == (if old(self).pointer == usize::MAX {
                usize::MAX
            } else {
                (old(self).pointer + 1) as usize
            }),
            final(self).bytes == old(self).bytes,
            final(self).line == old(self).line,
            final(self).line_byte_start == old(self).line_byte_start,
            final(self).is_bytecode == old(self).is_bytecode,
    {
        let r = self.peek(0);
        if self.pointer < usize::MAX {
            self.pointer = self.pointer + 1;
        }
        r
    }

    /// Steps over the byte under the cursor and reads the one behind it.
    pub fn next(&mut self) -> (r: Option<u8>)
        ensures
            r == final(self).spec_peek(0),
            final(self).pointer == (if old(self).pointer == usize::MAX {
                usize::MAX
            } else {
                (old(self).pointer + 1) as usize
            }),
            final(self).bytes == old(self).bytes,
            final(self).line == old(self).line,
            final(self).line_byte_start == old(self).line_byte_start,
            final(self).is_bytecode == old(self).is_bytecode,
    {
        if self.pointer < usize::MAX {
            self.pointer = self.pointer + 1;
        }
        self.peek(0)
    }

    /// Whether the cursor stands at the end of a line or of the input.
    pub fn is_eol(&self) -> (r: bool)
        ensures
            r == (self.spec_peek(0) == None::<u8> || self.spec_peek(0) == Some(10u8)
                || self.spec_peek(0) == Some(13u8)),
    {
        match self.peek(0) {
            None => true,
            Some(b) => b == 10u8 || b == 13u8,
        }
    }

    /// The cursor with a new line started at its position. For bytecode the
    /// line is the offset of the command that starts here; for text it is the
    /// line count, which stops at the largest number.
    pub fn new_line(&self) -> (r: Self)
        ensures
            r.bytes == self.bytes,
            r.pointer == self.pointer,
            r.is_bytecode == self.is_bytecode,
            r.line_byte_start == self.pointer,
            r.line == (if self.is_bytecode {
                self.pointer
            } else if self.line == usize::MAX {
                usize::MAX
            } else {
                (self.line + 1) as usize
            }),
    {
        let line: usize = if self.is_bytecode {
            self.pointer
        } else if self.line < usize::MAX {
            self.line + 1
        } else {
            usize::MAX
        };
        Parser {
            bytes: self.bytes,
            pointer: self.pointer,
            line,
            line_byte_start: self.pointer,
            is_bytecode: self.is_bytecode,
        }
    }

    /// Distance of the cursor from the start of its line; 0 where the line
    /// starts behind the cursor.
    pub fn column(&self) -> (r: usize)
        ensures
            r == (if self.pointer >= self.line_byte_start {
                self.pointer - self.line_byte_start
            } else {
                0
            }),
    {
        if self.pointer >= self.line_byte_start {
            self.pointer - self.line_byte_start
        } else {
            0
        }
    }

    /// Line and column of the cursor.
    pub fn cursor_position(&self) -> (r: (usize, usize))
        ensures
            r.0 == self.line,
            r.1 == (if self.pointer >= self.line_byte_start {
                self.pointer - self.line_byte_start
            } else {
                0
            }),
    {
        (self.line, self.column())
    }

    /// Offset of the cursor in the input.
    pub fn pointer_position(&self) -> (r: usize)
        ensures
            r == self.pointer,
    {
        self.pointer
    }

    /// The cursor moved to `pointer`.
    pub fn at(&self, pointer: usize) -> (r: Self)
        ensures
            r == self.spec_at(pointer as int),
    {
        Parser {
            bytes: self.bytes,
            pointer,
            line: self.line,
            line_byte_start: self.line_byte_start,
            is_bytecode: self.is_bytecode,
        }
    }

    pub open spec fn spec_at(&self, pointer: int) -> Self {
        Parser {
            bytes: self.bytes,
            pointer: pointer as usize,
            line: self.line,
            line_byte_start: self.line_byte_start,
            is_bytecode: self.is_bytecode,
        }
    }

    /// A rendered error whose distance is how far the cursor has moved since
    /// `prev_pointer`.
    pub fn error(&self, msg: &str, context: String, prev_pointer: usize) -> (r: ParserError)
        ensures
            r.description@ == msg@,
            r.context == context,
            r.at == (if self.pointer >= prev_pointer {
                self.pointer - prev_pointer
            } else {
                0
            }),
    {
        let at: usize = if self.pointer >= prev_pointer {
            self.pointer - prev_pointer
        } else {
            0
        };
        ParserError::from_msg(msg, context, at)
    }

    /// As `error`, with a remark on a possibly corrupt file behind the context.
    pub fn error_corrupt(&self, msg: &str, context: &str, prev_pointer: usize) -> (r: ParserError)
        ensures
            r.description@ == msg@,
            r.context@ == context@ + ". Possible corrupt file or bad serialize"@,
            r.at == (if self.pointer >= prev_pointer {
                self.pointer - prev_pointer
            } else {
                0
            }),
    {
        let at: usize = if self.pointer >= prev_pointer {
            self.pointer - prev_pointer
        } else {
            0
        };
        let mut text = context.to_owned();
        text.append(". Possible corrupt file or bad serialize");
        ParserError::from_msg(msg, text, at)
    }

    /// Reads one byte.
    pub fn take_byte(&self) -> (r: Result<(Parser<'a>, u8), DecodeError>)
        ensures
            agrees_plain(r, read_byte(self.bytes@, self.pointer as int), *self),
    {
        if self.pointer < self.bytes.len() {
            Ok((self.at(self.pointer + 1), self.bytes[self.pointer]))
        } else {
            Err(DecodeError { fault: DecodeFault::UnexpectedEnd, at: self.pointer })
        }
    }
}

/// The byte at `pos`, or the failure of a stream that ends there.
pub open spec fn read_byte(s: Seq<u8>, pos: int) -> Parsed<u8> {
    if 0 <= pos < s.len() {
        Ok((s[pos], pos + 1))
    } else {
        Err(Failure { fault: DecodeFault::UnexpectedEnd, at: pos })
    }
}

/// An executable outcome says what the model outcome says: the same node at
/// the same offset behind it, with the cursor otherwise unchanged, or the same
/// failure.
pub open spec fn agrees<T: View>(
    r: Result<(Parser, T), DecodeError>,
    m: Parsed<T::V>,
    start: Parser,
) -> bool {
    match r {
        Ok((p, v)) => m == Ok::<(T::V, int), Failure>((v@, p.pointer as int)) && p == start.spec_at(
            p.pointer as int,
        ) && start.pointer < p.pointer <= start.bytes@.len(),
        Err(e) => m == Err::<(T::V, int), Failure>(e@),
    }
}

/// As `agrees`, with the node's model given by `model`.
pub open spec fn agrees_as<T, M>(
    r: Result<(Parser, T), DecodeError>,
    m: Parsed<M>,
    start: Parser,
    model: spec_fn(T) -> M,
) -> bool {
    match r {
        Ok((p, v)) => m == Ok::<(M, int), Failure>((model(v), p.pointer as int)) && p
            == start.spec_at(p.pointer as int) && start.pointer < p.pointer <= start.bytes@.len(),
        Err(e) => m == Err::<(M, int), Failure>(e@),
    }
}

/// As `agrees`, for a node that is its own model.
pub open spec fn agrees_plain<T>(
    r: Result<(Parser, T), DecodeError>,
    m: Parsed<T>,
    start: Parser,
) -> bool {
    match r {
        Ok((p, v)) => m == Ok::<(T, int), Failure>((v, p.pointer as int)) && p == start.spec_at(
            p.pointer as int,
        ) && start.pointer < p.pointer <= start.bytes@.len(),
        Err(e) => m == Err::<(T, int), Failure>(e@),
    }
}

} // verus!
