use vstd::prelude::*;
use crate::error::DecodeError;
use crate::error::DecodeFault;
use crate::error::Failure;
use crate::error::Parsed;
use crate::error::fail;
use crate::parser::Parser;
use crate::parser::agrees_plain;
use crate::utils::Compilable;
use crate::utils::CompileResult;
use crate::utils::holds_at;
use crate::utils::lemma_holds_first;
use crate::utils::lemma_holds_split;

verus! {

/// First byte of the signature that opens every bytecode stream.
pub const AMVM_HEADER_0: u8 = 0x08;

/// Second byte of the signature.
pub const AMVM_HEADER_1: u8 = 0x48;

/// Third byte of the signature.
pub const AMVM_HEADER_2: u8 = 0x30;

/// What the machine does with operands of different types.
#[derive(Debug, Clone, Copy, PartialEq, Eq, Structural)]
pub enum AmvmTypeCasting {
    /// Cast, and fail where no cast exists.
    TypeCastingStrict,
    /// Cast, and turn both sides into strings where no cast exists.
    TypeCastingString,
    /// Cast, and turn both sides into strings where no cast exists, by their
    /// default text if need be.
    TypeCastingStrictlessString,
    /// Never cast.
    Strict,
}

/// The head of a program: the casting policy.
#[derive(Debug, Clone, Copy, PartialEq, Eq, Structural)]
pub struct AmvmHeader {
    pub sum_kind: AmvmTypeCasting,
}

/// The signature bytes.
pub open spec fn signature() -> Seq<u8> {
    seq![AMVM_HEADER_0, AMVM_HEADER_1, AMVM_HEADER_2]
}

/// The wire byte of a casting policy.
pub open spec fn casting_byte(c: AmvmTypeCasting) -> u8 {
    match c {
        AmvmTypeCasting::TypeCastingStrict => 1,
        AmvmTypeCasting::TypeCastingString => 2,
        AmvmTypeCasting::TypeCastingStrictlessString => 3,
        AmvmTypeCasting::Strict => 4,
    }
}

/// The casting policy that a byte names.
pub open spec fn casting_of_byte(b: u8) -> Option<AmvmTypeCasting> {
    if b == 1 {
        Some(AmvmTypeCasting::TypeCastingStrict)
    } else if b == 2 {
        Some(AmvmTypeCasting::TypeCastingString)
    } else if b == 3 {
        Some(AmvmTypeCasting::TypeCastingStrictlessString)
    } else if b == 4 {
        Some(AmvmTypeCasting::Strict)
    } else {
        None
    }
}

/// Reads a casting policy at `pos`.
pub open spec fn read_casting(s: Seq<u8>, pos: int) -> Parsed<AmvmTypeCasting> {
    if !(0 <= pos < s.len()) {
        fail(DecodeFault::UnexpectedEnd, pos)
    } else {
        match casting_of_byte(s[pos]) {
            Some(c) => Ok((c, pos + 1)),
            None => fail(DecodeFault::UnknownCasting, pos),
        }
    }
}

/// The bytes of a header: the signature, then the casting policy.
pub open spec fn wire_header(h: AmvmHeader) -> Seq<u8> {
    signature() + seq![casting_byte(h.sum_kind)]
}

/// Reads a header at `pos`: a stream too short for the signature has ended
/// early, one with other bytes in its place has no valid header.
pub open spec fn read_header(s: Seq<u8>, pos: int) -> Parsed<AmvmHeader> {
    if !(0 <= pos && pos + 3 <= s.len()) {
        fail(DecodeFault::UnexpectedEnd, pos)
    } else if s.subrange(pos, pos + 3) != signature() {
        fail(DecodeFault::InvalidHeader, pos)
    } else {
        match read_casting(s, pos + 3) {
            Err(e) => Err(e),
            Ok((sum_kind, p1)) => Ok((AmvmHeader { sum_kind }, p1)),
        }
    }
}

impl AmvmTypeCasting {
    /// The casting policy that a byte names.
    pub fn from_char(v: u8) -> (r: Option<Self>)
        ensures
            r == casting_of_byte(v),
    {
        if v == 1 {
            Some(AmvmTypeCasting::TypeCastingStrict)
        } else if v == 2 {
            Some(AmvmTypeCasting::TypeCastingString)
        } else if v == 3 {
            Some(AmvmTypeCasting::TypeCastingStrictlessString)
        } else if v == 4 {
            Some(AmvmTypeCasting::Strict)
        } else {
            None
        }
    }

    /// The wire byte of the casting policy.
    pub fn to_char(&self) -> (r: u8)
        ensures
            r == casting_byte(*self),
    {
        match self {
            AmvmTypeCasting::TypeCastingStrict => 1,
            AmvmTypeCasting::TypeCastingString => 2,
            AmvmTypeCasting::TypeCastingStrictlessString => 3,
            AmvmTypeCasting::Strict => 4,
        }
    }

    /// Reads a casting policy.
    pub fn visit<'a>(parser: Parser<'a>) -> (r: Result<(Parser<'a>, AmvmTypeCasting), DecodeError>)
        ensures
            agrees_plain(r, read_casting(parser.bytes@, parser.pointer as int), parser),
    {
        let (next, b) = parser.take_byte()?;
        match AmvmTypeCasting::from_char(b) {
            Some(kind) => Ok((next, kind)),
            None => Err(DecodeError { fault: DecodeFault::UnknownCasting, at: parser.pointer }),
        }
    }
}

impl Compilable for AmvmTypeCasting {
    open spec fn wire(&self) -> Option<Seq<u8>> {
        Some(seq![casting_byte(*self)])
    }

    fn compile_bytecode(&self, buffer: Vec<u8>) -> (r: CompileResult) {
        let mut out = buffer;
        out.push(self.to_char());
        assert(out@ =~= buffer@ + seq![casting_byte(*self)]);
        Ok(out)
    }
}

impl AmvmHeader {
    /// Reads a header.
    pub fn visit<'a>(parser: Parser<'a>) -> (r: Result<(Parser<'a>, AmvmHeader), DecodeError>)
        ensures
            agrees_plain(r, read_header(parser.bytes@, parser.pointer as int), parser),
    {
        let bytes = parser.bytes;
        if bytes.len() < 3 || parser.pointer > bytes.len() - 3 {
            return Err(DecodeError { fault: DecodeFault::UnexpectedEnd, at: parser.pointer });
        }
        let at = parser.pointer;
        if bytes[at] != AMVM_HEADER_0 || bytes[at + 1] != AMVM_HEADER_1 || bytes[at + 2]
            != AMVM_HEADER_2 {
            proof {
                let w = bytes@.subrange(at as int, at + 3);
                assert(w[0] == bytes@[at as int]);
                assert(w[1] == bytes@[at + 1]);
                assert(w[2] == bytes@[at + 2]);
            }
            return Err(DecodeError { fault: DecodeFault::InvalidHeader, at: parser.pointer });
        }
        assert(bytes@.subrange(at as int, at + 3) =~= signature());
        let (p1, sum_kind) = AmvmTypeCasting::visit(parser.at(at + 3))?;
        Ok((parser.at(p1.pointer), AmvmHeader { sum_kind }))
    }
}

impl Compilable for AmvmHeader {
    open spec fn wire(&self) -> Option<Seq<u8>> {
        Some(wire_header(*self))
    }

    fn compile_bytecode(&self, buffer: Vec<u8>) -> (r: CompileResult) {
        let mut out = buffer;
        out.push(AMVM_HEADER_0);
        out.push(AMVM_HEADER_1);
        out.push(AMVM_HEADER_2);
        let out = self.sum_kind.compile_bytecode(out)?;
        assert(out@ =~= buffer@ + wire_header(*self));
        Ok(out)
    }
}

/// Reading the bytes of a header gives the header back.
pub proof fn lemma_header_roundtrip(s: Seq<u8>, pos: int, h: AmvmHeader)
    requires
        holds_at(s, pos, wire_header(h)),
    ensures
        read_header(s, pos) == Ok::<(AmvmHeader, int), Failure>((h, pos + 4)),
{
    lemma_holds_split(s, pos, signature(), seq![casting_byte(h.sum_kind)]);
    lemma_holds_first(s, pos + 3, seq![casting_byte(h.sum_kind)]);
}

} // verus!
