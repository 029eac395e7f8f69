use vstd::prelude::*;
use vstd::std_specs::cmp::PartialOrdSpecImpl;
use core::cmp::Ordering;
use crate::error::DecodeError;
use crate::error::DecodeFault;
use crate::error::Parsed;
use crate::error::fail;
use crate::parser::Parser;
use crate::parser::agrees_plain;
use crate::utils::Compilable;
use crate::utils::CompileResult;
use crate::utils::text_eq;

verus! {

/// Wire byte of a constant binding.
pub const VAR_CONST: u8 = 0x01;

/// Wire byte of a mutable binding.
pub const VAR_MUT: u8 = 0x02;

/// Wire byte of a single-assignment binding.
pub const VAR_LET: u8 = 0x03;

/// Wire byte of a fully variable binding.
pub const VAR_VAR: u8 = 0x04;

/// How a binding may be used. The kinds are ordered by strictness:
/// `Const < Let < Mut < Var`.
#[derive(Debug, Clone, Copy, PartialEq, Eq, Structural)]
pub enum VariableKind {
    Const,
    Mut,
    Let,
    Var,
}

impl VariableKind {
    /// Place of the kind in the order of strictness.
    pub open spec fn rank(self) -> int {
        match self {
            VariableKind::Const => 0,
            VariableKind::Let => 1,
            VariableKind::Mut => 2,
            VariableKind::Var => 3,
        }
    }

    /// The kind's wire byte.
    pub open spec fn wire_byte(self) -> u8 {
        match self {
            VariableKind::Const => VAR_CONST,
            VariableKind::Mut => VAR_MUT,
            VariableKind::Let => VAR_LET,
            VariableKind::Var => VAR_VAR,
        }
    }

    /// Place of the kind in the order of strictness.
    pub fn strictness(&self) -> (r: u8)
        ensures
            r == self.rank(),
    {
        match self {
            VariableKind::Const => 0,
            VariableKind::Let => 1,
            VariableKind::Mut => 2,
            VariableKind::Var => 3,
        }
    }

    /// The kind that a keyword of the source language names.
    pub fn from_str(value: &str) -> (r: Option<Self>)
        ensures
            r == kind_of_keyword(value@),
    {
        if text_eq(value, "const") {
            Some(VariableKind::Const)
        } else if text_eq(value, "mut") {
            Some(VariableKind::Mut)
        } else if text_eq(value, "let") {
            Some(VariableKind::Let)
        } else if text_eq(value, "var") {
            Some(VariableKind::Var)
        } else {
            None
        }
    }

    /// The kind's name.
    pub fn name(&self) -> (r: &'static str)
        ensures
            r@ == kind_name(*self),
    {
        match self {
            VariableKind::Const => "Const",
            VariableKind::Mut => "Mut",
            VariableKind::Let => "Let",
            VariableKind::Var => "Var",
        }
    }

    /// Reads a variable kind.
    pub fn visit<'a>(parser: Parser<'a>) -> (r: Result<(Parser<'a>, VariableKind), DecodeError>)
        ensures
            agrees_plain(r, read_kind(parser.bytes@, parser.pointer as int), parser),
    {
        let (next, b) = match parser.take_byte() {
            Ok(v) => v,
            Err(e) => {
                return Err(e);
            },
        };
        let kind = if b == VAR_CONST {
            VariableKind::Const
        } else if b == VAR_MUT {
            VariableKind::Mut
        } else if b == VAR_LET {
            VariableKind::Let
        } else if b == VAR_VAR {
            VariableKind::Var
        } else {
            return Err(DecodeError { fault: DecodeFault::UnknownVariableKind, at: parser.pointer });
        };
        Ok((next, kind))
    }
}

/// The kind's name.
pub open spec fn kind_name(k: VariableKind) -> Seq<char> {
    match k {
        VariableKind::Const => "Const"@,
        VariableKind::Mut => "Mut"@,
        VariableKind::Let => "Let"@,
        VariableKind::Var => "Var"@,
    }
}

/// The kind that a keyword of the source language names.
pub open spec fn kind_of_keyword(word: Seq<char>) -> Option<VariableKind> {
    if word == "const"@ {
        Some(VariableKind::Const)
    } else if word == "mut"@ {
        Some(VariableKind::Mut)
    } else if word == "let"@ {
        Some(VariableKind::Let)
    } else if word == "var"@ {
        Some(VariableKind::Var)
    } else {
        None
    }
}

/// Reads a variable kind at `pos`.
pub open spec fn read_kind(s: Seq<u8>, pos: int) -> Parsed<VariableKind> {
    if !(0 <= pos < s.len()) {
        fail(DecodeFault::UnexpectedEnd, pos)
    } else if s[pos] == VAR_CONST {
        Ok((VariableKind::Const, pos + 1))
    } else if s[pos] == VAR_MUT {
        Ok((VariableKind::Mut, pos + 1))
    } else if s[pos] == VAR_LET {
        Ok((VariableKind::Let, pos + 1))
    } else if s[pos] == VAR_VAR {
        Ok((VariableKind::Var, pos + 1))
    } else {
        fail(DecodeFault::UnknownVariableKind, pos)
    }
}

impl PartialOrd for VariableKind {
    fn partial_cmp(&self, other: &Self) -> (r: Option<Ordering>) {
        let a = self.strictness();
        let b = other.strictness();
        if a < b {
            Some(Ordering::Less)
        } else if a == b {
            Some(Ordering::Equal)
        } else {
            Some(Ordering::Greater)
        }
    }
}

impl PartialOrdSpecImpl for VariableKind {
    open spec fn obeys_partial_cmp_spec() -> bool {
        true
    }

    open spec fn partial_cmp_spec(&self, other: &Self) -> Option<Ordering> {
        if self.rank() < other.rank() {
            Some(Ordering::Less)
        } else if self.rank() == other.rank() {
            Some(Ordering::Equal)
        } else {
            Some(Ordering::Greater)
        }
    }
}

impl Compilable for VariableKind {
    open spec fn wire(&self) -> Option<Seq<u8>> {
        Some(seq![self.wire_byte()])
    }

    fn compile_bytecode(&self, buffer: Vec<u8>) -> (r: CompileResult) {
        let mut out = buffer;
        out.push(
            match self {
                VariableKind::Const => VAR_CONST,
                VariableKind::Mut => VAR_MUT,
                VariableKind::Let => VAR_LET,
                VariableKind::Var => VAR_VAR,
            },
        );
        assert(out@ =~= buffer@ + seq![self.wire_byte()]);
        Ok(out)
    }
}

} // verus!
