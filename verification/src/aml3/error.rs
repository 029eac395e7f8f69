use vstd::prelude::*;
use vstd::string::*;
use crate::aml3::grammar::line_of;
use crate::error::DecodeError;
use crate::error::fault_message;
use crate::parser::Parser;
use crate::render::text_line;
use crate::runtime::text::decimal;
use crate::runtime::text::push_decimal;

verus! {

/// An error in source text: what is wrong, where, and the line that holds it.
#[derive(Debug, PartialEq)]
pub struct Aml3Error {
    pub description: String,
    pub at: usize,
    pub context: String,
    pub line: usize,
    pub column: usize,
}

/// Where the line starts that holds `pos`: behind the last line feed before
/// `pos`.
pub open spec fn line_start(s: Seq<u8>, pos: int) -> int
    decreases pos,
{
    if pos <= 0 || pos > s.len() {
        0
    } else if s[pos - 1] == 10 {
        pos
    } else {
        line_start(s, pos - 1)
    }
}

/// `n` times the text `unit`.
pub open spec fn repeated(unit: Seq<char>, n: nat) -> Seq<char>
    decreases n,
{
    if n == 0 {
        Seq::<char>::empty()
    } else {
        repeated(unit, (n - 1) as nat) + unit
    }
}

/// An error in source text as a reader sees it.
pub open spec fn source_error_text(
    description: Seq<char>,
    context: Seq<char>,
    line: usize,
    column: usize,
) -> Seq<char> {
    description + "\n "@ + decimal((line + 1) as nat) + " | "@ + context + "\n "@ + repeated(
        "."@,
        decimal(line as nat).len(),
    ) + " | "@ + repeated("-"@, column as nat) + "^\n     at "@ + decimal((line + 1) as nat)
        + ":"@ + decimal((column + 1) as nat)
}

/// Appends `n` times the text `unit`.
pub fn push_repeated(out: &mut String, unit: &str, n: usize)
    ensures
        final(out)@ == old(out)@ + repeated(unit@, n as nat),
{
    let mut i: usize = 0;
    assert(out@ =~= old(out)@ + repeated(unit@, 0));
    while i < n
        invariant
            i <= n,
            out@ == old(out)@ + repeated(unit@, i as nat),
        decreases n - i,
    {
        let ghost before = out@;
        out.append(unit);
        assert(before + unit@ =~= old(out)@ + repeated(unit@, (i + 1) as nat));
        i += 1;
    }
}

/// Where the line starts that holds `pos`, and how many line feeds stand
/// before `pos`.
#[verifier::loop_isolation(false)]
pub fn locate(bytes: &[u8], pos: usize) -> (r: (usize, usize))
    ensures
        r.0 == line_start(bytes@, pos as int),
        r.1 == line_of(bytes@, pos as int),
        r.0 <= pos,
{
    if pos > bytes.len() {
        return (0, 0);
    }
    let mut start: usize = 0;
    let mut lines: usize = 0;
    let mut i: usize = 0;
    while i < pos
        invariant
            i <= pos <= bytes@.len(),
            start == line_start(bytes@, i as int),
            lines == line_of(bytes@, i as int),
            start <= i,
            lines <= i,
        decreases pos - i,
    {
        if bytes[i] == 10 {
            start = i + 1;
            lines = lines + 1;
        }
        i += 1;
    }
    (start, lines)
}

impl Aml3Error {
    /// The error that a failure in the source text `bytes` is: the message of
    /// the fault, the line that holds the offending byte, and the place of
    /// that byte in it.
    pub fn locate(bytes: &[u8], e: &DecodeError) -> (r: Aml3Error)
        ensures
            r.description@ == fault_message(e.fault),
            r.at == e.at,
            r.line == line_of(bytes@, e.at as int),
            r.column == e.at - line_start(bytes@, e.at as int),
            r.context@ == text_line(bytes@, line_start(bytes@, e.at as int)),
    {
        let (start, line) = locate(bytes, e.at);
        let shown = Parser {
            bytes,
            pointer: e.at,
            line,
            line_byte_start: start,
            is_bytecode: false,
        };
        let context = shown.line_text();
        Aml3Error {
            description: String::from_str(e.fault.message()),
            at: e.at,
            context,
            line,
            column: e.at - start,
        }
    }

    /// The error as a reader sees it.
    pub fn text(&self) -> (r: String)
        ensures
            r@ == source_error_text(self.description@, self.context@, self.line, self.column),
    {
        let mut number = String::new();
        push_decimal(&mut number, self.line as u128);
        assert(number@ =~= decimal(self.line as nat));
        let width = number.as_str().unicode_len();
        let mut head = self.description.clone();
        head.append("\n ");
        push_decimal(&mut head, self.line as u128 + 1);
        head.append(" | ");
        head.append(self.context.as_str());
        head.append("\n ");
        let mut tail = String::new();
        push_repeated(&mut tail, ".", width);
        tail.append(" | ");
        push_repeated(&mut tail, "-", self.column);
        tail.append("^\n     at ");
        push_decimal(&mut tail, self.line as u128 + 1);
        tail.append(":");
        push_decimal(&mut tail, self.column as u128 + 1);
        head.append(tail.as_str());
        assert(head@ =~= source_error_text(
            self.description@,
            self.context@,
            self.line,
            self.column,
        ));
        head
    }
}

} // verus!
