use vstd::prelude::*;
use vstd::string::*;
use crate::error::DecodeError;
use crate::error::ParserError;
use crate::error::fault_message;
use crate::parser::Parser;
use crate::runtime::error::AmvmError;
use crate::runtime::error::ErrorModel;
use crate::runtime::error::runtime_message;
use crate::runtime::text::char_to_string;
use crate::runtime::text::decimal;
use crate::runtime::text::digit;
use crate::runtime::text::digit_text;
use crate::runtime::text::padded_hex;
use crate::runtime::text::push_decimal;
use crate::runtime::text::push_hex;
use crate::tokens::scope::AmvmMeta;
use crate::tokens::scope::MetaModel;
use crate::tokens::scope::metas_model;

verus! {

/// `n` spaces.
pub open spec fn spaces(n: nat) -> Seq<char>
    decreases n,
{
    if n == 0 {
        Seq::<char>::empty()
    } else {
        spaces((n - 1) as nat) + " "@
    }
}

/// Appends `n` spaces.
pub fn push_spaces(out: &mut String, n: usize)
    ensures
        final(out)@ == old(out)@ + spaces(n as nat),
{
    let mut i: usize = 0;
    assert(out@ =~= old(out)@ + spaces(0));
    while i < n
        invariant
            i <= n,
            out@ == old(out)@ + spaces(i as nat),
        decreases n - i,
    {
        let ghost before = out@;
        out.append(" ");
        assert(before + " "@ =~= old(out)@ + spaces((i + 1) as nat));
        i += 1;
    }
}

/// A number in hexadecimal with at least two digits.
pub open spec fn hex(n: nat) -> Seq<char>
    decreases n,
{
    if n < 256 {
        padded_hex(n, 2)
    } else {
        hex(n / 16) + digit((n % 16) as int)
    }
}

/// Appends a number in hexadecimal with at least two digits.
pub fn push_hex_number(out: &mut String, n: usize)
    ensures
        final(out)@ == old(out)@ + hex(n as nat),
    decreases n,
{
    if n < 256 {
        push_hex(out, n as u32, 2);
    } else {
        push_hex_number(out, n / 16);
        out.append(digit_text((n % 16) as u32));
        assert(out@ =~= old(out)@ + hex(n as nat));
    }
}

/// The bytes of `s` from `from` up to `to`, each as two hexadecimal digits
/// and a space.
pub open spec fn hex_dump(s: Seq<u8>, from: int, to: int) -> Seq<char>
    decreases to - from,
{
    if from >= to || from < 0 || to > s.len() {
        Seq::<char>::empty()
    } else {
        hex_dump(s, from, to - 1) + padded_hex(s[to - 1] as nat, 2) + " "@
    }
}

/// The characters of the line that starts at `from`: the bytes up to the next
/// line feed, each as the character of that number.
pub open spec fn text_line(s: Seq<u8>, from: int) -> Seq<char>
    decreases s.len() - from,
{
    if from < 0 || from >= s.len() || s[from] == 10 {
        Seq::<char>::empty()
    } else {
        seq![s[from] as char] + text_line(s, from + 1)
    }
}

impl<'a> Parser<'a> {
    /// Where the line ends that the context of an error shows: behind the
    /// byte under the cursor, or at the end of the input.
    pub open spec fn shown_end(self) -> int {
        if self.pointer < self.bytes@.len() {
            self.pointer + 1
        } else {
            self.bytes@.len() as int
        }
    }

    /// The column of the cursor.
    pub open spec fn spec_column(self) -> nat {
        if self.pointer >= self.line_byte_start {
            (self.pointer - self.line_byte_start) as nat
        } else {
            0
        }
    }

    /// The context that an error in bytecode shows: the offset of the line,
    /// its bytes up to the cursor in hexadecimal, and a mark under the byte at
    /// the cursor, three places for every byte before it.
    pub open spec fn bytecode_context(self) -> Seq<char> {
        hex(self.line as nat) + " | "@ + hex_dump(
            self.bytes@,
            self.line_byte_start as int,
            self.shown_end(),
        ) + "\n"@ + spaces(hex(self.line as nat).len()) + " | "@ + spaces(self.spec_column())
            + spaces(self.spec_column()) + spaces(self.spec_column()) + "^"@
    }

    /// The context that an error in source text shows: the number of the
    /// line, its text, and a mark under the character at the cursor.
    pub open spec fn text_context(self) -> Seq<char> {
        decimal(self.line as nat) + " | "@ + text_line(self.bytes@, self.line_byte_start as int)
            + "\n"@ + spaces(decimal(self.line as nat).len()) + " | "@ + spaces(self.spec_column())
            + "^"@
    }

    /// The context that an error at the cursor shows.
    pub open spec fn code_context(self) -> Seq<char> {
        if self.is_bytecode {
            self.bytecode_context()
        } else {
            self.text_context()
        }
    }

    /// The place of the cursor as an error names it.
    pub open spec fn place(self) -> Seq<char> {
        if self.is_bytecode {
            "byte 0x"@ + hex(self.pointer as nat)
        } else {
            "("@ + decimal(self.line as nat) + ", "@ + decimal(self.spec_column()) + ")"@
        }
    }

    /// An error at the cursor as a reader sees it.
    pub open spec fn error_text(self, message: Seq<char>) -> Seq<char> {
        message + " at "@ + self.place() + "\n"@ + self.code_context()
    }

    /// Appends the bytes of the input from `from` up to `to` in hexadecimal.
    #[verifier::loop_isolation(false)]
    fn push_hex_dump(&self, out: &mut String, from: usize, to: usize)
        ensures
            final(out)@ == old(out)@ + hex_dump(self.bytes@, from as int, to as int),
    {
        if from >= to || to > self.bytes.len() {
            assert(out@ =~= old(out)@ + hex_dump(self.bytes@, from as int, to as int));
            return ;
        }
        let mut i: usize = from;
        assert(out@ =~= old(out)@ + hex_dump(self.bytes@, from as int, from as int));
        while i < to
            invariant
                from <= i <= to,
                out@ == old(out)@ + hex_dump(self.bytes@, from as int, i as int),
            decreases to - i,
        {
            push_hex(out, self.bytes[i] as u32, 2);
            out.append(" ");
            assert(out@ =~= old(out)@ + hex_dump(self.bytes@, from as int, i + 1));
            i += 1;
        }
    }

    /// Appends the characters of the line that starts at `from`.
    #[verifier::loop_isolation(false)]
    fn push_text_line(&self, out: &mut String, from: usize)
        ensures
            final(out)@ == old(out)@ + text_line(self.bytes@, from as int),
    {
        let ghost goal = old(out)@ + text_line(self.bytes@, from as int);
        let mut i: usize = from;
        while i < self.bytes.len() && self.bytes[i] != 10
            invariant
                from <= i,
                goal == out@ + text_line(self.bytes@, i as int),
            decreases self.bytes@.len() - i,
        {
            let ghost before = out@;
            let c = char_to_string(self.bytes[i] as char);
            out.append(c.as_str());
            assert(before + text_line(self.bytes@, i as int) =~= out@ + text_line(
                self.bytes@,
                i + 1,
            ));
            i += 1;
        }
        assert(out@ + text_line(self.bytes@, i as int) =~= out@);
    }

    /// The text of the line of the cursor.
    pub fn line_text(&self) -> (r: String)
        ensures
            r@ == text_line(self.bytes@, self.line_byte_start as int),
    {
        let mut out = String::new();
        self.push_text_line(&mut out, self.line_byte_start);
        assert(out@ =~= text_line(self.bytes@, self.line_byte_start as int));
        out
    }

    /// The context that an error at the cursor shows.
    pub fn get_code_ctx(&self) -> (r: String)
        ensures
            r@ == self.code_context(),
    {
        let mut out = String::new();
        let column = self.column();
        if self.is_bytecode {
            push_hex_number(&mut out, self.line);
            let width = out.as_str().unicode_len();
            assert(out@ =~= hex(self.line as nat));
            out.append(" | ");
            let end = if self.pointer < self.bytes.len() {
                self.pointer + 1
            } else {
                self.bytes.len()
            };
            self.push_hex_dump(&mut out, self.line_byte_start, end);
            out.append("\n");
            push_spaces(&mut out, width);
            out.append(" | ");
            push_spaces(&mut out, column);
            push_spaces(&mut out, column);
            push_spaces(&mut out, column);
            out.append("^");
            assert(out@ =~= self.bytecode_context());
        } else {
            push_decimal(&mut out, self.line as u128);
            let width = out.as_str().unicode_len();
            assert(out@ =~= decimal(self.line as nat));
            out.append(" | ");
            self.push_text_line(&mut out, self.line_byte_start);
            out.append("\n");
            push_spaces(&mut out, width);
            out.append(" | ");
            push_spaces(&mut out, column);
            out.append("^");
            assert(out@ =~= self.text_context());
        }
        out
    }

    /// An error at the cursor as a reader sees it: the message, the place, and
    /// the context.
    pub fn describe(&self, message: &str) -> (r: String)
        ensures
            r@ == self.error_text(message@),
    {
        let mut out = String::from_str(message);
        out.append(" at ");
        if self.is_bytecode {
            out.append("byte 0x");
            push_hex_number(&mut out, self.pointer);
        } else {
            out.append("(");
            push_decimal(&mut out, self.line as u128);
            out.append(", ");
            push_decimal(&mut out, self.column() as u128);
            out.append(")");
        }
        out.append("\n");
        let ctx = self.get_code_ctx();
        out.append(ctx.as_str());
        assert(out@ =~= self.error_text(message@));
        out
    }

    /// A decoding failure as a reader sees it, with the cursor put where the
    /// failure is.
    pub fn explain(&self, e: &DecodeError) -> (r: String)
        ensures
            r@ == self.spec_at(e.at as int).error_text(fault_message(e.fault)),
    {
        self.at(e.at).describe(e.fault.message())
    }
}

/// A rendered error as a reader sees it.
pub open spec fn parser_error_text(description: Seq<char>, context: Seq<char>, at: usize) -> Seq<char> {
    "error parser("@ + decimal(at as nat) + ") "@ + description + ".\nContext: "@ + context
}

impl ParserError {
    /// The error as a reader sees it.
    pub fn text(&self) -> (r: String)
        ensures
            r@ == parser_error_text(self.description@, self.context@, self.at),
    {
        let mut out = String::from_str("error parser(");
        push_decimal(&mut out, self.at as u128);
        out.append(") ");
        out.append(self.description.as_str());
        out.append(".\nContext: ");
        out.append(self.context.as_str());
        out
    }
}

/// What of two optional names is there: the first where `original`, else the
/// second, and `<anonymous>` where that one is missing.
pub open spec fn shown_file(names: (Option<Seq<char>>, Option<Seq<char>>), original: bool) -> Seq<char> {
    match if original {
        names.0
    } else {
        names.1
    } {
        Some(name) => name,
        None => "<anonymous>"@,
    }
}

/// The mark that opens the lines of a position in a debug listing.
pub open spec fn debug_mark(debug: bool) -> Seq<char> {
    if debug {
        "> "@
    } else {
        Seq::<char>::empty()
    }
}

/// Where the window starts that shows a long line around the column `col`:
/// twenty characters before the column, and not behind the end of the line.
pub open spec fn window_start(len: nat, col: nat) -> nat {
    if len < 40 || col < 20 {
        0
    } else if col - 20 > len {
        len
    } else {
        (col - 20) as nat
    }
}

/// Where the window ends: forty characters behind its start, or at the end of
/// the line.
pub open spec fn window_end(len: nat, col: nat) -> nat {
    if len < 40 || window_start(len, col) + 40 > len {
        len
    } else {
        window_start(len, col) + 40
    }
}

/// Three dots in colour, where `cut` says that the line was cut.
pub open spec fn dots(cut: bool) -> Seq<char> {
    if cut {
        "\x1b[1;34m...\x1b[0m"@
    } else {
        Seq::<char>::empty()
    }
}

/// The part of a line that a position shows: the whole of a short line, a
/// window around the column of a long one, with dots where it was cut.
pub open spec fn shown_code(code: Seq<char>, col: nat) -> Seq<char> {
    dots(window_start(code.len(), col) > 0) + code.subrange(
        window_start(code.len(), col) as int,
        window_end(code.len(), col) as int,
    ) + dots(window_end(code.len(), col) < code.len())
}

/// How far the mark under the column stands from the start of the shown part.
pub open spec fn shown_column(len: nat, col: nat) -> nat {
    if window_start(len, col) > 0 {
        if col >= window_start(len, col) {
            (col - window_start(len, col) + 3) as nat
        } else {
            3
        }
    } else {
        col
    }
}

/// The first line of a source position: the file and the position.
pub open spec fn position_head(
    names: (Option<Seq<char>>, Option<Seq<char>>),
    pos: (u16, u16),
    original: bool,
    debug: bool,
) -> Seq<char> {
    "\x1b[1;34m"@ + debug_mark(debug) + "--> "@ + shown_file(names, original) + ":"@ + decimal(
        pos.0 as nat,
    ) + ":"@ + decimal(pos.1 as nat) + "\x1b[0m\n"@
}

/// The second line of a source position: the line number and the code.
pub open spec fn position_code(pos: (u16, u16), code: Seq<char>, debug: bool) -> Seq<char> {
    "\x1b[1;34m"@ + debug_mark(debug) + "  "@ + decimal(pos.0 as nat) + " | \x1b[0m"@ + shown_code(
        code,
        pos.1 as nat,
    ) + "\n"@
}

/// The third line of a source position: a mark under the column.
pub open spec fn position_mark(pos: (u16, u16), len: nat, debug: bool) -> Seq<char> {
    "\x1b[1;34m"@ + debug_mark(debug) + "  "@ + spaces(decimal(pos.0 as nat).len()) + " | "@
        + spaces(shown_column(len, pos.1 as nat)) + "^\n"@
}

/// A source position as an error report shows it: the file and the position,
/// the line of code, and a mark under the column.
pub open spec fn meta_text(
    names: (Option<Seq<char>>, Option<Seq<char>>),
    pos: (u16, u16),
    code: Seq<char>,
    original: bool,
    debug: bool,
) -> Seq<char> {
    position_head(names, pos, original, debug) + position_code(pos, code, debug) + position_mark(
        pos,
        code.len(),
        debug,
    )
}

/// The mark that opens the lines of a position in a debug listing.
pub fn mark_of(is_debug: bool) -> (r: &'static str)
    ensures
        r@ == debug_mark(is_debug),
{
    if is_debug {
        "> "
    } else {
        proof {
            reveal_strlit("");
        }
        assert(""@ =~= Seq::<char>::empty());
        ""
    }
}

/// Appends three dots in colour where `cut` holds.
pub fn push_dots(out: &mut String, cut: bool)
    ensures
        final(out)@ == old(out)@ + dots(cut),
{
    if cut {
        out.append("\x1b[1;34m...\x1b[0m");
    } else {
        assert(out@ =~= old(out)@ + dots(cut));
    }
}

/// Appends the first line of a source position.
pub fn push_position_head(
    out: &mut String,
    names: &(Option<String>, Option<String>),
    pos: (u16, u16),
    is_original: bool,
    is_debug: bool,
)
    ensures
        final(out)@ == old(out)@ + position_head(
            crate::tokens::scope::names_model(*names),
            pos,
            is_original,
            is_debug,
        ),
{
    let chosen = if is_original {
        &names.0
    } else {
        &names.1
    };
    let mut line = String::from_str("\x1b[1;34m");
    line.append(mark_of(is_debug));
    line.append("--> ");
    match chosen {
        Some(name) => {
            line.append(name.as_str());
        },
        None => {
            line.append("<anonymous>");
        },
    }
    line.append(":");
    push_decimal(&mut line, pos.0 as u128);
    line.append(":");
    push_decimal(&mut line, pos.1 as u128);
    line.append("\x1b[0m\n");
    assert(line@ =~= position_head(
        crate::tokens::scope::names_model(*names),
        pos,
        is_original,
        is_debug,
    ));
    out.append(line.as_str());
}

/// Appends the part of a line that a position shows.
pub fn push_shown_code(out: &mut String, code: &String, col: u16)
    ensures
        final(out)@ == old(out)@ + shown_code(code@, col as nat),
{
    let len = code.as_str().unicode_len();
    let col = col as usize;
    let start: usize = if len < 40 || col < 20 {
        0
    } else if col - 20 > len {
        len
    } else {
        col - 20
    };
    let end: usize = if len < 40 || len - start < 40 {
        len
    } else {
        start + 40
    };
    let mut part = String::new();
    push_dots(&mut part, start > 0);
    part.append(code.as_str().substring_char(start, end));
    push_dots(&mut part, end < len);
    assert(part@ =~= shown_code(code@, col as nat));
    out.append(part.as_str());
}

/// Appends the second line of a source position.
pub fn push_position_code(out: &mut String, pos: (u16, u16), code: &String, is_debug: bool)
    ensures
        final(out)@ == old(out)@ + position_code(pos, code@, is_debug),
{
    let mut line = String::from_str("\x1b[1;34m");
    line.append(mark_of(is_debug));
    line.append("  ");
    push_decimal(&mut line, pos.0 as u128);
    line.append(" | \x1b[0m");
    push_shown_code(&mut line, code, pos.1);
    line.append("\n");
    assert(line@ =~= position_code(pos, code@, is_debug));
    out.append(line.as_str());
}

/// Appends the third line of a source position.
pub fn push_position_mark(out: &mut String, pos: (u16, u16), code: &String, is_debug: bool)
    ensures
        final(out)@ == old(out)@ + position_mark(pos, code@.len(), is_debug),
{
    let mut number = String::new();
    push_decimal(&mut number, pos.0 as u128);
    assert(number@ =~= decimal(pos.0 as nat));
    let width = number.as_str().unicode_len();
    let len = code.as_str().unicode_len();
    let col = pos.1 as usize;
    let start: usize = if len < 40 || col < 20 {
        0
    } else if col - 20 > len {
        len
    } else {
        col - 20
    };
    let shown: usize = if start > 0 {
        if col >= start {
            col - start + 3
        } else {
            3
        }
    } else {
        col
    };
    let mut line = String::from_str("\x1b[1;34m");
    line.append(mark_of(is_debug));
    line.append("  ");
    push_spaces(&mut line, width);
    line.append(" | ");
    push_spaces(&mut line, shown);
    line.append("^\n");
    assert(line@ =~= position_mark(pos, code@.len(), is_debug));
    out.append(line.as_str());
}

/// Renders a source position.
pub fn display_position(
    names: &(Option<String>, Option<String>),
    pos: (u16, u16),
    code: &String,
    is_original: bool,
    is_debug: bool,
) -> (r: String)
    ensures
        r@ == meta_text(
            crate::tokens::scope::names_model(*names),
            pos,
            code@,
            is_original,
            is_debug,
        ),
{
    let mut out = String::new();
    push_position_head(&mut out, names, pos, is_original, is_debug);
    push_position_code(&mut out, pos, code, is_debug);
    push_position_mark(&mut out, pos, code, is_debug);
    assert(out@ =~= meta_text(
        crate::tokens::scope::names_model(*names),
        pos,
        code@,
        is_original,
        is_debug,
    ));
    out
}

impl AmvmMeta {
    /// The position as an error report shows it. With `is_original` the file
    /// is that of the program, else that of the source it was made from; with
    /// `is_debug` the lines are marked as a debug listing.
    pub fn display(&self, is_original: bool, is_debug: bool) -> (r: String)
        ensures
            r@ == meta_text(self@.file_name, self@.pos, self@.code, is_original, is_debug),
    {
        display_position(&self.file_name, self.pos, &self.code, is_original, is_debug)
    }
}

/// What one position adds to an error report: its alternative where it has
/// one, behind which a debug listing shows the position itself, and else the
/// position itself.
pub open spec fn frame_text(m: MetaModel, debug: bool) -> Seq<char> {
    match m.alternative {
        Some(alt) => meta_text(alt.file_name, alt.pos, alt.code, false, false) + (if debug {
            meta_text(m.file_name, m.pos, m.code, true, true)
        } else {
            Seq::<char>::empty()
        }),
        None => meta_text(m.file_name, m.pos, m.code, true, false),
    }
}

/// What the positions of an error add to its report.
pub open spec fn trace_text(trace: Seq<MetaModel>, debug: bool) -> Seq<char>
    decreases trace.len(),
{
    if trace.len() == 0 {
        Seq::<char>::empty()
    } else {
        trace_text(trace.drop_last(), debug) + frame_text(trace.last(), debug)
    }
}

/// Whether a position of the trace has an alternative.
pub open spec fn has_alternative(trace: Seq<MetaModel>) -> bool
    decreases trace.len(),
{
    if trace.len() == 0 {
        false
    } else {
        has_alternative(trace.drop_last()) || trace.last().alternative is Some
    }
}

/// The remarks that end an error report.
pub open spec fn closing_text(trace: Seq<MetaModel>, debug: bool) -> Seq<char> {
    (if !debug && has_alternative(trace) {
        "\x1b[31mAlternative code detected, use AMVM_IR_DEBUG=1 to see original.\x1b[0m\n"@
    } else {
        Seq::<char>::empty()
    }) + (if trace.len() == 0 {
        "\x1b[31mNo backtrace. Available through AML3_DEBUG=1 when compiling from aml3\x1b[0m\n"@
    } else {
        Seq::<char>::empty()
    })
}

/// An error of a running program as a reader sees it.
pub open spec fn error_report(e: ErrorModel, debug: bool) -> Seq<char> {
    "\x1b[1;31merror:\x1b[0;1m "@ + runtime_message(e.fault) + "\x1b[0m\n"@ + trace_text(
        e.trace,
        debug,
    ) + closing_text(e.trace, debug)
}

/// Appends what one position adds to an error report.
pub fn push_frame(out: &mut String, meta: &AmvmMeta, debug_ir: bool)
    ensures
        final(out)@ == old(out)@ + frame_text(meta@, debug_ir),
{
    let mut part = String::new();
    match &meta.alternative {
        Some(alt) => {
            let shown = display_position(&alt.file_name, alt.pos, &alt.code, false, false);
            part.append(shown.as_str());
            if debug_ir {
                let own = meta.display(true, true);
                part.append(own.as_str());
            }
        },
        None => {
            let own = meta.display(true, false);
            part.append(own.as_str());
        },
    }
    assert(part@ =~= frame_text(meta@, debug_ir));
    out.append(part.as_str());
}

/// Appends what the positions of an error add to its report, and tells
/// whether one of them has an alternative.
#[verifier::loop_isolation(false)]
pub fn push_trace(out: &mut String, trace: &Vec<AmvmMeta>, debug_ir: bool) -> (alternatives: bool)
    ensures
        final(out)@ == old(out)@ + trace_text(metas_model(trace@), debug_ir),
        alternatives == has_alternative(metas_model(trace@)),
{
    let ghost tm = metas_model(trace@);
    let mut alternatives = false;
    let mut i: usize = 0;
    assert(tm.take(0) =~= Seq::<MetaModel>::empty());
    assert(out@ =~= old(out)@ + trace_text(tm.take(0), debug_ir));
    while i < trace.len()
        invariant
            i <= trace.len(),
            out@ == old(out)@ + trace_text(tm.take(i as int), debug_ir),
            alternatives == has_alternative(tm.take(i as int)),
        decreases trace.len() - i,
    {
        let meta = &trace[i];
        proof {
            let next = tm.take(i + 1);
            assert(next.drop_last() =~= tm.take(i as int));
            assert(next.last() == meta@);
        }
        if meta.alternative.is_some() {
            alternatives = true;
        }
        let ghost before = out@;
        push_frame(out, meta, debug_ir);
        assert(out@ =~= old(out)@ + trace_text(tm.take(i + 1), debug_ir));
        i += 1;
    }
    assert(tm.take(tm.len() as int) =~= tm);
    alternatives
}

impl AmvmError {
    /// The error as a reader sees it: the fault, then the positions that led
    /// to it. With `debug_ir` a position that has an alternative is shown as
    /// well as the alternative.
    pub fn render(&self, debug_ir: bool) -> (r: String)
        ensures
            r@ == error_report(self@, debug_ir),
    {
        let AmvmError::Other(trace, fault) = self;
        let mut out = String::from_str("\x1b[1;31merror:\x1b[0;1m ");
        out.append(fault.message());
        out.append("\x1b[0m\n");
        let alternatives = push_trace(&mut out, trace, debug_ir);
        let mut closing = String::new();
        if !debug_ir && alternatives {
            closing.append(
                "\x1b[31mAlternative code detected, use AMVM_IR_DEBUG=1 to see original.\x1b[0m\n",
            );
        }
        if trace.len() == 0 {
            closing.append(
                "\x1b[31mNo backtrace. Available through AML3_DEBUG=1 when compiling from aml3\x1b[0m\n",
            );
        }
        assert(closing@ =~= closing_text(metas_model(trace@), debug_ir));
        out.append(closing.as_str());
        assert(out@ =~= error_report(self@, debug_ir));
        out
    }
}

} // verus!
