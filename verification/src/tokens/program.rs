use vstd::prelude::*;
use crate::error::DecodeError;
use crate::error::DecodeFault;
use crate::error::Failure;
use crate::error::Parsed;
use crate::error::fail;
use crate::parser::Parser;
use crate::tokens::command::Command;
use crate::tokens::command::CommandModel;
use crate::tokens::command::commands_model;
use crate::tokens::command::each_command_fits;
use crate::tokens::command::lemma_command_roundtrip;
use crate::tokens::command::read_command;
use crate::tokens::command::wire_command;
use crate::tokens::command::wire_commands;
use crate::tokens::header::AmvmHeader;
use crate::tokens::header::lemma_header_roundtrip;
use crate::tokens::header::read_header;
use crate::tokens::header::wire_header;
use crate::utils::Compilable;
use crate::utils::CompileResult;
use crate::utils::holds_at;
use crate::utils::lemma_holds_split;

verus! {

/// A whole program: its header and its statements.
#[derive(Debug, PartialEq)]
pub struct Program {
    pub header: AmvmHeader,
    pub body: Vec<Command>,
}

/// A program as the contracts speak of it.
pub ghost struct ProgramModel {
    pub header: AmvmHeader,
    pub body: Seq<CommandModel>,
}

impl View for Program {
    type V = ProgramModel;

    open spec fn view(&self) -> ProgramModel {
        ProgramModel { header: self.header, body: commands_model(self.body@) }
    }
}

/// The bytes of a program: the header, then the statements one behind the
/// other up to the end of the stream.
pub open spec fn wire_program(p: ProgramModel) -> Seq<u8> {
    wire_header(p.header) + wire_commands(p.body)
}

/// Reads statements from `pos` to the end of the stream, behind those in
/// `acc`.
pub open spec fn read_to_end(s: Seq<u8>, pos: int, acc: Seq<CommandModel>) -> Parsed<
    Seq<CommandModel>,
>
    decreases s.len() - pos,
{
    if pos >= s.len() {
        Ok((acc, pos))
    } else {
        match read_command(s, pos) {
            Err(e) => Err(e),
            Ok((c, p1)) => if pos < p1 <= s.len() {
                read_to_end(s, p1, acc.push(c))
            } else {
                fail(DecodeFault::UnexpectedEnd, pos)
            },
        }
    }
}

/// Reads a program at `pos`.
pub open spec fn read_program(s: Seq<u8>, pos: int) -> Parsed<ProgramModel> {
    match read_header(s, pos) {
        Err(e) => Err(e),
        Ok((header, p1)) => match read_to_end(s, p1, Seq::<CommandModel>::empty()) {
            Err(e) => Err(e),
            Ok((body, p2)) => Ok((ProgramModel { header, body }, p2)),
        },
    }
}

impl Program {
    /// A program of a header and statements.
    pub fn new(header: AmvmHeader, body: Vec<Command>) -> (r: Self)
        ensures
            r.header == header,
            r.body == body,
    {
        Self { header, body }
    }

    /// Reads a program: the header, then statements up to the end of the
    /// input. Each statement starts a new line of the cursor.
    #[verifier::loop_isolation(false)]
    pub fn visit<'a>(parser: Parser<'a>) -> (r: Result<(Parser<'a>, Program), DecodeError>)
        ensures
            match r {
                Ok((p, v)) => read_program(parser.bytes@, parser.pointer as int) == Ok::<
                    (ProgramModel, int),
                    Failure,
                >((v@, p.pointer as int)) && p.bytes == parser.bytes && p.is_bytecode
                    == parser.is_bytecode && p.pointer >= parser.bytes@.len(),
                Err(e) => read_program(parser.bytes@, parser.pointer as int) == Err::<
                    (ProgramModel, int),
                    Failure,
                >(e@),
            },
    {
        let (p1, header) = AmvmHeader::visit(parser)?;
        let ghost s = parser.bytes@;
        let mut body: Vec<Command> = Vec::new();
        let mut cur = p1.new_line();
        assert(commands_model(body@) =~= Seq::<CommandModel>::empty());
        while cur.pointer < cur.bytes.len()
            invariant
                cur.bytes == parser.bytes,
                cur.is_bytecode == parser.is_bytecode,
                read_to_end(s, p1.pointer as int, Seq::<CommandModel>::empty()) == read_to_end(
                    s,
                    cur.pointer as int,
                    commands_model(body@),
                ),
            decreases s.len() - cur.pointer,
        {
            let (next, c) = Command::visit(cur)?;
            let ghost before = body@;
            let ghost m = c@;
            body.push(c);
            assert(commands_model(body@) =~= commands_model(before).push(m));
            cur = next.new_line();
        }
        Ok((cur, Program::new(header, body)))
    }
}

impl<'a> Parser<'a> {
    /// Reads the program that the input holds from the cursor on.
    pub fn program(self) -> (r: Result<Program, DecodeError>)
        ensures
            match r {
                Ok(v) => read_program(self.bytes@, self.pointer as int) matches Ok((m, _)) && m == v@,
                Err(e) => read_program(self.bytes@, self.pointer as int) == Err::<
                    (ProgramModel, int),
                    Failure,
                >(e@),
            },
    {
        match Program::visit(self) {
            Ok((_, program)) => Ok(program),
            Err(e) => Err(e),
        }
    }
}

impl Compilable for Program {
    open spec fn wire(&self) -> Option<Seq<u8>> {
        if each_command_fits(self@.body) {
            Some(wire_program(self@))
        } else {
            None
        }
    }

    fn compile_bytecode(&self, buffer: Vec<u8>) -> (r: CompileResult) {
        let out = self.header.compile_bytecode(buffer)?;
        let out = Command::compile_each(&self.body, out)?;
        assert(out@ =~= buffer@ + wire_program(self@));
        Ok(out)
    }
}

/// Reading statements that fill the stream from `pos` to its end gives them
/// back.
pub proof fn lemma_read_to_end(s: Seq<u8>, pos: int, cs: Seq<CommandModel>, acc: Seq<CommandModel>)
    requires
        each_command_fits(cs),
        holds_at(s, pos, wire_commands(cs)),
        pos + wire_commands(cs).len() == s.len(),
    ensures
        read_to_end(s, pos, acc) == Ok::<(Seq<CommandModel>, int), Failure>(
            (acc + cs, s.len() as int),
        ),
    decreases cs.len(),
{
    if cs.len() == 0 {
        assert(acc + cs =~= acc);
    } else {
        let rest = cs.drop_first();
        lemma_holds_split(s, pos, wire_command(cs[0]), wire_commands(rest));
        assert(crate::tokens::command::command_fits(cs[0]));
        lemma_command_roundtrip(s, pos, cs[0]);
        assert forall|i: int| 0 <= i < rest.len() implies crate::tokens::command::command_fits(
            #[trigger] rest[i],
        ) by {
            assert(rest[i] == cs[i + 1]);
        }
        lemma_read_to_end(s, pos + wire_command(cs[0]).len(), rest, acc.push(cs[0]));
        assert(acc.push(cs[0]) + rest =~= acc + cs);
    }
}

/// Reading the bytes of a program gives the program back.
pub proof fn lemma_program_roundtrip(p: ProgramModel)
    requires
        each_command_fits(p.body),
    ensures
        read_program(wire_program(p), 0) == Ok::<(ProgramModel, int), Failure>(
            (p, wire_program(p).len() as int),
        ),
{
    let s = wire_program(p);
    assert(s.subrange(0, s.len() as int) =~= s);
    lemma_holds_split(s, 0, wire_header(p.header), wire_commands(p.body));
    lemma_header_roundtrip(s, 0, p.header);
    lemma_read_to_end(s, 4, p.body, Seq::<CommandModel>::empty());
    assert(Seq::<CommandModel>::empty() + p.body =~= p.body);
}

} // verus!
