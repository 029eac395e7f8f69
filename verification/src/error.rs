use vstd::prelude::*;

verus! {

/// What went wrong while reading a byte stream.
#[derive(Clone, Copy, Debug, PartialEq, Eq, Structural)]
pub enum DecodeFault {
    /// The stream ended in the middle of a node.
    UnexpectedEnd,
    /// The stream does not start with the signature bytes.
    InvalidHeader,
    /// The byte after the signature names no casting policy.
    UnknownCasting,
    /// A byte in type position is no type tag.
    UnknownTypeKind,
    /// A byte in expression position is no expression tag.
    UnknownExpressionKind,
    /// A byte after the binary tag is no operator tag.
    UnknownBinaryKind,
    /// A byte in value position is no value tag.
    UnknownValueKind,
    /// A byte in command position is no command tag.
    UnknownCommandKind,
    /// A byte in variable-kind position is no variable kind.
    UnknownVariableKind,
    /// The byte behind the body of a conditional says neither that a second
    /// branch follows nor that none does.
    UnknownBranchMark,
    /// The bytes of a string or character are not UTF-8.
    InvalidUtf8,
    /// An escape byte is followed by a byte that cannot be escaped, or a
    /// reserved byte stands unescaped inside a counted string.
    InvalidEscape,
    /// A number that its type cannot hold.
    NumberOutOfRange,
    /// Source text: a space is missing.
    ExpectedSpace,
    /// Source text: a word is missing.
    ExpectedWord,
    /// Source text: a variable does not start with `$`.
    ExpectedVariable,
    /// Source text: a type name does not start with `#`.
    ExpectedType,
    /// Source text: a block does not start with `{`.
    ExpectedBlock,
    /// Source text: the text ends inside a block.
    UnclosedBlock,
    /// Source text: a tuple type is not closed.
    UnclosedTuple,
    /// Source text: a statement starts with none of `@`, `=` and `{`.
    ExpectedCommand,
    /// Source text: a word behind `@` is no command.
    UnknownCommand,
    /// Source text: what stands in place of a value is none.
    UnknownValue,
    /// Source text: a number has no size, or one that is not known.
    UnknownNumberSize,
    /// Source text: a string is not closed on its line.
    UnterminatedString,
    /// Source text: a character is not closed.
    UnterminatedChar,
    /// Source text: a backslash stands before a character that it cannot
    /// escape.
    InvalidEscapedChar,
    /// Source text: a word that starts like a boolean is none.
    ExpectedBool,
    /// Source text: an operator is cut short or unknown.
    ExpectedOperator,
    /// Source text: the word behind the `@` that follows a conditional is not
    /// `else`.
    ExpectedElse,
    /// Source text: a number is missing.
    ExpectedNumber,
    /// Source text: the colon between line and column is missing.
    ExpectedColon,
}

/// A decoding failure as the contracts speak of it: the fault and the offset of
/// the offending byte.
pub ghost struct Failure {
    pub fault: DecodeFault,
    pub at: int,
}

/// A decoding failure: the fault and the offset of the offending byte.
#[derive(Clone, Copy, Debug, PartialEq, Eq, Structural)]
pub struct DecodeError {
    pub fault: DecodeFault,
    pub at: usize,
}

impl View for DecodeError {
    type V = Failure;

    open spec fn view(&self) -> Failure {
        Failure { fault: self.fault, at: self.at as int }
    }
}

/// The outcome of reading one node in the contracts: the node's model and the
/// offset just behind it, or the failure.
pub type Parsed<M> = Result<(M, int), Failure>;

pub open spec fn fail<M>(fault: DecodeFault, at: int) -> Parsed<M> {
    Err(Failure { fault, at })
}

/// A rendered error, with a description, the surrounding code, and a distance.
#[derive(Clone, Debug)]
pub struct ParserError {
    pub description: String,
    pub context: String,
    pub at: usize,
}

impl ParserError {
    pub fn from_msg(msg: &str, context: String, at: usize) -> (r: Self)
        ensures
            r.description@ == msg@,
            r.context == context,
            r.at == at,
    {
        Self { description: msg.to_owned(), context, at }
    }
}

impl DecodeFault {
    /// The sentence that describes the fault.
    pub fn message(&self) -> (r: &'static str)
        ensures
            r@ == fault_message(*self),
    {
        match self {
            DecodeFault::UnexpectedEnd => "Unexpected end of input",
            DecodeFault::InvalidHeader => "Invalid bytecode header",
            DecodeFault::UnknownCasting => "Unknown byte",
            DecodeFault::UnknownTypeKind => "Unknown type kind",
            DecodeFault::UnknownExpressionKind => "Unknown expression kind",
            DecodeFault::UnknownBinaryKind => "Unknown conditional kind",
            DecodeFault::UnknownValueKind => "Unknown value kind",
            DecodeFault::UnknownCommandKind => "Unknown command kind",
            DecodeFault::UnknownVariableKind => "Unknown variable kind",
            DecodeFault::UnknownBranchMark => "Unknown branch mark",
            DecodeFault::InvalidUtf8 => "Invalid UTF-8",
            DecodeFault::InvalidEscape => "Invalid escape",
            DecodeFault::NumberOutOfRange => "Number out of range",
            DecodeFault::ExpectedSpace => "Expected a space",
            DecodeFault::ExpectedWord => "Expected a word",
            DecodeFault::ExpectedVariable => "Expected '$'",
            DecodeFault::ExpectedType => "Expected '#'",
            DecodeFault::ExpectedBlock => "Expected '{'",
            DecodeFault::UnclosedBlock => "Expected '}'",
            DecodeFault::UnclosedTuple => "Expected ')'",
            DecodeFault::ExpectedCommand => "Expected '@'",
            DecodeFault::UnknownCommand => "Unknown command",
            DecodeFault::UnknownValue => "Unknown value",
            DecodeFault::UnknownNumberSize => "Unknown number size",
            DecodeFault::UnterminatedString => "Unterminated string",
            DecodeFault::UnterminatedChar => "Unterminated char",
            DecodeFault::InvalidEscapedChar => "Invalid escaped character",
            DecodeFault::ExpectedBool => "Expected true or false",
            DecodeFault::ExpectedOperator => "Expected operator",
            DecodeFault::ExpectedElse => "Expected 'else' command",
            DecodeFault::ExpectedNumber => "Expected a number",
            DecodeFault::ExpectedColon => "Expected ':'",
        }
    }
}

pub open spec fn fault_message(f: DecodeFault) -> Seq<char> {
    match f {
        DecodeFault::UnexpectedEnd => "Unexpected end of input"@,
        DecodeFault::InvalidHeader => "Invalid bytecode header"@,
        DecodeFault::UnknownCasting => "Unknown byte"@,
        DecodeFault::UnknownTypeKind => "Unknown type kind"@,
        DecodeFault::UnknownExpressionKind => "Unknown expression kind"@,
        DecodeFault::UnknownBinaryKind => "Unknown conditional kind"@,
        DecodeFault::UnknownValueKind => "Unknown value kind"@,
        DecodeFault::UnknownCommandKind => "Unknown command kind"@,
        DecodeFault::UnknownVariableKind => "Unknown variable kind"@,
        DecodeFault::UnknownBranchMark => "Unknown branch mark"@,
        DecodeFault::InvalidUtf8 => "Invalid UTF-8"@,
        DecodeFault::InvalidEscape => "Invalid escape"@,
        DecodeFault::NumberOutOfRange => "Number out of range"@,
        DecodeFault::ExpectedSpace => "Expected a space"@,
        DecodeFault::ExpectedWord => "Expected a word"@,
        DecodeFault::ExpectedVariable => "Expected '$'"@,
        DecodeFault::ExpectedType => "Expected '#'"@,
        DecodeFault::ExpectedBlock => "Expected '{'"@,
        DecodeFault::UnclosedBlock => "Expected '}'"@,
        DecodeFault::UnclosedTuple => "Expected ')'"@,
        DecodeFault::ExpectedCommand => "Expected '@'"@,
        DecodeFault::UnknownCommand => "Unknown command"@,
        DecodeFault::UnknownValue => "Unknown value"@,
        DecodeFault::UnknownNumberSize => "Unknown number size"@,
        DecodeFault::UnterminatedString => "Unterminated string"@,
        DecodeFault::UnterminatedChar => "Unterminated char"@,
        DecodeFault::InvalidEscapedChar => "Invalid escaped character"@,
        DecodeFault::ExpectedBool => "Expected true or false"@,
        DecodeFault::ExpectedOperator => "Expected operator"@,
        DecodeFault::ExpectedElse => "Expected 'else' command"@,
        DecodeFault::ExpectedNumber => "Expected a number"@,
        DecodeFault::ExpectedColon => "Expected ':'"@,
    }
}

} // verus!
