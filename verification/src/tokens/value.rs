use vstd::prelude::*;
use vstd::slice::*;
use vstd::string::*;
use vstd::utf8::*;
use crate::error::DecodeError;
use crate::error::DecodeFault;
use crate::error::Failure;
use crate::error::Parsed;
use crate::error::fail;
use crate::parser::Parser;
use crate::parser::agrees;
use crate::parser::agrees_plain;
use crate::parser::read_byte;
use crate::tokens::command::Command;
use crate::tokens::command::CommandModel;
use crate::tokens::command::clone_commands;
use crate::tokens::command::commands_model;
use crate::tokens::kind::VariableKind;
use crate::tokens::types::AmvmType;
use crate::tokens::types::TypeModel;
use crate::tokens::types::type_model;
use crate::utils::Compilable;
use crate::utils::CompileResult;
use crate::utils::char_to_utf8;
use crate::utils::compile_free_text;
use crate::utils::compile_text;
use crate::utils::compiled;
use crate::utils::holds_at;
use crate::utils::lemma_holds_first;
use crate::utils::lemma_holds_tag;
use crate::utils::lemma_read_free_text;
use crate::utils::lemma_read_text;
use crate::utils::read_free_text;
use crate::utils::read_text;
use crate::utils::string_from_utf8;
use crate::utils::text_fits;
use crate::utils::visit_free_text;
use crate::utils::visit_text;
use crate::utils::wire_free_text;
use crate::utils::wire_text;

verus! {

/// Wire tag of the null value.
pub const VALUE_UNDEFINED: u8 = 0x31;

/// Wire tag of a boolean.
pub const VALUE_BOOL: u8 = 0x32;

/// Wire tag of a string.
pub const VALUE_STRING: u8 = 0x33;

/// Wire tag of an 8-bit unsigned integer.
pub const VALUE_U8: u8 = 0x34;

/// Wire tag of a 16-bit signed integer.
pub const VALUE_I16: u8 = 0x35;

/// Wire tag of a 32-bit floating-point number.
pub const VALUE_F32: u8 = 0x36;

/// Wire tag kept for objects, which are never written.
pub const VALUE_OBJECT: u8 = 0x37;

/// Wire tag of a character.
pub const VALUE_CHAR: u8 = 0x38;

/// Wire tag kept for functions, which are never written.
pub const VALUE_FUN: u8 = 0x39;

/// A named parameter of a function: its name, the kind of binding it asks
/// for, and its type.
pub type Parameter = (String, VariableKind, AmvmType);

/// A parameter as the contracts speak of it.
pub type ParameterModel = (Seq<char>, VariableKind, TypeModel);

/// The fields of an object: each name with the storage cell that holds the
/// field's value. The fields are a map from names to cells, kept as a list in
/// the order in which the names came: an object that the machine builds holds
/// no name twice.
pub type Fields = Vec<(String, usize)>;

/// An object value.
#[derive(Debug, PartialEq)]
pub enum ValueObject {
    /// A handle to a machine scope made by a builtin.
    Native(u32),
    /// An instance of a declared type.
    Instance(AmvmType, Fields),
    /// A bare map of properties.
    PropertyMap(Fields),
}

/// The native functions that the machine provides.
#[allow(inconsistent_fields)]
#[derive(Debug, Clone, Copy, PartialEq, Eq, Structural)]
pub enum NativeFun {
    /// The step of a range over 8-bit unsigned integers towards `to`.
    RangeU8 { to: u8, descending: bool },
    /// The step of a range over 16-bit signed integers towards `to`.
    RangeI16 { to: i16, descending: bool },
}

/// A function value: its parameters, its return type, and what it runs.
#[derive(Debug, PartialEq)]
pub enum ValueFun {
    Native(Vec<Parameter>, AmvmType, NativeFun),
    Const(Vec<Parameter>, AmvmType, Vec<Command>),
    Mutable(Vec<Parameter>, AmvmType, Vec<Command>),
}

/// A binding's storage: a constant holds its value, the other kinds name the
/// storage cell that they share with their aliases.
#[derive(Debug, PartialEq)]
pub enum AmvmVariable {
    Const(Box<Value>),
    Mut(usize),
    Let(usize),
    Var(usize),
}

/// A value of the language. A floating-point number is held as its decimal
/// text.
#[derive(Debug, PartialEq)]
pub enum Value {
    Null,
    Char(char),
    Bool(bool),
    I16(i16),
    F32(String),
    Fun(ValueFun),
    Object(ValueObject),
    Ref(AmvmVariable),
    String(String),
    U8(u8),
}

/// An object as the contracts speak of it.
pub ghost enum ObjectModel {
    Native(u32),
    Instance(TypeModel, Seq<(Seq<char>, usize)>),
    PropertyMap(Seq<(Seq<char>, usize)>),
}

/// A function value as the contracts speak of it.
pub ghost enum FunModel {
    Native(Seq<ParameterModel>, TypeModel, NativeFun),
    Const(Seq<ParameterModel>, TypeModel, Seq<CommandModel>),
    Mutable(Seq<ParameterModel>, TypeModel, Seq<CommandModel>),
}

/// A binding's storage as the contracts speak of it.
pub ghost enum VariableModel {
    Const(Box<ValueModel>),
    Mut(usize),
    Let(usize),
    Var(usize),
}

/// A value as the contracts speak of it.
pub ghost enum ValueModel {
    Null,
    Char(char),
    Bool(bool),
    I16(i16),
    F32(Seq<char>),
    Fun(FunModel),
    Object(ObjectModel),
    Ref(VariableModel),
    String(Seq<char>),
    U8(u8),
}

/// The models of a list of parameters.
pub open spec fn parameters_model(ps: Seq<Parameter>) -> Seq<ParameterModel> {
    Seq::new(ps.len(), |i: int| (ps[i].0@, ps[i].1, type_model(ps[i].2)))
}

/// The models of the fields of an object.
pub open spec fn fields_model(fs: Seq<(String, usize)>) -> Seq<(Seq<char>, usize)> {
    Seq::new(fs.len(), |i: int| (fs[i].0@, fs[i].1))
}

/// The model of an object.
pub open spec fn object_model(o: ValueObject) -> ObjectModel {
    match o {
        ValueObject::Native(h) => ObjectModel::Native(h),
        ValueObject::Instance(t, fs) => ObjectModel::Instance(type_model(t), fields_model(fs@)),
        ValueObject::PropertyMap(fs) => ObjectModel::PropertyMap(fields_model(fs@)),
    }
}

/// The model of a function value.
pub open spec fn fun_model(f: ValueFun) -> FunModel
    decreases f,
{
    match f {
        ValueFun::Native(ps, ret, native) => FunModel::Native(
            parameters_model(ps@),
            type_model(ret),
            native,
        ),
        ValueFun::Const(ps, ret, body) => FunModel::Const(
            parameters_model(ps@),
            type_model(ret),
            commands_model(body@),
        ),
        ValueFun::Mutable(ps, ret, body) => FunModel::Mutable(
            parameters_model(ps@),
            type_model(ret),
            commands_model(body@),
        ),
    }
}

/// The model of a binding's storage.
pub open spec fn variable_model(v: AmvmVariable) -> VariableModel
    decreases v,
{
    match v {
        AmvmVariable::Const(value) => VariableModel::Const(Box::new(value_model(*value))),
        AmvmVariable::Mut(cell) => VariableModel::Mut(cell),
        AmvmVariable::Let(cell) => VariableModel::Let(cell),
        AmvmVariable::Var(cell) => VariableModel::Var(cell),
    }
}

/// The model of a value.
pub open spec fn value_model(v: Value) -> ValueModel
    decreases v,
{
    match v {
        Value::Null => ValueModel::Null,
        Value::Char(c) => ValueModel::Char(c),
        Value::Bool(b) => ValueModel::Bool(b),
        Value::I16(n) => ValueModel::I16(n),
        Value::F32(text) => ValueModel::F32(text@),
        Value::Fun(f) => ValueModel::Fun(fun_model(f)),
        Value::Object(o) => ValueModel::Object(object_model(o)),
        Value::Ref(var) => ValueModel::Ref(variable_model(var)),
        Value::String(text) => ValueModel::String(text@),
        Value::U8(n) => ValueModel::U8(n),
    }
}

impl View for ValueObject {
    type V = ObjectModel;

    open spec fn view(&self) -> ObjectModel {
        object_model(*self)
    }
}

impl View for ValueFun {
    type V = FunModel;

    open spec fn view(&self) -> FunModel {
        fun_model(*self)
    }
}

impl View for AmvmVariable {
    type V = VariableModel;

    open spec fn view(&self) -> VariableModel {
        variable_model(*self)
    }
}

impl View for Value {
    type V = ValueModel;

    open spec fn view(&self) -> ValueModel {
        value_model(*self)
    }
}

/// Whether a value can be written: it is a literal, and a string in it has no
/// more than 255 bytes.
pub open spec fn value_fits(v: ValueModel) -> bool {
    match v {
        ValueModel::String(text) => text_fits(text),
        ValueModel::Fun(_) => false,
        ValueModel::Object(_) => false,
        ValueModel::Ref(_) => false,
        _ => true,
    }
}

/// The bytes of a 16-bit unsigned integer: high byte, then low byte.
pub open spec fn wire_u16(n: u16) -> Seq<u8> {
    seq![(n / 256) as u8, (n % 256) as u8]
}

/// The sign byte of a 16-bit signed integer: 1 where it is positive.
pub open spec fn sign_byte(n: i16) -> u8 {
    if n > 0 {
        1
    } else {
        0
    }
}

/// The magnitude of a 16-bit signed integer.
pub open spec fn magnitude(n: i16) -> u16 {
    if n > 0 {
        n as u16
    } else {
        (-n) as u16
    }
}

/// The bytes of a 16-bit signed integer: sign byte, then the magnitude.
pub open spec fn wire_i16(n: i16) -> Seq<u8> {
    seq![sign_byte(n)] + wire_u16(magnitude(n))
}

/// The bytes of a value; nothing for a value that is no literal.
pub open spec fn wire_value(v: ValueModel) -> Seq<u8> {
    match v {
        ValueModel::Null => seq![VALUE_UNDEFINED],
        ValueModel::Bool(b) => seq![VALUE_BOOL, if b { 1u8 } else { 0u8 }],
        ValueModel::Char(c) => seq![VALUE_CHAR] + encode_utf8(seq![c]),
        ValueModel::I16(n) => seq![VALUE_I16] + wire_i16(n),
        ValueModel::U8(n) => seq![VALUE_U8, n],
        ValueModel::F32(text) => seq![VALUE_F32] + wire_free_text(text),
        ValueModel::String(text) => seq![VALUE_STRING] + wire_text(text),
        ValueModel::Fun(_) => Seq::<u8>::empty(),
        ValueModel::Object(_) => Seq::<u8>::empty(),
        ValueModel::Ref(_) => Seq::<u8>::empty(),
    }
}

/// Reads a 16-bit unsigned integer at `pos`.
pub open spec fn read_u16(s: Seq<u8>, pos: int) -> Parsed<u16> {
    match read_byte(s, pos) {
        Err(e) => Err(e),
        Ok((hi, p1)) => match read_byte(s, p1) {
            Err(e) => Err(e),
            Ok((lo, p2)) => Ok(((hi * 256 + lo) as u16, p2)),
        },
    }
}

/// Reads a 16-bit signed integer at `pos`: a sign byte of 1 is positive, any
/// other negative.
pub open spec fn read_i16(s: Seq<u8>, pos: int) -> Parsed<i16> {
    match read_byte(s, pos) {
        Err(e) => Err(e),
        Ok((sign, p1)) => match read_u16(s, p1) {
            Err(e) => Err(e),
            Ok((mag, p2)) => if sign == 1 {
                if mag <= 32767 {
                    Ok((mag as i16, p2))
                } else {
                    fail(DecodeFault::NumberOutOfRange, p1)
                }
            } else {
                if mag <= 32768 {
                    Ok(((-mag) as i16, p2))
                } else {
                    fail(DecodeFault::NumberOutOfRange, p1)
                }
            },
        },
    }
}

/// How many bytes the UTF-8 form of a character has whose first byte is `b`;
/// 0 where no character starts with `b`.
pub open spec fn scalar_width(b: u8) -> int {
    if is_leading_byte_width_1(b) {
        1
    } else if is_leading_byte_width_2(b) {
        2
    } else if is_leading_byte_width_3(b) {
        3
    } else if is_leading_byte_width_4(b) {
        4
    } else {
        0
    }
}

/// Reads one character in UTF-8 at `pos`.
pub open spec fn read_char(s: Seq<u8>, pos: int) -> Parsed<char> {
    if !(0 <= pos < s.len()) {
        fail(DecodeFault::UnexpectedEnd, pos)
    } else if scalar_width(s[pos]) == 0 {
        fail(DecodeFault::InvalidUtf8, pos)
    } else if pos + scalar_width(s[pos]) > s.len() {
        fail(DecodeFault::UnexpectedEnd, s.len() as int)
    } else if valid_utf8(s.subrange(pos, pos + scalar_width(s[pos]))) {
        Ok((decode_utf8(s.subrange(pos, pos + scalar_width(s[pos])))[0], pos + scalar_width(s[pos])))
    } else {
        fail(DecodeFault::InvalidUtf8, pos)
    }
}

/// Reads a value at `pos`.
pub open spec fn read_value(s: Seq<u8>, pos: int) -> Parsed<ValueModel> {
    if !(0 <= pos < s.len()) {
        fail(DecodeFault::UnexpectedEnd, pos)
    } else if s[pos] == VALUE_UNDEFINED {
        Ok((ValueModel::Null, pos + 1))
    } else if s[pos] == VALUE_BOOL {
        match read_byte(s, pos + 1) {
            Err(e) => Err(e),
            Ok((b, p1)) => Ok((ValueModel::Bool(b == 1), p1)),
        }
    } else if s[pos] == VALUE_U8 {
        match read_byte(s, pos + 1) {
            Err(e) => Err(e),
            Ok((b, p1)) => Ok((ValueModel::U8(b), p1)),
        }
    } else if s[pos] == VALUE_I16 {
        match read_i16(s, pos + 1) {
            Err(e) => Err(e),
            Ok((n, p1)) => Ok((ValueModel::I16(n), p1)),
        }
    } else if s[pos] == VALUE_F32 {
        match read_free_text(s, pos + 1) {
            Err(e) => Err(e),
            Ok((text, p1)) => Ok((ValueModel::F32(text), p1)),
        }
    } else if s[pos] == VALUE_STRING {
        match read_text(s, pos + 1) {
            Err(e) => Err(e),
            Ok((text, p1)) => Ok((ValueModel::String(text), p1)),
        }
    } else if s[pos] == VALUE_CHAR {
        match read_char(s, pos + 1) {
            Err(e) => Err(e),
            Ok((c, p1)) => Ok((ValueModel::Char(c), p1)),
        }
    } else {
        fail(DecodeFault::UnknownValueKind, pos)
    }
}

/// Appends a 16-bit unsigned integer to `buffer`.
pub fn compile_u16(n: u16, buffer: Vec<u8>) -> (r: Vec<u8>)
    ensures
        r@ == buffer@ + wire_u16(n),
{
    let mut out = buffer;
    out.push((n / 256) as u8);
    out.push((n % 256) as u8);
    assert(out@ =~= buffer@ + wire_u16(n));
    out
}

impl Value {
    /// Appends a counted string to `buffer`; nothing where it has over 255
    /// bytes.
    pub fn compile_string(buffer: Vec<u8>, string: &str) -> (r: CompileResult)
        ensures
            compiled(r, buffer@, if text_fits(string@) { Some(wire_text(string@)) } else { None }),
    {
        compile_text(buffer, string)
    }

    /// Appends a counted list of nodes to `buffer`; nothing where the list
    /// has over 255 members or one of them cannot be written.
    pub fn compile_slice<T: Compilable>(buffer: Vec<u8>, slice: &[T]) -> (r: CompileResult)
        ensures
            compiled(r, buffer@, crate::utils::wire_slice(slice@)),
    {
        crate::utils::compile_slice(buffer, slice)
    }

    /// Reads a counted string.
    pub fn visit_string<'a>(parser: Parser<'a>) -> (r: Result<(Parser<'a>, String), DecodeError>)
        ensures
            agrees(r, read_text(parser.bytes@, parser.pointer as int), parser),
    {
        visit_text(parser)
    }

    /// Reads one byte as an 8-bit unsigned integer.
    pub fn visit_u8<'a>(parser: Parser<'a>) -> (r: Result<(Parser<'a>, u8), DecodeError>)
        ensures
            agrees_plain(r, read_byte(parser.bytes@, parser.pointer as int), parser),
    {
        parser.take_byte()
    }

    /// Reads two bytes as a 16-bit unsigned integer, high byte first.
    pub fn visit_u16<'a>(parser: Parser<'a>) -> (r: Result<(Parser<'a>, u16), DecodeError>)
        ensures
            agrees_plain(r, read_u16(parser.bytes@, parser.pointer as int), parser),
    {
        let (p1, hi) = parser.take_byte()?;
        let (p2, lo) = p1.take_byte()?;
        let n: u16 = (hi as u16) * 256 + (lo as u16);
        Ok((parser.at(p2.pointer), n))
    }

    /// Reads a sign byte and a magnitude as a 16-bit signed integer.
    pub fn visit_i16<'a>(parser: Parser<'a>) -> (r: Result<(Parser<'a>, i16), DecodeError>)
        ensures
            agrees_plain(r, read_i16(parser.bytes@, parser.pointer as int), parser),
    {
        let (p1, sign) = parser.take_byte()?;
        let (p2, mag) = Value::visit_u16(p1)?;
        if sign == 1 {
            if mag <= 32767 {
                Ok((parser.at(p2.pointer), mag as i16))
            } else {
                Err(DecodeError { fault: DecodeFault::NumberOutOfRange, at: p1.pointer })
            }
        } else {
            if mag < 32768 {
                Ok((parser.at(p2.pointer), -(mag as i16)))
            } else if mag == 32768 {
                Ok((parser.at(p2.pointer), i16::MIN))
            } else {
                Err(DecodeError { fault: DecodeFault::NumberOutOfRange, at: p1.pointer })
            }
        }
    }

    /// Reads one character in UTF-8.
    pub fn visit_char<'a>(parser: Parser<'a>) -> (r: Result<(Parser<'a>, char), DecodeError>)
        ensures
            agrees_plain(r, read_char(parser.bytes@, parser.pointer as int), parser),
    {
        let (_, b) = parser.take_byte()?;
        let n: usize = if b <= 0x7f {
            1
        } else if 0xc0 <= b && b <= 0xdf {
            2
        } else if 0xe0 <= b && b <= 0xef {
            3
        } else if 0xf0 <= b && b <= 0xf7 {
            4
        } else {
            return Err(DecodeError { fault: DecodeFault::InvalidUtf8, at: parser.pointer });
        };
        if parser.bytes.len() - parser.pointer < n {
            return Err(DecodeError { fault: DecodeFault::UnexpectedEnd, at: parser.bytes.len() });
        }
        let raw = slice_to_vec(slice_subrange(parser.bytes, parser.pointer, parser.pointer + n));
        let ghost w = raw@;
        match string_from_utf8(raw) {
            None => Err(DecodeError { fault: DecodeFault::InvalidUtf8, at: parser.pointer }),
            Some(text) => {
                proof {
                    encode_utf8_decode_utf8(text@);
                    assert(valid_first_scalar(w));
                    assert(pop_first_scalar(w) =~= Seq::<u8>::empty());
                    assert(valid_utf8(pop_first_scalar(w)));
                    assert(decode_utf8(pop_first_scalar(w)) =~= Seq::<char>::empty());
                    assert(decode_utf8(w) =~= seq![decode_first_scalar(w) as char]);
                }
                let c = text.as_str().get_char(0);
                Ok((parser.at(parser.pointer + n), c))
            },
        }
    }

    /// Reads a value.
    pub fn visit<'a>(parser: Parser<'a>) -> (r: Result<(Parser<'a>, Value), DecodeError>)
        ensures
            agrees(r, read_value(parser.bytes@, parser.pointer as int), parser),
    {
        let (next, tag) = parser.take_byte()?;
        if tag == VALUE_UNDEFINED {
            Ok((next, Value::Null))
        } else if tag == VALUE_BOOL {
            let (p1, b) = next.take_byte()?;
            Ok((parser.at(p1.pointer), Value::Bool(b == 1)))
        } else if tag == VALUE_U8 {
            let (p1, b) = Value::visit_u8(next)?;
            Ok((parser.at(p1.pointer), Value::U8(b)))
        } else if tag == VALUE_I16 {
            let (p1, n) = Value::visit_i16(next)?;
            Ok((parser.at(p1.pointer), Value::I16(n)))
        } else if tag == VALUE_F32 {
            let (p1, text) = visit_free_text(next)?;
            Ok((parser.at(p1.pointer), Value::F32(text)))
        } else if tag == VALUE_STRING {
            let (p1, text) = Value::visit_string(next)?;
            Ok((parser.at(p1.pointer), Value::String(text)))
        } else if tag == VALUE_CHAR {
            let (p1, c) = Value::visit_char(next)?;
            Ok((parser.at(p1.pointer), Value::Char(c)))
        } else {
            Err(DecodeError { fault: DecodeFault::UnknownValueKind, at: parser.pointer })
        }
    }

    /// Whether the value is a string.
    pub fn is_string(&self) -> (r: bool)
        ensures
            r == (self is String),
    {
        match self {
            Value::String(_) => true,
            _ => false,
        }
    }

    /// The string that the value holds.
    pub fn as_string(&self) -> (r: Option<&String>)
        ensures
            match *self {
                Value::String(text) => r == Some(&text),
                _ => r is None,
            },
    {
        match self {
            Value::String(v) => Some(v),
            _ => None,
        }
    }

    /// The function that the value holds.
    pub fn as_function(&self) -> (r: Option<&ValueFun>)
        ensures
            match *self {
                Value::Fun(f) => r == Some(&f),
                _ => r is None,
            },
    {
        match self {
            Value::Fun(v) => Some(v),
            _ => None,
        }
    }

    /// The object that the value holds.
    pub fn as_object(&self) -> (r: Option<&ValueObject>)
        ensures
            match *self {
                Value::Object(o) => r == Some(&o),
                _ => r is None,
            },
    {
        match self {
            Value::Object(v) => Some(v),
            _ => None,
        }
    }
}

impl Compilable for Value {
    open spec fn wire(&self) -> Option<Seq<u8>> {
        if value_fits(self@) {
            Some(wire_value(self@))
        } else {
            None
        }
    }

    fn compile_bytecode(&self, buffer: Vec<u8>) -> (r: CompileResult) {
        let mut out = buffer;
        match self {
            Value::Null => {
                out.push(VALUE_UNDEFINED);
                assert(out@ =~= buffer@ + wire_value(self@));
                Ok(out)
            },
            Value::Bool(v) => {
                out.push(VALUE_BOOL);
                out.push(if *v { 1u8 } else { 0u8 });
                assert(out@ =~= buffer@ + wire_value(self@));
                Ok(out)
            },
            Value::Char(v) => {
                out.push(VALUE_CHAR);
                let mut raw = char_to_utf8(*v);
                out.append(&mut raw);
                assert(out@ =~= buffer@ + wire_value(self@));
                Ok(out)
            },
            Value::I16(v) => {
                out.push(VALUE_I16);
                let n: i16 = *v;
                let mag: u16 = if n > 0 {
                    n as u16
                } else if n == i16::MIN {
                    32768
                } else {
                    (-n) as u16
                };
                out.push(if n > 0 { 1u8 } else { 0u8 });
                let out = compile_u16(mag, out);
                assert(out@ =~= buffer@ + wire_value(self@));
                Ok(out)
            },
            Value::U8(v) => {
                out.push(VALUE_U8);
                out.push(*v);
                assert(out@ =~= buffer@ + wire_value(self@));
                Ok(out)
            },
            Value::F32(text) => {
                out.push(VALUE_F32);
                let out = compile_free_text(out, text.as_str());
                assert(out@ =~= buffer@ + wire_value(self@));
                Ok(out)
            },
            Value::String(text) => {
                out.push(VALUE_STRING);
                let out = Value::compile_string(out, text.as_str())?;
                assert(out@ =~= buffer@ + wire_value(self@));
                Ok(out)
            },
            Value::Fun(_) => Err(()),
            Value::Object(_) => Err(()),
            Value::Ref(_) => Err(()),
        }
    }
}

/// Reading the bytes of a 16-bit unsigned integer gives it back.
pub proof fn lemma_u16_roundtrip(s: Seq<u8>, pos: int, n: u16)
    requires
        holds_at(s, pos, wire_u16(n)),
    ensures
        read_u16(s, pos) == Ok::<(u16, int), Failure>((n, pos + 2)),
{
    let hi = (n / 256) as u8;
    let lo = (n % 256) as u8;
    assert(wire_u16(n) =~= seq![hi] + seq![lo]);
    lemma_holds_tag(s, pos, hi, seq![lo]);
    lemma_holds_first(s, pos + 1, seq![lo]);
}

/// Reading the bytes of a 16-bit signed integer gives it back.
pub proof fn lemma_i16_roundtrip(s: Seq<u8>, pos: int, n: i16)
    requires
        holds_at(s, pos, wire_i16(n)),
    ensures
        read_i16(s, pos) == Ok::<(i16, int), Failure>((n, pos + 3)),
{
    lemma_holds_tag(s, pos, sign_byte(n), wire_u16(magnitude(n)));
    lemma_u16_roundtrip(s, pos + 1, magnitude(n));
}

/// Reading the UTF-8 bytes of a character gives it back.
pub proof fn lemma_char_roundtrip(s: Seq<u8>, pos: int, c: char)
    requires
        holds_at(s, pos, encode_utf8(seq![c])),
    ensures
        read_char(s, pos) == Ok::<(char, int), Failure>((c, pos + encode_utf8(seq![c]).len())),
        encode_utf8(seq![c]).len() > 0,
{
    let chars = seq![c];
    let w = encode_utf8(chars);
    encode_utf8_first_scalar(chars);
    encode_utf8_valid_utf8(chars);
    encode_utf8_decode_utf8(chars);
    assert(chars.drop_first() =~= Seq::<char>::empty());
    assert(encode_utf8(Seq::<char>::empty()) =~= Seq::<u8>::empty());
    assert(w =~= encode_scalar(c as u32));
    lemma_holds_first(s, pos, w);
    assert(scalar_width(w[0]) == w.len());
}

/// Reading the bytes of a literal gives the literal back.
pub proof fn lemma_value_roundtrip(s: Seq<u8>, pos: int, v: ValueModel)
    requires
        value_fits(v),
        holds_at(s, pos, wire_value(v)),
    ensures
        read_value(s, pos) == Ok::<(ValueModel, int), Failure>((v, pos + wire_value(v).len())),
        wire_value(v).len() > 0,
{
    match v {
        ValueModel::Null => {
            lemma_holds_tag(s, pos, VALUE_UNDEFINED, Seq::<u8>::empty());
        },
        ValueModel::Bool(b) => {
            let x = if b { 1u8 } else { 0u8 };
            assert(wire_value(v) =~= seq![VALUE_BOOL] + seq![x]);
            lemma_holds_tag(s, pos, VALUE_BOOL, seq![x]);
            lemma_holds_first(s, pos + 1, seq![x]);
        },
        ValueModel::U8(n) => {
            assert(wire_value(v) =~= seq![VALUE_U8] + seq![n]);
            lemma_holds_tag(s, pos, VALUE_U8, seq![n]);
            lemma_holds_first(s, pos + 1, seq![n]);
        },
        ValueModel::Char(c) => {
            lemma_holds_tag(s, pos, VALUE_CHAR, encode_utf8(seq![c]));
            lemma_char_roundtrip(s, pos + 1, c);
        },
        ValueModel::I16(n) => {
            lemma_holds_tag(s, pos, VALUE_I16, wire_i16(n));
            lemma_i16_roundtrip(s, pos + 1, n);
        },
        ValueModel::F32(text) => {
            lemma_holds_tag(s, pos, VALUE_F32, wire_free_text(text));
            lemma_read_free_text(s, pos + 1, text);
        },
        ValueModel::String(text) => {
            lemma_holds_tag(s, pos, VALUE_STRING, wire_text(text));
            lemma_read_text(s, pos + 1, text);
        },
        ValueModel::Fun(_) => {},
        ValueModel::Object(_) => {},
        ValueModel::Ref(_) => {},
    }
}

/// A copy of a list of parameters.
#[verifier::loop_isolation(false)]
pub fn clone_parameters(list: &Vec<Parameter>) -> (r: Vec<Parameter>)
    ensures
        parameters_model(r@) == parameters_model(list@),
{
    let mut out: Vec<Parameter> = Vec::new();
    let mut i: usize = 0;
    while i < list.len()
        invariant
            i <= list.len(),
            out@.len() == i,
            forall|j: int|
                0 <= j < i ==> (#[trigger] out@[j]).0@ == list@[j].0@ && out@[j].1 == list@[j].1
                    && out@[j].2@ == list@[j].2@,
        decreases list.len() - i,
    {
        let item = &list[i];
        out.push((item.0.clone(), item.1, item.2.clone()));
        i += 1;
    }
    assert(parameters_model(out@) =~= parameters_model(list@));
    out
}

/// A copy of the fields of an object. The copy names the same storage cells.
#[verifier::loop_isolation(false)]
pub fn clone_fields(list: &Vec<(String, usize)>) -> (r: Vec<(String, usize)>)
    ensures
        fields_model(r@) == fields_model(list@),
{
    let mut out: Vec<(String, usize)> = Vec::new();
    let mut i: usize = 0;
    while i < list.len()
        invariant
            i <= list.len(),
            out@.len() == i,
            forall|j: int|
                0 <= j < i ==> (#[trigger] out@[j]).0@ == list@[j].0@ && out@[j].1 == list@[j].1,
        decreases list.len() - i,
    {
        let item = &list[i];
        out.push((item.0.clone(), item.1));
        i += 1;
    }
    assert(fields_model(out@) =~= fields_model(list@));
    out
}

impl Clone for ValueObject {
    fn clone(&self) -> (r: Self)
        ensures
            r@ == self@,
    {
        match self {
            ValueObject::Native(h) => ValueObject::Native(*h),
            ValueObject::Instance(t, fs) => ValueObject::Instance(t.clone(), clone_fields(fs)),
            ValueObject::PropertyMap(fs) => ValueObject::PropertyMap(clone_fields(fs)),
        }
    }
}

impl Clone for ValueFun {
    fn clone(&self) -> (r: Self)
        ensures
            r@ == self@,
        decreases self,
    {
        match self {
            ValueFun::Native(ps, ret, native) => ValueFun::Native(
                clone_parameters(ps),
                ret.clone(),
                *native,
            ),
            ValueFun::Const(ps, ret, body) => ValueFun::Const(
                clone_parameters(ps),
                ret.clone(),
                clone_commands(body),
            ),
            ValueFun::Mutable(ps, ret, body) => ValueFun::Mutable(
                clone_parameters(ps),
                ret.clone(),
                clone_commands(body),
            ),
        }
    }
}

impl Clone for AmvmVariable {
    fn clone(&self) -> (r: Self)
        ensures
            r@ == self@,
        decreases self,
    {
        match self {
            AmvmVariable::Const(value) => AmvmVariable::Const(Box::new((**value).clone())),
            AmvmVariable::Mut(cell) => AmvmVariable::Mut(*cell),
            AmvmVariable::Let(cell) => AmvmVariable::Let(*cell),
            AmvmVariable::Var(cell) => AmvmVariable::Var(*cell),
        }
    }
}

impl Clone for Value {
    fn clone(&self) -> (r: Self)
        ensures
            r@ == self@,
        decreases self,
    {
        match self {
            Value::Null => Value::Null,
            Value::Char(c) => Value::Char(*c),
            Value::Bool(b) => Value::Bool(*b),
            Value::I16(n) => Value::I16(*n),
            Value::F32(text) => Value::F32(text.clone()),
            Value::Fun(f) => Value::Fun(f.clone()),
            Value::Object(o) => Value::Object(o.clone()),
            Value::Ref(var) => Value::Ref(var.clone()),
            Value::String(text) => Value::String(text.clone()),
            Value::U8(n) => Value::U8(*n),
        }
    }
}

} // verus!
