use vstd::prelude::*;
use crate::error::DecodeError;
use crate::error::DecodeFault;
use crate::error::Failure;
use crate::error::Parsed;
use crate::error::fail;
use crate::parser::Parser;
use crate::parser::agrees;
use crate::parser::agrees_as;
use crate::utils::Compilable;
use crate::utils::CompileResult;
use crate::utils::compile_text;
use crate::utils::compiled;
use crate::utils::holds_at;
use crate::utils::lemma_holds_split;
use crate::utils::lemma_holds_tag;
use crate::utils::lemma_read_text;
use crate::utils::read_text;
use crate::utils::text_fits;
use crate::utils::visit_text;
use crate::utils::wire_text;

verus! {

/// Wire tag of the anonymous type.
pub const TYPE_ANON: u8 = 0x01;

/// Wire tag of a named type.
pub const TYPE_CUSTOM: u8 = 0x02;

/// Wire tag of a tuple type.
pub const TYPE_TUPLE: u8 = 0x03;

/// Wire tag of a union type.
pub const TYPE_UNION: u8 = 0x04;

/// Wire tag of the boolean type.
pub const TYPE_BOOL: u8 = 0x05;

/// Wire tag of a function type.
pub const TYPE_FUN: u8 = 0x06;

/// Wire tag of the string type.
pub const TYPE_STRING: u8 = 0x07;

/// Wire tag of the 8-bit unsigned type.
pub const TYPE_U8: u8 = 0x08;

/// The types that the machine knows by itself.
#[derive(Debug, Clone, Copy, PartialEq, Eq, Structural)]
pub enum AmvmPrimitiveType {
    U8,
    Bool,
    String,
}

/// A type as programs write it.
#[derive(Debug, PartialEq)]
pub enum AmvmType {
    Anonymous,
    Tuple(Vec<AmvmType>),
    Union(Box<AmvmType>, Box<AmvmType>),
    Fun(Vec<AmvmType>, Box<AmvmType>),
    Named(String),
    Primitive(AmvmPrimitiveType),
}

/// What a name in the type registry stands for.
#[derive(Debug, PartialEq)]
pub enum AmvmTypeDefinition {
    Inheritance(Vec<AmvmType>, Box<AmvmTypeDefinition>),
    Struct { generics: Vec<(String, Option<AmvmType>)>, fields: Vec<(String, AmvmType)> },
}

/// A type as the contracts speak of it.
pub ghost enum TypeModel {
    Anonymous,
    Tuple(Seq<TypeModel>),
    Union(Box<TypeModel>, Box<TypeModel>),
    Fun(Seq<TypeModel>, Box<TypeModel>),
    Named(Seq<char>),
    Primitive(AmvmPrimitiveType),
}

/// The model of a type.
pub open spec fn type_model(t: AmvmType) -> TypeModel
    decreases t,
{
    match t {
        AmvmType::Anonymous => TypeModel::Anonymous,
        AmvmType::Tuple(ts) => TypeModel::Tuple(types_model(ts@)),
        AmvmType::Union(a, b) => TypeModel::Union(Box::new(type_model(*a)), Box::new(type_model(*b))),
        AmvmType::Fun(args, ret) => TypeModel::Fun(types_model(args@), Box::new(type_model(*ret))),
        AmvmType::Named(name) => TypeModel::Named(name@),
        AmvmType::Primitive(p) => TypeModel::Primitive(p),
    }
}

/// The models of a list of types.
pub open spec fn types_model(ts: Seq<AmvmType>) -> Seq<TypeModel>
    decreases ts,
{
    Seq::new(
        ts.len(),
        |i: int|
            if 0 <= i < ts.len() {
                type_model(ts[i])
            } else {
                TypeModel::Anonymous
            },
    )
}

impl View for AmvmType {
    type V = TypeModel;

    open spec fn view(&self) -> TypeModel {
        type_model(*self)
    }
}

/// Whether a type can be written: no list in it has over 255 members and no
/// name over 255 bytes.
pub open spec fn type_fits(t: TypeModel) -> bool
    decreases t,
{
    match t {
        TypeModel::Anonymous => true,
        TypeModel::Tuple(ts) => types_fit(ts),
        TypeModel::Union(a, b) => type_fits(*a) && type_fits(*b),
        TypeModel::Fun(args, ret) => types_fit(args) && type_fits(*ret),
        TypeModel::Named(name) => text_fits(name),
        TypeModel::Primitive(_) => true,
    }
}

/// Whether a list of types can be written.
pub open spec fn types_fit(ts: Seq<TypeModel>) -> bool
    decreases ts,
{
    ts.len() <= 255 && forall|i: int| 0 <= i < ts.len() ==> type_fits(#[trigger] ts[i])
}

/// The wire tag of a primitive type.
pub open spec fn primitive_tag(p: AmvmPrimitiveType) -> u8 {
    match p {
        AmvmPrimitiveType::Bool => TYPE_BOOL,
        AmvmPrimitiveType::String => TYPE_STRING,
        AmvmPrimitiveType::U8 => TYPE_U8,
    }
}

/// The bytes of a type.
pub open spec fn wire_type(t: TypeModel) -> Seq<u8>
    decreases t,
{
    match t {
        TypeModel::Anonymous => seq![TYPE_ANON],
        TypeModel::Named(name) => seq![TYPE_CUSTOM] + wire_text(name),
        TypeModel::Union(a, b) => seq![TYPE_UNION] + wire_type(*a) + wire_type(*b),
        TypeModel::Tuple(ts) => seq![TYPE_TUPLE] + wire_type_list(ts),
        TypeModel::Fun(args, ret) => seq![TYPE_FUN] + wire_type_list(args) + wire_type(*ret),
        TypeModel::Primitive(p) => seq![primitive_tag(p)],
    }
}

/// The bytes of a list of types: their number, then each in turn.
pub open spec fn wire_type_list(ts: Seq<TypeModel>) -> Seq<u8>
    decreases ts, 1nat,
{
    seq![ts.len() as u8] + wire_types(ts)
}

/// The bytes of some types, one behind the other.
pub open spec fn wire_types(ts: Seq<TypeModel>) -> Seq<u8>
    decreases ts, 0nat,
{
    if ts.len() == 0 {
        Seq::<u8>::empty()
    } else {
        wire_type(ts[0]) + wire_types(ts.drop_first())
    }
}

/// Reads a type at `pos`.
pub open spec fn read_type(s: Seq<u8>, pos: int) -> Parsed<TypeModel>
    decreases s.len() - pos, 0nat, 0nat,
{
    if !(0 <= pos < s.len()) {
        fail(DecodeFault::UnexpectedEnd, pos)
    } else if s[pos] == TYPE_ANON {
        Ok((TypeModel::Anonymous, pos + 1))
    } else if s[pos] == TYPE_CUSTOM {
        match read_text(s, pos + 1) {
            Err(e) => Err(e),
            Ok((name, p1)) => Ok((TypeModel::Named(name), p1)),
        }
    } else if s[pos] == TYPE_UNION {
        match read_type(s, pos + 1) {
            Err(e) => Err(e),
            Ok((a, p1)) => if pos < p1 <= s.len() {
                match read_type(s, p1) {
                    Err(e) => Err(e),
                    Ok((b, p2)) => Ok((TypeModel::Union(Box::new(a), Box::new(b)), p2)),
                }
            } else {
                fail(DecodeFault::UnexpectedEnd, pos)
            },
        }
    } else if s[pos] == TYPE_TUPLE {
        match read_type_list(s, pos + 1) {
            Err(e) => Err(e),
            Ok((ts, p1)) => Ok((TypeModel::Tuple(ts), p1)),
        }
    } else if s[pos] == TYPE_FUN {
        match read_type_list(s, pos + 1) {
            Err(e) => Err(e),
            Ok((args, p1)) => if pos < p1 <= s.len() {
                match read_type(s, p1) {
                    Err(e) => Err(e),
                    Ok((ret, p2)) => Ok((TypeModel::Fun(args, Box::new(ret)), p2)),
                }
            } else {
                fail(DecodeFault::UnexpectedEnd, pos)
            },
        }
    } else if s[pos] == TYPE_BOOL {
        Ok((TypeModel::Primitive(AmvmPrimitiveType::Bool), pos + 1))
    } else if s[pos] == TYPE_STRING {
        Ok((TypeModel::Primitive(AmvmPrimitiveType::String), pos + 1))
    } else if s[pos] == TYPE_U8 {
        Ok((TypeModel::Primitive(AmvmPrimitiveType::U8), pos + 1))
    } else {
        fail(DecodeFault::UnknownTypeKind, pos)
    }
}

/// Reads a counted list of types at `pos`.
pub open spec fn read_type_list(s: Seq<u8>, pos: int) -> Parsed<Seq<TypeModel>>
    decreases s.len() - pos, 2nat, 0nat,
{
    if !(0 <= pos < s.len()) {
        fail(DecodeFault::UnexpectedEnd, pos)
    } else {
        read_types(s, pos + 1, s[pos] as nat, Seq::<TypeModel>::empty())
    }
}

/// Reads `n` types at `pos`, behind the types `acc` already read.
pub open spec fn read_types(s: Seq<u8>, pos: int, n: nat, acc: Seq<TypeModel>) -> Parsed<
    Seq<TypeModel>,
>
    decreases s.len() - pos, 1nat, n,
{
    if n == 0 {
        Ok((acc, pos))
    } else {
        match read_type(s, pos) {
            Err(e) => Err(e),
            Ok((t, p1)) => if pos < p1 <= s.len() {
                read_types(s, p1, (n - 1) as nat, acc.push(t))
            } else {
                fail(DecodeFault::UnexpectedEnd, pos)
            },
        }
    }
}

impl AmvmType {
    /// Reads a type.
    pub fn visit<'a>(parser: Parser<'a>) -> (r: Result<(Parser<'a>, AmvmType), DecodeError>)
        ensures
            agrees(r, read_type(parser.bytes@, parser.pointer as int), parser),
        decreases parser.bytes@.len() - parser.pointer, 0nat,
    {
        let (next, tag) = match parser.take_byte() {
            Ok(v) => v,
            Err(e) => {
                return Err(e);
            },
        };
        if tag == TYPE_ANON {
            Ok((next, AmvmType::Anonymous))
        } else if tag == TYPE_CUSTOM {
            match visit_text(next) {
                Err(e) => Err(e),
                Ok((p1, name)) => Ok((parser.at(p1.pointer), AmvmType::Named(name))),
            }
        } else if tag == TYPE_UNION {
            match AmvmType::visit(next) {
                Err(e) => Err(e),
                Ok((p1, a)) => match AmvmType::visit(p1) {
                    Err(e) => Err(e),
                    Ok((p2, b)) => Ok(
                        (parser.at(p2.pointer), AmvmType::Union(Box::new(a), Box::new(b))),
                    ),
                },
            }
        } else if tag == TYPE_TUPLE {
            match AmvmType::visit_list(next) {
                Err(e) => Err(e),
                Ok((p1, ts)) => Ok((parser.at(p1.pointer), AmvmType::Tuple(ts))),
            }
        } else if tag == TYPE_FUN {
            match AmvmType::visit_list(next) {
                Err(e) => Err(e),
                Ok((p1, args)) => match AmvmType::visit(p1) {
                    Err(e) => Err(e),
                    Ok((p2, ret)) => Ok(
                        (parser.at(p2.pointer), AmvmType::Fun(args, Box::new(ret))),
                    ),
                },
            }
        } else if tag == TYPE_BOOL {
            Ok((next, AmvmType::Primitive(AmvmPrimitiveType::Bool)))
        } else if tag == TYPE_STRING {
            Ok((next, AmvmType::Primitive(AmvmPrimitiveType::String)))
        } else if tag == TYPE_U8 {
            Ok((next, AmvmType::Primitive(AmvmPrimitiveType::U8)))
        } else {
            Err(DecodeError { fault: DecodeFault::UnknownTypeKind, at: parser.pointer })
        }
    }

    /// Reads a counted list of types.
    #[verifier::loop_isolation(false)]
    pub fn visit_list<'a>(parser: Parser<'a>) -> (r: Result<
        (Parser<'a>, Vec<AmvmType>),
        DecodeError,
    >)
        ensures
            agrees_as(
                r,
                read_type_list(parser.bytes@, parser.pointer as int),
                parser,
                |v: Vec<AmvmType>| types_model(v@),
            ),
        decreases parser.bytes@.len() - parser.pointer, 1nat,
    {
        let (first, n) = match parser.take_byte() {
            Ok(v) => v,
            Err(e) => {
                return Err(e);
            },
        };
        let ghost s = parser.bytes@;
        let mut out: Vec<AmvmType> = Vec::new();
        let mut cur = first;
        let mut i: u8 = 0;
        assert(types_model(out@) =~= Seq::<TypeModel>::empty());
        while i < n
            invariant
                i <= n,
                cur == parser.spec_at(cur.pointer as int),
                parser.pointer < cur.pointer <= s.len(),
                read_type_list(s, parser.pointer as int) == read_types(
                    s,
                    cur.pointer as int,
                    (n - i) as nat,
                    types_model(out@),
                ),
            decreases n - i,
        {
            match AmvmType::visit(cur) {
                Err(e) => {
                    return Err(e);
                },
                Ok((p1, t)) => {
                    let ghost before = out@;
                    out.push(t);
                    assert(types_model(out@) =~= types_model(before).push(t@));
                    cur = parser.at(p1.pointer);
                },
            }
            i = i + 1;
        }
        Ok((cur, out))
    }

    /// Appends a counted list of types to `buffer`.
    #[verifier::loop_isolation(false)]
    pub fn compile_list(list: &Vec<AmvmType>, buffer: Vec<u8>) -> (r: CompileResult)
        ensures
            compiled(
                r,
                buffer@,
                if types_fit(types_model(list@)) {
                    Some(wire_type_list(types_model(list@)))
                } else {
                    None
                },
            ),
        decreases list, 0nat,
    {
        if list.len() > 255 {
            return Err(());
        }
        let ghost ms = types_model(list@);
        let mut out = buffer;
        out.push(list.len() as u8);
        let mut i: usize = 0;
        assert(ms.skip(0) =~= ms);
        assert(out@ =~= buffer@ + seq![ms.len() as u8]);
        while i < list.len()
            invariant
                i <= list.len(),
                forall|j: int| 0 <= j < i ==> type_fits(#[trigger] ms[j]),
                buffer@ + wire_type_list(ms) == out@ + wire_types(ms.skip(i as int)),
            decreases list.len() - i,
        {
            proof {
                let rest = ms.skip(i as int);
                assert(rest.drop_first() =~= ms.skip(i + 1));
                assert(rest[0] == ms[i as int]);
                assert(out@ + wire_types(rest) =~= out@ + wire_type(ms[i as int]) + wire_types(
                    ms.skip(i + 1),
                ));
            }
            out = match list[i].compile_bytecode(out) {
                Ok(b) => b,
                Err(e) => {
                    assert(!type_fits(ms[i as int]));
                    return Err(e);
                },
            };
            i += 1;
        }
        assert(ms.skip(ms.len() as int) =~= Seq::<TypeModel>::empty());
        assert(out@ + Seq::<u8>::empty() =~= out@);
        Ok(out)
    }
}

impl Compilable for AmvmType {
    open spec fn wire(&self) -> Option<Seq<u8>> {
        if type_fits(self@) {
            Some(wire_type(self@))
        } else {
            None
        }
    }

    fn compile_bytecode(&self, buffer: Vec<u8>) -> (r: CompileResult)
        decreases self, 1nat,
    {
        let mut out = buffer;
        match self {
            AmvmType::Anonymous => {
                out.push(TYPE_ANON);
                assert(out@ =~= buffer@ + wire_type(self@));
                Ok(out)
            },
            AmvmType::Named(name) => {
                out.push(TYPE_CUSTOM);
                let out = compile_text(out, name.as_str())?;
                assert(out@ =~= buffer@ + wire_type(self@));
                Ok(out)
            },
            AmvmType::Union(a, b) => {
                out.push(TYPE_UNION);
                let out = a.compile_bytecode(out)?;
                let out = b.compile_bytecode(out)?;
                assert(out@ =~= buffer@ + wire_type(self@));
                Ok(out)
            },
            AmvmType::Tuple(fields) => {
                out.push(TYPE_TUPLE);
                let out = AmvmType::compile_list(fields, out)?;
                assert(out@ =~= buffer@ + wire_type(self@));
                Ok(out)
            },
            AmvmType::Fun(args, ret) => {
                out.push(TYPE_FUN);
                let out = AmvmType::compile_list(args, out)?;
                let out = ret.compile_bytecode(out)?;
                assert(out@ =~= buffer@ + wire_type(self@));
                Ok(out)
            },
            AmvmType::Primitive(p) => {
                out.push(
                    match p {
                        AmvmPrimitiveType::Bool => TYPE_BOOL,
                        AmvmPrimitiveType::String => TYPE_STRING,
                        AmvmPrimitiveType::U8 => TYPE_U8,
                    },
                );
                assert(out@ =~= buffer@ + wire_type(self@));
                Ok(out)
            },
        }
    }
}

/// Reading the bytes of a type gives the type back.
pub proof fn lemma_type_roundtrip(s: Seq<u8>, pos: int, t: TypeModel)
    requires
        type_fits(t),
        holds_at(s, pos, wire_type(t)),
    ensures
        read_type(s, pos) == Ok::<(TypeModel, int), Failure>((t, pos + wire_type(t).len())),
        wire_type(t).len() > 0,
    decreases t, 0nat,
{
    match t {
        TypeModel::Anonymous => {
            lemma_holds_tag(s, pos, TYPE_ANON, Seq::<u8>::empty());
        },
        TypeModel::Primitive(p) => {
            lemma_holds_tag(s, pos, primitive_tag(p), Seq::<u8>::empty());
        },
        TypeModel::Named(name) => {
            lemma_holds_tag(s, pos, TYPE_CUSTOM, wire_text(name));
            lemma_read_text(s, pos + 1, name);
        },
        TypeModel::Union(a, b) => {
            assert(wire_type(t) =~= seq![TYPE_UNION] + (wire_type(*a) + wire_type(*b)));
            lemma_holds_tag(s, pos, TYPE_UNION, wire_type(*a) + wire_type(*b));
            lemma_holds_split(s, pos + 1, wire_type(*a), wire_type(*b));
            lemma_type_roundtrip(s, pos + 1, *a);
            lemma_type_roundtrip(s, pos + 1 + wire_type(*a).len(), *b);
        },
        TypeModel::Tuple(ts) => {
            lemma_holds_tag(s, pos, TYPE_TUPLE, wire_type_list(ts));
            lemma_type_list_roundtrip(s, pos + 1, ts);
        },
        TypeModel::Fun(args, ret) => {
            assert(wire_type(t) =~= seq![TYPE_FUN] + (wire_type_list(args) + wire_type(*ret)));
            lemma_holds_tag(s, pos, TYPE_FUN, wire_type_list(args) + wire_type(*ret));
            lemma_holds_split(s, pos + 1, wire_type_list(args), wire_type(*ret));
            lemma_type_list_roundtrip(s, pos + 1, args);
            lemma_type_roundtrip(s, pos + 1 + wire_type_list(args).len(), *ret);
        },
    }
}

/// Reading the bytes of a counted list of types gives the list back.
pub proof fn lemma_type_list_roundtrip(s: Seq<u8>, pos: int, ts: Seq<TypeModel>)
    requires
        types_fit(ts),
        holds_at(s, pos, wire_type_list(ts)),
    ensures
        read_type_list(s, pos) == Ok::<(Seq<TypeModel>, int), Failure>(
            (ts, pos + wire_type_list(ts).len()),
        ),
        wire_type_list(ts).len() > 0,
    decreases ts, 2nat,
{
    lemma_holds_tag(s, pos, ts.len() as u8, wire_types(ts));
    lemma_types_roundtrip(s, pos + 1, ts, Seq::<TypeModel>::empty());
    assert(Seq::<TypeModel>::empty() + ts =~= ts);
}

/// Reading the bytes of some types, one behind the other, gives them back.
pub proof fn lemma_types_roundtrip(s: Seq<u8>, pos: int, ts: Seq<TypeModel>, acc: Seq<TypeModel>)
    requires
        forall|i: int| 0 <= i < ts.len() ==> type_fits(#[trigger] ts[i]),
        holds_at(s, pos, wire_types(ts)),
    ensures
        read_types(s, pos, ts.len(), acc) == Ok::<(Seq<TypeModel>, int), Failure>(
            (acc + ts, pos + wire_types(ts).len()),
        ),
    decreases ts, 1nat,
{
    if ts.len() == 0 {
        assert(acc + ts =~= acc);
    } else {
        let rest = ts.drop_first();
        lemma_holds_split(s, pos, wire_type(ts[0]), wire_types(rest));
        lemma_type_roundtrip(s, pos, ts[0]);
        assert forall|i: int| 0 <= i < rest.len() implies type_fits(#[trigger] rest[i]) by {
            assert(rest[i] == ts[i + 1]);
        }
        lemma_types_roundtrip(s, pos + wire_type(ts[0]).len(), rest, acc.push(ts[0]));
        assert(acc.push(ts[0]) + rest =~= acc + ts);
    }
}

/// A copy of a list of types.
#[verifier::loop_isolation(false)]
pub fn clone_types(list: &Vec<AmvmType>) -> (r: Vec<AmvmType>)
    ensures
        types_model(r@) == types_model(list@),
    decreases list, 0nat,
{
    let mut out: Vec<AmvmType> = Vec::new();
    let mut i: usize = 0;
    while i < list.len()
        invariant
            i <= list.len(),
            out@.len() == i,
            forall|j: int| 0 <= j < i ==> (#[trigger] out@[j])@ == list@[j]@,
        decreases list.len() - i,
    {
        out.push(list[i].clone());
        i += 1;
    }
    assert(types_model(out@) =~= types_model(list@));
    out
}

impl Clone for AmvmType {
    fn clone(&self) -> (r: Self)
        ensures
            r@ == self@,
        decreases self, 1nat,
    {
        match self {
            AmvmType::Anonymous => AmvmType::Anonymous,
            AmvmType::Tuple(ts) => AmvmType::Tuple(clone_types(ts)),
            AmvmType::Union(a, b) => AmvmType::Union(Box::new((**a).clone()), Box::new((**b).clone())),
            AmvmType::Fun(args, ret) => AmvmType::Fun(clone_types(args), Box::new((**ret).clone())),
            AmvmType::Named(name) => AmvmType::Named(name.clone()),
            AmvmType::Primitive(p) => AmvmType::Primitive(*p),
        }
    }
}

/// A type definition as the contracts speak of it.
pub ghost enum DefinitionModel {
    Inheritance(Seq<TypeModel>, Box<DefinitionModel>),
    Struct { generics: Seq<(Seq<char>, Option<TypeModel>)>, fields: Seq<(Seq<char>, TypeModel)> },
}

/// The models of the generic parameters of a struct.
pub open spec fn generics_model(gs: Seq<(String, Option<AmvmType>)>) -> Seq<
    (Seq<char>, Option<TypeModel>),
> {
    Seq::new(
        gs.len(),
        |i: int|
            (
                gs[i].0@,
                match gs[i].1 {
                    Some(t) => Some(type_model(t)),
                    None => None,
                },
            ),
    )
}

/// The models of the fields of a struct.
pub open spec fn struct_fields_model(fs: Seq<(String, AmvmType)>) -> Seq<(Seq<char>, TypeModel)> {
    Seq::new(fs.len(), |i: int| (fs[i].0@, type_model(fs[i].1)))
}

/// The model of a type definition.
pub open spec fn definition_model(d: AmvmTypeDefinition) -> DefinitionModel
    decreases d,
{
    match d {
        AmvmTypeDefinition::Inheritance(supers, base) => DefinitionModel::Inheritance(
            types_model(supers@),
            Box::new(definition_model(*base)),
        ),
        AmvmTypeDefinition::Struct { generics, fields } => DefinitionModel::Struct {
            generics: generics_model(generics@),
            fields: struct_fields_model(fields@),
        },
    }
}

impl View for AmvmTypeDefinition {
    type V = DefinitionModel;

    open spec fn view(&self) -> DefinitionModel {
        definition_model(*self)
    }
}

/// A copy of the fields of a struct.
#[verifier::loop_isolation(false)]
pub fn clone_struct_fields(list: &Vec<(String, AmvmType)>) -> (r: Vec<(String, AmvmType)>)
    ensures
        struct_fields_model(r@) == struct_fields_model(list@),
{
    let mut out: Vec<(String, AmvmType)> = Vec::new();
    let mut i: usize = 0;
    while i < list.len()
        invariant
            i <= list.len(),
            out@.len() == i,
            forall|j: int|
                0 <= j < i ==> (#[trigger] out@[j]).0@ == list@[j].0@ && out@[j].1@ == list@[j].1@,
        decreases list.len() - i,
    {
        let item = &list[i];
        out.push((item.0.clone(), item.1.clone()));
        i += 1;
    }
    assert(struct_fields_model(out@) =~= struct_fields_model(list@));
    out
}

/// A copy of the generic parameters of a struct.
#[verifier::loop_isolation(false)]
pub fn clone_generics(list: &Vec<(String, Option<AmvmType>)>) -> (r: Vec<
    (String, Option<AmvmType>),
>)
    ensures
        generics_model(r@) == generics_model(list@),
{
    let mut out: Vec<(String, Option<AmvmType>)> = Vec::new();
    let mut i: usize = 0;
    while i < list.len()
        invariant
            i <= list.len(),
            out@.len() == i,
            generics_model(out@) =~= generics_model(list@.take(i as int)),
        decreases list.len() - i,
    {
        let item = &list[i];
        let bound = match &item.1 {
            Some(t) => Some(t.clone()),
            None => None,
        };
        let ghost before = out@;
        out.push((item.0.clone(), bound));
        assert(generics_model(out@) =~= generics_model(before).push(generics_model(list@)[i as int]));
        assert(generics_model(list@.take(i + 1)) =~= generics_model(list@.take(i as int)).push(
            generics_model(list@)[i as int],
        ));
        i += 1;
    }
    assert(list@.take(list@.len() as int) =~= list@);
    out
}

impl Clone for AmvmTypeDefinition {
    fn clone(&self) -> (r: Self)
        ensures
            r@ == self@,
        decreases self,
    {
        match self {
            AmvmTypeDefinition::Inheritance(supers, base) => AmvmTypeDefinition::Inheritance(
                clone_types(supers),
                Box::new((**base).clone()),
            ),
            AmvmTypeDefinition::Struct { generics, fields } => AmvmTypeDefinition::Struct {
                generics: clone_generics(generics),
                fields: clone_struct_fields(fields),
            },
        }
    }
}

} // verus!
