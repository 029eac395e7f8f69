use vstd::prelude::*;
use vstd::string::*;
use vstd::utf8::*;
use crate::runtime::machine::Machine;
use crate::runtime::machine::MachineModel;
use crate::tokens::kind::kind_name;
use crate::tokens::types::AmvmPrimitiveType;
use crate::tokens::types::AmvmType;
use crate::tokens::types::TypeModel;
use crate::tokens::types::types_model;
use crate::tokens::value::FunModel;
use crate::tokens::value::ObjectModel;
use crate::tokens::value::Parameter;
use crate::tokens::value::ParameterModel;
use crate::tokens::value::Value;
use crate::tokens::value::ValueFun;
use crate::tokens::value::ValueModel;
use crate::tokens::value::ValueObject;
use crate::tokens::value::fields_model;
use crate::tokens::value::parameters_model;
use crate::utils::char_to_utf8;
use crate::utils::string_from_utf8;

verus! {

/// The string of one character.
pub fn char_to_string(c: char) -> (r: String)
    ensures
        r@ == seq![c],
{
    proof {
        encode_utf8_valid_utf8(seq![c]);
        encode_utf8_decode_utf8(seq![c]);
    }
    match string_from_utf8(char_to_utf8(c)) {
        Some(text) => {
            proof {
                encode_utf8_decode_utf8(text@);
            }
            text
        },
        None => String::new(),
    }
}

/// The digit of a number below sixteen.
pub open spec fn digit(d: int) -> Seq<char> {
    if d == 0 {
        "0"@
    } else if d == 1 {
        "1"@
    } else if d == 2 {
        "2"@
    } else if d == 3 {
        "3"@
    } else if d == 4 {
        "4"@
    } else if d == 5 {
        "5"@
    } else if d == 6 {
        "6"@
    } else if d == 7 {
        "7"@
    } else if d == 8 {
        "8"@
    } else if d == 9 {
        "9"@
    } else if d == 10 {
        "a"@
    } else if d == 11 {
        "b"@
    } else if d == 12 {
        "c"@
    } else if d == 13 {
        "d"@
    } else if d == 14 {
        "e"@
    } else {
        "f"@
    }
}

/// A number in decimal, without leading zeros.
pub open spec fn decimal(n: nat) -> Seq<char>
    decreases n,
{
    if n < 10 {
        digit(n as int)
    } else {
        decimal(n / 10) + digit((n % 10) as int)
    }
}

/// A signed number in decimal.
pub open spec fn signed_decimal(n: int) -> Seq<char> {
    if n < 0 {
        "-"@ + decimal((-n) as nat)
    } else {
        decimal(n as nat)
    }
}

/// The lowest `width` digits of a number in hexadecimal, with leading zeros.
pub open spec fn padded_hex(n: nat, width: nat) -> Seq<char>
    decreases width,
{
    if width == 0 {
        Seq::<char>::empty()
    } else {
        padded_hex(n / 16, (width - 1) as nat) + digit((n % 16) as int)
    }
}

/// The digit of a number below sixteen.
pub fn digit_text(d: u32) -> (r: &'static str)
    ensures
        r@ == digit(d as int),
{
    if d == 0 {
        "0"
    } else if d == 1 {
        "1"
    } else if d == 2 {
        "2"
    } else if d == 3 {
        "3"
    } else if d == 4 {
        "4"
    } else if d == 5 {
        "5"
    } else if d == 6 {
        "6"
    } else if d == 7 {
        "7"
    } else if d == 8 {
        "8"
    } else if d == 9 {
        "9"
    } else if d == 10 {
        "a"
    } else if d == 11 {
        "b"
    } else if d == 12 {
        "c"
    } else if d == 13 {
        "d"
    } else if d == 14 {
        "e"
    } else {
        "f"
    }
}

/// Appends a number in decimal.
pub fn push_decimal(out: &mut String, n: u128)
    ensures
        final(out)@ == old(out)@ + decimal(n as nat),
    decreases n,
{
    if n >= 10 {
        push_decimal(out, n / 10);
    }
    let ghost before = out@;
    out.append(digit_text((n % 10) as u32));
    assert(out@ =~= old(out)@ + decimal(n as nat));
}

/// Appends a signed number in decimal.
pub fn push_signed(out: &mut String, n: i64)
    ensures
        final(out)@ == old(out)@ + signed_decimal(n as int),
{
    if n < 0 {
        out.append("-");
        push_decimal(out, (-(n as i128)) as u128);
        assert(out@ =~= old(out)@ + signed_decimal(n as int));
    } else {
        push_decimal(out, n as u128);
    }
}

/// Appends the lowest `width` digits of a number in hexadecimal.
pub fn push_hex(out: &mut String, n: u32, width: u8)
    ensures
        final(out)@ == old(out)@ + padded_hex(n as nat, width as nat),
    decreases width,
{
    if width > 0 {
        push_hex(out, n / 16, width - 1);
        out.append(digit_text(n % 16));
        assert(out@ =~= old(out)@ + padded_hex(n as nat, width as nat));
    } else {
        assert(out@ =~= old(out)@ + padded_hex(n as nat, width as nat));
    }
}

/// The name of a primitive type.
pub open spec fn primitive_name(p: AmvmPrimitiveType) -> Seq<char> {
    match p {
        AmvmPrimitiveType::Bool => "bool"@,
        AmvmPrimitiveType::U8 => "u8"@,
        AmvmPrimitiveType::String => "string"@,
    }
}

/// The short name of a type.
pub open spec fn flat_name(t: TypeModel) -> Seq<char>
    decreases t, 0nat,
{
    match t {
        TypeModel::Anonymous => "#"@,
        TypeModel::Named(name) => "#"@ + name,
        TypeModel::Tuple(ts) => "#("@ + joined_names(ts, ","@) + ")"@,
        TypeModel::Union(a, b) => flat_name(*a) + flat_name(*b),
        TypeModel::Fun(args, ret) => "#Fun("@ + joined_names(args, ", "@) + ") -> "@ + flat_name(*ret),
        TypeModel::Primitive(p) => "#"@ + primitive_name(p),
    }
}

/// The short names of some types with `sep` between them.
pub open spec fn joined_names(ts: Seq<TypeModel>, sep: Seq<char>) -> Seq<char>
    decreases ts, 1nat,
{
    if ts.len() == 0 {
        Seq::<char>::empty()
    } else if ts.len() == 1 {
        flat_name(ts[0])
    } else {
        joined_names(ts.drop_last(), sep) + sep + flat_name(ts.last())
    }
}

impl AmvmPrimitiveType {
    /// The name of the primitive type.
    pub fn name(&self) -> (r: &'static str)
        ensures
            r@ == primitive_name(*self),
    {
        match self {
            AmvmPrimitiveType::Bool => "bool",
            AmvmPrimitiveType::U8 => "u8",
            AmvmPrimitiveType::String => "string",
        }
    }
}

impl AmvmType {
    /// Appends the short names of some types with `sep` between them.
    #[verifier::loop_isolation(false)]
    pub fn push_names(args: &Vec<AmvmType>, sep: &str, out: &mut String)
        ensures
            final(out)@ == old(out)@ + joined_names(types_model(args@), sep@),
        decreases args, 0nat,
    {
        let ghost ms = types_model(args@);
        let mut i: usize = 0;
        assert(ms.take(0) =~= Seq::<TypeModel>::empty());
        assert(out@ =~= old(out)@ + joined_names(ms.take(0), sep@));
        while i < args.len()
            invariant
                i <= args.len(),
                out@ == old(out)@ + joined_names(ms.take(i as int), sep@),
            decreases args.len() - i,
        {
            let ghost before = out@;
            if i > 0 {
                out.append(sep);
            }
            let name = args[i].flat_name();
            out.append(name.as_str());
            proof {
                let next = ms.take(i + 1);
                assert(next.drop_last() =~= ms.take(i as int));
                assert(next.last() == ms[i as int]);
                assert(ms[i as int] == args@[i as int]@);
                if i == 0 {
                    assert(joined_names(ms.take(0), sep@) =~= Seq::<char>::empty());
                    assert(out@ =~= old(out)@ + joined_names(next, sep@));
                } else {
                    assert(out@ =~= old(out)@ + joined_names(next, sep@));
                }
            }
            i += 1;
        }
        assert(ms.take(ms.len() as int) =~= ms);
    }

    /// The short names of some types with `, ` between them.
    pub fn flat_name_args(args: &Vec<AmvmType>) -> (r: String)
        ensures
            r@ == joined_names(types_model(args@), ", "@),
    {
        let mut out = String::new();
        AmvmType::push_names(args, ", ", &mut out);
        assert(out@ =~= joined_names(types_model(args@), ", "@));
        out
    }

    /// Appends the short names of some types with `, ` between them.
    pub fn fmt_args(args: &Vec<AmvmType>, f: &mut String)
        ensures
            final(f)@ == old(f)@ + joined_names(types_model(args@), ", "@),
    {
        AmvmType::push_names(args, ", ", f);
    }

    /// The short name of the type.
    pub fn flat_name(&self) -> (r: String)
        ensures
            r@ == flat_name(self@),
        decreases self, 1nat,
    {
        match self {
            AmvmType::Anonymous => String::from_str("#"),
            AmvmType::Named(name) => {
                let mut out = String::from_str("#");
                out.append(name.as_str());
                out
            },
            AmvmType::Tuple(ts) => {
                let mut out = String::from_str("#(");
                AmvmType::push_names(ts, ",", &mut out);
                out.append(")");
                out
            },
            AmvmType::Union(a, b) => {
                let mut out = a.flat_name();
                let rest = b.flat_name();
                out.append(rest.as_str());
                out
            },
            AmvmType::Fun(args, ret) => {
                let mut out = String::from_str("#Fun(");
                AmvmType::push_names(args, ", ", &mut out);
                out.append(") -> ");
                let rest = ret.flat_name();
                out.append(rest.as_str());
                out
            },
            AmvmType::Primitive(p) => {
                let mut out = String::from_str("#");
                out.append(p.name());
                out
            },
        }
    }
}

/// A parameter as a function's text shows it: kind, name, type.
pub open spec fn parameter_text(p: ParameterModel) -> Seq<char> {
    kind_name(p.1) + " "@ + p.0 + ": "@ + flat_name(p.2)
}

/// Some parameters with `, ` between them.
pub open spec fn parameters_text(ps: Seq<ParameterModel>) -> Seq<char>
    decreases ps.len(),
{
    if ps.len() == 0 {
        Seq::<char>::empty()
    } else if ps.len() == 1 {
        parameter_text(ps[0])
    } else {
        parameters_text(ps.drop_last()) + ", "@ + parameter_text(ps.last())
    }
}

/// The text of a function value: its parameters and its return type.
pub open spec fn signature_text(ps: Seq<ParameterModel>, ret: TypeModel) -> Seq<char> {
    "[Function ("@ + parameters_text(ps) + ") "@ + flat_name(ret) + "]"@
}

/// The text of a function value.
pub open spec fn fun_text(f: FunModel) -> Seq<char> {
    match f {
        FunModel::Native(ps, ret, _) => signature_text(ps, ret),
        FunModel::Const(ps, ret, _) => signature_text(ps, ret),
        FunModel::Mutable(ps, ret, _) => signature_text(ps, ret),
    }
}

/// The names of some fields with `, ` between them.
pub open spec fn field_names(fs: Seq<(Seq<char>, usize)>) -> Seq<char>
    decreases fs.len(),
{
    if fs.len() == 0 {
        Seq::<char>::empty()
    } else if fs.len() == 1 {
        fs[0].0
    } else {
        field_names(fs.drop_last()) + ", "@ + fs.last().0
    }
}

/// The text of an object: a native handle by its number, any other object by
/// its type and the names of its fields.
pub open spec fn object_text(o: ObjectModel) -> Seq<char> {
    match o {
        ObjectModel::Native(h) => "[Object 0x"@ + padded_hex(h as nat, 8) + "]"@,
        ObjectModel::Instance(t, fs) => flat_name(t) + " {"@ + field_names(fs) + "}"@,
        ObjectModel::PropertyMap(fs) => "# {"@ + field_names(fs) + "}"@,
    }
}

/// The text of a value that is no reference.
#[verifier::opaque]
pub open spec fn plain_text(v: ValueModel) -> Seq<char> {
    match v {
        ValueModel::Null => "null"@,
        ValueModel::Char(c) => seq![c],
        ValueModel::String(text) => text,
        ValueModel::Bool(b) => if b {
            "true"@
        } else {
            "false"@
        },
        ValueModel::U8(n) => decimal(n as nat),
        ValueModel::I16(n) => signed_decimal(n as int),
        ValueModel::F32(text) => text,
        ValueModel::Fun(f) => fun_text(f),
        ValueModel::Object(o) => object_text(o),
        ValueModel::Ref(_) => "[Reference]"@,
    }
}

/// The text that stands for a value in a string: that of the value, or of
/// what a reference refers to.
#[verifier::opaque]
pub open spec fn text_of(st: MachineModel, v: ValueModel) -> Seq<char> {
    match v {
        ValueModel::Ref(var) => plain_text(st.read(var)),
        _ => plain_text(v),
    }
}

/// The text that an output writes for a value: as `text_of`, but `undefined`
/// for null.
#[verifier::opaque]
pub open spec fn printed(st: MachineModel, v: ValueModel) -> Seq<char> {
    let shown = match v {
        ValueModel::Ref(var) => st.read(var),
        _ => v,
    };
    match shown {
        ValueModel::Null => "undefined"@,
        _ => plain_text(shown),
    }
}

/// Appends some parameters with `, ` between them.
#[verifier::loop_isolation(false)]
pub fn push_parameters(ps: &Vec<Parameter>, out: &mut String)
    ensures
        final(out)@ == old(out)@ + parameters_text(parameters_model(ps@)),
{
    let ghost ms = parameters_model(ps@);
    let mut i: usize = 0;
    assert(ms.take(0) =~= Seq::<ParameterModel>::empty());
    assert(out@ =~= old(out)@ + parameters_text(ms.take(0)));
    while i < ps.len()
        invariant
            i <= ps.len(),
            out@ == old(out)@ + parameters_text(ms.take(i as int)),
        decreases ps.len() - i,
    {
        if i > 0 {
            out.append(", ");
        }
        let item = &ps[i];
        out.append(item.1.name());
        out.append(" ");
        out.append(item.0.as_str());
        out.append(": ");
        let t = item.2.flat_name();
        out.append(t.as_str());
        proof {
            let next = ms.take(i + 1);
            assert(next.drop_last() =~= ms.take(i as int));
            assert(next.last() == ms[i as int]);
            if i == 0 {
                assert(parameters_text(ms.take(0)) =~= Seq::<char>::empty());
            }
            assert(out@ =~= old(out)@ + parameters_text(next));
        }
        i += 1;
    }
    assert(ms.take(ms.len() as int) =~= ms);
}

/// Appends the names of some fields with `, ` between them.
#[verifier::loop_isolation(false)]
pub fn push_field_names(fs: &Vec<(String, usize)>, out: &mut String)
    ensures
        final(out)@ == old(out)@ + field_names(fields_model(fs@)),
{
    let ghost ms = fields_model(fs@);
    let mut i: usize = 0;
    assert(ms.take(0) =~= Seq::<(Seq<char>, usize)>::empty());
    assert(out@ =~= old(out)@ + field_names(ms.take(0)));
    while i < fs.len()
        invariant
            i <= fs.len(),
            out@ == old(out)@ + field_names(ms.take(i as int)),
        decreases fs.len() - i,
    {
        if i > 0 {
            out.append(", ");
        }
        out.append(fs[i].0.as_str());
        proof {
            let next = ms.take(i + 1);
            assert(next.drop_last() =~= ms.take(i as int));
            assert(next.last() == ms[i as int]);
            if i == 0 {
                assert(field_names(ms.take(0)) =~= Seq::<char>::empty());
            }
            assert(out@ =~= old(out)@ + field_names(next));
        }
        i += 1;
    }
    assert(ms.take(ms.len() as int) =~= ms);
}

impl ValueFun {
    /// The text of the function value.
    pub fn text(&self) -> (r: String)
        ensures
            r@ == fun_text(self@),
    {
        let (ps, ret) = match self {
            ValueFun::Native(ps, ret, _) => (ps, ret),
            ValueFun::Const(ps, ret, _) => (ps, ret),
            ValueFun::Mutable(ps, ret, _) => (ps, ret),
        };
        let mut out = String::from_str("[Function (");
        push_parameters(ps, &mut out);
        out.append(") ");
        let t = ret.flat_name();
        out.append(t.as_str());
        out.append("]");
        out
    }
}

impl ValueObject {
    /// The text of the object.
    pub fn text(&self) -> (r: String)
        ensures
            r@ == object_text(self@),
    {
        match self {
            ValueObject::Native(h) => {
                let mut out = String::from_str("[Object 0x");
                push_hex(&mut out, *h, 8);
                out.append("]");
                out
            },
            ValueObject::Instance(t, fs) => {
                let mut out = t.flat_name();
                out.append(" {");
                push_field_names(fs, &mut out);
                out.append("}");
                out
            },
            ValueObject::PropertyMap(fs) => {
                let mut out = String::from_str("# {");
                push_field_names(fs, &mut out);
                out.append("}");
                out
            },
        }
    }
}

impl Value {
    /// The text of the value; a reference shows as `[Reference]`.
    pub fn to_string_or_default(&self) -> (r: String)
        ensures
            r@ == plain_text(self@),
    {
        reveal(plain_text);
        match self {
            Value::Null => String::from_str("null"),
            Value::Char(c) => char_to_string(*c),
            Value::String(text) => text.clone(),
            Value::Bool(b) => if *b {
                String::from_str("true")
            } else {
                String::from_str("false")
            },
            Value::U8(n) => {
                let mut out = String::new();
                push_decimal(&mut out, *n as u128);
                assert(out@ =~= decimal(*n as nat));
                out
            },
            Value::I16(n) => {
                let mut out = String::new();
                push_signed(&mut out, *n as i64);
                assert(out@ =~= signed_decimal(*n as int));
                out
            },
            Value::F32(text) => text.clone(),
            Value::Fun(f) => f.text(),
            Value::Object(o) => o.text(),
            Value::Ref(_) => String::from_str("[Reference]"),
        }
    }
}

impl Machine {
    /// The text that stands for a value in a string.
    pub fn text_of(&self, v: &Value) -> (r: String)
        ensures
            r@ == text_of(self@, v@),
    {
        reveal(text_of);
        match v {
            Value::Ref(var) => self.read(var).to_string_or_default(),
            _ => v.to_string_or_default(),
        }
    }

    /// The text that an output writes for a value.
    pub fn printed(&self, v: &Value) -> (r: String)
        ensures
            r@ == printed(self@, v@),
    {
        reveal(printed);
        reveal(plain_text);
        match v {
            Value::Ref(var) => {
                let shown = self.read(var);
                match shown {
                    Value::Null => String::from_str("undefined"),
                    _ => shown.to_string_or_default(),
                }
            },
            Value::Null => String::from_str("undefined"),
            _ => v.to_string_or_default(),
        }
    }
}

} // verus!
