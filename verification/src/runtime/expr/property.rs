use vstd::prelude::*;
use vstd::string::*;
use vstd::utf8::*;
use crate::runtime::error::AmvmFault;
use crate::runtime::machine::Machine;
use crate::runtime::machine::MachineModel;
use crate::runtime::result::AmvmPropagate;
use crate::runtime::result::AmvmResult;
use crate::runtime::result::Outcome;
use crate::runtime::result::outcome_model;
use crate::runtime::result::raise;
use crate::runtime::table::entry_keys;
use crate::runtime::table::find_entry;
use crate::runtime::table::lookup;
use crate::runtime::table::model_keys;
use crate::runtime::text::char_to_string;
use crate::tokens::scope::AmvmScope;
use crate::tokens::scope::ScopeModel;
use crate::tokens::value::AmvmVariable;
use crate::tokens::value::ObjectModel;
use crate::tokens::value::Value;
use crate::tokens::value::ValueModel;
use crate::tokens::value::ValueObject;
use crate::tokens::value::VariableModel;
use crate::tokens::value::fields_model;
use crate::utils::text_eq;

verus! {

/// A property of a string: `length` is the number of its bytes, cut to eight
/// bits; a number is the character at that place, or null where there is
/// none; any other name is null.
#[verifier::opaque]
pub open spec fn string_property(sc: ScopeModel, s: Seq<char>, prop: ValueModel) -> Outcome<
    ValueModel,
> {
    match prop {
        ValueModel::String(p) => if p == "length"@ {
            Ok(ValueModel::U8((encode_utf8(s).len() % 256) as u8))
        } else {
            Ok(ValueModel::Null)
        },
        ValueModel::U8(i) => if i < s.len() {
            Ok(ValueModel::String(seq![s[i as int]]))
        } else {
            Ok(ValueModel::Null)
        },
        _ => raise(sc, AmvmFault::TypeMismatch),
    }
}

/// The fields of an object; nothing for a native handle.
pub open spec fn object_fields(o: ObjectModel) -> Option<Seq<(Seq<char>, usize)>> {
    match o {
        ObjectModel::Native(_) => None,
        ObjectModel::Instance(_, fs) => Some(fs),
        ObjectModel::PropertyMap(fs) => Some(fs),
    }
}

/// The value of a field of an object: null where the object has no such
/// field.
#[verifier::opaque]
pub open spec fn object_property(st: MachineModel, sc: ScopeModel, o: ObjectModel, prop: ValueModel) -> Outcome<
    ValueModel,
> {
    match object_fields(o) {
        None => raise(sc, AmvmFault::NativeObject),
        Some(fs) => match prop {
            ValueModel::String(name) => match lookup(fs, name) {
                Some(c) => Ok(st.cell(c)),
                None => Ok(ValueModel::Null),
            },
            _ => raise(sc, AmvmFault::ObjectKeyNotString),
        },
    }
}

/// The property `prop` of the value `var`.
#[verifier::opaque]
pub open spec fn get_property(st: MachineModel, sc: ScopeModel, var: ValueModel, prop: ValueModel) -> Outcome<
    ValueModel,
> {
    match var {
        ValueModel::String(s) => string_property(sc, s, prop),
        ValueModel::Object(o) => object_property(st, sc, o, prop),
        _ => raise(sc, AmvmFault::TypeMismatch),
    }
}

/// A binding that shares the storage of a field of the object that the
/// binding `var` holds. The binding must be mutable, what it holds an object
/// with that field.
#[verifier::opaque]
pub open spec fn mut_access(st: MachineModel, sc: ScopeModel, var: VariableModel, field: ValueModel) -> Outcome<
    VariableModel,
> {
    if !var.mutable() {
        raise(sc, AmvmFault::NotMutable)
    } else {
        match st.read(var) {
            ValueModel::Object(o) => match object_fields(o) {
                None => raise(sc, AmvmFault::NativeObject),
                Some(fs) => match field {
                    ValueModel::String(name) => match lookup(fs, name) {
                        Some(c) => Ok(VariableModel::Mut(c)),
                        None => raise(sc, AmvmFault::PropertyNotFound),
                    },
                    _ => raise(sc, AmvmFault::ObjectKeyNotString),
                },
            },
            _ => raise(sc, AmvmFault::NotAnObject),
        }
    }
}

impl ValueObject {
    /// The fields of the object; nothing for a native handle.
    pub fn fields(&self) -> (r: Option<&Vec<(String, usize)>>)
        ensures
            match r {
                Some(fs) => object_fields(self@) == Some(fields_model(fs@)),
                None => object_fields(self@) == None::<Seq<(Seq<char>, usize)>>,
            },
    {
        match self {
            ValueObject::Native(_) => None,
            ValueObject::Instance(_, fs) => Some(fs),
            ValueObject::PropertyMap(fs) => Some(fs),
        }
    }
}

/// The storage cell of the field `name`.
pub fn field_cell(fs: &Vec<(String, usize)>, name: &str) -> (r: Option<usize>)
    ensures
        r == lookup(fields_model(fs@), name@),
{
    assert(model_keys(fields_model(fs@)) =~= entry_keys(fs@));
    match find_entry(fs, name) {
        Some(i) => Some(fs[i].1),
        None => None,
    }
}

/// A property of a string.
pub fn get_of_string(scope: &AmvmScope, s: &String, property: &Value) -> (r: AmvmResult)
    ensures
        outcome_model(r) == string_property(scope@, s@, property@),
{
    reveal(string_property);
    match property {
        Value::String(p) => {
            if text_eq(p.as_str(), "length") {
                let n = s.as_str().as_bytes().len();
                Ok(Value::U8((n % 256) as u8))
            } else {
                Ok(Value::Null)
            }
        },
        Value::U8(i) => {
            let n = s.as_str().unicode_len();
            if (*i as usize) < n {
                Ok(Value::String(char_to_string(s.as_str().get_char(*i as usize))))
            } else {
                Ok(Value::Null)
            }
        },
        _ => Err(scope.fail(AmvmFault::TypeMismatch)),
    }
}

/// The value of a field of an object.
pub fn get_of_object(vm: &Machine, scope: &AmvmScope, o: &ValueObject, property: &Value) -> (r:
    AmvmResult)
    ensures
        outcome_model(r) == object_property(vm@, scope@, o@, property@),
{
    reveal(object_property);
    match o.fields() {
        None => Err(scope.fail(AmvmFault::NativeObject)),
        Some(fs) => match property {
            Value::String(name) => match field_cell(fs, name.as_str()) {
                Some(c) => Ok(vm.read_cell(c)),
                None => Ok(Value::Null),
            },
            _ => Err(scope.fail(AmvmFault::ObjectKeyNotString)),
        },
    }
}

/// The property `property` of the value `var`.
pub fn get(vm: &Machine, scope: &AmvmScope, var: &Value, property: &Value) -> (r: AmvmResult)
    ensures
        outcome_model(r) == get_property(vm@, scope@, var@, property@),
{
    reveal(get_property);
    match var {
        Value::String(s) => get_of_string(scope, s, property),
        Value::Object(o) => get_of_object(vm, scope, o, property),
        _ => Err(scope.fail(AmvmFault::TypeMismatch)),
    }
}

/// The model of the outcome of a function that gives a binding.
pub open spec fn variable_outcome(r: Result<AmvmVariable, AmvmPropagate>) -> Outcome<VariableModel> {
    match r {
        Ok(v) => Ok(v@),
        Err(p) => Err(p@),
    }
}

/// A binding that shares the storage of a field of the object that `var`
/// holds.
pub fn access_field(vm: &Machine, scope: &AmvmScope, var: &AmvmVariable, field: &Value) -> (r: Result<
    AmvmVariable,
    AmvmPropagate,
>)
    ensures
        variable_outcome(r) == mut_access(vm@, scope@, var@, field@),
{
    reveal(mut_access);
    if !var.is_mutable() {
        return Err(scope.fail(AmvmFault::NotMutable));
    }
    let held = vm.read(var);
    match &held {
        Value::Object(o) => match o.fields() {
            None => Err(scope.fail(AmvmFault::NativeObject)),
            Some(fs) => match field {
                Value::String(name) => match field_cell(fs, name.as_str()) {
                    Some(c) => Ok(AmvmVariable::Mut(c)),
                    None => Err(scope.fail(AmvmFault::PropertyNotFound)),
                },
                _ => Err(scope.fail(AmvmFault::ObjectKeyNotString)),
            },
        },
        _ => Err(scope.fail(AmvmFault::NotAnObject)),
    }
}

} // verus!
