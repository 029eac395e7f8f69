use vstd::prelude::*;
use vstd::string::*;
use crate::tokens::types::AmvmType;
use crate::tokens::types::AmvmTypeDefinition;
use crate::tokens::types::DefinitionModel;
use crate::tokens::types::TypeModel;
use crate::tokens::types::generics_model;
use crate::tokens::types::struct_fields_model;
use crate::tokens::types::types_model;

verus! {

/// The definition of the type `Iterator` as the contracts speak of it: a
/// struct over one type `T`, with a `next` that takes the iterator and gives a
/// `T`.
pub open spec fn iterator_definition() -> DefinitionModel {
    DefinitionModel::Struct {
        generics: seq![("T"@, None::<TypeModel>)],
        fields: seq![
            (
                "next"@,
                TypeModel::Fun(
                    seq![TypeModel::Named("Iterator"@)],
                    Box::new(TypeModel::Named("T"@)),
                ),
            ),
        ],
    }
}

/// The definition of the type `Iterator`, which every machine knows.
pub fn amvm_iterator_type() -> (r: AmvmTypeDefinition)
    ensures
        r@ == iterator_definition(),
{
    let mut generics: Vec<(String, Option<AmvmType>)> = Vec::new();
    generics.push((String::from_str("T"), None));
    let mut takes: Vec<AmvmType> = Vec::new();
    let taken = AmvmType::Named(String::from_str("Iterator"));
    assert(taken@ == TypeModel::Named("Iterator"@));
    takes.push(taken);
    assert(types_model(takes@) =~= seq![TypeModel::Named("Iterator"@)]);
    let gives = AmvmType::Named(String::from_str("T"));
    assert(gives@ == TypeModel::Named("T"@));
    let next = AmvmType::Fun(takes, Box::new(gives));
    assert(next@ == TypeModel::Fun(
        seq![TypeModel::Named("Iterator"@)],
        Box::new(TypeModel::Named("T"@)),
    ));
    let mut fields: Vec<(String, AmvmType)> = Vec::new();
    fields.push((String::from_str("next"), next));
    assert(generics_model(generics@) =~= seq![("T"@, None::<TypeModel>)]);
    assert(struct_fields_model(fields@) =~= seq![("next"@, next@)]);
    AmvmTypeDefinition::Struct { generics, fields }
}

} // verus!
