use vstd::prelude::*;
use crate::classify::{build_schema_doc, doc_spec};
use crate::composition::{
    all_of_spec, any_of_nullable, any_of_spec, expand_all_of, expand_any_of, expand_string,
    string_spec,
};
use crate::definition::{
    definition_views, AliasTarget, AliasTargetView, Body, BodyView, Definition, DefinitionView,
};
use crate::error::{Error, ErrorView};
use crate::naming::{ident_spec, to_ident, type_ident, type_ident_spec};
use crate::object::{expand_object, object_spec};
use crate::reference::{parse_reference, parse_reference_spec};
use crate::registry::NullableRegistry;
use crate::schema::{ArrayType, ReferenceOr, Schema, SchemaKind};
use crate::text::{clone_texts, texts};

verus! {

/// What the expansion of one schema adds: definitions, in the order in which
/// they are emitted, and names for the registry.
pub struct Emission {
    pub definitions: Seq<DefinitionView>,
    pub nullable: Set<Seq<char>>,
}

/// The emission that adds nothing.
pub open spec fn nothing() -> Emission {
    Emission { definitions: Seq::<DefinitionView>::empty(), nullable: Set::<Seq<char>>::empty() }
}

/// The emission of one definition, with `nullable` for the registry.
pub open spec fn emit(definition: Result<DefinitionView, ErrorView>, nullable: Set<Seq<char>>) -> Result<
    Emission,
    ErrorView,
> {
    match definition {
        Ok(d) => Ok(Emission { definitions: seq![d], nullable }),
        Err(e) => Err(e),
    }
}

/// The name of the type synthesized for the inline items of the array `ident`.
pub open spec fn item_name_spec(ident: Seq<char>) -> Seq<char> {
    ident + "Item"@
}

/// The alias of `ident` to a sequence of `item`.
pub open spec fn sequence_alias(doc: Seq<Seq<char>>, ident: Seq<char>, item: Seq<char>) -> DefinitionView {
    DefinitionView {
        doc,
        ident,
        body: BodyView::Alias { target: AliasTargetView::Sequence { item } },
    }
}

/// The alias of `ident` to the boolean primitive.
pub open spec fn boolean_alias(doc: Seq<Seq<char>>, ident: Seq<char>) -> DefinitionView {
    DefinitionView { doc, ident, body: BodyView::Alias { target: AliasTargetView::Boolean } }
}

/// What an array schema adds. With referenced items it is an alias to a
/// sequence of the referenced type. With inline items, the type
/// `<ident>Item` is expanded from the item schema first, and the alias to a
/// sequence of it follows. Without items it is nothing.
pub open spec fn array_spec(ident: Seq<char>, doc: Seq<Seq<char>>, array: ArrayType) -> Result<
    Emission,
    ErrorView,
>
    decreases array,
{
    match array.items {
        None => Ok(nothing()),
        Some(items) => match *items {
            ReferenceOr::Reference { reference } => match parse_reference_spec(reference@) {
                Err(e) => Err(e),
                Ok(target) => match ident_spec(target) {
                    Err(e) => Err(e),
                    Ok(item) => Ok(
                        Emission {
                            definitions: seq![sequence_alias(doc, ident, item)],
                            nullable: Set::<Seq<char>>::empty(),
                        },
                    ),
                },
            },
            ReferenceOr::Item(inner) => match ident_spec(item_name_spec(ident)) {
                Err(e) => Err(e),
                Ok(item) => match expand_schema_spec(item_name_spec(ident), inner) {
                    Err(e) => Err(e),
                    Ok(first) => Ok(
                        Emission {
                            definitions: first.definitions.push(sequence_alias(doc, ident, item)),
                            nullable: first.nullable,
                        },
                    ),
                },
            },
        },
    }
}

/// What the schema called `name` adds, by its kind: a sum type for a string
/// with constants or a union, a product type for an object or an
/// intersection, an alias for a string without constants, a boolean or an
/// array, and nothing for any other kind. A schema of no single kind is a
/// union where it has branches.
pub open spec fn expand_schema_spec(name: Seq<char>, schema: Schema) -> Result<Emission, ErrorView>
    decreases schema,
{
    match type_ident_spec(name) {
        Err(e) => Err(e),
        Ok(ident) => {
            let doc = doc_spec(schema.data);
            let none = Set::<Seq<char>>::empty();
            match schema.kind {
                SchemaKind::String(string) => emit(string_spec(ident, doc, string), none),
                SchemaKind::Object(object) => emit(object_spec(ident, doc, object), none),
                SchemaKind::Array(array) => array_spec(ident, doc, array),
                SchemaKind::Boolean => Ok(
                    Emission { definitions: seq![boolean_alias(doc, ident)], nullable: none },
                ),
                SchemaKind::AnyOf { any_of } => emit(
                    any_of_spec(name, doc, any_of@),
                    any_of_nullable(name, any_of@),
                ),
                SchemaKind::AllOf { all_of } => emit(all_of_spec(ident, all_of@), none),
                SchemaKind::Any(any) => if any.any_of@.len() > 0 {
                    emit(any_of_spec(name, doc, any.any_of@), any_of_nullable(name, any.any_of@))
                } else {
                    Ok(nothing())
                },
                _ => Ok(nothing()),
            }
        },
    }
}

/// Whether the accumulators after a step hold what they held before and what
/// the step adds; after a failed step they are unchanged.
pub open spec fn expanded(
    outcome: Result<Emission, ErrorView>,
    res: Result<(), Error>,
    before: (Vec<Definition>, NullableRegistry),
    after: (Vec<Definition>, NullableRegistry),
) -> bool {
    match outcome {
        Ok(emission) => {
            &&& res is Ok
            &&& definition_views(after.0@) == definition_views(before.0@) + emission.definitions
            &&& after.1@ == before.1@.union(emission.nullable)
        },
        Err(e) => {
            &&& res is Err
            &&& res->Err_0@ == e
            &&& after == before
        },
    }
}

/// Emits what an array schema adds: the synthesized item type first, where
/// the items are inline, then the alias to a sequence.
pub fn expand_array(
    outputs: &mut Vec<Definition>,
    nullable: &mut NullableRegistry,
    ident: &str,
    doc: &Vec<String>,
    array: &ArrayType,
) -> (res: Result<(), Error>)
    ensures
        expanded(
            array_spec(ident@, texts(doc@), *array),
            res,
            (*old(outputs), *old(nullable)),
            (*final(outputs), *final(nullable)),
        ),
    decreases array,
{
    let ghost start = definition_views(outputs@);
    let ghost held = nullable@;
    match &array.items {
        None => {
            assert(start + Seq::<DefinitionView>::empty() =~= start);
            assert(held.union(Set::<Seq<char>>::empty()) =~= held);
            Ok(())
        },
        Some(items) => {
            let item = match &**items {
                ReferenceOr::Reference { reference } => {
                    let target = match parse_reference(reference.as_str()) {
                        Ok(target) => target,
                        Err(e) => {
                            return Err(e);
                        },
                    };
                    let item = match to_ident(target) {
                        Ok(item) => item,
                        Err(e) => {
                            return Err(e);
                        },
                    };
                    assert(start + Seq::<DefinitionView>::empty() =~= start);
                    assert(held.union(Set::<Seq<char>>::empty()) =~= held);
                    item
                },
                ReferenceOr::Item(inner) => {
                    let item_name = String::from_str(ident).concat("Item");
                    let item = match to_ident(item_name.as_str()) {
                        Ok(item) => item,
                        Err(e) => {
                            return Err(e);
                        },
                    };
                    match expand_schema(outputs, nullable, item_name.as_str(), inner) {
                        Ok(()) => {},
                        Err(e) => {
                            return Err(e);
                        },
                    }
                    item
                },
            };
            let ghost before = definition_views(outputs@);
            let definition = Definition {
                doc: clone_texts(doc),
                ident: ident.to_owned(),
                body: Body::Alias { target: AliasTarget::Sequence { item } },
            };
            outputs.push(definition);
            assert(definition_views(outputs@) =~= before.push(definition@));
            assert(before.push(definition@) =~= before + seq![definition@]);
            proof {
                if (**items) is Item {
                    let first = expand_schema_spec(
                        item_name_spec(ident@),
                        (**items)->Item_0,
                    )->Ok_0;
                    assert((start + first.definitions).push(definition@) =~= start
                        + first.definitions.push(definition@));
                } else {
                    assert(start + seq![definition@] =~= (start + Seq::<
                        DefinitionView,
                    >::empty()).push(definition@));
                }
            }
            Ok(())
        },
    }
}

/// Emits what the schema called `schema_name` adds, by its kind, and enters
/// into the registry the names of the unions among them that have a null
/// branch. On an error nothing is emitted and nothing is entered.
pub fn expand_schema(
    outputs: &mut Vec<Definition>,
    nullable: &mut NullableRegistry,
    schema_name: &str,
    schema: &Schema,
) -> (res: Result<(), Error>)
    ensures
        expanded(
            expand_schema_spec(schema_name@, *schema),
            res,
            (*old(outputs), *old(nullable)),
            (*final(outputs), *final(nullable)),
        ),
    decreases schema,
{
    let ident = match type_ident(schema_name) {
        Ok(ident) => ident,
        Err(e) => {
            return Err(e);
        },
    };
    let doc = build_schema_doc(schema);
    let ghost start = definition_views(outputs@);
    let ghost held = nullable@;
    proof {
        assert(start + Seq::<DefinitionView>::empty() =~= start);
        assert(held.union(Set::<Seq<char>>::empty()) =~= held);
        assert forall|d: DefinitionView| start.push(d) =~= start + seq![d] by {}
    }
    match &schema.kind {
        SchemaKind::String(string) => expand_string(outputs, ident.as_str(), &doc, string),
        SchemaKind::Object(object) => expand_object(outputs, object, ident.as_str(), doc),
        SchemaKind::Array(array) => expand_array(outputs, nullable, ident.as_str(), &doc, array),
        SchemaKind::Boolean => {
            let definition = Definition {
                doc,
                ident,
                body: Body::Alias { target: AliasTarget::Boolean },
            };
            outputs.push(definition);
            assert(definition_views(outputs@) =~= start.push(definition@));
            Ok(())
        },
        SchemaKind::AnyOf { any_of } => expand_any_of(outputs, nullable, schema_name, doc, any_of),
        SchemaKind::AllOf { all_of } => expand_all_of(outputs, ident.as_str(), all_of),
        SchemaKind::Any(any) => {
            if any.any_of.len() > 0 {
                expand_any_of(outputs, nullable, schema_name, doc, &any.any_of)
            } else {
                Ok(())
            }
        },
        _ => Ok(()),
    }
}

} // verus!
