use vstd::prelude::*;
use crate::classify::{build_schema_doc, doc_spec, is_null_object, is_null_spec};
use crate::collect::{
    collect, collect_from, lemma_collect_end, lemma_collect_start, lemma_collect_step,
};
use crate::definition::{
    definition_views, field_views, variant_views, AliasTarget, AliasTargetView, Body, BodyView,
    Definition, DefinitionView, Field, FieldView, Variant, VariantView,
};
use crate::error::{Error, ErrorView};
use crate::naming::{
    format_struct_name, format_variant_name, ident_spec, snake_case, struct_name_spec, to_ident,
    to_snake, to_type, type_ident, type_ident_spec, type_spec, variant_name_spec,
};
use crate::reference::{parse_reference, parse_reference_spec};
use crate::registry::NullableRegistry;
use crate::schema::{ReferenceOr, SchemaKind, StringType};
use crate::text::{append_texts, texts};

verus! {

/// The variant for one enumerated constant: a bare tag that keeps the
/// constant as its wire string, and for an explicit null the bare variant
/// that stands for null. Every constant has its variant.
pub open spec fn constant_variant(constant: Option<String>) -> Result<Seq<VariantView>, ErrorView> {
    match constant {
        None => Ok(seq![VariantView::Null]),
        Some(tag) => match variant_name_spec(tag@) {
            Ok(ident) => Ok(seq![VariantView::Unit { ident, rename: tag@ }]),
            Err(e) => Err(e),
        },
    }
}

/// The steps that turn enumerated constants into variants, one for each.
pub open spec fn constant_steps(enumeration: Seq<Option<String>>) -> Seq<
    Result<Seq<VariantView>, ErrorView>,
> {
    enumeration.map_values(|c: Option<String>| constant_variant(c))
}

/// The variants for an enumeration, in the order of its constants.
pub open spec fn enum_variants_spec(enumeration: Seq<Option<String>>) -> Result<
    Seq<VariantView>,
    ErrorView,
> {
    collect(constant_steps(enumeration))
}

/// The definition for a string schema: with constants, the sum type of
/// their variants; without, the alias to free-form text.
pub open spec fn string_spec(ident: Seq<char>, doc: Seq<Seq<char>>, string: StringType) -> Result<
    DefinitionView,
    ErrorView,
> {
    if string.enumeration@.len() == 0 {
        Ok(DefinitionView { doc, ident, body: BodyView::Alias { target: AliasTargetView::Text } })
    } else {
        match enum_variants_spec(string.enumeration@) {
            Err(e) => Err(e),
            Ok(variants) => Ok(DefinitionView { doc, ident, body: BodyView::Sum { variants } }),
        }
    }
}

/// Whether a branch is an inline string schema with constants, which is
/// flattened into the enclosing sum type.
pub open spec fn is_flattened_enum(branch: ReferenceOr) -> bool {
    match branch {
        ReferenceOr::Item(item) => !is_null_spec(item) && match item.kind {
            SchemaKind::String(string) => string.enumeration@.len() > 0,
            _ => false,
        },
        ReferenceOr::Reference { .. } => false,
    }
}

/// Whether a branch is the inline null type.
pub open spec fn is_null_branch(branch: ReferenceOr) -> bool {
    match branch {
        ReferenceOr::Item(item) => is_null_spec(item),
        ReferenceOr::Reference { .. } => false,
    }
}

/// Whether one of the branches is the inline null type.
pub open spec fn has_null_branch(branches: Seq<ReferenceOr>) -> bool {
    exists|i: int| 0 <= i < branches.len() && is_null_branch(#[trigger] branches[i])
}

/// The variant that carries the referenced type.
pub open spec fn reference_variant(reference: Seq<char>) -> Result<Seq<VariantView>, ErrorView> {
    match parse_reference_spec(reference) {
        Err(e) => Err(e),
        Ok(target) => match ident_spec(struct_name_spec(target)) {
            Err(e) => Err(e),
            Ok(ident) => match type_spec(struct_name_spec(target)) {
                Err(e) => Err(e),
                Ok(ty) => Ok(seq![VariantView::Newtype { ident, ty }]),
            },
        },
    }
}

/// The variants that one branch of a union adds: the constants of a flattened
/// enumeration, one carrying variant for a reference, and none for a null
/// branch or any other inline schema.
pub open spec fn branch_variants(branch: ReferenceOr) -> Result<Seq<VariantView>, ErrorView> {
    match branch {
        ReferenceOr::Item(item) => if is_flattened_enum(branch) {
            enum_variants_spec(item.kind->String_0.enumeration@)
        } else {
            Ok(Seq::<VariantView>::empty())
        },
        ReferenceOr::Reference { reference } => reference_variant(reference@),
    }
}

/// The documentation that one branch of a union adds: that of a flattened
/// enumeration.
pub open spec fn branch_doc(branch: ReferenceOr) -> Seq<Seq<char>> {
    if is_flattened_enum(branch) {
        doc_spec(branch->Item_0.data)
    } else {
        Seq::<Seq<char>>::empty()
    }
}

/// The steps that turn branches into variants, one for each.
pub open spec fn branch_steps(branches: Seq<ReferenceOr>) -> Seq<
    Result<Seq<VariantView>, ErrorView>,
> {
    branches.map_values(|b: ReferenceOr| branch_variants(b))
}

/// The documentation that the branches add, in their order.
pub open spec fn branches_doc(branches: Seq<ReferenceOr>) -> Seq<Seq<char>> {
    branches.map_values(|b: ReferenceOr| branch_doc(b)).flatten()
}

/// The sum type for a union: the variants of all branches in branch order,
/// under the schema's own documentation followed by that of the flattened
/// enumerations.
pub open spec fn any_of_spec(
    schema_name: Seq<char>,
    doc: Seq<Seq<char>>,
    branches: Seq<ReferenceOr>,
) -> Result<DefinitionView, ErrorView> {
    match collect(branch_steps(branches)) {
        Err(e) => Err(e),
        Ok(variants) => match type_ident_spec(schema_name) {
            Err(e) => Err(e),
            Ok(ident) => Ok(
                DefinitionView {
                    doc: doc + branches_doc(branches),
                    ident,
                    body: BodyView::Sum { variants },
                },
            ),
        },
    }
}

/// The names that a union enters into the registry: its own, where it has a
/// null branch.
pub open spec fn any_of_nullable(schema_name: Seq<char>, branches: Seq<ReferenceOr>) -> Set<
    Seq<char>,
> {
    if has_null_branch(branches) {
        set![schema_name]
    } else {
        Set::<Seq<char>>::empty()
    }
}

/// The flattened field for a referenced type called `name`, given its
/// snake-case form.
pub open spec fn flattened_field_spec(name: Seq<char>, snake: Seq<char>) -> Result<
    Seq<FieldView>,
    ErrorView,
> {
    match ident_spec(snake) {
        Err(e) => Err(e),
        Ok(ident) => match type_spec(name) {
            Err(e) => Err(e),
            Ok(ty) => Ok(
                seq![
                    FieldView {
                        name: snake,
                        ident,
                        ty,
                        nullable: false,
                        with: None,
                        flatten: true,
                        doc: Seq::<Seq<char>>::empty(),
                    },
                ],
            ),
        },
    }
}

/// The field that one branch of an intersection adds: a reference gives a
/// flattened field of the referenced type, named by its snake-case form; an
/// inline schema gives none.
pub open spec fn branch_field(branch: ReferenceOr) -> Result<Seq<FieldView>, ErrorView> {
    match branch {
        ReferenceOr::Item(_) => Ok(Seq::<FieldView>::empty()),
        ReferenceOr::Reference { reference } => match parse_reference_spec(reference@) {
            Err(e) => Err(e),
            Ok(target) => flattened_field_spec(
                struct_name_spec(target),
                snake_case(struct_name_spec(target)),
            ),
        },
    }
}

/// The steps that turn branches into fields, one for each.
pub open spec fn field_steps(branches: Seq<ReferenceOr>) -> Seq<Result<Seq<FieldView>, ErrorView>> {
    branches.map_values(|b: ReferenceOr| branch_field(b))
}

/// The product type for an intersection: the fields of all branches in
/// branch order, without documentation.
pub open spec fn all_of_spec(ident: Seq<char>, branches: Seq<ReferenceOr>) -> Result<
    DefinitionView,
    ErrorView,
> {
    match collect(field_steps(branches)) {
        Err(e) => Err(e),
        Ok(fields) => Ok(
            DefinitionView {
                doc: Seq::<Seq<char>>::empty(),
                ident,
                body: BodyView::Product { fields },
            },
        ),
    }
}

/// The variants for an enumeration, in the order of its constants.
pub fn enum_variants(enumeration: &Vec<Option<String>>) -> (res: Result<Vec<Variant>, Error>)
    ensures
        match enum_variants_spec(enumeration@) {
            Ok(variants) => res is Ok && variant_views(res->Ok_0@) == variants,
            Err(e) => res is Err && res->Err_0@ == e,
        },
{
    let ghost steps = constant_steps(enumeration@);
    let mut variants: Vec<Variant> = Vec::new();
    let mut i: usize = 0;
    proof {
        lemma_collect_start(steps);
        assert(variant_views(variants@) =~= Seq::<VariantView>::empty());
    }
    while i < enumeration.len()
        invariant
            i <= enumeration@.len(),
            steps == constant_steps(enumeration@),
            collect_from(variant_views(variants@), steps, i as int) == collect(steps),
        decreases enumeration.len() - i,
    {
        proof {
            lemma_collect_step(variant_views(variants@), steps, i as int);
        }
        let ghost before = variant_views(variants@);
        match &enumeration[i] {
            Some(tag) => match format_variant_name(tag.as_str()) {
                Ok(ident) => {
                    let variant = Variant::Unit { ident, rename: tag.clone() };
                    variants.push(variant);
                    assert(variant_views(variants@) =~= before + seq![variant@]);
                },
                Err(e) => {
                    return Err(e);
                },
            },
            None => {
                variants.push(Variant::Null);
                assert(variant_views(variants@) =~= before + seq![VariantView::Null]);
            },
        }
        i = i + 1;
    }
    proof {
        lemma_collect_end(variant_views(variants@), steps);
    }
    Ok(variants)
}

/// Emits the definition for a string schema. With enumerated constants it is
/// a sum type: one bare variant for each constant, in order, each with the
/// constant as its wire string, and the variant `Null` for an explicit null.
/// Without constants it is the alias to free-form text. Nothing is emitted
/// where a constant gives no identifier.
pub fn expand_string(
    outputs: &mut Vec<Definition>,
    ident: &str,
    doc: &Vec<String>,
    string: &StringType,
) -> (res: Result<(), Error>)
    ensures
        match string_spec(ident@, texts(doc@), *string) {
            Ok(definition) => res is Ok && definition_views(final(outputs)@) == definition_views(
                old(outputs)@,
            ).push(definition),
            Err(e) => res is Err && res->Err_0@ == e && *final(outputs) == *old(outputs),
        },
{
    let ghost before = definition_views(outputs@);
    let body = if string.enumeration.len() == 0 {
        Body::Alias { target: AliasTarget::Text }
    } else {
        match enum_variants(&string.enumeration) {
            Ok(variants) => Body::Sum { variants },
            Err(e) => {
                return Err(e);
            },
        }
    };
    let definition = Definition { doc: crate::text::clone_texts(doc), ident: ident.to_owned(), body };
    outputs.push(definition);
    assert(definition_views(outputs@) =~= before.push(definition@));
    Ok(())
}

/// The variant that carries the referenced type.
pub fn reference_variant_of(reference: &str) -> (res: Result<Variant, Error>)
    ensures
        match reference_variant(reference@) {
            Ok(variants) => res is Ok && variants == seq![res->Ok_0@],
            Err(e) => res is Err && res->Err_0@ == e,
        },
{
    let target = match parse_reference(reference) {
        Ok(target) => target,
        Err(e) => {
            return Err(e);
        },
    };
    let name = format_struct_name(target);
    let ident = match to_ident(name.as_str()) {
        Ok(ident) => ident,
        Err(e) => {
            return Err(e);
        },
    };
    match to_type(name) {
        Ok(ty) => Ok(Variant::Newtype { ident, ty }),
        Err(e) => Err(e),
    }
}

/// Whether a branch is an inline string schema with constants.
pub fn flattened_enum(branch: &ReferenceOr) -> (flattened: bool)
    ensures
        flattened == is_flattened_enum(*branch),
{
    match branch {
        ReferenceOr::Item(item) => !is_null_object(item) && match &item.kind {
            SchemaKind::String(string) => string.enumeration.len() > 0,
            _ => false,
        },
        ReferenceOr::Reference { .. } => false,
    }
}

/// Moves the variants `more` to the end of `out`.
pub fn append_variants(out: &mut Vec<Variant>, more: Vec<Variant>)
    ensures
        variant_views(final(out)@) == variant_views(old(out)@) + variant_views(more@),
{
    let mut more = more;
    let ghost start = out@;
    let ghost added = more@;
    out.append(&mut more);
    assert(out@ == start + added);
    assert(variant_views(out@) =~= variant_views(start) + variant_views(added));
}

/// Emits the sum type for a union and enters the schema's name into the
/// registry where a branch is the null type.
///
/// The variants are those of all branches in branch order: the constants of
/// an inline enumeration, flattened, and one carrying variant for each
/// reference. A null branch and any other inline schema add no variant. On
/// an error nothing is emitted and nothing is entered.
pub fn expand_any_of(
    outputs: &mut Vec<Definition>,
    nullable: &mut NullableRegistry,
    schema_name: &str,
    attrs: Vec<String>,
    any_of: &Vec<ReferenceOr>,
) -> (res: Result<(), Error>)
    ensures
        match any_of_spec(schema_name@, texts(attrs@), any_of@) {
            Ok(definition) => {
                &&& res is Ok
                &&& definition_views(final(outputs)@) == definition_views(old(outputs)@).push(
                    definition,
                )
                &&& final(nullable)@ == old(nullable)@.union(
                    any_of_nullable(schema_name@, any_of@),
                )
            },
            Err(e) => {
                &&& res is Err
                &&& res->Err_0@ == e
                &&& *final(outputs) == *old(outputs)
                &&& *final(nullable) == *old(nullable)
            },
        },
{
    let ghost steps = branch_steps(any_of@);
    let ghost docs = any_of@.map_values(|b: ReferenceOr| branch_doc(b));
    let ghost own = texts(attrs@);
    let mut attrs = attrs;
    let mut variants: Vec<Variant> = Vec::new();
    let mut found_null = false;
    let mut i: usize = 0;
    proof {
        lemma_collect_start(steps);
        assert(variant_views(variants@) =~= Seq::<VariantView>::empty());
        assert(docs.subrange(0, 0) =~= Seq::<Seq<Seq<char>>>::empty());
        assert(own + docs.subrange(0, 0).flatten() =~= own);
    }
    while i < any_of.len()
        invariant
            i <= any_of@.len(),
            steps == branch_steps(any_of@),
            docs == any_of@.map_values(|b: ReferenceOr| branch_doc(b)),
            collect_from(variant_views(variants@), steps, i as int) == collect(steps),
            texts(attrs@) == own + docs.subrange(0, i as int).flatten(),
            found_null <==> exists|j: int| 0 <= j < i && is_null_branch(#[trigger] any_of@[j]),
            *nullable == *old(nullable),
            *outputs == *old(outputs),
        decreases any_of.len() - i,
    {
        proof {
            lemma_collect_step(variant_views(variants@), steps, i as int);
            assert(docs.subrange(0, i + 1) =~= docs.subrange(0, i as int).push(docs[i as int]));
            docs.subrange(0, i as int).lemma_flatten_push(docs[i as int]);
        }
        let ghost before = variant_views(variants@);
        let ghost before_doc = texts(attrs@);
        match &any_of[i] {
            ReferenceOr::Item(item) => {
                if is_null_object(item) {
                    found_null = true;
                    assert(before + Seq::<VariantView>::empty() =~= before);
                    assert(before_doc + Seq::<Seq<char>>::empty() =~= before_doc);
                } else if flattened_enum(&any_of[i]) {
                    match &item.kind {
                        SchemaKind::String(string) => {
                            match enum_variants(&string.enumeration) {
                                Ok(more) => {
                                    append_texts(&mut attrs, build_schema_doc(item));
                                    append_variants(&mut variants, more);
                                },
                                Err(e) => {
                                    return Err(e);
                                },
                            }
                        },
                        _ => {},
                    }
                } else {
                    assert(before + Seq::<VariantView>::empty() =~= before);
                    assert(before_doc + Seq::<Seq<char>>::empty() =~= before_doc);
                }
            },
            ReferenceOr::Reference { reference } => {
                match reference_variant_of(reference.as_str()) {
                    Ok(variant) => {
                        variants.push(variant);
                        assert(variant_views(variants@) =~= before + seq![variant@]);
                        assert(before_doc + Seq::<Seq<char>>::empty() =~= before_doc);
                    },
                    Err(e) => {
                        return Err(e);
                    },
                }
            },
        }
        assert(texts(attrs@) =~= own + (docs.subrange(0, i as int).flatten() + docs[i as int]));
        i = i + 1;
    }
    proof {
        lemma_collect_end(variant_views(variants@), steps);
        assert(docs.subrange(0, any_of@.len() as int) =~= docs);
        assert(found_null == has_null_branch(any_of@));
    }
    let ident = match type_ident(schema_name) {
        Ok(ident) => ident,
        Err(e) => {
            return Err(e);
        },
    };
    let ghost before = definition_views(outputs@);
    let definition = Definition { doc: attrs, ident, body: Body::Sum { variants } };
    outputs.push(definition);
    assert(definition_views(outputs@) =~= before.push(definition@));
    if found_null {
        nullable.insert(schema_name.to_owned());
        assert(old(nullable)@.insert(schema_name@) =~= old(nullable)@.union(set![schema_name@]));
    } else {
        assert(old(nullable)@ =~= old(nullable)@.union(Set::<Seq<char>>::empty()));
    }
    Ok(())
}

/// The flattened field for a referenced type called `name`, given its
/// snake-case form.
pub fn flattened_field(name: String, snake: String) -> (res: Result<Field, Error>)
    ensures
        match flattened_field_spec(name@, snake@) {
            Ok(fields) => res is Ok && fields == seq![res->Ok_0@],
            Err(e) => res is Err && res->Err_0@ == e,
        },
{
    let ident = match to_ident(snake.as_str()) {
        Ok(ident) => ident,
        Err(e) => {
            return Err(e);
        },
    };
    match to_type(name) {
        Ok(ty) => {
            let field = Field {
                name: snake,
                ident,
                ty,
                nullable: false,
                with: None,
                flatten: true,
                doc: Vec::new(),
            };
            assert(field@.doc =~= Seq::<Seq<char>>::empty());
            Ok(field)
        },
        Err(e) => Err(e),
    }
}

/// Emits the product type for an intersection: one flattened field for each
/// referenced type, named by its snake-case form, in branch order. Inline
/// branches add nothing. On an error nothing is emitted.
pub fn expand_all_of(outputs: &mut Vec<Definition>, ident: &str, all_of: &Vec<ReferenceOr>) -> (res:
    Result<(), Error>)
    ensures
        match all_of_spec(ident@, all_of@) {
            Ok(definition) => res is Ok && definition_views(final(outputs)@) == definition_views(
                old(outputs)@,
            ).push(definition),
            Err(e) => res is Err && res->Err_0@ == e && *final(outputs) == *old(outputs),
        },
{
    let ghost steps = field_steps(all_of@);
    let mut fields: Vec<Field> = Vec::new();
    let mut i: usize = 0;
    proof {
        lemma_collect_start(steps);
        assert(field_views(fields@) =~= Seq::<FieldView>::empty());
    }
    while i < all_of.len()
        invariant
            i <= all_of@.len(),
            steps == field_steps(all_of@),
            collect_from(field_views(fields@), steps, i as int) == collect(steps),
            *outputs == *old(outputs),
        decreases all_of.len() - i,
    {
        proof {
            lemma_collect_step(field_views(fields@), steps, i as int);
        }
        let ghost before = field_views(fields@);
        match &all_of[i] {
            ReferenceOr::Item(_) => {
                assert(before + Seq::<FieldView>::empty() =~= before);
            },
            ReferenceOr::Reference { reference } => {
                let target = match parse_reference(reference.as_str()) {
                    Ok(target) => target,
                    Err(e) => {
                        return Err(e);
                    },
                };
                let name = format_struct_name(target);
                let snake = to_snake(name.as_str());
                match flattened_field(name, snake) {
                    Ok(field) => {
                        fields.push(field);
                        assert(field_views(fields@) =~= before + seq![field@]);
                    },
                    Err(e) => {
                        return Err(e);
                    },
                }
            },
        }
        i = i + 1;
    }
    proof {
        lemma_collect_end(field_views(fields@), steps);
    }
    let ghost before = definition_views(outputs@);
    let definition = Definition {
        doc: Vec::new(),
        ident: ident.to_owned(),
        body: Body::Product { fields },
    };
    outputs.push(definition);
    assert(definition@.doc =~= Seq::<Seq<char>>::empty());
    assert(definition_views(outputs@) =~= before.push(definition@));
    Ok(())
}

} // verus!
