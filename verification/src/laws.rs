use vstd::prelude::*;
use crate::collect::{
    collect, lemma_collect_error_source, lemma_collect_first_error, lemma_collect_singles,
    lemma_collect_succeeds,
};
use crate::composition::{
    all_of_spec, any_of_spec, branch_field, branch_steps, branch_variants, constant_steps,
    constant_variant, enum_variants_spec, field_steps, is_flattened_enum, string_spec,
};
use crate::definition::{DefinitionView, VariantView};
use crate::error::{Error, ErrorView};
use crate::expand::{array_spec, expand_schema_spec, item_name_spec};
use crate::generate::{
    definitions_spec, entry_definitions, entry_steps, generate_source_spec, is_source_of,
};
use crate::naming::{snake_case, struct_name_spec, type_ident_spec, variant_name_spec};
use crate::object::{draft_of, draft_steps, finish_spec, finish_steps, object_spec};
use crate::reference::reference_name;
use crate::render::{escape_char, escape_spec};
use crate::schema::{
    ArrayType, Document, ObjectType, ReferenceOr, Schema, SchemaKind, StringType,
};
use crate::text::texts;

verus! {

/// Whether the branch or property value is a reference that is not of the
/// local form.
pub open spec fn is_foreign_reference(value: ReferenceOr) -> bool {
    value is Reference && reference_name(value->reference@) is None
}

/// The error for the foreign reference that `value` is.
pub open spec fn foreign_reference_error(value: ReferenceOr) -> ErrorView {
    ErrorView::InvalidReference { reference: value->reference@ }
}

/// An intersection whose first failing branch is a foreign reference yields
/// the reference error and no definition.
pub proof fn lemma_foreign_reference_in_intersection(
    ident: Seq<char>,
    branches: Seq<ReferenceOr>,
    at: int,
)
    requires
        0 <= at < branches.len(),
        is_foreign_reference(branches[at]),
        forall|j: int| 0 <= j < at ==> branch_field(#[trigger] branches[j]) is Ok,
    ensures
        all_of_spec(ident, branches) == Err::<DefinitionView, ErrorView>(
            foreign_reference_error(branches[at]),
        ),
{
    let steps = field_steps(branches);
    assert forall|j: int| 0 <= j < at implies (#[trigger] steps[j]) is Ok by {
        assert(steps[j] == branch_field(branches[j]));
    }
    lemma_collect_first_error(steps, at);
}

/// A union whose first failing branch is a foreign reference yields the
/// reference error and no definition.
pub proof fn lemma_foreign_reference_in_union(
    schema_name: Seq<char>,
    doc: Seq<Seq<char>>,
    branches: Seq<ReferenceOr>,
    at: int,
)
    requires
        0 <= at < branches.len(),
        is_foreign_reference(branches[at]),
        forall|j: int| 0 <= j < at ==> branch_variants(#[trigger] branches[j]) is Ok,
    ensures
        any_of_spec(schema_name, doc, branches) == Err::<DefinitionView, ErrorView>(
            foreign_reference_error(branches[at]),
        ),
{
    let steps = branch_steps(branches);
    assert forall|j: int| 0 <= j < at implies (#[trigger] steps[j]) is Ok by {
        assert(steps[j] == branch_variants(branches[j]));
    }
    lemma_collect_first_error(steps, at);
}

/// An object with a property that is a foreign reference yields the
/// reference error of the first such property, whatever else its properties
/// hold, and no definition.
pub proof fn lemma_foreign_reference_in_object(
    ident: Seq<char>,
    doc: Seq<Seq<char>>,
    object: ObjectType,
    at: int,
)
    requires
        0 <= at < object.properties@.len(),
        is_foreign_reference(object.properties@[at].value),
        forall|j: int| 0 <= j < at ==> !is_foreign_reference((#[trigger] object.properties@[j]).value),
    ensures
        object_spec(ident, doc, object) == Err::<DefinitionView, ErrorView>(
            foreign_reference_error(object.properties@[at].value),
        ),
{
    let steps = draft_steps(object.properties@);
    assert forall|j: int| 0 <= j < at implies (#[trigger] steps[j]) is Ok by {
        assert(steps[j] == draft_of(object.properties@[j]));
    }
    lemma_collect_first_error(steps, at);
}

/// An array whose items are a foreign reference yields the reference error
/// and no definition.
pub proof fn lemma_foreign_reference_in_array(
    ident: Seq<char>,
    doc: Seq<Seq<char>>,
    array: ArrayType,
)
    requires
        array.items is Some,
        is_foreign_reference(*array.items->0),
    ensures
        array_spec(ident, doc, array) is Err,
        array_spec(ident, doc, array)->Err_0 == foreign_reference_error(*array.items->0),
{
}

/// A pass fails with the error of its first failing entry, and then has no
/// definitions.
pub proof fn lemma_failing_entry_fails_pass(document: Document, at: int)
    requires
        0 <= at < document.schemas@.len(),
        entry_definitions(document.schemas@[at]) is Err,
        forall|j: int| 0 <= j < at ==> entry_definitions(#[trigger] document.schemas@[j]) is Ok,
    ensures
        definitions_spec(document) == Err::<Seq<DefinitionView>, ErrorView>(
            entry_definitions(document.schemas@[at])->Err_0,
        ),
        generate_source_spec(document) == Err::<Seq<char>, ErrorView>(
            entry_definitions(document.schemas@[at])->Err_0,
        ),
{
    let steps = entry_steps(document.schemas@);
    assert forall|j: int| 0 <= j < at implies (#[trigger] steps[j]) is Ok by {
        assert(steps[j] == entry_definitions(document.schemas@[j]));
    }
    lemma_collect_first_error(steps, at);
}

/// The variant that stands for one enumerated constant whose identifier is
/// had.
pub open spec fn variant_of_constant(constant: Option<String>) -> VariantView {
    match constant {
        Some(tag) => VariantView::Unit {
            ident: variant_name_spec(tag@)->Ok_0,
            rename: tag@,
        },
        None => VariantView::Null,
    }
}

/// An enumeration has its variants exactly where every constant that is not
/// null gives an identifier. There is then one variant for each constant, in
/// the order of the constants: a bare variant that keeps the constant as its
/// wire string, and the variant for null where the constant is null.
pub proof fn lemma_variants_keep_constants(enumeration: Seq<Option<String>>)
    ensures
        enum_variants_spec(enumeration) is Ok <==> forall|i: int|
            0 <= i < enumeration.len() && (#[trigger] enumeration[i]) is Some
                ==> variant_name_spec(enumeration[i]->0@) is Ok,
        enum_variants_spec(enumeration) is Ok ==> {
            &&& enum_variants_spec(enumeration)->Ok_0.len() == enumeration.len()
            &&& forall|i: int|
                0 <= i < enumeration.len() ==> (#[trigger] enum_variants_spec(
                    enumeration,
                )->Ok_0[i]) == variant_of_constant(enumeration[i])
        },
{
    let steps = constant_steps(enumeration);
    lemma_collect_succeeds(steps);
    if enum_variants_spec(enumeration) is Ok {
        assert forall|i: int|
            0 <= i < enumeration.len() && (#[trigger] enumeration[i]) is Some implies variant_name_spec(
            enumeration[i]->0@,
        ) is Ok by {
            assert(steps[i] is Ok);
            assert(steps[i] == constant_variant(enumeration[i]));
        }
        assert forall|i: int| 0 <= i < steps.len() implies (#[trigger] steps[i]) is Ok
            && steps[i]->Ok_0.len() == 1 by {
            assert(steps[i] == constant_variant(enumeration[i]));
        }
        lemma_collect_singles(steps);
        let variants = enum_variants_spec(enumeration)->Ok_0;
        assert forall|i: int| 0 <= i < enumeration.len() implies (#[trigger] variants[i])
            == variant_of_constant(enumeration[i]) by {
            assert(steps[i] == constant_variant(enumeration[i]));
            assert(variants[i] == steps[i]->Ok_0[0]);
        }
    }
    if forall|i: int|
        0 <= i < enumeration.len() && (#[trigger] enumeration[i]) is Some ==> variant_name_spec(
            enumeration[i]->0@,
        ) is Ok {
        assert forall|j: int| 0 <= j < steps.len() implies (#[trigger] steps[j]) is Ok by {
            assert(steps[j] == constant_variant(enumeration[j]));
            if enumeration[j] is Some {
                assert(variant_name_spec(enumeration[j]->0@) is Ok);
            }
        }
    }
}

/// A string schema with constants yields its sum type exactly where every
/// constant that is not null gives an identifier; the sum type then has the
/// given name and documentation and one variant for each constant. A string
/// schema without constants always yields the alias to free-form text.
pub proof fn lemma_string_definition(ident: Seq<char>, doc: Seq<Seq<char>>, string: StringType)
    ensures
        string_spec(ident, doc, string) is Ok <==> forall|i: int|
            0 <= i < string.enumeration@.len() && (#[trigger] string.enumeration@[i]) is Some
                ==> variant_name_spec(string.enumeration@[i]->0@) is Ok,
        string_spec(ident, doc, string) is Ok ==> {
            &&& string_spec(ident, doc, string)->Ok_0.ident == ident
            &&& string_spec(ident, doc, string)->Ok_0.doc == doc
            &&& string.enumeration@.len() == 0 ==> string_spec(ident, doc, string)->Ok_0.body
                is Alias
            &&& string.enumeration@.len() > 0 ==> {
                &&& string_spec(ident, doc, string)->Ok_0.body is Sum
                &&& string_spec(ident, doc, string)->Ok_0.body->variants.len()
                    == string.enumeration@.len()
                &&& forall|i: int|
                    0 <= i < string.enumeration@.len() ==> (#[trigger] string_spec(
                        ident,
                        doc,
                        string,
                    )->Ok_0.body->variants[i]) == variant_of_constant(string.enumeration@[i])
            }
        },
{
    lemma_variants_keep_constants(string.enumeration@);
}

/// A union yields its sum type exactly where its name gives an identifier and
/// every branch yields its variants, which a null branch and any inline
/// schema other than an enumeration always do, with none. The sum type is
/// then named after the schema, whatever the number of its variants.
pub proof fn lemma_union_definition(
    schema_name: Seq<char>,
    doc: Seq<Seq<char>>,
    branches: Seq<ReferenceOr>,
)
    ensures
        any_of_spec(schema_name, doc, branches) is Ok <==> type_ident_spec(schema_name) is Ok
            && forall|i: int|
            0 <= i < branches.len() ==> branch_variants(#[trigger] branches[i]) is Ok,
        any_of_spec(schema_name, doc, branches) is Ok ==> {
            &&& any_of_spec(schema_name, doc, branches)->Ok_0.ident == type_ident_spec(
                schema_name,
            )->Ok_0
            &&& any_of_spec(schema_name, doc, branches)->Ok_0.body is Sum
        },
        forall|i: int|
            0 <= i < branches.len() && (#[trigger] branches[i]) is Item && !is_flattened_enum(
                branches[i],
            ) ==> branch_variants(branches[i]) == Ok::<Seq<VariantView>, ErrorView>(
                Seq::<VariantView>::empty(),
            ),
{
    let steps = branch_steps(branches);
    lemma_collect_succeeds(steps);
    if collect(steps) is Ok {
        assert forall|i: int| 0 <= i < branches.len() implies branch_variants(
            #[trigger] branches[i],
        ) is Ok by {
            assert(steps[i] is Ok);
            assert(steps[i] == branch_variants(branches[i]));
        }
    }
    if forall|i: int| 0 <= i < branches.len() ==> branch_variants(#[trigger] branches[i]) is Ok {
        assert forall|j: int| 0 <= j < steps.len() implies (#[trigger] steps[j]) is Ok by {
            assert(steps[j] == branch_variants(branches[j]));
        }
    }
}

/// Where every branch of an intersection is a reference that gives a field,
/// the product type has one field for each branch, in the order of the
/// branches, and every field is flattened.
pub proof fn lemma_intersection_of_references(ident: Seq<char>, branches: Seq<ReferenceOr>)
    requires
        forall|i: int|
            0 <= i < branches.len() ==> (#[trigger] branches[i]) is Reference && branch_field(
                branches[i],
            ) is Ok,
    ensures
        all_of_spec(ident, branches) is Ok,
        all_of_spec(ident, branches)->Ok_0.ident == ident,
        all_of_spec(ident, branches)->Ok_0.body is Product,
        all_of_spec(ident, branches)->Ok_0.body->fields.len() == branches.len(),
        forall|i: int|
            0 <= i < branches.len() ==> {
                &&& (#[trigger] all_of_spec(ident, branches)->Ok_0.body->fields[i]) == branch_field(
                    branches[i],
                )->Ok_0[0]
                &&& all_of_spec(ident, branches)->Ok_0.body->fields[i].flatten
            },
{
    let steps = field_steps(branches);
    assert forall|i: int| 0 <= i < steps.len() implies (#[trigger] steps[i]) is Ok
        && steps[i]->Ok_0.len() == 1 by {
        assert(steps[i] == branch_field(branches[i]));
        assert(branches[i] is Reference);
    }
    lemma_collect_singles(steps);
    let fields = collect(steps)->Ok_0;
    assert forall|i: int| 0 <= i < branches.len() implies (#[trigger] fields[i]) == branch_field(
        branches[i],
    )->Ok_0[0] && fields[i].flatten by {
        assert(steps[i] == branch_field(branches[i]));
        assert(branches[i] is Reference);
        assert(fields[i] == steps[i]->Ok_0[0]);
    }
}

/// Where an array with inline items expands, the alias to a sequence of the
/// item type comes last, after everything that the item schema adds.
pub proof fn lemma_inline_items_come_first(ident: Seq<char>, doc: Seq<Seq<char>>, array: ArrayType)
    requires
        array.items is Some,
        *array.items->0 is Item,
        array_spec(ident, doc, array) is Ok,
    ensures
        expand_schema_spec(item_name_spec(ident), (*array.items->0)->Item_0) is Ok,
        array_spec(ident, doc, array)->Ok_0.definitions.drop_last() == expand_schema_spec(
            item_name_spec(ident),
            (*array.items->0)->Item_0,
        )->Ok_0.definitions,
        array_spec(ident, doc, array)->Ok_0.definitions.last().ident == ident,
        array_spec(ident, doc, array)->Ok_0.definitions.last().body is Alias,
{
    let first = expand_schema_spec(item_name_spec(ident), (*array.items->0)->Item_0)->Ok_0;
    let all = array_spec(ident, doc, array)->Ok_0.definitions;
    assert(all.drop_last() =~= first.definitions);
}

/// Two passes over one document hand out the same: the same source text, or
/// the same error.
pub proof fn lemma_pass_is_repeatable(
    document: Document,
    first: Result<String, Error>,
    second: Result<String, Error>,
)
    requires
        is_source_of(document, first),
        is_source_of(document, second),
    ensures
        first is Ok <==> second is Ok,
        first is Ok ==> first->Ok_0@ == second->Ok_0@,
        first is Err ==> first->Err_0@ == second->Err_0@,
{
}

/// The character that stands behind a backslash inside a string literal.
pub open spec fn escaped_by(c: char) -> Option<char> {
    if c == '"' {
        Some('"')
    } else if c == '\\' {
        Some('\\')
    } else if c == 'n' {
        Some('\n')
    } else if c == 'r' {
        Some('\r')
    } else if c == 't' {
        Some('\t')
    } else if c == '0' {
        Some('\0')
    } else {
        None
    }
}

/// The text that the inside of a string literal stands for; `None` where a
/// quote stands bare or a backslash is followed by nothing known.
pub open spec fn unescape_spec(t: Seq<char>) -> Option<Seq<char>>
    decreases t.len(),
{
    if t.len() == 0 {
        Some(Seq::<char>::empty())
    } else if t[0] == '\\' {
        if t.len() < 2 {
            None
        } else {
            match escaped_by(t[1]) {
                None => None,
                Some(c) => match unescape_spec(t.subrange(2, t.len() as int)) {
                    None => None,
                    Some(rest) => Some(seq![c] + rest),
                },
            }
        }
    } else if t[0] == '"' {
        None
    } else {
        match unescape_spec(t.drop_first()) {
            None => None,
            Some(rest) => Some(seq![t[0]] + rest),
        }
    }
}

/// What is written into a string literal is read back unchanged: a wire
/// string survives the source text.
pub proof fn lemma_unescape_escape(s: Seq<char>)
    ensures
        unescape_spec(escape_spec(s)) == Some(s),
    decreases s.len(),
{
    let rows = s.map_values(|c: char| escape_char(c));
    if s.len() == 0 {
        assert(rows =~= Seq::<Seq<char>>::empty());
        assert(escape_spec(s) =~= Seq::<char>::empty());
    } else {
        let tail = s.drop_first();
        lemma_unescape_escape(tail);
        assert(rows.drop_first() =~= tail.map_values(|c: char| escape_char(c)));
        assert(rows.first() == escape_char(s[0]));
        let t = escape_spec(s);
        assert(t == escape_char(s[0]) + escape_spec(tail));
        if escape_char(s[0]).len() == 2 {
            assert(t.subrange(2, t.len() as int) =~= escape_spec(tail));
            assert(t[0] == '\\');
            assert(escaped_by(t[1]) == Some(s[0]));
        } else {
            assert(t.drop_first() =~= escape_spec(tail));
            assert(t[0] == s[0]);
        }
        assert(seq![s[0]] + tail =~= s);
    }
}

/// Whether one of the branches or property values is a foreign reference.
pub open spec fn holds_foreign_reference(values: Seq<ReferenceOr>) -> bool {
    exists|i: int| 0 <= i < values.len() && is_foreign_reference(#[trigger] values[i])
}

/// Whether one of the branches or property values is the reference `r`.
pub open spec fn holds_reference(values: Seq<ReferenceOr>, r: Seq<char>) -> bool {
    exists|i: int|
        0 <= i < values.len() && (#[trigger] values[i]) is Reference && values[i]->reference@ == r
}

/// The values of the properties, in order.
pub open spec fn property_values(object: ObjectType) -> Seq<ReferenceOr> {
    Seq::new(object.properties@.len(), |i: int| object.properties@[i].value)
}

/// Whether `r` stands as a reference in a place of the schema that expansion
/// resolves: the items of an array, a property of an object, a branch of a
/// union or an intersection, or such a place in the inline items of an array.
pub open spec fn is_processed_reference(schema: Schema, r: Seq<char>) -> bool
    decreases schema,
{
    match schema.kind {
        SchemaKind::Array(array) => match array.items {
            Some(items) => match *items {
                ReferenceOr::Reference { reference } => reference@ == r,
                ReferenceOr::Item(inner) => is_processed_reference(inner, r),
            },
            None => false,
        },
        SchemaKind::Object(object) => holds_reference(property_values(object), r),
        SchemaKind::AnyOf { any_of } => holds_reference(any_of@, r),
        SchemaKind::AllOf { all_of } => holds_reference(all_of@, r),
        SchemaKind::Any(any) => holds_reference(any.any_of@, r),
        _ => false,
    }
}

/// Whether a foreign reference stands in a place of the schema that
/// expansion resolves.
pub open spec fn has_foreign_reference(schema: Schema) -> bool
    decreases schema,
{
    match schema.kind {
        SchemaKind::Array(array) => match array.items {
            Some(items) => match *items {
                ReferenceOr::Reference { reference } => reference_name(reference@) is None,
                ReferenceOr::Item(inner) => has_foreign_reference(inner),
            },
            None => false,
        },
        SchemaKind::Object(object) => holds_foreign_reference(property_values(object)),
        SchemaKind::AnyOf { any_of } => holds_foreign_reference(any_of@),
        SchemaKind::AllOf { all_of } => holds_foreign_reference(all_of@),
        SchemaKind::Any(any) => holds_foreign_reference(any.any_of@),
        _ => false,
    }
}

/// A schema that holds a foreign reference in a place that expansion
/// resolves, however deep in inline array items, does not expand: nothing is
/// emitted for it.
pub proof fn lemma_foreign_reference_fails(name: Seq<char>, schema: Schema)
    requires
        has_foreign_reference(schema),
    ensures
        expand_schema_spec(name, schema) is Err,
    decreases schema,
{
    if type_ident_spec(name) is Ok {
        let ident = type_ident_spec(name)->Ok_0;
        match schema.kind {
            SchemaKind::Array(array) => {
                match *array.items->0 {
                    ReferenceOr::Reference { .. } => {},
                    ReferenceOr::Item(inner) => {
                        lemma_foreign_reference_fails(item_name_spec(ident), inner);
                    },
                }
            },
            SchemaKind::Object(object) => {
                let values = property_values(object);
                let i = choose|i: int|
                    0 <= i < values.len() && is_foreign_reference(#[trigger] values[i]);
                let steps = draft_steps(object.properties@);
                assert(steps[i] == draft_of(object.properties@[i]));
                assert(steps[i] is Err);
                lemma_collect_succeeds(steps);
            },
            SchemaKind::AnyOf { any_of } => {
                lemma_foreign_branch_fails_union(any_of@);
            },
            SchemaKind::AllOf { all_of } => {
                let i = choose|i: int|
                    0 <= i < all_of@.len() && is_foreign_reference(#[trigger] all_of@[i]);
                let steps = field_steps(all_of@);
                assert(steps[i] == branch_field(all_of@[i]));
                assert(steps[i] is Err);
                lemma_collect_succeeds(steps);
            },
            SchemaKind::Any(any) => {
                lemma_foreign_branch_fails_union(any.any_of@);
            },
            _ => {},
        }
    }
}

/// The variants of a union with a foreign reference among its branches are
/// never had.
pub proof fn lemma_foreign_branch_fails_union(branches: Seq<ReferenceOr>)
    requires
        holds_foreign_reference(branches),
    ensures
        branches.len() > 0,
        collect(branch_steps(branches)) is Err,
{
    let i = choose|i: int| 0 <= i < branches.len() && is_foreign_reference(#[trigger] branches[i]);
    let steps = branch_steps(branches);
    assert(steps[i] == branch_variants(branches[i]));
    assert(steps[i] is Err);
    lemma_collect_succeeds(steps);
}

/// An enumeration fails with syntax errors only.
pub proof fn lemma_enumeration_errors(enumeration: Seq<Option<String>>)
    requires
        enum_variants_spec(enumeration) is Err,
    ensures
        enum_variants_spec(enumeration)->Err_0 is Syntax,
{
    let steps = constant_steps(enumeration);
    let at = lemma_collect_error_source(steps);
    assert(steps[at] == constant_variant(enumeration[at]));
}

/// A reference error from the branches of a union names one of its branches,
/// and that branch is a foreign reference.
pub proof fn lemma_union_reference_error(branches: Seq<ReferenceOr>)
    requires
        collect(branch_steps(branches)) is Err,
        collect(branch_steps(branches))->Err_0 is InvalidReference,
    ensures
        reference_name(collect(branch_steps(branches))->Err_0->reference) is None,
        holds_reference(branches, collect(branch_steps(branches))->Err_0->reference),
{
    let steps = branch_steps(branches);
    let at = lemma_collect_error_source(steps);
    assert(steps[at] == branch_variants(branches[at]));
    if is_flattened_enum(branches[at]) {
        lemma_enumeration_errors(branches[at]->Item_0.kind->String_0.enumeration@);
    }
    assert(branches[at] is Reference);
    assert(branches[at]->reference@ == collect(steps)->Err_0->reference);
}

/// A reference error names a foreign reference that stands in the schema, in
/// a place that expansion resolves.
pub proof fn lemma_reference_error_names_reference(name: Seq<char>, schema: Schema)
    requires
        expand_schema_spec(name, schema) is Err,
        expand_schema_spec(name, schema)->Err_0 is InvalidReference,
    ensures
        reference_name(expand_schema_spec(name, schema)->Err_0->reference) is None,
        is_processed_reference(schema, expand_schema_spec(name, schema)->Err_0->reference),
    decreases schema,
{
    let r = expand_schema_spec(name, schema)->Err_0->reference;
    let ident = type_ident_spec(name)->Ok_0;
    let doc = crate::classify::doc_spec(schema.data);
    match schema.kind {
        SchemaKind::String(string) => {
            if string.enumeration@.len() > 0 {
                lemma_enumeration_errors(string.enumeration@);
            }
        },
        SchemaKind::Array(array) => {
            match *array.items->0 {
                ReferenceOr::Reference { .. } => {},
                ReferenceOr::Item(inner) => {
                    lemma_reference_error_names_reference(item_name_spec(ident), inner);
                },
            }
        },
        SchemaKind::Object(object) => {
            let steps = draft_steps(object.properties@);
            if collect(steps) is Err {
                let at = lemma_collect_error_source(steps);
                assert(steps[at] == draft_of(object.properties@[at]));
                let values = property_values(object);
                assert(values[at] is Reference && values[at]->reference@ == r);
            } else {
                let drafts = collect(steps)->Ok_0;
                let finishing = finish_steps(drafts, texts(object.required@));
                let at = lemma_collect_error_source(finishing);
                assert(finishing[at] == finish_spec(drafts[at], texts(object.required@)));
            }
        },
        SchemaKind::AnyOf { any_of } => {
            if collect(branch_steps(any_of@)) is Err {
                lemma_union_reference_error(any_of@);
            }
        },
        SchemaKind::AllOf { all_of } => {
            let steps = field_steps(all_of@);
            let at = lemma_collect_error_source(steps);
            assert(steps[at] == branch_field(all_of@[at]));
            assert(all_of@[at] is Reference && all_of@[at]->reference@ == r);
        },
        SchemaKind::Any(any) => {
            if collect(branch_steps(any.any_of@)) is Err {
                lemma_union_reference_error(any.any_of@);
            }
        },
        _ => {},
    }
}

/// A schema that holds a foreign reference in a place that expansion
/// resolves fails with a reference error that names such a reference,
/// unless an identifier or type that is none ends the expansion first. In
/// either case nothing is emitted.
pub proof fn lemma_foreign_reference_gives_reference_error(name: Seq<char>, schema: Schema)
    requires
        has_foreign_reference(schema),
    ensures
        expand_schema_spec(name, schema) is Err,
        !(expand_schema_spec(name, schema)->Err_0 is Syntax) ==> {
            &&& expand_schema_spec(name, schema)->Err_0 is InvalidReference
            &&& reference_name(expand_schema_spec(name, schema)->Err_0->reference) is None
            &&& is_processed_reference(
                schema,
                expand_schema_spec(name, schema)->Err_0->reference,
            )
        },
{
    lemma_foreign_reference_fails(name, schema);
    if !(expand_schema_spec(name, schema)->Err_0 is Syntax) {
        lemma_reference_error_names_reference(name, schema);
    }
}

/// A pass over a document with an entry that holds a foreign reference, in a
/// place that expansion resolves, fails: no definitions are had, not even
/// those of the entries before it.
pub proof fn lemma_foreign_reference_fails_pass(document: Document, at: int)
    requires
        0 <= at < document.schemas@.len(),
        document.schemas@[at].schema is Item,
        has_foreign_reference(document.schemas@[at].schema->Item_0),
    ensures
        definitions_spec(document) is Err,
        generate_source_spec(document) is Err,
{
    let steps = entry_steps(document.schemas@);
    lemma_foreign_reference_fails(
        document.schemas@[at].name@,
        document.schemas@[at].schema->Item_0,
    );
    assert(steps[at] == entry_definitions(document.schemas@[at]));
    assert(steps[at] is Err);
    lemma_collect_succeeds(steps);
}

/// The branches that are references, in order.
pub open spec fn references_of(branches: Seq<ReferenceOr>) -> Seq<ReferenceOr>
    decreases branches.len(),
{
    if branches.len() == 0 {
        Seq::<ReferenceOr>::empty()
    } else if branches[0] is Reference {
        seq![branches[0]] + references_of(branches.drop_first())
    } else {
        references_of(branches.drop_first())
    }
}

/// Every reference among the branches is one of the branches.
pub proof fn lemma_references_are_branches(branches: Seq<ReferenceOr>)
    ensures
        forall|j: int|
            0 <= j < references_of(branches).len() ==> (#[trigger] references_of(branches)[j])
                is Reference && branches.contains(references_of(branches)[j]),
    decreases branches.len(),
{
    if branches.len() > 0 {
        let rest = branches.drop_first();
        lemma_references_are_branches(rest);
        let found = references_of(branches);
        assert forall|j: int| 0 <= j < found.len() implies (#[trigger] found[j]) is Reference
            && branches.contains(found[j]) by {
            if branches[0] is Reference && j == 0 {
                assert(branches[0] == found[0]);
            } else {
                let k = if branches[0] is Reference {
                    j - 1
                } else {
                    j
                };
                assert(found[j] == references_of(rest)[k]);
                assert(rest.contains(references_of(rest)[k]));
                let i = choose|i: int| 0 <= i < rest.len() && rest[i] == references_of(rest)[k];
                assert(branches[i + 1] == found[j]);
            }
        }
    }
}

/// The inline branches of an intersection add nothing: it has the fields of
/// its references alone.
pub proof fn lemma_inline_branches_add_nothing(ident: Seq<char>, branches: Seq<ReferenceOr>)
    ensures
        all_of_spec(ident, branches) == all_of_spec(ident, references_of(branches)),
    decreases branches.len(),
{
    if branches.len() > 0 {
        let rest = branches.drop_first();
        lemma_inline_branches_add_nothing(ident, rest);
        assert(field_steps(branches).drop_first() =~= field_steps(rest));
        assert(field_steps(branches)[0] == branch_field(branches[0]));
        if branches[0] is Reference {
            let found = references_of(branches);
            assert(found.drop_first() =~= references_of(rest));
            assert(field_steps(found).drop_first() =~= field_steps(references_of(rest)));
            assert(field_steps(found)[0] == branch_field(branches[0]));
        } else {
            match collect(field_steps(rest)) {
                Ok(fields) => {
                    assert(Seq::<crate::definition::FieldView>::empty() + fields =~= fields);
                },
                Err(_) => {},
            }
        }
    } else {
        assert(field_steps(branches) =~= field_steps(references_of(branches)));
    }
}

/// Where every reference among the branches of an intersection gives a
/// field, the product type has one field for each reference, in the order of
/// the branches, whatever inline branches stand among them. Each field is
/// flattened, has the referenced type, and is named by its snake-case form.
pub proof fn lemma_intersection_fields(ident: Seq<char>, branches: Seq<ReferenceOr>)
    requires
        forall|i: int|
            0 <= i < branches.len() && (#[trigger] branches[i]) is Reference ==> branch_field(
                branches[i],
            ) is Ok,
    ensures
        all_of_spec(ident, branches) is Ok,
        all_of_spec(ident, branches)->Ok_0.ident == ident,
        all_of_spec(ident, branches)->Ok_0.body is Product,
        all_of_spec(ident, branches)->Ok_0.body->fields.len() == references_of(branches).len(),
        forall|j: int|
            0 <= j < references_of(branches).len() ==> {
                let field = #[trigger] all_of_spec(ident, branches)->Ok_0.body->fields[j];
                let target = reference_name(references_of(branches)[j]->reference@);
                &&& target is Some
                &&& field.flatten
                &&& !field.nullable
                &&& field.ty == struct_name_spec(target->0)
                &&& field.name == snake_case(struct_name_spec(target->0))
            },
{
    let found = references_of(branches);
    lemma_references_are_branches(branches);
    lemma_inline_branches_add_nothing(ident, branches);
    assert forall|j: int| 0 <= j < found.len() implies (#[trigger] found[j]) is Reference
        && branch_field(found[j]) is Ok by {
        assert(branches.contains(found[j]));
        let i = choose|i: int| 0 <= i < branches.len() && branches[i] == found[j];
        assert(branches[i] is Reference);
    }
    lemma_intersection_of_references(ident, found);
    assert forall|j: int| 0 <= j < found.len() implies {
        let field = #[trigger] all_of_spec(ident, branches)->Ok_0.body->fields[j];
        let target = reference_name(found[j]->reference@);
        &&& target is Some
        &&& field.flatten
        &&& !field.nullable
        &&& field.ty == struct_name_spec(target->0)
        &&& field.name == snake_case(struct_name_spec(target->0))
    } by {
        assert(all_of_spec(ident, found)->Ok_0.body->fields[j] == branch_field(found[j])->Ok_0[0]);
        assert(branch_field(found[j]) is Ok);
    }
}

} // verus!
