use vstd::prelude::*;
use crate::classify::{
    build_schema_doc, classify, classify_spec, doc_spec, primitive_codec, primitive_codec_spec,
    primitive_type, primitive_type_spec,
};
use crate::collect::{
    collect, collect_from, lemma_collect_end, lemma_collect_start, lemma_collect_step,
};
use crate::definition::{
    definition_views, field_views, optional_text, Body, BodyView, Definition, DefinitionView,
    Field, FieldView,
};
use crate::error::{Error, ErrorView};
use crate::naming::{field_name_spec, format_field_name, to_type, type_spec};
use crate::reference::{parse_reference, parse_reference_spec};
use crate::schema::{ObjectType, Property, ReferenceOr};
use crate::text::{clone_texts, contains_name, texts};

verus! {

/// A field as its property describes it, before the object's required set and
/// the naming rules are applied.
#[derive(Debug, Clone, PartialEq, Eq)]
pub struct FieldDraft {
    /// The wire name, unchanged.
    pub name: String,
    /// The type, without optionality.
    pub ty: String,
    /// Whether the property itself is declared nullable.
    pub nullable: bool,
    /// The codec, without optionality.
    pub codec: Option<String>,
    pub doc: Vec<String>,
}

/// The mathematical value of a [`FieldDraft`].
pub struct FieldDraftView {
    pub name: Seq<char>,
    pub ty: Seq<char>,
    pub nullable: bool,
    pub codec: Option<Seq<char>>,
    pub doc: Seq<Seq<char>>,
}

impl View for FieldDraft {
    type V = FieldDraftView;

    open spec fn view(&self) -> FieldDraftView {
        FieldDraftView {
            name: self.name@,
            ty: self.ty@,
            nullable: self.nullable,
            codec: optional_text(self.codec),
            doc: texts(self.doc@),
        }
    }
}

/// The values of the drafts `v`.
pub open spec fn draft_views(v: Seq<FieldDraft>) -> Seq<FieldDraftView> {
    v.map_values(|d: FieldDraft| d@)
}

/// The draft that an optional draft holds, as a row of none or one.
pub open spec fn optional_draft(o: Option<FieldDraft>) -> Seq<FieldDraftView> {
    match o {
        Some(d) => seq![d@],
        None => Seq::<FieldDraftView>::empty(),
    }
}

/// The draft for one property. A reference gives a field of the referenced
/// type; an inline schema gives a field where it is a primitive, and none
/// otherwise.
pub open spec fn draft_of(prop: Property) -> Result<Seq<FieldDraftView>, ErrorView> {
    match prop.value {
        ReferenceOr::Reference { reference } => match parse_reference_spec(reference@) {
            Ok(name) => Ok(
                seq![
                    FieldDraftView {
                        name: prop.name@,
                        ty: name,
                        nullable: false,
                        codec: None,
                        doc: Seq::<Seq<char>>::empty(),
                    },
                ],
            ),
            Err(e) => Err(e),
        },
        ReferenceOr::Item(item) => match classify_spec(item) {
            Some(p) => Ok(
                seq![
                    FieldDraftView {
                        name: prop.name@,
                        ty: primitive_type_spec(p),
                        nullable: item.data.nullable,
                        codec: primitive_codec_spec(p),
                        doc: doc_spec(item.data),
                    },
                ],
            ),
            None => Ok(Seq::<FieldDraftView>::empty()),
        },
    }
}

/// The steps that draft the properties, one for each.
pub open spec fn draft_steps(props: Seq<Property>) -> Seq<Result<Seq<FieldDraftView>, ErrorView>> {
    props.map_values(|p: Property| draft_of(p))
}

/// `t`, wrapped in `Option<..>` where `nullable`.
pub open spec fn optional_spec(nullable: bool, t: Seq<char>) -> Seq<char> {
    if nullable {
        "Option<"@ + t + ">"@
    } else {
        t
    }
}

/// The path that names a codec to the serializer.
pub open spec fn codec_path_spec(nullable: bool, codec: Option<Seq<char>>) -> Option<Seq<char>> {
    match codec {
        Some(c) => Some("::serde_with::As::<"@ + optional_spec(nullable, c) + ">"@),
        None => None,
    }
}

/// Whether a drafted field ends up nullable: it is declared so, or the
/// object does not require it.
pub open spec fn final_nullable(d: FieldDraftView, required: Seq<Seq<char>>) -> bool {
    d.nullable || !required.contains(d.name)
}

/// The finished field for a draft.
pub open spec fn finish_spec(d: FieldDraftView, required: Seq<Seq<char>>) -> Result<
    Seq<FieldView>,
    ErrorView,
> {
    let nullable = final_nullable(d, required);
    match field_name_spec(d.name) {
        Err(e) => Err(e),
        Ok(ident) => match type_spec(optional_spec(nullable, d.ty)) {
            Err(e) => Err(e),
            Ok(ty) => Ok(
                seq![
                    FieldView {
                        name: d.name,
                        ident,
                        ty,
                        nullable,
                        with: codec_path_spec(nullable, d.codec),
                        flatten: false,
                        doc: d.doc,
                    },
                ],
            ),
        },
    }
}

/// The steps that finish the drafts, one for each.
pub open spec fn finish_steps(drafts: Seq<FieldDraftView>, required: Seq<Seq<char>>) -> Seq<
    Result<Seq<FieldView>, ErrorView>,
> {
    drafts.map_values(|d: FieldDraftView| finish_spec(d, required))
}

/// The fields of an object, in the order of its properties. All properties
/// are drafted before the first field is finished, so a bad reference is
/// reported before any bad name or type.
pub open spec fn object_fields_spec(object: ObjectType) -> Result<Seq<FieldView>, ErrorView> {
    match collect(draft_steps(object.properties@)) {
        Err(e) => Err(e),
        Ok(drafts) => collect(finish_steps(drafts, texts(object.required@))),
    }
}

/// The product type for an object schema.
pub open spec fn object_spec(ident: Seq<char>, doc: Seq<Seq<char>>, object: ObjectType) -> Result<
    DefinitionView,
    ErrorView,
> {
    match object_fields_spec(object) {
        Err(e) => Err(e),
        Ok(fields) => Ok(DefinitionView { doc, ident, body: BodyView::Product { fields } }),
    }
}

/// Drafts the field for one property.
pub fn draft_field(prop: &Property) -> (res: Result<Option<FieldDraft>, Error>)
    ensures
        match draft_of(*prop) {
            Ok(drafts) => res is Ok && optional_draft(res->Ok_0) == drafts,
            Err(e) => res is Err && res->Err_0@ == e,
        },
{
    match &prop.value {
        ReferenceOr::Reference { reference } => match parse_reference(reference.as_str()) {
            Ok(name) => {
                let draft = FieldDraft {
                    name: prop.name.clone(),
                    ty: name.to_owned(),
                    nullable: false,
                    codec: None,
                    doc: Vec::new(),
                };
                assert(draft@.doc =~= Seq::<Seq<char>>::empty());
                Ok(Some(draft))
            },
            Err(e) => Err(e),
        },
        ReferenceOr::Item(item) => match classify(item) {
            Some(p) => Ok(
                Some(
                    FieldDraft {
                        name: prop.name.clone(),
                        ty: primitive_type(p),
                        nullable: item.data.nullable,
                        codec: primitive_codec(p),
                        doc: build_schema_doc(item),
                    },
                ),
            ),
            None => Ok(None),
        },
    }
}

/// `t`, wrapped in `Option<..>` where `nullable`.
pub fn optional(nullable: bool, t: &str) -> (out: String)
    ensures
        out@ == optional_spec(nullable, t@),
{
    if nullable {
        String::from_str("Option<").concat(t).concat(">")
    } else {
        t.to_owned()
    }
}

/// The path that names a codec to the serializer.
pub fn codec_path(nullable: bool, codec: &Option<String>) -> (out: Option<String>)
    ensures
        optional_text(out) == codec_path_spec(nullable, optional_text(*codec)),
{
    match codec {
        Some(c) => {
            let inner = optional(nullable, c.as_str());
            Some(String::from_str("::serde_with::As::<").concat(inner.as_str()).concat(">"))
        },
        None => None,
    }
}

/// Finishes a drafted field against the object's required set.
pub fn finish_field(draft: &FieldDraft, required: &Vec<String>) -> (res: Result<Field, Error>)
    ensures
        match finish_spec(draft@, texts(required@)) {
            Ok(fields) => res is Ok && fields == seq![res->Ok_0@],
            Err(e) => res is Err && res->Err_0@ == e,
        },
{
    let nullable = draft.nullable || !contains_name(required, draft.name.as_str());
    let ident = match format_field_name(draft.name.as_str()) {
        Ok(ident) => ident,
        Err(e) => {
            return Err(e);
        },
    };
    let ty = match to_type(optional(nullable, draft.ty.as_str())) {
        Ok(ty) => ty,
        Err(e) => {
            return Err(e);
        },
    };
    Ok(
        Field {
            name: draft.name.clone(),
            ident,
            ty,
            nullable,
            with: codec_path(nullable, &draft.codec),
            flatten: false,
            doc: clone_texts(&draft.doc),
        },
    )
}

/// The fields of an object, in the order of its properties.
pub fn object_fields(object: &ObjectType) -> (res: Result<Vec<Field>, Error>)
    ensures
        match object_fields_spec(*object) {
            Ok(fields) => res is Ok && field_views(res->Ok_0@) == fields,
            Err(e) => res is Err && res->Err_0@ == e,
        },
{
    let ghost steps = draft_steps(object.properties@);
    let mut drafts: Vec<FieldDraft> = Vec::new();
    let mut i: usize = 0;
    proof {
        lemma_collect_start(steps);
        assert(draft_views(drafts@) =~= Seq::<FieldDraftView>::empty());
    }
    while i < object.properties.len()
        invariant
            i <= object.properties@.len(),
            steps == draft_steps(object.properties@),
            collect_from(draft_views(drafts@), steps, i as int) == collect(steps),
        decreases object.properties.len() - i,
    {
        proof {
            lemma_collect_step(draft_views(drafts@), steps, i as int);
        }
        let ghost before = draft_views(drafts@);
        match draft_field(&object.properties[i]) {
            Ok(Some(draft)) => {
                drafts.push(draft);
                assert(draft_views(drafts@) =~= before + seq![draft@]);
            },
            Ok(None) => {
                assert(before + Seq::<FieldDraftView>::empty() =~= before);
            },
            Err(e) => {
                return Err(e);
            },
        }
        i = i + 1;
    }
    proof {
        lemma_collect_end(draft_views(drafts@), steps);
    }
    let ghost finishing = finish_steps(draft_views(drafts@), texts(object.required@));
    let mut fields: Vec<Field> = Vec::new();
    let mut k: usize = 0;
    proof {
        lemma_collect_start(finishing);
        assert(field_views(fields@) =~= Seq::<FieldView>::empty());
    }
    while k < drafts.len()
        invariant
            k <= drafts@.len(),
            collect(draft_steps(object.properties@)) == Ok::<Seq<FieldDraftView>, ErrorView>(
                draft_views(drafts@),
            ),
            finishing == finish_steps(draft_views(drafts@), texts(object.required@)),
            collect_from(field_views(fields@), finishing, k as int) == collect(finishing),
        decreases drafts.len() - k,
    {
        proof {
            lemma_collect_step(field_views(fields@), finishing, k as int);
            assert(draft_views(drafts@)[k as int] == drafts@[k as int]@);
        }
        let ghost before = field_views(fields@);
        match finish_field(&drafts[k], &object.required) {
            Ok(field) => {
                fields.push(field);
                assert(field_views(fields@) =~= before + seq![field@]);
            },
            Err(e) => {
                return Err(e);
            },
        }
        k = k + 1;
    }
    proof {
        lemma_collect_end(field_views(fields@), finishing);
    }
    Ok(fields)
}

/// Emits the product type for an object schema: one field for each property
/// that is a reference or an inline primitive, in the order of the
/// properties. Nothing is emitted where a reference, a name or a type is
/// refused.
pub fn expand_object(
    outputs: &mut Vec<Definition>,
    object: &ObjectType,
    ident: &str,
    struct_attrs: Vec<String>,
) -> (res: Result<(), Error>)
    ensures
        match object_spec(ident@, texts(struct_attrs@), *object) {
            Ok(definition) => res is Ok && definition_views(final(outputs)@) == definition_views(
                old(outputs)@,
            ).push(definition),
            Err(e) => res is Err && res->Err_0@ == e && *final(outputs) == *old(outputs),
        },
{
    match object_fields(object) {
        Ok(fields) => {
            let ghost before = definition_views(outputs@);
            let definition = Definition {
                doc: struct_attrs,
                ident: ident.to_owned(),
                body: Body::Product { fields },
            };
            outputs.push(definition);
            assert(definition_views(outputs@) =~= before.push(definition@));
            Ok(())
        },
        Err(e) => Err(e),
    }
}

} // verus!
