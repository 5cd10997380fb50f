use vstd::prelude::*;
use crate::definition::{
    definition_views, field_views, variant_views, AliasTarget, AliasTargetView, Body, BodyView,
    Definition, DefinitionView, Field, FieldView, Variant, VariantView,
};
use crate::text::{matches_at, same_text, texts, to_chars};

verus! {

/// How one character stands inside a string literal.
pub open spec fn escape_char(c: char) -> Seq<char> {
    if c == '"' {
        seq!['\\', '"']
    } else if c == '\\' {
        seq!['\\', '\\']
    } else if c == '\n' {
        seq!['\\', 'n']
    } else if c == '\r' {
        seq!['\\', 'r']
    } else if c == '\t' {
        seq!['\\', 't']
    } else if c == '\0' {
        seq!['\\', '0']
    } else {
        seq![c]
    }
}

/// How a text stands inside a string literal.
pub open spec fn escape_spec(s: Seq<char>) -> Seq<char> {
    s.map_values(|c: char| escape_char(c)).flatten()
}

/// The string literal that holds the text `s`.
pub open spec fn literal_spec(s: Seq<char>) -> Seq<char> {
    seq!['"'] + escape_spec(s) + seq!['"']
}

/// One line of documentation, as an attribute behind `indent`.
pub open spec fn doc_line_spec(indent: Seq<char>, line: Seq<char>) -> Seq<char> {
    indent + "#[doc = "@ + literal_spec(line) + "]\n"@
}

/// The documentation, one attribute for each line.
pub open spec fn doc_spec(indent: Seq<char>, doc: Seq<Seq<char>>) -> Seq<char> {
    doc.map_values(|line: Seq<char>| doc_line_spec(indent, line)).flatten()
}

/// One variant as source text: a bare variant under its wire string, a
/// variant that carries a type, or the bare variant that stands for null.
pub open spec fn variant_spec(v: VariantView) -> Seq<char> {
    match v {
        VariantView::Unit { ident, rename } => "    #[serde(rename = "@ + literal_spec(rename)
            + ")]\n    "@ + ident + ",\n"@,
        VariantView::Newtype { ident, ty } => "    "@ + ident + "("@ + ty + "),\n"@,
        VariantView::Null => "    Null,\n"@,
    }
}

/// Whether an identifier is in its raw form.
pub open spec fn is_raw(ident: Seq<char>) -> bool {
    ident.len() >= 2 && ident[0] == 'r' && ident[1] == '#'
}

/// An identifier without the `r#` of its raw form, which is how it stands on
/// the wire.
pub open spec fn bare_ident(ident: Seq<char>) -> Seq<char> {
    if is_raw(ident) {
        ident.subrange(2, ident.len() as int)
    } else {
        ident
    }
}

/// Whether a field is written with its wire name: it is not flattened, and
/// its identifier, taken without `r#`, differs from the name.
pub open spec fn needs_rename(f: FieldView) -> bool {
    !f.flatten && bare_ident(f.ident) != f.name
}

/// The serialization directives of a field, one line each.
pub open spec fn directives_spec(f: FieldView) -> Seq<char> {
    (if f.flatten {
        "    #[serde(flatten)]\n"@
    } else {
        Seq::<char>::empty()
    }) + (if needs_rename(f) {
        "    #[serde(rename = "@ + literal_spec(f.name) + ")]\n"@
    } else {
        Seq::<char>::empty()
    }) + (match f.with {
        Some(path) => "    #[serde(with = "@ + literal_spec(path) + ")]\n"@,
        None => Seq::<char>::empty(),
    })
}

/// One field as source text: documentation, directives, then the field.
pub open spec fn field_spec(f: FieldView) -> Seq<char> {
    doc_spec("    "@, f.doc) + directives_spec(f) + "    pub "@ + f.ident + ": "@ + f.ty
        + ",\n"@
}

/// What an alias stands for, as source text.
pub open spec fn target_spec(t: AliasTargetView) -> Seq<char> {
    match t {
        AliasTargetView::Boolean => "bool"@,
        AliasTargetView::Text => "String"@,
        AliasTargetView::Sequence { item } => "Vec<"@ + item + ">"@,
    }
}

/// The line that derives the serialization of a sum or product type.
pub open spec fn derive_spec() -> Seq<char> {
    "#[derive(Debug, ::serde::Deserialize, ::serde::Serialize)]\n"@
}

/// The variants as source text, in order.
pub open spec fn variants_spec(variants: Seq<VariantView>) -> Seq<char> {
    variants.map_values(|v: VariantView| variant_spec(v)).flatten()
}

/// The fields as source text, in order.
pub open spec fn fields_spec(fields: Seq<FieldView>) -> Seq<char> {
    fields.map_values(|f: FieldView| field_spec(f)).flatten()
}

/// The body of a definition as source text.
pub open spec fn body_spec(ident: Seq<char>, body: BodyView) -> Seq<char> {
    match body {
        BodyView::Alias { target } => "pub type "@ + ident + " = "@ + target_spec(target)
            + ";\n"@,
        BodyView::Sum { variants } => derive_spec() + "pub enum "@ + ident + " {\n"@
            + variants_spec(variants) + "}\n"@,
        BodyView::Product { fields } => derive_spec() + "pub struct "@ + ident + " {\n"@
            + fields_spec(fields) + "}\n"@,
    }
}

/// A definition as source text: its documentation, then its body.
pub open spec fn definition_spec(d: DefinitionView) -> Seq<char> {
    doc_spec(Seq::<char>::empty(), d.doc) + body_spec(d.ident, d.body)
}

/// The definitions as source text, in order.
pub open spec fn source_spec(definitions: Seq<DefinitionView>) -> Seq<char> {
    definitions.map_values(|d: DefinitionView| definition_spec(d)).flatten()
}

/// Appends `c` as it stands inside a string literal.
pub fn push_escaped_char(out: &mut String, c: char)
    ensures
        final(out)@ == old(out)@ + escape_char(c),
{
    let ghost before = out@;
    if c == '"' {
        out.push('\\');
        out.push('"');
    } else if c == '\\' {
        out.push('\\');
        out.push('\\');
    } else if c == '\n' {
        out.push('\\');
        out.push('n');
    } else if c == '\r' {
        out.push('\\');
        out.push('r');
    } else if c == '\t' {
        out.push('\\');
        out.push('t');
    } else if c == '\0' {
        out.push('\\');
        out.push('0');
    } else {
        out.push(c);
    }
    assert(out@ =~= before + escape_char(c));
}

/// Appends the string literal that holds the text `s`.
pub fn push_literal(out: &mut String, s: &str)
    ensures
        final(out)@ == old(out)@ + literal_spec(s@),
{
    let ghost before = out@;
    let ghost rows = s@.map_values(|c: char| escape_char(c));
    let chars = to_chars(s);
    out.push('"');
    let mut i: usize = 0;
    assert(rows.subrange(0, 0) =~= Seq::<Seq<char>>::empty());
    assert(out@ =~= before + seq!['"'] + rows.subrange(0, 0).flatten());
    while i < chars.len()
        invariant
            i <= chars@.len(),
            chars@ == s@,
            rows == s@.map_values(|c: char| escape_char(c)),
            out@ == before + seq!['"'] + rows.subrange(0, i as int).flatten(),
        decreases chars.len() - i,
    {
        proof {
            assert(rows.subrange(0, i + 1) =~= rows.subrange(0, i as int).push(rows[i as int]));
            rows.subrange(0, i as int).lemma_flatten_push(rows[i as int]);
        }
        push_escaped_char(out, chars[i]);
        i = i + 1;
        assert(out@ =~= before + seq!['"'] + rows.subrange(0, i as int).flatten());
    }
    assert(rows.subrange(0, chars@.len() as int) =~= rows);
    out.push('"');
    assert(out@ =~= before + literal_spec(s@));
}

/// Appends the documentation, one attribute for each line.
pub fn push_doc(out: &mut String, indent: &str, doc: &Vec<String>)
    ensures
        final(out)@ == old(out)@ + doc_spec(indent@, texts(doc@)),
{
    let ghost before = out@;
    let ghost rows = texts(doc@).map_values(|line: Seq<char>| doc_line_spec(indent@, line));
    let mut i: usize = 0;
    assert(rows.subrange(0, 0) =~= Seq::<Seq<char>>::empty());
    assert(out@ =~= before + rows.subrange(0, 0).flatten());
    while i < doc.len()
        invariant
            i <= doc@.len(),
            rows == texts(doc@).map_values(|line: Seq<char>| doc_line_spec(indent@, line)),
            out@ == before + rows.subrange(0, i as int).flatten(),
        decreases doc.len() - i,
    {
        proof {
            assert(rows.subrange(0, i + 1) =~= rows.subrange(0, i as int).push(rows[i as int]));
            rows.subrange(0, i as int).lemma_flatten_push(rows[i as int]);
            assert(texts(doc@)[i as int] == doc@[i as int]@);
        }
        let ghost so_far = out@;
        out.append(indent);
        out.append("#[doc = ");
        push_literal(out, doc[i].as_str());
        out.append("]\n");
        assert(out@ =~= so_far + doc_line_spec(indent@, doc@[i as int]@));
        i = i + 1;
        assert(out@ =~= before + rows.subrange(0, i as int).flatten());
    }
    assert(rows.subrange(0, doc@.len() as int) =~= rows);
}

/// Appends one variant as source text.
pub fn push_variant(out: &mut String, v: &Variant)
    ensures
        final(out)@ == old(out)@ + variant_spec(v@),
{
    let ghost before = out@;
    match v {
        Variant::Unit { ident, rename } => {
            out.append("    #[serde(rename = ");
            push_literal(out, rename.as_str());
            out.append(")]\n    ");
            out.append(ident.as_str());
            out.append(",\n");
        },
        Variant::Newtype { ident, ty } => {
            out.append("    ");
            out.append(ident.as_str());
            out.append("(");
            out.append(ty.as_str());
            out.append("),\n");
        },
        Variant::Null => {
            out.append("    Null,\n");
        },
    }
    assert(out@ =~= before + variant_spec(v@));
}

/// Whether a field is written with its wire name.
pub fn field_needs_rename(f: &Field) -> (needed: bool)
    ensures
        needed == needs_rename(f@),
{
    if f.flatten {
        return false;
    }
    let ident = to_chars(f.ident.as_str());
    let name = to_chars(f.name.as_str());
    if ident.len() >= 2 && ident[0] == 'r' && ident[1] == '#' {
        let same = name.len() == ident.len() - 2 && matches_at(&ident, &name, 2);
        assert(same == (ident@.subrange(2, ident@.len() as int) == name@));
        !same
    } else {
        !same_text(&ident, &name)
    }
}

/// Appends the serialization directives of a field.
pub fn push_directives(out: &mut String, f: &Field)
    ensures
        final(out)@ == old(out)@ + directives_spec(f@),
{
    let ghost before = out@;
    if f.flatten {
        out.append("    #[serde(flatten)]\n");
    }
    if field_needs_rename(f) {
        out.append("    #[serde(rename = ");
        push_literal(out, f.name.as_str());
        out.append(")]\n");
    }
    match &f.with {
        Some(path) => {
            out.append("    #[serde(with = ");
            push_literal(out, path.as_str());
            out.append(")]\n");
        },
        None => {},
    }
    assert(out@ =~= before + directives_spec(f@));
}

/// Appends one field as source text.
pub fn push_field(out: &mut String, f: &Field)
    ensures
        final(out)@ == old(out)@ + field_spec(f@),
{
    let ghost before = out@;
    push_doc(out, "    ", &f.doc);
    push_directives(out, f);
    out.append("    pub ");
    out.append(f.ident.as_str());
    out.append(": ");
    out.append(f.ty.as_str());
    out.append(",\n");
    assert(out@ =~= before + field_spec(f@));
}

/// Appends the variants as source text, in order.
pub fn push_variants(out: &mut String, variants: &Vec<Variant>)
    ensures
        final(out)@ == old(out)@ + variants_spec(variant_views(variants@)),
{
    let ghost before = out@;
    let ghost rows = variant_views(variants@).map_values(|v: VariantView| variant_spec(v));
    let mut i: usize = 0;
    assert(rows.subrange(0, 0) =~= Seq::<Seq<char>>::empty());
    assert(out@ =~= before + rows.subrange(0, 0).flatten());
    while i < variants.len()
        invariant
            i <= variants@.len(),
            rows == variant_views(variants@).map_values(|v: VariantView| variant_spec(v)),
            out@ == before + rows.subrange(0, i as int).flatten(),
        decreases variants.len() - i,
    {
        proof {
            assert(rows.subrange(0, i + 1) =~= rows.subrange(0, i as int).push(rows[i as int]));
            rows.subrange(0, i as int).lemma_flatten_push(rows[i as int]);
            assert(variant_views(variants@)[i as int] == variants@[i as int]@);
        }
        push_variant(out, &variants[i]);
        i = i + 1;
        assert(out@ =~= before + rows.subrange(0, i as int).flatten());
    }
    assert(rows.subrange(0, variants@.len() as int) =~= rows);
}

/// Appends the fields as source text, in order.
pub fn push_fields(out: &mut String, fields: &Vec<Field>)
    ensures
        final(out)@ == old(out)@ + fields_spec(field_views(fields@)),
{
    let ghost before = out@;
    let ghost rows = field_views(fields@).map_values(|f: FieldView| field_spec(f));
    let mut i: usize = 0;
    assert(rows.subrange(0, 0) =~= Seq::<Seq<char>>::empty());
    assert(out@ =~= before + rows.subrange(0, 0).flatten());
    while i < fields.len()
        invariant
            i <= fields@.len(),
            rows == field_views(fields@).map_values(|f: FieldView| field_spec(f)),
            out@ == before + rows.subrange(0, i as int).flatten(),
        decreases fields.len() - i,
    {
        proof {
            assert(rows.subrange(0, i + 1) =~= rows.subrange(0, i as int).push(rows[i as int]));
            rows.subrange(0, i as int).lemma_flatten_push(rows[i as int]);
            assert(field_views(fields@)[i as int] == fields@[i as int]@);
        }
        push_field(out, &fields[i]);
        i = i + 1;
        assert(out@ =~= before + rows.subrange(0, i as int).flatten());
    }
    assert(rows.subrange(0, fields@.len() as int) =~= rows);
}

/// Appends a definition as source text.
pub fn push_definition(out: &mut String, d: &Definition)
    ensures
        final(out)@ == old(out)@ + definition_spec(d@),
{
    let ghost before = out@;
    push_doc(out, "", &d.doc);
    proof {
        reveal_strlit("");
        assert(""@ =~= Seq::<char>::empty());
    }
    match &d.body {
        Body::Alias { target } => {
            out.append("pub type ");
            out.append(d.ident.as_str());
            out.append(" = ");
            match target {
                AliasTarget::Boolean => {
                    out.append("bool");
                },
                AliasTarget::Text => {
                    out.append("String");
                },
                AliasTarget::Sequence { item } => {
                    out.append("Vec<");
                    out.append(item.as_str());
                    out.append(">");
                },
            }
            out.append(";\n");
        },
        Body::Sum { variants } => {
            out.append("#[derive(Debug, ::serde::Deserialize, ::serde::Serialize)]\n");
            out.append("pub enum ");
            out.append(d.ident.as_str());
            out.append(" {\n");
            push_variants(out, variants);
            out.append("}\n");
        },
        Body::Product { fields } => {
            out.append("#[derive(Debug, ::serde::Deserialize, ::serde::Serialize)]\n");
            out.append("pub struct ");
            out.append(d.ident.as_str());
            out.append(" {\n");
            push_fields(out, fields);
            out.append("}\n");
        },
    }
    assert(out@ =~= before + definition_spec(d@));
}

impl Definition {
    /// This definition as source text.
    pub fn to_source(&self) -> (out: String)
        ensures
            out@ == definition_spec(self@),
    {
        let mut out: String = String::new();
        push_definition(&mut out, self);
        assert(out@ =~= definition_spec(self@));
        out
    }
}

/// The definitions as source text, in order.
pub fn render(definitions: &Vec<Definition>) -> (out: String)
    ensures
        out@ == source_spec(definition_views(definitions@)),
{
    let ghost rows = definition_views(definitions@).map_values(
        |d: DefinitionView| definition_spec(d),
    );
    let mut out: String = String::new();
    let mut i: usize = 0;
    assert(rows.subrange(0, 0) =~= Seq::<Seq<char>>::empty());
    assert(out@ =~= rows.subrange(0, 0).flatten());
    while i < definitions.len()
        invariant
            i <= definitions@.len(),
            rows == definition_views(definitions@).map_values(
                |d: DefinitionView| definition_spec(d),
            ),
            out@ == rows.subrange(0, i as int).flatten(),
        decreases definitions.len() - i,
    {
        proof {
            assert(rows.subrange(0, i + 1) =~= rows.subrange(0, i as int).push(rows[i as int]));
            rows.subrange(0, i as int).lemma_flatten_push(rows[i as int]);
            assert(definition_views(definitions@)[i as int] == definitions@[i as int]@);
        }
        push_definition(&mut out, &definitions[i]);
        i = i + 1;
    }
    assert(rows.subrange(0, definitions@.len() as int) =~= rows);
    out
}

} // verus!
