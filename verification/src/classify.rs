use vstd::prelude::*;
use crate::schema::{Schema, SchemaData, SchemaKind};
use crate::text::{contains_text, str_contains, str_eq, texts};

verus! {

/// The primitive that stands for an inline property.
#[derive(Debug, Clone, Copy, PartialEq, Eq)]
pub enum Primitive {
    /// Free-form text.
    Text,
    /// A 64-bit floating-point number.
    Float,
    /// A point in time, on the wire as seconds since the epoch.
    Timestamp,
    /// A 64-bit unsigned integer.
    Unsigned,
    /// A 64-bit signed integer.
    Signed,
    /// A boolean.
    Boolean,
}

/// The documentation of a schema: its title, then its description.
pub open spec fn doc_spec(data: SchemaData) -> Seq<Seq<char>> {
    (match data.title {
        Some(title) => seq![title@],
        None => Seq::<Seq<char>>::empty(),
    }) + (match data.description {
        Some(description) => seq![description@],
        None => Seq::<Seq<char>>::empty(),
    })
}

/// Whether the schema is the null type: of no single kind, with the declared
/// type `null`.
pub open spec fn is_null_spec(schema: Schema) -> bool {
    match schema.kind {
        SchemaKind::Any(any) => match any.typ {
            Some(typ) => typ@ == "null"@,
            None => false,
        },
        _ => false,
    }
}

/// Whether the description speaks of a timestamp.
pub open spec fn mentions_timestamp(data: SchemaData) -> bool {
    match data.description {
        Some(description) => contains_text(description@, "timestamp"@),
        None => false,
    }
}

/// The primitive for an inline schema, where it has one: text for a string
/// without enumeration, a float for a number, a boolean for a boolean, and
/// for an integer a timestamp where the description speaks of one, else
/// unsigned where the minimum is above zero, else signed.
pub open spec fn classify_spec(schema: Schema) -> Option<Primitive> {
    match schema.kind {
        SchemaKind::String(string) => if string.enumeration@.len() == 0 {
            Some(Primitive::Text)
        } else {
            None
        },
        SchemaKind::Number => Some(Primitive::Float),
        SchemaKind::Integer(integer) => Some(
            if mentions_timestamp(schema.data) {
                Primitive::Timestamp
            } else if integer.minimum is Some && integer.minimum->0 > 0 {
                Primitive::Unsigned
            } else {
                Primitive::Signed
            },
        ),
        SchemaKind::Boolean => Some(Primitive::Boolean),
        _ => None,
    }
}

/// The type that a primitive is written as.
pub open spec fn primitive_type_spec(p: Primitive) -> Seq<char> {
    match p {
        Primitive::Text => "String"@,
        Primitive::Float => "f64"@,
        Primitive::Timestamp => "::chrono::DateTime<::chrono::Utc>"@,
        Primitive::Unsigned => "u64"@,
        Primitive::Signed => "i64"@,
        Primitive::Boolean => "bool"@,
    }
}

/// The codec that serializes a primitive, where it needs one.
pub open spec fn primitive_codec_spec(p: Primitive) -> Option<Seq<char>> {
    match p {
        Primitive::Timestamp => Some("serde_with::TimestampSeconds<i64>"@),
        _ => None,
    }
}

/// The documentation of a schema: its title, then its description.
pub fn build_schema_doc(schema: &Schema) -> (doc: Vec<String>)
    ensures
        texts(doc@) == doc_spec(schema.data),
{
    let mut doc: Vec<String> = Vec::new();
    match &schema.data.title {
        Some(title) => {
            doc.push(title.clone());
        },
        None => {},
    }
    match &schema.data.description {
        Some(description) => {
            doc.push(description.clone());
        },
        None => {},
    }
    assert(texts(doc@) =~= doc_spec(schema.data));
    doc
}

/// Whether the schema is the null type.
pub fn is_null_object(schema: &Schema) -> (null: bool)
    ensures
        null == is_null_spec(*schema),
{
    match &schema.kind {
        SchemaKind::Any(any) => match &any.typ {
            Some(typ) => str_eq(typ.as_str(), "null"),
            None => false,
        },
        _ => false,
    }
}

/// The primitive for an inline schema, where it has one.
pub fn classify(schema: &Schema) -> (p: Option<Primitive>)
    ensures
        p == classify_spec(*schema),
{
    match &schema.kind {
        SchemaKind::String(string) => if string.enumeration.len() == 0 {
            Some(Primitive::Text)
        } else {
            None
        },
        SchemaKind::Number => Some(Primitive::Float),
        SchemaKind::Integer(integer) => {
            let is_timestamp = match &schema.data.description {
                Some(description) => str_contains(description.as_str(), "timestamp"),
                None => false,
            };
            let positive = match integer.minimum {
                Some(minimum) => minimum > 0,
                None => false,
            };
            if is_timestamp {
                Some(Primitive::Timestamp)
            } else if positive {
                Some(Primitive::Unsigned)
            } else {
                Some(Primitive::Signed)
            }
        },
        SchemaKind::Boolean => Some(Primitive::Boolean),
        _ => None,
    }
}

/// The type that a primitive is written as.
pub fn primitive_type(p: Primitive) -> (out: String)
    ensures
        out@ == primitive_type_spec(p),
{
    match p {
        Primitive::Text => String::from_str("String"),
        Primitive::Float => String::from_str("f64"),
        Primitive::Timestamp => String::from_str("::chrono::DateTime<::chrono::Utc>"),
        Primitive::Unsigned => String::from_str("u64"),
        Primitive::Signed => String::from_str("i64"),
        Primitive::Boolean => String::from_str("bool"),
    }
}

/// The codec that serializes a primitive, where it needs one.
pub fn primitive_codec(p: Primitive) -> (out: Option<String>)
    ensures
        crate::definition::optional_text(out) == primitive_codec_spec(p),
{
    match p {
        Primitive::Timestamp => Some(String::from_str("serde_with::TimestampSeconds<i64>")),
        _ => None,
    }
}

} // verus!
