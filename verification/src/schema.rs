use vstd::prelude::*;

verus! {

/// What a schema says about itself besides its kind.
#[derive(Debug, PartialEq, Eq)]
pub struct SchemaData {
    pub title: Option<String>,
    pub description: Option<String>,
    pub nullable: bool,
}

/// A string schema; an enumerated constant may be an explicit null.
#[derive(Debug, PartialEq, Eq)]
pub struct StringType {
    pub enumeration: Vec<Option<String>>,
}

/// An integer schema.
#[derive(Debug, PartialEq, Eq)]
pub struct IntegerType {
    pub minimum: Option<i64>,
}

/// An array schema.
#[derive(Debug, PartialEq, Eq)]
pub struct ArrayType {
    pub items: Option<Box<ReferenceOr>>,
}

/// An object schema, its properties in the document's order.
#[derive(Debug, PartialEq, Eq)]
pub struct ObjectType {
    pub properties: Vec<Property>,
    pub required: Vec<String>,
}

/// A schema of no single declared kind.
#[derive(Debug, PartialEq, Eq)]
pub struct AnySchema {
    pub typ: Option<String>,
    pub any_of: Vec<ReferenceOr>,
}

/// The declared kind of a schema.
#[derive(Debug, PartialEq, Eq)]
pub enum SchemaKind {
    String(StringType),
    Number,
    Integer(IntegerType),
    Boolean,
    Array(ArrayType),
    Object(ObjectType),
    AnyOf { any_of: Vec<ReferenceOr> },
    AllOf { all_of: Vec<ReferenceOr> },
    Any(AnySchema),
    /// Any other kind; nothing is generated for it.
    Other,
}

/// One entry of the document that describes the shape of a value.
#[derive(Debug, PartialEq, Eq)]
pub struct Schema {
    pub data: SchemaData,
    pub kind: SchemaKind,
}

/// A schema given in place, or a reference to a named one.
#[derive(Debug, PartialEq, Eq)]
pub enum ReferenceOr {
    Reference { reference: String },
    Item(Schema),
}

/// A property of an object schema.
#[derive(Debug, PartialEq, Eq)]
pub struct Property {
    pub name: String,
    pub value: ReferenceOr,
}

/// A named entry of the document's schema map.
#[derive(Debug, PartialEq, Eq)]
pub struct NamedSchema {
    pub name: String,
    pub schema: ReferenceOr,
}

/// The named schemas of a document, in the document's order.
#[derive(Debug, PartialEq, Eq)]
pub struct Document {
    pub schemas: Vec<NamedSchema>,
}

} // verus!
