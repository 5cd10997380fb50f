use vstd::prelude::*;
use crate::text::texts;

verus! {

/// One alternative of a sum type.
#[derive(Debug, Clone, PartialEq, Eq)]
pub enum Variant {
    /// A bare tag: `rename` is the wire string, unchanged.
    Unit { ident: String, rename: String },
    /// A variant that carries a value of the referenced type `ty`.
    Newtype { ident: String, ty: String },
    /// The bare variant `Null`, which stands for an explicit null among
    /// enumerated constants; it has no wire string.
    Null,
}

/// One field of a product type.
#[derive(Debug, Clone, PartialEq, Eq)]
pub struct Field {
    /// The wire name, unchanged.
    pub name: String,
    /// The identifier in code.
    pub ident: String,
    /// The type as written, `Option<..>` included where the field is nullable.
    pub ty: String,
    pub nullable: bool,
    /// The codec that serializes the field, if it has one.
    pub with: Option<String>,
    /// Whether the fields of `ty` are merged into the parent on the wire.
    pub flatten: bool,
    pub doc: Vec<String>,
}

/// What an alias stands for.
#[derive(Debug, Clone, PartialEq, Eq)]
pub enum AliasTarget {
    Boolean,
    /// Free-form text.
    Text,
    Sequence { item: String },
}

/// The three forms of an emitted definition.
#[derive(Debug, Clone, PartialEq, Eq)]
pub enum Body {
    Alias { target: AliasTarget },
    Sum { variants: Vec<Variant> },
    Product { fields: Vec<Field> },
}

/// An emitted type definition.
#[derive(Debug, Clone, PartialEq, Eq)]
pub struct Definition {
    pub doc: Vec<String>,
    pub ident: String,
    pub body: Body,
}

/// The mathematical value of a [`Variant`].
pub enum VariantView {
    Unit { ident: Seq<char>, rename: Seq<char> },
    Newtype { ident: Seq<char>, ty: Seq<char> },
    Null,
}

/// The mathematical value of a [`Field`].
pub struct FieldView {
    pub name: Seq<char>,
    pub ident: Seq<char>,
    pub ty: Seq<char>,
    pub nullable: bool,
    pub with: Option<Seq<char>>,
    pub flatten: bool,
    pub doc: Seq<Seq<char>>,
}

/// The mathematical value of an [`AliasTarget`].
pub enum AliasTargetView {
    Boolean,
    Text,
    Sequence { item: Seq<char> },
}

/// The mathematical value of a [`Body`].
pub enum BodyView {
    Alias { target: AliasTargetView },
    Sum { variants: Seq<VariantView> },
    Product { fields: Seq<FieldView> },
}

/// The mathematical value of a [`Definition`].
pub struct DefinitionView {
    pub doc: Seq<Seq<char>>,
    pub ident: Seq<char>,
    pub body: BodyView,
}

/// The text that an optional string holds.
pub open spec fn optional_text(o: Option<String>) -> Option<Seq<char>> {
    match o {
        Some(s) => Some(s@),
        None => None,
    }
}

impl View for Variant {
    type V = VariantView;

    open spec fn view(&self) -> VariantView {
        match *self {
            Variant::Unit { ident, rename } => VariantView::Unit { ident: ident@, rename: rename@ },
            Variant::Newtype { ident, ty } => VariantView::Newtype { ident: ident@, ty: ty@ },
            Variant::Null => VariantView::Null,
        }
    }
}

impl View for Field {
    type V = FieldView;

    open spec fn view(&self) -> FieldView {
        FieldView {
            name: self.name@,
            ident: self.ident@,
            ty: self.ty@,
            nullable: self.nullable,
            with: optional_text(self.with),
            flatten: self.flatten,
            doc: texts(self.doc@),
        }
    }
}

impl View for AliasTarget {
    type V = AliasTargetView;

    open spec fn view(&self) -> AliasTargetView {
        match *self {
            AliasTarget::Boolean => AliasTargetView::Boolean,
            AliasTarget::Text => AliasTargetView::Text,
            AliasTarget::Sequence { item } => AliasTargetView::Sequence { item: item@ },
        }
    }
}

/// The values of the variants `v`.
pub open spec fn variant_views(v: Seq<Variant>) -> Seq<VariantView> {
    v.map_values(|x: Variant| x@)
}

/// The values of the fields `v`.
pub open spec fn field_views(v: Seq<Field>) -> Seq<FieldView> {
    v.map_values(|x: Field| x@)
}

impl View for Body {
    type V = BodyView;

    open spec fn view(&self) -> BodyView {
        match *self {
            Body::Alias { target } => BodyView::Alias { target: target@ },
            Body::Sum { variants } => BodyView::Sum { variants: variant_views(variants@) },
            Body::Product { fields } => BodyView::Product { fields: field_views(fields@) },
        }
    }
}

impl View for Definition {
    type V = DefinitionView;

    open spec fn view(&self) -> DefinitionView {
        DefinitionView { doc: texts(self.doc@), ident: self.ident@, body: self.body@ }
    }
}

/// The values of the definitions `v`.
pub open spec fn definition_views(v: Seq<Definition>) -> Seq<DefinitionView> {
    v.map_values(|x: Definition| x@)
}

} // verus!
