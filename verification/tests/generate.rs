use openai_sdk_codegen::definition::{AliasTarget, Body, Definition, Field, Variant};
use openai_sdk_codegen::error::Error;
use openai_sdk_codegen::generate::{generate, generate_source};
use openai_sdk_codegen::models::ResponseInput;
use openai_sdk_codegen::registry::NullableRegistry;
use openai_sdk_codegen::render::{
    field_needs_rename, push_definition, push_directives, push_doc, push_escaped_char,
    push_field, push_fields, push_literal, push_variant, push_variants, render,
};
use openai_sdk_codegen::schema::{
    AnySchema, ArrayType, Document, IntegerType, NamedSchema, ObjectType, Property, ReferenceOr,
    Schema, SchemaData, SchemaKind, StringType,
};

fn schema(kind: SchemaKind) -> Schema {
    Schema { data: SchemaData { title: None, description: None, nullable: false }, kind }
}

fn named(name: &str, kind: SchemaKind) -> NamedSchema {
    NamedSchema { name: name.to_string(), schema: ReferenceOr::Item(schema(kind)) }
}

fn reference(name: &str) -> ReferenceOr {
    ReferenceOr::Reference { reference: format!("#/components/schemas/{}", name) }
}

fn sample() -> Document {
    Document {
        schemas: vec![
            named(
                "Event",
                SchemaKind::String(StringType {
                    enumeration: vec![
                        Some("api_key.created".to_string()),
                        Some("api_key.updated".to_string()),
                    ],
                }),
            ),
            NamedSchema { name: "Alias".to_string(), schema: reference("Event") },
            named(
                "Tier",
                SchemaKind::AnyOf {
                    any_of: vec![
                        ReferenceOr::Item(schema(SchemaKind::String(StringType {
                            enumeration: vec![Some("auto".to_string())],
                        }))),
                        ReferenceOr::Item(schema(SchemaKind::Any(AnySchema {
                            typ: Some("null".to_string()),
                            any_of: vec![],
                        }))),
                    ],
                },
            ),
            named("Count", SchemaKind::Integer(IntegerType { minimum: None })),
            named(
                "Points",
                SchemaKind::Array(ArrayType {
                    items: Some(Box::new(ReferenceOr::Item(schema(SchemaKind::Object(
                        ObjectType {
                            properties: vec![Property {
                                name: "x".to_string(),
                                value: ReferenceOr::Item(schema(SchemaKind::Integer(
                                    IntegerType { minimum: None },
                                ))),
                            }],
                            required: vec!["x".to_string()],
                        },
                    ))))),
                }),
            ),
            named("Both", SchemaKind::AllOf { all_of: vec![reference("A"), reference("B")] }),
        ],
    }
}

fn tokens(source: &str) -> String {
    source.parse::<proc_macro2::TokenStream>().unwrap().to_string()
}

#[test]
fn pass_emits_definitions_in_document_order() {
    let generated = generate(&sample()).unwrap();
    let idents: Vec<&str> = generated.definitions.iter().map(|d| d.ident.as_str()).collect();
    assert_eq!(idents, vec!["Event", "Tier", "PointsItem", "Points", "Both"]);
    assert_eq!(generated.nullable.len(), 1);
    assert!(generated.nullable.contains("Tier"));
}

#[test]
fn pass_source_is_the_expected_code() {
    let source = generate_source(&sample()).unwrap();
    assert_eq!(
        source,
        concat_lines(&[
            "#[derive(Debug, ::serde::Deserialize, ::serde::Serialize)]",
            "pub enum Event {",
            "    #[serde(rename = \"api_key.created\")]",
            "    ApiKey_Created,",
            "    #[serde(rename = \"api_key.updated\")]",
            "    ApiKey_Updated,",
            "}",
            "#[derive(Debug, ::serde::Deserialize, ::serde::Serialize)]",
            "pub enum Tier {",
            "    #[serde(rename = \"auto\")]",
            "    Auto,",
            "}",
            "#[derive(Debug, ::serde::Deserialize, ::serde::Serialize)]",
            "pub struct PointsItem {",
            "    pub x: i64,",
            "}",
            "pub type Points = Vec<PointsItem>;",
            "#[derive(Debug, ::serde::Deserialize, ::serde::Serialize)]",
            "pub struct Both {",
            "    #[serde(flatten)]",
            "    pub a: A,",
            "    #[serde(flatten)]",
            "    pub b: B,",
            "}",
        ])
    );
    assert!(syn::parse_str::<syn::File>(&source).is_ok());
}

fn concat_lines(lines: &[&str]) -> String {
    let mut out = String::new();
    for line in lines {
        out.push_str(line);
        out.push('\n');
    }
    out
}

#[test]
fn pass_twice_gives_identical_output() {
    let first = generate_source(&sample()).unwrap();
    let second = generate_source(&sample()).unwrap();
    assert_eq!(first.as_bytes(), second.as_bytes());
    let a = generate(&sample()).unwrap();
    let b = generate(&sample()).unwrap();
    assert_eq!(a.definitions, b.definitions);
    assert_eq!(a.nullable.len(), b.nullable.len());
    assert_eq!(a.nullable.contains("Tier"), b.nullable.contains("Tier"));
}

#[test]
fn pass_of_empty_document_emits_nothing() {
    let generated = generate(&Document { schemas: vec![] }).unwrap();
    assert!(generated.definitions.is_empty());
    assert_eq!(generated.nullable.len(), 0);
    assert_eq!(generated.to_source(), "");
}

#[test]
fn pass_with_bad_reference_fails_without_definitions() {
    for bad in ["#/components/parameters/X", "X", "file.yaml#/components/schemas/X", ""] {
        let mut document = sample();
        document.schemas.push(named(
            "Broken",
            SchemaKind::AllOf {
                all_of: vec![ReferenceOr::Reference { reference: bad.to_string() }],
            },
        ));
        match generate(&document) {
            Err(Error::InvalidReference { reference }) => assert_eq!(reference, bad),
            Err(other) => panic!("expected a reference error, got {:?}", other),
            Ok(_) => panic!("expected a reference error, got definitions"),
        }
        assert!(matches!(generate_source(&document), Err(Error::InvalidReference { .. })));
    }
}

#[test]
fn pass_with_foreign_array_items_emits_not_even_earlier_definitions() {
    let document = Document {
        schemas: vec![
            named("Good", SchemaKind::Boolean),
            named(
                "Bad",
                SchemaKind::Array(ArrayType {
                    items: Some(Box::new(ReferenceOr::Reference {
                        reference: "#/definitions/X".to_string(),
                    })),
                }),
            ),
        ],
    };
    assert!(matches!(
        generate(&document),
        Err(Error::InvalidReference { ref reference }) if reference == "#/definitions/X"
    ));
    assert!(matches!(
        generate_source(&document),
        Err(Error::InvalidReference { ref reference }) if reference == "#/definitions/X"
    ));
}

#[test]
fn pass_with_foreign_reference_deep_in_inline_items_fails() {
    let object = schema(SchemaKind::Object(ObjectType {
        properties: vec![Property {
            name: "owner".to_string(),
            value: ReferenceOr::Reference { reference: "users.yaml#/User".to_string() },
        }],
        required: vec![],
    }));
    let inner = schema(SchemaKind::Array(ArrayType {
        items: Some(Box::new(ReferenceOr::Item(object))),
    }));
    let document = Document {
        schemas: vec![
            named("Good", SchemaKind::Boolean),
            named(
                "Grid",
                SchemaKind::Array(ArrayType { items: Some(Box::new(ReferenceOr::Item(inner))) }),
            ),
        ],
    };
    assert!(matches!(
        generate(&document),
        Err(Error::InvalidReference { ref reference }) if reference == "users.yaml#/User"
    ));
}

#[test]
fn pass_with_null_constant_emits_its_variant() {
    let document = Document {
        schemas: vec![named(
            "E",
            SchemaKind::String(StringType { enumeration: vec![Some("a".to_string()), None] }),
        )],
    };
    assert_eq!(
        generate_source(&document).unwrap(),
        "#[derive(Debug, ::serde::Deserialize, ::serde::Serialize)]\npub enum E {\n    #[serde(rename = \"a\")]\n    A,\n    Null,\n}\n"
    );
}

#[test]
fn raw_identifier_is_not_renamed_to_its_own_name() {
    let field = |name: &str, ident: &str| Field {
        name: name.to_string(),
        ident: ident.to_string(),
        ty: "T".to_string(),
        nullable: false,
        with: None,
        flatten: false,
        doc: vec![],
    };
    assert!(!field_needs_rename(&field("type", "r#type")));
    assert!(!field_needs_rename(&field("id", "id")));
    assert!(field_needs_rename(&field("a.b", "a_b")));
    assert!(field_needs_rename(&field("r#type", "r#type")));
    assert!(field_needs_rename(&field("typ", "r#type")));
    assert!(field_needs_rename(&field("", "r#")) == false);
    let mut out = String::new();
    push_field(&mut out, &field("type", "r#type"));
    assert_eq!(out, "    pub r#type: T,\n");
    let mut flat = field("other", "a");
    flat.flatten = true;
    assert!(!field_needs_rename(&flat));
}

#[test]
fn pass_reports_first_failing_entry() {
    let document = Document {
        schemas: vec![
            named("bad name", SchemaKind::Boolean),
            named(
                "Broken",
                SchemaKind::AllOf {
                    all_of: vec![ReferenceOr::Reference { reference: "x".to_string() }],
                },
            ),
        ],
    };
    assert!(matches!(generate(&document), Err(Error::Syntax { ref text }) if text == "bad name"));
}

#[test]
fn emitted_unit_variants_keep_their_wire_strings() {
    let constants = ["api_key.created", "né", "x-y", "hello world", "UPPER", "1.5"];
    let document = Document {
        schemas: vec![named(
            "E",
            SchemaKind::String(StringType {
                enumeration: constants.iter().map(|c| Some(c.to_string())).collect(),
            }),
        )],
    };
    let generated = generate(&document).unwrap();
    let variants = match &generated.definitions[0].body {
        Body::Sum { variants } => variants,
        other => panic!("expected a sum, got {:?}", other),
    };
    assert_eq!(variants.len(), constants.len());
    for (variant, constant) in variants.iter().zip(constants.iter()) {
        match variant {
            Variant::Unit { rename, .. } => assert_eq!(rename, constant),
            other => panic!("expected a bare variant, got {:?}", other),
        }
    }
    let file = syn::parse_str::<syn::ItemEnum>(&generated.to_source()).unwrap();
    for (variant, constant) in file.variants.iter().zip(constants.iter()) {
        let list = variant.attrs[0].meta.require_list().unwrap();
        let pair = list.parse_args::<syn::MetaNameValue>().unwrap();
        match pair.value {
            syn::Expr::Lit(syn::ExprLit { lit: syn::Lit::Str(s), .. }) => {
                assert_eq!(s.value(), *constant)
            }
            _ => panic!("expected a string literal"),
        }
    }
}

#[test]
fn literal_escapes_quotes_and_controls() {
    let mut out = String::new();
    push_literal(&mut out, "a\"b\\c\nd\re\tf\0g é");
    assert_eq!(out, "\"a\\\"b\\\\c\\nd\\re\\tf\\0g é\"");
    let parsed = syn::parse_str::<syn::LitStr>(&out).unwrap();
    assert_eq!(parsed.value(), "a\"b\\c\nd\re\tf\0g é");
    let mut out = String::from("x");
    push_literal(&mut out, "");
    assert_eq!(out, "x\"\"");
    let mut out = String::new();
    push_escaped_char(&mut out, '"');
    push_escaped_char(&mut out, 'q');
    assert_eq!(out, "\\\"q");
}

#[test]
fn doc_lines_are_attributes() {
    let mut out = String::new();
    push_doc(&mut out, "  ", &vec!["one".to_string(), "two \"2\"".to_string()]);
    assert_eq!(out, "  #[doc = \"one\"]\n  #[doc = \"two \\\"2\\\"\"]\n");
    let mut out = String::from("keep");
    push_doc(&mut out, "", &vec![]);
    assert_eq!(out, "keep");
}

#[test]
fn variants_render_bare_and_carrying() {
    let bare = Variant::Unit { ident: "Auto".to_string(), rename: "auto".to_string() };
    let carrying = Variant::Newtype { ident: "Foo".to_string(), ty: "Foo".to_string() };
    let mut out = String::new();
    push_variant(&mut out, &bare);
    assert_eq!(out, "    #[serde(rename = \"auto\")]\n    Auto,\n");
    let mut out = String::new();
    push_variant(&mut out, &carrying);
    assert_eq!(out, "    Foo(Foo),\n");
    let mut out = String::new();
    push_variants(&mut out, &vec![carrying, bare]);
    assert_eq!(out, "    Foo(Foo),\n    #[serde(rename = \"auto\")]\n    Auto,\n");
}

#[test]
fn fields_render_directives_in_order() {
    let field = Field {
        name: "created.at".to_string(),
        ident: "created_at".to_string(),
        ty: "Option<T>".to_string(),
        nullable: true,
        with: Some("::serde_with::As::<Option<C>>".to_string()),
        flatten: false,
        doc: vec!["When.".to_string()],
    };
    let mut out = String::new();
    push_field(&mut out, &field);
    assert_eq!(
        out,
        "    #[doc = \"When.\"]\n    #[serde(rename = \"created.at\")]\n    #[serde(with = \"::serde_with::As::<Option<C>>\")]\n    pub created_at: Option<T>,\n"
    );
    let flat = Field {
        name: "other".to_string(),
        ident: "a".to_string(),
        ty: "A".to_string(),
        nullable: false,
        with: None,
        flatten: true,
        doc: vec![],
    };
    let mut out = String::new();
    push_directives(&mut out, &flat);
    assert_eq!(out, "    #[serde(flatten)]\n");
    let mut out = String::new();
    push_fields(&mut out, &vec![flat]);
    assert_eq!(out, "    #[serde(flatten)]\n    pub a: A,\n");
}

#[test]
fn definitions_render_in_order() {
    let alias = Definition {
        doc: vec!["A flag.".to_string()],
        ident: "Flag".to_string(),
        body: Body::Alias { target: AliasTarget::Boolean },
    };
    let list = Definition {
        doc: vec![],
        ident: "Flags".to_string(),
        body: Body::Alias { target: AliasTarget::Sequence { item: "Flag".to_string() } },
    };
    let empty = Definition {
        doc: vec![],
        ident: "Nothing".to_string(),
        body: Body::Sum { variants: vec![] },
    };
    let text = Definition {
        doc: vec![],
        ident: "Name".to_string(),
        body: Body::Alias { target: AliasTarget::Text },
    };
    assert_eq!(text.to_source(), "pub type Name = String;\n");
    assert_eq!(alias.to_source(), "#[doc = \"A flag.\"]\npub type Flag = bool;\n");
    let mut out = String::from("// head\n");
    push_definition(&mut out, &list);
    assert_eq!(out, "// head\npub type Flags = Vec<Flag>;\n");
    assert_eq!(
        render(&vec![alias, list, empty]),
        "#[doc = \"A flag.\"]\npub type Flag = bool;\npub type Flags = Vec<Flag>;\n#[derive(Debug, ::serde::Deserialize, ::serde::Serialize)]\npub enum Nothing {\n}\n"
    );
    assert_eq!(tokens(&render(&vec![])), "");
}

#[test]
fn registry_holds_each_name_once() {
    let mut registry = NullableRegistry::new();
    assert_eq!(registry.len(), 0);
    assert!(!registry.contains("A"));
    assert!(registry.insert("A".to_string()));
    assert!(registry.insert("B".to_string()));
    assert!(!registry.insert("A".to_string()));
    assert_eq!(registry.len(), 2);
    assert!(registry.contains("A"));
    assert!(registry.contains("B"));
    assert!(!registry.contains("C"));
}

#[test]
fn response_input_converts_from_its_parts() {
    assert!(matches!(ResponseInput::from("Hello".to_string()), ResponseInput::Text(ref t) if t == "Hello"));
    assert!(matches!(ResponseInput::from(Vec::new()), ResponseInput::ItemList(ref items) if items.is_empty()));
}
