use openai_sdk_codegen::error::Error;
use openai_sdk_codegen::naming::{
    checked_ident, checked_type, convert_parts, convert_variant_parts, format_field_name,
    format_struct_name, format_variant_name, is_digit, join_variant_parts, to_ident, to_type,
    type_ident,
};
use openai_sdk_codegen::reference::parse_reference;
use openai_sdk_codegen::text::{
    append_texts, clone_texts, contains, contains_name, join, last_index_of, matches_at,
    replace_char, same_text, split, str_contains, str_eq, to_chars,
};

fn strings(items: &[&str]) -> Vec<String> {
    items.iter().map(|s| s.to_string()).collect()
}

fn syntax_text(res: Result<String, Error>) -> String {
    match res {
        Err(Error::Syntax { text }) => text,
        other => panic!("expected a syntax error, got {:?}", other),
    }
}

#[test]
fn reference_to_local_schema_resolves() {
    assert_eq!(parse_reference("#/components/schemas/Foo").unwrap(), "Foo");
    assert_eq!(parse_reference("#/components/schemas/Foo-Bar").unwrap(), "Foo-Bar");
}

#[test]
fn reference_with_empty_name_resolves_to_empty() {
    assert_eq!(parse_reference("#/components/schemas/").unwrap(), "");
}

#[test]
fn reference_with_other_prefix_is_rejected() {
    for bad in [
        "#/components/responses/Foo",
        "other.yaml#/components/schemas/Foo",
        "#/components/schemas/a/Foo",
        "/components/schemas/Foo",
        "#/components/schemas",
        "Foo",
        "",
    ] {
        match parse_reference(bad) {
            Err(Error::InvalidReference { reference }) => assert_eq!(reference, bad),
            other => panic!("expected an invalid reference for {:?}, got {:?}", bad, other),
        }
    }
}

#[test]
fn invalid_reference_message_names_the_reference() {
    let err = parse_reference("nope").unwrap_err();
    assert_eq!(err.message(), "Invalid reference: nope");
    let err = Error::Syntax { text: "1x".to_string() };
    assert_eq!(err.message(), "Invalid syntax: 1x");
}

#[test]
fn struct_name_replaces_hyphens_only() {
    assert_eq!(format_struct_name("Foo-Bar-baz"), "Foo_Bar_baz");
    assert_eq!(format_struct_name("fooBar.baz"), "fooBar.baz");
    assert_eq!(format_struct_name(""), "");
}

#[test]
fn variant_name_keeps_underscore_between_segments() {
    assert_eq!(format_variant_name("api_key.created").unwrap(), "ApiKey_Created");
    assert_eq!(format_variant_name("api_key.updated").unwrap(), "ApiKey_Updated");
}

#[test]
fn variant_name_joins_hyphen_parts_with_underscore() {
    assert_eq!(format_variant_name("gpt-4o").unwrap(), "Gpt_4O");
    assert_eq!(format_variant_name("auto").unwrap(), "Auto");
    assert_eq!(format_variant_name("a-b.c-d").unwrap(), "A_B_C_D");
}

#[test]
fn variant_name_with_leading_digit_gets_underscore() {
    assert_eq!(format_variant_name("256x256").unwrap(), "_256X256");
    assert_eq!(format_variant_name("1.5").unwrap(), "_1_5");
}

#[test]
fn variant_name_that_is_no_identifier_is_refused() {
    assert_eq!(syntax_text(format_variant_name("")), "");
    assert_eq!(syntax_text(format_variant_name("a/b")), "A/b");
    assert_eq!(syntax_text(format_variant_name("self")), "Self");
}

#[test]
fn variant_parts_are_cut_and_converted() {
    assert_eq!(
        convert_variant_parts("api_key.created-now"),
        vec![strings(&["ApiKey"]), strings(&["Created", "Now"])]
    );
    assert_eq!(convert_variant_parts(""), vec![strings(&[""])]);
    assert_eq!(convert_parts(&strings(&["hello world", "x"])), strings(&["HelloWorld", "X"]));
}

#[test]
fn variant_parts_join_in_two_levels() {
    let parts = vec![strings(&["ApiKey"]), strings(&["Created", "Now"])];
    assert_eq!(join_variant_parts(&parts), "ApiKey_Created_Now");
    assert_eq!(join_variant_parts(&vec![strings(&["9"]), strings(&["a"])]), "_9_a");
    assert_eq!(join_variant_parts(&vec![]), "");
    assert_eq!(join_variant_parts(&vec![strings(&[])]), "");
}

#[test]
fn digits_are_the_ten_ascii_digits() {
    for c in '0'..='9' {
        assert!(is_digit(c));
    }
    assert!(!is_digit('/'));
    assert!(!is_digit(':'));
    assert!(!is_digit('a'));
    assert!(!is_digit('\u{0663}'));
}

#[test]
fn field_name_replaces_dots() {
    assert_eq!(format_field_name("created_at").unwrap(), "created_at");
    assert_eq!(format_field_name("a.b").unwrap(), "a_b");
}

#[test]
fn field_name_that_is_reserved_becomes_raw() {
    assert_eq!(format_field_name("type").unwrap(), "r#type");
    assert_eq!(format_field_name("match").unwrap(), "r#match");
}

#[test]
fn field_name_without_raw_form_is_refused() {
    assert_eq!(syntax_text(format_field_name("self")), "r#self");
    assert_eq!(syntax_text(format_field_name("1st")), "r#1st");
    assert_eq!(syntax_text(format_field_name("a-b")), "r#a-b");
    assert_eq!(syntax_text(format_field_name("")), "r#");
}

#[test]
fn identifier_is_taken_only_as_written() {
    assert_eq!(to_ident("Foo").unwrap(), "Foo");
    assert_eq!(to_ident("r#type").unwrap(), "r#type");
    assert_eq!(to_ident("né").unwrap(), "né");
    assert_eq!(syntax_text(to_ident(" Foo ")), " Foo ");
    assert_eq!(syntax_text(to_ident("Foo ")), "Foo ");
    assert_eq!(syntax_text(to_ident("Foo // note")), "Foo // note");
    assert_eq!(syntax_text(to_ident("Foo/* note */")), "Foo/* note */");
    assert_eq!(syntax_text(to_ident("type")), "type");
    assert_eq!(syntax_text(to_ident("Foo Bar")), "Foo Bar");
    assert_eq!(syntax_text(to_ident("_")), "_");
}

#[test]
fn checked_identifier_follows_the_parser() {
    assert_eq!(checked_ident("z", Some("z".to_string())).unwrap(), "z");
    assert_eq!(syntax_text(checked_ident("x y", Some("z".to_string()))), "x y");
    assert_eq!(syntax_text(checked_ident(" z", Some("z".to_string()))), " z");
    assert_eq!(syntax_text(checked_ident("x y", None)), "x y");
    assert_eq!(syntax_text(checked_ident("z", None)), "z");
}

#[test]
fn type_ident_applies_struct_name_first() {
    assert_eq!(type_ident("Foo-Bar").unwrap(), "Foo_Bar");
    assert_eq!(syntax_text(type_ident("Foo.Bar")), "Foo.Bar");
}

#[test]
fn type_text_is_kept_where_it_parses() {
    assert_eq!(to_type("Option<Foo>".to_string()).unwrap(), "Option<Foo>");
    assert_eq!(
        to_type("::chrono::DateTime<::chrono::Utc>".to_string()).unwrap(),
        "::chrono::DateTime<::chrono::Utc>"
    );
    assert_eq!(syntax_text(to_type("Vec<".to_string())), "Vec<");
    assert_eq!(syntax_text(to_type("Foo-Bar".to_string())), "Foo-Bar");
    assert_eq!(syntax_text(to_type("".to_string())), "");
}

#[test]
fn checked_type_follows_the_parser() {
    assert_eq!(checked_type("Foo".to_string(), true).unwrap(), "Foo");
    assert_eq!(syntax_text(checked_type("Foo".to_string(), false)), "Foo");
}

#[test]
fn chars_are_read_in_order() {
    let v = to_chars("héllo\n");
    assert_eq!(v, vec!['h', 'é', 'l', 'l', 'o', '\n']);
    assert_eq!(to_chars(""), Vec::<char>::new());
}

#[test]
fn split_yields_one_more_piece_than_separators() {
    assert_eq!(split("a.b.c", '.'), strings(&["a", "b", "c"]));
    assert_eq!(split("", '.'), strings(&[""]));
    assert_eq!(split(".a..", '.'), strings(&["", "a", "", ""]));
    assert_eq!(split("abc", '.'), strings(&["abc"]));
}

#[test]
fn join_puts_separator_between_pieces() {
    assert_eq!(join(&strings(&["a", "b", "c"]), "_"), "a_b_c");
    assert_eq!(join(&strings(&["a"]), "_"), "a");
    assert_eq!(join(&strings(&[]), "_"), "");
    assert_eq!(join(&strings(&["", ""]), "--"), "--");
}

#[test]
fn join_undoes_split() {
    for s in ["a.b.c", "", ".", "..x", "no dots", "é.ü"] {
        assert_eq!(join(&split(s, '.'), "."), s);
        for piece in split(s, '.') {
            assert!(!piece.contains('.'));
        }
    }
}

#[test]
fn replace_char_changes_every_occurrence() {
    assert_eq!(replace_char("a-b-c", '-', '_'), "a_b_c");
    assert_eq!(replace_char("---", '-', '+'), "+++");
    assert_eq!(replace_char("abc", '-', '_'), "abc");
}

#[test]
fn text_search_finds_needles() {
    let hay = to_chars("Unix timestamp (in seconds)");
    assert!(contains(&hay, &to_chars("timestamp")));
    assert!(contains(&hay, &to_chars("")));
    assert!(contains(&hay, &to_chars("seconds)")));
    assert!(!contains(&hay, &to_chars("Timestamp")));
    assert!(!contains(&to_chars(""), &to_chars("x")));
    assert!(contains(&to_chars(""), &to_chars("")));
    assert!(str_contains("a timestamp", "timestamp"));
    assert!(!str_contains("time stamp", "timestamp"));
    assert!(matches_at(&hay, &to_chars("timestamp"), 5));
    assert!(!matches_at(&hay, &to_chars("timestamp"), 4));
    assert!(matches_at(&hay, &to_chars(""), hay.len()));
    assert!(!matches_at(&hay, &to_chars(""), hay.len() + 1));
}

#[test]
fn text_equality_compares_characters() {
    assert!(same_text(&to_chars("abc"), &to_chars("abc")));
    assert!(!same_text(&to_chars("abc"), &to_chars("abd")));
    assert!(!same_text(&to_chars("abc"), &to_chars("ab")));
    assert!(str_eq("", ""));
    assert!(!str_eq("a", ""));
    assert!(contains_name(&strings(&["a", "b"]), "b"));
    assert!(!contains_name(&strings(&["a", "b"]), "c"));
    assert!(!contains_name(&strings(&[]), ""));
}

#[test]
fn last_index_is_the_last_occurrence() {
    assert_eq!(last_index_of(&to_chars("a/b/c"), '/'), Some(3));
    assert_eq!(last_index_of(&to_chars("/"), '/'), Some(0));
    assert_eq!(last_index_of(&to_chars("abc"), '/'), None);
    assert_eq!(last_index_of(&to_chars(""), '/'), None);
}

#[test]
fn text_lists_are_copied_and_appended() {
    let a = strings(&["x", "y"]);
    assert_eq!(clone_texts(&a), a);
    let mut out = strings(&["w"]);
    append_texts(&mut out, a);
    assert_eq!(out, strings(&["w", "x", "y"]));
    append_texts(&mut out, vec![]);
    assert_eq!(out, strings(&["w", "x", "y"]));
}
