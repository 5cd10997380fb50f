use vstd::prelude::*;
use crate::error::{Error, ErrorView};
use crate::text::{
    join, join_spec, nested_texts, replace_char, replace_char_spec, split, split_spec, str_eq,
    texts, to_chars,
};

verus! {

/// What `convert_case` makes of a text in Pascal case.
pub uninterp spec fn pascal_case(s: Seq<char>) -> Seq<char>;

/// What `convert_case` makes of a text in snake case.
pub uninterp spec fn snake_case(s: Seq<char>) -> Seq<char>;

/// The identifier that `syn` reads a text as on `proc-macro2`'s own lexer,
/// written out; `None` where the text is not one identifier (a reserved word
/// is none, nor is `_`).
pub uninterp spec fn ident_tokens(s: Seq<char>) -> Option<Seq<char>>;

/// Whether `syn` reads a text as one type on `proc-macro2`'s own lexer.
pub uninterp spec fn type_syntax(s: Seq<char>) -> bool;

/// Calls `convert_case::Converter::convert` with the converter that
/// `to_case(Case::Pascal)` sets up: the text is split into words at the
/// default boundaries, each word is capitalized, and the words are joined
/// without a delimiter. The result depends on the text alone.
#[verifier::external_body]
fn to_pascal(s: &str) -> (out: String)
    ensures
        out@ == pascal_case(s@),
{
    convert_case::Converter::new().to_case(convert_case::Case::Pascal).convert(s)
}

/// Calls `convert_case::Converter::convert` with the converter that
/// `to_case(Case::Snake)` sets up: the text is split into words at the
/// default boundaries, each word is lowercased, and the words are joined
/// with `_`. The result depends on the text alone.
#[verifier::external_body]
pub(crate) fn to_snake(s: &str) -> (out: String)
    ensures
        out@ == snake_case(s@),
{
    convert_case::Converter::new().to_case(convert_case::Case::Snake).convert(s)
}

/// Calls `syn::parse_str::<syn::Ident>`, which succeeds where the whole text
/// is one identifier that is neither a reserved word nor `_`, and hands back
/// that identifier as `Ident`'s `to_string` writes it. The call stands between
/// `proc_macro2::fallback::force` and `unforce`, so that the text is read by
/// `proc-macro2`'s own lexer in every process, inside a macro expansion too;
/// on that lexer the result depends on the text alone. `unforce` resets a
/// setting of the whole process: a caller who had forced that lexer finds it
/// unforced afterwards.
#[verifier::external_body]
fn parse_ident(s: &str) -> (out: Option<String>)
    ensures
        match out {
            Some(t) => ident_tokens(s@) == Some(t@),
            None => ident_tokens(s@) is None,
        },
{
    proc_macro2::fallback::force();
    let parsed = syn::parse_str::<syn::Ident>(s);
    proc_macro2::fallback::unforce();
    match parsed {
        Ok(ident) => Some(ident.to_string()),
        Err(_) => None,
    }
}

/// Calls `syn::parse_str::<syn::Type>` and says whether it succeeded, which
/// it does where the whole text is one type. The call stands between
/// `proc_macro2::fallback::force` and `unforce`, so that the text is read by
/// `proc-macro2`'s own lexer in every process, inside a macro expansion too;
/// on that lexer the result depends on the text alone. `unforce` resets a
/// setting of the whole process: a caller who had forced that lexer finds it
/// unforced afterwards.
#[verifier::external_body]
fn parses_as_type(s: &str) -> (ok: bool)
    ensures
        ok == type_syntax(s@),
{
    proc_macro2::fallback::force();
    let parsed = syn::parse_str::<syn::Type>(s);
    proc_macro2::fallback::unforce();
    parsed.is_ok()
}

/// The name of the type generated for the schema called `value`: `-` becomes
/// `_`, and nothing else changes.
pub open spec fn struct_name_spec(value: Seq<char>) -> Seq<char> {
    replace_char_spec(value, '-', '_')
}

/// Whether `s` begins with a decimal digit.
pub open spec fn starts_with_digit(s: Seq<char>) -> bool {
    s.len() > 0 && 48 <= s[0] as u32 <= 57
}

/// The identifier text built from the converted parts of an enumerated
/// constant: the parts of a segment joined by `_`, the segments joined by
/// `_`, and a `_` in front where a digit would lead.
pub open spec fn variant_text_of(parts: Seq<Seq<Seq<char>>>) -> Seq<char> {
    let joined = join_spec(parts.map_values(|seg: Seq<Seq<char>>| join_spec(seg, "_"@)), "_"@);
    if starts_with_digit(joined) {
        "_"@ + joined
    } else {
        joined
    }
}

/// The parts of an enumerated constant after conversion: the constant is cut
/// at `.` into segments, each segment at `-` into parts, and each part is put
/// in Pascal case.
pub open spec fn variant_parts(value: Seq<char>) -> Seq<Seq<Seq<char>>> {
    split_spec(value, '.').map_values(
        |seg: Seq<char>| split_spec(seg, '-').map_values(|part: Seq<char>| pascal_case(part)),
    )
}

/// The identifier text for the enumerated constant `value`.
pub open spec fn variant_text(value: Seq<char>) -> Seq<char> {
    variant_text_of(variant_parts(value))
}

/// The outcome of reading `text` as an identifier, given what the parser made
/// of it: the text is taken where the parser read one identifier and that
/// identifier is the text as written, and refused otherwise.
pub open spec fn checked_ident_spec(text: Seq<char>, parsed: Option<Seq<char>>) -> Result<
    Seq<char>,
    ErrorView,
> {
    if parsed == Some(text) {
        Ok(text)
    } else {
        Err(ErrorView::Syntax { text })
    }
}

/// The identifier that `text` is, or the error that it is none.
pub open spec fn ident_spec(text: Seq<char>) -> Result<Seq<char>, ErrorView> {
    checked_ident_spec(text, ident_tokens(text))
}

/// The identifier of the type generated for the schema called `name`.
pub open spec fn type_ident_spec(name: Seq<char>) -> Result<Seq<char>, ErrorView> {
    ident_spec(struct_name_spec(name))
}

/// The identifier of the variant for the enumerated constant `value`.
pub open spec fn variant_name_spec(value: Seq<char>) -> Result<Seq<char>, ErrorView> {
    ident_spec(variant_text(value))
}

/// The property name `value` as identifier text: `.` becomes `_`.
pub open spec fn field_text(value: Seq<char>) -> Seq<char> {
    replace_char_spec(value, '.', '_')
}

/// The identifier of the field for the property called `value`: the name
/// itself where it is a plain identifier, else its raw form.
pub open spec fn field_name_spec(value: Seq<char>) -> Result<Seq<char>, ErrorView> {
    match ident_spec(field_text(value)) {
        Ok(ident) => Ok(ident),
        Err(_) => ident_spec("r#"@ + field_text(value)),
    }
}

/// The type that `text` is, or the error that it is none.
pub open spec fn type_spec(text: Seq<char>) -> Result<Seq<char>, ErrorView> {
    if type_syntax(text) {
        Ok(text)
    } else {
        Err(ErrorView::Syntax { text })
    }
}

/// Whether the result `r` is the value `v`.
pub open spec fn text_result_is(r: Result<String, Error>, v: Result<Seq<char>, ErrorView>) -> bool {
    match v {
        Ok(t) => r is Ok && r->Ok_0@ == t,
        Err(e) => r is Err && r->Err_0@ == e,
    }
}

/// The type name for a schema name: `-` replaced by `_`.
pub fn format_struct_name(value: &str) -> (out: String)
    ensures
        out@ == struct_name_spec(value@),
{
    replace_char(value, '-', '_')
}

/// Joins the converted parts of an enumerated constant into identifier text.
pub fn join_variant_parts(parts: &Vec<Vec<String>>) -> (out: String)
    ensures
        out@ == variant_text_of(nested_texts(parts@)),
{
    let ghost joined_model = nested_texts(parts@).map_values(
        |seg: Seq<Seq<char>>| join_spec(seg, "_"@),
    );
    let mut segments: Vec<String> = Vec::new();
    let mut i: usize = 0;
    while i < parts.len()
        invariant
            i <= parts@.len(),
            joined_model == nested_texts(parts@).map_values(
                |seg: Seq<Seq<char>>| join_spec(seg, "_"@),
            ),
            texts(segments@) == joined_model.subrange(0, i as int),
        decreases parts.len() - i,
    {
        let segment = join(&parts[i], "_");
        assert(joined_model[i as int] == join_spec(nested_texts(parts@)[i as int], "_"@));
        assert(nested_texts(parts@)[i as int] == texts(parts@[i as int]@));
        let ghost before = texts(segments@);
        let ghost added = segment@;
        segments.push(segment);
        i = i + 1;
        assert(texts(segments@) =~= before.push(added));
        assert(before.push(added) =~= joined_model.subrange(0, i as int));
    }
    assert(joined_model.subrange(0, parts@.len() as int) =~= joined_model);
    let joined = join(&segments, "_");
    let chars = to_chars(joined.as_str());
    if chars.len() > 0 && is_digit(chars[0]) {
        String::from_str("_").concat(joined.as_str())
    } else {
        joined
    }
}

/// Whether `c` is a decimal digit.
pub fn is_digit(c: char) -> (digit: bool)
    ensures
        digit == (48 <= c as u32 <= 57),
{
    let code: u32 = c as u32;
    48 <= code && code <= 57
}

/// Turns what the parser made of `text` into the identifier or the error:
/// the parser's identifier is taken only where it is the text as written.
pub fn checked_ident(text: &str, parsed: Option<String>) -> (res: Result<String, Error>)
    ensures
        text_result_is(
            res,
            checked_ident_spec(
                text@,
                match parsed {
                    Some(t) => Some(t@),
                    None => None,
                },
            ),
        ),
{
    match parsed {
        Some(ident) => {
            if str_eq(ident.as_str(), text) {
                Ok(ident)
            } else {
                Err(Error::Syntax { text: text.to_owned() })
            }
        },
        None => Err(Error::Syntax { text: text.to_owned() }),
    }
}

/// Reads `text` as an identifier.
pub fn to_ident(text: &str) -> (res: Result<String, Error>)
    ensures
        text_result_is(res, ident_spec(text@)),
{
    checked_ident(text, parse_ident(text))
}

/// Turns whether the parser took `text` for a type into the type or the error.
pub fn checked_type(text: String, accepted: bool) -> (res: Result<String, Error>)
    ensures
        accepted ==> res is Ok && res->Ok_0@ == text@,
        !accepted ==> res is Err && res->Err_0@ == (ErrorView::Syntax { text: text@ }),
{
    if accepted {
        Ok(text)
    } else {
        Err(Error::Syntax { text })
    }
}

/// Reads `text` as a type.
pub fn to_type(text: String) -> (res: Result<String, Error>)
    ensures
        text_result_is(res, type_spec(text@)),
{
    let accepted = parses_as_type(text.as_str());
    checked_type(text, accepted)
}

/// The identifier of the type generated for the schema called `name`.
pub fn type_ident(name: &str) -> (res: Result<String, Error>)
    ensures
        text_result_is(res, type_ident_spec(name@)),
{
    let text = format_struct_name(name);
    to_ident(text.as_str())
}

/// Puts each of the `pieces` in Pascal case.
pub fn convert_parts(pieces: &Vec<String>) -> (converted: Vec<String>)
    ensures
        texts(converted@) == texts(pieces@).map_values(|part: Seq<char>| pascal_case(part)),
{
    let ghost target = texts(pieces@).map_values(|part: Seq<char>| pascal_case(part));
    let mut converted: Vec<String> = Vec::new();
    let mut k: usize = 0;
    while k < pieces.len()
        invariant
            k <= pieces@.len(),
            target == texts(pieces@).map_values(|part: Seq<char>| pascal_case(part)),
            texts(converted@) == target.subrange(0, k as int),
        decreases pieces.len() - k,
    {
        let word = to_pascal(pieces[k].as_str());
        assert(texts(pieces@)[k as int] == pieces@[k as int]@);
        assert(target[k as int] == pascal_case(texts(pieces@)[k as int]));
        let ghost before = texts(converted@);
        let ghost added = word@;
        converted.push(word);
        k = k + 1;
        assert(texts(converted@) =~= before.push(added));
        assert(before.push(added) =~= target.subrange(0, k as int));
    }
    assert(target.subrange(0, pieces@.len() as int) =~= target);
    converted
}

/// Cuts an enumerated constant at `.` and `-` and puts each part in Pascal
/// case.
pub fn convert_variant_parts(value: &str) -> (parts: Vec<Vec<String>>)
    ensures
        nested_texts(parts@) == variant_parts(value@),
{
    let segments = split(value, '.');
    let mut parts: Vec<Vec<String>> = Vec::new();
    let mut i: usize = 0;
    while i < segments.len()
        invariant
            i <= segments@.len(),
            texts(segments@) == split_spec(value@, '.'),
            nested_texts(parts@) == variant_parts(value@).subrange(0, i as int),
        decreases segments.len() - i,
    {
        let pieces = split(segments[i].as_str(), '-');
        let converted = convert_parts(&pieces);
        assert(texts(segments@)[i as int] == segments@[i as int]@);
        assert(variant_parts(value@)[i as int] == split_spec(
            split_spec(value@, '.')[i as int],
            '-',
        ).map_values(|part: Seq<char>| pascal_case(part)));
        let ghost before = nested_texts(parts@);
        let ghost added = texts(converted@);
        parts.push(converted);
        i = i + 1;
        assert(nested_texts(parts@) =~= before.push(added));
        assert(before.push(added) =~= variant_parts(value@).subrange(0, i as int));
    }
    assert(variant_parts(value@).subrange(0, segments@.len() as int) =~= variant_parts(value@));
    parts
}

/// The variant identifier for an enumerated constant: the constant is cut at
/// `.` into segments and each segment at `-` into parts, each part is put in
/// Pascal case, and parts and segments are joined by `_`; a leading digit
/// gets a `_` in front.
pub fn format_variant_name(value: &str) -> (res: Result<String, Error>)
    ensures
        text_result_is(res, variant_name_spec(value@)),
{
    let parts = convert_variant_parts(value);
    let text = join_variant_parts(&parts);
    to_ident(text.as_str())
}

/// The field identifier for a property name: `.` becomes `_`, and a name
/// that is no plain identifier is taken in its raw form.
pub fn format_field_name(value: &str) -> (res: Result<String, Error>)
    ensures
        text_result_is(res, field_name_spec(value@)),
{
    let text = replace_char(value, '.', '_');
    match to_ident(text.as_str()) {
        Ok(ident) => Ok(ident),
        Err(_) => {
            let raw = String::from_str("r#").concat(text.as_str());
            to_ident(raw.as_str())
        },
    }
}

} // verus!
