use vstd::prelude::*;
use crate::collect::{
    collect, collect_from, lemma_collect_end, lemma_collect_start, lemma_collect_step,
};
use crate::definition::{definition_views, Definition, DefinitionView};
use crate::error::{Error, ErrorView};
use crate::expand::{expand_schema, expand_schema_spec, nothing, Emission};
use crate::registry::NullableRegistry;
use crate::render::{render, source_spec};
use crate::schema::{Document, NamedSchema, ReferenceOr};

verus! {

/// What a generation pass yields: the definitions in the order in which they
/// were emitted, and the registry of the schemas found to admit null.
pub struct Generated {
    pub definitions: Vec<Definition>,
    pub nullable: NullableRegistry,
}

/// What one entry of the schema map adds. An entry that is itself a
/// reference adds nothing.
pub open spec fn entry_spec(entry: NamedSchema) -> Result<Emission, ErrorView> {
    match entry.schema {
        ReferenceOr::Reference { .. } => Ok(nothing()),
        ReferenceOr::Item(schema) => expand_schema_spec(entry.name@, schema),
    }
}

/// The definitions that one entry adds.
pub open spec fn entry_definitions(entry: NamedSchema) -> Result<Seq<DefinitionView>, ErrorView> {
    match entry_spec(entry) {
        Ok(emission) => Ok(emission.definitions),
        Err(e) => Err(e),
    }
}

/// The names that one entry enters into the registry.
pub open spec fn entry_nullable(entry: NamedSchema) -> Set<Seq<char>> {
    match entry_spec(entry) {
        Ok(emission) => emission.nullable,
        Err(_) => Set::<Seq<char>>::empty(),
    }
}

/// The steps of a pass, one for each entry.
pub open spec fn entry_steps(schemas: Seq<NamedSchema>) -> Seq<
    Result<Seq<DefinitionView>, ErrorView>,
> {
    schemas.map_values(|entry: NamedSchema| entry_definitions(entry))
}

/// The definitions of a document: those of its entries, in the order of the
/// entries, or the error of the first entry that fails.
pub open spec fn definitions_spec(document: Document) -> Result<Seq<DefinitionView>, ErrorView> {
    collect(entry_steps(document.schemas@))
}

/// The names that the first `n` entries enter into the registry.
pub open spec fn nullable_upto(schemas: Seq<NamedSchema>, n: int) -> Set<Seq<char>> {
    Set::new(
        |name: Seq<char>|
            exists|k: int| 0 <= k < n && #[trigger] entry_nullable(schemas[k]).contains(name),
    )
}

/// The names that a document enters into the registry.
pub open spec fn nullable_spec(document: Document) -> Set<Seq<char>> {
    nullable_upto(document.schemas@, document.schemas@.len() as int)
}

/// One entry further, the registry holds what that entry enters as well.
pub proof fn lemma_nullable_step(schemas: Seq<NamedSchema>, n: int)
    requires
        0 <= n < schemas.len(),
    ensures
        nullable_upto(schemas, n + 1) == nullable_upto(schemas, n).union(
            entry_nullable(schemas[n]),
        ),
{
    let bigger = nullable_upto(schemas, n + 1);
    let joined = nullable_upto(schemas, n).union(entry_nullable(schemas[n]));
    assert forall|name: Seq<char>| bigger.contains(name) <==> joined.contains(name) by {
        if bigger.contains(name) {
            let k = choose|k: int|
                0 <= k < n + 1 && #[trigger] entry_nullable(schemas[k]).contains(name);
            if k < n {
                assert(nullable_upto(schemas, n).contains(name));
            }
        }
        if nullable_upto(schemas, n).contains(name) {
            let k = choose|k: int|
                0 <= k < n && #[trigger] entry_nullable(schemas[k]).contains(name);
            assert(0 <= k < n + 1 && entry_nullable(schemas[k]).contains(name));
        }
        if entry_nullable(schemas[n]).contains(name) {
            assert(0 <= n < n + 1 && entry_nullable(schemas[n]).contains(name));
        }
    }
    assert(bigger =~= joined);
}

/// Runs one pass over a document: every named schema is expanded, in the
/// order of the document. The first error ends the pass, and nothing is
/// handed out then.
pub fn generate(document: &Document) -> (res: Result<Generated, Error>)
    ensures
        match definitions_spec(*document) {
            Ok(definitions) => {
                &&& res is Ok
                &&& definition_views(res->Ok_0.definitions@) == definitions
                &&& res->Ok_0.nullable@ == nullable_spec(*document)
            },
            Err(e) => res is Err && res->Err_0@ == e,
        },
{
    let ghost steps = entry_steps(document.schemas@);
    let mut outputs: Vec<Definition> = Vec::new();
    let mut nullable = NullableRegistry::new();
    let mut i: usize = 0;
    proof {
        lemma_collect_start(steps);
        assert(definition_views(outputs@) =~= Seq::<DefinitionView>::empty());
        assert(nullable@ =~= nullable_upto(document.schemas@, 0));
    }
    while i < document.schemas.len()
        invariant
            i <= document.schemas@.len(),
            steps == entry_steps(document.schemas@),
            collect_from(definition_views(outputs@), steps, i as int) == collect(steps),
            nullable@ == nullable_upto(document.schemas@, i as int),
        decreases document.schemas.len() - i,
    {
        proof {
            lemma_collect_step(definition_views(outputs@), steps, i as int);
            lemma_nullable_step(document.schemas@, i as int);
        }
        let ghost before = definition_views(outputs@);
        let ghost held = nullable@;
        let entry = &document.schemas[i];
        match &entry.schema {
            ReferenceOr::Reference { .. } => {
                assert(before + Seq::<DefinitionView>::empty() =~= before);
                assert(held.union(Set::<Seq<char>>::empty()) =~= held);
            },
            ReferenceOr::Item(schema) => {
                match expand_schema(&mut outputs, &mut nullable, entry.name.as_str(), schema) {
                    Ok(()) => {},
                    Err(e) => {
                        return Err(e);
                    },
                }
            },
        }
        i = i + 1;
    }
    proof {
        lemma_collect_end(definition_views(outputs@), steps);
    }
    Ok(Generated { definitions: outputs, nullable })
}

impl Generated {
    /// The definitions as source text, in the order in which they were
    /// emitted.
    pub fn to_source(&self) -> (out: String)
        ensures
            out@ == source_spec(definition_views(self.definitions@)),
    {
        render(&self.definitions)
    }
}

/// The source text generated for a document.
pub open spec fn generate_source_spec(document: Document) -> Result<Seq<char>, ErrorView> {
    match definitions_spec(document) {
        Ok(definitions) => Ok(source_spec(definitions)),
        Err(e) => Err(e),
    }
}

/// Whether `res` is what a pass over `document` hands out as source text.
pub open spec fn is_source_of(document: Document, res: Result<String, Error>) -> bool {
    match generate_source_spec(document) {
        Ok(text) => res is Ok && res->Ok_0@ == text,
        Err(e) => res is Err && res->Err_0@ == e,
    }
}

/// Runs one pass over a document and hands out the source text of what it
/// emitted.
pub fn generate_source(document: &Document) -> (res: Result<String, Error>)
    ensures
        is_source_of(*document, res),
{
    match generate(document) {
        Ok(generated) => Ok(generated.to_source()),
        Err(e) => Err(e),
    }
}

} // verus!
