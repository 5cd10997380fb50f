use vstd::prelude::*;
use vstd::hash_set::StringHashSet;

verus! {

/// The names of the schemas that were found to admit null: a hash set of
/// strings, so each name is held once.
pub struct NullableRegistry {
    names: StringHashSet,
}

impl View for NullableRegistry {
    type V = Set<Seq<char>>;

    closed spec fn view(&self) -> Set<Seq<char>> {
        self.names@
    }
}

impl NullableRegistry {
    /// A registry that holds no name.
    pub fn new() -> (out: Self)
        ensures
            out@ == Set::<Seq<char>>::empty(),
    {
        NullableRegistry { names: StringHashSet::new() }
    }

    /// Whether the registry holds `name`.
    pub fn contains(&self, name: &str) -> (found: bool)
        ensures
            found == self@.contains(name@),
    {
        self.names.contains(name)
    }

    /// Enters `name`, unless the registry holds it already; says whether it
    /// was new.
    pub fn insert(&mut self, name: String) -> (fresh: bool)
        ensures
            final(self)@ == old(self)@.insert(name@),
            fresh == !old(self)@.contains(name@),
    {
        self.names.insert(name)
    }

    /// How many names the registry holds.
    pub fn len(&self) -> (n: usize)
        ensures
            n == self@.len(),
    {
        self.names.len()
    }
}

} // verus!
