use vstd::prelude::*;
use crate::error::{Error, ErrorView};
use crate::text::{last_index_of, same_text, to_chars};

verus! {

/// What every local reference begins with, up to the last `/`.
pub open spec fn local_prefix() -> Seq<char> {
    "#/components/schemas"@
}

/// The schema name that the reference `r` denotes: `r` is the local prefix, a
/// `/`, and a name that holds no `/`.
pub open spec fn reference_name(r: Seq<char>) -> Option<Seq<char>> {
    let p = local_prefix().len() as int;
    if r.len() > p && r.subrange(0, p) == local_prefix() && r[p] == '/' && !r.subrange(
        p + 1,
        r.len() as int,
    ).contains('/') {
        Some(r.subrange(p + 1, r.len() as int))
    } else {
        None
    }
}

/// What resolving the reference `r` gives.
pub open spec fn parse_reference_spec(r: Seq<char>) -> Result<Seq<char>, ErrorView> {
    match reference_name(r) {
        Some(name) => Ok(name),
        None => Err(ErrorView::InvalidReference { reference: r }),
    }
}

/// Resolves a reference of the form `#/components/schemas/<Name>` to `<Name>`;
/// any other reference is rejected.
pub fn parse_reference(value: &str) -> (res: Result<&str, Error>)
    ensures
        match parse_reference_spec(value@) {
            Ok(name) => res is Ok && res->Ok_0@ == name,
            Err(e) => res is Err && res->Err_0@ == e,
        },
{
    let chars = to_chars(value);
    let n: usize = chars.len();
    let prefix = to_chars("#/components/schemas");
    let ghost p = local_prefix().len() as int;
    match last_index_of(&chars, '/') {
        Some(at) => {
            let mut head: Vec<char> = Vec::new();
            let mut i: usize = 0;
            while i < at
                invariant
                    i <= at < n == chars@.len(),
                    head@ == chars@.subrange(0, i as int),
                decreases at - i,
            {
                head.push(chars[i]);
                i = i + 1;
                assert(head@ =~= chars@.subrange(0, i as int));
            }
            proof {
                let r = value@;
                if r.len() > p {
                    let tail = r.subrange(p + 1, r.len() as int);
                    if r[p] == '/' && !tail.contains('/') {
                        if at > p {
                            assert(tail[at - p - 1] == r[at as int]);
                        }
                        assert(at == p);
                    }
                    if at == p {
                        assert forall|j: int| 0 <= j < tail.len() implies tail[j] != '/' by {
                            assert(tail[j] == r[p + 1 + j]);
                        }
                    }
                }
            }
            if same_text(&head, &prefix) {
                assert(at as int == p);
                Ok(value.substring_char(at + 1, n))
            } else {
                Err(Error::InvalidReference { reference: value.to_owned() })
            }
        },
        None => {
            proof {
                let r = value@;
                if r.len() > p && r[p] == '/' {
                    assert(r.contains('/'));
                }
            }
            Err(Error::InvalidReference { reference: value.to_owned() })
        },
    }
}

/// A reference resolves to `name` exactly when it is the local prefix, a `/`
/// and `name`, and `name` holds no `/`.
pub proof fn lemma_reference_shape(r: Seq<char>, name: Seq<char>)
    ensures
        reference_name(r) == Some(name) <==> (r == local_prefix() + seq!['/'] + name
            && !name.contains('/')),
{
    let p = local_prefix().len() as int;
    let built = local_prefix() + seq!['/'] + name;
    if reference_name(r) == Some(name) {
        assert(r =~= built);
    }
    if r == built && !name.contains('/') {
        assert(r.subrange(0, p) =~= local_prefix());
        assert(r.subrange(p + 1, r.len() as int) =~= name);
    }
}

} // verus!
