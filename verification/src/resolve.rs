//! The schema resolver: follows `$ref` pointers of the form
//! `<source>#/components/schemas/<name>` against the document's component
//! table until an inline schema is reached.  Resolution failure is non-fatal
//! to a build: callers fall back to `Any` and continue.

use vstd::prelude::*;

use crate::document::{Document, Schema, SchemaOrRef};
use crate::strutil::str_eq;

verus! {

/// Why a reference did not resolve.
#[derive(Debug, Clone, Copy, PartialEq, Eq, Structural)]
pub enum ResolveError {
    /// The pointer is not of the form `…#/components/schemas/<name>`.
    Malformed,
    /// The named component schema does not exist.
    Missing,
    /// The reference chain does not reach an inline schema.
    Circular,
}

/// Index of the first `#` in `s`, or `s.len()` when there is none.
pub open spec fn first_hash(s: Seq<char>) -> int
    decreases s.len(),
{
    if s.len() == 0 {
        0
    } else if s[0] == '#' {
        0
    } else {
        1 + first_hash(s.drop_first())
    }
}

pub proof fn lemma_first_hash_bounds(s: Seq<char>)
    ensures
        0 <= first_hash(s) <= s.len(),
        first_hash(s) < s.len() ==> s[first_hash(s)] == '#',
        forall|j: int| 0 <= j < first_hash(s) ==> s[j] != '#',
    decreases s.len(),
{
    if s.len() > 0 && s[0] != '#' {
        lemma_first_hash_bounds(s.drop_first());
        assert(forall|j: int|
            1 <= j < first_hash(s) ==> s[j] == s.drop_first()[j - 1]);
    }
}

/// The component name a schema pointer designates: what follows
/// `#/components/schemas/` after the first `#`, when it is non-empty.
pub open spec fn spec_ref_name(path: Seq<char>) -> Option<Seq<char>> {
    let h = first_hash(path);
    let pre = "#/components/schemas/"@;
    if h + pre.len() < path.len() && path.skip(h).take(pre.len() as int) == pre {
        Option::Some(path.skip(h + pre.len()))
    } else {
        Option::None
    }
}

/// First component schema with the given name.
pub open spec fn spec_find_schema(schemas: Seq<(String, SchemaOrRef)>, name: Seq<char>) -> Option<
    SchemaOrRef,
>
    decreases schemas.len(),
{
    if schemas.len() == 0 {
        Option::None
    } else if schemas[0].0@ == name {
        Option::Some(schemas[0].1)
    } else {
        spec_find_schema(schemas.drop_first(), name)
    }
}

/// What following a node for at most `fuel` reference hops yields.
pub open spec fn spec_resolve(
    schemas: Seq<(String, SchemaOrRef)>,
    node: SchemaOrRef,
    fuel: nat,
) -> Result<Schema, ResolveError>
    decreases fuel,
{
    match node {
        SchemaOrRef::Inline(s) => Result::Ok(s),
        SchemaOrRef::Reference(p) => {
            if fuel == 0 {
                Result::Err(ResolveError::Circular)
            } else {
                match spec_ref_name(p@) {
                    Option::None => Result::Err(ResolveError::Malformed),
                    Option::Some(name) => match spec_find_schema(schemas, name) {
                        Option::None => Result::Err(ResolveError::Missing),
                        Option::Some(next) => spec_resolve(schemas, next, (fuel - 1) as nat),
                    },
                }
            }
        },
    }
}

/// The fuel that suffices for any acyclic chain: one hop more than there are
/// component schemas.
pub open spec fn spec_full_fuel(doc: Document) -> nat {
    (doc.spec_schemas().len() + 1) as nat
}

/// Resolution of a node against a document, as the resolver computes it.
pub open spec fn spec_resolution(doc: Document, node: SchemaOrRef) -> Result<
    Schema,
    ResolveError,
> {
    spec_resolve(doc.spec_schemas(), node, spec_full_fuel(doc))
}

/// Extracts the component name from a schema pointer.
#[verifier::loop_isolation(false)]
fn parse_ref_name<'a>(path: &'a str) -> (r: Option<&'a str>)
    ensures
        match r {
            Some(name) => spec_ref_name(path@) == Some(name@),
            None => spec_ref_name(path@) is None,
        },
{
    let pre: &str = "#/components/schemas/";
    proof {
        reveal_strlit("#/components/schemas/");
    }
    let pre_len = pre.unicode_len();
    let n = path.unicode_len();
    // Find the first `#`.
    let mut h: usize = 0;
    while h < n
        invariant
            0 <= h <= n,
            forall|j: int| 0 <= j < h ==> path@[j] != '#',
        decreases n - h,
    {
        if path.get_char(h) == '#' {
            break ;
        }
        h = h + 1;
    }
    proof {
        lemma_first_hash_bounds(path@);
        if h < n {
            assert(path@[h as int] == '#');
            assert(first_hash(path@) == h);
        } else {
            assert(first_hash(path@) == n);
        }
    }
    if h >= n || n - h <= pre_len {
        proof {
            assert(spec_ref_name(path@) is None);
        }
        return None;
    }
    // Compare the fixed prefix.
    let mut j: usize = 0;
    while j < pre_len
        invariant
            0 <= j <= pre_len,
            forall|k: int| 0 <= k < j ==> path@[h + k] == pre@[k],
        decreases pre_len - j,
    {
        let cp = path.get_char(h + j);
        let ce = pre.get_char(j);
        if cp as u32 != ce as u32 {
            proof {
                assert(path@[h + j] != pre@[j as int]);
                assert(path@.skip(h as int).take(pre_len as int)[j as int] == path@[h + j]);
                assert(path@.skip(h as int).take(pre_len as int) != pre@);
            }
            return None;
        }
        proof {
            assert(cp == ce);
        }
        j = j + 1;
    }
    proof {
        assert(path@.skip(h as int).take(pre_len as int) =~= pre@);
    }
    let name = path.substring_char(h + pre_len, n);
    proof {
        assert(name@ =~= path@.skip(h + pre_len as int));
    }
    Some(name)
}

/// Looks a component schema up by name.
#[verifier::loop_isolation(false)]
fn find_schema<'a>(schemas: &'a Vec<(String, SchemaOrRef)>, name: &str) -> (r: Option<
    &'a SchemaOrRef,
>)
    ensures
        match r {
            Some(s) => spec_find_schema(schemas@, name@) == Some(*s),
            None => spec_find_schema(schemas@, name@) is None,
        },
{
    let n = schemas.len();
    let mut i: usize = 0;
    proof {
        assert(schemas@.skip(0) =~= schemas@);
    }
    while i < n
        invariant
            i <= n,
            spec_find_schema(schemas@, name@) == spec_find_schema(
                schemas@.skip(i as int),
                name@,
            ),
        decreases n - i,
    {
        proof {
            assert(schemas@.skip(i as int)[0] == schemas@[i as int]);
            assert(schemas@.skip(i as int).drop_first() =~= schemas@.skip(i as int + 1));
        }
        if str_eq(schemas[i].0.as_str(), name) {
            return Some(&schemas[i].1);
        }
        i = i + 1;
    }
    proof {
        assert(schemas@.skip(n as int).len() == 0);
    }
    None
}

/// Follows a node through the given component table, for at most one hop
/// more than there are component schemas.
#[verifier::loop_isolation(false)]
fn resolve_in<'a>(schemas: &'a Vec<(String, SchemaOrRef)>, node: &'a SchemaOrRef) -> (r: Result<
    &'a Schema,
    ResolveError,
>)
    ensures
        match r {
            Ok(s) => spec_resolve(schemas@, *node, (schemas@.len() + 1) as nat) == Result::<
                Schema,
                ResolveError,
            >::Ok(*s),
            Err(e) => spec_resolve(schemas@, *node, (schemas@.len() + 1) as nat) == Result::<
                Schema,
                ResolveError,
            >::Err(e),
        },
{
    let mut cur: &'a SchemaOrRef = node;
    let mut fuel: usize = schemas.len();
    loop
        invariant
            fuel <= schemas@.len(),
            spec_resolve(schemas@, *cur, (fuel + 1) as nat) == spec_resolve(
                schemas@,
                *node,
                (schemas@.len() + 1) as nat,
            ),
        decreases fuel,
    {
        match cur {
            SchemaOrRef::Inline(s) => {
                return Ok(s);
            },
            SchemaOrRef::Reference(p) => {
                match parse_ref_name(p.as_str()) {
                    None => {
                        return Err(ResolveError::Malformed);
                    },
                    Some(name) => {
                        match find_schema(schemas, name) {
                            None => {
                                return Err(ResolveError::Missing);
                            },
                            Some(next) => {
                                proof {
                                    reveal_with_fuel(spec_resolve, 2);
                                    assert(spec_resolve(schemas@, *cur, (fuel + 1) as nat)
                                        == spec_resolve(schemas@, *next, fuel as nat));
                                }
                                match next {
                                    SchemaOrRef::Inline(s) => {
                                        return Ok(s);
                                    },
                                    SchemaOrRef::Reference(_) => {
                                        if fuel == 0 {
                                            return Err(ResolveError::Circular);
                                        }
                                        cur = next;
                                        fuel = fuel - 1;
                                    },
                                }
                            },
                        }
                    },
                }
            },
        }
    }
}

/// Resolves a schema node: an inline schema is returned as it stands, a
/// reference is followed through the document's component table.
pub fn resolve<'a>(doc: &'a Document, node: &'a SchemaOrRef) -> (r: Result<
    &'a Schema,
    ResolveError,
>)
    ensures
        match r {
            Ok(s) => spec_resolution(*doc, *node) == Result::<Schema, ResolveError>::Ok(*s),
            Err(e) => spec_resolution(*doc, *node) == Result::<Schema, ResolveError>::Err(e),
        },
{
    match &doc.components {
        Some(c) => {
            proof {
                assert(c.schemas@ == doc.spec_schemas());
            }
            resolve_in(&c.schemas, node)
        },
        None => {
            proof {
                assert(doc.spec_schemas().len() == 0);
            }
            match node {
                SchemaOrRef::Inline(s) => Ok(s),
                SchemaOrRef::Reference(p) => {
                    match parse_ref_name(p.as_str()) {
                        None => Err(ResolveError::Malformed),
                        Some(_) => Err(ResolveError::Missing),
                    }
                },
            }
        },
    }
}

} // verus!
