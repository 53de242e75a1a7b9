use vstd::prelude::*;

use crate::error::Error;
use crate::manifest::{struct_names_ok, Manifest};
use crate::naming::{bare_struct_name, convert_struct_name, has_struct_markers, Namer};

verus! {

/// The names of every type of a manifest, resolved before anything is
/// emitted, so that any type can refer to any other.
#[derive(Debug, Clone)]
pub struct Catalog {
    /// The generated name of each type, by position in the type map.
    pub type_names: Vec<String>,
    /// The bare foreign name of each type, by position in the type map.
    pub raw_names: Vec<String>,
}

/// Whether the type at position `i` of `m` can be named and has a bare
/// foreign name.
pub open spec fn nameable<N: Namer>(namer: N, m: Manifest, i: int) -> bool {
    &&& namer.spec_type_name(m.types@[i].0@, m.types@[i].1, m) is Some
    &&& has_struct_markers(m.types@[i].1.spec_ctype())
}

/// Whether every type of `m` can be named and has a bare foreign name.
pub open spec fn all_nameable<N: Namer>(namer: N, m: Manifest) -> bool {
    forall|i: int| 0 <= i < m.types@.len() ==> nameable(namer, m, i)
}

/// Whether `c` gives each type of `m` the name that `namer` gives it, and
/// its bare foreign name.
pub open spec fn catalog_of<N: Namer>(c: Catalog, namer: N, m: Manifest) -> bool {
    &&& c.type_names@.len() == m.types@.len()
    &&& c.raw_names@.len() == m.types@.len()
    &&& forall|i: int|
        0 <= i < m.types@.len() ==> {
            &&& namer.spec_type_name(m.types@[i].0@, m.types@[i].1, m) == Some(
                (#[trigger] c.type_names@[i])@,
            )
            &&& bare_struct_name(m.types@[i].1.spec_ctype()) == Some(c.raw_names@[i]@)
        }
}

/// Whether `namer` gives no two types of `m` the same name.
pub open spec fn names_distinct<N: Namer>(namer: N, m: Manifest) -> bool {
    forall|i: int, j: int|
        0 <= i < j < m.types@.len() ==> namer.spec_type_name(m.types@[i].0@, m.types@[i].1, m)
            != namer.spec_type_name(m.types@[j].0@, m.types@[j].1, m)
}

/// Whether a catalog of `m` can be built: every type can be named, has a bare
/// foreign name, and no two types share a name.
pub open spec fn catalog_builds<N: Namer>(namer: N, m: Manifest) -> bool {
    all_nameable(namer, m) && names_distinct(namer, m)
}

/// Whether no two generated names of `c` are the same.
pub open spec fn names_pairwise_distinct(c: Catalog) -> bool {
    forall|i: int, j: int|
        0 <= i < c.type_names@.len() && 0 <= j < c.type_names@.len() && i != j ==> (
        #[trigger] c.type_names@[i])@ != (#[trigger] c.type_names@[j])@
}

/// The position of the first name of `v` that repeats an earlier one.
fn repeated_name(v: &Vec<String>) -> (r: Option<usize>)
    ensures
        r is None == (forall|a: int, b: int| 0 <= a < b < v@.len() ==> v@[a]@ != v@[b]@),
        r matches Some(j) ==> j < v@.len() && exists|a: int| 0 <= a < j && v@[a]@ == v@[j as int]@,
{
    let mut j: usize = 0;
    while j < v.len()
        invariant
            j <= v@.len(),
            forall|a: int, b: int| 0 <= a < b < j ==> v@[a]@ != v@[b]@,
        decreases v@.len() - j,
    {
        let mut a: usize = 0;
        while a < j
            invariant
                a <= j < v@.len(),
                forall|x: int, y: int| 0 <= x < y < j ==> v@[x]@ != v@[y]@,
                forall|x: int| 0 <= x < a ==> v@[x]@ != v@[j as int]@,
            decreases j - a,
        {
            if v[a] == v[j] {
                return Some(j);
            }
            a = a + 1;
        }
        j = j + 1;
    }
    None
}

impl Catalog {
    /// Names every type of the manifest, in one pass over the type map.
    pub fn build<N: Namer>(namer: &N, manifest: &Manifest) -> (r: Result<Catalog, Error>)
        requires
            namer.ready(*manifest),
            namer.follows_conventions(*manifest),
            struct_names_ok(*manifest),
        ensures
            r is Ok == catalog_builds(*namer, *manifest),
            r matches Ok(c) ==> catalog_of(c, *namer, *manifest) && names_pairwise_distinct(c),
            r is Err ==> r matches Err(Error::Unnameable(_)) || r matches Err(
                Error::DuplicateName(_),
            ),
            r matches Err(Error::DuplicateName(nm)) ==> exists|a: int, b: int|
                0 <= a < b < manifest.types@.len() && namer.spec_type_name(
                    manifest.types@[a].0@,
                    manifest.types@[a].1,
                    *manifest,
                ) == Some(nm@) && namer.spec_type_name(
                    manifest.types@[b].0@,
                    manifest.types@[b].1,
                    *manifest,
                ) == Some(nm@),
            r matches Err(Error::Unnameable(k)) ==> exists|i: int|
                0 <= i < manifest.types@.len() && manifest.types@[i].0@ == k@
                    && namer.spec_type_name(k@, manifest.types@[i].1, *manifest) is None,
    {
        let mut type_names: Vec<String> = Vec::new();
        let mut raw_names: Vec<String> = Vec::new();
        let mut i: usize = 0;
        while i < manifest.types.len()
            invariant
                namer.ready(*manifest),
                namer.follows_conventions(*manifest),
                struct_names_ok(*manifest),
                i <= manifest.types@.len(),
                type_names@.len() == i,
                raw_names@.len() == i,
                forall|j: int| 0 <= j < i ==> nameable(*namer, *manifest, j),
                forall|j: int|
                    0 <= j < i ==> {
                        &&& namer.spec_type_name(
                            manifest.types@[j].0@,
                            manifest.types@[j].1,
                            *manifest,
                        ) == Some((#[trigger] type_names@[j])@)
                        &&& bare_struct_name(manifest.types@[j].1.spec_ctype()) == Some(
                            raw_names@[j]@,
                        )
                    },
            decreases manifest.types@.len() - i,
        {
            let key = &manifest.types[i].0;
            let ty = &manifest.types[i].1;
            let tyname = match namer.name_type(key.as_str(), ty, manifest) {
                Some(n) => n,
                None => {
                    assert(!nameable(*namer, *manifest, i as int));
                    return Err(Error::Unnameable(key.clone()));
                },
            };
            proof {
                assert(has_struct_markers(manifest.types@[i as int].1.spec_ctype()));
            }
            let raw = String::from_str(convert_struct_name(ty.ctype()));
            type_names.push(tyname);
            raw_names.push(raw);
            i = i + 1;
        }
        if let Some(j) = repeated_name(&type_names) {
            let ghost a = choose|a: int| 0 <= a < j && type_names@[a]@ == type_names@[j as int]@;
            assert(namer.spec_type_name(
                manifest.types@[a].0@,
                manifest.types@[a].1,
                *manifest,
            ) == Some(type_names@[a]@));
            return Err(Error::DuplicateName(type_names[j].clone()));
        }
        proof {
            assert forall|a: int, b: int| 0 <= a < b < manifest.types@.len() implies namer.spec_type_name(
                manifest.types@[a].0@,
                manifest.types@[a].1,
                *manifest,
            ) != namer.spec_type_name(manifest.types@[b].0@, manifest.types@[b].1, *manifest) by {
                assert(type_names@[a]@ != type_names@[b]@);
                assert(namer.spec_type_name(
                    manifest.types@[a].0@,
                    manifest.types@[a].1,
                    *manifest,
                ) == Some(type_names@[a]@));
                assert(namer.spec_type_name(
                    manifest.types@[b].0@,
                    manifest.types@[b].1,
                    *manifest,
                ) == Some(type_names@[b]@));
            }
        }
        Ok(Catalog { type_names, raw_names })
    }
}

} // verus!
