use vstd::prelude::*;

use crate::catalog::{catalog_builds, catalog_of, names_pairwise_distinct, Catalog};
use crate::error::Error;
use crate::manifest::{has_type, keys_distinct, refs_resolve, struct_names_ok, Manifest, Type};
use crate::naming::Namer;

verus! {

/// The positions, among the first `n` types of `m`, of the array types
/// (`arrays`) or of the opaque types (`!arrays`), in manifest order.
pub open spec fn positions(m: Manifest, arrays: bool, n: nat) -> Seq<int>
    decreases n,
{
    if n == 0 {
        seq![]
    } else {
        let p = positions(m, arrays, (n - 1) as nat);
        if (m.types@[n - 1].1 is Array) == arrays {
            p.push(n - 1)
        } else {
            p
        }
    }
}

/// The positions of the array types of `m`, in manifest order.
pub open spec fn array_positions(m: Manifest) -> Seq<int> {
    positions(m, true, m.types@.len())
}

/// The positions of the opaque types of `m`, in manifest order.
pub open spec fn opaque_positions(m: Manifest) -> Seq<int> {
    positions(m, false, m.types@.len())
}

/// Each listed position is a type of the wanted kind, the positions rise,
/// and the two lists together hold every position once.
pub proof fn lemma_positions(m: Manifest, arrays: bool, n: nat)
    requires
        n <= m.types@.len(),
    ensures
        forall|k: int|
            0 <= k < positions(m, arrays, n).len() ==> 0 <= #[trigger] positions(m, arrays, n)[k]
                < n && (m.types@[positions(m, arrays, n)[k]].1 is Array) == arrays,
        forall|j: int, k: int|
            0 <= j < k < positions(m, arrays, n).len() ==> positions(m, arrays, n)[j] < positions(
                m,
                arrays,
                n,
            )[k],
        positions(m, true, n).len() + positions(m, false, n).len() == n,
    decreases n,
{
    if n > 0 {
        lemma_positions(m, arrays, (n - 1) as nat);
        lemma_positions(m, !arrays, (n - 1) as nat);
    }
}

/// The hooks through which a generation run drives an emitter, one per
/// phase. Each hook's effect is stated as a relation between the emitter
/// before and after the call.
pub trait Generate<N: Namer>: Sized {
    /// Whether `after` is `self` after the setup phase for `m`.
    spec fn set_up(&self, after: Self, m: Manifest) -> bool;

    /// Whether `after` is `self` after emitting the array type at position `i`.
    spec fn array_emitted(&self, after: Self, m: Manifest, c: Catalog, namer: N, i: int) -> bool;

    /// Whether `after` is `self` after emitting the opaque type at position `i`.
    spec fn opaque_emitted(&self, after: Self, m: Manifest, c: Catalog, namer: N, i: int) -> bool;

    /// Whether `after` is `self` after emitting the entry point at position `k`.
    spec fn entry_emitted(&self, after: Self, m: Manifest, c: Catalog, namer: N, k: int) -> bool;

    /// Step 1: setup and low-level bindings, with the backend's hooks.
    fn bindings(&mut self, manifest: &Manifest)
        ensures
            old(self).set_up(*final(self), *manifest),
    ;

    /// Step 2: one array type.
    fn array_type(&mut self, manifest: &Manifest, catalog: &Catalog, namer: &N, i: usize)
        requires
            catalog_of(*catalog, *namer, *manifest),
            refs_resolve(*manifest),
            i < manifest.types@.len(),
            manifest.types@[i as int].1 is Array,
        ensures
            old(self).array_emitted(*final(self), *manifest, *catalog, *namer, i as int),
    ;

    /// Step 3: one opaque type.
    fn opaque_type(&mut self, manifest: &Manifest, catalog: &Catalog, namer: &N, i: usize)
        requires
            catalog_of(*catalog, *namer, *manifest),
            refs_resolve(*manifest),
            i < manifest.types@.len(),
            manifest.types@[i as int].1 is Opaque,
        ensures
            old(self).opaque_emitted(*final(self), *manifest, *catalog, *namer, i as int),
    ;

    /// Step 4: one entry point.
    fn entry(&mut self, manifest: &Manifest, catalog: &Catalog, namer: &N, k: usize)
        requires
            catalog_of(*catalog, *namer, *manifest),
            refs_resolve(*manifest),
            k < manifest.entry_points@.len(),
        ensures
            old(self).entry_emitted(*final(self), *manifest, *catalog, *namer, k as int),
    ;
}

/// The `k`-th array hook of a run whose emitter went through `states`.
pub open spec fn array_step<N: Namer, G: Generate<N>>(
    states: Seq<G>,
    m: Manifest,
    c: Catalog,
    namer: N,
    k: int,
) -> bool {
    states[1 + k].array_emitted(states[2 + k], m, c, namer, array_positions(m)[k])
}

/// The `k`-th opaque hook of a run whose emitter went through `states`.
pub open spec fn opaque_step<N: Namer, G: Generate<N>>(
    states: Seq<G>,
    m: Manifest,
    c: Catalog,
    namer: N,
    k: int,
) -> bool {
    let base = 1 + array_positions(m).len();
    states[base + k].opaque_emitted(states[base + k + 1], m, c, namer, opaque_positions(m)[k])
}

/// The `k`-th entry hook of a run whose emitter went through `states`.
pub open spec fn entry_step<N: Namer, G: Generate<N>>(
    states: Seq<G>,
    m: Manifest,
    c: Catalog,
    namer: N,
    k: int,
) -> bool {
    let base = 1 + array_positions(m).len() + opaque_positions(m).len();
    states[base + k].entry_emitted(states[base + k + 1], m, c, namer, k)
}

/// Whether the emitter went through `states` by the phases of a run over `m`:
/// setup once; then each array type, in manifest order; then each opaque
/// type, in manifest order; then each entry point, in manifest order.
pub open spec fn ran_phases<N: Namer, G: Generate<N>>(
    states: Seq<G>,
    m: Manifest,
    c: Catalog,
    namer: N,
) -> bool {
    &&& states.len() == 2 + array_positions(m).len() + opaque_positions(m).len()
        + m.entry_points@.len()
    &&& states[0].set_up(states[1], m)
    &&& forall|k: int| 0 <= k < array_positions(m).len() ==> #[trigger] array_step(states, m, c, namer, k)
    &&& forall|k: int| 0 <= k < opaque_positions(m).len() ==> #[trigger] opaque_step(states, m, c, namer, k)
    &&& forall|k: int| 0 <= k < m.entry_points@.len() ==> #[trigger] entry_step(states, m, c, namer, k)
}

/// Runs a whole generation over `manifest` through the emitter `gen`: prepares
/// the namer, checks every type reference and that keys are distinct, names
/// every type, then calls the setup hook, the array hook for each array type,
/// the opaque hook for each opaque type and the entry hook for each entry
/// point, each in manifest order. No hook is called unless all checks and
/// names succeed.
pub fn generate<N: Namer, G: Generate<N>>(gen: &mut G, manifest: &Manifest, namer: &mut N) -> (r: Result<
    Catalog,
    Error,
>)
    requires
        struct_names_ok(*manifest),
        old(namer).follows_conventions(*manifest),
    ensures
        final(namer).ready(*manifest),
        r is Ok == (refs_resolve(*manifest) && keys_distinct(*manifest) && catalog_builds(
            *final(namer),
            *manifest,
        )),
        !refs_resolve(*manifest) ==> r matches Err(Error::UnknownType(_)),
        r matches Err(Error::UnknownType(s)) ==> !has_type(*manifest, s@),
        refs_resolve(*manifest) && !keys_distinct(*manifest) ==> r matches Err(
            Error::DuplicateKey(_),
        ),
        r is Err ==> *final(gen) == *old(gen),
        r matches Ok(c) ==> catalog_of(c, *final(namer), *manifest) && names_pairwise_distinct(c) && exists|states: Seq<G>|
            states[0] == *old(gen) && states.last() == *final(gen) && ran_phases(
                states,
                *manifest,
                c,
                *final(namer),
            ),
{
    namer.init(manifest);
    if let Err(e) = manifest.check_refs() {
        return Err(e);
    }
    if let Err(e) = manifest.check_keys() {
        return Err(e);
    }
    let catalog = match Catalog::build(&*namer, manifest) {
        Ok(c) => c,
        Err(e) => {
            return Err(e);
        },
    };
    let ghost m = *manifest;
    let ghost n = *namer;
    let ghost mut states: Seq<G> = seq![*gen];
    gen.bindings(manifest);
    proof {
        states = states.push(*gen);
        lemma_positions(m, true, m.types@.len());
        lemma_positions(m, false, m.types@.len());
    }
    // Step 2: the array types.
    let mut i: usize = 0;
    while i < manifest.types.len()
        invariant
            catalog_of(catalog, *namer, *manifest),
            refs_resolve(*manifest),
            i <= manifest.types@.len(),
            m == *manifest,
            n == *namer,
            states.len() == 2 + positions(m, true, i as nat).len(),
            states.last() == *gen,
            states[0] == *old(gen),
            states[0].set_up(states[1], m),
            forall|k: int|
                0 <= k < positions(m, true, i as nat).len() ==> states[1 + k].array_emitted(
                    states[2 + k],
                    m,
                    catalog,
                    n,
                    #[trigger] positions(m, true, i as nat)[k],
                ),
        decreases manifest.types@.len() - i,
    {
        let ghost before = states;
        if matches!(manifest.types[i].1, Type::Array(_)) {
            gen.array_type(manifest, &catalog, &*namer, i);
            proof {
                states = states.push(*gen);
                assert(positions(m, true, (i + 1) as nat) == positions(m, true, i as nat).push(
                    i as int,
                ));
                assert forall|k: int| 0 <= k < positions(m, true, (i + 1) as nat).len() implies states[1 + k].array_emitted(
                    states[2 + k],
                    m,
                    catalog,
                    n,
                    #[trigger] positions(m, true, (i + 1) as nat)[k],
                ) by {
                    if k < positions(m, true, i as nat).len() {
                        assert(states[1 + k] == before[1 + k]);
                        assert(states[2 + k] == before[2 + k]);
                        assert(positions(m, true, (i + 1) as nat)[k] == positions(m, true, i as nat)[k]);
                    }
                }
            }
        } else {
            proof {
                assert(positions(m, true, (i + 1) as nat) == positions(m, true, i as nat));
            }
        }
        i = i + 1;
    }
    let ghost na = array_positions(m).len();
    proof {
        assert forall|k: int| 0 <= k < na implies #[trigger] array_step(states, m, catalog, n, k) by {
            assert(array_positions(m)[k] == positions(m, true, m.types@.len())[k]);
        }
    }
    // Step 3: the opaque types.
    let mut i: usize = 0;
    while i < manifest.types.len()
        invariant
            catalog_of(catalog, *namer, *manifest),
            refs_resolve(*manifest),
            i <= manifest.types@.len(),
            m == *manifest,
            n == *namer,
            na == array_positions(m).len(),
            states.len() == 2 + na + positions(m, false, i as nat).len(),
            states.last() == *gen,
            states[0] == *old(gen),
            states[0].set_up(states[1], m),
            forall|k: int| 0 <= k < na ==> #[trigger] array_step(states, m, catalog, n, k),
            forall|k: int|
                0 <= k < positions(m, false, i as nat).len() ==> states[1 + na + k].opaque_emitted(
                    states[1 + na + k + 1],
                    m,
                    catalog,
                    n,
                    #[trigger] positions(m, false, i as nat)[k],
                ),
        decreases manifest.types@.len() - i,
    {
        let ghost before = states;
        if matches!(manifest.types[i].1, Type::Opaque(_)) {
            gen.opaque_type(manifest, &catalog, &*namer, i);
            proof {
                states = states.push(*gen);
                assert(positions(m, false, (i + 1) as nat) == positions(m, false, i as nat).push(
                    i as int,
                ));
                assert forall|k: int| 0 <= k < na implies #[trigger] array_step(states, m, catalog, n, k) by {
                    assert(array_step(before, m, catalog, n, k));
                    assert(states[1 + k] == before[1 + k]);
                    assert(states[2 + k] == before[2 + k]);
                }
                assert forall|k: int| 0 <= k < positions(m, false, (i + 1) as nat).len() implies states[1 + na + k].opaque_emitted(
                    states[1 + na + k + 1],
                    m,
                    catalog,
                    n,
                    #[trigger] positions(m, false, (i + 1) as nat)[k],
                ) by {
                    if k < positions(m, false, i as nat).len() {
                        assert(states[1 + na + k] == before[1 + na + k]);
                        assert(states[1 + na + k + 1] == before[1 + na + k + 1]);
                        assert(positions(m, false, (i + 1) as nat)[k] == positions(m, false, i as nat)[k]);
                    }
                }
            }
        } else {
            proof {
                assert(positions(m, false, (i + 1) as nat) == positions(m, false, i as nat));
            }
        }
        i = i + 1;
    }
    let ghost no = opaque_positions(m).len();
    proof {
        assert forall|k: int| 0 <= k < no implies #[trigger] opaque_step(states, m, catalog, n, k) by {
            assert(opaque_positions(m)[k] == positions(m, false, m.types@.len())[k]);
        }
    }
    // Step 4: the entry points.
    let mut k: usize = 0;
    while k < manifest.entry_points.len()
        invariant
            catalog_of(catalog, *namer, *manifest),
            refs_resolve(*manifest),
            k <= manifest.entry_points@.len(),
            m == *manifest,
            n == *namer,
            na == array_positions(m).len(),
            no == opaque_positions(m).len(),
            states.len() == 2 + na + no + k,
            states.last() == *gen,
            states[0] == *old(gen),
            states[0].set_up(states[1], m),
            forall|q: int| 0 <= q < na ==> #[trigger] array_step(states, m, catalog, n, q),
            forall|q: int| 0 <= q < no ==> #[trigger] opaque_step(states, m, catalog, n, q),
            forall|q: int| 0 <= q < k ==> #[trigger] entry_step(states, m, catalog, n, q),
        decreases manifest.entry_points@.len() - k,
    {
        let ghost before = states;
        gen.entry(manifest, &catalog, &*namer, k);
        proof {
            states = states.push(*gen);
            assert forall|q: int| 0 <= q < na implies #[trigger] array_step(states, m, catalog, n, q) by {
                assert(array_step(before, m, catalog, n, q));
                assert(states[1 + q] == before[1 + q]);
                assert(states[2 + q] == before[2 + q]);
            }
            assert forall|q: int| 0 <= q < no implies #[trigger] opaque_step(states, m, catalog, n, q) by {
                assert(opaque_step(before, m, catalog, n, q));
                assert(states[1 + na + q] == before[1 + na + q]);
                assert(states[1 + na + q + 1] == before[1 + na + q + 1]);
            }
            assert forall|q: int| 0 <= q < k + 1 implies #[trigger] entry_step(states, m, catalog, n, q) by {
                if q < k {
                    assert(entry_step(before, m, catalog, n, q));
                    assert(states[1 + na + no + q] == before[1 + na + no + q]);
                    assert(states[1 + na + no + q + 1] == before[1 + na + no + q + 1]);
                }
            }
        }
        k = k + 1;
    }
    proof {
        assert(states[0] == *old(gen));
        assert(ran_phases(states, m, catalog, n));
    }
    Ok(catalog)
}

} // verus!
