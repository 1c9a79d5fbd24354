//! Environment index builders.
//!
//! An environment is the geometric scope one sample describes: the whole
//! structure, or a single atom's local neighborhood. Each builder exposes
//! the same two operations: `indexes` enumerates the sample tuples in
//! structure order (then ascending atom order), and `gradients_for` produces,
//! for an arbitrary — possibly reordered or filtered — sample set, the
//! matching gradient tuples, processing the supplied samples in the order
//! given so that re-requesting gradients for a reordered subset reorders the
//! gradients identically.

use vstd::prelude::*;

use crate::errors::Error;
use crate::indexes::{names_of, Indexes, IndexesBuilder};
use crate::system::{cutoff_bits_valid, pairs_touching, System};

verus! {

/// The sample variables of the whole-structure environment.
pub open spec fn structure_sample_names() -> Seq<Seq<char>> {
    seq!["structure"@]
}

/// The gradient variables of the whole-structure environment.
pub open spec fn structure_gradient_names() -> Seq<Seq<char>> {
    seq!["structure"@, "atom"@, "spatial"@]
}

/// The sample variables of the atom-centered environment.
pub open spec fn atom_sample_names() -> Seq<Seq<char>> {
    seq!["structure"@, "center"@]
}

/// The gradient variables of the atom-centered environment.
pub open spec fn atom_gradient_names() -> Seq<Seq<char>> {
    seq!["structure"@, "center"@, "neighbor"@, "spatial"@]
}

/// The gradient tuples one whole-structure sample expands to: one row per
/// atom of the structure and spatial axis, axes always in the order x, y, z.
pub open spec fn structure_rows_for_sample(n_atoms: int, structure: i32) -> Seq<Seq<i32>> {
    Seq::new(3 * n_atoms as nat, |k: int| seq![structure, (k / 3) as i32, (k % 3) as i32])
}

/// The gradient tuples of the whole-structure environment for the given
/// samples, in sample order.
pub open spec fn structure_gradient_rows(systems: Seq<System>, samples: Seq<Seq<i32>>) -> Seq<
    Seq<i32>,
>
    decreases samples.len(),
{
    if samples.len() == 0 {
        Seq::empty()
    } else {
        let srow = samples.last();
        structure_gradient_rows(systems, samples.drop_last()) + structure_rows_for_sample(
            systems[srow[0] as int].spec_species().len() as int,
            srow[0],
        )
    }
}

/// Environments corresponding to full structures, each structure being
/// described by a single feature vector.
///
/// The base set of indexes contains only the `structure` index; the gradient
/// indexes also contain the `atom` of the structure with respect to which
/// the gradient is taken and the `spatial` (x/y/z) axis.
pub struct StructureEnvironment;

impl StructureEnvironment {
    /// The sample variable names of this environment.
    pub fn names(&self) -> (r: Vec<String>)
        ensures
            names_of(r@) == structure_sample_names(),
    {
        let mut v: Vec<String> = Vec::new();
        v.push("structure".to_owned());
        proof {
            assert(names_of(v@) =~= structure_sample_names());
        }
        v
    }

    /// One sample per structure, in the order the structures were given.
    pub fn indexes(&self, systems: &Vec<System>) -> (r: Indexes)
        requires
            systems@.len() <= i32::MAX,
        ensures
            r.wf(),
            r.names_view() == structure_sample_names(),
            r.rows_view() == Seq::new(systems@.len(), |i: int| seq![i as i32]),
    {
        let ghost expected = Seq::new(systems@.len(), |i: int| seq![i as i32]);
        let mut builder = IndexesBuilder::new(self.names());
        let mut i: usize = 0;
        proof {
            assert(builder.rows_view() =~= expected.take(0));
        }
        while i < systems.len()
            invariant
                systems@.len() <= i32::MAX,
                i <= systems@.len(),
                expected == Seq::new(systems@.len(), |k: int| seq![k as i32]),
                builder.wf(),
                builder.names_view() == structure_sample_names(),
                builder.rows_view() == expected.take(i as int),
            decreases systems@.len() - i,
        {
            let mut row: Vec<i32> = Vec::new();
            row.push(i as i32);
            proof {
                assert(row@ =~= seq![i as i32]);
                assert(expected[i as int] == seq![i as i32]);
                assert(expected.take(i as int + 1) =~= expected.take(i as int).push(
                    expected[i as int],
                ));
            }
            builder.add(row);
            i = i + 1;
        }
        proof {
            assert(expected.take(systems@.len() as int) =~= expected);
        }
        builder.finish()
    }

    /// The gradient tuples matching the given samples: for each sample
    /// `(structure)`, in the order the samples were supplied, one tuple per
    /// `(atom of the structure, spatial axis)`, axes in the order x, y, z.
    pub fn gradients_for(&self, systems: &Vec<System>, samples: &Indexes) -> (r: Option<Indexes>)
        requires
            samples.wf(),
            samples.names_view() == structure_sample_names(),
            forall|k: int| 0 <= k < samples.rows_view().len() ==> 0 <= (
            #[trigger] samples.rows_view()[k])[0] < systems@.len(),
            forall|k: int| 0 <= k < systems@.len() ==> (#[trigger] systems@[k]).spec_species().len()
                <= i32::MAX,
        ensures
            r is Some,
            r matches Option::Some(g) ==> g.wf() && g.names_view() == structure_gradient_names()
                && g.rows_view() == structure_gradient_rows(systems@, samples.rows_view()),
    {
        let mut names: Vec<String> = Vec::new();
        names.push("structure".to_owned());
        names.push("atom".to_owned());
        names.push("spatial".to_owned());
        proof {
            assert(names_of(names@) =~= structure_gradient_names());
        }
        let mut builder = IndexesBuilder::new(names);
        let ghost all_samples = samples.rows_view();
        let n_samples = samples.count();
        let mut si: usize = 0;
        proof {
            assert(all_samples.take(0) =~= Seq::<Seq<i32>>::empty());
        }
        while si < n_samples
            invariant
                samples.wf(),
                samples.names_view() == structure_sample_names(),
                forall|k: int| 0 <= k < all_samples.len() ==> 0 <= (#[trigger] all_samples[k])[0]
                    < systems@.len(),
                forall|k: int| 0 <= k < systems@.len() ==> (
                #[trigger] systems@[k]).spec_species().len() <= i32::MAX,
                all_samples == samples.rows_view(),
                n_samples == all_samples.len(),
                si <= n_samples,
                builder.wf(),
                builder.names_view() == structure_gradient_names(),
                builder.rows_view() == structure_gradient_rows(systems@, all_samples.take(si as int)),
            decreases n_samples - si,
        {
            let srow = samples.row(si);
            let structure = srow[0];
            let sys = &systems[structure as usize];
            let n_atoms = sys.size();
            let ghost block = structure_rows_for_sample(n_atoms as int, structure);
            let ghost base = builder.rows_view();
            let mut a: usize = 0;
            proof {
                assert(base + block.take(0) =~= base);
            }
            while a < n_atoms
                invariant
                    a <= n_atoms,
                    n_atoms <= i32::MAX,
                    block == structure_rows_for_sample(n_atoms as int, structure),
                    builder.wf(),
                    builder.names_view() == structure_gradient_names(),
                    builder.rows_view() == base + block.take(3 * a as int),
                decreases n_atoms - a,
            {
                let mut axis: usize = 0;
                while axis < 3
                    invariant
                        a < n_atoms,
                        axis <= 3,
                        n_atoms <= i32::MAX,
                        block == structure_rows_for_sample(n_atoms as int, structure),
                        builder.wf(),
                        builder.names_view() == structure_gradient_names(),
                        builder.rows_view() == base + block.take(3 * a as int + axis as int),
                    decreases 3 - axis,
                {
                    let mut row: Vec<i32> = Vec::new();
                    row.push(structure);
                    row.push(a as i32);
                    row.push(axis as i32);
                    proof {
                        let k = 3 * a as int + axis as int;
                        assert(block[k] == seq![structure, (k / 3) as i32, (k % 3) as i32]);
                        assert(k / 3 == a as int && k % 3 == axis as int) by (nonlinear_arith)
                            requires
                                0 <= axis < 3,
                                0 <= a,
                                k == 3 * a as int + axis as int,
                        ;
                        assert(row@ =~= block[k]);
                        assert(block.take(k + 1) =~= block.take(k).push(block[k]));
                        assert(base + block.take(k + 1) =~= (base + block.take(k)).push(block[k]));
                    }
                    builder.add(row);
                    axis = axis + 1;
                }
                a = a + 1;
            }
            proof {
                assert(block.take(3 * n_atoms as int) =~= block);
                let next = all_samples.take(si as int + 1);
                assert(next.drop_last() =~= all_samples.take(si as int));
                assert(next.last() == all_samples[si as int]);
                assert(builder.rows_view() == structure_gradient_rows(systems@, next));
            }
            si = si + 1;
        }
        proof {
            assert(all_samples.take(n_samples as int) =~= all_samples);
        }
        Option::Some(builder.finish())
    }
}

/// The samples one structure contributes to the atom-centered sample set:
/// one tuple per atom, in ascending atom order.
pub open spec fn atom_samples_for_structure(structure: int, n_atoms: int) -> Seq<Seq<i32>> {
    Seq::new(n_atoms as nat, |c: int| seq![structure as i32, c as i32])
}

/// The first `n` structures' atom-centered samples, in structure order.
pub open spec fn atom_sample_rows(systems: Seq<System>, n: int) -> Seq<Seq<i32>>
    decreases n,
{
    if n <= 0 {
        Seq::empty()
    } else {
        atom_sample_rows(systems, n - 1) + atom_samples_for_structure(
            n - 1,
            systems[n - 1].spec_species().len() as int,
        )
    }
}

/// The `(structure, center, neighbor)` candidates one atom-centered sample
/// yields: one per installed pair touching the center, resolving the other
/// endpoint of the pair as the neighbor, in pair-list order.
pub open spec fn triples_for_sample(systems: Seq<System>, srow: Seq<i32>) -> Seq<(i32, i32, i32)> {
    let sys = systems[srow[0] as int];
    let touching = pairs_touching(sys.spec_pairs(), srow[1] as usize);
    Seq::new(
        touching.len(),
        |k: int|
            if touching[k].first == srow[1] as usize {
                (srow[0], srow[1], touching[k].second as i32)
            } else {
                (srow[0], srow[1], touching[k].first as i32)
            },
    )
}

/// All `(structure, center, neighbor)` candidates of the given samples,
/// processed in the order the samples were supplied.
pub open spec fn all_gradient_triples(systems: Seq<System>, samples: Seq<Seq<i32>>) -> Seq<
    (i32, i32, i32),
>
    decreases samples.len(),
{
    if samples.len() == 0 {
        Seq::empty()
    } else {
        all_gradient_triples(systems, samples.drop_last()) + triples_for_sample(
            systems,
            samples.last(),
        )
    }
}

/// Collapse duplicates, keeping the first occurrence of each value in its
/// first-seen position.
pub open spec fn dedup_first_seen(s: Seq<(i32, i32, i32)>) -> Seq<(i32, i32, i32)>
    decreases s.len(),
{
    if s.len() == 0 {
        Seq::empty()
    } else {
        let prev = dedup_first_seen(s.drop_last());
        if prev.contains(s.last()) {
            prev
        } else {
            prev.push(s.last())
        }
    }
}

/// Expand each `(structure, center, neighbor)` triple into three gradient
/// tuples, one per spatial axis, axes in the order x, y, z.
pub open spec fn axis_expanded(triples: Seq<(i32, i32, i32)>) -> Seq<Seq<i32>> {
    Seq::new(
        3 * triples.len(),
        |k: int| seq![triples[k / 3].0, triples[k / 3].1, triples[k / 3].2, (k % 3) as i32],
    )
}

/// Declares indexmap's `IndexSet` — the insertion-ordered unique set doing
/// the gradient de-duplication — so that it can stand in signatures; the
/// verifier sees nothing inside a value of it.
#[verifier::external_type_specification]
#[verifier::external_body]
#[verifier::reject_recursive_types(T)]
#[verifier::reject_recursive_types(S)]
pub struct ExIndexSet<T, S>(indexmap::IndexSet<T, S>);

/// The values an insertion-ordered set holds, in their insertion order.
pub uninterp spec fn index_set_entries(
    s: indexmap::IndexSet<(i32, i32, i32), std::collections::hash_map::RandomState>,
) -> Seq<(i32, i32, i32)>;

/// Relies on indexmap::IndexSet::new: a newly created set is empty.
#[verifier::external_body]
fn triple_set_new() -> (s: indexmap::IndexSet<
    (i32, i32, i32),
    std::collections::hash_map::RandomState,
>)
    ensures
        index_set_entries(s) == Seq::<(i32, i32, i32)>::empty(),
{
    indexmap::IndexSet::new()
}

/// Relies on indexmap::IndexSet::insert: a value that is not yet present is
/// appended after all present values, keeping insertion order; inserting a
/// value already present leaves the set unchanged; the result says whether
/// the value was new.
#[verifier::external_body]
fn triple_set_insert(
    s: &mut indexmap::IndexSet<(i32, i32, i32), std::collections::hash_map::RandomState>,
    value: (i32, i32, i32),
) -> (r: bool)
    ensures
        index_set_entries(*final(s)) == if index_set_entries(*old(s)).contains(value) {
            index_set_entries(*old(s))
        } else {
            index_set_entries(*old(s)).push(value)
        },
        r == !index_set_entries(*old(s)).contains(value),
{
    s.insert(value)
}

/// Relies on indexmap::IndexSet::iter: iteration yields the values in their
/// insertion order.
#[verifier::external_body]
fn triple_set_to_vec(
    s: &indexmap::IndexSet<(i32, i32, i32), std::collections::hash_map::RandomState>,
) -> (v: Vec<(i32, i32, i32)>)
    ensures
        v@ == index_set_entries(*s),
{
    s.iter().copied().collect()
}

/// Atom-centered environments, where each atom of a structure is described
/// with a feature vector based on the other atoms inside a sphere centered
/// on it.
///
/// The base set of indexes contains `structure` and `center` (the central
/// atom index inside the structure); the gradient indexes also contain the
/// `neighbor` inside the spherical cutoff with respect to which the gradient
/// is taken and the `spatial` (x/y/z) axis.
pub struct AtomEnvironment {
    cutoff_bits: u64,
}

impl AtomEnvironment {
    /// The cutoff radius of the environment sphere, as `f64` bits.
    pub closed spec fn spec_cutoff_bits(&self) -> u64 {
        self.cutoff_bits
    }

    /// Create an environment for spheres of the given radius (as `f64`
    /// bits). A degenerate cutoff — non-positive or non-finite — is refused
    /// here, at construction time, never during a computation.
    pub fn new(cutoff_bits: u64) -> (r: Result<AtomEnvironment, Error>)
        ensures
            r is Ok <==> cutoff_bits_valid(cutoff_bits),
            r matches Result::Ok(e) ==> e.spec_cutoff_bits() == cutoff_bits,
    {
        if crate::system::is_valid_cutoff(cutoff_bits) {
            Result::Ok(AtomEnvironment { cutoff_bits })
        } else {
            Result::Err(
                Error::InvalidCutoff("cutoff must be a strictly positive finite number".to_owned()),
            )
        }
    }

    /// The cutoff radius of the environment sphere, as `f64` bits.
    pub fn cutoff_bits(&self) -> (r: u64)
        ensures
            r == self.spec_cutoff_bits(),
    {
        self.cutoff_bits
    }

    /// The sample variable names of this environment.
    pub fn names(&self) -> (r: Vec<String>)
        ensures
            names_of(r@) == atom_sample_names(),
    {
        let mut v: Vec<String> = Vec::new();
        v.push("structure".to_owned());
        v.push("center".to_owned());
        proof {
            assert(names_of(v@) =~= atom_sample_names());
        }
        v
    }

    /// One sample per atom, enumerated in structure order, then ascending
    /// atom order within each structure.
    pub fn indexes(&self, systems: &Vec<System>) -> (r: Indexes)
        requires
            systems@.len() <= i32::MAX,
            forall|k: int| 0 <= k < systems@.len() ==> (#[trigger] systems@[k]).spec_species().len()
                <= i32::MAX,
        ensures
            r.wf(),
            r.names_view() == atom_sample_names(),
            r.rows_view() == atom_sample_rows(systems@, systems@.len() as int),
    {
        let mut builder = IndexesBuilder::new(self.names());
        let mut i: usize = 0;
        proof {
            assert(builder.rows_view() =~= atom_sample_rows(systems@, 0));
        }
        while i < systems.len()
            invariant
                systems@.len() <= i32::MAX,
                forall|k: int| 0 <= k < systems@.len() ==> (
                #[trigger] systems@[k]).spec_species().len() <= i32::MAX,
                i <= systems@.len(),
                builder.wf(),
                builder.names_view() == atom_sample_names(),
                builder.rows_view() == atom_sample_rows(systems@, i as int),
            decreases systems@.len() - i,
        {
            let sys = &systems[i];
            let n_atoms = sys.size();
            let ghost block = atom_samples_for_structure(i as int, n_atoms as int);
            let ghost base = builder.rows_view();
            let mut c: usize = 0;
            proof {
                assert(base + block.take(0) =~= base);
            }
            while c < n_atoms
                invariant
                    c <= n_atoms,
                    i < systems@.len() <= i32::MAX,
                    n_atoms == systems@[i as int].spec_species().len(),
                    n_atoms <= i32::MAX,
                    block == atom_samples_for_structure(i as int, n_atoms as int),
                    builder.wf(),
                    builder.names_view() == atom_sample_names(),
                    builder.rows_view() == base + block.take(c as int),
                decreases n_atoms - c,
            {
                let mut row: Vec<i32> = Vec::new();
                row.push(i as i32);
                row.push(c as i32);
                proof {
                    assert(row@ =~= block[c as int]);
                    assert(block.take(c as int + 1) =~= block.take(c as int).push(
                        block[c as int],
                    ));
                    assert(base + block.take(c as int + 1) =~= (base + block.take(c as int)).push(
                        block[c as int],
                    ));
                }
                builder.add(row);
                c = c + 1;
            }
            proof {
                assert(block.take(n_atoms as int) =~= block);
                assert(builder.rows_view() == atom_sample_rows(systems@, i as int + 1));
            }
            i = i + 1;
        }
        builder.finish()
    }

    /// The gradient tuples matching the given samples: for each sample
    /// `(structure, center)`, in the order the samples were supplied, the
    /// installed pairs touching the center resolve the other endpoint as the
    /// neighbor; duplicate `(structure, center, neighbor)` triples are
    /// collapsed to their first-seen occurrence, and each remaining triple
    /// expands to one tuple per spatial axis, axes in the order x, y, z.
    ///
    /// The neighbor list of every structure a sample refers to must have
    /// been installed for exactly this environment's cutoff before the call.
    pub fn gradients_for(&self, systems: &Vec<System>, samples: &Indexes) -> (r: Option<Indexes>)
        requires
            samples.wf(),
            samples.names_view() == atom_sample_names(),
            forall|k: int| 0 <= k < samples.rows_view().len() ==> 0 <= (
            #[trigger] samples.rows_view()[k])[0] < systems@.len() && 0
                <= samples.rows_view()[k][1],
            forall|k: int| 0 <= k < samples.rows_view().len() ==> (#[trigger] systems@[(
            samples.rows_view()[k][0]) as int]).neighbors_computed_for(self.spec_cutoff_bits()),
            forall|k: int| 0 <= k < systems@.len() ==> (#[trigger] systems@[k]).wf()
                && systems@[k].spec_species().len() <= i32::MAX,
        ensures
            r is Some,
            r matches Option::Some(g) ==> g.wf() && g.names_view() == atom_gradient_names()
                && g.rows_view() == axis_expanded(
                dedup_first_seen(all_gradient_triples(systems@, samples.rows_view())),
            ),
    {
        let ghost all_samples = samples.rows_view();
        let mut set = triple_set_new();
        let n_samples = samples.count();
        let mut si: usize = 0;
        proof {
            assert(all_samples.take(0) =~= Seq::<Seq<i32>>::empty());
        }
        while si < n_samples
            invariant
                samples.wf(),
                samples.names_view() == atom_sample_names(),
                forall|k: int| 0 <= k < all_samples.len() ==> 0 <= (#[trigger] all_samples[k])[0]
                    < systems@.len() && 0 <= all_samples[k][1],
                forall|k: int| 0 <= k < all_samples.len() ==> (#[trigger] systems@[(
                all_samples[k][0]) as int]).neighbors_computed_for(self.spec_cutoff_bits()),
                forall|k: int| 0 <= k < systems@.len() ==> (#[trigger] systems@[k]).wf()
                    && systems@[k].spec_species().len() <= i32::MAX,
                all_samples == samples.rows_view(),
                n_samples == all_samples.len(),
                si <= n_samples,
                index_set_entries(set) == dedup_first_seen(
                    all_gradient_triples(systems@, all_samples.take(si as int)),
                ),
            decreases n_samples - si,
        {
            let srow = samples.row(si);
            let structure = srow[0];
            let center_value = srow[1];
            let center = center_value as usize;
            let sys = &systems[structure as usize];
            let touching = sys.pairs_containing(center);
            let ghost tfs = triples_for_sample(systems@, all_samples[si as int]);
            let ghost done = all_gradient_triples(systems@, all_samples.take(si as int));
            let mut pi: usize = 0;
            proof {
                assert(srow@ == all_samples[si as int]);
                assert(touching@ == pairs_touching(sys.spec_pairs(), center));
                assert(tfs.len() == touching@.len());
                assert(done + tfs.take(0) =~= done);
            }
            while pi < touching.len()
                invariant
                    pi <= touching@.len(),
                    tfs == triples_for_sample(systems@, all_samples[si as int]),
                    si < all_samples.len(),
                    0 <= all_samples[si as int][0] < systems@.len(),
                    structure == all_samples[si as int][0],
                    center_value == all_samples[si as int][1],
                    0 <= center_value,
                    center == center_value as usize,
                    touching@ == pairs_touching(
                        systems@[structure as int].spec_pairs(),
                        center,
                    ),
                    tfs.len() == touching@.len(),
                    done == all_gradient_triples(systems@, all_samples.take(si as int)),
                    index_set_entries(set) == dedup_first_seen(done + tfs.take(pi as int)),
                decreases touching@.len() - pi,
            {
                let p = touching[pi];
                let neighbor = if p.first == center {
                    p.second
                } else {
                    p.first
                };
                let candidate = (structure, center_value, neighbor as i32);
                proof {
                    assert(tfs[pi as int] == candidate);
                    let cands = done + tfs.take(pi as int);
                    let next = done + tfs.take(pi as int + 1);
                    assert(tfs.take(pi as int + 1) =~= tfs.take(pi as int).push(tfs[pi as int]));
                    assert(next =~= cands.push(tfs[pi as int]));
                    assert(next.drop_last() =~= cands);
                    assert(next.last() == tfs[pi as int]);
                }
                triple_set_insert(&mut set, candidate);
                pi = pi + 1;
            }
            proof {
                assert(tfs.take(touching@.len() as int) =~= tfs);
                let next_samples = all_samples.take(si as int + 1);
                assert(next_samples.drop_last() =~= all_samples.take(si as int));
                assert(next_samples.last() == all_samples[si as int]);
                assert(all_gradient_triples(systems@, next_samples) == done + tfs);
            }
            si = si + 1;
        }
        proof {
            assert(all_samples.take(n_samples as int) =~= all_samples);
        }
        let triples = triple_set_to_vec(&set);
        let ghost final_triples = dedup_first_seen(all_gradient_triples(systems@, all_samples));
        let mut names: Vec<String> = Vec::new();
        names.push("structure".to_owned());
        names.push("center".to_owned());
        names.push("neighbor".to_owned());
        names.push("spatial".to_owned());
        proof {
            assert(names_of(names@) =~= atom_gradient_names());
        }
        let mut builder = IndexesBuilder::new(names);
        let ghost expanded = axis_expanded(final_triples);
        let mut ti: usize = 0;
        proof {
            assert(builder.rows_view() =~= expanded.take(0));
        }
        while ti < triples.len()
            invariant
                ti <= triples@.len(),
                triples@ == final_triples,
                expanded == axis_expanded(final_triples),
                builder.wf(),
                builder.names_view() == atom_gradient_names(),
                builder.rows_view() == expanded.take(3 * ti as int),
            decreases triples@.len() - ti,
        {
            let t = triples[ti];
            let mut axis: usize = 0;
            while axis < 3
                invariant
                    ti < triples@.len(),
                    axis <= 3,
                    t == triples@[ti as int],
                    triples@ == final_triples,
                    expanded == axis_expanded(final_triples),
                    builder.wf(),
                    builder.names_view() == atom_gradient_names(),
                    builder.rows_view() == expanded.take(3 * ti as int + axis as int),
                decreases 3 - axis,
            {
                let mut row: Vec<i32> = Vec::new();
                row.push(t.0);
                row.push(t.1);
                row.push(t.2);
                row.push(axis as i32);
                proof {
                    let k = 3 * ti as int + axis as int;
                    assert(k / 3 == ti as int && k % 3 == axis as int) by (nonlinear_arith)
                        requires
                            0 <= axis < 3,
                            0 <= ti,
                            k == 3 * ti as int + axis as int,
                    ;
                    assert(row@ =~= expanded[k]);
                    assert(expanded.take(k + 1) =~= expanded.take(k).push(expanded[k]));
                }
                builder.add(row);
                axis = axis + 1;
            }
            ti = ti + 1;
        }
        proof {
            assert(expanded.take(3 * triples@.len() as int) =~= expanded);
        }
        Option::Some(builder.finish())
    }
}

/// Sample/gradient row correspondence for the whole-structure environment:
/// the leading `structure` column of every gradient tuple matches a row of
/// the sample set the gradients were derived from — including when the
/// samples were reordered or filtered before the request, since the rows
/// are generated from the supplied samples alone.
pub proof fn lemma_structure_gradient_rows_reference_samples(
    systems: Seq<System>,
    samples: Seq<Seq<i32>>,
    rows: Seq<Seq<i32>>,
)
    requires
        rows == structure_gradient_rows(systems, samples),
    ensures
        forall|g: int| 0 <= g < rows.len() ==> exists|m: int|
            0 <= m < samples.len() && (#[trigger] rows[g])[0] == samples[m][0],
    decreases samples.len(),
{
    if samples.len() > 0 {
        let srow = samples.last();
        let prefix = structure_gradient_rows(systems, samples.drop_last());
        let block = structure_rows_for_sample(
            systems[srow[0] as int].spec_species().len() as int,
            srow[0],
        );
        lemma_structure_gradient_rows_reference_samples(systems, samples.drop_last(), prefix);
        assert forall|g: int| 0 <= g < rows.len() implies exists|m: int|
            0 <= m < samples.len() && (#[trigger] rows[g])[0] == samples[m][0] by {
            if g < prefix.len() {
                assert(rows[g] == prefix[g]);
                let m = choose|m: int|
                    0 <= m < samples.drop_last().len() && (#[trigger] prefix[g])[0]
                        == samples.drop_last()[m][0];
                assert(samples[m] == samples.drop_last()[m]);
                assert(rows[g][0] == samples[m][0]);
            } else {
                assert(rows[g] == block[g - prefix.len()]);
                assert(block[g - prefix.len()][0] == srow[0]);
                assert(samples[samples.len() - 1] == srow);
                assert(rows[g][0] == samples[samples.len() - 1][0]);
            }
        }
    }
}

/// First-seen deduplication only removes values, it never invents one.
pub proof fn lemma_dedup_first_seen_subset(s: Seq<(i32, i32, i32)>)
    ensures
        forall|t: (i32, i32, i32)| dedup_first_seen(s).contains(t) ==> s.contains(t),
    decreases s.len(),
{
    if s.len() > 0 {
        lemma_dedup_first_seen_subset(s.drop_last());
        assert forall|t: (i32, i32, i32)| dedup_first_seen(s).contains(t) implies s.contains(
            t,
        ) by {
            let prev = dedup_first_seen(s.drop_last());
            if prev.contains(t) {
                assert(s.drop_last().contains(t));
                let k = choose|k: int| 0 <= k < s.drop_last().len() && s.drop_last()[k] == t;
                assert(s[k] == t);
            } else {
                assert(t == s.last());
                assert(s[s.len() - 1] == t);
            }
        }
    }
}

/// Every `(structure, center, neighbor)` candidate of a sample set carries
/// the `structure` and `center` of one of its samples.
pub proof fn lemma_gradient_triples_reference_samples(
    systems: Seq<System>,
    samples: Seq<Seq<i32>>,
)
    ensures
        forall|t: (i32, i32, i32)| all_gradient_triples(systems, samples).contains(t)
            ==> exists|m: int| 0 <= m < samples.len() && t.0 == (#[trigger] samples[m])[0] && t.1
            == samples[m][1],
    decreases samples.len(),
{
    if samples.len() > 0 {
        let srow = samples.last();
        let prefix = all_gradient_triples(systems, samples.drop_last());
        let block = triples_for_sample(systems, srow);
        lemma_gradient_triples_reference_samples(systems, samples.drop_last());
        assert forall|t: (i32, i32, i32)| all_gradient_triples(systems, samples).contains(t)
            implies exists|m: int|
            0 <= m < samples.len() && t.0 == (#[trigger] samples[m])[0] && t.1 == samples[m][1] by {
            let whole = all_gradient_triples(systems, samples);
            let k = choose|k: int| 0 <= k < whole.len() && whole[k] == t;
            if k < prefix.len() {
                assert(prefix[k] == t);
                assert(prefix.contains(t));
                let m = choose|m: int|
                    0 <= m < samples.drop_last().len() && t.0 == (#[trigger] samples.drop_last()[m])[0]
                        && t.1 == samples.drop_last()[m][1];
                assert(samples[m] == samples.drop_last()[m]);
                assert(t.0 == samples[m][0] && t.1 == samples[m][1]);
            } else {
                assert(block[k - prefix.len()] == t);
                assert(t.0 == srow[0] && t.1 == srow[1]);
                assert(samples[samples.len() - 1] == srow);
                assert(t.0 == samples[samples.len() - 1][0] && t.1 == samples[samples.len()
                    - 1][1]);
            }
        }
    }
}

/// Sample/gradient row correspondence for the atom-centered environment:
/// the leading `structure` and `center` columns of every gradient tuple
/// match a row of the sample set the gradients were derived from —
/// including when the samples were reordered or filtered before the
/// request, since the candidates are generated from the supplied samples
/// alone.
pub proof fn lemma_atom_gradient_rows_reference_samples(
    systems: Seq<System>,
    samples: Seq<Seq<i32>>,
    rows: Seq<Seq<i32>>,
)
    requires
        rows == axis_expanded(dedup_first_seen(all_gradient_triples(systems, samples))),
    ensures
        forall|g: int| 0 <= g < rows.len() ==> exists|m: int|
            0 <= m < samples.len() && (#[trigger] rows[g])[0] == samples[m][0] && rows[g][1]
                == samples[m][1],
{
    let triples = dedup_first_seen(all_gradient_triples(systems, samples));
    lemma_dedup_first_seen_subset(all_gradient_triples(systems, samples));
    lemma_gradient_triples_reference_samples(systems, samples);
    assert forall|g: int| 0 <= g < rows.len() implies exists|m: int|
        0 <= m < samples.len() && (#[trigger] rows[g])[0] == samples[m][0] && rows[g][1]
            == samples[m][1] by {
        let t = triples[g / 3];
        assert(0 <= g / 3 < triples.len());
        assert(rows[g] == seq![t.0, t.1, t.2, (g % 3) as i32]);
        assert(triples.contains(t));
        assert(all_gradient_triples(systems, samples).contains(t));
        let m = choose|m: int|
            0 <= m < samples.len() && t.0 == (#[trigger] samples[m])[0] && t.1 == samples[m][1];
        assert(rows[g][0] == samples[m][0] && rows[g][1] == samples[m][1]);
    }
}

/// Order stability of the whole-structure gradients: the supplied samples
/// are processed front to back, so the gradient tuples of a concatenation
/// of two sample lists are the gradient tuples of the first followed by
/// those of the second. Reordering or subsetting the samples therefore
/// reorders or subsets the per-sample gradient blocks identically.
pub proof fn lemma_structure_gradient_rows_stable(
    systems: Seq<System>,
    first: Seq<Seq<i32>>,
    second: Seq<Seq<i32>>,
)
    ensures
        structure_gradient_rows(systems, first + second) == structure_gradient_rows(systems, first)
            + structure_gradient_rows(systems, second),
    decreases second.len(),
{
    if second.len() == 0 {
        assert(first + second =~= first);
        assert(structure_gradient_rows(systems, first) + structure_gradient_rows(systems, second)
            =~= structure_gradient_rows(systems, first));
    } else {
        lemma_structure_gradient_rows_stable(systems, first, second.drop_last());
        let whole = first + second;
        assert(whole.drop_last() =~= first + second.drop_last());
        assert(whole.last() == second.last());
        let srow = second.last();
        let block = structure_rows_for_sample(
            systems[srow[0] as int].spec_species().len() as int,
            srow[0],
        );
        assert(structure_gradient_rows(systems, whole) == (structure_gradient_rows(systems, first)
            + structure_gradient_rows(systems, second.drop_last())) + block);
        assert((structure_gradient_rows(systems, first) + structure_gradient_rows(
            systems,
            second.drop_last(),
        )) + block =~= structure_gradient_rows(systems, first) + (structure_gradient_rows(
            systems,
            second.drop_last(),
        ) + block));
    }
}

/// The same stability for the candidate triples of the atom-centered
/// gradients: candidates of concatenated sample lists concatenate, in
/// order; the first-seen deduplication then runs over that ordered stream.
pub proof fn lemma_gradient_triples_stable(
    systems: Seq<System>,
    first: Seq<Seq<i32>>,
    second: Seq<Seq<i32>>,
)
    ensures
        all_gradient_triples(systems, first + second) == all_gradient_triples(systems, first)
            + all_gradient_triples(systems, second),
    decreases second.len(),
{
    if second.len() == 0 {
        assert(first + second =~= first);
        assert(all_gradient_triples(systems, first) + all_gradient_triples(systems, second)
            =~= all_gradient_triples(systems, first));
    } else {
        lemma_gradient_triples_stable(systems, first, second.drop_last());
        let whole = first + second;
        assert(whole.drop_last() =~= first + second.drop_last());
        assert(whole.last() == second.last());
        let block = triples_for_sample(systems, second.last());
        assert(all_gradient_triples(systems, whole) == (all_gradient_triples(systems, first)
            + all_gradient_triples(systems, second.drop_last())) + block);
        assert((all_gradient_triples(systems, first) + all_gradient_triples(
            systems,
            second.drop_last(),
        )) + block =~= all_gradient_triples(systems, first) + (all_gradient_triples(
            systems,
            second.drop_last(),
        ) + block));
    }
}

} // verus!
