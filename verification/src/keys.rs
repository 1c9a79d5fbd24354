//! Species key builders.
//!
//! A key is an index tuple of chemical species numbers identifying one
//! independent block of the output tensor. All schemes share one contract:
//! the key set is deterministic, duplicate-free, canonically ordered
//! (ascending lexicographic), and independent of the order in which the
//! structures are traversed — downstream consumers index output blocks by
//! position in this set, so its order must be reproducible across runs. Each
//! scheme proves that with a membership characterization (which tuples are
//! in the set) together with strict sortedness, and a determinism lemma
//! derives that two builds over permuted structures yield the identical
//! ordered key set.

use vstd::prelude::*;

use crate::errors::Error;
use crate::indexes::{names_of, rows_of, Indexes, IndexesBuilder};
use crate::sorted::{
    lemma_sorted_unique_same_membership_implies_equal, lemma_take_one_more_contains,
    strictly_sorted, SortedRowSet,
};
use crate::system::{cutoff_bits_valid, is_valid_cutoff, pairs_touching,
    lemma_pairs_touching_membership, Pair, System, Triplet};

verus! {

/// The key variables of the single-species scheme.
pub open spec fn center_species_key_names() -> Seq<Seq<char>> {
    seq!["species_center"@]
}

/// Whether a tuple belongs to the single-species key set: the species
/// appears on some atom of some structure.
pub open spec fn center_species_member(systems: Seq<System>, row: Seq<i32>) -> bool {
    &&& row.len() == 1
    &&& exists|k: int| 0 <= k < systems.len() && (#[trigger] systems[k]).spec_species().contains(
        row[0],
    )
}

/// What [`CenterSpeciesKeys::keys`] promises of its result rows.
pub open spec fn center_species_keys_post(systems: Seq<System>, rows: Seq<Seq<i32>>) -> bool {
    &&& strictly_sorted(rows)
    &&& forall|row: Seq<i32>| rows.contains(row) <==> center_species_member(systems, row)
}

/// Keys with a single variable: the distinct central atom species appearing
/// anywhere across all structures, sorted ascending.
pub struct CenterSpeciesKeys;

impl CenterSpeciesKeys {
    /// Compute the keys corresponding to these structures.
    pub fn keys(&self, systems: &Vec<System>) -> (r: Result<Indexes, Error>)
        ensures
            r is Ok,
            r matches Result::Ok(keys) ==> keys.wf() && keys.names_view()
                == center_species_key_names() && center_species_keys_post(
                systems@,
                keys.rows_view(),
            ),
    {
        let mut set = SortedRowSet::new();
        let mut i: usize = 0;
        proof {
            assert(systems@.take(0) =~= Seq::<System>::empty());
        }
        while i < systems.len()
            invariant
                i <= systems@.len(),
                set.wf(),
                forall|r: Seq<i32>| #[trigger] set.spec_contains(r) <==> center_species_member(
                    systems@.take(i as int),
                    r,
                ),
            decreases systems@.len() - i,
        {
            let species = systems[i].species();
            let mut j: usize = 0;
            proof {
                assert(species@.take(0) =~= Seq::<i32>::empty());
            }
            while j < species.len()
                invariant
                    i < systems@.len(),
                    j <= species@.len(),
                    species@ == systems@[i as int].spec_species(),
                    set.wf(),
                    forall|r: Seq<i32>| #[trigger] set.spec_contains(r) <==> center_species_member(
                        systems@.take(i as int),
                        r,
                    ) || (r.len() == 1 && species@.take(j as int).contains(r[0])),
                decreases species@.len() - j,
            {
                let mut row: Vec<i32> = Vec::new();
                row.push(species[j]);
                proof {
                    assert(row@ =~= seq![species@[j as int]]);
                    lemma_take_one_more_contains(species@, j as int);
                }
                let ghost pre = set;
                set.insert(row);
                proof {
                    let upto = systems@.take(i as int);
                    assert forall|r: Seq<i32>| #[trigger] set.spec_contains(r) implies
                        center_species_member(upto, r) || (r.len() == 1 && species@.take(
                        j as int + 1,
                    ).contains(r[0])) by {
                        if r == row@ {
                            assert(species@.take(j as int + 1)[j as int] == species@[j as int]);
                        }
                    }
                    assert forall|r: Seq<i32>| center_species_member(upto, r) || (r.len() == 1
                        && species@.take(j as int + 1).contains(r[0])) implies
                        #[trigger] set.spec_contains(r) by {
                        if center_species_member(upto, r) || (r.len() == 1 && species@.take(
                            j as int,
                        ).contains(r[0])) {
                            assert(pre.spec_contains(r));
                        } else {
                            assert(r.len() == 1 && r[0] == species@[j as int]);
                            assert(r =~= row@);
                        }
                    }
                }
                j = j + 1;
            }
            proof {
                assert(species@.take(species@.len() as int) =~= species@);
                lemma_take_one_more_contains(systems@, i as int);
                let upto = systems@.take(i as int);
                let next = systems@.take(i as int + 1);
                assert forall|r: Seq<i32>| #[trigger] set.spec_contains(r) implies
                    center_species_member(next, r) by {
                    if center_species_member(upto, r) {
                        let k = choose|k: int| 0 <= k < upto.len()
                            && (#[trigger] upto[k]).spec_species().contains(r[0]);
                        assert(next[k].spec_species().contains(r[0]));
                    } else {
                        assert(next[i as int].spec_species().contains(r[0]));
                    }
                }
                assert forall|r: Seq<i32>| center_species_member(next, r) implies
                    #[trigger] set.spec_contains(r) by {
                    let k = choose|k: int| 0 <= k < next.len()
                        && (#[trigger] next[k]).spec_species().contains(r[0]);
                    if k < i {
                        assert(upto[k].spec_species().contains(r[0]));
                    } else {
                        assert(next[k] == systems@[i as int]);
                    }
                }
            }
            i = i + 1;
        }
        proof {
            assert(systems@.take(systems@.len() as int) =~= systems@);
            assert forall|r: Seq<i32>| set.view_rows().contains(r) <==> center_species_member(
                systems@,
                r,
            ) by {
                assert(set.spec_contains(r) <==> center_species_member(
                    systems@.take(systems@.len() as int),
                    r,
                ));
            }
        }
        finish_keys(set, center_species_names_vec(), Ghost(1))
    }
}

/// The concrete names of the single-species scheme.
fn center_species_names_vec() -> (v: Vec<String>)
    ensures
        names_of(v@) == center_species_key_names(),
        names_of(v@).len() == 1,
{
    let mut v: Vec<String> = Vec::new();
    v.push("species_center".to_owned());
    proof {
        assert(names_of(v@) =~= center_species_key_names());
    }
    v
}

/// Turn an accumulated key set into an `Indexes` value under the given
/// variable names; every row of the set must have one value per variable.
fn finish_keys(set: SortedRowSet, names: Vec<String>, Ghost(arity): Ghost<int>) -> (r: Result<
    Indexes,
    Error,
>)
    requires
        set.wf(),
        names_of(names@).len() == arity,
        forall|r: Seq<i32>| #[trigger] set.spec_contains(r) ==> r.len() == arity,
    ensures
        r is Ok,
        r matches Result::Ok(keys) ==> keys.wf() && keys.names_view() == names_of(names@)
            && keys.rows_view() == set.view_rows(),
    {
    let mut builder = IndexesBuilder::new(names);
    let ghost view = set.view_rows();
    let rows = set.into_rows();
    proof {
        assert forall|k: int| 0 <= k < rows_of(rows@).len() implies (#[trigger] rows_of(rows@)[k]).len()
            == builder.names_view().len() by {
            assert(view.contains(view[k]));
            assert(set.spec_contains(view[k]));
        }
    }
    builder.add_all(rows);
    let r = builder.finish();
    proof {
        assert(r.rows_view() =~= view);
    }
    Result::Ok(r)
}

/// Key set determinism for the single-species scheme: two builds from the
/// same structures, even after permuting the structure order, yield the
/// identical ordered key set.
pub proof fn lemma_center_species_keys_deterministic(
    systems1: Seq<System>,
    systems2: Seq<System>,
    rows1: Seq<Seq<i32>>,
    rows2: Seq<Seq<i32>>,
)
    requires
        systems1.to_multiset() == systems2.to_multiset(),
        center_species_keys_post(systems1, rows1),
        center_species_keys_post(systems2, rows2),
    ensures
        rows1 == rows2,
{
    lemma_permuted_systems_same_contains(systems1, systems2);
    assert forall|row: Seq<i32>| rows1.contains(row) <==> rows2.contains(row) by {
        if center_species_member(systems1, row) {
            lemma_member_transfer_center_species(systems1, systems2, row);
        }
        if center_species_member(systems2, row) {
            lemma_member_transfer_center_species(systems2, systems1, row);
        }
    }
    lemma_sorted_unique_same_membership_implies_equal(rows1, rows2);
}

/// Sequences with equal multisets hold the same values.
proof fn lemma_permuted_systems_same_contains(systems1: Seq<System>, systems2: Seq<System>)
    requires
        systems1.to_multiset() == systems2.to_multiset(),
    ensures
        forall|sys: System| systems1.contains(sys) <==> systems2.contains(sys),
{
    broadcast use vstd::seq_lib::group_to_multiset_ensures;

    assert forall|sys: System| systems1.contains(sys) <==> systems2.contains(sys) by {
        assert(systems1.contains(sys) <==> systems1.to_multiset().count(sys) > 0);
        assert(systems2.contains(sys) <==> systems2.to_multiset().count(sys) > 0);
    }
}

proof fn lemma_member_transfer_center_species(
    systems1: Seq<System>,
    systems2: Seq<System>,
    row: Seq<i32>,
)
    requires
        forall|sys: System| systems1.contains(sys) <==> systems2.contains(sys),
        center_species_member(systems1, row),
    ensures
        center_species_member(systems2, row),
{
    let k = choose|k: int| 0 <= k < systems1.len() && (#[trigger] systems1[k]).spec_species().contains(
        row[0],
    );
    assert(systems1.contains(systems1[k]));
    assert(systems2.contains(systems1[k]));
    let m = choose|m: int| 0 <= m < systems2.len() && systems2[m] == systems1[k];
    assert(systems2[m].spec_species().contains(row[0]));
}

/// The key variables of the all-pairs scheme.
pub open spec fn species_pair_key_names() -> Seq<Seq<char>> {
    seq!["species_center"@, "species_neighbor"@]
}

/// Whether a tuple belongs to the all-pairs key set: both species appear
/// (on any atoms) within one and the same structure.
pub open spec fn all_species_pairs_member(systems: Seq<System>, row: Seq<i32>) -> bool {
    &&& row.len() == 2
    &&& exists|k: int| 0 <= k < systems.len() && (#[trigger] systems[k]).spec_species().contains(
        row[0],
    ) && systems[k].spec_species().contains(row[1])
}

/// What [`AllSpeciesPairsKeys::keys`] promises of its result rows.
pub open spec fn all_species_pairs_keys_post(systems: Seq<System>, rows: Seq<Seq<i32>>) -> bool {
    &&& strictly_sorted(rows)
    &&& forall|row: Seq<i32>| rows.contains(row) <==> all_species_pairs_member(systems, row)
}

/// Keys with two variables: every ordered pair of species that appear
/// somewhere within the same structure (no geometric proximity required),
/// sorted lexicographically.
pub struct AllSpeciesPairsKeys {}

impl AllSpeciesPairsKeys {
    /// Compute the keys corresponding to these structures.
    pub fn keys(&self, systems: &Vec<System>) -> (r: Result<Indexes, Error>)
        ensures
            r is Ok,
            r matches Result::Ok(keys) ==> keys.wf() && keys.names_view()
                == species_pair_key_names() && all_species_pairs_keys_post(
                systems@,
                keys.rows_view(),
            ),
    {
        let mut set = SortedRowSet::new();
        let mut i: usize = 0;
        proof {
            assert(systems@.take(0) =~= Seq::<System>::empty());
        }
        while i < systems.len()
            invariant
                i <= systems@.len(),
                set.wf(),
                forall|r: Seq<i32>| #[trigger] set.spec_contains(r) <==> all_species_pairs_member(
                    systems@.take(i as int),
                    r,
                ),
            decreases systems@.len() - i,
        {
            let species = systems[i].species();
            let ghost upto = systems@.take(i as int);
            let mut j: usize = 0;
            proof {
                assert(species@.take(0) =~= Seq::<i32>::empty());
            }
            while j < species.len()
                invariant
                    i < systems@.len(),
                    j <= species@.len(),
                    species@ == systems@[i as int].spec_species(),
                    upto == systems@.take(i as int),
                    set.wf(),
                    forall|r: Seq<i32>| #[trigger] set.spec_contains(r)
                        <==> all_species_pairs_member(upto, r) || (r.len() == 2 && species@.take(
                        j as int,
                    ).contains(r[0]) && species@.contains(r[1])),
                decreases species@.len() - j,
            {
                let first = species[j];
                let mut l: usize = 0;
                proof {
                    assert(species@.take(0) =~= Seq::<i32>::empty());
                }
                while l < species.len()
                    invariant
                        i < systems@.len(),
                        j < species@.len(),
                        l <= species@.len(),
                        first == species@[j as int],
                        species@ == systems@[i as int].spec_species(),
                        upto == systems@.take(i as int),
                        set.wf(),
                        forall|r: Seq<i32>| #[trigger] set.spec_contains(r)
                            <==> all_species_pairs_member(upto, r) || (r.len() == 2
                            && species@.take(j as int).contains(r[0]) && species@.contains(r[1]))
                            || (r.len() == 2 && r[0] == first && species@.take(l as int).contains(
                            r[1],
                        )),
                    decreases species@.len() - l,
                {
                    let mut row: Vec<i32> = Vec::new();
                    row.push(first);
                    row.push(species[l]);
                    proof {
                        assert(row@ =~= seq![first, species@[l as int]]);
                        lemma_take_one_more_contains(species@, l as int);
                    }
                    let ghost pre = set;
                    set.insert(row);
                    proof {
                        assert forall|r: Seq<i32>| #[trigger] set.spec_contains(r) implies
                            all_species_pairs_member(upto, r) || (r.len() == 2 && species@.take(
                            j as int,
                        ).contains(r[0]) && species@.contains(r[1])) || (r.len() == 2 && r[0]
                            == first && species@.take(l as int + 1).contains(r[1])) by {
                            if r == row@ {
                                assert(species@.take(l as int + 1)[l as int]
                                    == species@[l as int]);
                            }
                        }
                        assert forall|r: Seq<i32>|
                            all_species_pairs_member(upto, r) || (r.len() == 2 && species@.take(
                                j as int,
                            ).contains(r[0]) && species@.contains(r[1])) || (r.len() == 2 && r[0]
                                == first && species@.take(l as int + 1).contains(r[1])) implies
                            #[trigger] set.spec_contains(r) by {
                            if all_species_pairs_member(upto, r) || (r.len() == 2 && species@.take(
                                j as int,
                            ).contains(r[0]) && species@.contains(r[1])) || (r.len() == 2 && r[0]
                                == first && species@.take(l as int).contains(r[1])) {
                                assert(pre.spec_contains(r));
                            } else {
                                assert(r.len() == 2 && r[0] == first
                                    && r[1] == species@[l as int]);
                                assert(r =~= row@);
                            }
                        }
                    }
                    l = l + 1;
                }
                proof {
                    assert(species@.take(species@.len() as int) =~= species@);
                    lemma_take_one_more_contains(species@, j as int);
                    assert forall|r: Seq<i32>| #[trigger] set.spec_contains(r) implies
                        all_species_pairs_member(upto, r) || (r.len() == 2 && species@.take(
                        j as int + 1,
                    ).contains(r[0]) && species@.contains(r[1])) by {
                        if r.len() == 2 && r[0] == first && species@.contains(r[1]) {
                            assert(species@.take(j as int + 1)[j as int] == species@[j as int]);
                        }
                    }
                    assert forall|r: Seq<i32>|
                        all_species_pairs_member(upto, r) || (r.len() == 2 && species@.take(
                            j as int + 1,
                        ).contains(r[0]) && species@.contains(r[1])) implies
                        #[trigger] set.spec_contains(r) by {}
                }
                j = j + 1;
            }
            proof {
                assert(species@.take(species@.len() as int) =~= species@);
                let next = systems@.take(i as int + 1);
                assert forall|r: Seq<i32>| #[trigger] set.spec_contains(r) implies
                    all_species_pairs_member(next, r) by {
                    if all_species_pairs_member(upto, r) {
                        let k = choose|k: int| 0 <= k < upto.len()
                            && (#[trigger] upto[k]).spec_species().contains(r[0])
                            && upto[k].spec_species().contains(r[1]);
                        assert(next[k].spec_species().contains(r[0]));
                        assert(next[k].spec_species().contains(r[1]));
                    } else {
                        assert(next[i as int].spec_species().contains(r[0]));
                        assert(next[i as int].spec_species().contains(r[1]));
                    }
                }
                assert forall|r: Seq<i32>| all_species_pairs_member(next, r) implies
                    #[trigger] set.spec_contains(r) by {
                    let k = choose|k: int| 0 <= k < next.len()
                        && (#[trigger] next[k]).spec_species().contains(r[0])
                        && next[k].spec_species().contains(r[1]);
                    if k < i {
                        assert(upto[k].spec_species().contains(r[0]));
                        assert(upto[k].spec_species().contains(r[1]));
                    } else {
                        assert(next[k] == systems@[i as int]);
                    }
                }
            }
            i = i + 1;
        }
        proof {
            assert(systems@.take(systems@.len() as int) =~= systems@);
            assert forall|r: Seq<i32>| set.view_rows().contains(r) <==> all_species_pairs_member(
                systems@,
                r,
            ) by {
                assert(set.spec_contains(r) <==> all_species_pairs_member(
                    systems@.take(systems@.len() as int),
                    r,
                ));
            }
        }
        finish_keys(set, species_pair_names_vec(), Ghost(2))
    }
}

/// The concrete names of the all-pairs scheme.
fn species_pair_names_vec() -> (v: Vec<String>)
    ensures
        names_of(v@) == species_pair_key_names(),
        names_of(v@).len() == 2,
{
    let mut v: Vec<String> = Vec::new();
    v.push("species_center".to_owned());
    v.push("species_neighbor".to_owned());
    proof {
        assert(names_of(v@) =~= species_pair_key_names());
    }
    v
}

/// Key set determinism for the all-pairs scheme.
pub proof fn lemma_all_species_pairs_keys_deterministic(
    systems1: Seq<System>,
    systems2: Seq<System>,
    rows1: Seq<Seq<i32>>,
    rows2: Seq<Seq<i32>>,
)
    requires
        systems1.to_multiset() == systems2.to_multiset(),
        all_species_pairs_keys_post(systems1, rows1),
        all_species_pairs_keys_post(systems2, rows2),
    ensures
        rows1 == rows2,
{
    lemma_permuted_systems_same_contains(systems1, systems2);
    assert forall|row: Seq<i32>| rows1.contains(row) <==> rows2.contains(row) by {
        if all_species_pairs_member(systems1, row) {
            lemma_member_transfer_all_species_pairs(systems1, systems2, row);
        }
        if all_species_pairs_member(systems2, row) {
            lemma_member_transfer_all_species_pairs(systems2, systems1, row);
        }
    }
    lemma_sorted_unique_same_membership_implies_equal(rows1, rows2);
}

proof fn lemma_member_transfer_all_species_pairs(
    systems1: Seq<System>,
    systems2: Seq<System>,
    row: Seq<i32>,
)
    requires
        forall|sys: System| systems1.contains(sys) <==> systems2.contains(sys),
        all_species_pairs_member(systems1, row),
    ensures
        all_species_pairs_member(systems2, row),
{
    let k = choose|k: int| 0 <= k < systems1.len()
        && (#[trigger] systems1[k]).spec_species().contains(row[0])
        && systems1[k].spec_species().contains(row[1]);
    assert(systems1.contains(systems1[k]));
    assert(systems2.contains(systems1[k]));
    let m = choose|m: int| 0 <= m < systems2.len() && systems2[m] == systems1[k];
    assert(systems2[m].spec_species().contains(row[0]));
    assert(systems2[m].spec_species().contains(row[1]));
}

/// The species pair a neighbor pair stands for, read off the structure's
/// species list: `(species of first, species of second)`.
pub open spec fn pair_species_row(sys: System, p: Pair) -> Seq<i32> {
    seq![sys.spec_species()[p.first as int], sys.spec_species()[p.second as int]]
}

/// The same pair with the two species swapped.
pub open spec fn pair_species_row_swapped(sys: System, p: Pair) -> Seq<i32> {
    seq![sys.spec_species()[p.second as int], sys.spec_species()[p.first as int]]
}

/// Whether a tuple is the species pair (in either direction) of one of the
/// first `m` installed neighbor pairs of the structure.
pub open spec fn pair_key_upto(sys: System, m: int, row: Seq<i32>) -> bool {
    exists|t: int| 0 <= t < m && (row == pair_species_row(sys, #[trigger] sys.spec_pairs()[t])
        || row == pair_species_row_swapped(sys, sys.spec_pairs()[t]))
}

/// Whether a tuple belongs to the cutoff-pair key set contributed by one
/// structure: the species pair of an installed neighbor pair in either
/// direction, or, when self pairs are enabled, `(s, s)` for a present
/// species `s`.
pub open spec fn center_single_neighbors_system_member(
    self_pairs: bool,
    sys: System,
    row: Seq<i32>,
) -> bool {
    ||| pair_key_upto(sys, sys.spec_pairs().len() as int, row)
    ||| (self_pairs && row.len() == 2 && row[0] == row[1] && sys.spec_species().contains(row[0]))
}

/// Whether a tuple belongs to the cutoff-pair key set of these structures.
pub open spec fn center_single_neighbors_member(
    self_pairs: bool,
    systems: Seq<System>,
    row: Seq<i32>,
) -> bool {
    &&& row.len() == 2
    &&& exists|k: int| 0 <= k < systems.len() && center_single_neighbors_system_member(
        self_pairs,
        #[trigger] systems[k],
        row,
    )
}

/// What [`CenterSingleNeighborsSpeciesKeys::keys`] promises of its result
/// rows.
pub open spec fn center_single_neighbors_keys_post(
    self_pairs: bool,
    systems: Seq<System>,
    rows: Seq<Seq<i32>>,
) -> bool {
    &&& strictly_sorted(rows)
    &&& forall|row: Seq<i32>| rows.contains(row) <==> center_single_neighbors_member(
        self_pairs,
        systems,
        row,
    )
}

/// Keys with two variables: the central atom species and a single neighbor
/// atom species within a cutoff around the central atom, both directions of
/// each neighbor pair inserted explicitly, sorted lexicographically.
pub struct CenterSingleNeighborsSpeciesKeys {
    cutoff_bits: u64,
    self_pairs: bool,
}

impl CenterSingleNeighborsSpeciesKeys {
    /// The cutoff used when searching for neighbors, as `f64` bits.
    pub closed spec fn spec_cutoff_bits(&self) -> u64 {
        self.cutoff_bits
    }

    /// Whether an atom is considered to be its own neighbor.
    pub closed spec fn spec_self_pairs(&self) -> bool {
        self.self_pairs
    }

    /// Create the scheme. A degenerate cutoff — non-positive or non-finite —
    /// is refused here, at construction time.
    pub fn new(cutoff_bits: u64, self_pairs: bool) -> (r: Result<
        CenterSingleNeighborsSpeciesKeys,
        Error,
    >)
        ensures
            r is Ok <==> cutoff_bits_valid(cutoff_bits),
            r matches Result::Ok(b) ==> b.spec_cutoff_bits() == cutoff_bits && b.spec_self_pairs()
                == self_pairs,
    {
        if is_valid_cutoff(cutoff_bits) {
            Result::Ok(CenterSingleNeighborsSpeciesKeys { cutoff_bits, self_pairs })
        } else {
            Result::Err(
                Error::InvalidCutoff("cutoff must be a strictly positive finite number".to_owned()),
            )
        }
    }

    /// The cutoff used when searching for neighbors, as `f64` bits.
    pub fn cutoff_bits(&self) -> (r: u64)
        ensures
            r == self.spec_cutoff_bits(),
    {
        self.cutoff_bits
    }

    /// Whether an atom is considered to be its own neighbor.
    pub fn self_pairs(&self) -> (r: bool)
        ensures
            r == self.spec_self_pairs(),
    {
        self.self_pairs
    }

    /// Compute the keys corresponding to these structures. The neighbor list
    /// of every structure must have been installed for exactly this scheme's
    /// cutoff before the call.
    pub fn keys(&self, systems: &Vec<System>) -> (r: Result<Indexes, Error>)
        requires
            forall|k: int| 0 <= k < systems@.len() ==> (#[trigger] systems@[k]).wf()
                && systems@[k].neighbors_computed_for(self.spec_cutoff_bits()),
        ensures
            r is Ok,
            r matches Result::Ok(keys) ==> keys.wf() && keys.names_view()
                == species_pair_key_names() && center_single_neighbors_keys_post(
                self.spec_self_pairs(),
                systems@,
                keys.rows_view(),
            ),
    {
        let ghost self_pairs = self.spec_self_pairs();
        let mut set = SortedRowSet::new();
        let mut i: usize = 0;
        proof {
            assert(systems@.take(0) =~= Seq::<System>::empty());
        }
        while i < systems.len()
            invariant
                forall|k: int| 0 <= k < systems@.len() ==> (#[trigger] systems@[k]).wf()
                    && systems@[k].neighbors_computed_for(self.spec_cutoff_bits()),
                self_pairs == self.spec_self_pairs(),
                i <= systems@.len(),
                set.wf(),
                forall|r: Seq<i32>| #[trigger] set.spec_contains(r)
                    <==> center_single_neighbors_member(self_pairs, systems@.take(i as int), r),
            decreases systems@.len() - i,
        {
            let sys = &systems[i];
            let species = sys.species();
            let pairs = sys.pairs();
            let ghost upto = systems@.take(i as int);
            let mut m: usize = 0;
            while m < pairs.len()
                invariant
                    forall|k: int| 0 <= k < systems@.len() ==> (#[trigger] systems@[k]).wf()
                        && systems@[k].neighbors_computed_for(self.spec_cutoff_bits()),
                    self_pairs == self.spec_self_pairs(),
                    i < systems@.len(),
                    m <= pairs@.len(),
                    sys == systems@[i as int],
                    species@ == sys.spec_species(),
                    pairs@ == sys.spec_pairs(),
                    upto == systems@.take(i as int),
                    set.wf(),
                    forall|r: Seq<i32>| #[trigger] set.spec_contains(r)
                        <==> center_single_neighbors_member(self_pairs, upto, r) || (r.len() == 2
                        && pair_key_upto(*sys, m as int, r)),
                decreases pairs@.len() - m,
            {
                let p = pairs[m];
                proof {
                    assert(systems@[i as int].wf());
                    assert(sys.spec_pairs()[m as int] == p);
                }
                let mut row_a: Vec<i32> = Vec::new();
                row_a.push(species[p.first]);
                row_a.push(species[p.second]);
                let mut row_b: Vec<i32> = Vec::new();
                row_b.push(species[p.second]);
                row_b.push(species[p.first]);
                proof {
                    assert(row_a@ =~= pair_species_row(*sys, p));
                    assert(row_b@ =~= pair_species_row_swapped(*sys, p));
                }
                set.insert(row_a);
                set.insert(row_b);
                proof {
                    assert forall|r: Seq<i32>| #[trigger] set.spec_contains(r) implies
                        center_single_neighbors_member(self_pairs, upto, r) || (r.len() == 2
                        && pair_key_upto(*sys, m as int + 1, r)) by {
                        if r == pair_species_row(*sys, p) || r == pair_species_row_swapped(
                            *sys,
                            p,
                        ) {
                            assert(r == pair_species_row(*sys, sys.spec_pairs()[m as int]) || r
                                == pair_species_row_swapped(*sys, sys.spec_pairs()[m as int]));
                            assert(pair_key_upto(*sys, m as int + 1, r));
                        }
                    }
                    assert forall|r: Seq<i32>|
                        center_single_neighbors_member(self_pairs, upto, r) || (r.len() == 2
                            && pair_key_upto(*sys, m as int + 1, r)) implies
                        #[trigger] set.spec_contains(r) by {
                        if r.len() == 2 && pair_key_upto(*sys, m as int + 1, r) && !pair_key_upto(
                            *sys,
                            m as int,
                            r,
                        ) && !center_single_neighbors_member(self_pairs, upto, r) {
                            let t = choose|t: int|
                                0 <= t < m + 1 && (r == pair_species_row(
                                    *sys,
                                    #[trigger] sys.spec_pairs()[t],
                                ) || r == pair_species_row_swapped(*sys, sys.spec_pairs()[t]));
                            assert(t == m);
                        }
                    }
                }
                m = m + 1;
            }
            if self.self_pairs {
                let mut j: usize = 0;
                proof {
                    assert(species@.take(0) =~= Seq::<i32>::empty());
                }
                while j < species.len()
                    invariant
                        forall|k: int| 0 <= k < systems@.len() ==> (#[trigger] systems@[k]).wf()
                            && systems@[k].neighbors_computed_for(self.spec_cutoff_bits()),
                        self_pairs == self.spec_self_pairs(),
                        self_pairs,
                        i < systems@.len(),
                        j <= species@.len(),
                        sys == systems@[i as int],
                        species@ == sys.spec_species(),
                        upto == systems@.take(i as int),
                        set.wf(),
                        forall|r: Seq<i32>| #[trigger] set.spec_contains(r)
                            <==> center_single_neighbors_member(self_pairs, upto, r) || (r.len()
                            == 2 && pair_key_upto(*sys, sys.spec_pairs().len() as int, r)) || (
                        r.len() == 2 && r[0] == r[1] && species@.take(j as int).contains(r[0])),
                    decreases species@.len() - j,
                {
                    let s = species[j];
                    let mut row: Vec<i32> = Vec::new();
                    row.push(s);
                    row.push(s);
                    proof {
                        assert(row@ =~= seq![s, s]);
                        lemma_take_one_more_contains(species@, j as int);
                    }
                    let ghost pre = set;
                    set.insert(row);
                    proof {
                        assert forall|r: Seq<i32>| #[trigger] set.spec_contains(r) implies
                            center_single_neighbors_member(self_pairs, upto, r) || (r.len() == 2
                            && pair_key_upto(*sys, sys.spec_pairs().len() as int, r)) || (r.len()
                            == 2 && r[0] == r[1] && species@.take(j as int + 1).contains(
                            r[0],
                        )) by {
                            if r == row@ {
                                assert(species@.take(j as int + 1)[j as int]
                                    == species@[j as int]);
                            }
                        }
                        assert forall|r: Seq<i32>|
                            center_single_neighbors_member(self_pairs, upto, r) || (r.len() == 2
                                && pair_key_upto(*sys, sys.spec_pairs().len() as int, r)) || (
                            r.len() == 2 && r[0] == r[1] && species@.take(j as int + 1).contains(
                                r[0],
                            )) implies #[trigger] set.spec_contains(r) by {
                            if center_single_neighbors_member(self_pairs, upto, r) || (r.len() == 2
                                && pair_key_upto(*sys, sys.spec_pairs().len() as int, r)) || (
                            r.len() == 2 && r[0] == r[1] && species@.take(j as int).contains(
                                r[0],
                            )) {
                                assert(pre.spec_contains(r));
                            } else {
                                assert(r.len() == 2 && r[0] == r[1] && r[0] == species@[j as int]);
                                assert(r =~= row@);
                            }
                        }
                    }
                    j = j + 1;
                }
                proof {
                    assert(species@.take(species@.len() as int) =~= species@);
                }
            }
            proof {
                let next = systems@.take(i as int + 1);
                assert forall|r: Seq<i32>| #[trigger] set.spec_contains(r) implies
                    center_single_neighbors_member(self_pairs, next, r) by {
                    if center_single_neighbors_member(self_pairs, upto, r) {
                        let k = choose|k: int| 0 <= k < upto.len()
                            && center_single_neighbors_system_member(
                            self_pairs,
                            #[trigger] upto[k],
                            r,
                        );
                        assert(center_single_neighbors_system_member(self_pairs, next[k], r));
                    } else {
                        assert(center_single_neighbors_system_member(
                            self_pairs,
                            next[i as int],
                            r,
                        ));
                    }
                }
                assert forall|r: Seq<i32>| center_single_neighbors_member(self_pairs, next, r)
                    implies #[trigger] set.spec_contains(r) by {
                    let k = choose|k: int| 0 <= k < next.len()
                        && center_single_neighbors_system_member(self_pairs, #[trigger] next[k], r);
                    if k < i {
                        assert(center_single_neighbors_system_member(self_pairs, upto[k], r));
                    } else {
                        assert(next[k] == systems@[i as int]);
                    }
                }
            }
            i = i + 1;
        }
        proof {
            assert(systems@.take(systems@.len() as int) =~= systems@);
            assert forall|r: Seq<i32>| set.view_rows().contains(r)
                <==> center_single_neighbors_member(self_pairs, systems@, r) by {
                assert(set.spec_contains(r) <==> center_single_neighbors_member(
                    self_pairs,
                    systems@.take(systems@.len() as int),
                    r,
                ));
            }
        }
        finish_keys(set, species_pair_names_vec(), Ghost(2))
    }
}

/// Key set determinism for the cutoff-pair scheme.
pub proof fn lemma_center_single_neighbors_keys_deterministic(
    self_pairs: bool,
    systems1: Seq<System>,
    systems2: Seq<System>,
    rows1: Seq<Seq<i32>>,
    rows2: Seq<Seq<i32>>,
)
    requires
        systems1.to_multiset() == systems2.to_multiset(),
        center_single_neighbors_keys_post(self_pairs, systems1, rows1),
        center_single_neighbors_keys_post(self_pairs, systems2, rows2),
    ensures
        rows1 == rows2,
{
    lemma_permuted_systems_same_contains(systems1, systems2);
    assert forall|row: Seq<i32>| rows1.contains(row) <==> rows2.contains(row) by {
        if center_single_neighbors_member(self_pairs, systems1, row) {
            lemma_member_transfer_center_single(self_pairs, systems1, systems2, row);
        }
        if center_single_neighbors_member(self_pairs, systems2, row) {
            lemma_member_transfer_center_single(self_pairs, systems2, systems1, row);
        }
    }
    lemma_sorted_unique_same_membership_implies_equal(rows1, rows2);
}

proof fn lemma_member_transfer_center_single(
    self_pairs: bool,
    systems1: Seq<System>,
    systems2: Seq<System>,
    row: Seq<i32>,
)
    requires
        forall|sys: System| systems1.contains(sys) <==> systems2.contains(sys),
        center_single_neighbors_member(self_pairs, systems1, row),
    ensures
        center_single_neighbors_member(self_pairs, systems2, row),
{
    let k = choose|k: int| 0 <= k < systems1.len() && center_single_neighbors_system_member(
        self_pairs,
        #[trigger] systems1[k],
        row,
    );
    assert(systems1.contains(systems1[k]));
    assert(systems2.contains(systems1[k]));
    let m = choose|m: int| 0 <= m < systems2.len() && systems2[m] == systems1[k];
    assert(center_single_neighbors_system_member(self_pairs, systems2[m], row));
}

/// The key variables of the two-center-plus-neighbor scheme.
pub open spec fn two_centers_key_names() -> Seq<Seq<char>> {
    seq!["species_center_1"@, "species_center_2"@, "species_neighbor"@]
}

/// The species triplet an installed triplet stands for, read off the
/// structure's species list.
pub open spec fn triplet_species_row(sys: System, t: Triplet) -> Seq<i32> {
    seq![
        sys.spec_species()[t.atom_i as int],
        sys.spec_species()[t.atom_j as int],
        sys.spec_species()[t.atom_k as int],
    ]
}

/// The same triplet with the two center species swapped.
pub open spec fn triplet_species_row_swapped(sys: System, t: Triplet) -> Seq<i32> {
    seq![
        sys.spec_species()[t.atom_j as int],
        sys.spec_species()[t.atom_i as int],
        sys.spec_species()[t.atom_k as int],
    ]
}

/// Whether a tuple is the species triplet (in either center order) of one of
/// the first `m` installed triplets of the structure that pass the
/// self-contribution filter.
pub open spec fn triplet_key_upto(
    self_contributions: bool,
    sys: System,
    m: int,
    row: Seq<i32>,
) -> bool {
    exists|t: int| 0 <= t < m && (self_contributions || !(#[trigger] sys.spec_triplets()[t]).is_self_contrib)
        && (row == triplet_species_row(sys, sys.spec_triplets()[t]) || row
        == triplet_species_row_swapped(sys, sys.spec_triplets()[t]))
}

/// Whether a tuple belongs to the two-center key set of these structures.
pub open spec fn two_centers_member(
    self_contributions: bool,
    systems: Seq<System>,
    row: Seq<i32>,
) -> bool {
    &&& row.len() == 3
    &&& exists|k: int| 0 <= k < systems.len() && triplet_key_upto(
        self_contributions,
        #[trigger] systems[k],
        systems[k].spec_triplets().len() as int,
        row,
    )
}

/// What [`TwoCentersSingleNeighborsSpeciesKeys::keys`] promises of its
/// result rows.
pub open spec fn two_centers_keys_post(
    self_contributions: bool,
    systems: Seq<System>,
    rows: Seq<Seq<i32>>,
) -> bool {
    &&& strictly_sorted(rows)
    &&& forall|row: Seq<i32>| rows.contains(row) <==> two_centers_member(
        self_contributions,
        systems,
        row,
    )
}

/// Keys with three variables: the species of two center atoms within a bond
/// cutoff of each other, and the species of a third neighbor atom within a
/// second cutoff of the bond; built from the externally supplied triplets,
/// both center orders inserted, sorted lexicographically.
pub struct TwoCentersSingleNeighborsSpeciesKeys {
    cutoffs: [u64; 2],
    self_contributions: bool,
}

impl TwoCentersSingleNeighborsSpeciesKeys {
    /// The cutoff for the bond between the two centers, as `f64` bits.
    pub closed spec fn spec_bond_cutoff_bits(&self) -> u64 {
        self.cutoffs[0]
    }

    /// The cutoff around the bond for the third atom, as `f64` bits.
    pub closed spec fn spec_third_cutoff_bits(&self) -> u64 {
        self.cutoffs[1]
    }

    /// Whether self contributions (the neighbor coinciding with a center)
    /// are kept.
    pub closed spec fn spec_self_contributions(&self) -> bool {
        self.self_contributions
    }

    /// Create the scheme. A degenerate cutoff — non-positive or non-finite —
    /// is refused here, at construction time.
    pub fn new(cutoffs: [u64; 2], self_contributions: bool) -> (r: Result<
        TwoCentersSingleNeighborsSpeciesKeys,
        Error,
    >)
        ensures
            r is Ok <==> cutoff_bits_valid(cutoffs@[0]) && cutoff_bits_valid(cutoffs@[1]),
            r matches Result::Ok(b) ==> b.spec_bond_cutoff_bits() == cutoffs@[0]
                && b.spec_third_cutoff_bits() == cutoffs@[1] && b.spec_self_contributions()
                == self_contributions,
    {
        let bond = cutoffs[0];
        let third = cutoffs[1];
        if is_valid_cutoff(bond) && is_valid_cutoff(third) {
            let b = TwoCentersSingleNeighborsSpeciesKeys { cutoffs, self_contributions };
            proof {
                assert(b.cutoffs@[0] == bond && b.cutoffs@[1] == third);
            }
            Result::Ok(b)
        } else {
            Result::Err(
                Error::InvalidCutoff("cutoff must be a strictly positive finite number".to_owned()),
            )
        }
    }

    /// The cutoff for the bond between the two centers, as `f64` bits.
    pub fn bond_cutoff(&self) -> (r: u64)
        ensures
            r == self.spec_bond_cutoff_bits(),
    {
        self.cutoffs[0]
    }

    /// The cutoff around the bond for the third atom, as `f64` bits.
    pub fn third_cutoff(&self) -> (r: u64)
        ensures
            r == self.spec_third_cutoff_bits(),
    {
        self.cutoffs[1]
    }

    /// Whether self contributions are kept.
    pub fn self_contributions(&self) -> (r: bool)
        ensures
            r == self.spec_self_contributions(),
    {
        self.self_contributions
    }

    /// Compute the keys corresponding to these structures. The triplet list
    /// of every structure must have been installed for exactly this scheme's
    /// two cutoffs before the call.
    pub fn keys(&self, systems: &Vec<System>) -> (r: Result<Indexes, Error>)
        requires
            forall|k: int| 0 <= k < systems@.len() ==> (#[trigger] systems@[k]).wf()
                && systems@[k].triplets_computed_for(
                self.spec_bond_cutoff_bits(),
                self.spec_third_cutoff_bits(),
            ),
        ensures
            r is Ok,
            r matches Result::Ok(keys) ==> keys.wf() && keys.names_view() == two_centers_key_names()
                && two_centers_keys_post(
                self.spec_self_contributions(),
                systems@,
                keys.rows_view(),
            ),
    {
        let ghost self_contributions = self.spec_self_contributions();
        let mut set = SortedRowSet::new();
        let mut i: usize = 0;
        proof {
            assert(systems@.take(0) =~= Seq::<System>::empty());
        }
        while i < systems.len()
            invariant
                forall|k: int| 0 <= k < systems@.len() ==> (#[trigger] systems@[k]).wf()
                    && systems@[k].triplets_computed_for(
                    self.spec_bond_cutoff_bits(),
                    self.spec_third_cutoff_bits(),
                ),
                self_contributions == self.spec_self_contributions(),
                i <= systems@.len(),
                set.wf(),
                forall|r: Seq<i32>| #[trigger] set.spec_contains(r) <==> two_centers_member(
                    self_contributions,
                    systems@.take(i as int),
                    r,
                ),
            decreases systems@.len() - i,
        {
            let sys = &systems[i];
            let species = sys.species();
            let triplets = sys.triplets();
            let ghost upto = systems@.take(i as int);
            let mut m: usize = 0;
            while m < triplets.len()
                invariant
                    forall|k: int| 0 <= k < systems@.len() ==> (#[trigger] systems@[k]).wf()
                        && systems@[k].triplets_computed_for(
                        self.spec_bond_cutoff_bits(),
                        self.spec_third_cutoff_bits(),
                    ),
                    self_contributions == self.spec_self_contributions(),
                    i < systems@.len(),
                    m <= triplets@.len(),
                    sys == systems@[i as int],
                    species@ == sys.spec_species(),
                    triplets@ == sys.spec_triplets(),
                    upto == systems@.take(i as int),
                    set.wf(),
                    forall|r: Seq<i32>| #[trigger] set.spec_contains(r) <==> two_centers_member(
                        self_contributions,
                        upto,
                        r,
                    ) || (r.len() == 3 && triplet_key_upto(self_contributions, *sys, m as int, r)),
                decreases triplets@.len() - m,
            {
                let t = triplets[m];
                proof {
                    assert(systems@[i as int].wf());
                    assert(sys.spec_triplets()[m as int] == t);
                }
                if self.self_contributions || !t.is_self_contrib {
                    let mut row_a: Vec<i32> = Vec::new();
                    row_a.push(species[t.atom_i]);
                    row_a.push(species[t.atom_j]);
                    row_a.push(species[t.atom_k]);
                    let mut row_b: Vec<i32> = Vec::new();
                    row_b.push(species[t.atom_j]);
                    row_b.push(species[t.atom_i]);
                    row_b.push(species[t.atom_k]);
                    proof {
                        assert(row_a@ =~= triplet_species_row(*sys, t));
                        assert(row_b@ =~= triplet_species_row_swapped(*sys, t));
                    }
                    set.insert(row_a);
                    set.insert(row_b);
                    proof {
                        assert forall|r: Seq<i32>| #[trigger] set.spec_contains(r) implies
                            two_centers_member(self_contributions, upto, r) || (r.len() == 3
                            && triplet_key_upto(self_contributions, *sys, m as int + 1, r)) by {
                            if r == triplet_species_row(*sys, t) || r == triplet_species_row_swapped(
                                *sys,
                                t,
                            ) {
                                assert(self_contributions || !sys.spec_triplets()[
                                    m as int].is_self_contrib);
                                assert(triplet_key_upto(self_contributions, *sys, m as int + 1, r));
                            }
                        }
                        assert forall|r: Seq<i32>|
                            two_centers_member(self_contributions, upto, r) || (r.len() == 3
                                && triplet_key_upto(self_contributions, *sys, m as int + 1, r))
                            implies #[trigger] set.spec_contains(r) by {
                            if r.len() == 3 && triplet_key_upto(
                                self_contributions,
                                *sys,
                                m as int + 1,
                                r,
                            ) && !triplet_key_upto(self_contributions, *sys, m as int, r)
                                && !two_centers_member(self_contributions, upto, r) {
                                let w = choose|w: int| 0 <= w < m + 1 && (self_contributions || !(
                                #[trigger] sys.spec_triplets()[w]).is_self_contrib) && (r
                                    == triplet_species_row(*sys, sys.spec_triplets()[w]) || r
                                    == triplet_species_row_swapped(*sys, sys.spec_triplets()[w]));
                                assert(w == m);
                            }
                        }
                    }
                } else {
                    proof {
                        assert forall|r: Seq<i32>|
                            two_centers_member(self_contributions, upto, r) || (r.len() == 3
                                && triplet_key_upto(self_contributions, *sys, m as int + 1, r))
                            implies #[trigger] set.spec_contains(r) by {
                            if r.len() == 3 && triplet_key_upto(
                                self_contributions,
                                *sys,
                                m as int + 1,
                                r,
                            ) && !triplet_key_upto(self_contributions, *sys, m as int, r)
                                && !two_centers_member(self_contributions, upto, r) {
                                let w = choose|w: int| 0 <= w < m + 1 && (self_contributions || !(
                                #[trigger] sys.spec_triplets()[w]).is_self_contrib) && (r
                                    == triplet_species_row(*sys, sys.spec_triplets()[w]) || r
                                    == triplet_species_row_swapped(*sys, sys.spec_triplets()[w]));
                                assert(w == m);
                                assert(false);
                            }
                        }
                        assert forall|r: Seq<i32>| #[trigger] set.spec_contains(r) implies
                            two_centers_member(self_contributions, upto, r) || (r.len() == 3
                            && triplet_key_upto(self_contributions, *sys, m as int + 1, r)) by {}
                    }
                }
                m = m + 1;
            }
            proof {
                let next = systems@.take(i as int + 1);
                assert forall|r: Seq<i32>| #[trigger] set.spec_contains(r) implies
                    two_centers_member(self_contributions, next, r) by {
                    if two_centers_member(self_contributions, upto, r) {
                        let k = choose|k: int| 0 <= k < upto.len() && triplet_key_upto(
                            self_contributions,
                            #[trigger] upto[k],
                            upto[k].spec_triplets().len() as int,
                            r,
                        );
                        assert(triplet_key_upto(
                            self_contributions,
                            next[k],
                            next[k].spec_triplets().len() as int,
                            r,
                        ));
                    } else {
                        assert(triplet_key_upto(
                            self_contributions,
                            next[i as int],
                            next[i as int].spec_triplets().len() as int,
                            r,
                        ));
                    }
                }
                assert forall|r: Seq<i32>| two_centers_member(self_contributions, next, r) implies
                    #[trigger] set.spec_contains(r) by {
                    let k = choose|k: int| 0 <= k < next.len() && triplet_key_upto(
                        self_contributions,
                        #[trigger] next[k],
                        next[k].spec_triplets().len() as int,
                        r,
                    );
                    if k < i {
                        assert(triplet_key_upto(
                            self_contributions,
                            upto[k],
                            upto[k].spec_triplets().len() as int,
                            r,
                        ));
                    } else {
                        assert(next[k] == systems@[i as int]);
                    }
                }
            }
            i = i + 1;
        }
        proof {
            assert(systems@.take(systems@.len() as int) =~= systems@);
            assert forall|r: Seq<i32>| set.view_rows().contains(r) <==> two_centers_member(
                self_contributions,
                systems@,
                r,
            ) by {
                assert(set.spec_contains(r) <==> two_centers_member(
                    self_contributions,
                    systems@.take(systems@.len() as int),
                    r,
                ));
            }
        }
        finish_keys(set, two_centers_names_vec(), Ghost(3))
    }
}

/// The concrete names of the two-center-plus-neighbor scheme.
fn two_centers_names_vec() -> (v: Vec<String>)
    ensures
        names_of(v@) == two_centers_key_names(),
        names_of(v@).len() == 3,
{
    let mut v: Vec<String> = Vec::new();
    v.push("species_center_1".to_owned());
    v.push("species_center_2".to_owned());
    v.push("species_neighbor".to_owned());
    proof {
        assert(names_of(v@) =~= two_centers_key_names());
    }
    v
}

/// Key set determinism for the two-center-plus-neighbor scheme.
pub proof fn lemma_two_centers_keys_deterministic(
    self_contributions: bool,
    systems1: Seq<System>,
    systems2: Seq<System>,
    rows1: Seq<Seq<i32>>,
    rows2: Seq<Seq<i32>>,
)
    requires
        systems1.to_multiset() == systems2.to_multiset(),
        two_centers_keys_post(self_contributions, systems1, rows1),
        two_centers_keys_post(self_contributions, systems2, rows2),
    ensures
        rows1 == rows2,
{
    lemma_permuted_systems_same_contains(systems1, systems2);
    assert forall|row: Seq<i32>| rows1.contains(row) <==> rows2.contains(row) by {
        if two_centers_member(self_contributions, systems1, row) {
            lemma_member_transfer_two_centers(self_contributions, systems1, systems2, row);
        }
        if two_centers_member(self_contributions, systems2, row) {
            lemma_member_transfer_two_centers(self_contributions, systems2, systems1, row);
        }
    }
    lemma_sorted_unique_same_membership_implies_equal(rows1, rows2);
}

proof fn lemma_member_transfer_two_centers(
    self_contributions: bool,
    systems1: Seq<System>,
    systems2: Seq<System>,
    row: Seq<i32>,
)
    requires
        forall|sys: System| systems1.contains(sys) <==> systems2.contains(sys),
        two_centers_member(self_contributions, systems1, row),
    ensures
        two_centers_member(self_contributions, systems2, row),
{
    let k = choose|k: int| 0 <= k < systems1.len() && triplet_key_upto(
        self_contributions,
        #[trigger] systems1[k],
        systems1[k].spec_triplets().len() as int,
        row,
    );
    assert(systems1.contains(systems1[k]));
    assert(systems2.contains(systems1[k]));
    let m = choose|m: int| 0 <= m < systems2.len() && systems2[m] == systems1[k];
    assert(triplet_key_upto(
        self_contributions,
        systems2[m],
        systems2[m].spec_triplets().len() as int,
        row,
    ));
}

/// The key variables of the center-plus-two-neighbors scheme.
pub open spec fn center_two_neighbors_key_names() -> Seq<Seq<char>> {
    seq!["species_center"@, "species_neighbor_1"@, "species_neighbor_2"@]
}

/// The species of the other endpoint of a pair touching `center`.
pub open spec fn resolved_species(sys: System, center: usize, p: Pair) -> i32 {
    if p.first == center {
        sys.spec_species()[p.second as int]
    } else {
        sys.spec_species()[p.first as int]
    }
}

/// Whether `s` is among the distinct neighbor species of `center`: the
/// species of the other endpoint of an installed pair touching the center,
/// or the center's own species when self pairs are enabled.
pub open spec fn neighbor_species_member(
    self_pairs: bool,
    sys: System,
    center: usize,
    s: i32,
) -> bool {
    ||| exists|p: Pair| #[trigger] sys.spec_pairs().contains(p) && p.spec_contains_atom(center)
        && s == resolved_species(sys, center, p)
    ||| (self_pairs && s == sys.spec_species()[center as int])
}

/// Whether a tuple is one of the keys contributed by one center atom: its
/// own species first, then an ordered pair drawn from its neighbor species
/// set, restricted to non-decreasing pairs when the scheme is symmetric.
pub open spec fn center_two_contrib(
    self_pairs: bool,
    symmetric: bool,
    sys: System,
    center: usize,
    row: Seq<i32>,
) -> bool {
    &&& row.len() == 3
    &&& center < sys.spec_species().len()
    &&& row[0] == sys.spec_species()[center as int]
    &&& neighbor_species_member(self_pairs, sys, center, row[1])
    &&& neighbor_species_member(self_pairs, sys, center, row[2])
    &&& (symmetric ==> row[1] <= row[2])
}

/// Whether a tuple is contributed by one of the first `c` center atoms.
pub open spec fn center_two_contrib_upto(
    self_pairs: bool,
    symmetric: bool,
    sys: System,
    c: int,
    row: Seq<i32>,
) -> bool {
    exists|cc: usize| cc < c && #[trigger] center_two_contrib(self_pairs, symmetric, sys, cc, row)
}

/// Whether a tuple belongs to the center-plus-two-neighbors key set of these
/// structures.
pub open spec fn center_two_neighbors_member(
    self_pairs: bool,
    symmetric: bool,
    systems: Seq<System>,
    row: Seq<i32>,
) -> bool {
    exists|k: int| 0 <= k < systems.len() && center_two_contrib_upto(
        self_pairs,
        symmetric,
        #[trigger] systems[k],
        systems[k].spec_species().len() as int,
        row,
    )
}

/// What [`CenterTwoNeighborsSpeciesKeys::keys`] promises of its result rows.
pub open spec fn center_two_neighbors_keys_post(
    self_pairs: bool,
    symmetric: bool,
    systems: Seq<System>,
    rows: Seq<Seq<i32>>,
) -> bool {
    &&& strictly_sorted(rows)
    &&& forall|row: Seq<i32>| rows.contains(row) <==> center_two_neighbors_member(
        self_pairs,
        symmetric,
        systems,
        row,
    )
}

/// A key drawn from one center: the center species, then two neighbor
/// species, kept only when the symmetry restriction allows it.
pub open spec fn sym_pair_row(
    spc: i32,
    x: i32,
    y: i32,
    symmetric: bool,
    row: Seq<i32>,
) -> bool {
    row == seq![spc, x, y] && (symmetric ==> x <= y)
}

/// Keys with three variables: the central atom species and two neighbor atom
/// species within a cutoff of the center; when the scheme is symmetric under
/// exchange of the two neighbor slots, only non-decreasing neighbor pairs
/// are kept. Sorted lexicographically.
pub struct CenterTwoNeighborsSpeciesKeys {
    cutoff_bits: u64,
    self_pairs: bool,
    symmetric: bool,
}

impl CenterTwoNeighborsSpeciesKeys {
    /// The cutoff used when searching for neighbors, as `f64` bits.
    pub closed spec fn spec_cutoff_bits(&self) -> u64 {
        self.cutoff_bits
    }

    /// Whether an atom is considered to be its own neighbor.
    pub closed spec fn spec_self_pairs(&self) -> bool {
        self.self_pairs
    }

    /// Whether the two neighbor slots are symmetric under exchange.
    pub closed spec fn spec_symmetric(&self) -> bool {
        self.symmetric
    }

    /// Create the scheme. A degenerate cutoff — non-positive or non-finite —
    /// is refused here, at construction time.
    pub fn new(cutoff_bits: u64, self_pairs: bool, symmetric: bool) -> (r: Result<
        CenterTwoNeighborsSpeciesKeys,
        Error,
    >)
        ensures
            r is Ok <==> cutoff_bits_valid(cutoff_bits),
            r matches Result::Ok(b) ==> b.spec_cutoff_bits() == cutoff_bits && b.spec_self_pairs()
                == self_pairs && b.spec_symmetric() == symmetric,
    {
        if is_valid_cutoff(cutoff_bits) {
            Result::Ok(CenterTwoNeighborsSpeciesKeys { cutoff_bits, self_pairs, symmetric })
        } else {
            Result::Err(
                Error::InvalidCutoff("cutoff must be a strictly positive finite number".to_owned()),
            )
        }
    }

    /// The cutoff used when searching for neighbors, as `f64` bits.
    pub fn cutoff_bits(&self) -> (r: u64)
        ensures
            r == self.spec_cutoff_bits(),
    {
        self.cutoff_bits
    }

    /// Whether an atom is considered to be its own neighbor.
    pub fn self_pairs(&self) -> (r: bool)
        ensures
            r == self.spec_self_pairs(),
    {
        self.self_pairs
    }

    /// Whether the two neighbor slots are symmetric under exchange.
    pub fn symmetric(&self) -> (r: bool)
        ensures
            r == self.spec_symmetric(),
    {
        self.symmetric
    }

    /// The distinct neighbor species of one center, as an ordered set of
    /// one-value rows.
    fn neighbor_species_of(&self, sys: &System, center: usize) -> (nbrs: SortedRowSet)
        requires
            sys.wf(),
            sys.spec_neighbors_cutoff() is Some,
            center < sys.spec_species().len(),
        ensures
            nbrs.wf(),
            forall|q: Seq<i32>| #[trigger] nbrs.spec_contains(q) <==> q.len() == 1
                && neighbor_species_member(self.spec_self_pairs(), *sys, center, q[0]),
    {
        let species = sys.species();
        let touching = sys.pairs_containing(center);
        let ghost tv = touching@;
        let mut nbrs = SortedRowSet::new();
        let mut m: usize = 0;
        while m < touching.len()
            invariant
                sys.wf(),
                species@ == sys.spec_species(),
                center < sys.spec_species().len(),
                tv == pairs_touching(sys.spec_pairs(), center),
                tv == touching@,
                m <= tv.len(),
                nbrs.wf(),
                forall|q: Seq<i32>| #[trigger] nbrs.spec_contains(q) <==> q.len() == 1 && exists|
                    t: int,
                |
                    0 <= t < m && q[0] == resolved_species(*sys, center, #[trigger] tv[t]),
            decreases tv.len() - m,
        {
            let p = touching[m];
            proof {
                lemma_pairs_touching_membership(sys.spec_pairs(), center);
                assert(pairs_touching(sys.spec_pairs(), center).contains(p)) by {
                    assert(tv[m as int] == p);
                }
                assert(sys.spec_pairs().contains(p) && p.spec_contains_atom(center));
            }
            let n_species = if p.first == center {
                species[p.second]
            } else {
                species[p.first]
            };
            let mut row: Vec<i32> = Vec::new();
            row.push(n_species);
            proof {
                assert(row@ =~= seq![resolved_species(*sys, center, tv[m as int])]);
            }
            let ghost pre = nbrs;
            nbrs.insert(row);
            proof {
                assert forall|q: Seq<i32>| #[trigger] nbrs.spec_contains(q) implies q.len() == 1
                    && exists|t: int|
                    0 <= t < m + 1 && q[0] == resolved_species(*sys, center, #[trigger] tv[t]) by {
                    if q == seq![resolved_species(*sys, center, tv[m as int])] {
                        assert(q[0] == resolved_species(*sys, center, tv[m as int]));
                    }
                }
                assert forall|q: Seq<i32>|
                    q.len() == 1 && (exists|t: int|
                        0 <= t < m + 1 && q[0] == resolved_species(
                            *sys,
                            center,
                            #[trigger] tv[t],
                        )) implies #[trigger] nbrs.spec_contains(q) by {
                    let t = choose|t: int|
                        0 <= t < m + 1 && q[0] == resolved_species(*sys, center, #[trigger] tv[t]);
                    if t < m {
                        assert(pre.spec_contains(q));
                    } else {
                        assert(q =~= seq![resolved_species(*sys, center, tv[m as int])]);
                    }
                }
            }
            m = m + 1;
        }
        if self.self_pairs {
            let mut row: Vec<i32> = Vec::new();
            row.push(species[center]);
            proof {
                assert(row@ =~= seq![sys.spec_species()[center as int]]);
            }
            nbrs.insert(row);
        }
        proof {
            lemma_pairs_touching_membership(sys.spec_pairs(), center);
            assert forall|q: Seq<i32>| #[trigger] nbrs.spec_contains(q) implies q.len() == 1
                && neighbor_species_member(self.spec_self_pairs(), *sys, center, q[0]) by {
                if q.len() == 1 && (exists|t: int|
                    0 <= t < tv.len() && q[0] == resolved_species(*sys, center, #[trigger] tv[t])) {
                    let t = choose|t: int|
                        0 <= t < tv.len() && q[0] == resolved_species(*sys, center, #[trigger] tv[t]);
                    assert(tv.contains(tv[t]));
                    assert(sys.spec_pairs().contains(tv[t]) && tv[t].spec_contains_atom(center));
                }
            }
            assert forall|q: Seq<i32>|
                q.len() == 1 && neighbor_species_member(self.spec_self_pairs(), *sys, center, q[0])
                implies #[trigger] nbrs.spec_contains(q) by {
                if exists|p: Pair| #[trigger] sys.spec_pairs().contains(p) && p.spec_contains_atom(
                    center,
                ) && q[0] == resolved_species(*sys, center, p) {
                    let p = choose|p: Pair|
                        #[trigger] sys.spec_pairs().contains(p) && p.spec_contains_atom(center)
                            && q[0] == resolved_species(*sys, center, p);
                    assert(tv.contains(p));
                    let t = choose|t: int| 0 <= t < tv.len() && tv[t] == p;
                    assert(q[0] == resolved_species(*sys, center, tv[t]));
                } else {
                    assert(self.spec_self_pairs() && q[0] == sys.spec_species()[center as int]);
                    assert(q =~= seq![sys.spec_species()[center as int]]);
                }
            }
        }
        nbrs
    }

    /// Compute the keys corresponding to these structures. The neighbor list
    /// of every structure must have been installed for exactly this scheme's
    /// cutoff before the call.
    pub fn keys(&self, systems: &Vec<System>) -> (r: Result<Indexes, Error>)
        requires
            forall|k: int| 0 <= k < systems@.len() ==> (#[trigger] systems@[k]).wf()
                && systems@[k].neighbors_computed_for(self.spec_cutoff_bits()),
        ensures
            r is Ok,
            r matches Result::Ok(keys) ==> keys.wf() && keys.names_view()
                == center_two_neighbors_key_names() && center_two_neighbors_keys_post(
                self.spec_self_pairs(),
                self.spec_symmetric(),
                systems@,
                keys.rows_view(),
            ),
    {
        let ghost self_pairs = self.spec_self_pairs();
        let ghost symmetric = self.spec_symmetric();
        let mut set = SortedRowSet::new();
        let mut i: usize = 0;
        proof {
            assert(systems@.take(0) =~= Seq::<System>::empty());
        }
        while i < systems.len()
            invariant
                forall|k: int| 0 <= k < systems@.len() ==> (#[trigger] systems@[k]).wf()
                    && systems@[k].neighbors_computed_for(self.spec_cutoff_bits()),
                self_pairs == self.spec_self_pairs(),
                symmetric == self.spec_symmetric(),
                i <= systems@.len(),
                set.wf(),
                forall|r: Seq<i32>| #[trigger] set.spec_contains(r)
                    <==> center_two_neighbors_member(
                    self_pairs,
                    symmetric,
                    systems@.take(i as int),
                    r,
                ),
            decreases systems@.len() - i,
        {
            let sys = &systems[i];
            let species = sys.species();
            let n_atoms = sys.size();
            let ghost upto = systems@.take(i as int);
            let mut center: usize = 0;
            while center < n_atoms
                invariant
                    forall|k: int| 0 <= k < systems@.len() ==> (#[trigger] systems@[k]).wf()
                        && systems@[k].neighbors_computed_for(self.spec_cutoff_bits()),
                    self_pairs == self.spec_self_pairs(),
                    symmetric == self.spec_symmetric(),
                    i < systems@.len(),
                    center <= n_atoms,
                    sys == systems@[i as int],
                    species@ == sys.spec_species(),
                    n_atoms == sys.spec_species().len(),
                    upto == systems@.take(i as int),
                    set.wf(),
                    forall|r: Seq<i32>| #[trigger] set.spec_contains(r)
                        <==> center_two_neighbors_member(self_pairs, symmetric, upto, r)
                        || center_two_contrib_upto(self_pairs, symmetric, *sys, center as int, r),
                decreases n_atoms - center,
            {
                let spc = species[center];
                let nbrs = self.neighbor_species_of(sys, center);
                let ghost nview = nbrs.view_rows();
                let nvec = nbrs.into_rows();
                proof {
                    assert forall|t: int| 0 <= t < rows_of(nvec@).len() implies (
                    #[trigger] rows_of(nvec@)[t]).len() == 1 && neighbor_species_member(
                        self_pairs,
                        *sys,
                        center,
                        rows_of(nvec@)[t][0],
                    ) by {
                        assert(nview.contains(nview[t]));
                        assert(nbrs.spec_contains(nview[t]));
                    }
                }
                let ghost nrows = rows_of(nvec@);
                let n_nbrs = nvec.len();
                let mut l1: usize = 0;
                while l1 < n_nbrs
                    invariant
                        self_pairs == self.spec_self_pairs(),
                        symmetric == self.spec_symmetric(),
                        i < systems@.len(),
                        l1 <= n_nbrs,
                        sys == systems@[i as int],
                        species@ == sys.spec_species(),
                        center < n_atoms,
                        n_atoms == sys.spec_species().len(),
                        spc == sys.spec_species()[center as int],
                        upto == systems@.take(i as int),
                        nrows == rows_of(nvec@),
                        nrows == nview,
                        n_nbrs == nrows.len(),
                        forall|t: int| 0 <= t < nrows.len() ==> (#[trigger] nrows[t]).len() == 1
                            && neighbor_species_member(self_pairs, *sys, center, nrows[t][0]),
                        forall|q: Seq<i32>| #[trigger] nbrs.spec_contains(q) <==> q.len() == 1
                            && neighbor_species_member(self_pairs, *sys, center, q[0]),
                        nbrs.view_rows() == nview,
                        set.wf(),
                        forall|r: Seq<i32>| #[trigger] set.spec_contains(r)
                            <==> center_two_neighbors_member(self_pairs, symmetric, upto, r)
                            || center_two_contrib_upto(
                            self_pairs,
                            symmetric,
                            *sys,
                            center as int,
                            r,
                        ) || (exists|t1: int, t2: int|
                            0 <= t1 < l1 && 0 <= t2 < nrows.len() && #[trigger] sym_pair_row(
                                spc,
                                nrows[t1][0],
                                nrows[t2][0],
                                symmetric,
                                r,
                            )),
                    decreases n_nbrs - l1,
                {
                    proof {
                        assert(rows_of(nvec@).len() == nvec@.len());
                        assert(rows_of(nvec@)[l1 as int] == nvec@[l1 as int]@);
                        assert(nrows[l1 as int].len() == 1);
                    }
                    let s1 = nvec[l1][0];
                    proof {
                        assert(nrows[l1 as int][0] == s1);
                    }
                    let mut l2: usize = 0;
                    while l2 < n_nbrs
                        invariant
                            self_pairs == self.spec_self_pairs(),
                            symmetric == self.spec_symmetric(),
                            i < systems@.len(),
                            l1 < n_nbrs,
                            l2 <= n_nbrs,
                            sys == systems@[i as int],
                            species@ == sys.spec_species(),
                            center < n_atoms,
                            n_atoms == sys.spec_species().len(),
                            spc == sys.spec_species()[center as int],
                            upto == systems@.take(i as int),
                            nrows == rows_of(nvec@),
                            n_nbrs == nrows.len(),
                            s1 == nrows[l1 as int][0],
                            forall|t: int| 0 <= t < nrows.len() ==> (#[trigger] nrows[t]).len()
                                == 1 && neighbor_species_member(self_pairs, *sys, center, nrows[t][0]),
                            set.wf(),
                            forall|r: Seq<i32>| #[trigger] set.spec_contains(r)
                                <==> center_two_neighbors_member(self_pairs, symmetric, upto, r)
                                || center_two_contrib_upto(
                                self_pairs,
                                symmetric,
                                *sys,
                                center as int,
                                r,
                            ) || (exists|t1: int, t2: int|
                                0 <= t1 < l1 && 0 <= t2 < nrows.len() && #[trigger] sym_pair_row(
                                    spc,
                                    nrows[t1][0],
                                    nrows[t2][0],
                                    symmetric,
                                    r,
                                )) || (exists|t2: int|
                                0 <= t2 < l2 && #[trigger] sym_pair_row(
                                    spc,
                                    nrows[l1 as int][0],
                                    nrows[t2][0],
                                    symmetric,
                                    r,
                                )),
                        decreases n_nbrs - l2,
                    {
                        proof {
                            assert(rows_of(nvec@).len() == nvec@.len());
                            assert(rows_of(nvec@)[l2 as int] == nvec@[l2 as int]@);
                            assert(nrows[l2 as int].len() == 1);
                        }
                        let s2 = nvec[l2][0];
                        proof {
                            assert(nrows[l2 as int][0] == s2);
                        }
                        if !(self.symmetric && s2 < s1) {
                            let mut row: Vec<i32> = Vec::new();
                            row.push(spc);
                            row.push(s1);
                            row.push(s2);
                            proof {
                                assert(row@ =~= seq![spc, s1, s2]);
                            }
                            let ghost pre = set;
                            set.insert(row);
                            proof {
                                assert forall|r: Seq<i32>| #[trigger] set.spec_contains(r) implies
                                    center_two_neighbors_member(self_pairs, symmetric, upto, r)
                                    || center_two_contrib_upto(
                                    self_pairs,
                                    symmetric,
                                    *sys,
                                    center as int,
                                    r,
                                ) || (exists|t1: int, t2: int|
                                    0 <= t1 < l1 && 0 <= t2 < nrows.len()
                                        && #[trigger] sym_pair_row(
                                        spc,
                                        nrows[t1][0],
                                        nrows[t2][0],
                                        symmetric,
                                        r,
                                    )) || (exists|t2: int|
                                    0 <= t2 < l2 + 1 && #[trigger] sym_pair_row(
                                        spc,
                                        nrows[l1 as int][0],
                                        nrows[t2][0],
                                        symmetric,
                                        r,
                                    )) by {
                                    if r == seq![spc, s1, s2] {
                                        assert(sym_pair_row(
                                            spc,
                                            nrows[l1 as int][0],
                                            nrows[l2 as int][0],
                                            symmetric,
                                            r,
                                        ));
                                    }
                                }
                                assert forall|r: Seq<i32>|
                                    center_two_neighbors_member(self_pairs, symmetric, upto, r)
                                        || center_two_contrib_upto(
                                        self_pairs,
                                        symmetric,
                                        *sys,
                                        center as int,
                                        r,
                                    ) || (exists|t1: int, t2: int|
                                        0 <= t1 < l1 && 0 <= t2 < nrows.len()
                                            && #[trigger] sym_pair_row(
                                            spc,
                                            nrows[t1][0],
                                            nrows[t2][0],
                                            symmetric,
                                            r,
                                        )) || (exists|t2: int|
                                        0 <= t2 < l2 + 1 && #[trigger] sym_pair_row(
                                            spc,
                                            nrows[l1 as int][0],
                                            nrows[t2][0],
                                            symmetric,
                                            r,
                                        )) implies #[trigger] set.spec_contains(r) by {
                                    if exists|t2: int|
                                        0 <= t2 < l2 + 1 && #[trigger] sym_pair_row(
                                            spc,
                                            nrows[l1 as int][0],
                                            nrows[t2][0],
                                            symmetric,
                                            r,
                                        ) {
                                        let t2 = choose|t2: int|
                                            0 <= t2 < l2 + 1 && #[trigger] sym_pair_row(
                                                spc,
                                                nrows[l1 as int][0],
                                                nrows[t2][0],
                                                symmetric,
                                                r,
                                            );
                                        if t2 == l2 {
                                            assert(r == seq![spc, s1, s2]);
                                            assert(r =~= row@);
                                        } else {
                                            assert(pre.spec_contains(r));
                                        }
                                    } else {
                                        assert(pre.spec_contains(r));
                                    }
                                }
                            }
                        } else {
                            proof {
                                assert forall|r: Seq<i32>| #[trigger] set.spec_contains(r) implies
                                    center_two_neighbors_member(self_pairs, symmetric, upto, r)
                                    || center_two_contrib_upto(
                                    self_pairs,
                                    symmetric,
                                    *sys,
                                    center as int,
                                    r,
                                ) || (exists|t1: int, t2: int|
                                    0 <= t1 < l1 && 0 <= t2 < nrows.len()
                                        && #[trigger] sym_pair_row(
                                        spc,
                                        nrows[t1][0],
                                        nrows[t2][0],
                                        symmetric,
                                        r,
                                    )) || (exists|t2: int|
                                    0 <= t2 < l2 + 1 && #[trigger] sym_pair_row(
                                        spc,
                                        nrows[l1 as int][0],
                                        nrows[t2][0],
                                        symmetric,
                                        r,
                                    )) by {}
                                assert forall|r: Seq<i32>|
                                    center_two_neighbors_member(self_pairs, symmetric, upto, r)
                                        || center_two_contrib_upto(
                                        self_pairs,
                                        symmetric,
                                        *sys,
                                        center as int,
                                        r,
                                    ) || (exists|t1: int, t2: int|
                                        0 <= t1 < l1 && 0 <= t2 < nrows.len()
                                            && #[trigger] sym_pair_row(
                                            spc,
                                            nrows[t1][0],
                                            nrows[t2][0],
                                            symmetric,
                                            r,
                                        )) || (exists|t2: int|
                                        0 <= t2 < l2 + 1 && #[trigger] sym_pair_row(
                                            spc,
                                            nrows[l1 as int][0],
                                            nrows[t2][0],
                                            symmetric,
                                            r,
                                        )) implies #[trigger] set.spec_contains(r) by {
                                    if exists|t2: int|
                                        0 <= t2 < l2 + 1 && #[trigger] sym_pair_row(
                                            spc,
                                            nrows[l1 as int][0],
                                            nrows[t2][0],
                                            symmetric,
                                            r,
                                        ) {
                                        let t2 = choose|t2: int|
                                            0 <= t2 < l2 + 1 && #[trigger] sym_pair_row(
                                                spc,
                                                nrows[l1 as int][0],
                                                nrows[t2][0],
                                                symmetric,
                                                r,
                                            );
                                        assert(t2 != l2);
                                    }
                                }
                            }
                        }
                        l2 = l2 + 1;
                    }
                    proof {
                        assert forall|r: Seq<i32>| #[trigger] set.spec_contains(r) implies
                            center_two_neighbors_member(self_pairs, symmetric, upto, r)
                            || center_two_contrib_upto(self_pairs, symmetric, *sys, center as int, r)
                            || (exists|t1: int, t2: int|
                            0 <= t1 < l1 + 1 && 0 <= t2 < nrows.len() && #[trigger] sym_pair_row(
                                spc,
                                nrows[t1][0],
                                nrows[t2][0],
                                symmetric,
                                r,
                            )) by {
                            if exists|t2: int|
                                0 <= t2 < n_nbrs && #[trigger] sym_pair_row(
                                    spc,
                                    nrows[l1 as int][0],
                                    nrows[t2][0],
                                    symmetric,
                                    r,
                                ) {
                                let t2 = choose|t2: int|
                                    0 <= t2 < n_nbrs && #[trigger] sym_pair_row(
                                        spc,
                                        nrows[l1 as int][0],
                                        nrows[t2][0],
                                        symmetric,
                                        r,
                                    );
                                assert(sym_pair_row(
                                    spc,
                                    nrows[l1 as int][0],
                                    nrows[t2][0],
                                    symmetric,
                                    r,
                                ));
                            }
                        }
                        assert forall|r: Seq<i32>|
                            center_two_neighbors_member(self_pairs, symmetric, upto, r)
                                || center_two_contrib_upto(
                                self_pairs,
                                symmetric,
                                *sys,
                                center as int,
                                r,
                            ) || (exists|t1: int, t2: int|
                                0 <= t1 < l1 + 1 && 0 <= t2 < nrows.len()
                                    && #[trigger] sym_pair_row(
                                    spc,
                                    nrows[t1][0],
                                    nrows[t2][0],
                                    symmetric,
                                    r,
                                )) implies #[trigger] set.spec_contains(r) by {
                            if exists|t1: int, t2: int|
                                0 <= t1 < l1 + 1 && 0 <= t2 < nrows.len() && #[trigger] sym_pair_row(
                                    spc,
                                    nrows[t1][0],
                                    nrows[t2][0],
                                    symmetric,
                                    r,
                                ) {
                                let (t1, t2) = choose|t1: int, t2: int|
                                    0 <= t1 < l1 + 1 && 0 <= t2 < nrows.len()
                                        && #[trigger] sym_pair_row(
                                        spc,
                                        nrows[t1][0],
                                        nrows[t2][0],
                                        symmetric,
                                        r,
                                    );
                                if t1 == l1 {
                                    assert(sym_pair_row(
                                        spc,
                                        nrows[l1 as int][0],
                                        nrows[t2][0],
                                        symmetric,
                                        r,
                                    ));
                                }
                            }
                        }
                    }
                    l1 = l1 + 1;
                }
                proof {
                    // the pairs drawn from the full neighbor set are exactly
                    // this center's contributions
                    assert forall|r: Seq<i32>| #[trigger] set.spec_contains(r) implies
                        center_two_neighbors_member(self_pairs, symmetric, upto, r)
                        || center_two_contrib_upto(
                        self_pairs,
                        symmetric,
                        *sys,
                        center as int + 1,
                        r,
                    ) by {
                        if exists|t1: int, t2: int|
                            0 <= t1 < n_nbrs && 0 <= t2 < nrows.len() && #[trigger] sym_pair_row(
                                spc,
                                nrows[t1][0],
                                nrows[t2][0],
                                symmetric,
                                r,
                            ) {
                            let (t1, t2) = choose|t1: int, t2: int|
                                0 <= t1 < n_nbrs && 0 <= t2 < nrows.len() && #[trigger] sym_pair_row(
                                    spc,
                                    nrows[t1][0],
                                    nrows[t2][0],
                                    symmetric,
                                    r,
                                );
                            assert(r == seq![spc, nrows[t1][0], nrows[t2][0]]);
                            assert(center_two_contrib(self_pairs, symmetric, *sys, center, r));
                        } else if center_two_contrib_upto(
                            self_pairs,
                            symmetric,
                            *sys,
                            center as int,
                            r,
                        ) {
                            let cc = choose|cc: usize|
                                cc < center as int && #[trigger] center_two_contrib(
                                    self_pairs,
                                    symmetric,
                                    *sys,
                                    cc,
                                    r,
                                );
                            assert(center_two_contrib(self_pairs, symmetric, *sys, cc, r));
                        }
                    }
                    assert forall|r: Seq<i32>|
                        center_two_neighbors_member(self_pairs, symmetric, upto, r)
                            || center_two_contrib_upto(
                            self_pairs,
                            symmetric,
                            *sys,
                            center as int + 1,
                            r,
                        ) implies #[trigger] set.spec_contains(r) by {
                        if center_two_contrib_upto(self_pairs, symmetric, *sys, center as int + 1, r)
                            && !center_two_contrib_upto(
                            self_pairs,
                            symmetric,
                            *sys,
                            center as int,
                            r,
                        ) && !center_two_neighbors_member(self_pairs, symmetric, upto, r) {
                            let cc = choose|cc: usize|
                                cc < center as int + 1 && #[trigger] center_two_contrib(
                                    self_pairs,
                                    symmetric,
                                    *sys,
                                    cc,
                                    r,
                                );
                            assert(cc == center);
                            // locate the two neighbor species in the set
                            assert(nbrs.spec_contains(seq![r[1]]));
                            assert(nbrs.spec_contains(seq![r[2]]));
                            let t1 = choose|t1: int| 0 <= t1 < nview.len() && nview[t1] == seq![
                                r[1],
                            ];
                            let t2 = choose|t2: int| 0 <= t2 < nview.len() && nview[t2] == seq![
                                r[2],
                            ];
                            assert(r =~= seq![spc, nrows[t1][0], nrows[t2][0]]);
                            assert(sym_pair_row(spc, nrows[t1][0], nrows[t2][0], symmetric, r));
                        }
                    }
                }
                center = center + 1;
            }
            proof {
                let next = systems@.take(i as int + 1);
                assert forall|r: Seq<i32>| #[trigger] set.spec_contains(r) implies
                    center_two_neighbors_member(self_pairs, symmetric, next, r) by {
                    if center_two_neighbors_member(self_pairs, symmetric, upto, r) {
                        let k = choose|k: int| 0 <= k < upto.len() && center_two_contrib_upto(
                            self_pairs,
                            symmetric,
                            #[trigger] upto[k],
                            upto[k].spec_species().len() as int,
                            r,
                        );
                        assert(center_two_contrib_upto(
                            self_pairs,
                            symmetric,
                            next[k],
                            next[k].spec_species().len() as int,
                            r,
                        ));
                    } else {
                        assert(center_two_contrib_upto(
                            self_pairs,
                            symmetric,
                            next[i as int],
                            next[i as int].spec_species().len() as int,
                            r,
                        ));
                    }
                }
                assert forall|r: Seq<i32>| center_two_neighbors_member(self_pairs, symmetric, next, r)
                    implies #[trigger] set.spec_contains(r) by {
                    let k = choose|k: int| 0 <= k < next.len() && center_two_contrib_upto(
                        self_pairs,
                        symmetric,
                        #[trigger] next[k],
                        next[k].spec_species().len() as int,
                        r,
                    );
                    if k < i {
                        assert(center_two_contrib_upto(
                            self_pairs,
                            symmetric,
                            upto[k],
                            upto[k].spec_species().len() as int,
                            r,
                        ));
                    } else {
                        assert(next[k] == systems@[i as int]);
                    }
                }
            }
            i = i + 1;
        }
        proof {
            assert(systems@.take(systems@.len() as int) =~= systems@);
            assert forall|r: Seq<i32>| set.view_rows().contains(r)
                <==> center_two_neighbors_member(self_pairs, symmetric, systems@, r) by {
                assert(set.spec_contains(r) <==> center_two_neighbors_member(
                    self_pairs,
                    symmetric,
                    systems@.take(systems@.len() as int),
                    r,
                ));
            }
            assert forall|r: Seq<i32>| #[trigger] set.spec_contains(r) implies r.len() == 3 by {
                let k = choose|k: int|
                    0 <= k < systems@.len() && center_two_contrib_upto(
                        self_pairs,
                        symmetric,
                        #[trigger] systems@[k],
                        systems@[k].spec_species().len() as int,
                        r,
                    );
                let cc = choose|cc: usize|
                    cc < systems@[k].spec_species().len() && #[trigger] center_two_contrib(
                        self_pairs,
                        symmetric,
                        systems@[k],
                        cc,
                        r,
                    );
            }
        }
        finish_keys(set, center_two_neighbors_names_vec(), Ghost(3))
    }
}

/// The concrete names of the center-plus-two-neighbors scheme.
fn center_two_neighbors_names_vec() -> (v: Vec<String>)
    ensures
        names_of(v@) == center_two_neighbors_key_names(),
        names_of(v@).len() == 3,
{
    let mut v: Vec<String> = Vec::new();
    v.push("species_center".to_owned());
    v.push("species_neighbor_1".to_owned());
    v.push("species_neighbor_2".to_owned());
    proof {
        assert(names_of(v@) =~= center_two_neighbors_key_names());
    }
    v
}

/// Key set determinism for the center-plus-two-neighbors scheme.
pub proof fn lemma_center_two_neighbors_keys_deterministic(
    self_pairs: bool,
    symmetric: bool,
    systems1: Seq<System>,
    systems2: Seq<System>,
    rows1: Seq<Seq<i32>>,
    rows2: Seq<Seq<i32>>,
)
    requires
        systems1.to_multiset() == systems2.to_multiset(),
        center_two_neighbors_keys_post(self_pairs, symmetric, systems1, rows1),
        center_two_neighbors_keys_post(self_pairs, symmetric, systems2, rows2),
    ensures
        rows1 == rows2,
{
    lemma_permuted_systems_same_contains(systems1, systems2);
    assert forall|row: Seq<i32>| rows1.contains(row) <==> rows2.contains(row) by {
        if center_two_neighbors_member(self_pairs, symmetric, systems1, row) {
            lemma_member_transfer_center_two(self_pairs, symmetric, systems1, systems2, row);
        }
        if center_two_neighbors_member(self_pairs, symmetric, systems2, row) {
            lemma_member_transfer_center_two(self_pairs, symmetric, systems2, systems1, row);
        }
    }
    lemma_sorted_unique_same_membership_implies_equal(rows1, rows2);
}

proof fn lemma_member_transfer_center_two(
    self_pairs: bool,
    symmetric: bool,
    systems1: Seq<System>,
    systems2: Seq<System>,
    row: Seq<i32>,
)
    requires
        forall|sys: System| systems1.contains(sys) <==> systems2.contains(sys),
        center_two_neighbors_member(self_pairs, symmetric, systems1, row),
    ensures
        center_two_neighbors_member(self_pairs, symmetric, systems2, row),
{
    let k = choose|k: int| 0 <= k < systems1.len() && center_two_contrib_upto(
        self_pairs,
        symmetric,
        #[trigger] systems1[k],
        systems1[k].spec_species().len() as int,
        row,
    );
    assert(systems1.contains(systems1[k]));
    assert(systems2.contains(systems1[k]));
    let m = choose|m: int| 0 <= m < systems2.len() && systems2[m] == systems1[k];
    assert(center_two_contrib_upto(
        self_pairs,
        symmetric,
        systems2[m],
        systems2[m].spec_species().len() as int,
        row,
    ));
}

/// Common interface of the key schemes: compute the canonical key set of a
/// collection of structures.
///
/// Each scheme states what it needs of the structures in
/// [`KeysBuilder::keys_pre`] and characterizes its result through
/// [`KeysBuilder::keys_post`]; every scheme's post condition pins the exact
/// ordered key set, so a caller generic over the scheme still knows the
/// result in full.
pub trait KeysBuilder {
    /// What the scheme needs of the structures before `keys` may run.
    spec fn keys_pre(&self, systems: Seq<System>) -> bool;

    /// The names of the scheme's key variables.
    spec fn keys_names(&self) -> Seq<Seq<char>>;

    /// What the scheme promises of its result rows.
    spec fn keys_post(&self, systems: Seq<System>, rows: Seq<Seq<i32>>) -> bool;

    /// Compute the keys corresponding to these structures.
    fn keys(&self, systems: &Vec<System>) -> (r: Result<Indexes, Error>)
        requires
            self.keys_pre(systems@),
        ensures
            r is Ok,
            r matches Result::Ok(keys) ==> keys.wf() && keys.names_view() == self.keys_names()
                && self.keys_post(systems@, keys.rows_view()),
    ;
}

impl KeysBuilder for CenterSpeciesKeys {
    open spec fn keys_pre(&self, systems: Seq<System>) -> bool {
        true
    }

    open spec fn keys_names(&self) -> Seq<Seq<char>> {
        center_species_key_names()
    }

    open spec fn keys_post(&self, systems: Seq<System>, rows: Seq<Seq<i32>>) -> bool {
        center_species_keys_post(systems, rows)
    }

    fn keys(&self, systems: &Vec<System>) -> (r: Result<Indexes, Error>) {
        self.keys(systems)
    }
}

impl KeysBuilder for AllSpeciesPairsKeys {
    open spec fn keys_pre(&self, systems: Seq<System>) -> bool {
        true
    }

    open spec fn keys_names(&self) -> Seq<Seq<char>> {
        species_pair_key_names()
    }

    open spec fn keys_post(&self, systems: Seq<System>, rows: Seq<Seq<i32>>) -> bool {
        all_species_pairs_keys_post(systems, rows)
    }

    fn keys(&self, systems: &Vec<System>) -> (r: Result<Indexes, Error>) {
        self.keys(systems)
    }
}

impl KeysBuilder for CenterSingleNeighborsSpeciesKeys {
    open spec fn keys_pre(&self, systems: Seq<System>) -> bool {
        forall|k: int| 0 <= k < systems.len() ==> (#[trigger] systems[k]).wf()
            && systems[k].neighbors_computed_for(self.spec_cutoff_bits())
    }

    open spec fn keys_names(&self) -> Seq<Seq<char>> {
        species_pair_key_names()
    }

    open spec fn keys_post(&self, systems: Seq<System>, rows: Seq<Seq<i32>>) -> bool {
        center_single_neighbors_keys_post(self.spec_self_pairs(), systems, rows)
    }

    fn keys(&self, systems: &Vec<System>) -> (r: Result<Indexes, Error>) {
        self.keys(systems)
    }
}

impl KeysBuilder for TwoCentersSingleNeighborsSpeciesKeys {
    open spec fn keys_pre(&self, systems: Seq<System>) -> bool {
        forall|k: int| 0 <= k < systems.len() ==> (#[trigger] systems[k]).wf()
            && systems[k].triplets_computed_for(
            self.spec_bond_cutoff_bits(),
            self.spec_third_cutoff_bits(),
        )
    }

    open spec fn keys_names(&self) -> Seq<Seq<char>> {
        two_centers_key_names()
    }

    open spec fn keys_post(&self, systems: Seq<System>, rows: Seq<Seq<i32>>) -> bool {
        two_centers_keys_post(self.spec_self_contributions(), systems, rows)
    }

    fn keys(&self, systems: &Vec<System>) -> (r: Result<Indexes, Error>) {
        self.keys(systems)
    }
}

impl KeysBuilder for CenterTwoNeighborsSpeciesKeys {
    open spec fn keys_pre(&self, systems: Seq<System>) -> bool {
        forall|k: int| 0 <= k < systems.len() ==> (#[trigger] systems[k]).wf()
            && systems[k].neighbors_computed_for(self.spec_cutoff_bits())
    }

    open spec fn keys_names(&self) -> Seq<Seq<char>> {
        center_two_neighbors_key_names()
    }

    open spec fn keys_post(&self, systems: Seq<System>, rows: Seq<Seq<i32>>) -> bool {
        center_two_neighbors_keys_post(
            self.spec_self_pairs(),
            self.spec_symmetric(),
            systems,
            rows,
        )
    }

    fn keys(&self, systems: &Vec<System>) -> (r: Result<Indexes, Error>) {
        self.keys(systems)
    }
}

} // verus!
