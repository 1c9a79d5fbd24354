//! The data a structure hands to the index and key builders.
//!
//! The structure abstraction itself — positions, unit cell, and the actual
//! neighbor-list search within a cutoff — is an external capability. The
//! builders only ever read plain values from it: the per-atom species, the
//! neighbor pairs computed for one cutoff, and bond-triplets computed for one
//! pair of cutoffs. [`System`] holds exactly those values; the caller runs
//! the geometric searches and installs their results before any builder
//! runs. Installing a neighbor list for a new cutoff replaces the previous
//! one, mirroring the per-cutoff invalidation of the external cache.
//!
//! Cutoff radii are `f64` values to the external engine; the builders only
//! ever test them for validity and for equality, so they are carried as the
//! raw IEEE 754 bit pattern of the `f64`. A cutoff is valid when it is
//! strictly positive and finite, which holds exactly when its bit pattern
//! lies strictly between `0` (the pattern of `+0.0`) and the pattern of
//! positive infinity.

use vstd::prelude::*;

use crate::errors::Error;

verus! {

/// The bit pattern of `f64` positive infinity.
pub const F64_POSITIVE_INFINITY_BITS: u64 = 0x7FF0000000000000;

/// Whether the `f64` with this bit pattern is a valid cutoff radius:
/// strictly positive and finite.
pub open spec fn cutoff_bits_valid(bits: u64) -> bool {
    0 < bits < F64_POSITIVE_INFINITY_BITS
}

/// Decide [`cutoff_bits_valid`] on a concrete bit pattern.
pub fn is_valid_cutoff(bits: u64) -> (r: bool)
    ensures
        r == cutoff_bits_valid(bits),
{
    0 < bits && bits < F64_POSITIVE_INFINITY_BITS
}

/// An unordered pair of atom indices produced by the external neighbor-list
/// search; `first` and `second` follow the producing engine's convention.
#[derive(Clone, Copy, PartialEq, Eq, Structural, Debug)]
pub struct Pair {
    /// Index of the first atom of the pair inside its structure.
    pub first: usize,
    /// Index of the second atom of the pair inside its structure.
    pub second: usize,
}

impl Pair {
    /// Whether the pair touches the given atom.
    pub open spec fn spec_contains_atom(&self, atom: usize) -> bool {
        self.first == atom || self.second == atom
    }
}

/// One bond-centered triplet produced by the external triplet search: two
/// center atoms within a bond cutoff of each other and a third neighbor atom
/// within a second cutoff of the bond.
#[derive(Clone, Copy, PartialEq, Eq, Structural, Debug)]
pub struct Triplet {
    /// Index of the first center atom.
    pub atom_i: usize,
    /// Index of the second center atom.
    pub atom_j: usize,
    /// Index of the neighbor atom.
    pub atom_k: usize,
    /// Whether the triplet is a self contribution (the neighbor coincides
    /// with one of the centers).
    pub is_self_contrib: bool,
}

/// The subsequence of `pairs` that touches `atom`, in the order the pair
/// list holds them.
pub open spec fn pairs_touching(pairs: Seq<Pair>, atom: usize) -> Seq<Pair>
    decreases pairs.len(),
{
    if pairs.len() == 0 {
        Seq::empty()
    } else {
        let rest = pairs_touching(pairs.drop_last(), atom);
        if pairs.last().spec_contains_atom(atom) {
            rest.push(pairs.last())
        } else {
            rest
        }
    }
}

/// A pair is among the pairs touching `atom` exactly when it is one of the
/// pairs and touches `atom`.
pub proof fn lemma_pairs_touching_membership(pairs: Seq<Pair>, atom: usize)
    ensures
        forall|p: Pair| pairs_touching(pairs, atom).contains(p) <==> pairs.contains(p)
            && p.spec_contains_atom(atom),
    decreases pairs.len(),
{
    if pairs.len() > 0 {
        let prefix = pairs.drop_last();
        lemma_pairs_touching_membership(prefix, atom);
        assert forall|p: Pair| pairs.contains(p) && p.spec_contains_atom(atom)
            implies pairs_touching(pairs, atom).contains(p) by {
            let k = choose|k: int| 0 <= k < pairs.len() && pairs[k] == p;
            if k < pairs.len() - 1 {
                assert(prefix[k] == p);
                assert(prefix.contains(p));
                let r = pairs_touching(prefix, atom);
                let m = choose|m: int| 0 <= m < r.len() && r[m] == p;
                assert(pairs_touching(pairs, atom)[m] == p);
            } else {
                let full = pairs_touching(pairs, atom);
                assert(full.last() == p);
            }
        }
        assert forall|p: Pair| pairs_touching(pairs, atom).contains(p) implies pairs.contains(p)
            && p.spec_contains_atom(atom) by {
            let full = pairs_touching(pairs, atom);
            let m = choose|m: int| 0 <= m < full.len() && full[m] == p;
            let r = pairs_touching(prefix, atom);
            if m < r.len() {
                assert(r[m] == p);
                assert(r.contains(p));
                assert(prefix.contains(p));
                let k = choose|k: int| 0 <= k < prefix.len() && prefix[k] == p;
                assert(pairs[k] == p);
            } else {
                assert(p == pairs.last());
                assert(pairs[pairs.len() - 1] == p);
            }
        }
    }
}

/// One atomic structure, seen through the values the builders read from it.
pub struct System {
    species: Vec<i32>,
    neighbors: Option<(u64, Vec<Pair>)>,
    triplets: Option<(u64, u64, Vec<Triplet>)>,
}

impl System {
    /// The per-atom species numbers.
    pub closed spec fn spec_species(&self) -> Seq<i32> {
        self.species@
    }

    /// Whether a neighbor list is installed, and for which cutoff.
    pub closed spec fn spec_neighbors_cutoff(&self) -> Option<u64> {
        match self.neighbors {
            Option::Some((c, _)) => Option::Some(c),
            Option::None => Option::None,
        }
    }

    /// The installed neighbor pairs; empty while none are installed.
    pub closed spec fn spec_pairs(&self) -> Seq<Pair> {
        match self.neighbors {
            Option::Some((_, pairs)) => pairs@,
            Option::None => Seq::empty(),
        }
    }

    /// Whether a neighbor list computed for exactly this cutoff is installed.
    pub open spec fn neighbors_computed_for(&self, cutoff_bits: u64) -> bool {
        self.spec_neighbors_cutoff() == Option::Some(cutoff_bits)
    }

    /// Whether a triplet list is installed, and for which two cutoffs.
    pub closed spec fn spec_triplets_cutoffs(&self) -> Option<(u64, u64)> {
        match self.triplets {
            Option::Some((b, t, _)) => Option::Some((b, t)),
            Option::None => Option::None,
        }
    }

    /// The installed triplets; empty while none are installed.
    pub closed spec fn spec_triplets(&self) -> Seq<Triplet> {
        match self.triplets {
            Option::Some((_, _, triplets)) => triplets@,
            Option::None => Seq::empty(),
        }
    }

    /// Whether a triplet list computed for exactly these cutoffs is
    /// installed.
    pub open spec fn triplets_computed_for(&self, bond_cutoff_bits: u64, third_cutoff_bits: u64) -> bool {
        self.spec_triplets_cutoffs() == Option::Some((bond_cutoff_bits, third_cutoff_bits))
    }

    /// Every installed pair and triplet references atoms of this structure,
    /// and every installed list was computed for a valid cutoff.
    pub open spec fn wf(&self) -> bool {
        &&& forall|i: int| 0 <= i < self.spec_pairs().len() ==> (#[trigger] self.spec_pairs()[i]).first
            < self.spec_species().len() && self.spec_pairs()[i].second < self.spec_species().len()
        &&& forall|i: int| 0 <= i < self.spec_triplets().len() ==> (
        #[trigger] self.spec_triplets()[i]).atom_i < self.spec_species().len()
            && self.spec_triplets()[i].atom_j < self.spec_species().len()
            && self.spec_triplets()[i].atom_k < self.spec_species().len()
        &&& self.spec_neighbors_cutoff() matches Option::Some(c) ==> cutoff_bits_valid(c)
        &&& self.spec_triplets_cutoffs() matches Option::Some(c) ==> cutoff_bits_valid(c.0)
            && cutoff_bits_valid(c.1)
    }

    /// A structure with the given per-atom species and nothing computed yet.
    pub fn new(species: Vec<i32>) -> (s: System)
        ensures
            s.wf(),
            s.spec_species() == species@,
            s.spec_neighbors_cutoff() is None,
            s.spec_triplets_cutoffs() is None,
    {
        System { species, neighbors: Option::None, triplets: Option::None }
    }

    /// Number of atoms in the structure.
    pub fn size(&self) -> (n: usize)
        ensures
            n == self.spec_species().len(),
    {
        self.species.len()
    }

    /// The species of each atom.
    pub fn species(&self) -> (r: &Vec<i32>)
        ensures
            r@ == self.spec_species(),
    {
        &self.species
    }

    /// Install the neighbor pairs the external engine found within
    /// `cutoff_bits`, replacing any previously installed list.
    ///
    /// Fails with `InvalidCutoff` when the cutoff is not strictly positive
    /// and finite, and with `InvalidParameter` when a pair references an
    /// atom the structure does not have; the structure is unchanged on
    /// failure.
    pub fn set_neighbors(&mut self, cutoff_bits: u64, pairs: Vec<Pair>) -> (r: Result<(), Error>)
        requires
            old(self).wf(),
        ensures
            final(self).wf(),
            final(self).spec_species() == old(self).spec_species(),
            final(self).spec_triplets_cutoffs() == old(self).spec_triplets_cutoffs(),
            final(self).spec_triplets() == old(self).spec_triplets(),
            r is Ok <==> cutoff_bits_valid(cutoff_bits) && (forall|i: int|
                0 <= i < pairs@.len() ==> (#[trigger] pairs@[i]).first < old(
                    self,
                ).spec_species().len() && pairs@[i].second < old(self).spec_species().len()),
            r is Ok ==> final(self).neighbors_computed_for(cutoff_bits) && final(self).spec_pairs()
                == pairs@,
            r is Err ==> *final(self) == *old(self) && (r matches Err(e) ==> e is InvalidCutoff
                || e is InvalidParameter),
    {
        if !is_valid_cutoff(cutoff_bits) {
            return Result::Err(
                Error::InvalidCutoff("cutoff must be a strictly positive finite number".to_owned()),
            );
        }
        let n_atoms = self.species.len();
        let mut i: usize = 0;
        while i < pairs.len()
            invariant
                old(self).wf(),
                n_atoms == old(self).spec_species().len(),
                i <= pairs@.len(),
                forall|k: int| 0 <= k < i ==> (#[trigger] pairs@[k]).first < n_atoms
                    && pairs@[k].second < n_atoms,
                *self == *old(self),
            decreases pairs@.len() - i,
        {
            if pairs[i].first >= n_atoms || pairs[i].second >= n_atoms {
                return Result::Err(
                    Error::InvalidParameter(
                        "a neighbor pair references an atom outside of the structure".to_owned(),
                    ),
                );
            }
            i = i + 1;
        }
        self.neighbors = Option::Some((cutoff_bits, pairs));
        proof {
            assert(self.spec_pairs() == pairs@);
            assert forall|k: int| 0 <= k < self.spec_pairs().len() implies (
            #[trigger] self.spec_pairs()[k]).first < self.spec_species().len()
                && self.spec_pairs()[k].second < self.spec_species().len() by {
                assert(pairs@[k].first < n_atoms && pairs@[k].second < n_atoms);
            }
            assert forall|k: int| 0 <= k < self.spec_triplets().len() implies (
            #[trigger] self.spec_triplets()[k]).atom_i < self.spec_species().len()
                && self.spec_triplets()[k].atom_j < self.spec_species().len()
                && self.spec_triplets()[k].atom_k < self.spec_species().len() by {
                assert(old(self).spec_triplets()[k].atom_i < old(self).spec_species().len()
                    && old(self).spec_triplets()[k].atom_j < old(self).spec_species().len()
                    && old(self).spec_triplets()[k].atom_k < old(self).spec_species().len());
            }
        }
        Result::Ok(())
    }

    /// Install the triplets the external engine found for the two cutoffs,
    /// replacing any previously installed list.
    ///
    /// Fails with `InvalidCutoff` when either cutoff is not strictly
    /// positive and finite, and with `InvalidParameter` when a triplet
    /// references an atom the structure does not have; the structure is
    /// unchanged on failure.
    pub fn set_triplets(
        &mut self,
        bond_cutoff_bits: u64,
        third_cutoff_bits: u64,
        triplets: Vec<Triplet>,
    ) -> (r: Result<(), Error>)
        requires
            old(self).wf(),
        ensures
            final(self).wf(),
            final(self).spec_species() == old(self).spec_species(),
            final(self).spec_neighbors_cutoff() == old(self).spec_neighbors_cutoff(),
            final(self).spec_pairs() == old(self).spec_pairs(),
            r is Ok <==> cutoff_bits_valid(bond_cutoff_bits) && cutoff_bits_valid(third_cutoff_bits)
                && (forall|i: int|
                0 <= i < triplets@.len() ==> (#[trigger] triplets@[i]).atom_i < old(
                    self,
                ).spec_species().len() && triplets@[i].atom_j < old(self).spec_species().len()
                    && triplets@[i].atom_k < old(self).spec_species().len()),
            r is Ok ==> final(self).triplets_computed_for(bond_cutoff_bits, third_cutoff_bits)
                && final(self).spec_triplets() == triplets@,
            r is Err ==> *final(self) == *old(self) && (r matches Err(e) ==> e is InvalidCutoff
                || e is InvalidParameter),
    {
        if !is_valid_cutoff(bond_cutoff_bits) || !is_valid_cutoff(third_cutoff_bits) {
            return Result::Err(
                Error::InvalidCutoff("cutoff must be a strictly positive finite number".to_owned()),
            );
        }
        let n_atoms = self.species.len();
        let mut i: usize = 0;
        while i < triplets.len()
            invariant
                old(self).wf(),
                n_atoms == old(self).spec_species().len(),
                i <= triplets@.len(),
                forall|k: int| 0 <= k < i ==> (#[trigger] triplets@[k]).atom_i < n_atoms
                    && triplets@[k].atom_j < n_atoms && triplets@[k].atom_k < n_atoms,
                *self == *old(self),
            decreases triplets@.len() - i,
        {
            if triplets[i].atom_i >= n_atoms || triplets[i].atom_j >= n_atoms || triplets[i].atom_k
                >= n_atoms {
                return Result::Err(
                    Error::InvalidParameter(
                        "a triplet references an atom outside of the structure".to_owned(),
                    ),
                );
            }
            i = i + 1;
        }
        self.triplets = Option::Some((bond_cutoff_bits, third_cutoff_bits, triplets));
        proof {
            assert(self.spec_triplets() == triplets@);
            assert forall|k: int| 0 <= k < self.spec_triplets().len() implies (
            #[trigger] self.spec_triplets()[k]).atom_i < self.spec_species().len()
                && self.spec_triplets()[k].atom_j < self.spec_species().len()
                && self.spec_triplets()[k].atom_k < self.spec_species().len() by {
                assert(triplets@[k].atom_i < n_atoms && triplets@[k].atom_j < n_atoms
                    && triplets@[k].atom_k < n_atoms);
            }
            assert forall|k: int| 0 <= k < self.spec_pairs().len() implies (
            #[trigger] self.spec_pairs()[k]).first < self.spec_species().len()
                && self.spec_pairs()[k].second < self.spec_species().len() by {
                assert(old(self).spec_pairs()[k].first < old(self).spec_species().len()
                    && old(self).spec_pairs()[k].second < old(self).spec_species().len());
            }
        }
        Result::Ok(())
    }

    /// The cutoff the installed neighbor list was computed for, if any.
    pub fn neighbors_cutoff(&self) -> (r: Option<u64>)
        ensures
            r == self.spec_neighbors_cutoff(),
    {
        match &self.neighbors {
            Option::Some((c, _)) => Option::Some(*c),
            Option::None => Option::None,
        }
    }

    /// The cutoffs the installed triplet list was computed for, if any.
    pub fn triplets_cutoffs(&self) -> (r: Option<(u64, u64)>)
        ensures
            r == self.spec_triplets_cutoffs(),
    {
        match &self.triplets {
            Option::Some((b, t, _)) => Option::Some((*b, *t)),
            Option::None => Option::None,
        }
    }

    /// The installed neighbor pairs; valid only after a neighbor list was
    /// installed for a cutoff at least as large as needed.
    pub fn pairs(&self) -> (r: &Vec<Pair>)
        requires
            self.spec_neighbors_cutoff() is Some,
        ensures
            r@ == self.spec_pairs(),
    {
        match &self.neighbors {
            Option::Some((_, pairs)) => pairs,
            Option::None => unreached(),
        }
    }

    /// The installed pairs that touch the given atom, in the order the full
    /// pair list holds them.
    pub fn pairs_containing(&self, atom: usize) -> (r: Vec<Pair>)
        requires
            self.spec_neighbors_cutoff() is Some,
        ensures
            r@ == pairs_touching(self.spec_pairs(), atom),
    {
        let all = self.pairs();
        let mut out: Vec<Pair> = Vec::new();
        let mut i: usize = 0;
        while i < all.len()
            invariant
                all@ == self.spec_pairs(),
                i <= all@.len(),
                out@ == pairs_touching(self.spec_pairs().take(i as int), atom),
            decreases all@.len() - i,
        {
            let p = all[i];
            proof {
                let taken = self.spec_pairs().take(i as int);
                let next = self.spec_pairs().take(i as int + 1);
                assert(next =~= taken.push(p));
                assert(next.drop_last() =~= taken);
                assert(next.last() == p);
            }
            if p.first == atom || p.second == atom {
                out.push(p);
            }
            i = i + 1;
        }
        proof {
            assert(self.spec_pairs().take(all@.len() as int) =~= self.spec_pairs());
        }
        out
    }

    /// The installed triplets; valid only after a triplet list was
    /// installed.
    pub fn triplets(&self) -> (r: &Vec<Triplet>)
        requires
            self.spec_triplets_cutoffs() is Some,
        ensures
            r@ == self.spec_triplets(),
    {
        match &self.triplets {
            Option::Some((_, _, triplets)) => triplets,
            Option::None => unreached(),
        }
    }
}

} // verus!
