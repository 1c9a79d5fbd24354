//! Index sets ("labels"): ordered sequences of fixed-arity tuples of index
//! values, all tuples sharing the same named set of variables.
//!
//! An index value is a single integer identifying one coordinate of a sample
//! or key (a structure id, an atom id, a species number, a spatial axis 0, 1
//! or 2). Tuple order is semantically meaningful: it is either insertion
//! order (samples and gradients, reproducing input order) or a canonical
//! sort order (keys). An index set is built once by a builder and treated as
//! immutable afterwards.

use vstd::prelude::*;

verus! {

/// The tuples a vector of concrete rows stands for.
pub open spec fn rows_of(v: Seq<Vec<i32>>) -> Seq<Seq<i32>> {
    v.map_values(|r: Vec<i32>| r@)
}

/// The character sequences a vector of concrete names stands for.
pub open spec fn names_of(v: Seq<String>) -> Seq<Seq<char>> {
    v.map_values(|s: String| s@)
}

/// An ordered set of index tuples, each tuple pairing one value with each
/// named variable.
pub struct Indexes {
    names: Vec<String>,
    values: Vec<Vec<i32>>,
}

impl Indexes {
    /// The variable names, as sequences of characters.
    pub closed spec fn names_view(&self) -> Seq<Seq<char>> {
        names_of(self.names@)
    }

    /// The tuples, in order.
    pub closed spec fn rows_view(&self) -> Seq<Seq<i32>> {
        rows_of(self.values@)
    }

    /// Every tuple has exactly one value per variable.
    pub open spec fn wf(&self) -> bool {
        forall|i: int| 0 <= i < self.rows_view().len() ==> (#[trigger] self.rows_view()[i]).len()
            == self.names_view().len()
    }

    /// How many tuples the set holds.
    pub fn count(&self) -> (n: usize)
        ensures
            n == self.rows_view().len(),
    {
        self.values.len()
    }

    /// How many variables each tuple has.
    pub fn size(&self) -> (n: usize)
        ensures
            n == self.names_view().len(),
    {
        self.names.len()
    }

    /// The variable names.
    pub fn names(&self) -> (r: &Vec<String>)
        ensures
            names_of(r@) == self.names_view(),
    {
        &self.names
    }

    /// One tuple of the set.
    pub fn row(&self, i: usize) -> (r: &Vec<i32>)
        requires
            i < self.rows_view().len(),
        ensures
            r@ == self.rows_view()[i as int],
    {
        &self.values[i]
    }

    /// All tuples, in order.
    pub fn rows(&self) -> (r: &Vec<Vec<i32>>)
        ensures
            rows_of(r@) == self.rows_view(),
    {
        &self.values
    }
}

/// An append-only builder for an [`Indexes`] set.
pub struct IndexesBuilder {
    names: Vec<String>,
    values: Vec<Vec<i32>>,
}

impl IndexesBuilder {
    /// See [`Indexes::names_view`].
    pub closed spec fn names_view(&self) -> Seq<Seq<char>> {
        names_of(self.names@)
    }

    /// See [`Indexes::rows_view`].
    pub closed spec fn rows_view(&self) -> Seq<Seq<i32>> {
        rows_of(self.values@)
    }

    /// See [`Indexes::wf`].
    pub open spec fn wf(&self) -> bool {
        forall|i: int| 0 <= i < self.rows_view().len() ==> (#[trigger] self.rows_view()[i]).len()
            == self.names_view().len()
    }

    /// Start a set over the given variable names.
    pub fn new(names: Vec<String>) -> (b: IndexesBuilder)
        ensures
            b.wf(),
            b.names_view() == names_of(names@),
            b.rows_view() == Seq::<Seq<i32>>::empty(),
    {
        let b = IndexesBuilder { names, values: Vec::new() };
        proof {
            assert(b.rows_view() =~= Seq::<Seq<i32>>::empty());
        }
        b
    }

    /// Append one tuple.
    pub fn add(&mut self, row: Vec<i32>)
        requires
            old(self).wf(),
            row@.len() == old(self).names_view().len(),
        ensures
            final(self).wf(),
            final(self).names_view() == old(self).names_view(),
            final(self).rows_view() == old(self).rows_view().push(row@),
    {
        self.values.push(row);
        proof {
            assert(self.rows_view() =~= old(self).rows_view().push(row@));
        }
    }

    /// Append many tuples at once, in their given order.
    pub fn add_all(&mut self, rows: Vec<Vec<i32>>)
        requires
            old(self).wf(),
            forall|i: int| 0 <= i < rows_of(rows@).len() ==> (#[trigger] rows_of(rows@)[i]).len()
                == old(self).names_view().len(),
        ensures
            final(self).wf(),
            final(self).names_view() == old(self).names_view(),
            final(self).rows_view() == old(self).rows_view() + rows_of(rows@),
    {
        let ghost all = rows_of(rows@);
        let mut rows = rows;
        // reading the length bounds the ghost count by the machine word
        let initial_count = rows.len();
        let ghost n = all.len();
        let mut i: usize = 0;
        proof {
            assert(all.len() == rows@.len());
            assert(n == initial_count);
            assert(all.take(0) =~= Seq::<Seq<i32>>::empty());
            assert(self.rows_view() =~= self.rows_view() + all.take(0));
            assert(rows_of(rows@) =~= all.skip(0));
        }
        while rows.len() > 0
            invariant
                old(self).wf(),
                n == all.len(),
                i + rows@.len() == n,
                n <= usize::MAX,
                rows_of(rows@) == all.skip(i as int),
                forall|k: int| 0 <= k < all.len() ==> (#[trigger] all[k]).len() == old(
                    self,
                ).names_view().len(),
                self.wf(),
                self.names_view() == old(self).names_view(),
                self.rows_view() == old(self).rows_view() + all.take(i as int),
            decreases rows@.len(),
        {
            let ghost before = rows@;
            let row = rows.remove(0);
            proof {
                assert(rows_of(before).len() == before.len());
                assert(before.len() == n - i);
                assert(all.skip(i as int).len() == n - i);
                assert(row@ == rows_of(before)[0]);
                assert(all.skip(i as int)[0] == all[0 + i as int]);
                assert(row@ == all[i as int]);
                assert(rows_of(rows@) =~= all.skip(i as int + 1)) by {
                    assert(rows@.len() == before.len() - 1);
                    assert(all.skip(i as int + 1).len() == n - i - 1);
                    assert forall|k: int| 0 <= k < rows@.len() implies rows_of(rows@)[k]
                        == all.skip(i as int + 1)[k] by {
                        assert(rows@[k] == before[k + 1]);
                        assert(rows_of(rows@)[k] == rows@[k]@);
                        assert(rows_of(before)[k + 1] == before[k + 1]@);
                        assert(all.skip(i as int)[k + 1] == all[(k + 1) + i as int]);
                        assert(all.skip(i as int + 1)[k] == all[k + (i as int + 1)]);
                    }
                }
            }
            self.add(row);
            proof {
                assert(old(self).rows_view() + all.take(i as int + 1) =~= (old(self).rows_view()
                    + all.take(i as int)).push(all[i as int]));
            }
            i = i + 1;
        }
        proof {
            assert(all.take(n as int) =~= all);
        }
    }

    /// Finish the set.
    pub fn finish(self) -> (r: Indexes)
        requires
            self.wf(),
        ensures
            r.wf(),
            r.names_view() == self.names_view(),
            r.rows_view() == self.rows_view(),
    {
        let r = Indexes { names: self.names, values: self.values };
        proof {
            assert(r.rows_view() =~= self.rows_view());
            assert(r.names_view() =~= self.names_view());
        }
        r
    }
}

} // verus!
