//! Ordered-unique accumulation of key tuples.
//!
//! Every species key scheme relies on the same container contract: rows are
//! inserted in whatever order the structures are traversed, duplicates are
//! ignored, and the final iteration order is the canonical ascending
//! lexicographic order. Because that order is canonical, the resulting key
//! set depends only on which rows were inserted, never on the traversal
//! order — the determinism property proved by
//! [`lemma_sorted_unique_same_membership_implies_equal`].

use vstd::prelude::*;

use crate::indexes::rows_of;

verus! {

/// Strict lexicographic order on integer tuples.
///
/// A proper prefix sorts before any of its extensions; otherwise the first
/// differing coordinate decides.
pub open spec fn lex_lt(a: Seq<i32>, b: Seq<i32>) -> bool
    decreases a.len(),
{
    if b.len() == 0 {
        false
    } else if a.len() == 0 {
        true
    } else if a[0] < b[0] {
        true
    } else if a[0] > b[0] {
        false
    } else {
        lex_lt(a.drop_first(), b.drop_first())
    }
}

/// `lex_lt` is irreflexive.
pub proof fn lemma_lex_irreflexive(a: Seq<i32>)
    ensures
        !lex_lt(a, a),
    decreases a.len(),
{
    if a.len() > 0 {
        lemma_lex_irreflexive(a.drop_first());
    }
}

/// `lex_lt` is asymmetric.
pub proof fn lemma_lex_asymmetric(a: Seq<i32>, b: Seq<i32>)
    requires
        lex_lt(a, b),
    ensures
        !lex_lt(b, a),
    decreases a.len(),
{
    if a.len() > 0 && b.len() > 0 && a[0] == b[0] {
        lemma_lex_asymmetric(a.drop_first(), b.drop_first());
    }
}

/// `lex_lt` is transitive.
pub proof fn lemma_lex_transitive(a: Seq<i32>, b: Seq<i32>, c: Seq<i32>)
    requires
        lex_lt(a, b),
        lex_lt(b, c),
    ensures
        lex_lt(a, c),
    decreases a.len(),
{
    if a.len() > 0 && b.len() > 0 && c.len() > 0 && a[0] == b[0] && b[0] == c[0] {
        lemma_lex_transitive(a.drop_first(), b.drop_first(), c.drop_first());
    }
}

/// Two tuples that are not ordered either way are equal.
pub proof fn lemma_lex_connected(a: Seq<i32>, b: Seq<i32>)
    requires
        !lex_lt(a, b),
        !lex_lt(b, a),
    ensures
        a == b,
    decreases a.len(),
{
    if a.len() == 0 || b.len() == 0 {
        assert(a =~= b);
    } else {
        lemma_lex_connected(a.drop_first(), b.drop_first());
        assert(a =~= seq![a[0]] + a.drop_first());
        assert(b =~= seq![b[0]] + b.drop_first());
    }
}

/// A sequence of rows in strictly ascending lexicographic order; strictness
/// makes the rows pairwise distinct.
pub open spec fn strictly_sorted(s: Seq<Seq<i32>>) -> bool {
    forall|i: int, j: int| 0 <= i < j < s.len() ==> lex_lt(#[trigger] s[i], #[trigger] s[j])
}

/// In a strictly sorted sequence, dropping the first row removes exactly
/// that row from the membership.
proof fn lemma_sorted_tail_membership(s: Seq<Seq<i32>>, r: Seq<Seq<i32>>)
    requires
        strictly_sorted(s),
        s.len() > 0,
        r == s.drop_first(),
    ensures
        forall|row: Seq<i32>| #[trigger] r.contains(row) <==> s.contains(row) && row != s[0],
{
    assert forall|row: Seq<i32>| #[trigger] r.contains(row) implies s.contains(row) && row
        != s[0] by {
        let k = choose|k: int| 0 <= k < r.len() && r[k] == row;
        assert(s[k + 1] == row);
        assert(lex_lt(s[0], s[k + 1]));
        lemma_lex_irreflexive(row);
    }
    assert forall|row: Seq<i32>| s.contains(row) && row != s[0] implies #[trigger] r.contains(
        row,
    ) by {
        let k = choose|k: int| 0 <= k < s.len() && s[k] == row;
        assert(r[k - 1] == row);
    }
}

/// Canonical-order determinism: two strictly sorted row sequences with the
/// same membership are the same sequence. This is what makes every key set
/// reproducible regardless of the order in which its rows were discovered.
pub proof fn lemma_sorted_unique_same_membership_implies_equal(s1: Seq<Seq<i32>>, s2: Seq<Seq<i32>>)
    requires
        strictly_sorted(s1),
        strictly_sorted(s2),
        forall|row: Seq<i32>| s1.contains(row) <==> s2.contains(row),
    ensures
        s1 == s2,
    decreases s1.len(),
{
    if s1.len() == 0 {
        if s2.len() > 0 {
            assert(s2.contains(s2[0]));
            assert(false);
        }
        assert(s1 =~= s2);
    } else {
        assert(s1.contains(s1[0]));
        assert(s2.contains(s2[0]));
        let j = choose|j: int| 0 <= j < s2.len() && s2[j] == s1[0];
        let k = choose|k: int| 0 <= k < s1.len() && s1[k] == s2[0];
        // The two heads are each other's lower bounds, so they are equal.
        if s1[0] != s2[0] {
            assert(j != 0 && k != 0) by {
                if j == 0 {
                    assert(s2[0] == s1[0]);
                } else if k == 0 {
                    assert(s1[0] == s2[0]);
                }
            }
            assert(lex_lt(s2[0], s2[j]));
            assert(lex_lt(s1[0], s1[k]));
            lemma_lex_asymmetric(s1[0], s1[k]);
            assert(false);
        }
        let t1 = s1.drop_first();
        let t2 = s2.drop_first();
        lemma_sorted_tail_membership(s1, t1);
        lemma_sorted_tail_membership(s2, t2);
        assert(strictly_sorted(t1)) by {
            assert(forall|i: int, j2: int|
                0 <= i < j2 < t1.len() ==> lex_lt(#[trigger] t1[i], #[trigger] t1[j2]));
        }
        assert(strictly_sorted(t2)) by {
            assert(forall|i: int, j2: int|
                0 <= i < j2 < t2.len() ==> lex_lt(#[trigger] t2[i], #[trigger] t2[j2]));
        }
        lemma_sorted_unique_same_membership_implies_equal(t1, t2);
        assert(s1 =~= seq![s1[0]] + t1);
        assert(s2 =~= seq![s2[0]] + t2);
    }
}

/// Taking one more element of a sequence adds exactly that element to the
/// membership of the prefix.
pub proof fn lemma_take_one_more_contains<T>(s: Seq<T>, n: int)
    requires
        0 <= n < s.len(),
    ensures
        forall|x: T| s.take(n + 1).contains(x) <==> s.take(n).contains(x) || x == s[n],
{
    assert forall|x: T| s.take(n + 1).contains(x) implies s.take(n).contains(x) || x == s[n] by {
        let k = choose|k: int| 0 <= k < n + 1 && (#[trigger] s.take(n + 1)[k]) == x;
        if k < n {
            assert(s.take(n)[k] == x);
        }
    }
    assert forall|x: T| s.take(n).contains(x) || x == s[n] implies #[trigger] s.take(
        n + 1,
    ).contains(x) by {
        if s.take(n).contains(x) {
            let k = choose|k: int| 0 <= k < n && s.take(n)[k] == x;
            assert(s.take(n + 1)[k] == x);
        } else {
            assert(s.take(n + 1)[n] == x);
        }
    }
}

/// Decide `lex_lt(a@, b@)` on concrete rows.
pub fn row_lt(a: &Vec<i32>, b: &Vec<i32>) -> (r: bool)
    ensures
        r == lex_lt(a@, b@),
{
    let mut i: usize = 0;
    proof {
        assert(a@.skip(0) =~= a@);
        assert(b@.skip(0) =~= b@);
    }
    loop
        invariant
            i <= a.len(),
            i <= b.len(),
            lex_lt(a@, b@) == lex_lt(a@.skip(i as int), b@.skip(i as int)),
        decreases a.len() - i,
    {
        proof {
            let sa = a@.skip(i as int);
            let sb = b@.skip(i as int);
            assert(sa.len() == a@.len() - i);
            assert(sb.len() == b@.len() - i);
            if sa.len() > 0 && sb.len() > 0 {
                assert(sa[0] == a@[i as int]);
                assert(sb[0] == b@[i as int]);
                assert(sa.drop_first() =~= a@.skip(i + 1));
                assert(sb.drop_first() =~= b@.skip(i + 1));
            }
        }
        if i >= b.len() {
            return false;
        }
        if i >= a.len() {
            return true;
        }
        if a[i] < b[i] {
            return true;
        }
        if a[i] > b[i] {
            return false;
        }
        i = i + 1;
    }
}

/// Decide `a@ == b@` on concrete rows.
pub fn row_eq(a: &Vec<i32>, b: &Vec<i32>) -> (r: bool)
    ensures
        r == (a@ == b@),
{
    if a.len() != b.len() {
        assert(a@ != b@);
        return false;
    }
    let mut i: usize = 0;
    while i < a.len()
        invariant
            i <= a.len(),
            a.len() == b.len(),
            forall|k: int| 0 <= k < i ==> a@[k] == b@[k],
        decreases a.len() - i,
    {
        if a[i] != b[i] {
            return false;
        }
        i = i + 1;
    }
    assert(a@ =~= b@);
    true
}

/// An ordered-unique set of key rows: kept in strictly ascending
/// lexicographic order at all times, so iteration order is canonical and
/// independent of insertion order.
pub struct SortedRowSet {
    rows: Vec<Vec<i32>>,
}

impl SortedRowSet {
    /// The rows as a sequence of tuples.
    pub closed spec fn view_rows(&self) -> Seq<Seq<i32>> {
        rows_of(self.rows@)
    }

    /// The container invariant: strictly sorted, hence duplicate-free.
    pub open spec fn wf(&self) -> bool {
        strictly_sorted(self.view_rows())
    }

    /// Whether a row is in the set.
    pub open spec fn spec_contains(&self, row: Seq<i32>) -> bool {
        self.view_rows().contains(row)
    }

    /// Create an empty set.
    pub fn new() -> (s: SortedRowSet)
        ensures
            s.wf(),
            s.view_rows() == Seq::<Seq<i32>>::empty(),
    {
        let s = SortedRowSet { rows: Vec::new() };
        proof {
            assert(s.view_rows() =~= Seq::<Seq<i32>>::empty());
        }
        s
    }

    /// Insert a row, keeping the canonical order; a duplicate is ignored.
    pub fn insert(&mut self, row: Vec<i32>)
        requires
            old(self).wf(),
        ensures
            final(self).wf(),
            forall|r: Seq<i32>| #[trigger] final(self).spec_contains(r) <==> old(
                self,
            ).spec_contains(r) || r == row@,
    {
        let ghost old_rows = self.view_rows();
        let mut i: usize = 0;
        while i < self.rows.len() && row_lt(&self.rows[i], &row)
            invariant
                self == old(self),
                old(self).wf(),
                old_rows == self.view_rows(),
                old_rows.len() == self.rows@.len(),
                i <= self.rows.len(),
                forall|k: int| 0 <= k < i ==> lex_lt(#[trigger] old_rows[k], row@),
            decreases self.rows.len() - i,
        {
            proof {
                assert(old_rows[i as int] == self.rows@[i as int]@);
            }
            i = i + 1;
        }
        proof {
            if i < old_rows.len() {
                assert(old_rows[i as int] == self.rows@[i as int]@);
            }
        }
        if i < self.rows.len() && row_eq(&self.rows[i], &row) {
            // already present
            proof {
                assert(old_rows[i as int] == row@);
                assert(old(self).spec_contains(row@));
            }
            return ;
        }
        proof {
            // the row is not at position i, so it sorts strictly before the
            // rest of the set
            if i < old_rows.len() {
                if !lex_lt(row@, old_rows[i as int]) {
                    lemma_lex_connected(old_rows[i as int], row@);
                    assert(false);
                }
            }
        }
        self.rows.insert(i, row);
        proof {
            let new_rows = self.view_rows();
            assert(new_rows.len() == old_rows.len() + 1);
            assert forall|k: int| 0 <= k < new_rows.len() implies new_rows[k] == (if k < i {
                old_rows[k]
            } else if k == i {
                row@
            } else {
                old_rows[k - 1]
            }) by {
                assert(new_rows[k] == self.rows@[k]@);
                if k < i {
                    assert(self.rows@[k] == old(self).rows@[k]);
                } else if k > i {
                    assert(self.rows@[k] == old(self).rows@[k - 1]);
                }
            }
            assert forall|p: int, q: int| 0 <= p < q < new_rows.len() implies lex_lt(
                #[trigger] new_rows[p],
                #[trigger] new_rows[q],
            ) by {
                if q < i {
                    // both before the insertion point
                } else if p > i {
                    // both after the insertion point
                } else if p < i && q == i {
                    assert(lex_lt(old_rows[p], row@));
                } else if p == i && q > i {
                    assert(lex_lt(row@, old_rows[i as int]));
                    if q - 1 > i {
                        lemma_lex_transitive(row@, old_rows[i as int], old_rows[q - 1]);
                    }
                } else if p < i && q > i {
                    if q - 1 == i {
                        assert(lex_lt(old_rows[p], row@));
                        lemma_lex_transitive(old_rows[p], row@, old_rows[i as int]);
                    }
                }
            }
            assert forall|r: Seq<i32>| #[trigger] new_rows.contains(r) implies old_rows.contains(r)
                || r == row@ by {
                let k = choose|k: int| 0 <= k < new_rows.len() && new_rows[k] == r;
                if k < i {
                    assert(old_rows[k] == r);
                } else if k > i {
                    assert(old_rows[k - 1] == r);
                }
            }
            assert forall|r: Seq<i32>| old_rows.contains(r) implies #[trigger] new_rows.contains(
                r,
            ) by {
                let k = choose|k: int| 0 <= k < old_rows.len() && old_rows[k] == r;
                if k < i {
                    assert(new_rows[k] == r);
                } else {
                    assert(new_rows[k + 1] == r);
                }
            }
            assert(new_rows[i as int] == row@);
            assert(new_rows.contains(row@));
        }
    }

    /// Number of rows.
    pub fn len(&self) -> (n: usize)
        ensures
            n == self.view_rows().len(),
    {
        self.rows.len()
    }

    /// Read one row.
    pub fn row(&self, i: usize) -> (r: &Vec<i32>)
        requires
            i < self.view_rows().len(),
        ensures
            r@ == self.view_rows()[i as int],
    {
        &self.rows[i]
    }

    /// Hand the rows out in their canonical order.
    pub fn into_rows(self) -> (v: Vec<Vec<i32>>)
        ensures
            rows_of(v@) == self.view_rows(),
    {
        self.rows
    }
}

} // verus!
