//! The piecewise cubic Hermite spline layer.
//!
//! A spline replaces an expensive scalar-to-tensor function with a cheap
//! interpolant over a uniform grid of nodes spanning `[start, stop)`. Each
//! node holds the input position together with the function's value tensor
//! and first-derivative tensor at that position, both flattened to one
//! vector of `f64` bit patterns; the numeric work — evaluating the target
//! function, the Hermite basis, and the accuracy criterion — happens on the
//! caller's side of the capability boundary, while this module owns the grid
//! bookkeeping: the append-only construction protocol that halves the
//! spacing (doubling the node count) until the caller's accuracy check
//! passes, the node budget that turns runaway refinement into a
//! deterministic error, and the domain check of an evaluation input.
//!
//! Positions and domain bounds are carried as the raw IEEE 754 bit patterns
//! of non-negative finite `f64` values; over those, numeric order coincides
//! with unsigned bit-pattern order, which lets the domain check run on the
//! bits alone. A caller must canonicalize a negative zero to `+0.0` before
//! handing a position in.

use vstd::prelude::*;

use crate::errors::Error;
use crate::system::F64_POSITIVE_INFINITY_BITS;

verus! {

/// The node budget: refinement past this many interpolation nodes fails
/// with [`Error::SplineBudgetExceeded`] instead of refining further.
pub const MAX_SPLINE_POINTS: usize = 10000;

/// Parameters of a spline: the half-open domain `[start, stop)` as `f64`
/// bit patterns, and the declared shape of the value tensors.
pub struct SplineParameters {
    /// Lower end of the domain, as the bits of a non-negative finite `f64`.
    pub start_bits: u64,
    /// Upper end of the domain, as the bits of a finite `f64` above `start`.
    pub stop_bits: u64,
    /// The declared shape of the value and derivative tensors.
    pub shape: Vec<usize>,
}

impl SplineParameters {
    /// The domain is non-empty and both of its ends are non-negative finite
    /// numbers, so that bit-pattern order coincides with numeric order.
    pub open spec fn wf(&self) -> bool {
        self.start_bits < self.stop_bits < F64_POSITIVE_INFINITY_BITS || (self.start_bits == 0
            && self.stop_bits < F64_POSITIVE_INFINITY_BITS && self.start_bits < self.stop_bits)
    }
}

/// One interpolation node: the input position and the function's value and
/// first-derivative tensors there, flattened to `f64` bit patterns.
/// Immutable once constructed.
pub struct GridPoint {
    /// The node's input position, as the bits of a non-negative finite `f64`.
    pub position_bits: u64,
    /// The function value tensor at the position, flattened.
    pub values: Vec<u64>,
    /// The function derivative tensor at the position, flattened.
    pub derivatives: Vec<u64>,
}

impl GridPoint {
    /// Both tensors hold exactly `n` components.
    pub open spec fn has_len(&self, n: int) -> bool {
        self.values@.len() == n && self.derivatives@.len() == n
    }
}

/// The grid that results from inserting one midpoint node between every two
/// adjacent nodes: old nodes keep their relative order at the even slots,
/// the midpoints fill the odd slots.
pub open spec fn interleaved(points: Seq<GridPoint>, mids: Seq<GridPoint>) -> Seq<GridPoint> {
    Seq::new(
        (points.len() + mids.len()) as nat,
        |k: int|
            if k % 2 == 0 {
                points[k / 2]
            } else {
                mids[(k - 1) / 2]
            },
    )
}

/// Every node's tensors have exactly `n` components.
pub open spec fn all_points_len(points: Seq<GridPoint>, n: int) -> bool {
    forall|i: int| 0 <= i < points.len() ==> (#[trigger] points[i]).has_len(n)
}

/// The nodes sit at strictly increasing positions. For the non-negative
/// finite positions a well-formed grid holds, bit-pattern order coincides
/// with numeric order.
pub open spec fn positions_ordered(points: Seq<GridPoint>) -> bool {
    forall|i: int| 0 <= i < points.len() - 1 ==> (#[trigger] points[i]).position_bits < points[
        i + 1
    ].position_bits
}

/// The first node sits at `start` and the last at `stop`.
pub open spec fn spans_domain(points: Seq<GridPoint>, parameters: SplineParameters) -> bool {
    points.len() > 0 && points[0].position_bits == parameters.start_bits && points[points.len()
        - 1].position_bits == parameters.stop_bits
}

/// Every midpoint node sits strictly between the two grid nodes it is the
/// midpoint of.
pub open spec fn midpoints_between(points: Seq<GridPoint>, mids: Seq<GridPoint>) -> bool {
    forall|k: int| 0 <= k < mids.len() && k + 1 < points.len() ==> points[k].position_bits < (
    #[trigger] mids[k]).position_bits < points[k + 1].position_bits
}

/// An immutable piecewise cubic Hermite spline: an ordered uniform grid of
/// at least two nodes over `[start, stop)` whose tensors all have the
/// declared length. Queried many times, never mutated after construction.
pub struct HermitCubicSpline {
    parameters: SplineParameters,
    points: Vec<GridPoint>,
}

impl HermitCubicSpline {
    /// The spline's parameters.
    pub closed spec fn spec_parameters(&self) -> SplineParameters {
        self.parameters
    }

    /// The spline's nodes, in ascending position order.
    pub closed spec fn spec_points(&self) -> Seq<GridPoint> {
        self.points@
    }

    /// At least two nodes at strictly increasing positions spanning
    /// `[start, stop]`, with a consistent tensor length everywhere.
    pub open spec fn wf(&self) -> bool {
        &&& self.spec_parameters().wf()
        &&& 2 <= self.spec_points().len() <= MAX_SPLINE_POINTS
        &&& all_points_len(self.spec_points(), self.spec_points()[0].values@.len() as int)
        &&& positions_ordered(self.spec_points())
        &&& spans_domain(self.spec_points(), self.spec_parameters())
    }

    /// Number of interpolation nodes.
    pub fn n_points(&self) -> (n: usize)
        ensures
            n == self.spec_points().len(),
    {
        self.points.len()
    }

    /// The spline's parameters.
    pub fn parameters(&self) -> (r: &SplineParameters)
        ensures
            *r == self.spec_parameters(),
    {
        &self.parameters
    }

    /// One node of the grid.
    pub fn point(&self, i: usize) -> (r: &GridPoint)
        requires
            i < self.spec_points().len(),
        ensures
            *r == self.spec_points()[i as int],
    {
        &self.points[i]
    }

    /// The two nodes bracketing grid interval `k` — the constant-time
    /// segment lookup of an evaluation.
    pub fn segment(&self, k: usize) -> (r: (&GridPoint, &GridPoint))
        requires
            k + 1 < self.spec_points().len(),
        ensures
            *r.0 == self.spec_points()[k as int],
            *r.1 == self.spec_points()[k as int + 1],
    {
        let n = self.points.len();
        (&self.points[k], &self.points[k + 1])
    }

    /// Check that an evaluation input lies inside `[start, stop)`.
    ///
    /// The input is the bit pattern of a non-negative finite `f64` (a
    /// negative zero must be canonicalized to `+0.0` first); for such
    /// values, unsigned bit-pattern order coincides with numeric order, so
    /// the comparison runs on the bits alone. Out-of-range input is an
    /// error, never silently clamped.
    pub fn check_in_domain(&self, x_bits: u64) -> (r: Result<(), Error>)
        ensures
            r is Ok <==> self.spec_parameters().start_bits <= x_bits
                < self.spec_parameters().stop_bits,
            r matches Result::Err(e) ==> e is OutOfDomain,
    {
        if self.parameters.start_bits <= x_bits && x_bits < self.parameters.stop_bits {
            Result::Ok(())
        } else {
            Result::Err(
                Error::OutOfDomain(
                    "the input lies outside of the domain of this spline".to_owned(),
                ),
            )
        }
    }
}

/// The accuracy-driven construction protocol of a spline.
///
/// The caller seeds the builder with a coarse uniform grid, then repeatedly
/// evaluates the candidate spline at the midpoints between existing nodes,
/// compares the prediction against the true function there, and either
/// accepts the resolution ([`SplineBuilder::finish`]) or hands the midpoint
/// evaluations back ([`SplineBuilder::refine`]), which halves the spacing.
/// Refinement past [`MAX_SPLINE_POINTS`] nodes fails deterministically with
/// [`Error::SplineBudgetExceeded`]; an accuracy of zero or less therefore
/// still terminates, through that error, under the same doubling loop.
pub struct SplineBuilder {
    accuracy_bits: u64,
    parameters: SplineParameters,
    points: Vec<GridPoint>,
}

impl SplineBuilder {
    /// The requested accuracy, as `f64` bits, kept for error reporting.
    pub closed spec fn spec_accuracy_bits(&self) -> u64 {
        self.accuracy_bits
    }

    /// The parameters of the spline under construction.
    pub closed spec fn spec_parameters(&self) -> SplineParameters {
        self.parameters
    }

    /// The nodes of the candidate grid, in ascending position order.
    pub closed spec fn spec_points(&self) -> Seq<GridPoint> {
        self.points@
    }

    /// See [`HermitCubicSpline::wf`].
    pub open spec fn wf(&self) -> bool {
        &&& self.spec_parameters().wf()
        &&& 2 <= self.spec_points().len() <= MAX_SPLINE_POINTS
        &&& all_points_len(self.spec_points(), self.spec_points()[0].values@.len() as int)
        &&& positions_ordered(self.spec_points())
        &&& spans_domain(self.spec_points(), self.spec_parameters())
    }

    /// Start construction from an initial uniform grid.
    ///
    /// Fails with `InvalidParameter` when the domain is empty or not made
    /// of non-negative finite numbers, when fewer than two nodes are given
    /// or more than the budget, or when the nodes' tensor lengths disagree;
    /// the builder takes the grid as given otherwise.
    pub fn new(accuracy_bits: u64, parameters: SplineParameters, initial: Vec<GridPoint>) -> (r:
        Result<SplineBuilder, Error>)
        ensures
            r is Ok <==> parameters.wf() && 2 <= initial@.len() <= MAX_SPLINE_POINTS
                && all_points_len(initial@, initial@[0].values@.len() as int) && positions_ordered(
                initial@,
            ) && spans_domain(initial@, parameters),
            r matches Result::Ok(b) ==> b.wf() && b.spec_accuracy_bits() == accuracy_bits
                && b.spec_parameters() == parameters && b.spec_points() == initial@,
            r matches Result::Err(e) ==> e is InvalidParameter,
    {
        if !(parameters.start_bits < parameters.stop_bits && parameters.stop_bits
            < F64_POSITIVE_INFINITY_BITS) {
            return Result::Err(
                Error::InvalidParameter(
                    "the spline domain must be a non-empty range of non-negative finite numbers".to_owned(),
                ),
            );
        }
        if initial.len() < 2 || initial.len() > MAX_SPLINE_POINTS {
            return Result::Err(
                Error::InvalidParameter(
                    "a spline needs at least two nodes and at most the node budget".to_owned(),
                ),
            );
        }
        if initial[0].position_bits != parameters.start_bits || initial[initial.len()
            - 1].position_bits != parameters.stop_bits {
            return Result::Err(
                Error::InvalidParameter(
                    "the grid must run from the start of the domain to its stop".to_owned(),
                ),
            );
        }
        let n = initial[0].values.len();
        let mut i: usize = 0;
        while i < initial.len()
            invariant
                2 <= initial@.len(),
                i <= initial@.len(),
                n == initial@[0].values@.len(),
                forall|k: int| 0 <= k < i ==> (#[trigger] initial@[k]).has_len(n as int),
                forall|k: int| 0 <= k < i && k + 1 < initial@.len() ==> (
                #[trigger] initial@[k]).position_bits < initial@[k + 1].position_bits,
            decreases initial@.len() - i,
        {
            if initial[i].values.len() != n || initial[i].derivatives.len() != n {
                return Result::Err(
                    Error::InvalidParameter(
                        "every spline node must hold tensors of the declared shape".to_owned(),
                    ),
                );
            }
            if i + 1 < initial.len() && initial[i].position_bits >= initial[i + 1].position_bits {
                return Result::Err(
                    Error::InvalidParameter(
                        "the grid nodes must sit at strictly increasing positions".to_owned(),
                    ),
                );
            }
            i = i + 1;
        }
        Result::Ok(SplineBuilder { accuracy_bits, parameters, points: initial })
    }

    /// Number of nodes of the candidate grid.
    pub fn n_points(&self) -> (n: usize)
        ensures
            n == self.spec_points().len(),
    {
        self.points.len()
    }

    /// The requested accuracy, as `f64` bits.
    pub fn accuracy_bits(&self) -> (r: u64)
        ensures
            r == self.spec_accuracy_bits(),
    {
        self.accuracy_bits
    }

    /// One node of the candidate grid (the caller reads the grid to
    /// evaluate the candidate spline at the midpoints).
    pub fn point(&self, i: usize) -> (r: &GridPoint)
        requires
            i < self.spec_points().len(),
        ensures
            *r == self.spec_points()[i as int],
    {
        &self.points[i]
    }

    /// Halve the grid spacing: take the function evaluations at the `n - 1`
    /// midpoints of the current grid and interleave them with the existing
    /// nodes, doubling the resolution.
    ///
    /// When the refined grid would exceed the node budget, fails with
    /// `SplineBudgetExceeded` — carrying the requested accuracy and the
    /// resolution reached — whatever the midpoints hold; this is what turns
    /// an unreachable accuracy into a deterministic error instead of an
    /// unbounded loop. Fails with `InvalidParameter` when the number of
    /// midpoints or a tensor length does not match the grid. The grid is
    /// unchanged on failure.
    pub fn refine(&mut self, midpoints: Vec<GridPoint>) -> (r: Result<(), Error>)
        requires
            old(self).wf(),
        ensures
            final(self).wf(),
            final(self).spec_accuracy_bits() == old(self).spec_accuracy_bits(),
            final(self).spec_parameters() == old(self).spec_parameters(),
            2 * old(self).spec_points().len() - 1 > MAX_SPLINE_POINTS ==> (r matches Result::Err(
                e,
            ) && e == (Error::SplineBudgetExceeded {
                accuracy_bits: old(self).spec_accuracy_bits(),
                n_points: old(self).spec_points().len() as usize,
            })),
            r is Ok <==> 2 * old(self).spec_points().len() - 1 <= MAX_SPLINE_POINTS
                && midpoints@.len() == old(self).spec_points().len() - 1 && all_points_len(
                midpoints@,
                old(self).spec_points()[0].values@.len() as int,
            ) && midpoints_between(old(self).spec_points(), midpoints@),
            r is Ok ==> final(self).spec_points() == interleaved(
                old(self).spec_points(),
                midpoints@,
            ) && final(self).spec_points().len() == 2 * old(self).spec_points().len() - 1,
            r is Err ==> *final(self) == *old(self),
            r matches Result::Err(e) ==> e is SplineBudgetExceeded || e is InvalidParameter,
    {
        let n = self.points.len();
        if n - 1 > MAX_SPLINE_POINTS - n {
            return Result::Err(
                Error::SplineBudgetExceeded {
                    accuracy_bits: self.accuracy_bits,
                    n_points: n,
                },
            );
        }
        if midpoints.len() != n - 1 {
            return Result::Err(
                Error::InvalidParameter(
                    "one midpoint node is needed between every two adjacent grid nodes".to_owned(),
                ),
            );
        }
        let len = self.points[0].values.len();
        let mut i: usize = 0;
        while i < midpoints.len()
            invariant
                *self == *old(self),
                old(self).wf(),
                2 * old(self).spec_points().len() - 1 <= MAX_SPLINE_POINTS,
                midpoints@.len() == old(self).spec_points().len() - 1,
                i <= midpoints@.len(),
                len == old(self).spec_points()[0].values@.len(),
                forall|k: int| 0 <= k < i ==> (#[trigger] midpoints@[k]).has_len(len as int),
                forall|k: int| 0 <= k < i ==> old(self).spec_points()[k].position_bits < (
                #[trigger] midpoints@[k]).position_bits < old(self).spec_points()[
                    k + 1
                ].position_bits,
            decreases midpoints@.len() - i,
        {
            if midpoints[i].values.len() != len || midpoints[i].derivatives.len() != len {
                return Result::Err(
                    Error::InvalidParameter(
                        "every midpoint node must hold tensors of the declared shape".to_owned(),
                    ),
                );
            }
            if midpoints[i].position_bits <= self.points[i].position_bits || midpoints[
                i
            ].position_bits >= self.points[i + 1].position_bits {
                return Result::Err(
                    Error::InvalidParameter(
                        "every midpoint node must sit strictly between its two grid nodes".to_owned(),
                    ),
                );
            }
            i = i + 1;
        }
        let ghost old_points = self.points@;
        let ghost mid_view = midpoints@;
        let ghost target = interleaved(old_points, mid_view);
        let mut pts: Vec<GridPoint> = Vec::new();
        std::mem::swap(&mut pts, &mut self.points);
        let mut mids = midpoints;
        let mut out: Vec<GridPoint> = Vec::new();
        proof {
            assert(out@ =~= target.take(0));
        }
        while pts.len() > 1
            invariant
                target == interleaved(old_points, mid_view),
                old_points.len() + mid_view.len() == target.len(),
                mid_view.len() == old_points.len() - 1,
                pts@.len() + mids@.len() + out@.len() == target.len(),
                pts@.len() == mids@.len() + 1,
                pts@ == old_points.skip(old_points.len() - pts@.len()),
                mids@ == mid_view.skip(mid_view.len() - mids@.len()),
                out@ == target.take(out@.len() as int),
                out@.len() == 2 * (old_points.len() - pts@.len()),
            decreases pts@.len(),
        {
            let ghost done = old_points.len() - pts@.len();
            let p = pts.remove(0);
            let m = mids.remove(0);
            proof {
                assert(p == old_points.skip(done as int)[0]);
                assert(old_points.skip(done as int)[0] == old_points[done as int]);
                assert(m == mid_view.skip(done as int)[0]);
                assert(mid_view.skip(done as int)[0] == mid_view[done as int]);
                assert(pts@ =~= old_points.skip(done + 1));
                assert(mids@ =~= mid_view.skip(done + 1));
                assert(target[2 * done] == old_points[done as int]) by {
                    assert(0 <= 2 * done < target.len());
                    assert((2 * done) % 2 == 0);
                    assert((2 * done) / 2 == done);
                }
                assert(target[2 * done + 1] == mid_view[done as int]) by {
                    assert(0 <= 2 * done + 1 < target.len());
                    assert((2 * done + 1) % 2 == 1);
                    assert((2 * done + 1 - 1) / 2 == done);
                }
                assert(target.take(2 * done + 1) =~= target.take(2 * done).push(
                    target[2 * done],
                ));
                assert(target.take(2 * done + 2) =~= target.take(2 * done + 1).push(
                    target[2 * done + 1],
                ));
            }
            out.push(p);
            out.push(m);
        }
        let last = pts.remove(0);
        proof {
            let done = old_points.len() - 1;
            assert(last == old_points.skip(done as int)[0]);
            assert(old_points.skip(done as int)[0] == old_points[done as int]);
            assert(target[2 * done] == old_points[done as int]) by {
                assert(0 <= 2 * done < target.len());
                assert((2 * done) % 2 == 0);
                assert((2 * done) / 2 == done);
            }
            assert(target.take(2 * done + 1) =~= target.take(2 * done).push(target[2 * done]));
        }
        out.push(last);
        proof {
            assert(out@ =~= target);
        }
        self.points = out;
        proof {
            assert(self.spec_points() == target);
            assert(target.len() == 2 * old_points.len() - 1);
            assert(target[0] == old_points[0]) by {
                assert(0int % 2 == 0 && 0int / 2 == 0);
            }
            assert forall|k: int| 0 <= k < target.len() implies (#[trigger] target[k]).has_len(
                target[0].values@.len() as int,
            ) by {
                if k % 2 == 0 {
                    assert(0 <= k / 2 < old_points.len());
                    assert(target[k] == old_points[k / 2]);
                } else {
                    assert(0 <= (k - 1) / 2 < mid_view.len());
                    assert(target[k] == mid_view[(k - 1) / 2]);
                }
            }
            assert forall|k: int| 0 <= k < target.len() - 1 implies (
            #[trigger] target[k]).position_bits < target[k + 1].position_bits by {
                if k % 2 == 0 {
                    let m = k / 2;
                    assert(target[k] == old_points[m]);
                    assert((k + 1) % 2 == 1 && (k + 1 - 1) / 2 == m);
                    assert(target[k + 1] == mid_view[m]);
                } else {
                    let m = (k - 1) / 2;
                    assert(target[k] == mid_view[m]);
                    assert((k + 1) % 2 == 0 && (k + 1) / 2 == m + 1);
                    assert(target[k + 1] == old_points[m + 1]);
                }
            }
            assert(target[target.len() - 1] == old_points[old_points.len() - 1]) by {
                let k = target.len() - 1;
                assert(k == 2 * (old_points.len() - 1));
                assert(k % 2 == 0 && k / 2 == old_points.len() - 1);
            }
        }
        Result::Ok(())
    }

    /// Accept the current resolution: the caller's accuracy criterion held
    /// at the midpoints, so the candidate grid becomes the final spline.
    pub fn finish(self) -> (s: HermitCubicSpline)
        requires
            self.wf(),
        ensures
            s.wf(),
            s.spec_parameters() == self.spec_parameters(),
            s.spec_points() == self.spec_points(),
    {
        HermitCubicSpline { parameters: self.parameters, points: self.points }
    }
}

/// Budget safety: a refinement loop that never meets its accuracy cannot
/// run unboundedly. Each successful refinement takes a grid of `n` nodes to
/// `2n - 1` nodes and the budget bounds every grid, so any chain of
/// successfully refined grid sizes — starting from the minimum of two
/// nodes — is itself shorter than the budget: the loop reaches
/// [`Error::SplineBudgetExceeded`] after finitely many steps.
pub proof fn lemma_refinement_reaches_budget(counts: Seq<int>)
    requires
        counts.len() >= 1,
        counts[0] >= 2,
        forall|i: int| 0 <= i < counts.len() - 1 ==> #[trigger] counts[i + 1] == 2 * counts[i] - 1,
        forall|i: int| 0 <= i < counts.len() ==> #[trigger] counts[i] <= MAX_SPLINE_POINTS,
    ensures
        counts.len() <= MAX_SPLINE_POINTS,
{
    lemma_refinement_counts_grow(counts, counts.len() - 1);
}

/// Along a chain of refinements, the grid after `i` steps holds at least
/// `2 + i` nodes.
proof fn lemma_refinement_counts_grow(counts: Seq<int>, i: int)
    requires
        counts.len() >= 1,
        counts[0] >= 2,
        0 <= i < counts.len(),
        forall|k: int| 0 <= k < counts.len() - 1 ==> #[trigger] counts[k + 1] == 2 * counts[k] - 1,
    ensures
        counts[i] >= 2 + i,
    decreases i,
{
    if i > 0 {
        lemma_refinement_counts_grow(counts, i - 1);
        assert(counts[(i - 1) + 1] == 2 * counts[i - 1] - 1);
    }
}

} // verus!
