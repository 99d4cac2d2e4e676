//! A curve begins in its first control point and ends in its last.
//!
//! The evaluation multiplies and adds also where the factor is 1 and the
//! term 0, so this holds where the arithmetic keeps the identities below. Of
//! rounded arithmetic that is the case for finite values; it is not for a
//! control point with an infinite coordinate, whose product with 0 is not 0.

use vstd::prelude::*;
use crate::algebra::{bernstein_sum, bernstein_term, bezier_point};
use crate::binomial::{binomial, lemma_binomial_ends, MAX_ORDER};
use crate::markers::{scalar, Float, PVOps};

verus! {

/// The scalars 0 and 1 behave as such in subtraction and in powers, and 1 is
/// what stands for the integer 1.
pub open spec fn unit_identities<F: Float>() -> bool {
    &&& F::one_spec().sub_spec(F::zero_spec()) == F::one_spec()
    &&& F::one_spec().sub_spec(F::one_spec()) == F::zero_spec()
    &&& F::from_u64_spec(1) == F::one_spec()
    &&& F::zero_spec().powi_spec(0) == F::one_spec()
    &&& forall|n: u32| #[trigger] F::one_spec().powi_spec(n) == F::one_spec()
    &&& forall|n: u32| n > 0 ==> #[trigger] F::zero_spec().powi_spec(n) == F::zero_spec()
}

/// The zero point stays zero under every scaling and is neutral when added
/// to itself.
pub open spec fn origin_identities<F: Float, P: PVOps<F>>() -> bool {
    &&& forall|c: F| #[trigger] P::origin_spec().times_spec(c) == P::origin_spec()
    &&& P::origin_spec().plus_spec(P::origin_spec()) == P::origin_spec()
}

/// The point `p` is kept by a scaling with 1 and by the addition of the
/// zero point, and a scaling with 0 makes it the zero point.
pub open spec fn point_identities<F: Float, P: PVOps<F>>(p: P) -> bool {
    &&& p.times_spec(F::one_spec()) == p
    &&& p.times_spec(F::zero_spec()) == P::origin_spec()
    &&& P::origin_spec().plus_spec(p) == p
    &&& p.plus_spec(P::origin_spec()) == p
}

/// The identities hold of the scalars, of the zero point and of every
/// point of `points`.
pub open spec fn exact_at_ends<F: Float, P: PVOps<F>>(points: Seq<P>) -> bool {
    &&& unit_identities::<F>()
    &&& origin_identities::<F, P>()
    &&& forall|i: int| 0 <= i < points.len() ==> point_identities::<F, P>(#[trigger] points[i])
}

/// At 0 the term of the first control point is that point, and every other
/// term is the zero point.
proof fn lemma_term_at_zero<F: Float, P: PVOps<F>>(points: Seq<P>, k: nat)
    requires
        exact_at_ends::<F, P>(points),
        k < points.len() <= MAX_ORDER + 1,
    ensures
        bernstein_term(points[k as int], F::zero_spec(), (points.len() - 1) as nat, k) == (if k
            == 0 {
            points[0]
        } else {
            P::origin_spec()
        }),
{
    let n = (points.len() - 1) as nat;
    let p = points[k as int];
    let one = F::one_spec();
    let zero = F::zero_spec();
    assert(point_identities::<F, P>(p));
    assert(one.powi_spec((n - k) as u32) == one);
    if k == 0 {
        lemma_binomial_ends(n);
    } else {
        assert(zero.powi_spec(k as u32) == zero);
        assert(P::origin_spec().times_spec(one) == P::origin_spec());
        assert(P::origin_spec().times_spec(scalar::<F>(binomial(n, k))) == P::origin_spec());
    }
}

/// At 1 the term of the last control point is that point, and every other
/// term is the zero point.
proof fn lemma_term_at_one<F: Float, P: PVOps<F>>(points: Seq<P>, k: nat)
    requires
        exact_at_ends::<F, P>(points),
        k < points.len() <= MAX_ORDER + 1,
    ensures
        bernstein_term(points[k as int], F::one_spec(), (points.len() - 1) as nat, k) == (if k
            == points.len() - 1 {
            points[k as int]
        } else {
            P::origin_spec()
        }),
{
    let n = (points.len() - 1) as nat;
    let p = points[k as int];
    let one = F::one_spec();
    let zero = F::zero_spec();
    assert(point_identities::<F, P>(p));
    assert(one.powi_spec(k as u32) == one);
    if k == n {
        lemma_binomial_ends(n);
    } else {
        assert(zero.powi_spec((n - k) as u32) == zero);
        assert(P::origin_spec().times_spec(scalar::<F>(binomial(n, k))) == P::origin_spec());
    }
}

/// At 0 every partial sum that holds the first term is the first point.
proof fn lemma_sum_at_zero<F: Float, P: PVOps<F>>(points: Seq<P>, m: nat)
    requires
        exact_at_ends::<F, P>(points),
        1 <= m <= points.len() <= MAX_ORDER + 1,
    ensures
        bernstein_sum(points, F::zero_spec(), m) == points[0],
    decreases m,
{
    lemma_term_at_zero::<F, P>(points, (m - 1) as nat);
    assert(point_identities::<F, P>(points[0]));
    if m > 1 {
        lemma_sum_at_zero::<F, P>(points, (m - 1) as nat);
    } else {
        assert(bernstein_sum(points, F::zero_spec(), 0) == P::origin_spec());
    }
}

/// At 1 every partial sum without the last term is the zero point.
proof fn lemma_sum_at_one<F: Float, P: PVOps<F>>(points: Seq<P>, m: nat)
    requires
        exact_at_ends::<F, P>(points),
        m < points.len() <= MAX_ORDER + 1,
    ensures
        bernstein_sum(points, F::one_spec(), m) == P::origin_spec(),
    decreases m,
{
    if m > 0 {
        lemma_term_at_one::<F, P>(points, (m - 1) as nat);
        lemma_sum_at_one::<F, P>(points, (m - 1) as nat);
    }
}

/// The curve through `points` is at its first control point for `t = 0` and
/// at its last for `t = 1`, exactly, where the arithmetic keeps the
/// identities of `exact_at_ends`.
pub proof fn lemma_interp_endpoints<F: Float, P: PVOps<F>>(points: Seq<P>)
    requires
        1 <= points.len() <= MAX_ORDER + 1,
        exact_at_ends::<F, P>(points),
    ensures
        bezier_point(points, F::zero_spec()) == points.first(),
        bezier_point(points, F::one_spec()) == points.last(),
{
    lemma_sum_at_zero::<F, P>(points, points.len());
    lemma_sum_at_one::<F, P>(points, (points.len() - 1) as nat);
    lemma_term_at_one::<F, P>(points, (points.len() - 1) as nat);
    assert(point_identities::<F, P>(points.last()));
}

} // verus!
