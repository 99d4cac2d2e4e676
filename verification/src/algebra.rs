//! The curve algebra on plain sequences of control points: what a Bézier
//! curve is as a mathematical object, and the functions that compute it.
//!
//! Every specification names the operations of `Float` and `PVOps` in the
//! order in which the executable code performs them, so a result is pinned
//! down also where the arithmetic is not associative.

use vstd::prelude::*;
use vstd::slice::{slice_subrange, slice_to_vec};
use crate::binomial::{
    binomial, binomial_row, lemma_binomial_bound, lemma_slope_weight_bound, MAX_ORDER,
};
use crate::markers::{power, scalar, Float, PVOps};

verus! {

/// `0 <= t <= 1`
pub open spec fn in_unit<F: Float>(t: F) -> bool {
    F::zero_spec().le_spec(t) && t.le_spec(F::one_spec())
}

/// Linear interpolation: `a (1 - factor) + b factor`.
pub open spec fn lerp_spec<F: Float, PV: PVOps<F>>(a: PV, b: PV, factor: F) -> PV {
    a.times_spec(F::one_spec().sub_spec(factor)).plus_spec(b.times_spec(factor))
}

/// The term of control point `k` in a curve of order `n`:
/// `p t^k (1 - t)^(n - k) C(n, k)`.
pub open spec fn bernstein_term<F: Float, P: PVOps<F>>(p: P, t: F, n: nat, k: nat) -> P {
    p.times_spec(power(t, k)).times_spec(
        power(F::one_spec().sub_spec(t), (n - k) as nat),
    ).times_spec(scalar(binomial(n, k)))
}

/// The sum of the first `m` terms of the curve through `points`, added from
/// the left to the zero point.
pub open spec fn bernstein_sum<F: Float, P: PVOps<F>>(points: Seq<P>, t: F, m: nat) -> P
    decreases m,
{
    if m == 0 || m > points.len() {
        P::origin_spec()
    } else {
        bernstein_sum(points, t, (m - 1) as nat).plus_spec(
            bernstein_term(points[m - 1], t, (points.len() - 1) as nat, (m - 1) as nat),
        )
    }
}

/// The point at `t` of the curve with the control points `points`.
pub open spec fn bezier_point<F: Float, P: PVOps<F>>(points: Seq<P>, t: F) -> P {
    bernstein_sum(points, t, points.len())
}

/// What a bounded interpolation gives: the point at `t` for `t` in
/// `[0, 1]`, and nothing for any other `t`.
pub open spec fn interp_spec<F: Float, P: PVOps<F>>(points: Seq<P>, t: F) -> Option<P> {
    if in_unit(t) {
        Some(bezier_point(points, t))
    } else {
        None
    }
}

/// The term of the difference `b - a` of the control points `k` and `k + 1`
/// in the derivative of a curve of order `n`:
/// `(b - a) t^k (1 - t)^(n - 1 - k) (C(n - 1, k) n)`.
pub open spec fn slope_term<F: Float, P: PVOps<F>>(a: P, b: P, t: F, n: nat, k: nat) -> P {
    b.minus_spec(a).times_spec(power(t, k)).times_spec(
        power(F::one_spec().sub_spec(t), (n - 1 - k) as nat),
    ).times_spec(scalar(binomial((n - 1) as nat, k) * n))
}

/// The sum of the first `m` terms of the derivative.
pub open spec fn slope_sum<F: Float, P: PVOps<F>>(points: Seq<P>, t: F, m: nat) -> P
    decreases m,
{
    if m == 0 || m >= points.len() {
        P::origin_spec()
    } else {
        slope_sum(points, t, (m - 1) as nat).plus_spec(
            slope_term(
                points[m - 1],
                points[m as int],
                t,
                (points.len() - 1) as nat,
                (m - 1) as nat,
            ),
        )
    }
}

/// The derivative at `t` of the curve with the control points `points`.
pub open spec fn bezier_slope<F: Float, P: PVOps<F>>(points: Seq<P>, t: F) -> P {
    slope_sum(points, t, (points.len() - 1) as nat)
}

/// The control points of the curve of the next order that runs through the
/// same points: the two ends stay, and point `i` between them is
/// `(i / (n + 1)) P[i - 1] + (1 - i / (n + 1)) P[i]`, with `n` the order.
pub open spec fn elevated_points<F: Float, P: PVOps<F>>(points: Seq<P>) -> Seq<P> {
    Seq::new(
        points.len() + 1,
        |i: int|
            if i == 0 {
                points[0]
            } else if i == points.len() {
                points[points.len() - 1]
            } else {
                lerp_spec(
                    points[i],
                    points[i - 1],
                    scalar::<F>(i as nat).div_spec(scalar(points.len())),
                )
            },
    )
}

/// Row `r` of de Casteljau's triangle at `t`: row 0 holds the control
/// points, and each further row the interpolations at `t` of the neighbours
/// in the row before it.
pub open spec fn casteljau_row<F: Float, P: PVOps<F>>(points: Seq<P>, t: F, r: nat) -> Seq<P>
    decreases r,
{
    if r == 0 {
        points
    } else {
        let prev = casteljau_row(points, t, (r - 1) as nat);
        if prev.len() == 0 {
            prev
        } else {
            Seq::new((prev.len() - 1) as nat, |i: int| lerp_spec(prev[i], prev[i + 1], t))
        }
    }
}

/// The control points of the part of the curve before `t`: the first entry
/// of every row.
pub open spec fn split_left<F: Float, P: PVOps<F>>(points: Seq<P>, t: F) -> Seq<P> {
    Seq::new(points.len(), |r: int| casteljau_row(points, t, r as nat)[0])
}

/// The control points of the part of the curve after `t`: the last entry of
/// every row, from the last row to the first.
pub open spec fn split_right<F: Float, P: PVOps<F>>(points: Seq<P>, t: F) -> Seq<P> {
    Seq::new(points.len(), |j: int| casteljau_row(points, t, (points.len() - 1 - j) as nat)[j])
}

/// Row `r` of the triangle has `r` entries fewer than there are points.
pub proof fn lemma_casteljau_row_len<F: Float, P: PVOps<F>>(points: Seq<P>, t: F, r: nat)
    requires
        r <= points.len(),
    ensures
        casteljau_row(points, t, r).len() == points.len() - r,
    decreases r,
{
    if r > 0 {
        lemma_casteljau_row_len(points, t, (r - 1) as nat);
    }
}

/// The two parts of a subdivision keep the ends of the curve and meet in
/// one point, the last row of the triangle.
pub proof fn lemma_split_joins<F: Float, P: PVOps<F>>(points: Seq<P>, t: F)
    requires
        points.len() >= 1,
    ensures
        split_left(points, t).len() == points.len(),
        split_right(points, t).len() == points.len(),
        split_left(points, t).first() == points.first(),
        split_right(points, t).last() == points.last(),
        split_left(points, t).last() == split_right(points, t).first(),
        split_left(points, t).last() == casteljau_row(points, t, (points.len() - 1) as nat)[0],
{
}

/// The elevated curve has one control point more and keeps the two ends.
pub proof fn lemma_elevated_ends<F: Float, P: PVOps<F>>(points: Seq<P>)
    requires
        points.len() >= 1,
    ensures
        elevated_points::<F, P>(points).len() == points.len() + 1,
        elevated_points::<F, P>(points).first() == points.first(),
        elevated_points::<F, P>(points).last() == points.last(),
{
}

/// Whether `t` lies in `[0, 1]`.
pub fn in_bounds<F: Float>(t: F) -> (r: bool)
    ensures
        r == in_unit(t),
{
    let zero = F::zero();
    let one = F::one();
    zero.le(t) && t.le(one)
}

/// Linear interpolation between `a` and `b`.
#[inline]
pub fn lerp<F: Float, PV: PVOps<F>>(a: PV, b: PV, factor: F) -> (r: PV)
    ensures
        r == lerp_spec(a, b, factor),
{
    let fact1 = F::one().sub(factor);
    a.times(fact1).plus(b.times(factor))
}

/// The point at `t` of the curve through `points`, with the coefficients of
/// its order handed in.
pub fn interp_points<F: Float, P: PVOps<F>>(points: &[P], factors: &[u64], t: F) -> (r: P)
    requires
        1 <= points@.len() <= MAX_ORDER + 1,
        factors@ == binomial_row((points@.len() - 1) as nat),
    ensures
        r == bezier_point(points@, t),
{
    let t1 = F::one().sub(t);
    let order: usize = points.len() - 1;
    let mut acc = P::origin();
    let mut factor: usize = 0;
    while factor < points.len()
        invariant
            factor <= points@.len() <= MAX_ORDER + 1,
            order == points@.len() - 1,
            factors@ == binomial_row(order as nat),
            t1 == F::one_spec().sub_spec(t),
            acc == bernstein_sum(points@, t, factor as nat),
        decreases points@.len() - factor,
    {
        proof {
            lemma_binomial_bound(order as nat, factor as nat);
        }
        let term = points[factor].times(t.powi(factor as u32)).times(
            t1.powi((order - factor) as u32),
        ).times(F::from_u64(factors[factor]));
        acc = acc.plus(term);
        factor += 1;
    }
    acc
}

/// The derivative at `t` of the curve through `points`, as a point, with the
/// coefficients of the order below handed in.
pub fn slope_points<F: Float, P: PVOps<F>>(points: &[P], dfactors: &[u64], t: F) -> (r: P)
    requires
        2 <= points@.len() <= MAX_ORDER + 1,
        dfactors@ == binomial_row((points@.len() - 2) as nat),
    ensures
        r == bezier_slope(points@, t),
{
    let t1 = F::one().sub(t);
    let order: usize = points.len() - 1;
    let mut acc = P::origin();
    let mut factor: usize = 0;
    while factor < order
        invariant
            factor <= order <= MAX_ORDER,
            order == points@.len() - 1,
            dfactors@ == binomial_row((order - 1) as nat),
            t1 == F::one_spec().sub_spec(t),
            acc == slope_sum(points@, t, factor as nat),
        decreases order - factor,
    {
        proof {
            lemma_binomial_bound((order - 1) as nat, factor as nat);
            lemma_slope_weight_bound(order as nat, factor as nat);
        }
        let weight: u64 = dfactors[factor] * (order as u64);
        let term = points[factor + 1].minus(points[factor]).times(t.powi(factor as u32)).times(
            t1.powi((order - 1 - factor) as u32),
        ).times(F::from_u64(weight));
        acc = acc.plus(term);
        factor += 1;
    }
    acc
}

/// The control points of the curve of the next order through the same
/// points.
pub fn elevate_points<F: Float, P: PVOps<F>>(points: &[P]) -> (r: Vec<P>)
    requires
        1 <= points@.len() < usize::MAX,
    ensures
        r@ == elevated_points::<F, P>(points@),
{
    let len: usize = points.len();
    let order_f = F::from_usize(len);
    let mut el_points: Vec<P> = Vec::with_capacity(len + 1);
    el_points.push(points[0]);
    let mut i: usize = 1;
    while i < len
        invariant
            1 <= i <= len == points@.len(),
            order_f == scalar::<F>(len as nat),
            el_points@ == elevated_points::<F, P>(points@).take(i as int),
        decreases len - i,
    {
        let p = lerp(points[i], points[i - 1], F::from_usize(i).div(order_f));
        el_points.push(p);
        i += 1;
    }
    el_points.push(points[len - 1]);
    assert(el_points@ =~= elevated_points::<F, P>(points@));
    el_points
}

/// De Casteljau's subdivision at `t`: the control points of the part before
/// `t` and of the part after it.
pub fn split_points<F: Float, P: PVOps<F>>(points: &[P], t: F) -> (r: (Vec<P>, Vec<P>))
    requires
        1 <= points@.len(),
    ensures
        r.0@ == split_left(points@, t),
        r.1@ == split_right(points@, t),
{
    let n: usize = points.len();
    let mut work: Vec<P> = slice_to_vec(points);
    let mut right: Vec<P> = slice_to_vec(points);
    let mut left: Vec<P> = Vec::with_capacity(n);
    left.push(points[0]);
    let mut r: usize = 1;
    while r < n
        invariant
            1 <= r <= n == points@.len(),
            work@.len() == n,
            right@.len() == n,
            work@.take(n - (r - 1)) == casteljau_row(points@, t, (r - 1) as nat),
            left@ == split_left(points@, t).take(r as int),
            forall|j: int| n - r <= j < n ==> right@[j] == #[trigger] split_right(points@, t)[j],
        decreases n - r,
    {
        let ghost prev = casteljau_row(points@, t, (r - 1) as nat);
        let ghost row = casteljau_row(points@, t, r as nat);
        proof {
            lemma_casteljau_row_len(points@, t, (r - 1) as nat);
            lemma_casteljau_row_len(points@, t, r as nat);
        }
        let mut i: usize = 0;
        while i < n - r
            invariant
                1 <= r < n,
                i <= n - r,
                work@.len() == n,
                prev.len() == n - (r - 1),
                row.len() == n - r,
                prev == casteljau_row(points@, t, (r - 1) as nat),
                row == casteljau_row(points@, t, r as nat),
                forall|j: int| 0 <= j < i ==> work@[j] == #[trigger] row[j],
                forall|j: int| i <= j < n - (r - 1) ==> work@[j] == #[trigger] prev[j],
            decreases n - r - i,
        {
            let p = lerp(work[i], work[i + 1], t);
            work.set(i, p);
            i += 1;
        }
        assert(work@.take(n - r) =~= row);
        left.push(work[0]);
        right.set(n - 1 - r, work[n - 1 - r]);
        r += 1;
    }
    assert(left@ =~= split_left(points@, t));
    assert(right@ =~= split_right(points@, t));
    (left, right)
}

} // verus!
