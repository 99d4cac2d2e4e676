//! De Casteljau's triangle holds points of curves, where the arithmetic is
//! exact: the two parts of a subdivision meet on the curve.

use vstd::prelude::*;
use crate::algebra::{
    bernstein_sum, bernstein_term, bezier_point, casteljau_row, lemma_casteljau_row_len,
    lerp_spec, split_left, split_right,
};
use crate::binomial::{binomial, lemma_binomial_bound, lemma_binomial_ends, MAX_ORDER};
use crate::exact::{
    exact_arithmetic, law_mul_add, law_nat_add, law_nat_one, law_plus_comm, law_power_next,
    law_power_zero, law_times_add, law_times_one, law_times_times, lemma_first_sums,
    lemma_last_sum, lemma_scalings, lemma_sums_joined, lemma_weights_moved, lemma_zero_plus,
};
use crate::markers::{power, scalar, Float, PVOps};

verus! {

/// `left` is `points` without its last point, `right` is `points` without
/// its first.
spec fn parts_of<P>(points: Seq<P>, left: Seq<P>, right: Seq<P>) -> bool {
    &&& left.len() + 1 == points.len()
    &&& right.len() + 1 == points.len()
    &&& forall|i: int| 0 <= i < left.len() ==> #[trigger] left[i] == points[i]
    &&& forall|i: int| 0 <= i < right.len() ==> #[trigger] right[i] == points[i + 1]
}

/// The term `k` of a curve, for `k` between the ends, is made of the terms
/// of the curve without its last point and of the curve without its first:
/// `T(k) == TL(k) (1 - t) + TR(k - 1) t`.
proof fn lemma_term_recurrence<F: Float, P: PVOps<F>>(
    points: Seq<P>,
    left: Seq<P>,
    right: Seq<P>,
    t: F,
    k: nat,
)
    requires
        1 <= k,
        k + 1 < points.len() <= MAX_ORDER + 1,
        parts_of(points, left, right),
        exact_arithmetic::<F, P>(),
    ensures
        bernstein_term(points[k as int], t, (points.len() - 1) as nat, k) == bernstein_term(
            left[k as int],
            t,
            (points.len() - 2) as nat,
            k,
        ).times_spec(F::one_spec().sub_spec(t)).plus_spec(
            bernstein_term(right[k - 1], t, (points.len() - 2) as nat, (k - 1) as nat).times_spec(
                t,
            ),
        ),
{
    let m = (points.len() - 1) as nat;
    let u = F::one_spec().sub_spec(t);
    let p = points[k as int];
    assert(left[k as int] == p);
    assert(right[k - 1] == p);
    let tk = power(t, k);
    let tk1 = power(t, (k - 1) as nat);
    let umk = power(u, (m - k) as nat);
    let b = power(u, (m - 1 - k) as nat);
    let c = scalar::<F>(binomial(m, k));
    let ck = scalar::<F>(binomial((m - 1) as nat, k));
    let ck1 = scalar::<F>(binomial((m - 1) as nat, (k - 1) as nat));
    law_power_next(u, (m - 1 - k) as u32);
    law_power_next(t, (k - 1) as u32);
    assert(umk == b.mul_spec(u) && tk == tk1.mul_spec(t));
    lemma_binomial_bound(m, k);
    lemma_binomial_bound((m - 1) as nat, k);
    lemma_binomial_bound((m - 1) as nat, (k - 1) as nat);
    assert(binomial(m, k) == binomial((m - 1) as nat, (k - 1) as nat) + binomial(
        (m - 1) as nat,
        k,
    ));
    law_nat_add::<F>(
        binomial((m - 1) as nat, (k - 1) as nat) as u64,
        binomial((m - 1) as nat, k) as u64,
    );
    assert(c == ck1.add_spec(ck));
    let w = tk.mul_spec(umk);
    let w1 = w.mul_spec(ck1);
    let w2 = w.mul_spec(ck);
    lemma_scalings(p, tk, umk, c);
    law_mul_add(w, ck1, ck);
    law_times_add(p, w1, w2);
    lemma_weights_moved(tk, b, u, ck);
    lemma_weights_moved(tk1, umk, t, ck1);
    lemma_scalings(p, tk, b, ck);
    lemma_scalings(p, tk1, umk, ck1);
    law_times_times(p, tk.mul_spec(b).mul_spec(ck), u);
    law_times_times(p, tk1.mul_spec(umk).mul_spec(ck1), t);
    law_plus_comm::<F, P>(p.times_spec(w1), p.times_spec(w2));
}

/// The first term of a curve is the first term of the curve without its
/// last point, scaled by `1 - t`, and its last term is the last term of the
/// curve without its first point, scaled by `t`.
proof fn lemma_end_terms_recurrence<F: Float, P: PVOps<F>>(
    points: Seq<P>,
    left: Seq<P>,
    right: Seq<P>,
    t: F,
)
    requires
        2 <= points.len() <= MAX_ORDER + 1,
        parts_of(points, left, right),
        exact_arithmetic::<F, P>(),
    ensures
        bernstein_term(points[0], t, (points.len() - 1) as nat, 0) == bernstein_term(
            left[0],
            t,
            (points.len() - 2) as nat,
            0,
        ).times_spec(F::one_spec().sub_spec(t)),
        bernstein_term(
            points[points.len() - 1],
            t,
            (points.len() - 1) as nat,
            (points.len() - 1) as nat,
        ) == bernstein_term(
            right[points.len() - 2],
            t,
            (points.len() - 2) as nat,
            (points.len() - 2) as nat,
        ).times_spec(t),
{
    let m = (points.len() - 1) as nat;
    let n = (m - 1) as nat;
    let u = F::one_spec().sub_spec(t);
    let s1 = scalar::<F>(1);
    lemma_binomial_ends(m);
    lemma_binomial_ends(n);
    law_power_next(u, n as u32);
    law_power_next(t, n as u32);
    assert(power(u, m) == power(u, n).mul_spec(u) && power(t, m) == power(t, n).mul_spec(t));
    let p = points[0];
    assert(left[0] == p);
    let x = power(t, 0);
    let un = power(u, n);
    lemma_scalings(p, x, un.mul_spec(u), s1);
    lemma_scalings(p, x, un, s1);
    lemma_weights_moved(x, un, u, s1);
    let q = points[m as int];
    assert(right[n as int] == q);
    let tn = power(t, n);
    let u0 = power(u, 0);
    lemma_scalings(q, tn.mul_spec(t), u0, s1);
    lemma_scalings(q, tn, u0, s1);
    lemma_weights_moved(tn, u0, t, s1);
    law_times_times(p, x.mul_spec(un).mul_spec(s1), u);
    law_times_times(q, tn.mul_spec(u0).mul_spec(s1), t);
}

/// A partial sum of a curve is made of the partial sums of the curve
/// without its last point and of the curve without its first:
/// `S(j) == SL(j) (1 - t) + SR(j - 1) t`.
proof fn lemma_sum_recurrence<F: Float, P: PVOps<F>>(
    points: Seq<P>,
    left: Seq<P>,
    right: Seq<P>,
    t: F,
    j: nat,
)
    requires
        1 <= j < points.len() <= MAX_ORDER + 1,
        parts_of(points, left, right),
        exact_arithmetic::<F, P>(),
    ensures
        bernstein_sum(points, t, j) == bernstein_sum(left, t, j).times_spec(
            F::one_spec().sub_spec(t),
        ).plus_spec(bernstein_sum(right, t, (j - 1) as nat).times_spec(t)),
    decreases j,
{
    let m = (points.len() - 1) as nat;
    let n = (m - 1) as nat;
    let u = F::one_spec().sub_spec(t);
    let zero = P::origin_spec();
    if j == 1 {
        lemma_end_terms_recurrence(points, left, right, t);
        let t0 = bernstein_term(left[0], t, n, 0);
        assert(bernstein_sum(points, t, 0) == zero);
        assert(bernstein_sum(left, t, 0) == zero);
        assert(bernstein_sum(right, t, 0) == zero);
        assert(bernstein_sum(left, t, 1) == zero.plus_spec(t0));
        assert(bernstein_sum(points, t, 1) == zero.plus_spec(t0.times_spec(u)));
        lemma_first_sums::<F, P>(t0, u, t);
    } else {
        lemma_sum_recurrence(points, left, right, t, (j - 1) as nat);
        lemma_term_recurrence(points, left, right, t, (j - 1) as nat);
        let sl = bernstein_sum(left, t, (j - 1) as nat);
        let sr = bernstein_sum(right, t, (j - 2) as nat);
        let tl = bernstein_term(left[j - 1], t, n, (j - 1) as nat);
        let tr = bernstein_term(right[j - 2], t, n, (j - 2) as nat);
        assert(bernstein_sum(left, t, j) == sl.plus_spec(tl));
        assert(bernstein_sum(right, t, (j - 1) as nat) == sr.plus_spec(tr));
        assert(bernstein_sum(points, t, j) == bernstein_sum(points, t, (j - 1) as nat).plus_spec(
            bernstein_term(points[j - 1], t, m, (j - 1) as nat),
        ));
        lemma_sums_joined::<F, P>(sl, sr, tl, tr, u, t);
    }
}

/// The recurrence of the Bernstein basis: a curve is the interpolation at
/// `t` between the curve without its last control point and the curve
/// without its first, both taken at `t`.
pub proof fn lemma_curve_recurrence<F: Float, P: PVOps<F>>(points: Seq<P>, t: F)
    requires
        2 <= points.len() <= MAX_ORDER + 1,
        exact_arithmetic::<F, P>(),
    ensures
        bezier_point(points, t) == lerp_spec(
            bezier_point(points.drop_last(), t),
            bezier_point(points.drop_first(), t),
            t,
        ),
{
    let m = (points.len() - 1) as nat;
    let n = (m - 1) as nat;
    let u = F::one_spec().sub_spec(t);
    let left = points.drop_last();
    let right = points.drop_first();
    assert(parts_of(points, left, right));
    lemma_sum_recurrence(points, left, right, t, m);
    lemma_end_terms_recurrence(points, left, right, t);
    let sl = bernstein_sum(left, t, m);
    let sr = bernstein_sum(right, t, n);
    let tr = bernstein_term(right[n as int], t, n, n);
    assert(bernstein_sum(right, t, m) == sr.plus_spec(tr));
    assert(bezier_point(points, t) == bernstein_sum(points, t, m).plus_spec(
        bernstein_term(points[m as int], t, m, m),
    ));
    lemma_last_sum::<F, P>(sl.times_spec(u), sr, tr, t);
}

/// A curve of order 0 stays in its one control point.
pub proof fn lemma_curve_of_one_point<F: Float, P: PVOps<F>>(p: P, t: F)
    requires
        exact_arithmetic::<F, P>(),
    ensures
        bezier_point(seq![p], t) == p,
{
    let points = seq![p];
    let u = F::one_spec().sub_spec(t);
    assert(bernstein_sum(points, t, 0) == P::origin_spec());
    assert(bezier_point(points, t) == P::origin_spec().plus_spec(
        bernstein_term(points[0], t, 0, 0),
    ));
    law_power_zero(t);
    law_power_zero(u);
    law_nat_one::<F>();
    law_times_one::<F, P>(p);
    lemma_zero_plus::<F, P>(p);
}

/// De Casteljau's triangle holds curves: entry `i` of row `r` is the point
/// at `t` of the curve through the control points `i` to `i + r`.
pub proof fn lemma_row_entries_on_curves<F: Float, P: PVOps<F>>(
    points: Seq<P>,
    t: F,
    r: nat,
    i: nat,
)
    requires
        r + i < points.len() <= MAX_ORDER + 1,
        exact_arithmetic::<F, P>(),
    ensures
        casteljau_row(points, t, r).len() == points.len() - r,
        casteljau_row(points, t, r)[i as int] == bezier_point(
            points.subrange(i as int, (i + r + 1) as int),
            t,
        ),
    decreases r,
{
    lemma_casteljau_row_len(points, t, r);
    let part = points.subrange(i as int, (i + r + 1) as int);
    if r == 0 {
        assert(part =~= seq![points[i as int]]);
        lemma_curve_of_one_point(points[i as int], t);
    } else {
        lemma_casteljau_row_len(points, t, (r - 1) as nat);
        lemma_row_entries_on_curves(points, t, (r - 1) as nat, i);
        lemma_row_entries_on_curves(points, t, (r - 1) as nat, i + 1);
        lemma_curve_recurrence(part, t);
        assert(part.drop_last() =~= points.subrange(i as int, (i + r) as int));
        assert(part.drop_first() =~= points.subrange((i + 1) as int, (i + r + 1) as int));
    }
}

/// The two parts of a subdivision at `t` meet in the point of the curve at
/// `t`, where the arithmetic is exact.
pub proof fn lemma_split_point_on_curve<F: Float, P: PVOps<F>>(points: Seq<P>, t: F)
    requires
        1 <= points.len() <= MAX_ORDER + 1,
        exact_arithmetic::<F, P>(),
    ensures
        split_left(points, t).last() == bezier_point(points, t),
        split_right(points, t).first() == bezier_point(points, t),
{
    lemma_row_entries_on_curves(points, t, (points.len() - 1) as nat, 0);
    assert(points.subrange(0, points.len() as int) =~= points);
}

} // verus!
