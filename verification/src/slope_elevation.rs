//! Degree elevation does not change the slope of a curve, where the
//! arithmetic is exact.
//!
//! The slope of a curve of order `n` is `n` times the curve through the
//! differences of its control points. The differences of the elevated
//! points, taken `n + 1` times, are the elevated differences taken `n`
//! times. So the slope of the elevated curve is the elevated curve of
//! differences, which is the curve of differences.

use vstd::prelude::*;
use crate::algebra::{
    bernstein_sum, bernstein_term, bezier_point, bezier_slope, elevated_points, lerp_spec,
    slope_sum, slope_term,
};
use crate::binomial::{binomial, lemma_binomial_bound, lemma_slope_weight_bound, MAX_ORDER};
use crate::elevation::lemma_elevation_keeps_curve;
use crate::exact::{
    exact_arithmetic, law_add_sub, law_div_after, law_div_undo, law_minus_plus, law_minus_times,
    law_mul_comm, law_mul_one, law_mul_sub, law_nat_add, law_nat_mul, law_nat_one,
    law_plus_assoc, law_plus_comm, law_plus_minus, law_plus_times, law_times_add,
    law_times_one, law_times_times, law_zero_times, lemma_plus_swap, lemma_scalings,
};
use crate::markers::{power, scalar, Float, PVOps};

verus! {

/// The differences of neighbouring points: entry `k` is `P[k + 1] - P[k]`.
pub open spec fn differences<F: Float, P: PVOps<F>>(points: Seq<P>) -> Seq<P> {
    Seq::new((points.len() - 1) as nat, |k: int| points[(k + 1) as int].minus_spec(points[k]))
}

/// Every point of `points`, scaled by `c`.
pub open spec fn scaled<F: Float, P: PVOps<F>>(points: Seq<P>, c: F) -> Seq<P> {
    Seq::new(points.len(), |k: int| points[k].times_spec(c))
}

/// A partial sum of the slope is the partial sum of the curve of
/// differences, taken as many times as the order says.
proof fn lemma_slope_sum_of_differences<F: Float, P: PVOps<F>>(points: Seq<P>, t: F, m: nat)
    requires
        2 <= points.len() <= MAX_ORDER + 1,
        m < points.len(),
        exact_arithmetic::<F, P>(),
    ensures
        slope_sum(points, t, m) == bernstein_sum(differences::<F, P>(points), t, m).times_spec(
            scalar::<F>((points.len() - 1) as nat),
        ),
    decreases m,
{
    let n = (points.len() - 1) as nat;
    let d = differences::<F, P>(points);
    let sn = scalar::<F>(n);
    if m == 0 {
        law_zero_times::<F, P>(sn);
    } else {
        let k = (m - 1) as nat;
        lemma_slope_sum_of_differences(points, t, k);
        let u = F::one_spec().sub_spec(t);
        let x = d[k as int].times_spec(power(t, k)).times_spec(power(u, (n - 1 - k) as nat));
        let c = binomial((n - 1) as nat, k);
        lemma_binomial_bound((n - 1) as nat, k);
        lemma_slope_weight_bound(n, k);
        law_nat_mul::<F>(c as u64, n as u64);
        assert(scalar::<F>(c * n) == scalar::<F>(c).mul_spec(sn));
        law_times_times(x, scalar::<F>(c), sn);
        assert(slope_term(points[k as int], points[(k + 1) as int], t, n, k) == bernstein_term(
            d[k as int],
            t,
            (n - 1) as nat,
            k,
        ).times_spec(sn));
        law_plus_times(
            bernstein_sum(d, t, k),
            bernstein_term(d[k as int], t, (n - 1) as nat, k),
            sn,
        );
    }
}

/// A partial sum of the curve through scaled points is the scaled partial
/// sum.
proof fn lemma_sum_scaled<F: Float, P: PVOps<F>>(points: Seq<P>, c: F, t: F, m: nat)
    requires
        m <= points.len(),
        exact_arithmetic::<F, P>(),
    ensures
        bernstein_sum(scaled(points, c), t, m) == bernstein_sum(points, t, m).times_spec(c),
    decreases m,
{
    if m == 0 {
        law_zero_times::<F, P>(c);
    } else {
        let n = (points.len() - 1) as nat;
        let k = (m - 1) as nat;
        lemma_sum_scaled(points, c, t, k);
        let u = F::one_spec().sub_spec(t);
        let e = power(t, k);
        let f = power(u, (n - k) as nat);
        let b = scalar::<F>(binomial(n, k));
        let w = e.mul_spec(f).mul_spec(b);
        let p = points[k as int];
        lemma_scalings(p.times_spec(c), e, f, b);
        lemma_scalings(p, e, f, b);
        law_times_times(p, c, w);
        law_mul_comm(c, w);
        law_times_times(p, w, c);
        law_plus_times(bernstein_sum(points, t, k), bernstein_term(p, t, n, k), c);
    }
}

/// An interpolation at `k / m`, taken `m` times: `lerp(a, b, k / m) m == a
/// (m - k) + b k`.
proof fn lemma_mix_scaled<F: Float, P: PVOps<F>>(a: P, b: P, k: nat, m: nat)
    requires
        1 <= k <= m <= MAX_ORDER + 1,
        exact_arithmetic::<F, P>(),
    ensures
        lerp_spec(a, b, scalar::<F>(k).div_spec(scalar::<F>(m))).times_spec(scalar::<F>(m))
            == a.times_spec(scalar::<F>((m - k) as nat)).plus_spec(b.times_spec(scalar::<F>(k))),
{
    let one = F::one_spec();
    let sk = scalar::<F>(k);
    let sm = scalar::<F>(m);
    let smk = scalar::<F>((m - k) as nat);
    let f = sk.div_spec(sm);
    let g = one.sub_spec(f);
    // f m == k
    law_mul_comm(f, sm);
    law_div_after(sm, sk, sm);
    law_mul_comm(sm, sk);
    law_div_undo(sk, m as u64);
    assert(f.mul_spec(sm) == sk);
    // g m == m - k
    law_mul_comm(g, sm);
    law_mul_sub(sm, one, f);
    law_mul_one(sm);
    law_nat_add::<F>((m - k) as u64, k as u64);
    law_add_sub(smk, sk);
    assert(g.mul_spec(sm) == smk);
    law_plus_times(a.times_spec(g), b.times_spec(f), sm);
    law_times_times(a, g, sm);
    law_times_times(b, f, sm);
}

/// `p (k + 1) == p k + p`
proof fn lemma_one_more<F: Float, P: PVOps<F>>(p: P, k: nat)
    requires
        k <= MAX_ORDER + 1,
        exact_arithmetic::<F, P>(),
    ensures
        p.times_spec(scalar::<F>(k + 1)) == p.times_spec(scalar::<F>(k)).plus_spec(p),
{
    law_nat_add::<F>(k as u64, 1);
    law_nat_one::<F>();
    law_times_add(p, scalar::<F>(k), F::one_spec());
    law_times_one::<F, P>(p);
}

/// `((a - b) + (c - d)) + ((b + p) + d) == a + (c + p)`
proof fn lemma_differences_filled<F: Float, P: PVOps<F>>(a: P, b: P, c: P, d: P, p: P)
    requires
        exact_arithmetic::<F, P>(),
    ensures
        a.minus_spec(b).plus_spec(c.minus_spec(d)).plus_spec(b.plus_spec(p).plus_spec(d))
            == a.plus_spec(c.plus_spec(p)),
{
    let x1 = a.minus_spec(b);
    let x2 = c.minus_spec(d);
    law_plus_assoc::<F, P>(b, p, d);
    law_plus_comm::<F, P>(p, d);
    law_plus_assoc::<F, P>(b, d, p);
    law_plus_assoc::<F, P>(x1.plus_spec(x2), b.plus_spec(d), p);
    lemma_plus_swap::<F, P>(x1, x2, b, d);
    law_minus_plus::<F, P>(a, b);
    law_minus_plus::<F, P>(c, d);
    law_plus_assoc::<F, P>(a, c, p);
}

/// A point that makes `x` when `y` is added to it is `x - y`.
proof fn lemma_rest_of<F: Float, P: PVOps<F>>(z: P, x: P, y: P)
    requires
        exact_arithmetic::<F, P>(),
        z.plus_spec(y) == x,
    ensures
        z == x.minus_spec(y),
{
    law_plus_minus::<F, P>(z, y);
}

/// A point of the elevated curve, taken `n + 1` times, with `n` the order:
/// `Q[k] (n + 1) == P[k] (n + 1 - k) + P[k - 1] k`.
proof fn lemma_raised_point_scaled<F: Float, P: PVOps<F>>(points: Seq<P>, k: nat)
    requires
        1 <= k < points.len() <= MAX_ORDER,
        exact_arithmetic::<F, P>(),
    ensures
        elevated_points::<F, P>(points)[k as int].times_spec(scalar::<F>(points.len()))
            == points[k as int].times_spec(scalar::<F>((points.len() - k) as nat)).plus_spec(
            points[k - 1].times_spec(scalar::<F>(k)),
        ),
{
    lemma_mix_scaled::<F, P>(points[k as int], points[k - 1], k, points.len());
}

/// The difference `k` of the elevated points, taken `n + 1` times, is the
/// elevated difference `k`, taken `n` times, with `n` the order.
proof fn lemma_raised_difference<F: Float, P: PVOps<F>>(points: Seq<P>, k: nat)
    requires
        2 <= points.len() <= MAX_ORDER,
        k < points.len(),
        exact_arithmetic::<F, P>(),
    ensures
        differences::<F, P>(elevated_points::<F, P>(points))[k as int].times_spec(
            scalar::<F>(points.len()),
        ) == elevated_points::<F, P>(differences::<F, P>(points))[k as int].times_spec(
            scalar::<F>((points.len() - 1) as nat),
        ),
{
    let n = (points.len() - 1) as nat;
    let raised = elevated_points::<F, P>(points);
    let d = differences::<F, P>(points);
    let up = scalar::<F>(n + 1);
    let sn = scalar::<F>(n);
    let q1 = raised[(k + 1) as int];
    let q0 = raised[k as int];
    law_minus_times(q1, q0, up);
    if k == 0 {
        // (P[1] n + P[0]) - P[0] (n + 1), against (P[1] - P[0]) n
        let a = points[1].times_spec(sn);
        let b = points[0].times_spec(sn);
        let p = points[0];
        lemma_raised_point_scaled::<F, P>(points, 1);
        law_nat_one::<F>();
        law_times_one::<F, P>(p);
        lemma_one_more::<F, P>(p, n);
        law_minus_times(points[1], points[0], sn);
        let z = a.minus_spec(b);
        law_plus_assoc::<F, P>(z, b, p);
        law_minus_plus::<F, P>(a, b);
        lemma_rest_of::<F, P>(z, a.plus_spec(p), b.plus_spec(p));
    } else if k == n {
        // P[n] (n + 1) - (P[n] + P[n - 1] n), against (P[n] - P[n - 1]) n
        let a = points[n as int].times_spec(sn);
        let b = points[n - 1].times_spec(sn);
        let p = points[n as int];
        lemma_raised_point_scaled::<F, P>(points, n);
        law_nat_one::<F>();
        law_times_one::<F, P>(p);
        lemma_one_more::<F, P>(p, n);
        law_minus_times(points[n as int], points[n - 1], sn);
        let z = a.minus_spec(b);
        law_plus_comm::<F, P>(p, b);
        law_plus_assoc::<F, P>(z, b, p);
        law_minus_plus::<F, P>(a, b);
        lemma_rest_of::<F, P>(z, a.plus_spec(p), p.plus_spec(b));
    } else {
        let pk1 = points[(k + 1) as int];
        let pk = points[k as int];
        let pk0 = points[k - 1];
        let snk = scalar::<F>((n - k) as nat);
        let sk = scalar::<F>(k);
        let a = pk1.times_spec(snk);
        let b = pk.times_spec(snk);
        let c = pk.times_spec(sk);
        let dd = pk0.times_spec(sk);
        lemma_raised_point_scaled::<F, P>(points, k + 1);
        lemma_raised_point_scaled::<F, P>(points, k);
        lemma_one_more::<F, P>(pk, k);
        lemma_one_more::<F, P>(pk, (n - k) as nat);
        // the elevated difference, taken n times
        lemma_mix_scaled::<F, P>(d[k as int], d[k - 1], k, n);
        law_minus_times(pk1, pk, snk);
        law_minus_times(pk, pk0, sk);
        let z = a.minus_spec(b).plus_spec(c.minus_spec(dd));
        lemma_differences_filled::<F, P>(a, b, c, dd, pk);
        lemma_rest_of::<F, P>(z, a.plus_spec(c.plus_spec(pk)), b.plus_spec(pk).plus_spec(dd));
    }
}

/// The slope of a curve is the curve through the differences of its control
/// points, taken as many times as the order says.
pub proof fn lemma_slope_of_differences<F: Float, P: PVOps<F>>(points: Seq<P>, t: F)
    requires
        2 <= points.len() <= MAX_ORDER + 1,
        exact_arithmetic::<F, P>(),
    ensures
        bezier_slope(points, t) == bezier_point(differences::<F, P>(points), t).times_spec(
            scalar::<F>((points.len() - 1) as nat),
        ),
{
    lemma_slope_sum_of_differences(points, t, (points.len() - 1) as nat);
}

/// Elevation does not change the slope: at every `t` the slope of the
/// elevated curve is the slope of the curve, where the arithmetic is exact.
pub proof fn lemma_elevation_keeps_slope<F: Float, P: PVOps<F>>(points: Seq<P>, t: F)
    requires
        2 <= points.len() <= MAX_ORDER,
        exact_arithmetic::<F, P>(),
    ensures
        bezier_slope(elevated_points::<F, P>(points), t) == bezier_slope(points, t),
{
    let n = (points.len() - 1) as nat;
    let raised = elevated_points::<F, P>(points);
    let d = differences::<F, P>(points);
    let dq = differences::<F, P>(raised);
    let e = elevated_points::<F, P>(d);
    let up = scalar::<F>(n + 1);
    let sn = scalar::<F>(n);
    lemma_slope_of_differences(raised, t);
    lemma_slope_of_differences(points, t);
    lemma_sum_scaled(dq, up, t, dq.len());
    lemma_sum_scaled(e, sn, t, e.len());
    assert(scaled(dq, up) =~= scaled(e, sn)) by {
        assert forall|k: int| 0 <= k < dq.len() implies #[trigger] dq[k].times_spec(up)
            == e[k].times_spec(sn) by {
            lemma_raised_difference::<F, P>(points, k as nat);
        }
    }
    lemma_elevation_keeps_curve(d, t);
}

} // verus!
