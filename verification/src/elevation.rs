//! Degree elevation does not change a curve, where the arithmetic is exact.

use vstd::prelude::*;
use crate::algebra::{bernstein_sum, bernstein_term, bezier_point, elevated_points, lerp_spec};
use crate::binomial::{
    binomial, factorial_spec, lemma_binomial_bound, lemma_binomial_ends, lemma_binomial_factorial,
    lemma_factorial_positive, lemma_slope_weight_bound, MAX_ORDER,
};
use crate::exact::{
    div_laws, exact_arithmetic, law_add_sub, law_div_after, law_div_undo, law_mul_one,
    law_mul_sub, law_nat_add, law_nat_mul, law_plus_times, law_power_next, law_sub_add,
    law_times_add, law_times_one, law_times_times, lemma_first_sums, lemma_last_sum,
    lemma_scalings, lemma_sums_joined, lemma_weight_taken_in, lemma_weights_moved, mul_laws,
    nat_laws, sub_laws,
};
use crate::markers::{power, scalar, Float, PVOps};

verus! {

/// `C(n + 1, k) k == C(n, k - 1) (n + 1)`
pub proof fn lemma_binomial_absorb(n: nat, k: nat)
    requires
        1 <= k <= n + 1,
    ensures
        binomial(n + 1, k) * k == binomial(n, (k - 1) as nat) * (n + 1),
{
    lemma_binomial_factorial(n + 1, k);
    lemma_binomial_factorial(n, (k - 1) as nat);
    lemma_factorial_positive((k - 1) as nat);
    lemma_factorial_positive((n + 1 - k) as nat);
    let x = binomial(n + 1, k);
    let y = binomial(n, (k - 1) as nat);
    let fk1 = factorial_spec((k - 1) as nat);
    let fr = factorial_spec((n + 1 - k) as nat);
    let fnn = factorial_spec(n);
    assert(factorial_spec(k) == k * fk1);
    assert(factorial_spec(n + 1) == (n + 1) * fnn);
    assert(x * ((k * fk1) * fr) == (n + 1) * fnn);
    assert(y * (fk1 * fr) == fnn);
    let d = fk1 * fr;
    assert(d >= 1) by (nonlinear_arith)
        requires
            d == fk1 * fr,
            fk1 >= 1,
            fr >= 1,
    ;
    assert((x * k) * d == (y * (n + 1)) * d) by (nonlinear_arith)
        requires
            x * ((k * fk1) * fr) == (n + 1) * fnn,
            y * (fk1 * fr) == fnn,
            d == fk1 * fr,
    ;
    assert(x * k == y * (n + 1)) by (nonlinear_arith)
        requires
            (x * k) * d == (y * (n + 1)) * d,
            d >= 1,
    ;
}

/// The weight that elevation gives the point before: `C(n + 1, k) (k / (n +
/// 1)) == C(n, k - 1)`, in scalars.
proof fn lemma_weight_before<F: Float>(n: nat, k: nat)
    requires
        1 <= k <= n < MAX_ORDER,
        div_laws::<F>(),
        nat_laws::<F>(),
    ensures
        scalar::<F>(binomial(n + 1, k)).mul_spec(
            scalar::<F>(k).div_spec(scalar::<F>(n + 1)),
        ) == scalar::<F>(binomial(n, (k - 1) as nat)),
{
    lemma_binomial_absorb(n, k);
    lemma_binomial_bound(n + 1, k);
    lemma_binomial_bound(n, (k - 1) as nat);
    lemma_slope_weight_bound(n + 1, (k - 1) as nat);
    let x = binomial(n + 1, k);
    let y = binomial(n, (k - 1) as nat);
    assert(y * (n + 1) == x * k);
    assert((x as u64) * (k as u64) == x * k);
    assert((y as u64) * ((n + 1) as u64) == x * k);
    let sx = F::from_u64_spec(x as u64);
    let sy = F::from_u64_spec(y as u64);
    let sk = F::from_u64_spec(k as u64);
    let sn = F::from_u64_spec((n + 1) as u64);
    law_div_after(sx, sk, sn);
    law_nat_mul::<F>(x as u64, k as u64);
    law_nat_mul::<F>(y as u64, (n + 1) as u64);
    law_div_undo(sy, (n + 1) as u64);
}

/// The weight that elevation gives the point itself: `C(n + 1, k) (1 - k /
/// (n + 1)) == C(n, k)`, in scalars.
proof fn lemma_weight_self<F: Float>(n: nat, k: nat)
    requires
        1 <= k <= n < MAX_ORDER,
        mul_laws::<F>(),
        sub_laws::<F>(),
        div_laws::<F>(),
        nat_laws::<F>(),
    ensures
        scalar::<F>(binomial(n + 1, k)).mul_spec(
            F::one_spec().sub_spec(scalar::<F>(k).div_spec(scalar::<F>(n + 1))),
        ) == scalar::<F>(binomial(n, k)),
{
    lemma_weight_before::<F>(n, k);
    lemma_binomial_bound(n + 1, k);
    lemma_binomial_bound(n, (k - 1) as nat);
    lemma_binomial_bound(n, k);
    let x = binomial(n + 1, k);
    let y = binomial(n, (k - 1) as nat);
    let z = binomial(n, k);
    assert(x == y + z);
    let sx = scalar::<F>(x);
    let sy = scalar::<F>(y);
    let sz = scalar::<F>(z);
    let f = scalar::<F>(k).div_spec(scalar::<F>(n + 1));
    law_mul_sub(sx, F::one_spec(), f);
    law_mul_one(sx);
    law_nat_add::<F>(z as u64, y as u64);
    law_add_sub(sz, sy);
}

/// The first term of the elevated curve is the first term of the curve,
/// scaled by `1 - t`.
proof fn lemma_first_term<F: Float, P: PVOps<F>>(points: Seq<P>, t: F)
    requires
        1 <= points.len() <= MAX_ORDER,
        exact_arithmetic::<F, P>(),
    ensures
        bernstein_term(elevated_points::<F, P>(points)[0], t, points.len(), 0) == bernstein_term(
            points[0],
            t,
            (points.len() - 1) as nat,
            0,
        ).times_spec(F::one_spec().sub_spec(t)),
{
    let n = (points.len() - 1) as nat;
    let u = F::one_spec().sub_spec(t);
    let x = power(t, 0);
    let un = power(u, n);
    let s1 = scalar::<F>(1);
    let p = points[0];
    lemma_binomial_ends(n);
    lemma_binomial_ends(n + 1);
    law_power_next(u, n as u32);
    assert(power(u, n + 1) == un.mul_spec(u));
    lemma_scalings(p, x, un.mul_spec(u), s1);
    lemma_scalings(p, x, un, s1);
    law_times_times(p, x.mul_spec(un).mul_spec(s1), u);
    lemma_weights_moved(x, un, u, s1);
}

/// The last term of the elevated curve is the last term of the curve,
/// scaled by `t`.
proof fn lemma_last_term<F: Float, P: PVOps<F>>(points: Seq<P>, t: F)
    requires
        1 <= points.len() <= MAX_ORDER,
        exact_arithmetic::<F, P>(),
    ensures
        bernstein_term(
            elevated_points::<F, P>(points)[points.len() as int],
            t,
            points.len(),
            points.len(),
        ) == bernstein_term(
            points[points.len() - 1],
            t,
            (points.len() - 1) as nat,
            (points.len() - 1) as nat,
        ).times_spec(t),
{
    let n = (points.len() - 1) as nat;
    let u = F::one_spec().sub_spec(t);
    let tn = power(t, n);
    let u0 = power(u, 0);
    let s1 = scalar::<F>(1);
    let p = points[n as int];
    lemma_binomial_ends(n);
    lemma_binomial_ends(n + 1);
    law_power_next(t, n as u32);
    assert(power(t, n + 1) == tn.mul_spec(t));
    lemma_scalings(p, tn.mul_spec(t), u0, s1);
    lemma_scalings(p, tn, u0, s1);
    law_times_times(p, tn.mul_spec(u0).mul_spec(s1), t);
    lemma_weights_moved(tn, u0, t, s1);
}

/// A term between the ends of the elevated curve is made of the two terms
/// of the curve around it: `T'(k) == T(k) (1 - t) + T(k - 1) t`.
proof fn lemma_mid_term<F: Float, P: PVOps<F>>(points: Seq<P>, t: F, k: nat)
    requires
        1 <= k < points.len() <= MAX_ORDER,
        exact_arithmetic::<F, P>(),
    ensures
        bernstein_term(elevated_points::<F, P>(points)[k as int], t, points.len(), k)
            == bernstein_term(points[k as int], t, (points.len() - 1) as nat, k).times_spec(
            F::one_spec().sub_spec(t),
        ).plus_spec(
            bernstein_term(
                points[k - 1],
                t,
                (points.len() - 1) as nat,
                (k - 1) as nat,
            ).times_spec(t),
        ),
{
    let n = (points.len() - 1) as nat;
    let u = F::one_spec().sub_spec(t);
    let f = scalar::<F>(k).div_spec(scalar::<F>(n + 1));
    let g = F::one_spec().sub_spec(f);
    let pk = points[k as int];
    let pk1 = points[k - 1];
    let q = elevated_points::<F, P>(points)[k as int];
    assert(q == lerp_spec(pk, pk1, f));
    let tk = power(t, k);
    let tk1 = power(t, (k - 1) as nat);
    let unk = power(u, (n - k) as nat);
    let un1k = power(u, (n + 1 - k) as nat);
    let c_up = scalar::<F>(binomial(n + 1, k));
    let ck = scalar::<F>(binomial(n, k));
    let ck1 = scalar::<F>(binomial(n, (k - 1) as nat));
    let w = tk.mul_spec(un1k).mul_spec(c_up);
    law_power_next(u, (n - k) as u32);
    law_power_next(t, (k - 1) as u32);
    assert(un1k == unk.mul_spec(u) && tk == tk1.mul_spec(t));
    lemma_weight_self::<F>(n, k);
    lemma_weight_before::<F>(n, k);
    // the term of the elevated curve, as two scaled points
    lemma_scalings(q, tk, un1k, c_up);
    law_plus_times(pk.times_spec(g), pk1.times_spec(f), w);
    law_times_times(pk, g, w);
    law_times_times(pk1, f, w);
    assert(q.times_spec(w) == pk.times_spec(g.mul_spec(w)).plus_spec(
        pk1.times_spec(f.mul_spec(w)),
    ));
    // their weights
    lemma_weights_moved(tk, unk, u, c_up);
    lemma_weight_taken_in(tk.mul_spec(unk), u, c_up, g);
    assert(g.mul_spec(w) == tk.mul_spec(unk).mul_spec(ck).mul_spec(u));
    lemma_weights_moved(tk1, un1k, t, c_up);
    lemma_weight_taken_in(tk1.mul_spec(un1k), t, c_up, f);
    assert(f.mul_spec(w) == tk1.mul_spec(un1k).mul_spec(ck1).mul_spec(t));
    // the two terms of the curve, scaled
    lemma_scalings(pk, tk, unk, ck);
    lemma_scalings(pk1, tk1, un1k, ck1);
    law_times_times(pk, tk.mul_spec(unk).mul_spec(ck), u);
    law_times_times(pk1, tk1.mul_spec(un1k).mul_spec(ck1), t);
}

/// A partial sum of the elevated curve is made of two partial sums of the
/// curve: `S'(m) == S(m) (1 - t) + S(m - 1) t`.
proof fn lemma_partial_sum<F: Float, P: PVOps<F>>(points: Seq<P>, t: F, m: nat)
    requires
        1 <= m <= points.len() <= MAX_ORDER,
        exact_arithmetic::<F, P>(),
    ensures
        bernstein_sum(elevated_points::<F, P>(points), t, m) == bernstein_sum(
            points,
            t,
            m,
        ).times_spec(F::one_spec().sub_spec(t)).plus_spec(
            bernstein_sum(points, t, (m - 1) as nat).times_spec(t),
        ),
    decreases m,
{
    let n = (points.len() - 1) as nat;
    let u = F::one_spec().sub_spec(t);
    let raised = elevated_points::<F, P>(points);
    let zero = P::origin_spec();
    if m == 1 {
        lemma_first_term(points, t);
        let t0 = bernstein_term(points[0], t, n, 0);
        assert(bernstein_sum(raised, t, 0) == zero);
        assert(bernstein_sum(points, t, 0) == zero);
        assert(bernstein_sum(points, t, 1) == zero.plus_spec(t0));
        assert(bernstein_sum(raised, t, 1) == zero.plus_spec(t0.times_spec(u)));
        lemma_first_sums::<F, P>(t0, u, t);
    } else {
        lemma_partial_sum(points, t, (m - 1) as nat);
        lemma_mid_term(points, t, (m - 1) as nat);
        let sm = bernstein_sum(points, t, (m - 1) as nat);
        let sm1 = bernstein_sum(points, t, (m - 2) as nat);
        let tm = bernstein_term(points[m - 1], t, n, (m - 1) as nat);
        let tm1 = bernstein_term(points[m - 2], t, n, (m - 2) as nat);
        assert(bernstein_sum(points, t, m) == sm.plus_spec(tm));
        assert(sm == sm1.plus_spec(tm1));
        assert(bernstein_sum(raised, t, m) == bernstein_sum(raised, t, (m - 1) as nat).plus_spec(
            bernstein_term(raised[m - 1], t, points.len(), (m - 1) as nat),
        ));
        lemma_sums_joined::<F, P>(sm, sm1, tm, tm1, u, t);
    }
}

/// Elevation does not change the curve: at every `t` the elevated curve is
/// where the curve is, where the arithmetic is exact.
pub proof fn lemma_elevation_keeps_curve<F: Float, P: PVOps<F>>(points: Seq<P>, t: F)
    requires
        1 <= points.len() <= MAX_ORDER,
        exact_arithmetic::<F, P>(),
    ensures
        bezier_point(elevated_points::<F, P>(points), t) == bezier_point(points, t),
{
    let n = (points.len() - 1) as nat;
    let u = F::one_spec().sub_spec(t);
    let raised = elevated_points::<F, P>(points);
    lemma_partial_sum(points, t, points.len());
    lemma_last_term(points, t);
    let whole = bernstein_sum(points, t, points.len());
    let sn = bernstein_sum(points, t, n);
    let tn = bernstein_term(points[n as int], t, n, n);
    assert(whole == sn.plus_spec(tn));
    assert(bezier_point(raised, t) == bernstein_sum(raised, t, points.len()).plus_spec(
        bernstein_term(raised[points.len() as int], t, points.len(), points.len()),
    ));
    lemma_last_sum::<F, P>(whole.times_spec(u), sn, tn, t);
    law_times_add(whole, u, t);
    law_sub_add(F::one_spec(), t);
    law_times_one::<F, P>(whole);
}

} // verus!
