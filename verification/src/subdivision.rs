//! Each part of a subdivision runs along the curve, where the arithmetic is
//! exact: the part before `t` is the curve over `[0, t]`, the part after it
//! the curve over `[t, 1]`, each with its parameter stretched to `[0, 1]`.

use vstd::prelude::*;
use crate::algebra::{
    bernstein_sum, bernstein_term, bezier_point, casteljau_row, lemma_casteljau_row_len, lerp_spec,
    split_left, split_right,
};
use crate::binomial::{binomial, MAX_ORDER};
use crate::casteljau::{lemma_curve_of_one_point, lemma_curve_recurrence};
use crate::exact::{
    exact_arithmetic, law_add_assoc, law_mul_comm, law_plus_assoc, law_plus_times, law_plus_zero,
    law_sub_add, law_times_add, law_times_times, law_zero_times, lemma_rest_of_one, lemma_scalings,
    lemma_sums_joined, lemma_whole_of, mul_laws, sub_laws,
};
use crate::markers::{power, scalar, Float, PVOps};

verus! {

/// Every point of `mixed` is the interpolation at `t` between the points of
/// `first` and `second` in its place.
pub open spec fn mixed_of<F: Float, P: PVOps<F>>(
    mixed: Seq<P>,
    first: Seq<P>,
    second: Seq<P>,
    t: F,
) -> bool {
    &&& mixed.len() == first.len()
    &&& mixed.len() == second.len()
    &&& forall|i: int|
        0 <= i < mixed.len() ==> #[trigger] mixed[i] == lerp_spec(first[i], second[i], t)
}

/// A term of the curve through mixed points is the mix of the terms.
proof fn lemma_term_mixed<F: Float, P: PVOps<F>>(a: P, b: P, t: F, x: F, n: nat, k: nat)
    requires
        exact_arithmetic::<F, P>(),
    ensures
        bernstein_term(lerp_spec(a, b, t), x, n, k) == lerp_spec(
            bernstein_term(a, x, n, k),
            bernstein_term(b, x, n, k),
            t,
        ),
{
    let u = F::one_spec().sub_spec(t);
    let e = power(x, k);
    let f = power(F::one_spec().sub_spec(x), (n - k) as nat);
    let c = scalar::<F>(binomial(n, k));
    let w = e.mul_spec(f).mul_spec(c);
    let z = lerp_spec(a, b, t);
    lemma_scalings(z, e, f, c);
    lemma_scalings(a, e, f, c);
    lemma_scalings(b, e, f, c);
    law_plus_times(a.times_spec(u), b.times_spec(t), w);
    law_times_times(a, u, w);
    law_times_times(b, t, w);
    law_mul_comm(u, w);
    law_mul_comm(t, w);
    law_times_times(a, w, u);
    law_times_times(b, w, t);
}

/// A partial sum of the curve through mixed points is the mix of the
/// partial sums.
proof fn lemma_sum_mixed<F: Float, P: PVOps<F>>(
    mixed: Seq<P>,
    first: Seq<P>,
    second: Seq<P>,
    t: F,
    x: F,
    m: nat,
)
    requires
        exact_arithmetic::<F, P>(),
        mixed_of(mixed, first, second, t),
        m <= mixed.len(),
    ensures
        bernstein_sum(mixed, x, m) == lerp_spec(
            bernstein_sum(first, x, m),
            bernstein_sum(second, x, m),
            t,
        ),
    decreases m,
{
    let u = F::one_spec().sub_spec(t);
    let zero = P::origin_spec();
    if m == 0 {
        law_zero_times::<F, P>(u);
        law_zero_times::<F, P>(t);
        law_plus_zero::<F, P>(zero);
    } else {
        let n = (mixed.len() - 1) as nat;
        let k = (m - 1) as nat;
        lemma_sum_mixed(mixed, first, second, t, x, k);
        assert(mixed[k as int] == lerp_spec(first[k as int], second[k as int], t));
        lemma_term_mixed(first[k as int], second[k as int], t, x, n, k);
        lemma_sums_joined::<F, P>(
            bernstein_sum(first, x, k),
            bernstein_sum(second, x, k),
            bernstein_term(first[k as int], x, n, k),
            bernstein_term(second[k as int], x, n, k),
            u,
            t,
        );
    }
}

/// The curve through mixed points is the mix of the curves: a curve depends
/// linearly on its control points.
pub proof fn lemma_curve_mixed<F: Float, P: PVOps<F>>(
    mixed: Seq<P>,
    first: Seq<P>,
    second: Seq<P>,
    t: F,
    x: F,
)
    requires
        exact_arithmetic::<F, P>(),
        mixed_of(mixed, first, second, t),
    ensures
        bezier_point(mixed, x) == lerp_spec(bezier_point(first, x), bezier_point(second, x), t),
{
    lemma_sum_mixed(mixed, first, second, t, x, mixed.len());
}

/// Without the last control point the triangle loses the last entry of
/// every row, and without the first control point the first entry.
pub proof fn lemma_rows_of_parts<F: Float, P: PVOps<F>>(points: Seq<P>, t: F, r: nat)
    requires
        r < points.len(),
    ensures
        casteljau_row(points, t, r).len() == points.len() - r,
        casteljau_row(points.drop_last(), t, r) == casteljau_row(points, t, r).drop_last(),
        casteljau_row(points.drop_first(), t, r) == casteljau_row(points, t, r).drop_first(),
    decreases r,
{
    lemma_casteljau_row_len(points, t, r);
    lemma_casteljau_row_len(points.drop_last(), t, r);
    lemma_casteljau_row_len(points.drop_first(), t, r);
    if r > 0 {
        lemma_rows_of_parts(points, t, (r - 1) as nat);
        lemma_casteljau_row_len(points, t, (r - 1) as nat);
        lemma_casteljau_row_len(points.drop_last(), t, (r - 1) as nat);
        lemma_casteljau_row_len(points.drop_first(), t, (r - 1) as nat);
    }
    assert(casteljau_row(points.drop_last(), t, r) =~= casteljau_row(points, t, r).drop_last());
    assert(casteljau_row(points.drop_first(), t, r) =~= casteljau_row(points, t, r).drop_first());
}

/// `(1 - x) + (1 - t) x == 1 - x t`
proof fn lemma_param_before<F: Float>(t: F, x: F)
    requires
        mul_laws::<F>(),
        sub_laws::<F>(),
    ensures
        F::one_spec().sub_spec(x).add_spec(F::one_spec().sub_spec(t).mul_spec(x))
            == F::one_spec().sub_spec(x.mul_spec(t)),
{
    let one = F::one_spec();
    let u = one.sub_spec(t);
    let e = one.sub_spec(x).add_spec(u.mul_spec(x));
    law_add_assoc(one.sub_spec(x), u.mul_spec(x), x.mul_spec(t));
    law_mul_comm(x, t);
    lemma_whole_of(t, x);
    law_sub_add(one, x);
    lemma_rest_of_one(e, x.mul_spec(t));
}

/// The mix at `x` of a point and of its mix at `t` with another is their
/// mix at `x t`.
proof fn lemma_mix_before<F: Float, P: PVOps<F>>(a: P, b: P, t: F, x: F)
    requires
        exact_arithmetic::<F, P>(),
    ensures
        lerp_spec(a, lerp_spec(a, b, t), x) == lerp_spec(a, b, x.mul_spec(t)),
{
    let one = F::one_spec();
    let u = one.sub_spec(t);
    law_plus_times(a.times_spec(u), b.times_spec(t), x);
    law_times_times(a, u, x);
    law_times_times(b, t, x);
    law_mul_comm(t, x);
    law_plus_assoc::<F, P>(
        a.times_spec(one.sub_spec(x)),
        a.times_spec(u.mul_spec(x)),
        b.times_spec(x.mul_spec(t)),
    );
    law_times_add(a, one.sub_spec(x), u.mul_spec(x));
    lemma_param_before(t, x);
}

/// The part of a subdivision before `t` runs along the curve: its point at
/// `x` is the point of the curve at `x t`. With `x = s / t` that is the
/// point of the curve at `s`.
pub proof fn lemma_left_part_on_curve<F: Float, P: PVOps<F>>(points: Seq<P>, t: F, x: F)
    requires
        1 <= points.len() <= MAX_ORDER + 1,
        exact_arithmetic::<F, P>(),
    ensures
        bezier_point(split_left(points, t), x) == bezier_point(points, x.mul_spec(t)),
    decreases points.len(),
{
    let left = split_left(points, t);
    let at = x.mul_spec(t);
    if points.len() == 1 {
        assert(left =~= seq![points[0]]);
        assert(points =~= seq![points[0]]);
        lemma_curve_of_one_point(points[0], x);
        lemma_curve_of_one_point(points[0], at);
    } else {
        let head = points.drop_last();
        let tail = points.drop_first();
        let left_head = split_left(head, t);
        let left_tail = split_left(tail, t);
        assert forall|r: nat| r < points.len() implies {
            let row = #[trigger] casteljau_row(points, t, r);
            &&& row.len() == points.len() - r
            &&& casteljau_row(head, t, r) == row.drop_last()
            &&& casteljau_row(tail, t, r) == row.drop_first()
        } by {
            lemma_rows_of_parts(points, t, r);
        }
        assert(left.drop_last() =~= left_head);
        assert(mixed_of(left.drop_first(), left_head, left_tail, t)) by {
            assert forall|i: int| 0 <= i < left.len() - 1 implies #[trigger] left.drop_first()[i]
                == lerp_spec(left_head[i], left_tail[i], t) by {
                let row = casteljau_row(points, t, i as nat);
                assert(casteljau_row(points, t, (i + 1) as nat)[0] == lerp_spec(
                    row[0],
                    row[1],
                    t,
                ));
            }
        }
        lemma_curve_recurrence(left, x);
        lemma_curve_mixed(left.drop_first(), left_head, left_tail, t, x);
        lemma_left_part_on_curve(head, t, x);
        lemma_left_part_on_curve(tail, t, x);
        lemma_curve_recurrence(points, at);
        lemma_mix_before(bezier_point(head, at), bezier_point(tail, at), t, x);
    }
}

/// The parameter of the curve that belongs to the parameter `x` of the part
/// after `t`: `t (1 - x) + x`, which is `t` for `x = 0` and 1 for `x = 1`.
pub open spec fn param_after<F: Float>(t: F, x: F) -> F {
    t.mul_spec(F::one_spec().sub_spec(x)).add_spec(x)
}

/// `(1 - t) (1 - x) == 1 - (t (1 - x) + x)`
proof fn lemma_param_after<F: Float>(t: F, x: F)
    requires
        mul_laws::<F>(),
        sub_laws::<F>(),
    ensures
        F::one_spec().sub_spec(t).mul_spec(F::one_spec().sub_spec(x)) == F::one_spec().sub_spec(
            param_after(t, x),
        ),
{
    let one = F::one_spec();
    let u = one.sub_spec(t);
    let v = one.sub_spec(x);
    law_add_assoc(u.mul_spec(v), t.mul_spec(v), x);
    lemma_whole_of(t, v);
    law_sub_add(one, x);
    lemma_rest_of_one(u.mul_spec(v), param_after(t, x));
}

/// The mix at `x` of a point with the mix at `t` of another and that point
/// is the mix of the two at `t (1 - x) + x`.
proof fn lemma_mix_after<F: Float, P: PVOps<F>>(a: P, b: P, t: F, x: F)
    requires
        exact_arithmetic::<F, P>(),
    ensures
        lerp_spec(lerp_spec(a, b, t), b, x) == lerp_spec(a, b, param_after(t, x)),
{
    let one = F::one_spec();
    let u = one.sub_spec(t);
    let v = one.sub_spec(x);
    law_plus_times(a.times_spec(u), b.times_spec(t), v);
    law_times_times(a, u, v);
    law_times_times(b, t, v);
    law_plus_assoc::<F, P>(
        a.times_spec(u.mul_spec(v)),
        b.times_spec(t.mul_spec(v)),
        b.times_spec(x),
    );
    law_times_add(b, t.mul_spec(v), x);
    lemma_param_after(t, x);
}

/// The part of a subdivision after `t` runs along the curve: its point at
/// `x` is the point of the curve at `t (1 - x) + x`. With `x = (s - t) / (1
/// - t)` that is the point of the curve at `s`.
pub proof fn lemma_right_part_on_curve<F: Float, P: PVOps<F>>(points: Seq<P>, t: F, x: F)
    requires
        1 <= points.len() <= MAX_ORDER + 1,
        exact_arithmetic::<F, P>(),
    ensures
        bezier_point(split_right(points, t), x) == bezier_point(points, param_after(t, x)),
    decreases points.len(),
{
    let right = split_right(points, t);
    let at = param_after(t, x);
    if points.len() == 1 {
        assert(right =~= seq![points[0]]);
        assert(points =~= seq![points[0]]);
        lemma_curve_of_one_point(points[0], x);
        lemma_curve_of_one_point(points[0], at);
    } else {
        let n = (points.len() - 1) as nat;
        let head = points.drop_last();
        let tail = points.drop_first();
        let right_head = split_right(head, t);
        let right_tail = split_right(tail, t);
        assert forall|r: nat| r < points.len() implies {
            let row = #[trigger] casteljau_row(points, t, r);
            &&& row.len() == points.len() - r
            &&& casteljau_row(head, t, r) == row.drop_last()
            &&& casteljau_row(tail, t, r) == row.drop_first()
        } by {
            lemma_rows_of_parts(points, t, r);
        }
        assert(right.drop_first() =~= right_tail) by {
            assert forall|i: int| 0 <= i < n implies #[trigger] right.drop_first()[i]
                == right_tail[i] by {
                let row = casteljau_row(points, t, (n - 1 - i) as nat);
                assert(casteljau_row(tail, t, (n - 1 - i) as nat)[i] == row[i + 1]);
            }
        }
        assert(mixed_of(right.drop_last(), right_head, right_tail, t)) by {
            assert forall|i: int| 0 <= i < n implies #[trigger] right.drop_last()[i] == lerp_spec(
                right_head[i],
                right_tail[i],
                t,
            ) by {
                let row = casteljau_row(points, t, (n - 1 - i) as nat);
                assert(casteljau_row(points, t, (n - i) as nat)[i] == lerp_spec(
                    row[i],
                    row[i + 1],
                    t,
                ));
                assert(casteljau_row(head, t, (n - 1 - i) as nat)[i] == row[i]);
                assert(casteljau_row(tail, t, (n - 1 - i) as nat)[i] == row[i + 1]);
            }
        }
        lemma_curve_recurrence(right, x);
        lemma_curve_mixed(right.drop_last(), right_head, right_tail, t, x);
        lemma_right_part_on_curve(head, t, x);
        lemma_right_part_on_curve(tail, t, x);
        lemma_curve_recurrence(points, at);
        lemma_mix_after(bezier_point(head, at), bezier_point(tail, at), t, x);
    }
}

/// The curve at `s` is the part before `t` at `s / t`, where the division
/// by `t` can be undone, as it can for every `t` but 0.
pub proof fn lemma_left_part_at<F: Float, P: PVOps<F>>(points: Seq<P>, t: F, s: F)
    requires
        1 <= points.len() <= MAX_ORDER + 1,
        exact_arithmetic::<F, P>(),
        s.div_spec(t).mul_spec(t) == s,
    ensures
        bezier_point(points, s) == bezier_point(split_left(points, t), s.div_spec(t)),
{
    lemma_left_part_on_curve(points, t, s.div_spec(t));
}

/// The curve at `s` is the part after `t` at `(s - t) / (1 - t)`, where that
/// parameter leads back to `s`, as it does for every `t` but 1.
pub proof fn lemma_right_part_at<F: Float, P: PVOps<F>>(points: Seq<P>, t: F, s: F)
    requires
        1 <= points.len() <= MAX_ORDER + 1,
        exact_arithmetic::<F, P>(),
        param_after(t, s.sub_spec(t).div_spec(F::one_spec().sub_spec(t))) == s,
    ensures
        bezier_point(points, s) == bezier_point(
            split_right(points, t),
            s.sub_spec(t).div_spec(F::one_spec().sub_spec(t)),
        ),
{
    lemma_right_part_on_curve(points, t, s.sub_spec(t).div_spec(F::one_spec().sub_spec(t)));
}

} // verus!
