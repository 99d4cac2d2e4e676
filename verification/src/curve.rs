//! What every Bézier curve offers, whatever holds its control points, and
//! the iterator over the points of a curve.

use vstd::prelude::*;
use crate::algebra::{
    bezier_point, bezier_slope, elevated_points, in_bounds, in_unit, interp_spec, split_left,
    split_right,
};
use crate::binomial::MAX_ORDER;
use crate::markers::{scalar, Float, Point};

verus! {

/// Bezier curve trait
pub trait BezCurve<F: Float>: Sized {
    type Point: Point<F>;

    /// The type of the curve one order higher. It is itself a curve; its
    /// control points and its well-formedness are named by `raised_points`
    /// and `raised_wf`.
    type Elevated;

    /// The control points, first to last.
    spec fn points(&self) -> Seq<Self::Point>;

    /// The curve has at least one control point, no more than
    /// `MAX_ORDER + 1`, and whatever else its type keeps about them.
    spec fn wf(&self) -> bool;

    /// The control points of an elevated curve.
    spec fn raised_points(e: &Self::Elevated) -> Seq<Self::Point>;

    /// Whether an elevated curve is well-formed.
    spec fn raised_wf(e: &Self::Elevated) -> bool;

    /// The numbers of points from which `from_slice` makes a curve.
    spec fn accepts(len: nat) -> bool;

    /// A well-formed curve has between 1 and `MAX_ORDER + 1` points.
    proof fn lemma_wf_len(&self)
        requires
            self.wf(),
        ensures
            1 <= self.points().len() <= MAX_ORDER + 1,
    ;

    /// Attempt to create a curve from a slice. Fails if the slice's length
    /// does not match the curve's order + 1.
    fn from_slice(slice: &[Self::Point]) -> (r: Option<Self>)
        ensures
            r.is_some() == Self::accepts(slice@.len()),
            r matches Some(c) ==> c.wf() && c.points() == slice@,
    ;

    /// Perform interpolation on the curve for a value of `t` from 0 to 1
    /// inclusive. Returns `None` if `t` is outside of that range.
    fn interp(&self, t: F) -> (r: Option<Self::Point>)
        requires
            self.wf(),
        ensures
            r == interp_spec(self.points(), t),
    {
        if !in_bounds(t) {
            return None;
        }
        Some(self.interp_unbounded(t))
    }

    /// Perform interpolation on the curve with no range bounds
    fn interp_unbounded(&self, t: F) -> (r: Self::Point)
        requires
            self.wf(),
        ensures
            r == bezier_point(self.points(), t),
    ;

    /// Get the slope for the given `t`, bounded on 0 to 1 inclusive. Returns
    /// `None` if `t` is not within bounds.
    fn slope(&self, t: F) -> (r: Option<<Self::Point as Point<F>>::Vector>)
        requires
            self.wf(),
            self.points().len() >= 2,
        ensures
            r == (if in_unit(t) {
                Some(bezier_slope(self.points(), t).into_vector_spec())
            } else {
                None
            }),
    {
        if !in_bounds(t) {
            return None;
        }
        Some(self.slope_unbounded(t))
    }

    /// Get the slope for the given `t` with no range bounds
    fn slope_unbounded(&self, t: F) -> (r: <Self::Point as Point<F>>::Vector)
        requires
            self.wf(),
            self.points().len() >= 2,
        ensures
            r == bezier_slope(self.points(), t).into_vector_spec(),
    ;

    /// Elevate the curve order, getting a curve that is one order higher but
    /// gives the same results upon interpolation
    fn elevate(&self) -> (r: Self::Elevated)
        requires
            self.wf(),
            self.points().len() <= MAX_ORDER,
        ensures
            Self::raised_wf(&r),
            Self::raised_points(&r) == elevated_points::<F, Self::Point>(self.points()),
    ;

    /// Split the curve at the given `t`, bounded on 0 to 1 inclusive.
    /// Returns `None` if `t` is not within bounds.
    fn split(&self, t: F) -> (r: Option<(Self, Self)>)
        requires
            self.wf(),
        ensures
            r.is_some() == in_unit(t),
            r matches Some(halves) ==> {
                &&& halves.0.wf()
                &&& halves.1.wf()
                &&& halves.0.points() == split_left(self.points(), t)
                &&& halves.1.points() == split_right(self.points(), t)
            },
    {
        if !in_bounds(t) {
            return None;
        }
        Some(self.split_unbounded(t))
    }

    /// Split the curve with no range bounds
    fn split_unbounded(&self, t: F) -> (r: (Self, Self))
        requires
            self.wf(),
        ensures
            r.0.wf(),
            r.1.wf(),
            r.0.points() == split_left(self.points(), t),
            r.1.points() == split_right(self.points(), t),
    ;

    /// Gets the order of the curve
    fn order(&self) -> (r: usize)
        requires
            self.wf(),
        ensures
            r == self.points().len() - 1,
    ;
}

/// An iterator over the `samples + 1` points of the curve at the parameters
/// `0 / samples`, `1 / samples`, .., `samples / samples`.
pub fn interp_iter<'a, F: Float, B: BezCurve<F>>(curve: &'a B, samples: u32) -> (r: InterpIter<
    'a,
    F,
    B,
>)
    requires
        curve.wf(),
    ensures
        r.wf(),
        r.curve_points() == curve.points(),
        r.samples() == scalar::<F>(samples as nat),
        r.indices() == Seq::new((samples + 1) as nat, |i: int| i as nat),
{
    let r = InterpIter {
        curve: curve,
        t_nodiv: 0,
        t_back_nodiv: samples,
        samples: F::from_u32(samples),
    };
    assert(r.indices() =~= Seq::new((samples + 1) as nat, |i: int| i as nat));
    r
}

/// An iterator over a bezier curve's interpolated points
pub struct InterpIter<'a, F: Float, B: BezCurve<F>> {
    curve: &'a B,
    /// Instead of storing t dirctly, we store t as an integer that is then
    /// divided by `samples` in order to get the actual t. This is done to
    /// avoid floating-point precision errors. Initialized to `0`.
    t_nodiv: u32,
    /// Like `t_nodiv`, but used as the upper bound for next_back.
    /// Initialized to `samples`'s integer representation.
    t_back_nodiv: u32,
    /// The number of samples we are taking from the interpolated curve.
    samples: F,
}

impl<'a, F: Float, B: BezCurve<F>> InterpIter<'a, F, B> {
    /// The curve under the iterator is well-formed.
    pub closed spec fn wf(&self) -> bool {
        self.curve.wf()
    }

    /// The control points of the curve.
    pub closed spec fn curve_points(&self) -> Seq<B::Point> {
        self.curve.points()
    }

    /// The number of samples, as a scalar.
    pub closed spec fn samples(&self) -> F {
        self.samples
    }

    /// The numerators of the parameters that are left, in rising order.
    pub closed spec fn indices(&self) -> Seq<nat> {
        if self.t_nodiv <= self.t_back_nodiv {
            Seq::new(
                (self.t_back_nodiv - self.t_nodiv + 1) as nat,
                |i: int| (self.t_nodiv + i) as nat,
            )
        } else {
            Seq::empty()
        }
    }

    /// The point that the iterator gives for the numerator `index`: the
    /// curve's bounded interpolation at `index / samples`.
    pub open spec fn sample(&self, index: nat) -> Option<B::Point> {
        interp_spec(self.curve_points(), scalar::<F>(index).div_spec(self.samples()))
    }

    /// The point at the lowest parameter that is left. `None` when no
    /// parameter is left, and also when the parameter is not in `[0, 1]`.
    pub fn next(&mut self) -> (r: Option<B::Point>)
        requires
            old(self).wf(),
        ensures
            final(self).wf(),
            final(self).curve_points() == old(self).curve_points(),
            final(self).samples() == old(self).samples(),
            old(self).indices().len() == 0 ==> r.is_none() && final(self).indices() == old(
                self,
            ).indices(),
            old(self).indices().len() > 0 ==> {
                &&& r == old(self).sample(old(self).indices().first())
                &&& final(self).indices() == old(self).indices().drop_first()
            },
    {
        if self.t_nodiv <= self.t_back_nodiv {
            let point = self.curve.interp(F::from_u32(self.t_nodiv).div(self.samples));
            if self.t_nodiv == u32::MAX {
                // `t_nodiv` cannot go above the largest value of its type.
                // Lowering the upper bound below it leaves the iterator
                // empty just as well.
                self.t_back_nodiv = u32::MAX - 1;
            } else {
                self.t_nodiv += 1;
            }
            assert(self.indices() =~= old(self).indices().drop_first());
            point
        } else {
            None
        }
    }

    /// The number of points that are left, as both bounds. A number that
    /// `usize` cannot hold is given as `usize::MAX`.
    pub fn size_hint(&self) -> (r: (usize, Option<usize>))
        ensures
            r.0 == (if self.indices().len() <= usize::MAX {
                self.indices().len()
            } else {
                usize::MAX as nat
            }),
            r.1 == Some(r.0),
    {
        let size: usize = if self.t_back_nodiv < self.t_nodiv {
            0
        } else {
            let below: usize = (self.t_back_nodiv - self.t_nodiv) as usize;
            if below == usize::MAX {
                usize::MAX
            } else {
                below + 1
            }
        };
        (size, Some(size))
    }

    /// The point at the highest parameter that is left. `None` when no
    /// parameter is left, and also when the parameter is not in `[0, 1]`.
    pub fn next_back(&mut self) -> (r: Option<B::Point>)
        requires
            old(self).wf(),
        ensures
            final(self).wf(),
            final(self).curve_points() == old(self).curve_points(),
            final(self).samples() == old(self).samples(),
            old(self).indices().len() == 0 ==> r.is_none() && final(self).indices() == old(
                self,
            ).indices(),
            old(self).indices().len() > 0 ==> {
                &&& r == old(self).sample(old(self).indices().last())
                &&& final(self).indices() == old(self).indices().drop_last()
            },
    {
        if self.t_nodiv <= self.t_back_nodiv {
            let point = self.curve.interp(F::from_u32(self.t_back_nodiv).div(self.samples));

            // Because `t_back_nodiv` is unsigned, we can't let it go below
            // zero. So, this checks if `t_back_nodiv` is zero, and if it is
            // set `t_nodiv` to 1, which causes any future calls to the
            // iterator to properly return `None`
            if 0 == self.t_back_nodiv {
                self.t_nodiv = 1;
            } else {
                self.t_back_nodiv -= 1;
            }
            assert(self.indices() =~= old(self).indices().drop_last());
            point
        } else {
            None
        }
    }
}

/// Trait to mark curves that have order known at compiletime.
pub trait OrderStatic {
    /// The order of every curve of the type.
    spec fn order_static_spec() -> nat;

    /// Gets the compiletime-known curve order.
    fn order_static() -> (r: usize)
        ensures
            r == Self::order_static_spec(),
    ;
}

} // verus!
