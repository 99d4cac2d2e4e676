//! A Bézier curve whose order is known only when it runs: the order is the
//! number of control points less one.

use std::marker::PhantomData;
use vstd::prelude::*;
use vstd::slice::{slice_subrange, slice_to_vec};
use crate::algebra::{elevate_points, interp_points, slope_points, split_points};
use crate::binomial::{binomial_row, factors_valid, update_factors, RangeSlice, MAX_ORDER};
use crate::curve::BezCurve;
use crate::markers::{Float, Point};

verus! {

/// An n-order bezier curve
///
/// Beside its control points the curve keeps a table of the binomial
/// coefficients of one order and of the order below it. `update_factors`
/// fills the table for the order that the curve has at that time. A function
/// that evaluates the curve reads the table if it is of the curve's order,
/// and computes the coefficients afresh if it is not.
#[derive(Debug)]
pub struct NBez<F: Float, P: Point<F>> {
    points: Vec<P>,
    factor_vec: Vec<u64>,
    factors: RangeSlice,
    dfactors: RangeSlice,
    phantom: PhantomData<F>,
}

impl<F: Float, P: Point<F>> NBez<F, P> {
    /// The table, if it holds anything, holds the coefficients of one order.
    pub closed spec fn table_valid(&self) -> bool {
        factors_valid(self.factor_vec@, self.factors, self.dfactors)
    }

    /// The table holds the coefficients of the order that the curve has.
    pub closed spec fn table_current(&self) -> bool {
        self.factors.len_spec() == self.points@.len()
    }

    /// Wraps a container of control points. The curve's order is the number
    /// of points less one, and must not exceed `MAX_ORDER`.
    #[inline]
    pub fn from_container(points: Vec<P>) -> (r: NBez<F, P>)
        requires
            points@.len() <= MAX_ORDER + 1,
        ensures
            r.points() == points@,
            r.table_valid(),
            points@.len() >= 1 ==> r.wf() && !r.table_current(),
    {
        NBez {
            points: points,
            factor_vec: Vec::new(),
            factors: RangeSlice::new(0, 0),
            dfactors: RangeSlice::new(0, 0),
            phantom: PhantomData,
        }
    }

    /// Returns the container of control points.
    #[inline]
    pub fn unwrap(self) -> (r: Vec<P>)
        ensures
            r@ == self.points(),
    {
        self.points
    }

    /// Fills the table with the coefficients of the curve's order, unless it
    /// holds them already. The control points stay as they are.
    pub fn update_factors(&mut self)
        requires
            old(self).wf(),
        ensures
            final(self).wf(),
            final(self).table_current(),
            final(self).points() == old(self).points(),
    {
        let order: usize = self.points.len() - 1;
        update_factors(order, &mut self.factors, &mut self.dfactors, &mut self.factor_vec);
    }

    /// The control points.
    pub fn as_ref(&self) -> (r: &Vec<P>)
        ensures
            r@ == self.points(),
    {
        &self.points
    }

    /// The control points, to be changed in place: points may be moved,
    /// added and taken away. The table is left as it is; a function that
    /// evaluates the curve finds out by itself whether it still fits.
    pub fn as_mut(&mut self) -> (r: &mut Vec<P>)
        requires
            old(self).table_valid(),
        ensures
            r@ == old(self).points(),
            final(self).points() == final(r)@,
            final(self).table_valid(),
    {
        &mut self.points
    }
}

impl<F: Float, P: Point<F>> Clone for NBez<F, P> {
    fn clone(&self) -> (r: Self)
        ensures
            r.points() == self.points(),
            r.table_valid() == self.table_valid(),
            r.table_current() == self.table_current(),
    {
        NBez {
            points: slice_to_vec(self.points.as_slice()),
            factor_vec: slice_to_vec(self.factor_vec.as_slice()),
            factors: self.factors,
            dfactors: self.dfactors,
            phantom: PhantomData,
        }
    }
}

impl<F: Float, P: Point<F>> BezCurve<F> for NBez<F, P> {
    type Point = P;

    type Elevated = NBez<F, P>;

    closed spec fn points(&self) -> Seq<P> {
        self.points@
    }

    open spec fn wf(&self) -> bool {
        &&& 1 <= self.points().len() <= MAX_ORDER + 1
        &&& self.table_valid()
    }

    open spec fn raised_points(e: &NBez<F, P>) -> Seq<P> {
        e.points()
    }

    open spec fn raised_wf(e: &NBez<F, P>) -> bool {
        e.wf()
    }

    open spec fn accepts(len: nat) -> bool {
        1 <= len <= MAX_ORDER + 1
    }

    proof fn lemma_wf_len(&self) {
    }

    /// Makes a curve of the slice's points; its order is their number less
    /// one. Fails on an empty slice and on one of more than `MAX_ORDER + 1`
    /// points.
    fn from_slice(slice: &[P]) -> (r: Option<NBez<F, P>>) {
        if slice.len() == 0 || slice.len() > MAX_ORDER + 1 {
            None
        } else {
            Some(NBez::from_container(slice_to_vec(slice)))
        }
    }

    fn interp_unbounded(&self, t: F) -> (r: P) {
        let order: usize = self.points.len() - 1;
        if self.factors.len() == order + 1 {
            let factors = slice_subrange(
                self.factor_vec.as_slice(),
                self.factors.start,
                self.factors.end,
            );
            assert(factors@ =~= binomial_row(order as nat));
            interp_points(self.points.as_slice(), factors, t)
        } else {
            let mut vec: Vec<u64> = Vec::new();
            let mut range = RangeSlice::new(0, 0);
            let mut drange = RangeSlice::new(0, 0);
            update_factors(order, &mut range, &mut drange, &mut vec);
            let factors = slice_subrange(vec.as_slice(), range.start, range.end);
            assert(factors@ =~= binomial_row(order as nat));
            interp_points(self.points.as_slice(), factors, t)
        }
    }

    fn slope_unbounded(&self, t: F) -> (r: P::Vector) {
        let order: usize = self.points.len() - 1;
        if self.factors.len() == order + 1 {
            let dfactors = slice_subrange(
                self.factor_vec.as_slice(),
                self.dfactors.start,
                self.dfactors.end,
            );
            assert(dfactors@ =~= binomial_row((order - 1) as nat));
            slope_points(self.points.as_slice(), dfactors, t).into_vector()
        } else {
            let mut vec: Vec<u64> = Vec::new();
            let mut range = RangeSlice::new(0, 0);
            let mut drange = RangeSlice::new(0, 0);
            update_factors(order, &mut range, &mut drange, &mut vec);
            let dfactors = slice_subrange(vec.as_slice(), drange.start, drange.end);
            assert(dfactors@ =~= binomial_row((order - 1) as nat));
            slope_points(self.points.as_slice(), dfactors, t).into_vector()
        }
    }

    fn elevate(&self) -> (r: NBez<F, P>) {
        NBez::from_container(elevate_points::<F, P>(self.points.as_slice()))
    }

    fn split_unbounded(&self, t: F) -> (r: (NBez<F, P>, NBez<F, P>)) {
        let (left, right) = split_points(self.points.as_slice(), t);
        (NBez::from_container(left), NBez::from_container(right))
    }

    fn order(&self) -> (r: usize) {
        self.points.len() - 1
    }
}

} // verus!
