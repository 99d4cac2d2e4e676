//! Points and vectors of two, three and four dimensions. All arithmetic is
//! componentwise, so a curve through such points is, coordinate by
//! coordinate, the curve through the coordinates.

use vstd::prelude::*;
use crate::algebra::{
    bernstein_sum, bezier_point, bezier_slope, casteljau_row, elevated_points,
    lemma_casteljau_row_len, slope_sum, split_left, split_right,
};
use crate::markers::{Float, PVOps, Point, Vector};

verus! {

/// 2-dimensional point
#[derive(Clone, Copy, Debug)]
pub struct Point2d<F: Float> {
    pub x: F,
    pub y: F,
}

/// 2-dimensional vector
#[derive(Clone, Copy, Debug)]
pub struct Vector2d<F: Float> {
    pub x: F,
    pub y: F,
}

impl<F: Float> Point2d<F> {
    /// The coordinates of the point, in their order.
    pub open spec fn coords(self) -> Seq<F> {
        seq![self.x, self.y]
    }

    /// The number of coordinates.
    pub fn dims() -> (r: usize)
        ensures
            r == 2,
    {
        2
    }

    /// The coordinate `index`, counted from 0.
    pub fn get(&self, index: usize) -> (r: F)
        requires
            index < 2,
        ensures
            r == self.coords()[index as int],
    {
        if index == 0 {
            self.x
        } else {
            self.y
        }
    }

    /// Replaces the coordinate `index`, counted from 0.
    pub fn set(&mut self, index: usize, value: F)
        requires
            index < 2,
        ensures
            final(self).coords() == old(self).coords().update(index as int, value),
    {
        if index == 0 {
            self.x = value;
        } else {
            self.y = value;
        }
        assert(self.coords() =~= old(self).coords().update(index as int, value));
    }

    /// The point with the coordinates that `array` holds.
    pub fn from_array(array: [F; 2]) -> (r: Self)
        ensures
            r.coords() == array@,
    {
        let r = Point2d { x: array[0], y: array[1] };
        assert(r.coords() =~= array@);
        r
    }

    /// The coordinates as an array.
    pub fn into_array(self) -> (r: [F; 2])
        ensures
            r@ == self.coords(),
    {
        let r = [self.x, self.y];
        assert(r@ =~= self.coords());
        r
    }

    /// The point with the given coordinates.
    pub fn new(x: F, y: F) -> (r: Self)
        ensures
            r == (Point2d { x, y }),
    {
        Point2d { x, y }
    }

    /// The point that lies `rhs` away from this one.
    pub fn plus_vector(self, rhs: Vector2d<F>) -> (r: Self)
        ensures
            r == (Point2d { x: self.x.add_spec(rhs.x), y: self.y.add_spec(rhs.y) }),
    {
        Point2d { x: self.x.add(rhs.x), y: self.y.add(rhs.y) }
    }

    /// The point from which `rhs` leads to this one.
    pub fn minus_vector(self, rhs: Vector2d<F>) -> (r: Self)
        ensures
            r == (Point2d { x: self.x.sub_spec(rhs.x), y: self.y.sub_spec(rhs.y) }),
    {
        Point2d { x: self.x.sub(rhs.x), y: self.y.sub(rhs.y) }
    }
}

impl<F: Float> PVOps<F> for Point2d<F> {
    open spec fn origin_spec() -> Self {
        Point2d { x: F::zero_spec(), y: F::zero_spec() }
    }

    open spec fn plus_spec(self, rhs: Self) -> Self {
        Point2d { x: self.x.add_spec(rhs.x), y: self.y.add_spec(rhs.y) }
    }

    open spec fn minus_spec(self, rhs: Self) -> Self {
        Point2d { x: self.x.sub_spec(rhs.x), y: self.y.sub_spec(rhs.y) }
    }

    open spec fn times_spec(self, rhs: F) -> Self {
        Point2d { x: self.x.mul_spec(rhs), y: self.y.mul_spec(rhs) }
    }

    open spec fn over_spec(self, rhs: F) -> Self {
        Point2d { x: self.x.div_spec(rhs), y: self.y.div_spec(rhs) }
    }

    fn origin() -> Self {
        Point2d { x: F::zero(), y: F::zero() }
    }

    fn plus(self, rhs: Self) -> Self {
        Point2d { x: self.x.add(rhs.x), y: self.y.add(rhs.y) }
    }

    fn minus(self, rhs: Self) -> Self {
        Point2d { x: self.x.sub(rhs.x), y: self.y.sub(rhs.y) }
    }

    fn times(self, rhs: F) -> Self {
        Point2d { x: self.x.mul(rhs), y: self.y.mul(rhs) }
    }

    fn over(self, rhs: F) -> Self {
        Point2d { x: self.x.div(rhs), y: self.y.div(rhs) }
    }
}

impl<F: Float> Point<F> for Point2d<F> {
    type Vector = Vector2d<F>;

    open spec fn into_vector_spec(self) -> Vector2d<F> {
        Vector2d { x: self.x, y: self.y }
    }

    fn into_vector(self) -> Vector2d<F> {
        Vector2d { x: self.x, y: self.y }
    }
}

impl<F: Float> Vector2d<F> {
    /// The coordinates of the vector, in their order.
    pub open spec fn coords(self) -> Seq<F> {
        seq![self.x, self.y]
    }

    /// The number of coordinates.
    pub fn dims() -> (r: usize)
        ensures
            r == 2,
    {
        2
    }

    /// The coordinate `index`, counted from 0.
    pub fn get(&self, index: usize) -> (r: F)
        requires
            index < 2,
        ensures
            r == self.coords()[index as int],
    {
        if index == 0 {
            self.x
        } else {
            self.y
        }
    }

    /// Replaces the coordinate `index`, counted from 0.
    pub fn set(&mut self, index: usize, value: F)
        requires
            index < 2,
        ensures
            final(self).coords() == old(self).coords().update(index as int, value),
    {
        if index == 0 {
            self.x = value;
        } else {
            self.y = value;
        }
        assert(self.coords() =~= old(self).coords().update(index as int, value));
    }

    /// The vector with the coordinates that `array` holds.
    pub fn from_array(array: [F; 2]) -> (r: Self)
        ensures
            r.coords() == array@,
    {
        let r = Vector2d { x: array[0], y: array[1] };
        assert(r.coords() =~= array@);
        r
    }

    /// The coordinates as an array.
    pub fn into_array(self) -> (r: [F; 2])
        ensures
            r@ == self.coords(),
    {
        let r = [self.x, self.y];
        assert(r@ =~= self.coords());
        r
    }

    /// The vector with the given coordinates.
    pub fn new(x: F, y: F) -> (r: Self)
        ensures
            r == (Vector2d { x, y }),
    {
        Vector2d { x, y }
    }

    /// The point with the coordinates of this vector.
    pub fn into_point(self) -> (r: Point2d<F>)
        ensures
            r == (Point2d { x: self.x, y: self.y }),
    {
        Point2d { x: self.x, y: self.y }
    }

    /// The vector of the same length that points the other way.
    pub fn neg(self) -> (r: Self)
        ensures
            r == (Vector2d { x: self.x.neg_spec(), y: self.y.neg_spec() }),
    {
        Vector2d { x: self.x.neg(), y: self.y.neg() }
    }

    /// The sum of the squares of the coordinates, added from the left.
    pub open spec fn square_sum(self) -> F {
        self.x.powi_spec(2).add_spec(self.y.powi_spec(2))
    }

    /// The length of the vector: the square root of `square_sum`.
    pub fn len(self) -> (r: F)
        ensures
            r == self.square_sum().sqrt_spec(),
    {
        self.x.powi(2).add(self.y.powi(2)).sqrt()
    }

    /// The vector divided by its length.
    pub fn normalize(self) -> (r: Self)
        ensures
            r == self.over_spec(self.square_sum().sqrt_spec()),
    {
        let len = self.len();
        self.over(len)
    }

    /// Returns a vector perpendicular to `self`: `self` turned by a quarter
    /// turn, `(x, y)` to `(-y, x)`.
    pub fn perp(self) -> (r: Vector2d<F>)
        ensures
            r == (Vector2d { x: self.y.neg_spec(), y: self.x }),
    {
        Vector2d { x: self.y.neg(), y: self.x }
    }
}

impl<F: Float> PVOps<F> for Vector2d<F> {
    open spec fn origin_spec() -> Self {
        Vector2d { x: F::zero_spec(), y: F::zero_spec() }
    }

    open spec fn plus_spec(self, rhs: Self) -> Self {
        Vector2d { x: self.x.add_spec(rhs.x), y: self.y.add_spec(rhs.y) }
    }

    open spec fn minus_spec(self, rhs: Self) -> Self {
        Vector2d { x: self.x.sub_spec(rhs.x), y: self.y.sub_spec(rhs.y) }
    }

    open spec fn times_spec(self, rhs: F) -> Self {
        Vector2d { x: self.x.mul_spec(rhs), y: self.y.mul_spec(rhs) }
    }

    open spec fn over_spec(self, rhs: F) -> Self {
        Vector2d { x: self.x.div_spec(rhs), y: self.y.div_spec(rhs) }
    }

    fn origin() -> Self {
        Vector2d { x: F::zero(), y: F::zero() }
    }

    fn plus(self, rhs: Self) -> Self {
        Vector2d { x: self.x.add(rhs.x), y: self.y.add(rhs.y) }
    }

    fn minus(self, rhs: Self) -> Self {
        Vector2d { x: self.x.sub(rhs.x), y: self.y.sub(rhs.y) }
    }

    fn times(self, rhs: F) -> Self {
        Vector2d { x: self.x.mul(rhs), y: self.y.mul(rhs) }
    }

    fn over(self, rhs: F) -> Self {
        Vector2d { x: self.x.div(rhs), y: self.y.div(rhs) }
    }
}

impl<F: Float> Vector<F> for Vector2d<F> {
}

/// The first coordinates of a sequence of points.
pub open spec fn xs_2d<F: Float>(points: Seq<Point2d<F>>) -> Seq<F> {
    Seq::new(points.len(), |i: int| points[i].x)
}

/// The second coordinates of a sequence of points.
pub open spec fn ys_2d<F: Float>(points: Seq<Point2d<F>>) -> Seq<F> {
    Seq::new(points.len(), |i: int| points[i].y)
}

proof fn lemma_sum_per_axis_2d<F: Float>(points: Seq<Point2d<F>>, t: F, m: nat)
    ensures
        bernstein_sum(points, t, m).x == bernstein_sum(xs_2d(points), t, m),
        bernstein_sum(points, t, m).y == bernstein_sum(ys_2d(points), t, m),
    decreases m,
{
    if m > 0 && m <= points.len() {
        lemma_sum_per_axis_2d(points, t, (m - 1) as nat);
    }
}

proof fn lemma_slope_sum_per_axis_2d<F: Float>(points: Seq<Point2d<F>>, t: F, m: nat)
    ensures
        slope_sum(points, t, m).x == slope_sum(xs_2d(points), t, m),
        slope_sum(points, t, m).y == slope_sum(ys_2d(points), t, m),
    decreases m,
{
    if m > 0 && m < points.len() {
        lemma_slope_sum_per_axis_2d(points, t, (m - 1) as nat);
    }
}

proof fn lemma_row_per_axis_2d<F: Float>(points: Seq<Point2d<F>>, t: F, r: nat)
    ensures
        xs_2d(casteljau_row(points, t, r)) == casteljau_row(xs_2d(points), t, r),
        ys_2d(casteljau_row(points, t, r)) == casteljau_row(ys_2d(points), t, r),
    decreases r,
{
    if r > 0 {
        lemma_row_per_axis_2d(points, t, (r - 1) as nat);
        let prev = casteljau_row(points, t, (r - 1) as nat);
        assert(xs_2d(prev).len() == prev.len());
        assert(ys_2d(prev).len() == prev.len());
    }
    assert(xs_2d(casteljau_row(points, t, r)) =~= casteljau_row(xs_2d(points), t, r));
    assert(ys_2d(casteljau_row(points, t, r)) =~= casteljau_row(ys_2d(points), t, r));
}

/// A curve through points of 2 dimensions is, coordinate by coordinate,
/// the curve through the coordinates of its control points: so are its
/// point and its slope at `t`, its elevation, and the two parts of its
/// subdivision at `t`.
pub proof fn lemma_curve_per_axis_2d<F: Float>(points: Seq<Point2d<F>>, t: F)
    requires
        points.len() >= 1,
    ensures
        bezier_point(points, t).x == bezier_point(xs_2d(points), t),
        bezier_point(points, t).y == bezier_point(ys_2d(points), t),
        bezier_slope(points, t).x == bezier_slope(xs_2d(points), t),
        bezier_slope(points, t).y == bezier_slope(ys_2d(points), t),
        xs_2d(elevated_points::<F, Point2d<F>>(points)) == elevated_points::<F, F>(xs_2d(points)),
        ys_2d(elevated_points::<F, Point2d<F>>(points)) == elevated_points::<F, F>(ys_2d(points)),
        xs_2d(split_left(points, t)) == split_left(xs_2d(points), t),
        ys_2d(split_left(points, t)) == split_left(ys_2d(points), t),
        xs_2d(split_right(points, t)) == split_right(xs_2d(points), t),
        ys_2d(split_right(points, t)) == split_right(ys_2d(points), t),
{
    lemma_sum_per_axis_2d(points, t, points.len());
    lemma_slope_sum_per_axis_2d(points, t, (points.len() - 1) as nat);
    assert(xs_2d(elevated_points::<F, Point2d<F>>(points)) =~= elevated_points::<F, F>(
        xs_2d(points),
    ));
    assert(ys_2d(elevated_points::<F, Point2d<F>>(points)) =~= elevated_points::<F, F>(
        ys_2d(points),
    ));
    assert forall|r: nat| r < points.len() implies {
        let row = #[trigger] casteljau_row(points, t, r);
        &&& row.len() == points.len() - r
        &&& xs_2d(row) == casteljau_row(xs_2d(points), t, r)
        &&& ys_2d(row) == casteljau_row(ys_2d(points), t, r)
    } by {
        lemma_row_per_axis_2d(points, t, r);
        lemma_casteljau_row_len(points, t, r);
    }
    assert(xs_2d(split_left(points, t)) =~= split_left(xs_2d(points), t));
    assert(ys_2d(split_left(points, t)) =~= split_left(ys_2d(points), t));
    assert(xs_2d(split_right(points, t)) =~= split_right(xs_2d(points), t));
    assert(ys_2d(split_right(points, t)) =~= split_right(ys_2d(points), t));
}

/// 3-dimensional point
#[derive(Clone, Copy, Debug)]
pub struct Point3d<F: Float> {
    pub x: F,
    pub y: F,
    pub z: F,
}

/// 3-dimensional vector
#[derive(Clone, Copy, Debug)]
pub struct Vector3d<F: Float> {
    pub x: F,
    pub y: F,
    pub z: F,
}

impl<F: Float> Point3d<F> {
    /// The coordinates of the point, in their order.
    pub open spec fn coords(self) -> Seq<F> {
        seq![self.x, self.y, self.z]
    }

    /// The number of coordinates.
    pub fn dims() -> (r: usize)
        ensures
            r == 3,
    {
        3
    }

    /// The coordinate `index`, counted from 0.
    pub fn get(&self, index: usize) -> (r: F)
        requires
            index < 3,
        ensures
            r == self.coords()[index as int],
    {
        if index == 0 {
            self.x
        } else if index == 1 {
            self.y
        } else {
            self.z
        }
    }

    /// Replaces the coordinate `index`, counted from 0.
    pub fn set(&mut self, index: usize, value: F)
        requires
            index < 3,
        ensures
            final(self).coords() == old(self).coords().update(index as int, value),
    {
        if index == 0 {
            self.x = value;
        } else if index == 1 {
            self.y = value;
        } else {
            self.z = value;
        }
        assert(self.coords() =~= old(self).coords().update(index as int, value));
    }

    /// The point with the coordinates that `array` holds.
    pub fn from_array(array: [F; 3]) -> (r: Self)
        ensures
            r.coords() == array@,
    {
        let r = Point3d { x: array[0], y: array[1], z: array[2] };
        assert(r.coords() =~= array@);
        r
    }

    /// The coordinates as an array.
    pub fn into_array(self) -> (r: [F; 3])
        ensures
            r@ == self.coords(),
    {
        let r = [self.x, self.y, self.z];
        assert(r@ =~= self.coords());
        r
    }

    /// The point with the given coordinates.
    pub fn new(x: F, y: F, z: F) -> (r: Self)
        ensures
            r == (Point3d { x, y, z }),
    {
        Point3d { x, y, z }
    }

    /// The point that lies `rhs` away from this one.
    pub fn plus_vector(self, rhs: Vector3d<F>) -> (r: Self)
        ensures
            r == (Point3d {
                x: self.x.add_spec(rhs.x),
                y: self.y.add_spec(rhs.y),
                z: self.z.add_spec(rhs.z),
            }),
    {
        Point3d { x: self.x.add(rhs.x), y: self.y.add(rhs.y), z: self.z.add(rhs.z) }
    }

    /// The point from which `rhs` leads to this one.
    pub fn minus_vector(self, rhs: Vector3d<F>) -> (r: Self)
        ensures
            r == (Point3d {
                x: self.x.sub_spec(rhs.x),
                y: self.y.sub_spec(rhs.y),
                z: self.z.sub_spec(rhs.z),
            }),
    {
        Point3d { x: self.x.sub(rhs.x), y: self.y.sub(rhs.y), z: self.z.sub(rhs.z) }
    }
}

impl<F: Float> PVOps<F> for Point3d<F> {
    open spec fn origin_spec() -> Self {
        Point3d { x: F::zero_spec(), y: F::zero_spec(), z: F::zero_spec() }
    }

    open spec fn plus_spec(self, rhs: Self) -> Self {
        Point3d { x: self.x.add_spec(rhs.x), y: self.y.add_spec(rhs.y), z: self.z.add_spec(rhs.z) }
    }

    open spec fn minus_spec(self, rhs: Self) -> Self {
        Point3d { x: self.x.sub_spec(rhs.x), y: self.y.sub_spec(rhs.y), z: self.z.sub_spec(rhs.z) }
    }

    open spec fn times_spec(self, rhs: F) -> Self {
        Point3d { x: self.x.mul_spec(rhs), y: self.y.mul_spec(rhs), z: self.z.mul_spec(rhs) }
    }

    open spec fn over_spec(self, rhs: F) -> Self {
        Point3d { x: self.x.div_spec(rhs), y: self.y.div_spec(rhs), z: self.z.div_spec(rhs) }
    }

    fn origin() -> Self {
        Point3d { x: F::zero(), y: F::zero(), z: F::zero() }
    }

    fn plus(self, rhs: Self) -> Self {
        Point3d { x: self.x.add(rhs.x), y: self.y.add(rhs.y), z: self.z.add(rhs.z) }
    }

    fn minus(self, rhs: Self) -> Self {
        Point3d { x: self.x.sub(rhs.x), y: self.y.sub(rhs.y), z: self.z.sub(rhs.z) }
    }

    fn times(self, rhs: F) -> Self {
        Point3d { x: self.x.mul(rhs), y: self.y.mul(rhs), z: self.z.mul(rhs) }
    }

    fn over(self, rhs: F) -> Self {
        Point3d { x: self.x.div(rhs), y: self.y.div(rhs), z: self.z.div(rhs) }
    }
}

impl<F: Float> Point<F> for Point3d<F> {
    type Vector = Vector3d<F>;

    open spec fn into_vector_spec(self) -> Vector3d<F> {
        Vector3d { x: self.x, y: self.y, z: self.z }
    }

    fn into_vector(self) -> Vector3d<F> {
        Vector3d { x: self.x, y: self.y, z: self.z }
    }
}

impl<F: Float> Vector3d<F> {
    /// The coordinates of the vector, in their order.
    pub open spec fn coords(self) -> Seq<F> {
        seq![self.x, self.y, self.z]
    }

    /// The number of coordinates.
    pub fn dims() -> (r: usize)
        ensures
            r == 3,
    {
        3
    }

    /// The coordinate `index`, counted from 0.
    pub fn get(&self, index: usize) -> (r: F)
        requires
            index < 3,
        ensures
            r == self.coords()[index as int],
    {
        if index == 0 {
            self.x
        } else if index == 1 {
            self.y
        } else {
            self.z
        }
    }

    /// Replaces the coordinate `index`, counted from 0.
    pub fn set(&mut self, index: usize, value: F)
        requires
            index < 3,
        ensures
            final(self).coords() == old(self).coords().update(index as int, value),
    {
        if index == 0 {
            self.x = value;
        } else if index == 1 {
            self.y = value;
        } else {
            self.z = value;
        }
        assert(self.coords() =~= old(self).coords().update(index as int, value));
    }

    /// The vector with the coordinates that `array` holds.
    pub fn from_array(array: [F; 3]) -> (r: Self)
        ensures
            r.coords() == array@,
    {
        let r = Vector3d { x: array[0], y: array[1], z: array[2] };
        assert(r.coords() =~= array@);
        r
    }

    /// The coordinates as an array.
    pub fn into_array(self) -> (r: [F; 3])
        ensures
            r@ == self.coords(),
    {
        let r = [self.x, self.y, self.z];
        assert(r@ =~= self.coords());
        r
    }

    /// The vector with the given coordinates.
    pub fn new(x: F, y: F, z: F) -> (r: Self)
        ensures
            r == (Vector3d { x, y, z }),
    {
        Vector3d { x, y, z }
    }

    /// The point with the coordinates of this vector.
    pub fn into_point(self) -> (r: Point3d<F>)
        ensures
            r == (Point3d { x: self.x, y: self.y, z: self.z }),
    {
        Point3d { x: self.x, y: self.y, z: self.z }
    }

    /// The vector of the same length that points the other way.
    pub fn neg(self) -> (r: Self)
        ensures
            r == (Vector3d { x: self.x.neg_spec(), y: self.y.neg_spec(), z: self.z.neg_spec() }),
    {
        Vector3d { x: self.x.neg(), y: self.y.neg(), z: self.z.neg() }
    }

    /// The sum of the squares of the coordinates, added from the left.
    pub open spec fn square_sum(self) -> F {
        self.x.powi_spec(2).add_spec(self.y.powi_spec(2)).add_spec(self.z.powi_spec(2))
    }

    /// The length of the vector: the square root of `square_sum`.
    pub fn len(self) -> (r: F)
        ensures
            r == self.square_sum().sqrt_spec(),
    {
        self.x.powi(2).add(self.y.powi(2)).add(self.z.powi(2)).sqrt()
    }

    /// The vector divided by its length.
    pub fn normalize(self) -> (r: Self)
        ensures
            r == self.over_spec(self.square_sum().sqrt_spec()),
    {
        let len = self.len();
        self.over(len)
    }
}

impl<F: Float> PVOps<F> for Vector3d<F> {
    open spec fn origin_spec() -> Self {
        Vector3d { x: F::zero_spec(), y: F::zero_spec(), z: F::zero_spec() }
    }

    open spec fn plus_spec(self, rhs: Self) -> Self {
        Vector3d { x: self.x.add_spec(rhs.x), y: self.y.add_spec(rhs.y), z: self.z.add_spec(rhs.z) }
    }

    open spec fn minus_spec(self, rhs: Self) -> Self {
        Vector3d { x: self.x.sub_spec(rhs.x), y: self.y.sub_spec(rhs.y), z: self.z.sub_spec(rhs.z) }
    }

    open spec fn times_spec(self, rhs: F) -> Self {
        Vector3d { x: self.x.mul_spec(rhs), y: self.y.mul_spec(rhs), z: self.z.mul_spec(rhs) }
    }

    open spec fn over_spec(self, rhs: F) -> Self {
        Vector3d { x: self.x.div_spec(rhs), y: self.y.div_spec(rhs), z: self.z.div_spec(rhs) }
    }

    fn origin() -> Self {
        Vector3d { x: F::zero(), y: F::zero(), z: F::zero() }
    }

    fn plus(self, rhs: Self) -> Self {
        Vector3d { x: self.x.add(rhs.x), y: self.y.add(rhs.y), z: self.z.add(rhs.z) }
    }

    fn minus(self, rhs: Self) -> Self {
        Vector3d { x: self.x.sub(rhs.x), y: self.y.sub(rhs.y), z: self.z.sub(rhs.z) }
    }

    fn times(self, rhs: F) -> Self {
        Vector3d { x: self.x.mul(rhs), y: self.y.mul(rhs), z: self.z.mul(rhs) }
    }

    fn over(self, rhs: F) -> Self {
        Vector3d { x: self.x.div(rhs), y: self.y.div(rhs), z: self.z.div(rhs) }
    }
}

impl<F: Float> Vector<F> for Vector3d<F> {
}

/// The first coordinates of a sequence of points.
pub open spec fn xs_3d<F: Float>(points: Seq<Point3d<F>>) -> Seq<F> {
    Seq::new(points.len(), |i: int| points[i].x)
}

/// The second coordinates of a sequence of points.
pub open spec fn ys_3d<F: Float>(points: Seq<Point3d<F>>) -> Seq<F> {
    Seq::new(points.len(), |i: int| points[i].y)
}

/// The third coordinates of a sequence of points.
pub open spec fn zs_3d<F: Float>(points: Seq<Point3d<F>>) -> Seq<F> {
    Seq::new(points.len(), |i: int| points[i].z)
}

proof fn lemma_sum_per_axis_3d<F: Float>(points: Seq<Point3d<F>>, t: F, m: nat)
    ensures
        bernstein_sum(points, t, m).x == bernstein_sum(xs_3d(points), t, m),
        bernstein_sum(points, t, m).y == bernstein_sum(ys_3d(points), t, m),
        bernstein_sum(points, t, m).z == bernstein_sum(zs_3d(points), t, m),
    decreases m,
{
    if m > 0 && m <= points.len() {
        lemma_sum_per_axis_3d(points, t, (m - 1) as nat);
    }
}

proof fn lemma_slope_sum_per_axis_3d<F: Float>(points: Seq<Point3d<F>>, t: F, m: nat)
    ensures
        slope_sum(points, t, m).x == slope_sum(xs_3d(points), t, m),
        slope_sum(points, t, m).y == slope_sum(ys_3d(points), t, m),
        slope_sum(points, t, m).z == slope_sum(zs_3d(points), t, m),
    decreases m,
{
    if m > 0 && m < points.len() {
        lemma_slope_sum_per_axis_3d(points, t, (m - 1) as nat);
    }
}

proof fn lemma_row_per_axis_3d<F: Float>(points: Seq<Point3d<F>>, t: F, r: nat)
    ensures
        xs_3d(casteljau_row(points, t, r)) == casteljau_row(xs_3d(points), t, r),
        ys_3d(casteljau_row(points, t, r)) == casteljau_row(ys_3d(points), t, r),
        zs_3d(casteljau_row(points, t, r)) == casteljau_row(zs_3d(points), t, r),
    decreases r,
{
    if r > 0 {
        lemma_row_per_axis_3d(points, t, (r - 1) as nat);
        let prev = casteljau_row(points, t, (r - 1) as nat);
        assert(xs_3d(prev).len() == prev.len());
        assert(ys_3d(prev).len() == prev.len());
        assert(zs_3d(prev).len() == prev.len());
    }
    assert(xs_3d(casteljau_row(points, t, r)) =~= casteljau_row(xs_3d(points), t, r));
    assert(ys_3d(casteljau_row(points, t, r)) =~= casteljau_row(ys_3d(points), t, r));
    assert(zs_3d(casteljau_row(points, t, r)) =~= casteljau_row(zs_3d(points), t, r));
}

/// A curve through points of 3 dimensions is, coordinate by coordinate,
/// the curve through the coordinates of its control points: so are its
/// point and its slope at `t`, its elevation, and the two parts of its
/// subdivision at `t`.
pub proof fn lemma_curve_per_axis_3d<F: Float>(points: Seq<Point3d<F>>, t: F)
    requires
        points.len() >= 1,
    ensures
        bezier_point(points, t).x == bezier_point(xs_3d(points), t),
        bezier_point(points, t).y == bezier_point(ys_3d(points), t),
        bezier_point(points, t).z == bezier_point(zs_3d(points), t),
        bezier_slope(points, t).x == bezier_slope(xs_3d(points), t),
        bezier_slope(points, t).y == bezier_slope(ys_3d(points), t),
        bezier_slope(points, t).z == bezier_slope(zs_3d(points), t),
        xs_3d(elevated_points::<F, Point3d<F>>(points)) == elevated_points::<F, F>(xs_3d(points)),
        ys_3d(elevated_points::<F, Point3d<F>>(points)) == elevated_points::<F, F>(ys_3d(points)),
        zs_3d(elevated_points::<F, Point3d<F>>(points)) == elevated_points::<F, F>(zs_3d(points)),
        xs_3d(split_left(points, t)) == split_left(xs_3d(points), t),
        ys_3d(split_left(points, t)) == split_left(ys_3d(points), t),
        zs_3d(split_left(points, t)) == split_left(zs_3d(points), t),
        xs_3d(split_right(points, t)) == split_right(xs_3d(points), t),
        ys_3d(split_right(points, t)) == split_right(ys_3d(points), t),
        zs_3d(split_right(points, t)) == split_right(zs_3d(points), t),
{
    lemma_sum_per_axis_3d(points, t, points.len());
    lemma_slope_sum_per_axis_3d(points, t, (points.len() - 1) as nat);
    assert(xs_3d(elevated_points::<F, Point3d<F>>(points)) =~= elevated_points::<F, F>(
        xs_3d(points),
    ));
    assert(ys_3d(elevated_points::<F, Point3d<F>>(points)) =~= elevated_points::<F, F>(
        ys_3d(points),
    ));
    assert(zs_3d(elevated_points::<F, Point3d<F>>(points)) =~= elevated_points::<F, F>(
        zs_3d(points),
    ));
    assert forall|r: nat| r < points.len() implies {
        let row = #[trigger] casteljau_row(points, t, r);
        &&& row.len() == points.len() - r
        &&& xs_3d(row) == casteljau_row(xs_3d(points), t, r)
        &&& ys_3d(row) == casteljau_row(ys_3d(points), t, r)
        &&& zs_3d(row) == casteljau_row(zs_3d(points), t, r)
    } by {
        lemma_row_per_axis_3d(points, t, r);
        lemma_casteljau_row_len(points, t, r);
    }
    assert(xs_3d(split_left(points, t)) =~= split_left(xs_3d(points), t));
    assert(ys_3d(split_left(points, t)) =~= split_left(ys_3d(points), t));
    assert(zs_3d(split_left(points, t)) =~= split_left(zs_3d(points), t));
    assert(xs_3d(split_right(points, t)) =~= split_right(xs_3d(points), t));
    assert(ys_3d(split_right(points, t)) =~= split_right(ys_3d(points), t));
    assert(zs_3d(split_right(points, t)) =~= split_right(zs_3d(points), t));
}

/// 4-dimensional point
#[derive(Clone, Copy, Debug)]
pub struct Point4d<F: Float> {
    pub x: F,
    pub y: F,
    pub z: F,
    pub w: F,
}

/// 4-dimensional vector
#[derive(Clone, Copy, Debug)]
pub struct Vector4d<F: Float> {
    pub x: F,
    pub y: F,
    pub z: F,
    pub w: F,
}

impl<F: Float> Point4d<F> {
    /// The coordinates of the point, in their order.
    pub open spec fn coords(self) -> Seq<F> {
        seq![self.x, self.y, self.z, self.w]
    }

    /// The number of coordinates.
    pub fn dims() -> (r: usize)
        ensures
            r == 4,
    {
        4
    }

    /// The coordinate `index`, counted from 0.
    pub fn get(&self, index: usize) -> (r: F)
        requires
            index < 4,
        ensures
            r == self.coords()[index as int],
    {
        if index == 0 {
            self.x
        } else if index == 1 {
            self.y
        } else if index == 2 {
            self.z
        } else {
            self.w
        }
    }

    /// Replaces the coordinate `index`, counted from 0.
    pub fn set(&mut self, index: usize, value: F)
        requires
            index < 4,
        ensures
            final(self).coords() == old(self).coords().update(index as int, value),
    {
        if index == 0 {
            self.x = value;
        } else if index == 1 {
            self.y = value;
        } else if index == 2 {
            self.z = value;
        } else {
            self.w = value;
        }
        assert(self.coords() =~= old(self).coords().update(index as int, value));
    }

    /// The point with the coordinates that `array` holds.
    pub fn from_array(array: [F; 4]) -> (r: Self)
        ensures
            r.coords() == array@,
    {
        let r = Point4d { x: array[0], y: array[1], z: array[2], w: array[3] };
        assert(r.coords() =~= array@);
        r
    }

    /// The coordinates as an array.
    pub fn into_array(self) -> (r: [F; 4])
        ensures
            r@ == self.coords(),
    {
        let r = [self.x, self.y, self.z, self.w];
        assert(r@ =~= self.coords());
        r
    }

    /// The point with the given coordinates.
    pub fn new(x: F, y: F, z: F, w: F) -> (r: Self)
        ensures
            r == (Point4d { x, y, z, w }),
    {
        Point4d { x, y, z, w }
    }

    /// The point that lies `rhs` away from this one.
    pub fn plus_vector(self, rhs: Vector4d<F>) -> (r: Self)
        ensures
            r == (Point4d {
                x: self.x.add_spec(rhs.x),
                y: self.y.add_spec(rhs.y),
                z: self.z.add_spec(rhs.z),
                w: self.w.add_spec(rhs.w),
            }),
    {
        Point4d {
            x: self.x.add(rhs.x),
            y: self.y.add(rhs.y),
            z: self.z.add(rhs.z),
            w: self.w.add(rhs.w),
        }
    }

    /// The point from which `rhs` leads to this one.
    pub fn minus_vector(self, rhs: Vector4d<F>) -> (r: Self)
        ensures
            r == (Point4d {
                x: self.x.sub_spec(rhs.x),
                y: self.y.sub_spec(rhs.y),
                z: self.z.sub_spec(rhs.z),
                w: self.w.sub_spec(rhs.w),
            }),
    {
        Point4d {
            x: self.x.sub(rhs.x),
            y: self.y.sub(rhs.y),
            z: self.z.sub(rhs.z),
            w: self.w.sub(rhs.w),
        }
    }
}

impl<F: Float> PVOps<F> for Point4d<F> {
    open spec fn origin_spec() -> Self {
        Point4d { x: F::zero_spec(), y: F::zero_spec(), z: F::zero_spec(), w: F::zero_spec() }
    }

    open spec fn plus_spec(self, rhs: Self) -> Self {
        Point4d {
            x: self.x.add_spec(rhs.x),
            y: self.y.add_spec(rhs.y),
            z: self.z.add_spec(rhs.z),
            w: self.w.add_spec(rhs.w),
        }
    }

    open spec fn minus_spec(self, rhs: Self) -> Self {
        Point4d {
            x: self.x.sub_spec(rhs.x),
            y: self.y.sub_spec(rhs.y),
            z: self.z.sub_spec(rhs.z),
            w: self.w.sub_spec(rhs.w),
        }
    }

    open spec fn times_spec(self, rhs: F) -> Self {
        Point4d {
            x: self.x.mul_spec(rhs),
            y: self.y.mul_spec(rhs),
            z: self.z.mul_spec(rhs),
            w: self.w.mul_spec(rhs),
        }
    }

    open spec fn over_spec(self, rhs: F) -> Self {
        Point4d {
            x: self.x.div_spec(rhs),
            y: self.y.div_spec(rhs),
            z: self.z.div_spec(rhs),
            w: self.w.div_spec(rhs),
        }
    }

    fn origin() -> Self {
        Point4d { x: F::zero(), y: F::zero(), z: F::zero(), w: F::zero() }
    }

    fn plus(self, rhs: Self) -> Self {
        Point4d {
            x: self.x.add(rhs.x),
            y: self.y.add(rhs.y),
            z: self.z.add(rhs.z),
            w: self.w.add(rhs.w),
        }
    }

    fn minus(self, rhs: Self) -> Self {
        Point4d {
            x: self.x.sub(rhs.x),
            y: self.y.sub(rhs.y),
            z: self.z.sub(rhs.z),
            w: self.w.sub(rhs.w),
        }
    }

    fn times(self, rhs: F) -> Self {
        Point4d { x: self.x.mul(rhs), y: self.y.mul(rhs), z: self.z.mul(rhs), w: self.w.mul(rhs) }
    }

    fn over(self, rhs: F) -> Self {
        Point4d { x: self.x.div(rhs), y: self.y.div(rhs), z: self.z.div(rhs), w: self.w.div(rhs) }
    }
}

impl<F: Float> Point<F> for Point4d<F> {
    type Vector = Vector4d<F>;

    open spec fn into_vector_spec(self) -> Vector4d<F> {
        Vector4d { x: self.x, y: self.y, z: self.z, w: self.w }
    }

    fn into_vector(self) -> Vector4d<F> {
        Vector4d { x: self.x, y: self.y, z: self.z, w: self.w }
    }
}

impl<F: Float> Vector4d<F> {
    /// The coordinates of the vector, in their order.
    pub open spec fn coords(self) -> Seq<F> {
        seq![self.x, self.y, self.z, self.w]
    }

    /// The number of coordinates.
    pub fn dims() -> (r: usize)
        ensures
            r == 4,
    {
        4
    }

    /// The coordinate `index`, counted from 0.
    pub fn get(&self, index: usize) -> (r: F)
        requires
            index < 4,
        ensures
            r == self.coords()[index as int],
    {
        if index == 0 {
            self.x
        } else if index == 1 {
            self.y
        } else if index == 2 {
            self.z
        } else {
            self.w
        }
    }

    /// Replaces the coordinate `index`, counted from 0.
    pub fn set(&mut self, index: usize, value: F)
        requires
            index < 4,
        ensures
            final(self).coords() == old(self).coords().update(index as int, value),
    {
        if index == 0 {
            self.x = value;
        } else if index == 1 {
            self.y = value;
        } else if index == 2 {
            self.z = value;
        } else {
            self.w = value;
        }
        assert(self.coords() =~= old(self).coords().update(index as int, value));
    }

    /// The vector with the coordinates that `array` holds.
    pub fn from_array(array: [F; 4]) -> (r: Self)
        ensures
            r.coords() == array@,
    {
        let r = Vector4d { x: array[0], y: array[1], z: array[2], w: array[3] };
        assert(r.coords() =~= array@);
        r
    }

    /// The coordinates as an array.
    pub fn into_array(self) -> (r: [F; 4])
        ensures
            r@ == self.coords(),
    {
        let r = [self.x, self.y, self.z, self.w];
        assert(r@ =~= self.coords());
        r
    }

    /// The vector with the given coordinates.
    pub fn new(x: F, y: F, z: F, w: F) -> (r: Self)
        ensures
            r == (Vector4d { x, y, z, w }),
    {
        Vector4d { x, y, z, w }
    }

    /// The point with the coordinates of this vector.
    pub fn into_point(self) -> (r: Point4d<F>)
        ensures
            r == (Point4d { x: self.x, y: self.y, z: self.z, w: self.w }),
    {
        Point4d { x: self.x, y: self.y, z: self.z, w: self.w }
    }

    /// The vector of the same length that points the other way.
    pub fn neg(self) -> (r: Self)
        ensures
            r == (Vector4d {
                x: self.x.neg_spec(),
                y: self.y.neg_spec(),
                z: self.z.neg_spec(),
                w: self.w.neg_spec(),
            }),
    {
        Vector4d { x: self.x.neg(), y: self.y.neg(), z: self.z.neg(), w: self.w.neg() }
    }

    /// The sum of the squares of the coordinates, added from the left.
    pub open spec fn square_sum(self) -> F {
        self.x.powi_spec(2).add_spec(self.y.powi_spec(2)).add_spec(
            self.z.powi_spec(2),
        ).add_spec(self.w.powi_spec(2))
    }

    /// The length of the vector: the square root of `square_sum`.
    pub fn len(self) -> (r: F)
        ensures
            r == self.square_sum().sqrt_spec(),
    {
        self.x.powi(2).add(self.y.powi(2)).add(self.z.powi(2)).add(self.w.powi(2)).sqrt()
    }

    /// The vector divided by its length.
    pub fn normalize(self) -> (r: Self)
        ensures
            r == self.over_spec(self.square_sum().sqrt_spec()),
    {
        let len = self.len();
        self.over(len)
    }
}

impl<F: Float> PVOps<F> for Vector4d<F> {
    open spec fn origin_spec() -> Self {
        Vector4d { x: F::zero_spec(), y: F::zero_spec(), z: F::zero_spec(), w: F::zero_spec() }
    }

    open spec fn plus_spec(self, rhs: Self) -> Self {
        Vector4d {
            x: self.x.add_spec(rhs.x),
            y: self.y.add_spec(rhs.y),
            z: self.z.add_spec(rhs.z),
            w: self.w.add_spec(rhs.w),
        }
    }

    open spec fn minus_spec(self, rhs: Self) -> Self {
        Vector4d {
            x: self.x.sub_spec(rhs.x),
            y: self.y.sub_spec(rhs.y),
            z: self.z.sub_spec(rhs.z),
            w: self.w.sub_spec(rhs.w),
        }
    }

    open spec fn times_spec(self, rhs: F) -> Self {
        Vector4d {
            x: self.x.mul_spec(rhs),
            y: self.y.mul_spec(rhs),
            z: self.z.mul_spec(rhs),
            w: self.w.mul_spec(rhs),
        }
    }

    open spec fn over_spec(self, rhs: F) -> Self {
        Vector4d {
            x: self.x.div_spec(rhs),
            y: self.y.div_spec(rhs),
            z: self.z.div_spec(rhs),
            w: self.w.div_spec(rhs),
        }
    }

    fn origin() -> Self {
        Vector4d { x: F::zero(), y: F::zero(), z: F::zero(), w: F::zero() }
    }

    fn plus(self, rhs: Self) -> Self {
        Vector4d {
            x: self.x.add(rhs.x),
            y: self.y.add(rhs.y),
            z: self.z.add(rhs.z),
            w: self.w.add(rhs.w),
        }
    }

    fn minus(self, rhs: Self) -> Self {
        Vector4d {
            x: self.x.sub(rhs.x),
            y: self.y.sub(rhs.y),
            z: self.z.sub(rhs.z),
            w: self.w.sub(rhs.w),
        }
    }

    fn times(self, rhs: F) -> Self {
        Vector4d { x: self.x.mul(rhs), y: self.y.mul(rhs), z: self.z.mul(rhs), w: self.w.mul(rhs) }
    }

    fn over(self, rhs: F) -> Self {
        Vector4d { x: self.x.div(rhs), y: self.y.div(rhs), z: self.z.div(rhs), w: self.w.div(rhs) }
    }
}

impl<F: Float> Vector<F> for Vector4d<F> {
}

/// The first coordinates of a sequence of points.
pub open spec fn xs_4d<F: Float>(points: Seq<Point4d<F>>) -> Seq<F> {
    Seq::new(points.len(), |i: int| points[i].x)
}

/// The second coordinates of a sequence of points.
pub open spec fn ys_4d<F: Float>(points: Seq<Point4d<F>>) -> Seq<F> {
    Seq::new(points.len(), |i: int| points[i].y)
}

/// The third coordinates of a sequence of points.
pub open spec fn zs_4d<F: Float>(points: Seq<Point4d<F>>) -> Seq<F> {
    Seq::new(points.len(), |i: int| points[i].z)
}

/// The fourth coordinates of a sequence of points.
pub open spec fn ws_4d<F: Float>(points: Seq<Point4d<F>>) -> Seq<F> {
    Seq::new(points.len(), |i: int| points[i].w)
}

proof fn lemma_sum_per_axis_4d<F: Float>(points: Seq<Point4d<F>>, t: F, m: nat)
    ensures
        bernstein_sum(points, t, m).x == bernstein_sum(xs_4d(points), t, m),
        bernstein_sum(points, t, m).y == bernstein_sum(ys_4d(points), t, m),
        bernstein_sum(points, t, m).z == bernstein_sum(zs_4d(points), t, m),
        bernstein_sum(points, t, m).w == bernstein_sum(ws_4d(points), t, m),
    decreases m,
{
    if m > 0 && m <= points.len() {
        lemma_sum_per_axis_4d(points, t, (m - 1) as nat);
    }
}

proof fn lemma_slope_sum_per_axis_4d<F: Float>(points: Seq<Point4d<F>>, t: F, m: nat)
    ensures
        slope_sum(points, t, m).x == slope_sum(xs_4d(points), t, m),
        slope_sum(points, t, m).y == slope_sum(ys_4d(points), t, m),
        slope_sum(points, t, m).z == slope_sum(zs_4d(points), t, m),
        slope_sum(points, t, m).w == slope_sum(ws_4d(points), t, m),
    decreases m,
{
    if m > 0 && m < points.len() {
        lemma_slope_sum_per_axis_4d(points, t, (m - 1) as nat);
    }
}

proof fn lemma_row_per_axis_4d<F: Float>(points: Seq<Point4d<F>>, t: F, r: nat)
    ensures
        xs_4d(casteljau_row(points, t, r)) == casteljau_row(xs_4d(points), t, r),
        ys_4d(casteljau_row(points, t, r)) == casteljau_row(ys_4d(points), t, r),
        zs_4d(casteljau_row(points, t, r)) == casteljau_row(zs_4d(points), t, r),
        ws_4d(casteljau_row(points, t, r)) == casteljau_row(ws_4d(points), t, r),
    decreases r,
{
    if r > 0 {
        lemma_row_per_axis_4d(points, t, (r - 1) as nat);
        let prev = casteljau_row(points, t, (r - 1) as nat);
        assert(xs_4d(prev).len() == prev.len());
        assert(ys_4d(prev).len() == prev.len());
        assert(zs_4d(prev).len() == prev.len());
        assert(ws_4d(prev).len() == prev.len());
    }
    assert(xs_4d(casteljau_row(points, t, r)) =~= casteljau_row(xs_4d(points), t, r));
    assert(ys_4d(casteljau_row(points, t, r)) =~= casteljau_row(ys_4d(points), t, r));
    assert(zs_4d(casteljau_row(points, t, r)) =~= casteljau_row(zs_4d(points), t, r));
    assert(ws_4d(casteljau_row(points, t, r)) =~= casteljau_row(ws_4d(points), t, r));
}

/// A curve through points of 4 dimensions is, coordinate by coordinate,
/// the curve through the coordinates of its control points: so are its
/// point and its slope at `t`, its elevation, and the two parts of its
/// subdivision at `t`.
pub proof fn lemma_curve_per_axis_4d<F: Float>(points: Seq<Point4d<F>>, t: F)
    requires
        points.len() >= 1,
    ensures
        bezier_point(points, t).x == bezier_point(xs_4d(points), t),
        bezier_point(points, t).y == bezier_point(ys_4d(points), t),
        bezier_point(points, t).z == bezier_point(zs_4d(points), t),
        bezier_point(points, t).w == bezier_point(ws_4d(points), t),
        bezier_slope(points, t).x == bezier_slope(xs_4d(points), t),
        bezier_slope(points, t).y == bezier_slope(ys_4d(points), t),
        bezier_slope(points, t).z == bezier_slope(zs_4d(points), t),
        bezier_slope(points, t).w == bezier_slope(ws_4d(points), t),
        xs_4d(elevated_points::<F, Point4d<F>>(points)) == elevated_points::<F, F>(xs_4d(points)),
        ys_4d(elevated_points::<F, Point4d<F>>(points)) == elevated_points::<F, F>(ys_4d(points)),
        zs_4d(elevated_points::<F, Point4d<F>>(points)) == elevated_points::<F, F>(zs_4d(points)),
        ws_4d(elevated_points::<F, Point4d<F>>(points)) == elevated_points::<F, F>(ws_4d(points)),
        xs_4d(split_left(points, t)) == split_left(xs_4d(points), t),
        ys_4d(split_left(points, t)) == split_left(ys_4d(points), t),
        zs_4d(split_left(points, t)) == split_left(zs_4d(points), t),
        ws_4d(split_left(points, t)) == split_left(ws_4d(points), t),
        xs_4d(split_right(points, t)) == split_right(xs_4d(points), t),
        ys_4d(split_right(points, t)) == split_right(ys_4d(points), t),
        zs_4d(split_right(points, t)) == split_right(zs_4d(points), t),
        ws_4d(split_right(points, t)) == split_right(ws_4d(points), t),
{
    lemma_sum_per_axis_4d(points, t, points.len());
    lemma_slope_sum_per_axis_4d(points, t, (points.len() - 1) as nat);
    assert(xs_4d(elevated_points::<F, Point4d<F>>(points)) =~= elevated_points::<F, F>(
        xs_4d(points),
    ));
    assert(ys_4d(elevated_points::<F, Point4d<F>>(points)) =~= elevated_points::<F, F>(
        ys_4d(points),
    ));
    assert(zs_4d(elevated_points::<F, Point4d<F>>(points)) =~= elevated_points::<F, F>(
        zs_4d(points),
    ));
    assert(ws_4d(elevated_points::<F, Point4d<F>>(points)) =~= elevated_points::<F, F>(
        ws_4d(points),
    ));
    assert forall|r: nat| r < points.len() implies {
        let row = #[trigger] casteljau_row(points, t, r);
        &&& row.len() == points.len() - r
        &&& xs_4d(row) == casteljau_row(xs_4d(points), t, r)
        &&& ys_4d(row) == casteljau_row(ys_4d(points), t, r)
        &&& zs_4d(row) == casteljau_row(zs_4d(points), t, r)
        &&& ws_4d(row) == casteljau_row(ws_4d(points), t, r)
    } by {
        lemma_row_per_axis_4d(points, t, r);
        lemma_casteljau_row_len(points, t, r);
    }
    assert(xs_4d(split_left(points, t)) =~= split_left(xs_4d(points), t));
    assert(ys_4d(split_left(points, t)) =~= split_left(ys_4d(points), t));
    assert(zs_4d(split_left(points, t)) =~= split_left(zs_4d(points), t));
    assert(ws_4d(split_left(points, t)) =~= split_left(ws_4d(points), t));
    assert(xs_4d(split_right(points, t)) =~= split_right(xs_4d(points), t));
    assert(ys_4d(split_right(points, t)) =~= split_right(ys_4d(points), t));
    assert(zs_4d(split_right(points, t)) =~= split_right(zs_4d(points), t));
    assert(ws_4d(split_right(points, t)) =~= split_right(ws_4d(points), t));
}

} // verus!
