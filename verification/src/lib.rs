//! Bézier curve algebra: evaluation, slope, degree elevation and subdivision
//! for curves of fixed and of runtime order, over any point type that offers
//! the arithmetic in `markers`.
//!
//! - `markers`: the traits of scalars, points and vectors.
//! - `points`: points and vectors of two to four dimensions.
//! - `binomial`: binomial coefficients and the table that holds them.
//! - `algebra`: what a curve is, and the functions that compute it on plain
//!   sequences of control points.
//! - `curve`, `bez`, `nbez`: the curve trait and the two kinds of curves.
//! - `chain`: chains of curves that share their end points.
//! - `endpoints`, `exact`, `elevation`, `slope_elevation`, `casteljau`,
//!   `subdivision`: what is proved of curves beyond the contracts of the
//!   functions.

pub mod algebra;
pub mod bez;
pub mod binomial;
pub mod casteljau;
pub mod chain;
pub mod curve;
pub mod elevation;
pub mod endpoints;
pub mod exact;
pub mod markers;
pub mod nbez;
pub mod points;
pub mod slope_elevation;
pub mod subdivision;

pub use algebra::{elevate_points, in_bounds, interp_points, lerp, slope_points, split_points};
pub use bez::{Bez, Bez1o, Bez2o, Bez3o, Bez4o, Bez5o, Bez6o};
pub use binomial::{coefficients, combination, factorial, update_factors, RangeSlice, MAX_ORDER};
pub use chain::{BezChain, BezIter};
pub use curve::{interp_iter, BezCurve, InterpIter, OrderStatic};
pub use markers::{Float, PVOps, Point, Vector};
pub use nbez::NBez;
pub use points::{Point2d, Point3d, Point4d, Vector2d, Vector3d, Vector4d};
