use nbez::{
    elevate_points, in_bounds, interp_points, lerp, slope_points, split_points, Bez, Bez1o, Bez2o,
    Bez3o, Bez4o, Bez5o, Bez6o, BezChain, BezCurve, Float, NBez, OrderStatic, PVOps, Point,
    Point2d, Point3d, Point4d, Vector2d, Vector3d, Vector4d, MAX_ORDER,
};

/// Double-precision scalar.
#[derive(Clone, Copy, Debug, PartialEq)]
struct R(f64);

// The specification functions of `Float` name the results of its operations
// in contracts. Nothing that runs calls them.
impl Float for R {
    fn zero_spec() -> R {
        unreachable!()
    }

    fn one_spec() -> R {
        unreachable!()
    }

    fn from_u64_spec(_: u64) -> R {
        unreachable!()
    }

    fn add_spec(self, _: R) -> R {
        unreachable!()
    }

    fn sub_spec(self, _: R) -> R {
        unreachable!()
    }

    fn mul_spec(self, _: R) -> R {
        unreachable!()
    }

    fn div_spec(self, _: R) -> R {
        unreachable!()
    }

    fn neg_spec(self) -> R {
        unreachable!()
    }

    fn powi_spec(self, _: u32) -> R {
        unreachable!()
    }

    fn sqrt_spec(self) -> R {
        unreachable!()
    }

    fn le_spec(self, _: R) -> bool {
        unreachable!()
    }

    fn zero() -> R {
        R(0.0)
    }

    fn one() -> R {
        R(1.0)
    }

    fn from_u64(n: u64) -> R {
        R(n as f64)
    }

    fn from_u32(n: u32) -> R {
        R(n as f64)
    }

    fn from_usize(n: usize) -> R {
        R(n as f64)
    }

    fn add(self, rhs: R) -> R {
        R(self.0 + rhs.0)
    }

    fn sub(self, rhs: R) -> R {
        R(self.0 - rhs.0)
    }

    fn mul(self, rhs: R) -> R {
        R(self.0 * rhs.0)
    }

    fn div(self, rhs: R) -> R {
        R(self.0 / rhs.0)
    }

    fn neg(self) -> R {
        R(-self.0)
    }

    fn powi(self, n: u32) -> R {
        R(self.0.powi(n as i32))
    }

    fn sqrt(self) -> R {
        R(self.0.sqrt())
    }

    fn le(self, rhs: R) -> bool {
        self.0 <= rhs.0
    }
}

fn test_poly_eq<B1, B2>(nbez_poly: &B1, bez_poly: &B2)
where
    B1: BezCurve<R, Point = R>,
    B2: BezCurve<R, Point = R>,
{
    let mut t = 0.0;
    while t <= 1.0 {
        // Assert that values are equal within a tolerance.
        assert!(
            (nbez_poly.interp(R(t)).unwrap().0 - bez_poly.interp(R(t)).unwrap().0).abs()
                <= 0.000000001
        );
        t += 1.0 / 30.0;
    }
}

fn test_poly_slope_eq<B1, B2>(nbez_poly: &B1, bez_poly: &B2)
where
    B1: BezCurve<R, Point = R>,
    B2: BezCurve<R, Point = R>,
{
    let mut t = 0.0;
    while t <= 1.0 {
        // Ditto.
        assert!(
            (nbez_poly.slope(R(t)).unwrap().0 - bez_poly.slope(R(t)).unwrap().0).abs()
                <= 0.000000001
        );
        t += 1.0 / 30.0;
    }
}

#[test]
fn bez_poly_equiviliance() {
    let mut nbez_poly: NBez<R, R> = NBez::from_container(Vec::with_capacity(7));
    nbez_poly.as_mut().push(R(0.0));
    nbez_poly.as_mut().push(R(1.0));

    let bez1o = Bez1o::new(R(0.0), R(1.0));
    test_poly_eq(&nbez_poly, &bez1o);
    test_poly_slope_eq(&nbez_poly, &bez1o);

    nbez_poly.as_mut().push(R(-1.0));
    let bez2o = Bez2o::new(R(0.0), R(1.0), R(-1.0));
    test_poly_eq(&nbez_poly, &bez2o);
    test_poly_slope_eq(&nbez_poly, &bez2o);

    nbez_poly.as_mut().push(R(2.0));
    let bez3o = Bez3o::new(R(0.0), R(1.0), R(-1.0), R(2.0));
    test_poly_eq(&nbez_poly, &bez3o);
    test_poly_slope_eq(&nbez_poly, &bez3o);

    nbez_poly.as_mut().push(R(-2.0));
    let bez4o = Bez4o::new(R(0.0), R(1.0), R(-1.0), R(2.0), R(-2.0));
    test_poly_eq(&nbez_poly, &bez4o);
    test_poly_slope_eq(&nbez_poly, &bez4o);

    nbez_poly.as_mut().push(R(3.0));
    let bez5o = Bez5o::new(R(0.0), R(1.0), R(-1.0), R(2.0), R(-2.0), R(3.0));
    test_poly_eq(&nbez_poly, &bez5o);
    test_poly_slope_eq(&nbez_poly, &bez5o);

    nbez_poly.as_mut().push(R(-3.0));
    let bez6o = Bez6o::new(R(0.0), R(1.0), R(-1.0), R(2.0), R(-2.0), R(3.0), R(-3.0));
    test_poly_eq(&nbez_poly, &bez6o);
    test_poly_slope_eq(&nbez_poly, &bez6o);
}

fn test_bez_elevation<B>(curve: &B)
where
    B: BezCurve<R, Point = R>,
    B::Elevated: BezCurve<R, Point = R>,
{
    let elevated = curve.elevate();
    test_poly_eq(curve, &elevated);
    test_poly_slope_eq(curve, &elevated);
}

#[test]
fn bez_elevation() {
    test_bez_elevation(&Bez1o::new(R(0.0), R(1.0)));
    test_bez_elevation(&Bez2o::new(R(0.0), R(1.0), R(-1.0)));
    test_bez_elevation(&Bez3o::new(R(0.0), R(1.0), R(-1.0), R(2.0)));
    test_bez_elevation(&Bez4o::new(R(0.0), R(1.0), R(-1.0), R(2.0), R(-2.0)));
    test_bez_elevation(&Bez5o::new(R(0.0), R(1.0), R(-1.0), R(2.0), R(-2.0), R(3.0)));
    test_bez_elevation(&Bez6o::new(R(0.0), R(1.0), R(-1.0), R(2.0), R(-2.0), R(3.0), R(-3.0)));
}

#[test]
fn nbez_elevation() {
    let mut nbez_poly: NBez<R, R> = NBez::from_container(Vec::with_capacity(7));
    nbez_poly.as_mut().push(R(0.0));
    nbez_poly.as_mut().push(R(1.0));

    test_bez_elevation(&nbez_poly);

    nbez_poly.as_mut().push(R(-1.0));
    test_bez_elevation(&nbez_poly);

    nbez_poly.as_mut().push(R(2.0));
    test_bez_elevation(&nbez_poly);

    nbez_poly.as_mut().push(R(-2.0));
    test_bez_elevation(&nbez_poly);

    nbez_poly.as_mut().push(R(3.0));
    test_bez_elevation(&nbez_poly);

    nbez_poly.as_mut().push(R(-3.0));
    test_bez_elevation(&nbez_poly);
}

fn test_bez_split<B>(curve: &B)
where
    B: BezCurve<R, Point = R>,
{
    // Sanity check bool to make sure the assertions are actually running
    let mut has_run = false;

    let mut s = 10.0 / 30.0;
    while s < 1.0 {
        let (left, right) = curve.split(R(s)).unwrap();

        let mut t = 0.0;
        while t < 1.0 {
            if t < s {
                assert!(
                    (curve.interp(R(t)).unwrap().0 - left.interp(R(t / s)).unwrap().0).abs()
                        <= 0.000000001
                );
                has_run = true;
            } else {
                assert!(
                    (curve.interp(R(t)).unwrap().0
                        - right.interp(R((t - s) / (1.0 - s))).unwrap().0)
                        .abs()
                        <= 0.000000001
                );
                has_run = true;
            }

            t += 1.0 / 30.0;
        }

        s += 1.0 / 30.0;
    }

    assert!(has_run);
}

#[test]
fn bez_split() {
    let bez1o = Bez1o::new(R(0.0), R(1.0));
    test_bez_split(&bez1o);

    let bez2o = Bez2o::new(R(0.0), R(1.0), R(-1.0));
    test_bez_split(&bez2o);

    let bez3o = Bez3o::new(R(0.0), R(1.0), R(-1.0), R(2.0));
    test_bez_split(&bez3o);

    let bez4o = Bez4o::new(R(0.0), R(1.0), R(-1.0), R(2.0), R(-2.0));
    test_bez_split(&bez4o);

    let bez5o = Bez5o::new(R(0.0), R(1.0), R(-1.0), R(2.0), R(-2.0), R(3.0));
    test_bez_split(&bez5o);

    let bez6o = Bez6o::new(R(0.0), R(1.0), R(-1.0), R(2.0), R(-2.0), R(3.0), R(-3.0));
    test_bez_split(&bez6o);
}

fn test_interp_iter<B>(curve: &B)
where
    B: BezCurve<R, Point = R>,
{
    const SAMPLES: u32 = 30;
    let mut iter = nbez::interp_iter(curve, SAMPLES);

    for i in 0..SAMPLES + 1 {
        assert_eq!(curve.interp(R(i as f64 / SAMPLES as f64)), iter.next());
    }
    assert_eq!(None, iter.next());

    let mut iter_back = nbez::interp_iter(curve, SAMPLES);
    for i in (0..SAMPLES + 1).into_iter().map(|i| SAMPLES - i) {
        assert_eq!(curve.interp(R(i as f64 / SAMPLES as f64)), iter_back.next_back());
    }
    assert_eq!(None, iter_back.next_back());
}

#[test]
fn interp_iter() {
    let bez1o = Bez1o::new(R(0.0), R(1.0));
    test_interp_iter(&bez1o);

    let bez2o = Bez2o::new(R(0.0), R(1.0), R(-1.0));
    test_interp_iter(&bez2o);

    let bez3o = Bez3o::new(R(0.0), R(1.0), R(-1.0), R(2.0));
    test_interp_iter(&bez3o);

    let bez4o = Bez4o::new(R(0.0), R(1.0), R(-1.0), R(2.0), R(-2.0));
    test_interp_iter(&bez4o);

    let bez5o = Bez5o::new(R(0.0), R(1.0), R(-1.0), R(2.0), R(-2.0), R(3.0));
    test_interp_iter(&bez5o);

    let bez6o = Bez6o::new(R(0.0), R(1.0), R(-1.0), R(2.0), R(-2.0), R(3.0), R(-3.0));
    test_interp_iter(&bez6o);
}

fn close(a: f64, b: f64) -> bool {
    (a - b).abs() <= 0.000000001
}

fn scalars(values: &[f64]) -> Vec<R> {
    values.iter().map(|v| R(*v)).collect()
}

fn plain(values: &[R]) -> Vec<f64> {
    values.iter().map(|v| v.0).collect()
}

fn nbez_of(values: &[f64]) -> NBez<R, R> {
    NBez::from_container(scalars(values))
}

#[test]
fn bounds_of_the_parameter() {
    assert!(in_bounds(R(0.0)));
    assert!(in_bounds(R(0.5)));
    assert!(in_bounds(R(1.0)));
    assert!(!in_bounds(R(-0.000001)));
    assert!(!in_bounds(R(1.000001)));
    assert!(!in_bounds(R(f64::NAN)));
}

#[test]
fn out_of_range_gives_nothing() {
    let bez = Bez3o::new(R(0.0), R(1.0), R(-1.0), R(2.0));
    let nbez = nbez_of(&[0.0, 1.0, -1.0, 2.0]);
    for t in [-0.5, -0.000001, 1.000001, 2.0, f64::NAN, f64::INFINITY] {
        assert_eq!(bez.interp(R(t)), None);
        assert_eq!(bez.slope(R(t)), None);
        assert!(bez.split(R(t)).is_none());
        assert_eq!(nbez.interp(R(t)), None);
        assert_eq!(nbez.slope(R(t)), None);
        assert!(nbez.split(R(t)).is_none());
    }
    assert!(bez.interp(R(0.0)).is_some());
    assert!(bez.slope(R(1.0)).is_some());
    assert!(bez.split(R(0.5)).is_some());
}

#[test]
fn unbounded_evaluation_extrapolates() {
    // The line from 0 to 1, followed beyond its ends.
    let bez = Bez1o::new(R(0.0), R(1.0));
    assert_eq!(bez.interp_unbounded(R(2.0)), R(2.0));
    assert_eq!(bez.interp_unbounded(R(-1.0)), R(-1.0));
    assert_eq!(bez.slope_unbounded(R(5.0)), R(1.0));
}

#[test]
fn lerp_formula() {
    assert_eq!(lerp(R(2.0), R(6.0), R(0.25)), R(3.0));
    assert_eq!(lerp(R(2.0), R(6.0), R(0.0)), R(2.0));
    assert_eq!(lerp(R(2.0), R(6.0), R(1.0)), R(6.0));
    let p = lerp(Point2d::new(R(0.0), R(4.0)), Point2d::new(R(8.0), R(0.0)), R(0.5));
    assert_eq!((p.x, p.y), (R(4.0), R(2.0)));
}

#[test]
fn bernstein_formula() {
    // (1 - t)^2 a + 2 (1 - t) t b + t^2 c at t = 1/2, 1/4
    let bez = Bez2o::new(R(4.0), R(8.0), R(-4.0));
    assert_eq!(bez.interp(R(0.5)), Some(R(4.0)));
    assert_eq!(bez.interp(R(0.25)), Some(R(5.0)));
    // (1 - t)^3 a + 3 (1 - t)^2 t b + 3 (1 - t) t^2 c + t^3 d at t = 1/2
    let bez = Bez3o::new(R(8.0), R(16.0), R(-8.0), R(24.0));
    assert_eq!(bez.interp(R(0.5)), Some(R(7.0)));
    let coefficients = nbez::coefficients(3);
    let points = scalars(&[8.0, 16.0, -8.0, 24.0]);
    assert_eq!(interp_points(&points, &coefficients, R(0.5)), R(7.0));
}

#[test]
fn slope_formula() {
    // 2 (1 - t) (b - a) + 2 t (c - b)
    let bez = Bez2o::new(R(4.0), R(8.0), R(-4.0));
    assert_eq!(bez.slope(R(0.0)), Some(R(8.0)));
    assert_eq!(bez.slope(R(1.0)), Some(R(-24.0)));
    assert_eq!(bez.slope(R(0.5)), Some(R(-8.0)));
    let nbez = nbez_of(&[4.0, 8.0, -4.0]);
    assert_eq!(nbez.slope(R(0.5)), Some(R(-8.0)));
    let dfactors = nbez::coefficients(1);
    let points = scalars(&[4.0, 8.0, -4.0]);
    assert_eq!(slope_points(&points, &dfactors, R(0.25)), R(0.0));
}

#[test]
fn slope_of_a_plane_curve_is_a_vector() {
    let bez = Bez1o::new(Point2d::new(R(1.0), R(1.0)), Point2d::new(R(4.0), R(5.0)));
    let v: Vector2d<R> = bez.slope(R(0.5)).unwrap();
    assert_eq!((v.x, v.y), (R(3.0), R(4.0)));
    assert_eq!(v.len(), R(5.0));
}

#[test]
fn elevation_formula() {
    let bez = Bez1o::new(R(0.0), R(1.0));
    let raised = bez.elevate();
    assert_eq!(raised.order(), 2);
    assert_eq!(plain(raised.as_ref()), vec![0.0, 0.5, 1.0]);

    // point i is (i / 4) P[i - 1] + (1 - i / 4) P[i]
    let bez = Bez3o::new(R(0.0), R(4.0), R(8.0), R(-4.0));
    let raised = bez.elevate();
    assert_eq!(raised.order(), 4);
    assert_eq!(plain(raised.as_ref()), vec![0.0, 3.0, 6.0, 5.0, -4.0]);

    let points = scalars(&[0.0, 4.0, 8.0, -4.0]);
    assert_eq!(plain(&elevate_points::<R, R>(&points)), vec![0.0, 3.0, 6.0, 5.0, -4.0]);
    let nbez = nbez_of(&[0.0, 4.0, 8.0, -4.0]);
    assert_eq!(plain(nbez.elevate().as_ref()), vec![0.0, 3.0, 6.0, 5.0, -4.0]);
}

#[test]
fn elevation_keeps_the_ends() {
    let nbez = nbez_of(&[3.0, 1.0, 4.0, 1.0, 5.0, 9.0, 2.0]);
    let raised = nbez.elevate();
    let points = raised.as_ref();
    assert_eq!(points.len(), 8);
    assert_eq!(points[0], R(3.0));
    assert_eq!(points[7], R(2.0));
}

#[test]
fn split_of_a_segment() {
    let bez = Bez1o::new(R(2.0), R(6.0));
    let (left, right) = bez.split(R(0.25)).unwrap();
    assert_eq!(plain(left.as_ref()), vec![2.0, 3.0]);
    assert_eq!(plain(right.as_ref()), vec![3.0, 6.0]);
}

#[test]
fn split_triangle() {
    // rows at t = 1/2: [0 8 8 0], [4 8 4], [6 6], [6]
    let bez = Bez3o::new(R(0.0), R(8.0), R(8.0), R(0.0));
    let (left, right) = bez.split_unbounded(R(0.5));
    assert_eq!(plain(left.as_ref()), vec![0.0, 4.0, 6.0, 6.0]);
    assert_eq!(plain(right.as_ref()), vec![6.0, 6.0, 4.0, 0.0]);
    assert_eq!(left.order(), 3);
    assert_eq!(right.order(), 3);

    // rows at t = 1/4: [0 4 8 -4], [1 5 5], [2 5], [2.75]
    let points = scalars(&[0.0, 4.0, 8.0, -4.0]);
    let (left, right) = split_points(&points, R(0.25));
    assert_eq!(plain(&left), vec![0.0, 1.0, 2.0, 2.75]);
    assert_eq!(plain(&right), vec![2.75, 5.0, 5.0, -4.0]);
}

#[test]
fn split_parts_meet_on_the_curve() {
    let bez = Bez6o::new(R(0.0), R(1.0), R(-1.0), R(2.0), R(-2.0), R(3.0), R(-3.0));
    let t = 0.375;
    let (left, right) = bez.split(R(t)).unwrap();
    let at = bez.interp(R(t)).unwrap().0;
    assert_eq!(left.as_ref()[0], R(0.0));
    assert_eq!(right.as_ref()[6], R(-3.0));
    assert_eq!(left.as_ref()[6], right.as_ref()[0]);
    assert!(close(left.as_ref()[6].0, at));
}

#[test]
fn nbez_split_matches_the_curve() {
    let nbez = nbez_of(&[0.0, 1.0, -1.0, 2.0, -2.0]);
    let s = 0.4;
    let (left, right) = nbez.split(R(s)).unwrap();
    assert_eq!(left.order(), 4);
    assert_eq!(right.order(), 4);
    for i in 0..31 {
        let t = i as f64 / 30.0;
        let whole = nbez.interp(R(t)).unwrap().0;
        if t < s {
            assert!(close(whole, left.interp(R(t / s)).unwrap().0));
        } else {
            assert!(close(whole, right.interp(R((t - s) / (1.0 - s))).unwrap().0));
        }
    }
}

#[test]
fn endpoints_of_fixed_orders() {
    let points = [0.5, 1.0, -1.0, 2.0, -2.0, 3.0, -3.5];
    let bez1o = Bez1o::new(R(0.5), R(1.0));
    assert_eq!(bez1o.interp(R(0.0)), Some(R(0.5)));
    assert_eq!(bez1o.interp(R(1.0)), Some(R(1.0)));
    let bez2o = Bez2o::new(R(0.5), R(1.0), R(-1.0));
    assert_eq!(bez2o.interp(R(0.0)), Some(R(0.5)));
    assert_eq!(bez2o.interp(R(1.0)), Some(R(-1.0)));
    let bez3o = Bez3o::new(R(0.5), R(1.0), R(-1.0), R(2.0));
    assert_eq!(bez3o.interp(R(0.0)), Some(R(0.5)));
    assert_eq!(bez3o.interp(R(1.0)), Some(R(2.0)));
    let bez4o = Bez4o::new(R(0.5), R(1.0), R(-1.0), R(2.0), R(-2.0));
    assert_eq!(bez4o.interp(R(0.0)), Some(R(0.5)));
    assert_eq!(bez4o.interp(R(1.0)), Some(R(-2.0)));
    let bez5o = Bez5o::new(R(0.5), R(1.0), R(-1.0), R(2.0), R(-2.0), R(3.0));
    assert_eq!(bez5o.interp(R(0.0)), Some(R(0.5)));
    assert_eq!(bez5o.interp(R(1.0)), Some(R(3.0)));
    let bez6o: Bez6o<R, R> = BezCurve::from_slice(&scalars(&points)).unwrap();
    assert_eq!(bez6o.interp(R(0.0)), Some(R(0.5)));
    assert_eq!(bez6o.interp(R(1.0)), Some(R(-3.5)));
}

#[test]
fn endpoints_of_every_runtime_order() {
    let mut points = Vec::new();
    for i in 0..MAX_ORDER + 1 {
        points.push(R(0.25 + i as f64 * 1.5));
        let nbez: NBez<R, R> = NBez::from_container(points.clone());
        assert_eq!(nbez.order(), i);
        assert_eq!(nbez.interp(R(0.0)), Some(points[0]));
        assert_eq!(nbez.interp(R(1.0)), Some(points[i]));
    }
}

#[test]
fn cubic_in_the_plane() {
    let curve = Bez3o::new(
        Point2d::new(R(0.0), R(0.0)),
        Point2d::new(R(0.0), R(1.0)),
        Point2d::new(R(1.0), R(0.0)),
        Point2d::new(R(1.0), R(1.0)),
    );
    let p = curve.interp(R(0.0)).unwrap();
    assert_eq!((p.x, p.y), (R(0.0), R(0.0)));
    let p = curve.interp(R(1.0)).unwrap();
    assert_eq!((p.x, p.y), (R(1.0), R(1.0)));
    let p = curve.interp(R(0.5)).unwrap();
    assert_eq!((p.x, p.y), (R(0.5), R(0.5)));

    let (left, right) = curve.split(R(0.5)).unwrap();
    assert_eq!(left.order(), 3);
    assert_eq!(right.order(), 3);
    for i in 0..101 {
        let t = i as f64 / 100.0;
        let whole = curve.interp(R(t)).unwrap();
        let part = if t <= 0.5 {
            left.interp(R(t / 0.5)).unwrap()
        } else {
            right.interp(R((t - 0.5) / 0.5)).unwrap()
        };
        assert!(close(whole.x.0, part.x.0));
        assert!(close(whole.y.0, part.y.0));
    }
}

#[test]
fn plane_curve_is_the_curve_of_each_axis() {
    let xs = [0.0, 2.0, -1.0, 3.0, 0.5];
    let ys = [1.0, -2.0, 4.0, 0.0, 2.5];
    let points: Vec<Point2d<R>> =
        xs.iter().zip(ys.iter()).map(|(x, y)| Point2d::new(R(*x), R(*y))).collect();
    let curve: Bez4o<R, Point2d<R>> = BezCurve::from_slice(&points).unwrap();
    let curve_x: Bez4o<R, R> = BezCurve::from_slice(&scalars(&xs)).unwrap();
    let curve_y: Bez4o<R, R> = BezCurve::from_slice(&scalars(&ys)).unwrap();
    for i in 0..31 {
        let t = R(i as f64 / 30.0);
        let p = curve.interp(t).unwrap();
        assert_eq!(p.x, curve_x.interp(t).unwrap());
        assert_eq!(p.y, curve_y.interp(t).unwrap());
        let v = curve.slope(t).unwrap();
        assert_eq!(v.x, curve_x.slope(t).unwrap());
        assert_eq!(v.y, curve_y.slope(t).unwrap());
    }
    let raised = curve.elevate();
    let raised_x = curve_x.elevate();
    for (p, x) in raised.as_ref().iter().zip(raised_x.as_ref().iter()) {
        assert_eq!(p.x, *x);
    }
    let (left, right) = curve.split(R(0.3)).unwrap();
    let (left_y, right_y) = curve_y.split(R(0.3)).unwrap();
    for (p, y) in left.as_ref().iter().zip(left_y.as_ref().iter()) {
        assert_eq!(p.y, *y);
    }
    for (p, y) in right.as_ref().iter().zip(right_y.as_ref().iter()) {
        assert_eq!(p.y, *y);
    }
}

#[test]
fn from_slice_wants_order_plus_one_points() {
    let points = scalars(&[0.0, 1.0, 2.0, 3.0]);
    assert!(<Bez3o<R, R> as BezCurve<R>>::from_slice(&points).is_some());
    assert!(<Bez2o<R, R> as BezCurve<R>>::from_slice(&points).is_none());
    assert!(<Bez4o<R, R> as BezCurve<R>>::from_slice(&points).is_none());
    assert!(<Bez3o<R, R> as BezCurve<R>>::from_slice(&points[..3]).is_none());
    assert!(<Bez3o<R, R> as BezCurve<R>>::from_slice(&[]).is_none());
    let curve = <Bez3o<R, R> as BezCurve<R>>::from_slice(&points).unwrap();
    assert_eq!(plain(curve.as_ref()), vec![0.0, 1.0, 2.0, 3.0]);
}

#[test]
fn from_slice_refuses_unsupported_orders() {
    assert!(<Bez<R, R, 0> as BezCurve<R>>::from_slice(&scalars(&[1.0])).is_none());
    let many = vec![R(1.0); 22];
    assert!(<Bez<R, R, 21> as BezCurve<R>>::from_slice(&many).is_none());
    assert!(<Bez<R, R, 20> as BezCurve<R>>::from_slice(&many[..21]).is_some());
}

#[test]
fn nbez_from_slice_takes_the_order_from_the_length() {
    let points = scalars(&[0.0, 1.0, 2.0]);
    let curve = <NBez<R, R> as BezCurve<R>>::from_slice(&points).unwrap();
    assert_eq!(curve.order(), 2);
    assert_eq!(plain(curve.as_ref()), vec![0.0, 1.0, 2.0]);
    assert!(<NBez<R, R> as BezCurve<R>>::from_slice(&[]).is_none());
    let many = vec![R(1.0); 22];
    assert!(<NBez<R, R> as BezCurve<R>>::from_slice(&many).is_none());
    assert_eq!(<NBez<R, R> as BezCurve<R>>::from_slice(&many[..21]).unwrap().order(), 20);
}

#[test]
fn nbez_unwrap_returns_the_container() {
    let nbez = nbez_of(&[1.0, 2.0, 3.0]);
    assert_eq!(plain(&nbez.unwrap()), vec![1.0, 2.0, 3.0]);
}

#[test]
fn nbez_table_follows_the_order() {
    let mut nbez = nbez_of(&[0.0, 1.0, -1.0]);
    let before = nbez.interp(R(0.3)).unwrap();
    let slope_before = nbez.slope(R(0.3)).unwrap();
    nbez.update_factors();
    assert_eq!(nbez.interp(R(0.3)), Some(before));
    assert_eq!(nbez.slope(R(0.3)), Some(slope_before));

    // The table is of order 2; the curve now gets order 3.
    nbez.as_mut().push(R(2.0));
    let bez3o = Bez3o::new(R(0.0), R(1.0), R(-1.0), R(2.0));
    assert_eq!(nbez.interp(R(0.3)), bez3o.interp(R(0.3)));
    assert_eq!(nbez.slope(R(0.3)), bez3o.slope(R(0.3)));
    nbez.update_factors();
    assert_eq!(nbez.interp(R(0.3)), bez3o.interp(R(0.3)));
    assert_eq!(nbez.slope(R(0.3)), bez3o.slope(R(0.3)));
}

#[test]
fn order_of_curves() {
    assert_eq!(Bez1o::new(R(0.0), R(1.0)).order(), 1);
    assert_eq!(Bez3o::new(R(0.0), R(1.0), R(2.0), R(3.0)).order(), 3);
    assert_eq!(<Bez6o<R, R> as OrderStatic>::order_static(), 6);
    assert_eq!(nbez_of(&[0.0]).order(), 0);
    assert_eq!(nbez_of(&[0.0, 1.0, 2.0, 3.0, 4.0]).order(), 4);
}

#[test]
fn curve_of_order_zero_is_its_point() {
    let nbez = nbez_of(&[7.0]);
    assert_eq!(nbez.interp(R(0.0)), Some(R(7.0)));
    assert_eq!(nbez.interp(R(0.5)), Some(R(7.0)));
    assert_eq!(nbez.interp(R(1.0)), Some(R(7.0)));
}

#[test]
fn set_moves_a_control_point() {
    let mut bez = Bez2o::new(R(0.0), R(1.0), R(2.0));
    bez.set(1, R(5.0));
    assert_eq!(plain(bez.as_ref()), vec![0.0, 5.0, 2.0]);
    assert_eq!(bez.interp(R(0.5)), Some(R(3.0)));
}

fn chain_of(n: usize) -> BezChain<R, Bez3o<R, R>> {
    BezChain::from_container((0..n).map(|i| R(i as f64)).collect())
}

#[test]
fn chain_counts_whole_curves() {
    assert_eq!(chain_of(0).curve_count(), 0);
    assert_eq!(chain_of(1).curve_count(), 0);
    assert_eq!(chain_of(3).curve_count(), 0);
    assert_eq!(chain_of(4).curve_count(), 1);
    assert_eq!(chain_of(6).curve_count(), 1);
    assert_eq!(chain_of(7).curve_count(), 2);
    assert_eq!(chain_of(9).curve_count(), 2);
    assert_eq!(chain_of(10).curve_count(), 3);
    for k in 0..6 {
        assert_eq!(chain_of(k * 3 + 1).curve_count(), k);
    }
}

#[test]
fn chain_curves_share_their_ends() {
    let chain = chain_of(13);
    assert_eq!(chain.curve_count(), 4);
    for i in 0..3 {
        let here = chain.get(i).unwrap();
        let next = chain.get(i + 1).unwrap();
        assert_eq!(here.as_ref()[3], next.as_ref()[0]);
        assert_eq!(here.as_ref()[3], R(((i + 1) * 3) as f64));
    }
    assert_eq!(plain(chain.get(2).unwrap().as_ref()), vec![6.0, 7.0, 8.0, 9.0]);
}

#[test]
fn chain_get_out_of_range() {
    let chain = chain_of(7);
    assert!(chain.get(0).is_some());
    assert!(chain.get(1).is_some());
    assert!(chain.get(2).is_none());
    assert!(chain.get(usize::MAX).is_none());
    assert!(chain_of(0).get(0).is_none());
    // The points left over at the end fill no curve.
    let chain = chain_of(9);
    assert!(chain.get(1).is_some());
    assert!(chain.get(2).is_none());
}

#[test]
fn chain_iterates_forward() {
    let chain = chain_of(11);
    let mut iter = chain.iter();
    assert_eq!(iter.size_hint(), (3, Some(3)));
    assert_eq!(plain(iter.next().unwrap().as_ref()), vec![0.0, 1.0, 2.0, 3.0]);
    assert_eq!(iter.size_hint(), (2, Some(2)));
    assert_eq!(plain(iter.next().unwrap().as_ref()), vec![3.0, 4.0, 5.0, 6.0]);
    assert_eq!(plain(iter.next().unwrap().as_ref()), vec![6.0, 7.0, 8.0, 9.0]);
    assert_eq!(iter.size_hint(), (0, Some(0)));
    assert!(iter.next().is_none());
    assert!(iter.next().is_none());
}

#[test]
fn chain_iterates_backward() {
    let chain = chain_of(11);
    let mut iter = chain.iter();
    assert_eq!(plain(iter.next_back().unwrap().as_ref()), vec![6.0, 7.0, 8.0, 9.0]);
    assert_eq!(iter.size_hint(), (2, Some(2)));
    assert_eq!(plain(iter.next_back().unwrap().as_ref()), vec![3.0, 4.0, 5.0, 6.0]);
    assert_eq!(plain(iter.next_back().unwrap().as_ref()), vec![0.0, 1.0, 2.0, 3.0]);
    assert!(iter.next_back().is_none());
    assert!(iter.next().is_none());
}

#[test]
fn chain_backward_is_forward_reversed() {
    for n in 0..20 {
        let chain = chain_of(n);
        let mut forward = Vec::new();
        let mut iter = chain.iter();
        while let Some(curve) = iter.next() {
            forward.push(plain(curve.as_ref()));
        }
        let mut backward = Vec::new();
        let mut iter = chain.iter();
        while let Some(curve) = iter.next_back() {
            backward.push(plain(curve.as_ref()));
        }
        backward.reverse();
        assert_eq!(forward, backward);
        assert_eq!(forward.len(), chain.curve_count());
        for (i, points) in forward.iter().enumerate() {
            assert_eq!(*points, plain(chain.get(i).unwrap().as_ref()));
        }
    }
}

#[test]
fn chain_iterates_from_both_ends() {
    let chain = chain_of(15);
    let mut iter = chain.iter();
    assert_eq!(plain(iter.next().unwrap().as_ref()), vec![0.0, 1.0, 2.0, 3.0]);
    assert_eq!(plain(iter.next_back().unwrap().as_ref()), vec![9.0, 10.0, 11.0, 12.0]);
    assert_eq!(plain(iter.next().unwrap().as_ref()), vec![3.0, 4.0, 5.0, 6.0]);
    assert_eq!(plain(iter.next_back().unwrap().as_ref()), vec![6.0, 7.0, 8.0, 9.0]);
    assert!(iter.next().is_none());
    assert!(iter.next_back().is_none());
}

#[test]
fn chain_shows_changes_of_its_points() {
    let mut chain = chain_of(4);
    assert_eq!(chain.curve_count(), 1);
    chain.as_mut().push(R(4.0));
    chain.as_mut().push(R(5.0));
    assert_eq!(chain.curve_count(), 1);
    chain.as_mut().push(R(6.0));
    assert_eq!(chain.curve_count(), 2);
    chain.as_mut()[3] = R(30.0);
    assert_eq!(plain(chain.get(0).unwrap().as_ref()), vec![0.0, 1.0, 2.0, 30.0]);
    assert_eq!(plain(chain.get(1).unwrap().as_ref()), vec![30.0, 4.0, 5.0, 6.0]);
    assert_eq!(chain.as_ref().len(), 7);
    assert_eq!(chain.unwrap().len(), 7);
}

#[test]
fn chain_order() {
    let chain = chain_of(4);
    assert_eq!(chain.order(), 3);
    assert_eq!(<BezChain<R, Bez3o<R, R>> as OrderStatic>::order_static(), 3);
    let chain: BezChain<R, Bez1o<R, R>> = BezChain::from_container(scalars(&[1.0, 2.0, 3.0]));
    assert_eq!(chain.order(), 1);
    assert_eq!(chain.curve_count(), 2);
}

#[test]
fn interp_iter_counts_its_points() {
    let bez = Bez2o::new(R(0.0), R(1.0), R(-1.0));
    let mut iter = nbez::interp_iter(&bez, 4);
    assert_eq!(iter.size_hint(), (5, Some(5)));
    assert_eq!(iter.next(), bez.interp(R(0.0)));
    assert_eq!(iter.next_back(), bez.interp(R(1.0)));
    assert_eq!(iter.size_hint(), (3, Some(3)));
    assert_eq!(iter.next(), bez.interp(R(0.25)));
    assert_eq!(iter.next_back(), bez.interp(R(0.75)));
    assert_eq!(iter.next_back(), bez.interp(R(0.5)));
    assert_eq!(iter.size_hint(), (0, Some(0)));
    assert_eq!(iter.next(), None);
    assert_eq!(iter.next_back(), None);
}

#[test]
fn interp_iter_without_samples() {
    // The one parameter is 0 / 0, which lies in no range.
    let bez = Bez1o::new(R(0.0), R(1.0));
    let mut iter = nbez::interp_iter(&bez, 0);
    assert_eq!(iter.size_hint(), (1, Some(1)));
    assert_eq!(iter.next_back(), None);
    assert_eq!(iter.size_hint(), (0, Some(0)));
    assert_eq!(iter.next(), None);
}

#[test]
fn interp_iter_at_the_largest_count() {
    let bez = Bez1o::new(R(0.0), R(1.0));
    let mut iter = nbez::interp_iter(&bez, u32::MAX);
    assert_eq!(iter.next_back(), Some(R(1.0)));
    assert_eq!(iter.next(), Some(R(0.0)));
    assert_eq!(iter.size_hint(), (4294967294, Some(4294967294)));
}

#[test]
fn perp_is_a_quarter_turn() {
    let v = Vector2d::new(R(1.0), R(2.0)).perp();
    assert_eq!((v.x, v.y), (R(-2.0), R(1.0)));
    let w = v.perp();
    assert_eq!((w.x, w.y), (R(-1.0), R(-2.0)));
}

#[test]
fn vector_length_and_normal() {
    let v = Vector2d::new(R(3.0), R(4.0));
    assert_eq!(v.len(), R(5.0));
    let n = v.normalize();
    assert_eq!((n.x, n.y), (R(0.6), R(0.8)));
    let v = Vector3d::new(R(2.0), R(3.0), R(6.0));
    assert_eq!(v.len(), R(7.0));
    let v = Vector4d::new(R(1.0), R(1.0), R(1.0), R(1.0));
    assert_eq!(v.len(), R(2.0));
    let n = v.neg();
    assert_eq!((n.x, n.y, n.z, n.w), (R(-1.0), R(-1.0), R(-1.0), R(-1.0)));
}

#[test]
fn point_and_vector_arithmetic() {
    let p = Point2d::new(R(1.0), R(2.0));
    let q = Point2d::new(R(4.0), R(6.0));
    let d = q.minus(p);
    assert_eq!((d.x, d.y), (R(3.0), R(4.0)));
    let s = p.plus(q).times(R(2.0)).over(R(4.0));
    assert_eq!((s.x, s.y), (R(2.5), R(4.0)));
    let o: Point2d<R> = PVOps::origin();
    assert_eq!((o.x, o.y), (R(0.0), R(0.0)));
    let v = q.into_vector();
    assert_eq!((v.x, v.y), (R(4.0), R(6.0)));
    let moved = p.plus_vector(v);
    assert_eq!((moved.x, moved.y), (R(5.0), R(8.0)));
    let back = moved.minus_vector(v).into_vector().into_point();
    assert_eq!((back.x, back.y), (R(1.0), R(2.0)));

    let p = Point3d::new(R(1.0), R(2.0), R(3.0));
    let v = p.into_vector().neg();
    let q = p.plus_vector(v);
    assert_eq!((q.x, q.y, q.z), (R(0.0), R(0.0), R(0.0)));
    let p = Point4d::new(R(1.0), R(2.0), R(3.0), R(4.0)).times(R(2.0));
    assert_eq!((p.x, p.y, p.z, p.w), (R(2.0), R(4.0), R(6.0), R(8.0)));
}

#[test]
fn scalars_are_points_on_the_line() {
    assert_eq!(R(2.0).plus(R(3.0)), R(5.0));
    assert_eq!(R(2.0).minus(R(3.0)), R(-1.0));
    assert_eq!(R(2.0).times(R(3.0)), R(6.0));
    assert_eq!(R(3.0).over(R(2.0)), R(1.5));
    assert_eq!(<R as PVOps<R>>::origin(), R(0.0));
    assert_eq!(<R as Point<R>>::into_vector(R(4.0)), R(4.0));
}

#[test]
fn curve_in_space() {
    let curve = Bez2o::new(
        Point3d::new(R(0.0), R(0.0), R(0.0)),
        Point3d::new(R(2.0), R(4.0), R(8.0)),
        Point3d::new(R(4.0), R(0.0), R(0.0)),
    );
    let p = curve.interp(R(0.5)).unwrap();
    assert_eq!((p.x, p.y, p.z), (R(2.0), R(2.0), R(4.0)));
    let v: Vector3d<R> = curve.slope(R(0.0)).unwrap();
    assert_eq!((v.x, v.y, v.z), (R(4.0), R(8.0), R(16.0)));
}

#[test]
fn curves_can_be_cloned() {
    let bez = Bez2o::new(R(0.0), R(1.0), R(-1.0));
    let mut copy = bez.clone();
    copy.set(1, R(5.0));
    assert_eq!(plain(bez.as_ref()), vec![0.0, 1.0, -1.0]);
    assert_eq!(plain(copy.as_ref()), vec![0.0, 5.0, -1.0]);

    let mut nbez = nbez_of(&[0.0, 1.0, -1.0]);
    nbez.update_factors();
    let mut copy = nbez.clone();
    copy.as_mut().push(R(2.0));
    assert_eq!(nbez.order(), 2);
    assert_eq!(copy.order(), 3);
    assert_eq!(nbez.interp(R(0.5)), bez.interp(R(0.5)));
    assert_eq!(copy.interp(R(0.5)), Bez3o::new(R(0.0), R(1.0), R(-1.0), R(2.0)).interp(R(0.5)));

    let chain = chain_of(7);
    let mut copy = chain.clone();
    copy.as_mut().pop();
    assert_eq!(chain.curve_count(), 2);
    assert_eq!(copy.curve_count(), 1);
}

#[test]
fn curves_can_be_printed() {
    let bez = Bez1o::new(R(0.0), R(1.0));
    assert!(format!("{:?}", bez).contains("Bez"));
    assert!(format!("{:?}", nbez_of(&[0.0])).contains("NBez"));
    assert!(format!("{:?}", chain_of(1)).contains("BezChain"));
}

#[test]
fn rounding_separates_an_elevated_curve_from_its_origin() {
    let bez = Bez3o::new(R(0.0), R(1.0), R(-1.0), R(2.0));
    let raised = bez.elevate();
    let t = R(24.0 / 30.0);
    let a = bez.interp(t).unwrap().0;
    let b = raised.interp(t).unwrap().0;
    assert_eq!(a, 0.7360000000000002);
    assert_eq!(b, 0.7360000000000003);
    assert!(close(a, b));
}

#[test]
fn rounding_separates_a_part_from_its_curve() {
    let bez = Bez3o::new(R(0.0), R(1.0), R(-1.0), R(2.0));
    let (left, _) = bez.split(R(0.5)).unwrap();
    let s = 6.0 / 30.0;
    let a = bez.interp(R(s)).unwrap().0;
    let b = left.interp(R(s / 0.5)).unwrap().0;
    assert_eq!(a, 0.3040000000000001);
    assert_eq!(b, 0.304);
    assert!(close(a, b));
}

#[test]
fn an_infinite_control_point_spoils_the_ends() {
    // The term of the infinite point is infinity times zero.
    let bez = Bez1o::new(R(0.0), R(f64::INFINITY));
    assert!(bez.interp(R(0.0)).unwrap().0.is_nan());
    let bez = Bez1o::new(R(f64::NEG_INFINITY), R(1.0));
    assert!(bez.interp(R(1.0)).unwrap().0.is_nan());
}

#[test]
fn coordinates_by_index() {
    let mut p = Point3d::new(R(1.0), R(2.0), R(3.0));
    assert_eq!(Point3d::<R>::dims(), 3);
    assert_eq!(p.get(0), R(1.0));
    assert_eq!(p.get(1), R(2.0));
    assert_eq!(p.get(2), R(3.0));
    p.set(1, R(5.0));
    assert_eq!((p.x, p.y, p.z), (R(1.0), R(5.0), R(3.0)));
    assert_eq!(p.into_array(), [R(1.0), R(5.0), R(3.0)]);

    let mut v = Vector2d::from_array([R(7.0), R(8.0)]);
    assert_eq!(Vector2d::<R>::dims(), 2);
    assert_eq!((v.x, v.y), (R(7.0), R(8.0)));
    v.set(0, R(-1.0));
    v.set(1, R(-2.0));
    assert_eq!(v.into_array(), [R(-1.0), R(-2.0)]);

    let mut w = Vector4d::from_array([R(1.0), R(2.0), R(3.0), R(4.0)]);
    assert_eq!(Vector4d::<R>::dims(), 4);
    w.set(3, R(9.0));
    assert_eq!(w.get(3), R(9.0));
    assert_eq!(w.get(2), R(3.0));
    let q = Point4d::from_array(w.into_array());
    assert_eq!((q.x, q.y, q.z, q.w), (R(1.0), R(2.0), R(3.0), R(9.0)));
    let r = Point2d::from_array([R(0.5), R(1.5)]);
    assert_eq!(r.get(1), R(1.5));
    assert_eq!(Vector3d::from_array([R(1.0), R(2.0), R(2.0)]).len(), R(3.0));
}
