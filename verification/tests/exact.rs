use nbez::{Bez3o, Bez6o, BezCurve, Float, NBez, Point2d};

/// A rational number in lowest terms, with a positive denominator.
#[derive(Clone, Copy, Debug, PartialEq)]
struct Q {
    num: i128,
    den: i128,
}

fn gcd(a: i128, b: i128) -> i128 {
    if b == 0 {
        a.abs()
    } else {
        gcd(b, a % b)
    }
}

fn q(num: i128, den: i128) -> Q {
    assert!(den != 0);
    let g = gcd(num, den);
    let sign = if den < 0 { -1 } else { 1 };
    Q { num: sign * num / g, den: sign * den / g }
}

// The specification functions of `Float` name the results of its operations
// in contracts. Nothing that runs calls them.
impl Float for Q {
    fn zero_spec() -> Q {
        unreachable!()
    }

    fn one_spec() -> Q {
        unreachable!()
    }

    fn from_u64_spec(_: u64) -> Q {
        unreachable!()
    }

    fn add_spec(self, _: Q) -> Q {
        unreachable!()
    }

    fn sub_spec(self, _: Q) -> Q {
        unreachable!()
    }

    fn mul_spec(self, _: Q) -> Q {
        unreachable!()
    }

    fn div_spec(self, _: Q) -> Q {
        unreachable!()
    }

    fn neg_spec(self) -> Q {
        unreachable!()
    }

    fn powi_spec(self, _: u32) -> Q {
        unreachable!()
    }

    fn sqrt_spec(self) -> Q {
        unreachable!()
    }

    fn le_spec(self, _: Q) -> bool {
        unreachable!()
    }

    fn zero() -> Q {
        q(0, 1)
    }

    fn one() -> Q {
        q(1, 1)
    }

    fn from_u64(n: u64) -> Q {
        q(n as i128, 1)
    }

    fn from_u32(n: u32) -> Q {
        q(n as i128, 1)
    }

    fn from_usize(n: usize) -> Q {
        q(n as i128, 1)
    }

    fn add(self, rhs: Q) -> Q {
        q(self.num * rhs.den + rhs.num * self.den, self.den * rhs.den)
    }

    fn sub(self, rhs: Q) -> Q {
        q(self.num * rhs.den - rhs.num * self.den, self.den * rhs.den)
    }

    fn mul(self, rhs: Q) -> Q {
        q(self.num * rhs.num, self.den * rhs.den)
    }

    fn div(self, rhs: Q) -> Q {
        q(self.num * rhs.den, self.den * rhs.num)
    }

    fn neg(self) -> Q {
        q(-self.num, self.den)
    }

    fn powi(self, n: u32) -> Q {
        let mut r = q(1, 1);
        for _ in 0..n {
            r = r.mul(self);
        }
        r
    }

    fn sqrt(self) -> Q {
        panic!("a rational number need not have a rational root")
    }

    fn le(self, rhs: Q) -> bool {
        self.num * rhs.den <= rhs.num * self.den
    }
}

fn curve() -> Bez6o<Q, Q> {
    Bez6o::new(q(0, 1), q(1, 1), q(-1, 1), q(2, 1), q(-2, 1), q(3, 1), q(-7, 2))
}

#[test]
fn exact_value() {
    // (1 - t)^3 8 + 3 (1 - t)^2 t 16 - 3 (1 - t) t^2 8 + t^3 24 at t = 1/3:
    // (64 + 192 - 48 + 24) / 27
    let bez = Bez3o::new(q(8, 1), q(16, 1), q(-8, 1), q(24, 1));
    assert_eq!(bez.interp(q(1, 3)), Some(q(232, 27)));
    // 3 ((1 - t)^2 8 - 2 (1 - t) t 24 + t^2 32) at t = 1/3: 3 (32 - 96 + 32) / 9
    assert_eq!(bez.slope(q(1, 3)), Some(q(-32, 3)));
}

#[test]
fn exact_endpoints() {
    let c = curve();
    assert_eq!(c.interp(q(0, 1)), Some(q(0, 1)));
    assert_eq!(c.interp(q(1, 1)), Some(q(-7, 2)));
}

#[test]
fn exact_elevation_keeps_curve_and_slope() {
    let c = curve();
    let raised = c.elevate();
    let twice = raised.elevate();
    assert_eq!(raised.order(), 7);
    assert_eq!(twice.order(), 8);
    for i in 0..13 {
        let t = q(i, 12);
        assert_eq!(c.interp(t), raised.interp(t));
        assert_eq!(c.interp(t), twice.interp(t));
        assert_eq!(c.slope(t), raised.slope(t));
        assert_eq!(c.slope(t), twice.slope(t));
    }
}

#[test]
fn exact_split_runs_along_the_curve() {
    let c = curve();
    for j in 1..7 {
        let t = q(j, 7);
        let (left, right) = c.split(t).unwrap();
        assert_eq!(left.interp(q(1, 1)), c.interp(t));
        assert_eq!(right.interp(q(0, 1)), c.interp(t));
        for i in 0..11 {
            let s = q(i, 10);
            let whole = c.interp(s);
            if s.le(t) {
                assert_eq!(whole, left.interp(s.div(t)));
            }
            if t.le(s) {
                assert_eq!(whole, right.interp(s.sub(t).div(q(1, 1).sub(t))));
            }
        }
    }
}

#[test]
fn exact_split_in_the_plane() {
    let points: Vec<Point2d<Q>> = [(0, 0), (0, 1), (1, 0), (1, 1)]
        .iter()
        .map(|(x, y)| Point2d::new(q(*x, 1), q(*y, 1)))
        .collect();
    let c: NBez<Q, Point2d<Q>> = NBez::from_container(points);
    let half = c.interp(q(1, 2)).unwrap();
    assert_eq!((half.x, half.y), (q(1, 2), q(1, 2)));
    let (left, right) = c.split(q(1, 2)).unwrap();
    for i in 0..9 {
        let s = q(i, 8);
        let whole = c.interp(s).unwrap();
        let part = if i <= 4 {
            left.interp(s.div(q(1, 2))).unwrap()
        } else {
            right.interp(s.sub(q(1, 2)).div(q(1, 2))).unwrap()
        };
        assert_eq!((whole.x, whole.y), (part.x, part.y));
    }
}
