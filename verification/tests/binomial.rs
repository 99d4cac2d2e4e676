use nbez::{coefficients, combination, factorial, update_factors, RangeSlice, MAX_ORDER};

#[test]
fn factorial_values() {
    assert_eq!(factorial(0), 1);
    assert_eq!(factorial(1), 1);
    assert_eq!(factorial(5), 120);
    assert_eq!(factorial(10), 3628800);
    assert_eq!(factorial(20), 2432902008176640000);
}

#[test]
fn combination_values() {
    assert_eq!(combination(0, 0), 1);
    assert_eq!(combination(1, 0), 1);
    assert_eq!(combination(1, 1), 1);
    assert_eq!(combination(4, 2), 6);
    assert_eq!(combination(6, 3), 20);
    assert_eq!(combination(20, 10), 184756);
    assert_eq!(combination(20, 0), 1);
    assert_eq!(combination(20, 20), 1);
}

#[test]
fn coefficients_are_pascal_rows() {
    assert_eq!(coefficients(0), vec![1]);
    assert_eq!(coefficients(1), vec![1, 1]);
    assert_eq!(coefficients(2), vec![1, 2, 1]);
    assert_eq!(coefficients(3), vec![1, 3, 3, 1]);
    assert_eq!(coefficients(6), vec![1, 6, 15, 20, 15, 6, 1]);
}

#[test]
fn coefficients_follow_pascals_rule_up_to_the_highest_order() {
    for n in 1..MAX_ORDER + 1 {
        let row = coefficients(n);
        let above = coefficients(n - 1);
        assert_eq!(row.len(), n + 1);
        assert_eq!(row[0], 1);
        assert_eq!(row[n], 1);
        for k in 1..n {
            assert_eq!(row[k], above[k - 1] + above[k]);
        }
    }
}

#[test]
fn coefficients_do_not_depend_on_the_order_of_calls() {
    let first = coefficients(5);
    let _higher = coefficients(12);
    let _lower = coefficients(2);
    assert_eq!(coefficients(5), first);
    assert_eq!(first, vec![1, 5, 10, 10, 5, 1]);
}

#[test]
fn update_factors_fills_the_table() {
    let mut vec = Vec::new();
    let mut factors = RangeSlice::new(0, 0);
    let mut dfactors = RangeSlice::new(0, 0);
    update_factors(3, &mut factors, &mut dfactors, &mut vec);
    assert_eq!(vec, vec![1, 3, 3, 1, 1, 2, 1]);
    assert_eq!((factors.start, factors.end), (0, 4));
    assert_eq!((dfactors.start, dfactors.end), (4, 7));
    assert_eq!(&vec[factors.as_range()], &[1, 3, 3, 1]);
    assert_eq!(&vec[dfactors.as_range()], &[1, 2, 1]);
}

#[test]
fn update_factors_keeps_a_table_of_the_same_order() {
    let mut vec = Vec::new();
    let mut factors = RangeSlice::new(0, 0);
    let mut dfactors = RangeSlice::new(0, 0);
    update_factors(4, &mut factors, &mut dfactors, &mut vec);
    let before = vec.clone();
    update_factors(4, &mut factors, &mut dfactors, &mut vec);
    assert_eq!(vec, before);
    assert_eq!(vec, vec![1, 4, 6, 4, 1, 1, 3, 3, 1]);
}

#[test]
fn update_factors_replaces_a_table_of_another_order() {
    let mut vec = Vec::new();
    let mut factors = RangeSlice::new(0, 0);
    let mut dfactors = RangeSlice::new(0, 0);
    update_factors(5, &mut factors, &mut dfactors, &mut vec);
    update_factors(2, &mut factors, &mut dfactors, &mut vec);
    assert_eq!(vec, vec![1, 2, 1, 1, 1]);
    assert_eq!(factors.len(), 3);
    assert_eq!(dfactors.len(), 2);
    update_factors(5, &mut factors, &mut dfactors, &mut vec);
    assert_eq!(vec, vec![1, 5, 10, 10, 5, 1, 1, 4, 6, 4, 1]);
}

#[test]
fn update_factors_order_zero() {
    let mut vec = vec![7, 7];
    let mut factors = RangeSlice::new(0, 0);
    let mut dfactors = RangeSlice::new(0, 0);
    update_factors(0, &mut factors, &mut dfactors, &mut vec);
    assert_eq!(vec, vec![1]);
    assert_eq!((factors.start, factors.end), (0, 1));
    assert_eq!(dfactors.len(), 0);
}

#[test]
fn range_slice() {
    let range = RangeSlice::new(3, 8);
    assert_eq!(range.start, 3);
    assert_eq!(range.end, 8);
    assert_eq!(range.len(), 5);
    assert_eq!(range.as_range(), 3..8);
    let copy = range;
    assert_eq!(copy.len(), range.len());
}
