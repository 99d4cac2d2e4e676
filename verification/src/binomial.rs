//! Binomial coefficients: the weights of the Bernstein basis, and the table
//! in which a curve of runtime order keeps them.

use vstd::prelude::*;

verus! {

/// The highest curve order whose coefficients are computed: `20!` is the
/// largest factorial that fits in 64 bits.
pub const MAX_ORDER: usize = 20;

/// `n!`
pub open spec fn factorial_spec(n: nat) -> nat
    decreases n,
{
    if n == 0 {
        1
    } else {
        n * factorial_spec((n - 1) as nat)
    }
}

/// The binomial coefficient `C(n, k)`, by Pascal's rule. It is 0 for `k > n`.
pub open spec fn binomial(n: nat, k: nat) -> nat
    decreases n,
{
    if k == 0 {
        1
    } else if n == 0 {
        0
    } else {
        binomial((n - 1) as nat, (k - 1) as nat) + binomial((n - 1) as nat, k)
    }
}

/// The row `[C(n, 0), .., C(n, n)]`.
pub open spec fn binomial_row(n: nat) -> Seq<u64> {
    Seq::new(n + 1, |k: int| binomial(n, k as nat) as u64)
}

/// The coefficients that a curve of order `order` keeps: its own row,
/// followed by the row of its derivative, which has order `order - 1`.
pub open spec fn factor_table(order: nat) -> Seq<u64> {
    if order == 0 {
        binomial_row(0)
    } else {
        binomial_row(order) + binomial_row((order - 1) as nat)
    }
}

/// `n! >= 1`
pub proof fn lemma_factorial_positive(n: nat)
    ensures
        factorial_spec(n) >= 1,
    decreases n,
{
    if n > 0 {
        lemma_factorial_positive((n - 1) as nat);
        assert(n * factorial_spec((n - 1) as nat) >= 1) by (nonlinear_arith)
            requires
                n >= 1,
                factorial_spec((n - 1) as nat) >= 1,
        ;
    }
}

/// `a! <= b!` for `a <= b`
pub proof fn lemma_factorial_monotonic(a: nat, b: nat)
    requires
        a <= b,
    ensures
        factorial_spec(a) <= factorial_spec(b),
    decreases b,
{
    if a < b {
        lemma_factorial_monotonic(a, (b - 1) as nat);
        lemma_factorial_positive((b - 1) as nat);
        assert(b * factorial_spec((b - 1) as nat) >= factorial_spec((b - 1) as nat))
            by (nonlinear_arith)
            requires
                b >= 1,
        ;
    }
}

/// `20! = 2432902008176640000`, which fits in 64 bits.
pub proof fn lemma_factorial_20()
    ensures
        factorial_spec(20) == 2432902008176640000,
{
    assert(factorial_spec(0) == 1);
    assert(factorial_spec(1) == 1);
    assert(factorial_spec(2) == 2);
    assert(factorial_spec(3) == 6);
    assert(factorial_spec(4) == 24);
    assert(factorial_spec(5) == 120);
    assert(factorial_spec(6) == 720);
    assert(factorial_spec(7) == 5040);
    assert(factorial_spec(8) == 40320);
    assert(factorial_spec(9) == 362880);
    assert(factorial_spec(10) == 3628800);
    assert(factorial_spec(11) == 39916800);
    assert(factorial_spec(12) == 479001600);
    assert(factorial_spec(13) == 6227020800);
    assert(factorial_spec(14) == 87178291200);
    assert(factorial_spec(15) == 1307674368000);
    assert(factorial_spec(16) == 20922789888000);
    assert(factorial_spec(17) == 355687428096000);
    assert(factorial_spec(18) == 6402373705728000);
    assert(factorial_spec(19) == 121645100408832000);
}

/// `C(n, k)` is 0 when `k` exceeds `n`.
pub proof fn lemma_binomial_zero(n: nat, k: nat)
    requires
        k > n,
    ensures
        binomial(n, k) == 0,
    decreases n,
{
    if n > 0 {
        lemma_binomial_zero((n - 1) as nat, (k - 1) as nat);
        lemma_binomial_zero((n - 1) as nat, k);
    }
}

/// The factorial formula: `C(n, k) * k! * (n - k)! == n!` for `k <= n`.
pub proof fn lemma_binomial_factorial(n: nat, k: nat)
    requires
        k <= n,
    ensures
        binomial(n, k) * (factorial_spec(k) * factorial_spec((n - k) as nat)) == factorial_spec(n),
    decreases n,
{
    if k == 0 {
        assert(1 * (1 * factorial_spec(n)) == factorial_spec(n)) by (nonlinear_arith);
    } else if k == n {
        lemma_binomial_factorial((n - 1) as nat, (k - 1) as nat);
        lemma_binomial_zero((n - 1) as nat, k);
        assert(binomial(n, k) == binomial((n - 1) as nat, (k - 1) as nat));
        let c = binomial((n - 1) as nat, (k - 1) as nat);
        let f = factorial_spec((n - 1) as nat);
        assert(factorial_spec(0) == 1);
        assert(c * (f * 1) == f);
        assert(c * ((n * f) * 1) == n * f) by (nonlinear_arith)
            requires
                c * (f * 1) == f,
        ;
    } else {
        let a = binomial((n - 1) as nat, (k - 1) as nat);
        let b = binomial((n - 1) as nat, k);
        let fk1 = factorial_spec((k - 1) as nat);
        let fnk1 = factorial_spec((n - k - 1) as nat);
        let fn1 = factorial_spec((n - 1) as nat);
        lemma_binomial_factorial((n - 1) as nat, (k - 1) as nat);
        lemma_binomial_factorial((n - 1) as nat, k);
        assert(factorial_spec(k) == k * fk1);
        assert(factorial_spec((n - k) as nat) == (n - k) * fnk1);
        assert(a * (fk1 * ((n - k) * fnk1)) == fn1);
        assert(b * ((k * fk1) * fnk1) == fn1);
        assert((a + b) * ((k * fk1) * ((n - k) * fnk1)) == n * fn1) by (nonlinear_arith)
            requires
                a * (fk1 * ((n - k) * fnk1)) == fn1,
                b * ((k * fk1) * fnk1) == fn1,
                0 < k < n,
        ;
    }
}

/// `C(n, k) >= 1` for `k <= n`.
pub proof fn lemma_binomial_positive(n: nat, k: nat)
    requires
        k <= n,
    ensures
        binomial(n, k) >= 1,
    decreases n,
{
    if k > 0 && n > 0 {
        lemma_binomial_positive((n - 1) as nat, (k - 1) as nat);
    }
}

/// No coefficient of a row up to `MAX_ORDER` exceeds `20!`.
pub proof fn lemma_binomial_bound(n: nat, k: nat)
    requires
        k <= n <= 20,
    ensures
        1 <= binomial(n, k) <= 2432902008176640000,
{
    lemma_binomial_positive(n, k);
    lemma_binomial_factorial(n, k);
    lemma_factorial_positive(k);
    lemma_factorial_positive((n - k) as nat);
    lemma_factorial_monotonic(n, 20);
    lemma_factorial_20();
    let c = binomial(n, k);
    let d = factorial_spec(k) * factorial_spec((n - k) as nat);
    assert(d >= 1) by (nonlinear_arith)
        requires
            d == factorial_spec(k) * factorial_spec((n - k) as nat),
            factorial_spec(k) >= 1,
            factorial_spec((n - k) as nat) >= 1,
    ;
    assert(c <= c * d) by (nonlinear_arith)
        requires
            d >= 1,
            c >= 0,
    ;
}

/// The weights of a derivative fit too: `C(n - 1, k) n <= n! <= 20!`.
pub proof fn lemma_slope_weight_bound(n: nat, k: nat)
    requires
        k < n <= 20,
    ensures
        binomial((n - 1) as nat, k) * n <= 2432902008176640000,
{
    lemma_binomial_factorial((n - 1) as nat, k);
    lemma_factorial_positive(k);
    lemma_factorial_positive((n - 1 - k) as nat);
    lemma_factorial_monotonic(n, 20);
    lemma_factorial_20();
    let c = binomial((n - 1) as nat, k);
    let d = factorial_spec(k) * factorial_spec((n - 1 - k) as nat);
    let f = factorial_spec((n - 1) as nat);
    assert(factorial_spec(n) == n * f);
    assert(c * n <= n * f) by (nonlinear_arith)
        requires
            c * d == f,
            d == factorial_spec(k) * factorial_spec((n - 1 - k) as nat),
            factorial_spec(k) >= 1,
            factorial_spec((n - 1 - k) as nat) >= 1,
    ;
}

/// The two ends of a row are 1.
pub proof fn lemma_binomial_ends(n: nat)
    ensures
        binomial(n, 0) == 1,
        binomial(n, n) == 1,
    decreases n,
{
    if n > 0 {
        lemma_binomial_ends((n - 1) as nat);
        lemma_binomial_zero((n - 1) as nat, n);
    }
}

/// Every entry of a row up to `MAX_ORDER` is the binomial coefficient of its
/// place, `n! / (k! (n - k)!)`: a row holds the same numbers whenever and in
/// whatever order it is computed.
pub proof fn lemma_row_entries(n: nat, k: nat)
    requires
        k <= n <= MAX_ORDER,
    ensures
        binomial_row(n).len() == n + 1,
        binomial_row(n)[k as int] == binomial(n, k),
        binomial(n, k) * (factorial_spec(k) * factorial_spec((n - k) as nat)) == factorial_spec(n),
        k >= 1 ==> binomial(n, k) == binomial((n - 1) as nat, (k - 1) as nat) + binomial(
            (n - 1) as nat,
            k,
        ),
{
    lemma_binomial_bound(n, k);
    lemma_binomial_factorial(n, k);
}

/// `n!`, for `n` up to 20.
pub fn factorial(n: u64) -> (r: u64)
    requires
        n <= 20,
    ensures
        r == factorial_spec(n as nat),
{
    let mut accumulator: u64 = 1;
    let mut i: u64 = 0;
    while i < n
        invariant
            i <= n <= 20,
            accumulator == factorial_spec(i as nat),
        decreases n - i,
    {
        proof {
            lemma_factorial_monotonic((i + 1) as nat, 20);
            lemma_factorial_20();
            assert(factorial_spec((i + 1) as nat) == (i + 1) * factorial_spec(i as nat));
            assert(accumulator * (i + 1) == (i + 1) * accumulator) by (nonlinear_arith);
        }
        i += 1;
        accumulator = accumulator * i;
    }
    accumulator
}

/// `C(n, k)` by the factorial formula `n! / (k! (n - k)!)`.
pub fn combination(n: u64, k: u64) -> (r: u64)
    requires
        k <= n <= 20,
    ensures
        r == binomial(n as nat, k as nat),
{
    let fact_n = factorial(n);
    let fact_k = factorial(k);
    let fact_nk = factorial(n - k);
    proof {
        let c = binomial(n as nat, k as nat);
        let d = factorial_spec(k as nat) * factorial_spec((n - k) as nat);
        lemma_binomial_factorial(n as nat, k as nat);
        lemma_binomial_positive(n as nat, k as nat);
        lemma_factorial_positive(k as nat);
        lemma_factorial_positive((n - k) as nat);
        assert(d >= 1 && d <= c * d) by (nonlinear_arith)
            requires
                d == factorial_spec(k as nat) * factorial_spec((n - k) as nat),
                factorial_spec(k as nat) >= 1,
                factorial_spec((n - k) as nat) >= 1,
                c >= 1,
        ;
        assert((c * d) / d == c) by (nonlinear_arith)
            requires
                d >= 1,
        ;
    }
    fact_n / (fact_k * fact_nk)
}

/// The coefficients `[C(order, 0), .., C(order, order)]` of the Bernstein
/// basis of one order.
pub fn coefficients(order: usize) -> (r: Vec<u64>)
    requires
        order <= MAX_ORDER,
    ensures
        r@ == binomial_row(order as nat),
{
    let order64: u64 = order as u64;
    let mut row: Vec<u64> = Vec::with_capacity(order + 1);
    let mut k: u64 = 0;
    while k < order64 + 1
        invariant
            order64 == order <= 20,
            k <= order64 + 1,
            row@ == binomial_row(order as nat).take(k as int),
        decreases order64 + 1 - k,
    {
        proof {
            lemma_binomial_bound(order as nat, k as nat);
        }
        row.push(combination(order64, k));
        k += 1;
    }
    assert(row@ == binomial_row(order as nat));
    row
}

/// A range of indices into a table of coefficients. Unlike std's `Range` it
/// can be copied.
#[derive(Clone, Copy, Debug)]
pub struct RangeSlice {
    pub start: usize,
    pub end: usize,
}

impl RangeSlice {
    /// The number of indices in the range.
    pub open spec fn len_spec(self) -> nat {
        if self.start <= self.end {
            (self.end - self.start) as nat
        } else {
            0
        }
    }

    /// The range from `start` up to, not including, `end`.
    #[inline]
    pub fn new(start: usize, end: usize) -> (r: RangeSlice)
        ensures
            r.start == start,
            r.end == end,
    {
        RangeSlice { start: start, end: end }
    }

    /// The same range as a `Range` of std.
    pub fn as_range(&self) -> (r: std::ops::Range<usize>)
        ensures
            r.start == self.start,
            r.end == self.end,
    {
        self.start..self.end
    }

    /// The number of indices in the range.
    pub fn len(&self) -> (r: usize)
        requires
            self.start <= self.end,
        ensures
            r == self.len_spec(),
    {
        self.end - self.start
    }
}

/// What holds of a curve's table between calls: either nothing has been
/// computed yet, or `factors` and `dfactors` frame, in `vec`, the rows of
/// one order and of the order below it.
pub open spec fn factors_valid(vec: Seq<u64>, factors: RangeSlice, dfactors: RangeSlice) -> bool {
    &&& factors.start <= factors.end
    &&& factors.len_spec() == 0 || {
        let order = (factors.len_spec() - 1) as nat;
        &&& order <= MAX_ORDER
        &&& vec == factor_table(order)
        &&& factors.start == 0
        &&& dfactors.start == order + 1
        &&& dfactors.end == vec.len()
    }
}

/// Makes the table hold the coefficients of `order`: those of the curve in
/// `factors`, those of its derivative in `dfactors`. When `factors` already
/// has the length of that row, nothing is computed.
pub fn update_factors(
    order: usize,
    factors: &mut RangeSlice,
    dfactors: &mut RangeSlice,
    vec: &mut Vec<u64>,
)
    requires
        order <= MAX_ORDER,
        old(factors).start <= old(factors).end,
    ensures
        old(factors).len_spec() == order + 1 ==> {
            &&& *final(factors) == *old(factors)
            &&& *final(dfactors) == *old(dfactors)
            &&& *final(vec) == *old(vec)
        },
        old(factors).len_spec() != order + 1 ==> {
            &&& final(vec)@ == factor_table(order as nat)
            &&& final(factors).start == 0
            &&& final(factors).end == order + 1
            &&& final(dfactors).start == order + 1
            &&& final(dfactors).end == 2 * order + 1
        },
        factors_valid(old(vec)@, *old(factors), *old(dfactors)) ==> factors_valid(
            final(vec)@,
            *final(factors),
            *final(dfactors),
        ),
        final(factors).len_spec() == order + 1,
{
    if factors.len() != order + 1 {
        vec.clear();
        let order64: u64 = order as u64;
        let mut k: u64 = 0;
        while k < order64 + 1
            invariant
                order64 == order <= 20,
                k <= order64 + 1,
                vec@ == binomial_row(order as nat).take(k as int),
            decreases order64 + 1 - k,
        {
            proof {
                lemma_binomial_bound(order as nat, k as nat);
            }
            vec.push(combination(order64, k));
            k += 1;
        }
        assert(vec@ == binomial_row(order as nat));
        let mut k: u64 = 0;
        while k < order64
            invariant
                order64 == order <= 20,
                k <= order64,
                order > 0 ==> vec@ == binomial_row(order as nat) + binomial_row(
                    (order - 1) as nat,
                ).take(k as int),
                order == 0 ==> vec@ == binomial_row(0),
            decreases order64 - k,
        {
            proof {
                lemma_binomial_bound((order - 1) as nat, k as nat);
            }
            vec.push(combination(order64 - 1, k));
            k += 1;
        }
        assert(order > 0 ==> binomial_row((order - 1) as nat).take(order as int)
            == binomial_row((order - 1) as nat));
        *factors = RangeSlice::new(0, order + 1);
        *dfactors = RangeSlice::new(order + 1, vec.len());
    }
}

} // verus!
