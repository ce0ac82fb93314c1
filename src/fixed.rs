//! Signed fixed-point scalars: an `i64` value `x` stands for `x / SCALE`.
use vstd::prelude::*;
use vstd::arithmetic::div_mod::{lemma_fundamental_div_mod, lemma_fundamental_div_mod_converse_div};

verus! {

/// Fractional units in one whole.
pub const SCALE: i64 = 65536;

/// Whether a mathematical integer can be held in an `i64`.
pub open spec fn fits_i64(x: int) -> bool {
    i64::MIN <= x <= i64::MAX
}

/// Product of two fixed-point values, rounded towards negative infinity.
pub open spec fn fx_mul(a: int, b: int) -> int {
    (a * b) / (SCALE as int)
}

/// `a / n` rounded towards negative infinity.
pub fn floor_div(a: i128, n: i128) -> (q: i128)
    requires
        n > 0,
    ensures
        q == a as int / n as int,
{
    if a >= 0 {
        a / n
    } else {
        let m: i128 = -(a + 1);
        let t: i128 = m / n;
        proof {
            lemma_fundamental_div_mod(m as int, n as int);
            let r = m as int % n as int;
            assert(a as int == n as int * (-t - 1) + (n - r - 1)) by (nonlinear_arith)
                requires
                    m as int == n as int * (m as int / n as int) + r,
                    t as int == m as int / n as int,
                    m == -(a + 1),
            ;
            lemma_fundamental_div_mod_converse_div(a as int, n as int, -t - 1, n - r - 1);
        }
        -t - 1
    }
}

/// Product of two fixed-point values, rounded down, at double width.
pub fn mul_wide(a: i64, b: i64) -> (r: i128)
    ensures
        r == fx_mul(a as int, b as int),
        -0x4000_0000_0000_0000_0000_0000_0000int <= r <= 0x4000_0000_0000_0000_0000_0000_0000int,
{
    proof {
        assert(-0x4000_0000_0000_0000_0000_0000_0000_0000int <= a as int * b as int
            <= 0x4000_0000_0000_0000_0000_0000_0000_0000int) by (nonlinear_arith)
            requires
                i64::MIN <= a <= i64::MAX,
                i64::MIN <= b <= i64::MAX,
        ;
    }
    let p: i128 = (a as i128) * (b as i128);
    let q: i128 = floor_div(p, SCALE as i128);
    proof {
        let ab = a as int * b as int;
        vstd::arithmetic::div_mod::lemma_div_is_ordered(ab, 0x4000_0000_0000_0000_0000_0000_0000_0000int, 65536);
        vstd::arithmetic::div_mod::lemma_div_is_ordered(-0x4000_0000_0000_0000_0000_0000_0000_0000int, ab, 65536);
        assert(0x4000_0000_0000_0000_0000_0000_0000_0000int / 65536 == 0x4000_0000_0000_0000_0000_0000_0000int);
        assert(-0x4000_0000_0000_0000_0000_0000_0000_0000int / 65536 == -0x4000_0000_0000_0000_0000_0000_0000int);
    }
    q
}

/// Product of two fixed-point values, rounded down; `None` when it does not
/// fit in an `i64`.
pub fn mul_fixed(a: i64, b: i64) -> (r: Option<i64>)
    ensures
        r is Some <==> fits_i64(fx_mul(a as int, b as int)),
        r matches Some(v) ==> v == fx_mul(a as int, b as int),
{
    let q: i128 = mul_wide(a, b);
    if q < i64::MIN as i128 || q > i64::MAX as i128 {
        None
    } else {
        Some(q as i64)
    }
}

/// A buffer of `n` zeros.
pub fn zeros(n: usize) -> (r: Vec<i64>)
    ensures
        r@ == Seq::new(n as nat, |_i: int| 0i64),
{
    let mut r: Vec<i64> = Vec::with_capacity(n);
    let mut i: usize = 0;
    while i < n
        invariant
            i <= n,
            r@ == Seq::new(i as nat, |_i: int| 0i64),
        decreases n - i,
    {
        r.push(0);
        i = i + 1;
        assert(r@ =~= Seq::new(i as nat, |_i: int| 0i64));
    }
    r
}

} // verus!
