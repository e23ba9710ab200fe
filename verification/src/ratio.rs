//! Exact rational thresholds.
//!
//! Supermajority requirements and per-turn restriction caps are fractions in
//! the unit interval. They are held as integer numerator/denominator pairs,
//! and every comparison against a measured ratio is an exact cross
//! multiplication: no rounding is involved anywhere.

use vstd::prelude::*;
use vstd::arithmetic::div_mod::lemma_fundamental_div_mod;

verus! {

/// Two to the 64th, the base used to split 192-bit products.
pub const WORD_BASE: u128 = 0x10000000000000000;

/// A non-negative rational threshold `num / den`.
#[derive(Debug, Clone, Copy, PartialEq, Eq, Structural)]
pub struct Ratio {
    pub num: u64,
    pub den: u64,
}

impl Ratio {
    /// Well-formedness: the denominator is positive.
    pub open spec fn wf(&self) -> bool {
        self.den > 0
    }

    /// Whether the ratio lies in the unit interval.
    pub open spec fn in_unit_interval(&self) -> bool {
        self.num <= self.den
    }

    pub fn new(num: u64, den: u64) -> (r: Ratio)
        requires
            den > 0,
        ensures
            r.num == num,
            r.den == den,
            r.wf(),
    {
        Ratio { num, den }
    }
}

/// Split the 192-bit product `a * b` into a high part (in units of
/// 2 to the 64th) and a low part.
fn mul_wide(a: u128, b: u64) -> (r: (u128, u64))
    ensures
        a * b == r.0 * WORD_BASE + r.1,
{
    let a_hi: u128 = a / WORD_BASE;
    let a_lo: u128 = a % WORD_BASE;
    proof {
        lemma_fundamental_div_mod(a as int, WORD_BASE as int);
        assert(a == WORD_BASE * a_hi + a_lo);
        assert(a_lo < WORD_BASE);
        assert(a_hi < WORD_BASE) by (nonlinear_arith)
            requires
                a == WORD_BASE * a_hi + a_lo,
                a <= u128::MAX,
                0 <= a_lo,
                0 <= a_hi,
        {
        }
        assert(a_lo * b <= (WORD_BASE - 1) * (WORD_BASE - 1)) by (nonlinear_arith)
            requires
                0 <= a_lo < WORD_BASE,
                0 <= b < WORD_BASE,
        {
        }
    }
    let p: u128 = a_lo * (b as u128);
    let lo: u128 = p % WORD_BASE;
    let carry: u128 = p / WORD_BASE;
    proof {
        lemma_fundamental_div_mod(p as int, WORD_BASE as int);
        assert(p == WORD_BASE * carry + lo);
        assert(lo < WORD_BASE);
        assert(carry < WORD_BASE) by (nonlinear_arith)
            requires
                p == WORD_BASE * carry + lo,
                p <= u128::MAX,
                0 <= lo,
                0 <= carry,
        {
        }
        assert(a_hi * b + carry <= (WORD_BASE - 1) * (WORD_BASE - 1) + (WORD_BASE - 1))
            by (nonlinear_arith)
            requires
                0 <= a_hi < WORD_BASE,
                0 <= b < WORD_BASE,
                0 <= carry < WORD_BASE,
        {
        }
    }
    let hi: u128 = a_hi * (b as u128) + carry;
    proof {
        assert(a * b == hi * WORD_BASE + lo) by (nonlinear_arith)
            requires
                a == WORD_BASE * a_hi + a_lo,
                p == a_lo * b,
                p == WORD_BASE * carry + lo,
                hi == a_hi * b + carry,
        {
        }
    }
    (hi, lo as u64)
}

/// Comparing split products is comparing the products themselves.
proof fn lemma_wide_lt(h1: int, l1: int, h2: int, l2: int)
    requires
        0 <= l1 < WORD_BASE,
        0 <= l2 < WORD_BASE,
        0 <= h1,
        0 <= h2,
    ensures
        (h1 * WORD_BASE + l1 < h2 * WORD_BASE + l2) == (h1 < h2 || (h1 == h2 && l1 < l2)),
{
    if h1 < h2 {
        assert(h1 * WORD_BASE + l1 < h2 * WORD_BASE + l2) by (nonlinear_arith)
            requires
                h1 < h2,
                0 <= l1 < WORD_BASE,
                0 <= l2,
        {
        }
    } else if h1 > h2 {
        assert(h2 * WORD_BASE + l2 < h1 * WORD_BASE + l1) by (nonlinear_arith)
            requires
                h2 < h1,
                0 <= l2 < WORD_BASE,
                0 <= l1,
        {
        }
    }
}

/// Whether the measured weight ratio `yes / total` falls strictly below the
/// threshold `r`, decided exactly as `yes * r.den < r.num * total`.
pub fn weight_ratio_lt(yes: u128, total: u128, r: &Ratio) -> (b: bool)
    ensures
        b == (yes * r.den < r.num * total),
{
    let x = mul_wide(yes, r.den);
    let y = mul_wide(total, r.num);
    proof {
        lemma_wide_lt(x.0 as int, x.1 as int, y.0 as int, y.1 as int);
        assert(r.num * total == total * r.num);
    }
    x.0 < y.0 || (x.0 == y.0 && x.1 < y.1)
}

/// Whether the measured count ratio `count / total` strictly exceeds the
/// threshold `r`, decided exactly as `count * r.den > r.num * total`.
pub fn count_frac_gt(count: usize, total: usize, r: &Ratio) -> (b: bool)
    ensures
        b == (count * r.den > r.num * total),
{
    proof {
        assert((count as int) * (r.den as int) <= (WORD_BASE - 1) * (WORD_BASE - 1))
            by (nonlinear_arith)
            requires
                0 <= count < WORD_BASE,
                0 <= r.den < WORD_BASE,
        {
        }
        assert((r.num as int) * (total as int) <= (WORD_BASE - 1) * (WORD_BASE - 1))
            by (nonlinear_arith)
            requires
                0 <= total < WORD_BASE,
                0 <= r.num < WORD_BASE,
        {
        }
    }
    let lhs: u128 = (count as u128) * (r.den as u128);
    let rhs: u128 = (r.num as u128) * (total as u128);
    lhs > rhs
}

} // verus!
