//! Fixed-point arithmetic on values scaled by [`SCALE`].
//!
//! A scaled value `v` stands for the real number `v / SCALE`, giving nine
//! decimal places.  Products of two scaled values are rescaled with a
//! truncating division; the power function needed by the amortization
//! formula is computed by binary exponentiation over such products, so that
//! every intermediate stays at or below `SCALE` and the recursion depth is
//! logarithmic in the exponent.

use vstd::prelude::*;
use vstd::arithmetic::div_mod::lemma_div_is_ordered;
use vstd::arithmetic::div_mod::lemma_div_multiples_vanish;
use vstd::arithmetic::div_mod::lemma_div_pos_is_pos;

verus! {

/// One whole unit in fixed-point representation: nine decimal places.
pub const SCALE: u64 = 1_000_000_000;

/// The product of two scaled values, rescaled by a truncating division.
pub open spec fn mul_fix_spec(a: int, b: int) -> int {
    a * b / (SCALE as int)
}

/// `base` raised to the `n`-th power in scaled arithmetic, by binary
/// exponentiation: squarings on the even half of the exponent, one extra
/// scaled multiplication when the exponent is odd.
pub open spec fn pow_fix_spec(base: int, n: nat) -> int
    decreases n,
{
    if n == 0 {
        SCALE as int
    } else if n % 2 == 0 {
        pow_fix_spec(mul_fix_spec(base, base), n / 2)
    } else {
        mul_fix_spec(pow_fix_spec(mul_fix_spec(base, base), n / 2), base)
    }
}

/// A rescaled product of factors at most `SCALE` stays within `[0, SCALE]`,
/// and never exceeds either factor.
pub proof fn lemma_mul_fix_bounds(a: int, b: int)
    requires
        0 <= a <= SCALE,
        0 <= b <= SCALE,
    ensures
        0 <= mul_fix_spec(a, b) <= SCALE,
        mul_fix_spec(a, b) <= a,
        mul_fix_spec(a, b) <= b,
{
    let s = SCALE as int;
    assert(a * b <= a * s) by (nonlinear_arith)
        requires 0 <= a, b <= s;
    assert(a * b <= b * s) by (nonlinear_arith)
        requires 0 <= b, a <= s;
    assert(0 <= a * b) by (nonlinear_arith)
        requires 0 <= a, 0 <= b;
    lemma_div_is_ordered(a * b, a * s, s);
    lemma_div_is_ordered(a * b, b * s, s);
    lemma_div_multiples_vanish(a, s);
    lemma_div_multiples_vanish(b, s);
    lemma_div_pos_is_pos(a * b, s);
}

/// The scaled power stays within `[0, SCALE]` whenever the base does.
pub proof fn lemma_pow_fix_bounds(base: int, n: nat)
    requires
        0 <= base <= SCALE,
    ensures
        0 <= pow_fix_spec(base, n) <= SCALE,
    decreases n,
{
    if n == 0 {
    } else {
        lemma_mul_fix_bounds(base, base);
        lemma_pow_fix_bounds(mul_fix_spec(base, base), n / 2);
        if n % 2 != 0 {
            lemma_mul_fix_bounds(pow_fix_spec(mul_fix_spec(base, base), n / 2), base);
        }
    }
}

/// For a positive exponent the scaled power never exceeds the base: each
/// multiplication by a value at most `SCALE` can only shrink the result.
pub proof fn lemma_pow_fix_le_base(base: int, n: nat)
    requires
        0 <= base <= SCALE,
        n >= 1,
    ensures
        pow_fix_spec(base, n) <= base,
    decreases n,
{
    let sq = mul_fix_spec(base, base);
    lemma_mul_fix_bounds(base, base);
    if n == 1 {
        assert(pow_fix_spec(base, 1) == mul_fix_spec(pow_fix_spec(sq, 0), base));
        lemma_div_multiples_vanish(base, SCALE as int);
        assert(mul_fix_spec(SCALE as int, base) == base * (SCALE as int) / (SCALE as int));
    } else if n % 2 == 0 {
        lemma_pow_fix_le_base(sq, n / 2);
    } else {
        lemma_pow_fix_bounds(sq, n / 2);
        lemma_mul_fix_bounds(pow_fix_spec(sq, n / 2), base);
    }
}

/// The product of two scaled values, rescaled back by a truncating division.
pub fn mul_fix(a: u64, b: u64) -> (r: u64)
    requires
        a <= SCALE,
        b <= SCALE,
    ensures
        r == mul_fix_spec(a as int, b as int),
        r <= SCALE,
{
    proof {
        lemma_mul_fix_bounds(a as int, b as int);
    }
    let wide: u128 = (a as u128) * (b as u128) / (SCALE as u128);
    wide as u64
}

/// `base` raised to the `n`-th power in scaled arithmetic.
pub fn pow_fix(base: u64, n: u128) -> (r: u64)
    requires
        base <= SCALE,
    ensures
        r == pow_fix_spec(base as int, n as nat),
        r <= SCALE,
    decreases n,
{
    if n == 0 {
        SCALE
    } else {
        let sq = mul_fix(base, base);
        let half = pow_fix(sq, n / 2);
        if n % 2 == 1 {
            mul_fix(half, base)
        } else {
            half
        }
    }
}

} // verus!
