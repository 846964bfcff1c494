//! Integer arithmetic helpers: truncating and flooring division and an
//! integer square root, with the division lemmas the simulation needs.

use vstd::prelude::*;
use vstd::arithmetic::div_mod::{
    lemma_fundamental_div_mod, lemma_fundamental_div_mod_converse_div,
};
use vstd::arithmetic::mul::{lemma_mul_inequality, lemma_mul_is_commutative};

verus! {

/// Division rounding toward zero (the rounding of Rust's `/` on signed
/// integers), for positive divisors.  Ghost `/` rounds toward negative
/// infinity, so the negative case is spelled out.
pub open spec fn tdiv(a: int, b: int) -> int {
    if a >= 0 {
        a / b
    } else {
        -((-a) / b)
    }
}

/// Truncating division of a zero numerator gives zero.
pub proof fn lemma_tdiv_of_zero(b: int)
    requires
        0 < b,
    ensures
        tdiv(0, b) == 0,
{
    vstd::arithmetic::div_mod::lemma_div_of0(b);
}

/// Truncating division undoes an exact multiplication.
pub proof fn lemma_tdiv_mul_exact(a: int, b: int)
    requires
        0 < b,
    ensures
        tdiv(a * b, b) == a,
{
    if a >= 0 {
        lemma_fundamental_div_mod_converse_div(a * b, b, a, 0);
    } else {
        assert(-(a * b) == (-a) * b) by (nonlinear_arith);
        lemma_fundamental_div_mod_converse_div((-a) * b, b, -a, 0);
    }
}

/// Scaling by a ratio `num / den` with `num <= den` never grows a value's
/// magnitude and never flips its sign.
pub proof fn lemma_tdiv_scale_shrinks(a: int, num: int, den: int)
    requires
        0 < den,
        0 <= num <= den,
    ensures
        a >= 0 ==> 0 <= tdiv(a * num, den) <= a,
        a <= 0 ==> a <= tdiv(a * num, den) <= 0,
{
    if a >= 0 {
        lemma_nonneg_div_bound(a, num, den);
    } else {
        assert(-(a * num) == (-a) * num) by (nonlinear_arith);
        lemma_nonneg_div_bound(-a, num, den);
    }
}

/// Truncating division never grows a value's magnitude and never flips
/// its sign.
pub proof fn lemma_tdiv_magnitude(a: int, b: int)
    requires
        0 < b,
    ensures
        a >= 0 ==> 0 <= tdiv(a, b) <= a,
        a <= 0 ==> a <= tdiv(a, b) <= 0,
{
    if a >= 0 {
        vstd::arithmetic::div_mod::lemma_div_pos_is_pos(a, b);
        vstd::arithmetic::div_mod::lemma_div_nonincreasing(a, b);
    } else {
        vstd::arithmetic::div_mod::lemma_div_pos_is_pos(-a, b);
        vstd::arithmetic::div_mod::lemma_div_nonincreasing(-a, b);
    }
}

/// Truncating division loses less than one unit: scaled back up by the
/// divisor, the quotient lands within one divisor of the numerator.
pub proof fn lemma_tdiv_error(a: int, b: int)
    requires
        0 < b,
    ensures
        -b < tdiv(a, b) * b - a < b,
{
    if a >= 0 {
        vstd::arithmetic::div_mod::lemma_remainder(a, b);
    } else {
        vstd::arithmetic::div_mod::lemma_remainder(-a, b);
        assert(tdiv(a, b) * b == -(((-a) / b) * b)) by (nonlinear_arith)
            requires tdiv(a, b) == -((-a) / b);
    }
}

/// Truncating division commutes with negation of the numerator.
pub proof fn lemma_tdiv_neg(a: int, b: int)
    requires
        0 < b,
    ensures
        tdiv(-a, b) == -tdiv(a, b),
{
    if a == 0 {
        vstd::arithmetic::div_mod::lemma_div_of0(b);
    }
}

/// Scaling a non-negative value by `num / den` with `|num| <= den` keeps
/// the result within `[-a, a]`.
pub proof fn lemma_tdiv_scale_shrinks_signed(a: int, num: int, den: int)
    requires
        0 <= a,
        0 < den,
        -den <= num <= den,
    ensures
        -a <= tdiv(a * num, den) <= a,
{
    if num >= 0 {
        assert(0 <= a * num) by (nonlinear_arith)
            requires 0 <= a && 0 <= num;
        lemma_nonneg_div_bound(a, num, den);
    } else {
        assert(a * num == -(a * (-num)) && 0 <= a * (-num)) by (nonlinear_arith)
            requires 0 <= a && num < 0;
        lemma_tdiv_neg(a * (-num), den);
        lemma_nonneg_div_bound(a, -num, den);
    }
}

/// For a non-negative value, `(a * num) / den <= a` whenever `num <= den`.
proof fn lemma_nonneg_div_bound(a: int, num: int, den: int)
    requires
        0 <= a,
        0 < den,
        0 <= num <= den,
    ensures
        0 <= (a * num) / den <= a,
{
    assert(0 <= a * num) by (nonlinear_arith)
        requires 0 <= a && 0 <= num;
    vstd::arithmetic::div_mod::lemma_div_pos_is_pos(a * num, den);
    lemma_mul_inequality(num, den, a);
    lemma_mul_is_commutative(a, num);
    lemma_mul_is_commutative(a, den);
    assert(a * num <= a * den);
    vstd::arithmetic::div_mod::lemma_div_is_ordered(a * num, a * den, den);
    lemma_tdiv_mul_exact(a, den);
    assert((a * den) / den == a);
}

/// The full product of two word-sized integers; a doubled word always
/// holds it.
pub fn wide_mul(a: i64, b: i64) -> (r: i128)
    ensures
        r == a * b,
{
    proof {
        assert(i128::MIN <= (a as int) * (b as int) <= i128::MAX) by (nonlinear_arith)
            requires i64::MIN <= a <= i64::MAX && i64::MIN <= b <= i64::MAX;
    }
    (a as i128) * (b as i128)
}

/// Truncating division on machine integers, for positive divisors.
pub fn tdiv_i128(a: i128, b: i128) -> (q: i128)
    requires
        0 < b,
        i128::MIN < a,
    ensures
        q == tdiv(a as int, b as int),
{
    if a >= 0 {
        let q = (a as u128) / (b as u128);
        q as i128
    } else {
        let n = (-a) as u128;
        let q = n / (b as u128);
        -(q as i128)
    }
}

/// Division rounding toward negative infinity, for positive divisors.
/// (Ghost `/` already rounds this way, so the contract is plain.)
pub fn floor_div(a: i64, b: i64) -> (q: i64)
    requires
        0 < b,
        i64::MIN < a,
    ensures
        q == a as int / b as int,
{
    if a >= 0 {
        let q = (a as u64) / (b as u64);
        q as i64
    } else {
        let n = (-a) as u64;
        let m = n / (b as u64);
        let r = n % (b as u64);
        proof {
            lemma_fundamental_div_mod(n as int, b as int);
            if r == 0 {
                assert(a as int == (-(m as int)) * b + 0) by (nonlinear_arith)
                    requires n as int == b * (m as int) && a as int == -(n as int);
                lemma_fundamental_div_mod_converse_div(
                    a as int, b as int, -(m as int), 0);
            } else {
                assert(a as int == (-(m as int) - 1) * b + (b - r)) by (nonlinear_arith)
                    requires n as int == b * (m as int) + (r as int) && a as int == -(n as int);
                lemma_fundamental_div_mod_converse_div(
                    a as int, b as int, -(m as int) - 1, b as int - r as int);
            }
        }
        if r == 0 {
            -(m as i64)
        } else {
            -(m as i64) - 1
        }
    }
}

/// The cell index produced by flooring division is the only integer whose
/// cell interval contains the value: a point on a cell boundary lands in
/// exactly one cell.
pub proof fn lemma_floor_div_unique(a: int, b: int, q: int)
    requires
        0 < b,
        b * q <= a < b * (q + 1),
    ensures
        q == a / b,
{
    assert(a == q * b + (a - q * b)) by (nonlinear_arith);
    assert(0 <= a - q * b < b) by (nonlinear_arith)
        requires b * q <= a < b * (q + 1);
    lemma_fundamental_div_mod_converse_div(a, b, q, a - q * b);
}

/// The interval a flooring division places its argument in.
pub proof fn lemma_floor_div_bounds(a: int, b: int)
    requires
        0 < b,
    ensures
        b * (a / b) <= a < b * (a / b + 1),
{
    lemma_fundamental_div_mod(a, b);
    assert(b * (a / b + 1) == b * (a / b) + b) by (nonlinear_arith);
}

/// The integer square root: the largest integer whose square does not
/// exceed `n`.
pub open spec fn sqrt_floor(n: int) -> int {
    choose|r: int| 0 <= r && #[trigger] (r * r) <= n < (r + 1) * (r + 1)
}

/// Every non-negative integer has an integer square root.
proof fn lemma_sqrt_exists(n: nat)
    ensures
        exists|r: int| 0 <= r && #[trigger] (r * r) <= n < (r + 1) * (r + 1),
    decreases n,
{
    if n == 0 {
        let w: int = 0;
        assert(0 <= w && w * w <= n < (w + 1) * (w + 1)) by (nonlinear_arith)
            requires n == 0 && w == 0;
    } else {
        lemma_sqrt_exists((n - 1) as nat);
        let r = choose|r: int| 0 <= r && #[trigger] (r * r) <= n - 1 < (r + 1) * (r + 1);
        if (r + 1) * (r + 1) <= n {
            assert((r + 1) * (r + 1) <= n < (r + 2) * (r + 2)) by (nonlinear_arith)
                requires 0 <= r && r * r <= n - 1 < (r + 1) * (r + 1) && (r + 1) * (r + 1) <= n;
        } else {
            assert(r * r <= n < (r + 1) * (r + 1));
        }
    }
}

/// The characterizing inequalities of `sqrt_floor`.
pub proof fn lemma_sqrt_floor_props(n: int)
    requires
        0 <= n,
    ensures
        0 <= sqrt_floor(n),
        sqrt_floor(n) * sqrt_floor(n) <= n,
        n < (sqrt_floor(n) + 1) * (sqrt_floor(n) + 1),
{
    lemma_sqrt_exists(n as nat);
}

/// Only one integer satisfies the square-root inequalities.
pub proof fn lemma_sqrt_floor_unique(n: int, r: int)
    requires
        0 <= r,
        r * r <= n,
        n < (r + 1) * (r + 1),
    ensures
        r == sqrt_floor(n),
{
    lemma_sqrt_floor_props(n);
    let s = sqrt_floor(n);
    assert(r == s) by (nonlinear_arith)
        requires
            0 <= r && r * r <= n < (r + 1) * (r + 1) && 0 <= s && s * s <= n < (s + 1) * (s + 1);
}

/// Comparing a square root against a bound is comparing the radicand
/// against the bound's square.
pub proof fn lemma_sqrt_floor_lt(n: int, r: int)
    requires
        0 <= n,
        0 <= r,
    ensures
        sqrt_floor(n) < r <==> n < r * r,
{
    lemma_sqrt_floor_props(n);
    let s = sqrt_floor(n);
    assert((s < r ==> n < r * r) && (n < r * r ==> s < r)) by (nonlinear_arith)
        requires 0 <= r && 0 <= s && s * s <= n < (s + 1) * (s + 1);
}

/// Integer square root by binary search.
pub fn isqrt(n: u64) -> (r: u64)
    ensures
        r * r <= n < (r + 1) * (r + 1),
        r == sqrt_floor(n as int),
{
    let mut lo: u64 = 0;
    let mut hi: u64 = 4_294_967_296;
    assert((hi * hi) > (n as int)) by (nonlinear_arith)
        requires hi == 0x1_0000_0000int && n <= u64::MAX;
    while lo + 1 < hi
        invariant
            lo < hi <= 4_294_967_296,
            lo * lo <= n,
            n < hi * hi,
        decreases hi - lo,
    {
        let mid = lo + (hi - lo) / 2;
        assert(lo < mid < hi);
        assert(mid * mid <= 0x1_0000_0000u128 * 0x1_0000_0000u128) by (nonlinear_arith)
            requires 0 < mid <= 0x1_0000_0000u128;
        if (mid as u128) * (mid as u128) <= n as u128 {
            lo = mid;
        } else {
            hi = mid;
        }
    }
    proof {
        lemma_sqrt_floor_unique(n as int, lo as int);
    }
    lo
}

} // verus!
