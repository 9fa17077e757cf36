//! Signed 64-bit fixed-point scalars with 16 fractional bits.
//!
//! A scalar `x` stands for the real number `x / SCALE`.  Every operation
//! clips its result into `[-FP_BOUND, FP_BOUND]`, so any in-range inputs
//! yield in-range outputs and no executable arithmetic can overflow.
//! Multiplication and division round toward negative infinity; `fp_trunc`
//! rounds toward zero, matching an `as`-style cast.

use vstd::arithmetic::div_mod::{lemma_fundamental_div_mod, lemma_fundamental_div_mod_converse};
use vstd::prelude::*;

verus! {

/// Number of fixed-point units that stand for the real value one.
pub const SCALE: i64 = 65536;

/// Half of `SCALE`, the fixed-point value one half.
pub const HALF_SCALE: i64 = 32768;

/// Largest magnitude a fixed-point scalar may take (2^46).
pub const FP_BOUND: i64 = 0x4000_0000_0000;

/// Clips an unbounded integer into the representable fixed-point range.
pub open spec fn clip_s(x: int) -> int {
    if x > FP_BOUND as int {
        FP_BOUND as int
    } else if x < -(FP_BOUND as int) {
        -(FP_BOUND as int)
    } else {
        x
    }
}

/// Whether `x` lies in the representable fixed-point range.
pub open spec fn in_range(x: int) -> bool {
    -(FP_BOUND as int) <= x <= FP_BOUND as int
}

/// Floor division: rounds toward negative infinity (undefined for d == 0).
pub open spec fn div_floor_s(n: int, d: int) -> int {
    if d > 0 {
        n / d
    } else {
        (-n) / (-d)
    }
}

/// Fixed-point addition: exact sum, then clipped.
pub open spec fn fp_add_s(a: int, b: int) -> int {
    clip_s(a + b)
}

/// Fixed-point subtraction: exact difference, then clipped.
pub open spec fn fp_sub_s(a: int, b: int) -> int {
    clip_s(a - b)
}

/// Fixed-point multiplication: floor of the exact product, then clipped.
pub open spec fn fp_mul_s(a: int, b: int) -> int {
    clip_s(div_floor_s(a * b, SCALE as int))
}

/// Fixed-point division: floor of the exact quotient, then clipped.
pub open spec fn fp_div_s(a: int, b: int) -> int {
    clip_s(div_floor_s(a * (SCALE as int), b))
}

pub fn fp_clip(x: i64) -> (r: i64)
    ensures
        r == clip_s(x as int),
{
    if x > FP_BOUND {
        FP_BOUND
    } else if x < -FP_BOUND {
        -FP_BOUND
    } else {
        x
    }
}

pub fn fp_add(a: i64, b: i64) -> (r: i64)
    requires
        in_range(a as int),
        in_range(b as int),
    ensures
        r == fp_add_s(a as int, b as int),
        in_range(r as int),
{
    fp_clip(a + b)
}

pub fn fp_sub(a: i64, b: i64) -> (r: i64)
    requires
        in_range(a as int),
        in_range(b as int),
    ensures
        r == fp_sub_s(a as int, b as int),
        in_range(r as int),
{
    fp_clip(a - b)
}

pub(crate) fn fp_clip_i128(x: i128) -> (r: i64)
    ensures
        r == clip_s(x as int),
{
    if x > FP_BOUND as i128 {
        FP_BOUND
    } else if x < -(FP_BOUND as i128) {
        -FP_BOUND
    } else {
        x as i64
    }
}

/// Floor division on machine integers, proved against `div_floor_s`.
pub(crate) fn div_floor_i128(n: i128, d: i128) -> (q: i128)
    requires
        d != 0,
        -0x10_0000_0000_0000_0000_0000_0000 <= n <= 0x10_0000_0000_0000_0000_0000_0000,
        -0x10_0000_0000_0000_0000_0000_0000 <= d <= 0x10_0000_0000_0000_0000_0000_0000,
    ensures
        q == div_floor_s(n as int, d as int),
{
    let mag_n: u128 = if n < 0 {
        (-n) as u128
    } else {
        n as u128
    };
    let mag_d: u128 = if d < 0 {
        (-d) as u128
    } else {
        d as u128
    };
    let q0: u128 = mag_n / mag_d;
    let r0: u128 = mag_n % mag_d;
    proof {
        lemma_fundamental_div_mod(mag_n as int, mag_d as int);
    }
    if (n < 0) == (d < 0) {
        proof {
            if d > 0 {
                assert(n as int == mag_n as int && d as int == mag_d as int);
            } else {
                assert((-(n as int)) == mag_n as int && (-(d as int)) == mag_d as int);
            }
        }
        q0 as i128
    } else if r0 == 0 {
        proof {
            assert(-(mag_n as int) == (-(q0 as int)) * (mag_d as int) + 0) by (nonlinear_arith)
                requires
                    mag_n as int == (mag_d as int) * (q0 as int) + (r0 as int),
                    r0 == 0,
            ;
            lemma_fundamental_div_mod_converse(
                -(mag_n as int),
                mag_d as int,
                -(q0 as int),
                0,
            );
        }
        -(q0 as i128)
    } else {
        proof {
            assert(-(mag_n as int) == (-(q0 as int) - 1) * (mag_d as int) + (mag_d as int - r0 as int))
                by (nonlinear_arith)
                requires
                    mag_n as int == (mag_d as int) * (q0 as int) + (r0 as int),
            ;
            lemma_fundamental_div_mod_converse(
                -(mag_n as int),
                mag_d as int,
                -(q0 as int) - 1,
                mag_d as int - r0 as int,
            );
        }
        -(q0 as i128) - 1
    }
}

pub fn fp_mul(a: i64, b: i64) -> (r: i64)
    requires
        in_range(a as int),
        in_range(b as int),
    ensures
        r == fp_mul_s(a as int, b as int),
        in_range(r as int),
{
    proof {
        assert(-0x10_0000_0000_0000_0000_0000_0000 <= (a as int) * (b as int)
            <= 0x10_0000_0000_0000_0000_0000_0000) by (nonlinear_arith)
            requires
                in_range(a as int),
                in_range(b as int),
        ;
    }
    let p: i128 = (a as i128) * (b as i128);
    let q: i128 = div_floor_i128(p, SCALE as i128);
    fp_clip_i128(q)
}

pub fn fp_div(a: i64, b: i64) -> (r: i64)
    requires
        in_range(a as int),
        in_range(b as int),
        b != 0,
    ensures
        r == fp_div_s(a as int, b as int),
        in_range(r as int),
{
    let p: i128 = (a as i128) * (SCALE as i128);
    let q: i128 = div_floor_i128(p, b as i128);
    fp_clip_i128(q)
}

/// Negation of an in-range scalar (exact: the range is symmetric).
pub open spec fn fp_neg_s(a: int) -> int {
    -a
}

pub fn fp_neg(a: i64) -> (r: i64)
    requires
        in_range(a as int),
    ensures
        r == fp_neg_s(a as int),
        in_range(r as int),
{
    -a
}

/// The larger of two scalars.
pub open spec fn max_s(a: int, b: int) -> int {
    if a >= b {
        a
    } else {
        b
    }
}

pub fn fp_max(a: i64, b: i64) -> (r: i64)
    ensures
        r == max_s(a as int, b as int),
{
    if a >= b {
        a
    } else {
        b
    }
}

/// Magnitude of a scalar.
pub open spec fn abs_s(x: int) -> int {
    if x >= 0 {
        x
    } else {
        -x
    }
}

pub fn fp_abs(x: i64) -> (r: i64)
    requires
        in_range(x as int),
    ensures
        r == abs_s(x as int),
        in_range(r as int),
{
    if x >= 0 {
        x
    } else {
        -x
    }
}

/// `x` forced into the closed interval `[lo, hi]`.
pub open spec fn clamp_s(x: int, lo: int, hi: int) -> int {
    if x < lo {
        lo
    } else if x > hi {
        hi
    } else {
        x
    }
}

pub fn fp_clamp(x: i64, lo: i64, hi: i64) -> (r: i64)
    requires
        lo <= hi,
    ensures
        r == clamp_s(x as int, lo as int, hi as int),
{
    if x < lo {
        lo
    } else if x > hi {
        hi
    } else {
        x
    }
}

/// Truncation of a fixed-point scalar to a whole number of units,
/// rounding toward zero as a float-to-integer cast does.
pub open spec fn trunc_s(x: int) -> int {
    if x >= 0 {
        x / (SCALE as int)
    } else {
        -((-x) / (SCALE as int))
    }
}

pub fn fp_trunc(x: i64) -> (r: i64)
    requires
        in_range(x as int),
    ensures
        r == trunc_s(x as int),
        in_range(r as int),
{
    proof {
        lemma_trunc_small(x as int);
    }
    if x >= 0 {
        ((x as u64) / (SCALE as u64)) as i64
    } else {
        -((((-x) as u64) / (SCALE as u64)) as i64)
    }
}

/// Truncation never grows a value's magnitude.
pub proof fn lemma_trunc_small(x: int)
    ensures
        abs_s(trunc_s(x)) <= abs_s(x),
{
    let s = SCALE as int;
    let m = abs_s(x);
    let q = m / s;
    lemma_fundamental_div_mod(m, s);
    assert(0 <= q <= m) by (nonlinear_arith)
        requires
            m == s * q + (m % s),
            0 <= m % s < s,
            s == 65536,
            m >= 0,
    ;
}

/// Negation keeps parity: `-c` and `c` have the same remainder mod two.
pub proof fn lemma_parity_of_neg(c: int)
    ensures
        (-c) % 2 == c % 2,
{
    let q = c / 2;
    let r = c % 2;
    lemma_fundamental_div_mod(c, 2);
    if r == 0 {
        lemma_fundamental_div_mod_converse(-c, 2, -q, 0);
    } else {
        assert(-c == (-q - 1) * 2 + 1) by (nonlinear_arith)
            requires
                c == 2 * q + r,
                r == 1,
        ;
        lemma_fundamental_div_mod_converse(-c, 2, -q - 1, 1);
    }
}

/// Fixed-point exponentiation with a whole-number exponent:
/// `e` rounded multiplications of the base onto one.
pub open spec fn fp_pow_s(b: int, e: nat) -> int
    decreases e,
{
    if e == 0 {
        SCALE as int
    } else {
        fp_mul_s(fp_pow_s(b, (e - 1) as nat), b)
    }
}

pub fn fp_pow(b: i64, e: u32) -> (r: i64)
    requires
        in_range(b as int),
    ensures
        r == fp_pow_s(b as int, e as nat),
        in_range(r as int),
{
    let mut acc: i64 = SCALE;
    let mut i: u32 = 0;
    while i < e
        invariant
            0 <= i <= e,
            in_range(b as int),
            in_range(acc as int),
            acc == fp_pow_s(b as int, i as nat),
        decreases e - i,
    {
        acc = fp_mul(acc, b);
        i = i + 1;
    }
    acc
}

/// The floor of the square root of a natural number.
pub open spec fn sqrt_floor(n: nat) -> nat
    decreases n,
{
    if n == 0 {
        0
    } else {
        let r = sqrt_floor((n - 1) as nat);
        if (r + 1) * (r + 1) <= n {
            r + 1
        } else {
            r
        }
    }
}

/// `sqrt_floor(n)` is the unique `r` with `r * r <= n < (r + 1) * (r + 1)`.
pub proof fn lemma_sqrt_floor_bounds(n: nat)
    ensures
        sqrt_floor(n) * sqrt_floor(n) <= n,
        n < (sqrt_floor(n) + 1) * (sqrt_floor(n) + 1),
    decreases n,
{
    if n > 0 {
        lemma_sqrt_floor_bounds((n - 1) as nat);
        let r = sqrt_floor((n - 1) as nat);
        if (r + 1) * (r + 1) <= n {
            assert(sqrt_floor(n) == r + 1);
            assert(n < (r + 2) * (r + 2)) by (nonlinear_arith)
                requires
                    n - 1 < (r + 1) * (r + 1),
                    r >= 0,
            ;
            assert((sqrt_floor(n) + 1) * (sqrt_floor(n) + 1) == (r + 2) * (r + 2));
            assert(n < (sqrt_floor(n) + 1) * (sqrt_floor(n) + 1));
        } else {
            assert(sqrt_floor(n) == r);
            assert(n < (sqrt_floor(n) + 1) * (sqrt_floor(n) + 1));
        }
    } else {
        let s = sqrt_floor(n);
        assert(s == 0);
        assert(n < (s + 1) * (s + 1)) by (nonlinear_arith)
            requires
                n == 0,
                s == 0,
        ;
    }
}

pub proof fn lemma_sqrt_floor_unique(n: nat, r: nat)
    requires
        r * r <= n,
        n < (r + 1) * (r + 1),
    ensures
        r == sqrt_floor(n),
{
    lemma_sqrt_floor_bounds(n);
    let s = sqrt_floor(n);
    assert(r == s) by (nonlinear_arith)
        requires
            r * r <= n,
            n < (r + 1) * (r + 1),
            s * s <= n,
            n < (s + 1) * (s + 1),
    ;
}

/// Integer square root by bisection.
fn isqrt_u64(n: u64) -> (r: u64)
    ensures
        r as nat == sqrt_floor(n as nat),
{
    let mut lo: u64 = 0;
    let mut hi: u64 = 4294967296;
    proof {
        assert((hi as int) * (hi as int) > n as int) by (nonlinear_arith)
            requires
                hi == 4294967296,
                n <= 0xffff_ffff_ffff_ffff,
        ;
    }
    while lo + 1 < hi
        invariant
            lo < hi,
            hi <= 4294967296,
            (lo as int) * (lo as int) <= n as int,
            (hi as int) * (hi as int) > n as int,
        decreases hi - lo,
    {
        let mid: u64 = lo + (hi - lo) / 2;
        proof {
            assert((mid as int) * (mid as int) <= 0x1_0000_0000_0000_0000_0000) by (nonlinear_arith)
                requires
                    0 <= mid <= 4294967296,
            ;
        }
        let sq: u128 = (mid as u128) * (mid as u128);
        if sq <= n as u128 {
            lo = mid;
        } else {
            hi = mid;
        }
    }
    proof {
        lemma_sqrt_floor_unique(n as nat, lo as nat);
    }
    lo
}

/// Fixed-point square root: the floor of the real square root,
/// defined for non-negative scalars only.
pub open spec fn fp_sqrt_s(x: int) -> int {
    sqrt_floor((x * (SCALE as int)) as nat) as int
}

pub fn fp_sqrt(x: i64) -> (r: i64)
    requires
        0 <= x <= FP_BOUND,
    ensures
        r == fp_sqrt_s(x as int),
        0 <= r <= FP_BOUND,
{
    proof {
        assert(0 <= (x as int) * 65536 <= 0x4000_0000_0000_0000) by (nonlinear_arith)
            requires
                0 <= x <= 0x4000_0000_0000,
        ;
    }
    let n: u64 = (x as u64) * (SCALE as u64);
    let r: u64 = isqrt_u64(n);
    proof {
        lemma_sqrt_floor_bounds(n as nat);
        assert(r as int <= FP_BOUND as int) by (nonlinear_arith)
            requires
                (r as int) * (r as int) <= n as int,
                n as int <= 0x4000_0000_0000_0000,
                r >= 0,
                FP_BOUND == 0x4000_0000_0000,
        ;
    }
    r as i64
}

} // verus!
