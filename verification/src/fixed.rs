//! Fixed-point scalar arithmetic.
//!
//! Every real-valued quantity in this crate is represented as a signed
//! 16.16 fixed-point number: an `i64` holding the real value scaled by
//! `FX` (65536).  All operations are defined exactly, over mathematical
//! integers, with truncating division (`tdiv`) mirroring Rust's `/`.

use vstd::prelude::*;

verus! {

/// The fixed-point scale: one whole unit.
pub const FX: i64 = 65536;

/// Largest magnitude allowed for the components of vectors and matrix
/// entries handed to the math routines (about 32768 whole units).
/// Keeping inputs inside this range lets every product of two such
/// values, and every four-term row sum, fit comfortably in an `i64`.
pub const FX_LIM: i64 = 0x8000_0000;

/// The absolute value of an integer.
pub open spec fn sabs(a: int) -> int {
    if a >= 0 {
        a
    } else {
        -a
    }
}

/// Truncating integer division: rounds toward zero, as Rust's `/` does
/// on signed integers.
pub open spec fn tdiv(a: int, b: int) -> int {
    if (a >= 0) == (b >= 0) {
        sabs(a) / sabs(b)
    } else {
        -(sabs(a) / sabs(b))
    }
}

/// The product of two fixed-point numbers.
pub open spec fn fxmul(a: int, b: int) -> int {
    tdiv(a * b, FX as int)
}

/// The quotient of two fixed-point numbers.
pub open spec fn fxdiv(a: int, b: int) -> int {
    tdiv(a * (FX as int), b)
}

/// Clamps `v` to the symmetric interval `[-lim, lim]`.
pub open spec fn sclamp(v: int, lim: int) -> int {
    if v < -lim {
        -lim
    } else if v > lim {
        lim
    } else {
        v
    }
}

/// Bounds on a product follow from bounds on its factors.
pub proof fn lemma_mul_le(a: int, b: int, aa: int, bb: int)
    by (nonlinear_arith)
    requires
        -aa <= a <= aa,
        -bb <= b <= bb,
        0 <= aa,
        0 <= bb,
    ensures
        -(aa * bb) <= a * b <= aa * bb,
{
}

/// Truncating division never increases magnitude when the divisor has
/// magnitude at least one, and it preserves sign for positive divisors.
pub proof fn lemma_tdiv_abs(a: int, b: int)
    requires
        b != 0,
    ensures
        sabs(tdiv(a, b)) <= sabs(a),
        a >= 0 && b > 0 ==> tdiv(a, b) >= 0,
        a <= 0 && b > 0 ==> tdiv(a, b) <= 0,
{
    vstd::arithmetic::div_mod::lemma_div_nonincreasing(sabs(a), sabs(b));
    vstd::arithmetic::div_mod::lemma_div_pos_is_pos(sabs(a), sabs(b));
}

/// Dividing by a positive divisor keeps order with a symmetric bound.
pub proof fn lemma_tdiv_bound(a: int, b: int, m: int)
    requires
        b >= 1,
        0 <= m,
        -m <= a <= m,
    ensures
        -tdiv(m, b) <= tdiv(a, b) <= tdiv(m, b),
{
    vstd::arithmetic::div_mod::lemma_div_is_ordered(sabs(a), m, b);
    vstd::arithmetic::div_mod::lemma_div_pos_is_pos(sabs(a), b);
    vstd::arithmetic::div_mod::lemma_div_pos_is_pos(m, b);
}

/// A product of an integer with a positive factor divides back out
/// exactly.
pub proof fn lemma_tdiv_exact(a: int, b: int)
    requires
        b >= 1,
    ensures
        tdiv(a * b, b) == a,
{
    assert(sabs(a * b) == sabs(a) * b) by (nonlinear_arith)
        requires
            b >= 1,
    ;
    assert((a * b >= 0) == (a >= 0)) by (nonlinear_arith)
        requires
            b >= 1,
    ;
    assert(b * sabs(a) == sabs(a) * b) by (nonlinear_arith);
    vstd::arithmetic::div_mod::lemma_div_multiples_vanish(sabs(a), b);
}

/// Multiplies two fixed-point numbers.  The caller keeps the exact
/// product of the raw values inside `i64` range scaled by `FX`.
pub fn fx_mul(a: i64, b: i64) -> (r: i64)
    requires
        -0x4000_0000_0000_0000 <= a as int * b as int <= 0x4000_0000_0000_0000,
    ensures
        r == fxmul(a as int, b as int),
        -0x4000_0000_0000 <= r <= 0x4000_0000_0000,
{
    let p: i128 = (a as i128) * (b as i128);
    let q: i128 = p / (FX as i128);
    proof {
        lemma_tdiv_bound(p as int, FX as int, 0x4000_0000_0000_0000);
        lemma_tdiv_exact(0x4000_0000_0000, FX as int);
        assert(0x4000_0000_0000 * (FX as int) == 0x4000_0000_0000_0000);
    }
    q as i64
}

/// Divides two fixed-point numbers.  The divisor must be nonzero; the
/// dividend is kept small enough that the scaled quotient fits.
pub fn fx_div(a: i64, b: i64) -> (r: i64)
    requires
        b != 0,
        -0x4000_0000_0000 <= a <= 0x4000_0000_0000,
    ensures
        r == fxdiv(a as int, b as int),
        -0x4000_0000_0000_0000 <= r <= 0x4000_0000_0000_0000,
{
    let p: i128 = (a as i128) * 65536;
    proof {
        lemma_mul_le(a as int, 65536, 0x4000_0000_0000, 65536);
        lemma_tdiv_abs(p as int, b as int);
    }
    let q: i128 = if b > 0 {
        let q0: i128 = p / (b as i128);
        proof {
            assert(q0 == tdiv(p as int, b as int));
        }
        q0
    } else {
        let nb: i128 = -(b as i128);
        let q0: i128 = p / nb;
        proof {
            assert(q0 == tdiv(p as int, nb as int));
            assert(tdiv(p as int, b as int) == -tdiv(p as int, nb as int));
        }
        -q0
    };
    proof {
        assert(sabs(p as int) <= 0x4000_0000_0000_0000);
        assert(-0x4000_0000_0000_0000 <= q as int <= 0x4000_0000_0000_0000);
    }
    q as i64
}

/// The truncating remainder `a - b * tdiv(a, b)` lies strictly within
/// `(-b, b)` and carries the sign of `a`.
pub proof fn lemma_tmod_range(a: int, b: int)
    requires
        b >= 1,
    ensures
        -b < a - b * tdiv(a, b) < b,
        a >= 0 ==> 0 <= a - b * tdiv(a, b),
        a <= 0 ==> a - b * tdiv(a, b) <= 0,
        sabs(b * tdiv(a, b)) <= sabs(a),
{
    vstd::arithmetic::div_mod::lemma_fundamental_div_mod(sabs(a), b);
    vstd::arithmetic::div_mod::lemma_mod_bound(sabs(a), b);
    vstd::arithmetic::div_mod::lemma_div_pos_is_pos(sabs(a), b);
    if a >= 0 {
        assert(a == b * tdiv(a, b) + sabs(a) % b);
    } else {
        assert(sabs(a) == b * (sabs(a) / b) + sabs(a) % b);
        assert(b * tdiv(a, b) == -(b * (sabs(a) / b))) by (nonlinear_arith)
            requires
                tdiv(a, b) == -(sabs(a) / b),
        ;
    }
}

/// A magnitude bound on a fixed-point product follows from magnitude
/// bounds on its factors.
pub proof fn lemma_fxmul_bound(a: int, b: int, aa: int, bb: int)
    requires
        -aa <= a <= aa,
        -bb <= b <= bb,
        0 <= aa,
        0 <= bb,
    ensures
        -tdiv(aa * bb, FX as int) <= fxmul(a, b) <= tdiv(aa * bb, FX as int),
{
    lemma_mul_le(a, b, aa, bb);
    lemma_tdiv_bound(a * b, FX as int, aa * bb);
}

/// A fixed-point product bound in terms of a chosen clean bound `c`
/// with `aa * bb == c * FX`.
pub proof fn lemma_fxmul_pow(a: int, b: int, aa: int, bb: int, c: int)
    requires
        -aa <= a <= aa,
        -bb <= b <= bb,
        0 <= aa,
        0 <= bb,
        0 <= c,
        aa * bb == c * 65536,
    ensures
        -(c * 65536) <= a * b <= c * 65536,
        -c <= fxmul(a, b) <= c,
{
    lemma_mul_le(a, b, aa, bb);
    lemma_tdiv_bound(a * b, 65536, aa * bb);
    lemma_tdiv_exact(c, 65536);
}

/// Divides two fixed-point numbers, clamping the quotient to the
/// symmetric interval `[-DIV_CLAMP, DIV_CLAMP]`.  The clamp only
/// guards the representable range: quotients that large are far
/// beyond any meaningful coordinate.
pub const DIV_CLAMP: i64 = 0x4000_0000_0000_0000;

pub fn fx_div_clamped(a: i64, b: i64) -> (r: i64)
    requires
        b != 0,
        -0x4000_0000_0000_0000 <= a <= 0x4000_0000_0000_0000,
    ensures
        r == sclamp(fxdiv(a as int, b as int), DIV_CLAMP as int),
{
    let p: i128 = (a as i128) * 65536;
    proof {
        lemma_mul_le(a as int, 65536, 0x4000_0000_0000_0000, 65536);
        lemma_tdiv_abs(p as int, b as int);
    }
    let q: i128 = if b > 0 {
        let q0: i128 = p / (b as i128);
        proof {
            assert(q0 == tdiv(p as int, b as int));
        }
        q0
    } else {
        let nb: i128 = -(b as i128);
        let q0: i128 = p / nb;
        proof {
            assert(q0 == tdiv(p as int, nb as int));
            assert(tdiv(p as int, b as int) == -tdiv(p as int, nb as int));
        }
        -q0
    };
    if q > 0x4000_0000_0000_0000 {
        0x4000_0000_0000_0000
    } else if q < -0x4000_0000_0000_0000 {
        -0x4000_0000_0000_0000
    } else {
        q as i64
    }
}

/// Holds when `r` is the integer square root of `n`.
pub open spec fn is_isqrt(r: int, n: int) -> bool {
    0 <= r && r * r <= n < (r + 1) * (r + 1)
}

/// The integer square root of `n`, as a mathematical function.
pub open spec fn fx_sqrt(n: int) -> int {
    choose|r: int| is_isqrt(r, n)
}

/// Every nonnegative integer has an integer square root.
pub proof fn lemma_isqrt_exists(n: int)
    requires
        0 <= n,
    ensures
        is_isqrt(fx_sqrt(n), n),
    decreases n,
{
    if n == 0 {
        assert(is_isqrt(0, 0));
    } else {
        lemma_isqrt_exists(n - 1);
        let r0 = fx_sqrt(n - 1);
        if (r0 + 1) * (r0 + 1) <= n {
            assert(n < (r0 + 2) * (r0 + 2)) by (nonlinear_arith)
                requires
                    0 <= r0,
                    n - 1 < (r0 + 1) * (r0 + 1),
            ;
            assert(is_isqrt(r0 + 1, n));
        } else {
            assert(is_isqrt(r0, n));
        }
    }
    assert(exists|r: int| is_isqrt(r, n));
}

/// The integer square root is unique.
pub proof fn lemma_isqrt_unique(r1: int, r2: int, n: int)
    by (nonlinear_arith)
    requires
        is_isqrt(r1, n),
        is_isqrt(r2, n),
    ensures
        r1 == r2,
{
}

/// The integer square root: the greatest `r` with `r * r <= n`.
pub fn isqrt(n: u64) -> (r: u64)
    ensures
        r * r <= n < (r + 1) * (r + 1),
        r == fx_sqrt(n as int),
{
    let mut lo: u64 = 0;
    let mut hi: u64 = 0xFFFF_FFFF;
    proof {
        assert((0xFFFF_FFFFu64 + 1) * (0xFFFF_FFFFu64 + 1) > n as int) by (nonlinear_arith);
    }
    while lo < hi
        invariant
            lo <= hi <= 0xFFFF_FFFF,
            lo * lo <= n,
            n < (hi + 1) * (hi + 1),
        decreases hi - lo,
    {
        let mid: u64 = lo + (hi - lo + 1) / 2;
        proof {
            lemma_mul_le(mid as int, mid as int, 0xFFFF_FFFF, 0xFFFF_FFFF);
        }
        let sq: u64 = mid * mid;
        if sq <= n {
            lo = mid;
        } else {
            hi = mid - 1;
        }
    }
    proof {
        lemma_isqrt_exists(n as int);
        lemma_isqrt_unique(lo as int, fx_sqrt(n as int), n as int);
    }
    lo
}

} // verus!
