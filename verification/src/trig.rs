//! Fixed-point sine and cosine.
//!
//! The angle is reduced modulo one turn into `[-pi, pi]` and folded
//! into the quarter-wave interval `[-pi/2, pi/2]`; the sine is then
//! its degree-seven odd polynomial and the cosine its degree-six even
//! polynomial, so both are exact at zero.  The contracts state the
//! computed value exactly; the doc comments say what it approximates.

use vstd::prelude::*;
use crate::fixed::{FX, fxmul, tdiv, fx_mul, lemma_tdiv_bound,
    lemma_tdiv_exact, lemma_tmod_range, lemma_fxmul_pow};

verus! {

/// One half turn (pi) in fixed-point.
pub const PI_FX: i64 = 205887;

/// One full turn (two pi) in fixed-point.
pub const TWO_PI_FX: i64 = 411775;

/// One quarter turn (pi over two) in fixed-point.
pub const HALF_PI_FX: i64 = 102944;

/// The angle reduced by whole turns into `[-PI_FX, PI_FX]`.
pub open spec fn spec_wrap_pi(x: int) -> int {
    let m = x - 411775 * tdiv(x, 411775);
    if m > 205887 {
        m - 411775
    } else if m < -205887 {
        m + 411775
    } else {
        m
    }
}

/// The half-turn fold that carries `[-pi, pi]` onto `[-pi/2, pi/2]`
/// without changing the sine.
pub open spec fn spec_fold_quarter(w: int) -> int {
    if w > 102944 {
        205887 - w
    } else if w < -102944 {
        -205887 - w
    } else {
        w
    }
}

/// The degree-seven sine polynomial evaluated in fixed-point.
pub open spec fn spec_sin_poly(t: int) -> int {
    let t2 = fxmul(t, t);
    let t3 = fxmul(t2, t);
    let t5 = fxmul(t3, t2);
    let t7 = fxmul(t5, t2);
    t - tdiv(t3, 6) + tdiv(t5, 120) - tdiv(t7, 5040)
}

/// The fixed-point sine: reduction, fold, then the polynomial.
pub open spec fn spec_sin_fx(x: int) -> int {
    spec_sin_poly(spec_fold_quarter(spec_wrap_pi(x)))
}

/// The even cosine polynomial evaluated in fixed-point; exact at
/// zero.
pub open spec fn spec_cos_poly(t: int) -> int {
    let t2 = fxmul(t, t);
    let t4 = fxmul(t2, t2);
    let t6 = fxmul(t4, t2);
    65536 - tdiv(t2, 2) + tdiv(t4, 24) - tdiv(t6, 720)
}

/// The fixed-point cosine: reduction into `[-pi, pi]`, an even fold
/// into the quarter wave carrying its sign, then the polynomial.
pub open spec fn spec_cos_fx(x: int) -> int {
    let w = spec_wrap_pi(x);
    if w > 102944 {
        -spec_cos_poly(205887 - w)
    } else if w < -102944 {
        -spec_cos_poly(205887 + w)
    } else {
        spec_cos_poly(w)
    }
}

/// Approximates the sine of a fixed-point angle in radians.  The
/// result is exactly `spec_sin_fx(x)`.
#[verifier::rlimit(60)]
pub fn sin_fx(x: i64) -> (r: i64)
    requires
        -0x4000_0000 <= x <= 0x4000_0000,
    ensures
        r == spec_sin_fx(x as int),
        -0x28000 <= r <= 0x28000,
{
    let q: i64 = x / TWO_PI_FX;
    proof {
        lemma_tmod_range(x as int, 411775);
    }
    let m: i64 = x - q * TWO_PI_FX;
    let w: i64 = if m > PI_FX {
        m - TWO_PI_FX
    } else if m < -PI_FX {
        m + TWO_PI_FX
    } else {
        m
    };
    let t: i64 = if w > HALF_PI_FX {
        PI_FX - w
    } else if w < -HALF_PI_FX {
        -PI_FX - w
    } else {
        w
    };
    proof {
        assert(-106496 <= t <= 106496);
        // Quarter-wave argument: |t| <= 106496 (= 416 * 256), so each
        // power carries a clean bound expressible as a multiple of the
        // scale.
        lemma_fxmul_pow(t as int, t as int, 106496, 106496, 173056);
        lemma_fxmul_pow(fxmul(t as int, t as int), t as int, 173056, 106496, 281216);
        lemma_fxmul_pow(
            fxmul(fxmul(t as int, t as int), t as int),
            fxmul(t as int, t as int),
            282624,
            173056,
            746304,
        );
        lemma_fxmul_pow(
            fxmul(fxmul(fxmul(t as int, t as int), t as int), fxmul(t as int, t as int)),
            fxmul(t as int, t as int),
            747008,
            173056,
            1972568,
        );
    }
    let t2: i64 = fx_mul(t, t);
    let t3: i64 = fx_mul(t2, t);
    let t5: i64 = fx_mul(t3, t2);
    let t7: i64 = fx_mul(t5, t2);
    proof {
        lemma_tdiv_bound(t3 as int, 6, 281220);
        lemma_tdiv_exact(46870, 6);
        lemma_tdiv_bound(t5 as int, 120, 746400);
        lemma_tdiv_exact(6220, 120);
        lemma_tdiv_bound(t7 as int, 5040, 1975680);
        lemma_tdiv_exact(392, 5040);
    }
    t - t3 / 6 + t5 / 120 - t7 / 5040
}

/// Approximates the cosine of a fixed-point angle in radians.  The
/// result is exactly `spec_cos_fx(x)`, and exactly one at angle zero.
#[verifier::rlimit(60)]
pub fn cos_fx(x: i64) -> (r: i64)
    requires
        -0x4000_0000 <= x <= 0x4000_0000,
    ensures
        r == spec_cos_fx(x as int),
        -0x2B000 <= r <= 0x2B000,
{
    let q: i64 = x / TWO_PI_FX;
    proof {
        lemma_tmod_range(x as int, 411775);
    }
    let m: i64 = x - q * TWO_PI_FX;
    let w: i64 = if m > PI_FX {
        m - TWO_PI_FX
    } else if m < -PI_FX {
        m + TWO_PI_FX
    } else {
        m
    };
    let neg: bool = w > HALF_PI_FX || w < -HALF_PI_FX;
    let t: i64 = if w > HALF_PI_FX {
        PI_FX - w
    } else if w < -HALF_PI_FX {
        PI_FX + w
    } else {
        w
    };
    proof {
        assert(-106496 <= t <= 106496);
        lemma_fxmul_pow(t as int, t as int, 106496, 106496, 173056);
        lemma_fxmul_pow(
            fxmul(t as int, t as int),
            fxmul(t as int, t as int),
            173056,
            173056,
            456976,
        );
        lemma_fxmul_pow(
            fxmul(fxmul(t as int, t as int), fxmul(t as int, t as int)),
            fxmul(t as int, t as int),
            457216,
            173056,
            1207336,
        );
    }
    let t2: i64 = fx_mul(t, t);
    let t4: i64 = fx_mul(t2, t2);
    let t6: i64 = fx_mul(t4, t2);
    proof {
        lemma_tdiv_bound(t2 as int, 2, 173056);
        lemma_tdiv_exact(86528, 2);
        lemma_tdiv_bound(t4 as int, 24, 456984);
        lemma_tdiv_exact(19041, 24);
        lemma_tdiv_bound(t6 as int, 720, 1207440);
        lemma_tdiv_exact(1677, 720);
    }
    let p: i64 = FX - t2 / 2 + t4 / 24 - t6 / 720;
    if neg {
        -p
    } else {
        p
    }
}

} // verus!
