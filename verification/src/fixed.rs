//! Fixed-point arithmetic kernel.
//!
//! A fixed-point value is an `i64` carrying four decimal places: `10000`
//! stands for one world unit. Products and quotients are truncated toward
//! zero, which makes negation symmetric: `fxm(a, -b) == -fxm(a, b)`.

use vstd::prelude::*;

verus! {

/// One world unit in fixed-point form.
pub const FX_ONE: i64 = 10000;

/// Largest magnitude accepted as the left operand of a fixed-point product.
pub const FX_MUL_LEFT_MAX: i64 = 100_000_000_000_000;

/// Largest magnitude accepted as the right operand of a fixed-point product.
pub const FX_MUL_RIGHT_MAX: i64 = 100_000_000;

/// Largest magnitude accepted as the dividend of a fixed-point quotient.
pub const FX_DIV_NUM_MAX: i64 = 1_000_000_000;

/// Whether two integers have strictly opposite signs (zero counts as positive).
pub open spec fn sign_differs(a: int, b: int) -> bool {
    (a < 0 && b >= 0) || (a >= 0 && b < 0)
}

/// Magnitude of an integer.
pub open spec fn iabs(x: int) -> int {
    if x >= 0 {
        x
    } else {
        -x
    }
}

/// Quotient of `p` by nonzero `q`, rounded toward zero.
pub open spec fn tdiv(p: int, q: int) -> int
    recommends
        q != 0,
{
    let m = iabs(p) / iabs(q);
    if (p >= 0) == (q >= 0) {
        m
    } else {
        -m
    }
}

/// Fixed-point product: the exact product scaled back down, truncated toward zero.
pub open spec fn fxm(a: int, b: int) -> int {
    tdiv(a * b, FX_ONE as int)
}

/// Fixed-point quotient: `a / b` in world units, truncated toward zero.
pub open spec fn fxd(a: int, b: int) -> int
    recommends
        b != 0,
{
    tdiv(a * (FX_ONE as int), b)
}

/// Whole-unit floor of a fixed-point value (`int` division by a positive
/// divisor rounds toward negative infinity).
pub open spec fn ffloor(v: int) -> int {
    v / (FX_ONE as int)
}

/// Truncation toward zero is symmetric in its dividend.
pub proof fn lemma_tdiv_neg(p: int, q: int)
    requires
        q != 0,
    ensures
        tdiv(-p, q) == -tdiv(p, q),
{
}

/// A fixed-point product with a negated right operand is the negated product.
pub proof fn lemma_fxm_neg_right(a: int, b: int)
    ensures
        fxm(a, -b) == -fxm(a, b),
{
    assert(a * (-b) == -(a * b)) by (nonlinear_arith);
    lemma_tdiv_neg(a * b, FX_ONE as int);
}

/// Multiplying by one world unit is the identity.
pub proof fn lemma_fxm_one(a: int)
    ensures
        fxm(a, FX_ONE as int) == a,
{
    if a >= 0 {
        assert((a * (FX_ONE as int)) / (FX_ONE as int) == a) by (nonlinear_arith);
    } else {
        assert(a * (FX_ONE as int) < 0 && iabs(a * (FX_ONE as int)) == (-a) * (FX_ONE as int))
            by (nonlinear_arith)
            requires
                a < 0,
        ;
        assert(((-a) * (FX_ONE as int)) / (FX_ONE as int) == -a) by (nonlinear_arith);
    }
}

/// Multiplying by zero gives zero.
pub proof fn lemma_fxm_zero(a: int)
    ensures
        fxm(a, 0) == 0,
        fxm(0, a) == 0,
{
    assert(a * 0 == 0) by (nonlinear_arith);
    assert(0 * a == 0) by (nonlinear_arith);
}

/// The magnitude of a fixed-point product is bounded by the scaled product of
/// the operand bounds.
pub proof fn lemma_fxm_bound(a: int, b: int, aa: int, bb: int)
    requires
        iabs(a) <= aa,
        iabs(b) <= bb,
    ensures
        iabs(fxm(a, b)) <= (aa * bb) / (FX_ONE as int),
{
    assert(iabs(a * b) <= aa * bb) by (nonlinear_arith)
        requires
            iabs(a) <= aa,
            iabs(b) <= bb,
    ;
    assert(iabs(a * b) / (FX_ONE as int) <= (aa * bb) / (FX_ONE as int)) by (nonlinear_arith)
        requires
            iabs(a * b) <= aa * bb,
    ;
    assert(iabs(tdiv(a * b, FX_ONE as int)) == iabs(a * b) / (FX_ONE as int));
}

/// Fixed-point product, truncated toward zero.
pub fn fx_mul(a: i64, b: i64) -> (r: i64)
    requires
        -FX_MUL_LEFT_MAX <= a <= FX_MUL_LEFT_MAX,
        -FX_MUL_RIGHT_MAX <= b <= FX_MUL_RIGHT_MAX,
    ensures
        r as int == fxm(a as int, b as int),
        iabs(r as int) <= (iabs(a as int) * iabs(b as int)) / (FX_ONE as int),
{
    let ma: u128 = if a >= 0 {
        a as u128
    } else {
        (-(a as i128)) as u128
    };
    let mb: u128 = if b >= 0 {
        b as u128
    } else {
        (-(b as i128)) as u128
    };
    proof {
        assert(ma == iabs(a as int));
        assert(mb == iabs(b as int));
        assert(ma * mb == iabs((a as int) * (b as int))) by (nonlinear_arith)
            requires
                ma == iabs(a as int),
                mb == iabs(b as int),
        ;
        assert(ma * mb <= (FX_MUL_LEFT_MAX as int) * (FX_MUL_RIGHT_MAX as int)) by (nonlinear_arith)
            requires
                ma <= FX_MUL_LEFT_MAX as int,
                mb <= FX_MUL_RIGHT_MAX as int,
        ;
    }
    let q: u128 = (ma * mb) / (FX_ONE as u128);
    proof {
        assert((ma * mb) / (FX_ONE as u128) as int <= ma * mb) by (nonlinear_arith)
            requires
                ma * mb >= 0,
        ;
    }
    let neg = (a < 0) != (b < 0);
    let r = if neg {
        -(q as i64)
    } else {
        q as i64
    };
    proof {
        assert(neg == sign_differs(a as int, b as int));
        assert(q as int == iabs((a as int) * (b as int)) / (FX_ONE as int));
        if (a as int) * (b as int) >= 0 {
            assert(!neg || q == 0) by (nonlinear_arith)
                requires
                    (a as int) * (b as int) >= 0,
                    neg == sign_differs(a as int, b as int),
                    q as int == iabs((a as int) * (b as int)) / (FX_ONE as int),
            ;
        } else {
            assert(neg) by (nonlinear_arith)
                requires
                    (a as int) * (b as int) < 0,
                    neg == sign_differs(a as int, b as int),
            ;
        }
        lemma_fxm_bound(a as int, b as int, iabs(a as int), iabs(b as int));
    }
    r
}

/// Fixed-point quotient, truncated toward zero.
pub fn fx_div(a: i64, b: i64) -> (r: i64)
    requires
        b != 0,
        -FX_DIV_NUM_MAX <= a <= FX_DIV_NUM_MAX,
    ensures
        r as int == fxd(a as int, b as int),
{
    let m0: u128 = if a >= 0 {
        a as u128
    } else {
        (-(a as i128)) as u128
    };
    proof {
        assert(m0 == iabs(a as int));
        assert(m0 * (FX_ONE as u128) <= (FX_DIV_NUM_MAX as int) * (FX_ONE as int)) by (
        nonlinear_arith)
            requires
                0 <= m0 <= FX_DIV_NUM_MAX as int,
                0 < FX_ONE as int,
        ;
    }
    let ma: u128 = m0 * (FX_ONE as u128);
    let mb: u128 = if b >= 0 {
        b as u128
    } else {
        (-(b as i128)) as u128
    };
    proof {
        assert(ma == iabs((a as int) * (FX_ONE as int))) by (nonlinear_arith)
            requires
                ma == iabs(a as int) * (FX_ONE as int),
        ;
        assert(mb == iabs(b as int));
        assert(mb >= 1);
    }
    let q: u128 = ma / mb;
    proof {
        assert(q <= ma) by (nonlinear_arith)
            requires
                q == ma / mb,
                mb >= 1,
                ma >= 0,
        ;
    }
    let neg = (a < 0) != (b < 0);
    let r = if neg {
        -(q as i64)
    } else {
        q as i64
    };
    proof {
        let p = (a as int) * (FX_ONE as int);
        assert(neg == sign_differs(a as int, b as int));
        assert(q as int == iabs(p) / iabs(b as int));
        assert((a as int) >= 0 ==> p >= 0) by (nonlinear_arith)
            requires
                p == (a as int) * (FX_ONE as int),
                0 < FX_ONE as int,
        ;
        assert((a as int) < 0 ==> p < 0) by (nonlinear_arith)
            requires
                p == (a as int) * (FX_ONE as int),
                0 < FX_ONE as int,
        ;
        assert(r as int == tdiv(p, b as int));
    }
    r
}

/// Whole-unit floor of a fixed-point value.
pub fn fx_floor(v: i64) -> (r: i64)
    ensures
        r as int == ffloor(v as int),
{
    if v >= 0 {
        let q = (v as u64) / (FX_ONE as u64);
        q as i64
    } else {
        let m: u128 = (-(v as i128)) as u128;
        let q: u128 = m / (FX_ONE as u128);
        let rem: u128 = m % (FX_ONE as u128);
        proof {
            assert(m == (FX_ONE as int) * q + rem && rem < FX_ONE as int && q <= m) by (
            nonlinear_arith)
                requires
                    q == (m as int) / (FX_ONE as int),
                    rem == (m as int) % (FX_ONE as int),
                    m >= 0,
            ;
            if rem == 0 {
                assert((-(m as int)) / (FX_ONE as int) == -(q as int)) by (nonlinear_arith)
                    requires
                        m == (FX_ONE as int) * q,
                        FX_ONE as int > 0,
                        q >= 0,
                ;
            } else {
                assert((-(m as int)) / (FX_ONE as int) == -(q as int) - 1) by (nonlinear_arith)
                    requires
                        m == (FX_ONE as int) * q + rem,
                        0 < rem < FX_ONE as int,
                        q >= 0,
                ;
            }
        }
        if rem == 0 {
            -(q as i64)
        } else {
            -(q as i64) - 1
        }
    }
}

/// A fixed-point product with a negated left operand is the negated product.
pub proof fn lemma_fxm_neg_left(a: int, b: int)
    ensures
        fxm(-a, b) == -fxm(a, b),
{
    assert((-a) * b == -(a * b)) by (nonlinear_arith);
    lemma_tdiv_neg(a * b, FX_ONE as int);
}

/// Truncating division by a small positive constant.
pub fn div_trunc(v: i64, n: i64) -> (r: i64)
    requires
        n > 0,
        -1_000_000_000_000_000 <= v <= 1_000_000_000_000_000,
    ensures
        r as int == tdiv(v as int, n as int),
{
    let m: u64 = if v >= 0 {
        v as u64
    } else {
        (-v) as u64
    };
    let q: u64 = m / (n as u64);
    proof {
        assert(m == iabs(v as int));
        assert(q as int == iabs(v as int) / iabs(n as int));
        assert(q <= m) by (nonlinear_arith)
            requires
                q == (m as int) / (n as int),
                n >= 1,
                m >= 0,
        ;
    }
    if v >= 0 {
        q as i64
    } else {
        -(q as i64)
    }
}

/// The small-angle sine polynomial `a - a^3/6 + a^5/120`, evaluated with
/// fixed-point truncation at each step.
pub open spec fn sin_fx(a: int) -> int {
    let a2 = fxm(a, a);
    let a3 = fxm(a2, a);
    let a5 = fxm(a3, a2);
    a - tdiv(a3, 6) + tdiv(a5, 120)
}

/// The small-angle cosine polynomial `1 - a^2/2 + a^4/24`, evaluated with
/// fixed-point truncation at each step.
pub open spec fn cos_fx(a: int) -> int {
    let a2 = fxm(a, a);
    let a4 = fxm(a2, a2);
    (FX_ONE as int) - tdiv(a2, 2) + tdiv(a4, 24)
}

/// Largest angle magnitude (fixed-point radians) the polynomial evaluators
/// accept without overflowing their intermediates.
pub const ANGLE_MAX: i64 = 1_000_000;

/// Bound on the magnitude of an evaluated sine or cosine polynomial.
pub const TRIG_BOUND: i64 = 1_000_000_000_000;

/// Fixed-point small-angle sine.
pub fn fx_sin(a: i64) -> (r: i64)
    requires
        -ANGLE_MAX <= a <= ANGLE_MAX,
    ensures
        r as int == sin_fx(a as int),
        iabs(r as int) <= TRIG_BOUND as int,
{
    let a2 = fx_mul(a, a);
    proof {
        lemma_fxm_bound(a as int, a as int, 1_000_000, 1_000_000);
    }
    let a3 = fx_mul(a2, a);
    proof {
        lemma_fxm_bound(a2 as int, a as int, 100_000_000, 1_000_000);
    }
    let a5 = fx_mul(a3, a2);
    proof {
        lemma_fxm_bound(a3 as int, a2 as int, 10_000_000_000, 100_000_000);
    }
    let t3 = div_trunc(a3, 6);
    let t5 = div_trunc(a5, 120);
    proof {
        assert(iabs(t3 as int) == iabs(a3 as int) / 6);
        assert(iabs(a3 as int) / 6 <= 10_000_000_000int / 6) by (nonlinear_arith)
            requires
                0 <= iabs(a3 as int) <= 10_000_000_000,
        ;
        assert(iabs(t5 as int) == iabs(a5 as int) / 120);
        assert(iabs(a5 as int) / 120 <= 100_000_000_000_000int / 120) by (nonlinear_arith)
            requires
                0 <= iabs(a5 as int) <= 100_000_000_000_000,
        ;
    }
    a - t3 + t5
}

/// Fixed-point small-angle cosine.
pub fn fx_cos(a: i64) -> (r: i64)
    requires
        -ANGLE_MAX <= a <= ANGLE_MAX,
    ensures
        r as int == cos_fx(a as int),
        iabs(r as int) <= TRIG_BOUND as int,
{
    let a2 = fx_mul(a, a);
    proof {
        lemma_fxm_bound(a as int, a as int, 1_000_000, 1_000_000);
    }
    let a4 = fx_mul(a2, a2);
    proof {
        lemma_fxm_bound(a2 as int, a2 as int, 100_000_000, 100_000_000);
    }
    let t2 = div_trunc(a2, 2);
    let t4 = div_trunc(a4, 24);
    proof {
        assert(iabs(t2 as int) == iabs(a2 as int) / 2);
        assert(iabs(a2 as int) / 2 <= 50_000_000) by (nonlinear_arith)
            requires
                0 <= iabs(a2 as int) <= 100_000_000,
        ;
        assert(iabs(t4 as int) == iabs(a4 as int) / 24);
        assert(iabs(a4 as int) / 24 <= 1_000_000_000_000int / 24) by (nonlinear_arith)
            requires
                0 <= iabs(a4 as int) <= 1_000_000_000_000,
        ;
    }
    FX_ONE - t2 + t4
}

/// The fixed-point fraction of `v` within its whole unit: `v` minus one unit
/// times its whole-unit floor, always in `[0, FX_ONE)`.
pub fn fx_fract(v: i64) -> (r: i64)
    requires
        -100_000_000_000_000 <= v <= 100_000_000_000_000,
    ensures
        r as int == (v as int) % (FX_ONE as int),
        0 <= r < FX_ONE,
{
    let f = fx_floor(v);
    proof {
        vstd::arithmetic::div_mod::lemma_fundamental_div_mod(v as int, FX_ONE as int);
        assert(iabs(f as int) <= 10_000_000_001) by (nonlinear_arith)
            requires
                f as int == (v as int) / (FX_ONE as int),
                -100_000_000_000_000 <= v as int <= 100_000_000_000_000,
                FX_ONE as int == 10000,
        ;
        assert(0 <= (v as int) % (FX_ONE as int) < FX_ONE as int) by (nonlinear_arith)
            requires
                FX_ONE as int == 10000,
        ;
    }
    v - FX_ONE * f
}

} // verus!
