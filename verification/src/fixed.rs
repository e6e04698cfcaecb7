use vstd::arithmetic::div_mod::lemma_fundamental_div_mod;
use vstd::arithmetic::div_mod::lemma_fundamental_div_mod_converse;
use vstd::prelude::*;

verus! {

/// Fixed-point unit: an `i64` value `v` stands for the real number
/// `v / SCALE`, so `SCALE` itself is `1.0`.
pub const SCALE: i64 = 65536;

/// Euler's number in fixed point: `e * SCALE`, rounded to nearest.
pub const E_FIXED: i64 = 178145;

/// `x` clamped to the `i64` range.
pub open spec fn clamp_i64(x: int) -> int {
    if x > i64::MAX {
        i64::MAX as int
    } else if x < i64::MIN {
        i64::MIN as int
    } else {
        x
    }
}

/// Division truncated toward zero, for a positive divisor.
pub open spec fn tdiv(a: int, b: int) -> int
    recommends
        b > 0,
{
    if a >= 0 {
        a / b
    } else {
        -((-a) / b)
    }
}

/// Saturating fixed-point product: `a * b / SCALE`, truncated toward zero
/// and clamped to the `i64` range.
pub open spec fn spec_mul_fixed(a: int, b: int) -> int {
    clamp_i64(tdiv(a * b, SCALE as int))
}

/// Saturating sum, clamped to the `i64` range.
pub open spec fn spec_add_sat(a: int, b: int) -> int {
    clamp_i64(a + b)
}

/// Degree-4 Taylor polynomial of `e^f` around 0, for a fractional
/// fixed-point argument `0 <= f < SCALE`.
pub open spec fn spec_exp_frac(f: int) -> int {
    (SCALE as int) + f + (f * f) / (2 * (SCALE as int)) + (f * f * f) / (6 * (SCALE as int) * (
    SCALE as int)) + (f * f * f * f) / (24 * (SCALE as int) * (SCALE as int) * (SCALE as int))
}

/// `ef` multiplied by `e` exactly `k` times, in saturating fixed point.
pub open spec fn spec_exp_scale_up(ef: int, k: nat) -> int
    decreases k,
{
    if k == 0 {
        ef
    } else {
        spec_mul_fixed(spec_exp_scale_up(ef, (k - 1) as nat), E_FIXED as int)
    }
}

/// `ef` divided by `e` exactly `k` times (floored), for a non-negative `ef`.
pub open spec fn spec_exp_scale_down(ef: int, k: nat) -> int
    decreases k,
{
    if k == 0 {
        ef
    } else {
        (spec_exp_scale_down(ef, (k - 1) as nat) * (SCALE as int)) / (E_FIXED as int)
    }
}

/// The fixed-point exponential: the argument is clamped to
/// `[-16 * SCALE, 16 * SCALE]`, split into an integer part `k` and a
/// fractional part `f`, and `e^x` is approximated as `e^k * taylor(f)`,
/// floored at the smallest positive fixed-point value.
pub open spec fn spec_exp(x: int) -> int {
    let lo = -16 * (SCALE as int);
    let hi = 16 * (SCALE as int);
    let xc = if x < lo {
        lo
    } else if x > hi {
        hi
    } else {
        x
    };
    let k = xc / (SCALE as int);
    let f = xc % (SCALE as int);
    let ef = spec_exp_frac(f);
    let r = if k >= 0 {
        spec_exp_scale_up(ef, k as nat)
    } else {
        spec_exp_scale_down(ef, (-k) as nat)
    };
    if r < 1 {
        1
    } else {
        r
    }
}

/// Saturating fixed-point multiplication.
pub fn mul_fixed(a: i64, b: i64) -> (r: i64)
    ensures
        r as int == spec_mul_fixed(a as int, b as int),
{
    proof {
        assert((a as int) * (b as int) <= 0x4000_0000_0000_0000_0000_0000_0000_0000 && (a as int)
            * (b as int) >= -0x4000_0000_0000_0000_0000_0000_0000_0000) by (nonlinear_arith)
            requires
                -0x8000_0000_0000_0000 <= a as int <= 0x7fff_ffff_ffff_ffff,
                -0x8000_0000_0000_0000 <= b as int <= 0x7fff_ffff_ffff_ffff,
        ;
    }
    let p: i128 = (a as i128) * (b as i128);
    if p >= 0 {
        let q: u128 = (p as u128) / (SCALE as u128);
        if q > (i64::MAX as u128) {
            i64::MAX
        } else {
            q as i64
        }
    } else {
        let m: u128 = (-p) as u128;
        let q: u128 = m / (SCALE as u128);
        if q >= 0x8000_0000_0000_0000u128 {
            i64::MIN
        } else {
            -(q as i64)
        }
    }
}

/// Saturating addition.
pub fn add_sat(a: i64, b: i64) -> (r: i64)
    ensures
        r as int == spec_add_sat(a as int, b as int),
{
    let s: i128 = (a as i128) + (b as i128);
    if s > (i64::MAX as i128) {
        i64::MAX
    } else if s < (i64::MIN as i128) {
        i64::MIN
    } else {
        s as i64
    }
}

/// The fixed-point exponential used by softmax. Always at least the
/// smallest positive fixed-point value, so an exponentiated weight can be
/// summed into a strictly positive denominator.
pub fn exp_fixed(x: i64) -> (r: i64)
    ensures
        r as int == spec_exp(x as int),
        1 <= r,
{
    let lo: i64 = -16 * SCALE;
    let hi: i64 = 16 * SCALE;
    let xc: i64 = if x < lo {
        lo
    } else if x > hi {
        hi
    } else {
        x
    };
    let kk: i64;
    let ff: i64;
    if xc >= 0 {
        let xu: u64 = xc as u64;
        let d: u64 = xu / (SCALE as u64);
        let rem: u64 = xu % (SCALE as u64);
        proof {
            lemma_fundamental_div_mod(xu as int, SCALE as int);
        }
        kk = d as i64;
        ff = rem as i64;
    } else {
        let m: u64 = (-xc) as u64;
        let d: u64 = m / (SCALE as u64);
        let rem: u64 = m % (SCALE as u64);
        proof {
            lemma_fundamental_div_mod(m as int, SCALE as int);
        }
        if rem == 0 {
            kk = -(d as i64);
            ff = 0;
        } else {
            kk = -(d as i64) - 1;
            ff = SCALE - (rem as i64);
        }
    }
    proof {
        lemma_fundamental_div_mod_converse(xc as int, SCALE as int, kk as int, ff as int);
    }
    let fu: u64 = ff as u64;
    proof {
        assert(fu * fu < 0x1_0000_0000 && fu * fu * fu < 0x1_0000_0000_0000 && fu * fu * fu * fu
            < 0x1_0000_0000_0000_0000) by (nonlinear_arith)
            requires
                0 <= fu < 0x10000,
        ;
    }
    let su: u64 = SCALE as u64;
    proof {
        assert(fu * fu / (2 * su) < 0x10000 && fu * fu * fu / (6 * su * su) < 0x10000 && fu * fu
            * fu * fu / (24 * su * su * su) < 0x10000) by (nonlinear_arith)
            requires
                0 <= fu < 0x10000,
                su == 0x10000,
        ;
    }
    let f2: u64 = fu * fu / (2 * su);
    let f3: u64 = fu * fu * fu / (6 * su * su);
    let f4: u64 = fu * fu * fu * fu / (24 * su * su * su);
    let ef: i64 = (su + fu + f2 + f3 + f4) as i64;
    assert(fu as int == ff as int);
    assert(ef as int == spec_exp_frac(ff as int));
    let mut r: i64 = ef;
    if kk >= 0 {
        let mut j: i64 = 0;
        while j < kk
            invariant
                0 <= j <= kk <= 16,
                r as int == spec_exp_scale_up(ef as int, j as nat),
            decreases kk - j,
        {
            r = mul_fixed(r, E_FIXED);
            j = j + 1;
        }
    } else {
        let n: i64 = -kk;
        let mut j: i64 = 0;
        while j < n
            invariant
                0 <= j <= n <= 16,
                r as int == spec_exp_scale_down(ef as int, j as nat),
                0 <= r,
            decreases n - j,
        {
            let q: u128 = ((r as u128) * (SCALE as u128)) / (E_FIXED as u128);
            proof {
                assert(((r as int) * 65536) / 178145 <= r as int) by (nonlinear_arith)
                    requires
                        0 <= r as int,
                ;
            }
            r = q as i64;
            j = j + 1;
        }
    }
    if r < 1 {
        1
    } else {
        r
    }
}

} // verus!
