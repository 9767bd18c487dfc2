//! Fixed-point arithmetic helpers shared by the encoder and the decoder:
//! truncating signed division, integer square root, and the cosine basis
//! function `cos(pi * n / d)` evaluated at scale 65536 by a degree-10 Taylor
//! polynomial after quadrant reduction.

use vstd::prelude::*;
use vstd::arithmetic::div_mod::lemma_div_is_ordered;

verus! {

/// Signed division by a positive divisor with the quotient rounded toward
/// zero.
pub open spec fn div_towards_zero(a: int, d: int) -> int {
    if a >= 0 {
        a / d
    } else {
        -((-a) / d)
    }
}

/// Divides, rounding the quotient toward zero.
pub fn div_trunc(a: i64, d: i64) -> (r: i64)
    requires
        d > 0,
        a > i64::MIN,
    ensures
        r == div_towards_zero(a as int, d as int),
{
    if a >= 0 {
        let q: u64 = (a as u64) / (d as u64);
        proof {
            lemma_div_is_ordered(a as int, i64::MAX as int, d as int);
        }
        q as i64
    } else {
        let q: u64 = ((-a) as u64) / (d as u64);
        proof {
            lemma_div_is_ordered(-a as int, i64::MAX as int, d as int);
        }
        -(q as i64)
    }
}

/// Signed 128-bit division by a positive divisor, quotient rounded toward
/// zero.
pub fn div_trunc128(a: i128, d: i128) -> (r: i128)
    requires
        d > 0,
        a > i128::MIN,
    ensures
        r == div_towards_zero(a as int, d as int),
{
    if a >= 0 {
        let q: u128 = (a as u128) / (d as u128);
        proof {
            lemma_div_is_ordered(a as int, i128::MAX as int, d as int);
        }
        q as i128
    } else {
        let q: u128 = ((-a) as u128) / (d as u128);
        proof {
            lemma_div_is_ordered(-a as int, i128::MAX as int, d as int);
        }
        -(q as i128)
    }
}

/// `r` is the integer square root of `x`.
pub open spec fn is_isqrt(x: int, r: int) -> bool {
    r >= 0 && r * r <= x < (r + 1) * (r + 1)
}

/// The integer square root.
pub open spec fn sqrt_floor(x: int) -> int {
    choose|r: int| is_isqrt(x, r)
}

/// The integer square root is unique.
pub proof fn lemma_isqrt_unique(x: int, a: int, b: int)
    requires
        is_isqrt(x, a),
        is_isqrt(x, b),
    ensures
        a == b,
{
    if a < b {
        assert((a + 1) * (a + 1) <= b * b) by (nonlinear_arith)
            requires
                0 <= a,
                a < b,
        ;
        assert(false);
    }
    if b < a {
        assert((b + 1) * (b + 1) <= a * a) by (nonlinear_arith)
            requires
                0 <= b,
                b < a,
        ;
        assert(false);
    }
}

/// Computes the integer square root by bisection.
pub fn isqrt(x: u64) -> (r: u64)
    ensures
        is_isqrt(x as int, r as int),
        r == sqrt_floor(x as int),
{
    let mut lo: u64 = 0;
    let mut hi: u64 = 4294967295;
    while lo < hi
        invariant
            lo <= hi <= 4294967295,
            lo * lo <= x,
            (hi + 1) * (hi + 1) > x,
        decreases hi - lo,
    {
        let mid: u64 = lo + (hi - lo + 1) / 2;
        proof {
            assert(mid * mid <= 4294967295 * 4294967295) by (nonlinear_arith)
                requires
                    mid <= 4294967295,
            ;
        }
        if mid * mid <= x {
            lo = mid;
        } else {
            hi = mid - 1;
        }
    }
    proof {
        assert(is_isqrt(x as int, lo as int));
        lemma_isqrt_unique(x as int, lo as int, sqrt_floor(x as int));
    }
    lo
}

/// The clamped degree-10 Taylor polynomial for `cos(t / 65536)`, for an
/// angle `t` in [0, pi/2] at scale 65536.
pub open spec fn cos_poly_fp(t: int) -> int {
    let z: int = t * t / 65536;
    let p2: int = z * z / 65536;
    let p3: int = p2 * z / 65536;
    let p4: int = p3 * z / 65536;
    let p5: int = p4 * z / 65536;
    let raw: int = 65536 - z / 2 + p2 / 24 - p3 / 720 + p4 / 40320 - p5 / 3628800;
    if raw > 65536 {
        65536
    } else if raw < -65536 {
        -65536
    } else {
        raw
    }
}

/// `cos(pi * n / d)` at scale 65536: the argument is reduced modulo a full
/// period, folded into the first quadrant, and fed to the Taylor polynomial.
pub open spec fn cos_pi_fp(n: int, d: int) -> int {
    let m: int = n % (2 * d);
    let folded: int = if m > d {
        2 * d - m
    } else {
        m
    };
    if 2 * folded > d {
        -cos_poly_fp(205887 * (d - folded) / d)
    } else {
        cos_poly_fp(205887 * folded / d)
    }
}

/// A zero frequency-position product gives the constant basis value 1
/// (65536 at scale).
pub proof fn lemma_cos_pi_zero(d: int)
    requires
        d >= 1,
    ensures
        cos_pi_fp(0, d) == 65536,
{
    assert(0int % (2 * d) == 0);
    assert(205887 * 0 == 0);
    assert(0int / d == 0);
    assert(cos_poly_fp(0) == 65536);
}

fn cos_poly_at(t: u64) -> (r: i64)
    requires
        t <= 102943,
    ensures
        r == cos_poly_fp(t as int),
        -65536 <= r <= 65536,
{
    proof {
        assert(t * t <= 102943 * 102943) by (nonlinear_arith)
            requires
                t <= 102943,
        ;
    }
    let z: u64 = t * t / 65536;
    proof {
        lemma_div_is_ordered(t as int * t as int, 102943int * 102943, 65536);
        assert(z <= 161701);
        assert(z * z <= 161701 * 161701) by (nonlinear_arith)
            requires
                z <= 161701,
        ;
    }
    let p2: u64 = z * z / 65536;
    proof {
        lemma_div_is_ordered(z as int * z as int, 161701int * 161701, 65536);
        assert(p2 <= 398974);
        assert(p2 * z <= 398974 * 161701) by (nonlinear_arith)
            requires
                p2 <= 398974,
                z <= 161701,
        ;
    }
    let p3: u64 = p2 * z / 65536;
    proof {
        lemma_div_is_ordered(p2 as int * z as int, 398974int * 161701, 65536);
        assert(p3 <= 984413);
        assert(p3 * z <= 984413 * 161701) by (nonlinear_arith)
            requires
                p3 <= 984413,
                z <= 161701,
        ;
    }
    let p4: u64 = p3 * z / 65536;
    proof {
        lemma_div_is_ordered(p3 as int * z as int, 984413int * 161701, 65536);
        assert(p4 <= 2428902);
        assert(p4 * z <= 2428902 * 161701) by (nonlinear_arith)
            requires
                p4 <= 2428902,
                z <= 161701,
        ;
    }
    let p5: u64 = p4 * z / 65536;
    proof {
        lemma_div_is_ordered(p4 as int * z as int, 2428902int * 161701, 65536);
        assert(p5 <= 5992979);
    }
    let raw: i64 = 65536 - (z / 2) as i64 + (p2 / 24) as i64 - (p3 / 720) as i64 + (p4 / 40320)
        as i64 - (p5 / 3628800) as i64;
    if raw > 65536 {
        65536
    } else if raw < -65536 {
        -65536
    } else {
        raw
    }
}

/// The cosine basis value `cos(pi * n / d)` at scale 65536.
pub fn cos_pi(n: u128, d: u128) -> (r: i64)
    requires
        1 <= d <= 0xffff_ffff_ffff_ffff,
    ensures
        r == cos_pi_fp(n as int, d as int),
        -65536 <= r <= 65536,
{
    let two_d: u128 = 2 * d;
    let m: u128 = n % two_d;
    let folded: u128 = if m > d {
        two_d - m
    } else {
        m
    };
    let (neg, rad): (bool, u128) = if 2 * folded > d {
        (true, d - folded)
    } else {
        (false, folded)
    };
    proof {
        let ri: int = rad as int;
        let di: int = d as int;
        assert(2 * ri <= di);
        assert(205887 * ri < 102944 * di) by (nonlinear_arith)
            requires
                2 * ri <= di,
                di >= 1,
        ;
        assert(205887 * ri / di <= 102943) by {
            if 205887 * ri / di > 102943 {
                vstd::arithmetic::div_mod::lemma_fundamental_div_mod(205887 * ri, di);
                assert(205887 * ri >= 102944 * di) by (nonlinear_arith)
                    requires
                        205887 * ri / di >= 102944,
                        di >= 1,
                        205887 * ri == di * (205887 * ri / di) + (205887 * ri) % di,
                        (205887 * ri) % di >= 0,
                ;
            }
        }
    }
    let t: u64 = ((205887 * rad) / d) as u64;
    let poly: i64 = cos_poly_at(t);
    if neg {
        -poly
    } else {
        poly
    }
}

/// Scaling by 65536 and dividing it back out is exact, for either sign.
pub proof fn lemma_scale_cancel(c: int)
    ensures
        div_towards_zero(c * 65536, 65536) == c,
{
    if c >= 0 {
        vstd::arithmetic::div_mod::lemma_div_multiples_vanish(c, 65536);
    } else {
        vstd::arithmetic::div_mod::lemma_div_multiples_vanish(-c, 65536);
        assert(-(c * 65536) == (-c) * 65536) by (nonlinear_arith);
    }
}

} // verus!
