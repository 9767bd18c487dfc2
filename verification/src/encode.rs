//! Encoder: projects a pixel buffer onto the DCT cosine basis, quantizes the
//! resulting frequency components, and serializes them with the base-83
//! codec into a hash string, all in fixed-point arithmetic at scale 65536.

use vstd::prelude::*;
use vstd::arithmetic::div_mod::lemma_fundamental_div_mod;
use vstd::arithmetic::div_mod::lemma_div_is_ordered;
use vstd::string::StringExecFns;
use crate::base_83::enc83;
use crate::base_83::encode83;
use crate::base_83::pow83;
use crate::color::linear_to_srgb_spec;
use crate::color::linear2srgb;
use crate::color::srgb_table;
use crate::color::srgb2linear;
use crate::decode::LinearColor;
use crate::decode::lemma_div_bound_both;
use crate::errors::EncodeError;
use crate::fixed::cos_pi;
use crate::fixed::cos_pi_fp;
use crate::fixed::div_towards_zero;
use crate::fixed::div_trunc;
use crate::fixed::div_trunc128;
use crate::fixed::isqrt;
use crate::fixed::sqrt_floor;

verus! {

/// The linear-light value of one channel of the pixel at `(x, y)` in a
/// row-major RGBA buffer of width `w`.
pub open spec fn linear_sample(pixels: Seq<u8>, w: int, x: int, y: int, chan: int) -> int {
    srgb_table(pixels[4 * x + chan + y * (4 * w)] as int)
}

/// The projection of the first `upto` pixels (in x-major order: pixel `n` is
/// at `x = n / h`, `y = n % h`) onto the cosine basis of frequency `(i, j)`,
/// for one channel, at scale 65536 squared.
pub open spec fn basis_sum(
    pixels: Seq<u8>,
    w: int,
    h: int,
    i: int,
    j: int,
    chan: int,
    upto: int,
) -> int
    decreases upto,
{
    if upto <= 0 {
        0
    } else {
        basis_sum(pixels, w, h, i, j, chan, upto - 1) + div_towards_zero(
            cos_pi_fp(i * ((upto - 1) / h), w) * cos_pi_fp(j * ((upto - 1) % h), h),
            65536,
        ) * linear_sample(pixels, w, (upto - 1) / h, (upto - 1) % h, chan)
    }
}

/// The DCT normalization factor: 1 for the DC term, 2 for every AC term.
pub open spec fn norm_of(i: int, j: int) -> int {
    if i == 0 && j == 0 {
        1
    } else {
        2
    }
}

/// One channel of the frequency-`(i, j)` component: the full basis
/// projection, normalized and scaled down to units of 1/65536.
pub open spec fn factor_at(pixels: Seq<u8>, w: int, h: int, i: int, j: int, chan: int) -> int {
    div_towards_zero(
        div_towards_zero(norm_of(i, j) * basis_sum(pixels, w, h, i, j, chan, w * h), w * h),
        65536,
    )
}

/// All `cx * cy` frequency components of the image, row-major with x
/// frequencies varying fastest.
pub open spec fn factors_of(pixels: Seq<u8>, w: int, h: int, cx: int, cy: int) -> Seq<
    LinearColor,
> {
    Seq::new(
        (cx * cy) as nat,
        |k: int|
            LinearColor {
                red: factor_at(pixels, w, h, k % cx, k / cx, 0) as i64,
                green: factor_at(pixels, w, h, k % cx, k / cx, 1) as i64,
                blue: factor_at(pixels, w, h, k % cx, k / cx, 2) as i64,
            },
    )
}

/// The magnitude of an integer.
pub open spec fn abs_of(v: int) -> int {
    if v >= 0 {
        v
    } else {
        -v
    }
}

/// The largest channel magnitude of a color.
pub open spec fn color_abs_max(c: LinearColor) -> int {
    let r: int = abs_of(c.red as int);
    let g: int = abs_of(c.green as int);
    let b: int = abs_of(c.blue as int);
    if r >= g && r >= b {
        r
    } else if g >= b {
        g
    } else {
        b
    }
}

/// The largest channel magnitude over the AC components among the first `k`
/// factors (component 0, the DC term, is excluded).
pub open spec fn ac_max_upto(factors: Seq<LinearColor>, k: int) -> int
    decreases k,
{
    if k <= 1 {
        0
    } else {
        let prev: int = ac_max_upto(factors, k - 1);
        let cur: int = color_abs_max(factors[k - 1]);
        if cur > prev {
            cur
        } else {
            prev
        }
    }
}

/// Quantizes the maximum AC magnitude to a level in [0, 82]:
/// `floor(max * 166 - 0.5)` clamped, carried out at scale 65536.
pub open spec fn quantised_max(am: int) -> int {
    let qraw: int = (am * 332 - 65536) / 131072;
    if qraw < 0 {
        0
    } else if qraw > 82 {
        82
    } else {
        qraw
    }
}

/// Quantizes one AC channel value to a level in [0, 18]: the signed square
/// root of `v / max_fp`, mapped by `floor(s * 9 + 9.5)` and clamped, all at
/// scale 65536.
pub open spec fn quant_channel(v: int, max_fp: int) -> int {
    let u: int = div_towards_zero(abs_of(v) * 65536, max_fp);
    let s: int = sqrt_floor(u * 65536);
    let num: int = (if v >= 0 {
        s
    } else {
        -s
    }) * 18 + 1245184;
    let q: int = num / 131072;
    if q < 0 {
        0
    } else if q > 18 {
        18
    } else {
        q
    }
}

/// Packs the three quantized channels of one AC component into a single
/// value in [0, 83^2).
pub open spec fn ac_field_val(c: LinearColor, max_fp: int) -> int {
    quant_channel(c.red as int, max_fp) * 361 + quant_channel(c.green as int, max_fp) * 19
        + quant_channel(c.blue as int, max_fp)
}

/// The concatenated two-character AC fields of the first `upto` factors.
pub open spec fn ac_fields(factors: Seq<LinearColor>, max_fp: int, upto: int) -> Seq<char>
    decreases upto,
{
    if upto <= 1 {
        Seq::empty()
    } else {
        ac_fields(factors, max_fp, upto - 1) + enc83(
            ac_field_val(factors[upto - 1], max_fp) as nat,
            2,
        )
    }
}

/// The 24-bit packed DC value: each channel converted back to an sRGB
/// sample and packed as `r * 65536 + g * 256 + b`.
pub open spec fn dc_value(c: LinearColor) -> int {
    linear_to_srgb_spec(c.red as int) * 65536 + linear_to_srgb_spec(c.green as int) * 256
        + linear_to_srgb_spec(c.blue as int)
}

/// The dequantized maximum AC magnitude the encoder uses for its own
/// quantization: 1 for a DC-only grid, else derived from the quantized
/// level.
pub open spec fn encode_max_fp(pixels: Seq<u8>, w: int, h: int, cx: int, cy: int) -> int {
    if cx * cy == 1 {
        65536
    } else {
        (quantised_max(ac_max_upto(factors_of(pixels, w, h, cx, cy), cx * cy)) + 1) * 65536 / 166
    }
}

/// The full hash string the encoder emits: size flag, quantized maximum,
/// DC field, then one two-character field per AC component.
pub open spec fn encoded_hash(pixels: Seq<u8>, w: int, h: int, cx: int, cy: int) -> Seq<char> {
    let factors = factors_of(pixels, w, h, cx, cy);
    let sf: int = (cx - 1) + (cy - 1) * 9;
    let qm: int = if cx * cy == 1 {
        0
    } else {
        quantised_max(ac_max_upto(factors, cx * cy))
    };
    enc83(sf as nat, 1) + enc83(qm as nat, 1) + enc83(dc_value(factors[0]) as nat, 4) + ac_fields(
        factors,
        encode_max_fp(pixels, w, h, cx, cy),
        cx * cy,
    )
}

/// Computes the three channels of one frequency component by projecting the
/// whole image onto the `(i, j)` cosine basis.
fn factor_sums(pixels: &Vec<u8>, w: usize, h: usize, i: usize, j: usize, norm: i64) -> (f: (
    i64,
    i64,
    i64,
))
    requires
        1 <= w,
        1 <= h,
        (w as int) * (h as int) * 4 == pixels@.len(),
        norm == norm_of(i as int, j as int),
    ensures
        f.0 == factor_at(pixels@, w as int, h as int, i as int, j as int, 0),
        f.1 == factor_at(pixels@, w as int, h as int, i as int, j as int, 1),
        f.2 == factor_at(pixels@, w as int, h as int, i as int, j as int, 2),
        -131072 <= f.0 <= 131072,
        -131072 <= f.1 <= 131072,
        -131072 <= f.2 <= 131072,
{
    proof {
        assert((w as int) * 4 <= (w as int) * (h as int) * 4) by (nonlinear_arith)
            requires
                1 <= h,
                0 <= w,
        ;
        assert((w as int) * (h as int) * 4 == ((w as int) * (h as int)) * 4) by (nonlinear_arith);
    }
    let byte_len: usize = pixels.len();
    let stride: usize = w * 4;
    let n_pix: usize = w * h;
    let mut sr: i128 = 0;
    let mut sg: i128 = 0;
    let mut sb: i128 = 0;
    let mut x: usize = 0;
    while x < w
        invariant
            x <= w,
            1 <= w,
            1 <= h,
            (w as int) * (h as int) * 4 == pixels@.len(),
            byte_len == pixels@.len(),
            stride == w * 4,
            n_pix == (w as int) * (h as int),
            sr == basis_sum(pixels@, w as int, h as int, i as int, j as int, 0, (x as int) * (
            h as int)),
            sg == basis_sum(pixels@, w as int, h as int, i as int, j as int, 1, (x as int) * (
            h as int)),
            sb == basis_sum(pixels@, w as int, h as int, i as int, j as int, 2, (x as int) * (
            h as int)),
            -4294967296 * ((x as int) * (h as int)) <= sr <= 4294967296 * ((x as int) * (
            h as int)),
            -4294967296 * ((x as int) * (h as int)) <= sg <= 4294967296 * ((x as int) * (
            h as int)),
            -4294967296 * ((x as int) * (h as int)) <= sb <= 4294967296 * ((x as int) * (
            h as int)),
        decreases w - x,
    {
        let mut y: usize = 0;
        proof {
            assert((x as int) * (h as int) + (h as int) == ((x + 1) as int) * (h as int))
                by (nonlinear_arith);
            assert(((x + 1) as int) * (h as int) <= (w as int) * (h as int)) by (nonlinear_arith)
                requires
                    x + 1 <= w,
                    0 <= h,
            ;
        }
        while y < h
            invariant
                y <= h,
                x < w,
                1 <= w,
                1 <= h,
                (w as int) * (h as int) * 4 == pixels@.len(),
                byte_len == pixels@.len(),
                stride == w * 4,
                n_pix == (w as int) * (h as int),
                (x as int) * (h as int) + (h as int) == ((x + 1) as int) * (h as int),
                ((x + 1) as int) * (h as int) <= (w as int) * (h as int),
                sr == basis_sum(pixels@, w as int, h as int, i as int, j as int, 0, (x as int) * (
                h as int) + y as int),
                sg == basis_sum(pixels@, w as int, h as int, i as int, j as int, 1, (x as int) * (
                h as int) + y as int),
                sb == basis_sum(pixels@, w as int, h as int, i as int, j as int, 2, (x as int) * (
                h as int) + y as int),
                -4294967296 * ((x as int) * (h as int) + y as int) <= sr <= 4294967296 * ((
                x as int) * (h as int) + y as int),
                -4294967296 * ((x as int) * (h as int) + y as int) <= sg <= 4294967296 * ((
                x as int) * (h as int) + y as int),
                -4294967296 * ((x as int) * (h as int) + y as int) <= sb <= 4294967296 * ((
                x as int) * (h as int) + y as int),
            decreases h - y,
        {
            proof {
                assert((i as int) * (x as int) <= 0xffff_ffff_ffff_ffff * 0xffff_ffff_ffff_ffff)
                    by (nonlinear_arith)
                    requires
                        0 <= i <= 0xffff_ffff_ffff_ffff,
                        0 <= x <= 0xffff_ffff_ffff_ffff,
                ;
                assert((j as int) * (y as int) <= 0xffff_ffff_ffff_ffff * 0xffff_ffff_ffff_ffff)
                    by (nonlinear_arith)
                    requires
                        0 <= j <= 0xffff_ffff_ffff_ffff,
                        0 <= y <= 0xffff_ffff_ffff_ffff,
                ;
            }
            let cxv: i64 = cos_pi((i as u128) * (x as u128), w as u128);
            let cyv: i64 = cos_pi((j as u128) * (y as u128), h as u128);
            proof {
                assert(-65536 * 65536 <= cxv * cyv <= 65536 * 65536) by (nonlinear_arith)
                    requires
                        -65536 <= cxv <= 65536,
                        -65536 <= cyv <= 65536,
                ;
                lemma_div_bound_both(cxv as int * cyv as int, 65536int * 65536, 65536);
            }
            let b: i64 = div_trunc(cxv * cyv, 65536);
            proof {
                assert(4 * (x as int) + 2 + (y as int) * (4 * (w as int)) < (w as int) * (
                h as int) * 4) by (nonlinear_arith)
                    requires
                        0 <= x < w,
                        0 <= y < h,
                ;
                assert((y as int) * (stride as int) == (y as int) * (4 * (w as int)))
                    by (nonlinear_arith)
                    requires
                        stride == 4 * (w as int),
                ;
                assert(4 * (x as int) + (y as int) * (stride as int) + 2 < pixels@.len());
                assert(pixels@.len() <= usize::MAX);
            }
            let base: usize = 4 * x + y * stride;
            let lr: i64 = srgb2linear(pixels[base]);
            let lg: i64 = srgb2linear(pixels[base + 1]);
            let lb: i64 = srgb2linear(pixels[base + 2]);
            proof {
                assert(-4294967296 <= (b as int) * (lr as int) <= 4294967296) by (nonlinear_arith)
                    requires
                        -65536 <= b <= 65536,
                        0 <= lr <= 65536,
                ;
                assert(-4294967296 <= (b as int) * (lg as int) <= 4294967296) by (nonlinear_arith)
                    requires
                        -65536 <= b <= 65536,
                        0 <= lg <= 65536,
                ;
                assert(-4294967296 <= (b as int) * (lb as int) <= 4294967296) by (nonlinear_arith)
                    requires
                        -65536 <= b <= 65536,
                        0 <= lb <= 65536,
                ;
                assert(((x as int) * (h as int) + y as int) / (h as int) == x as int
                    && ((x as int) * (h as int) + y as int) % (h as int) == y as int) by {
                    vstd::arithmetic::div_mod::lemma_fundamental_div_mod_converse(
                        (x as int) * (h as int) + y as int,
                        h as int,
                        x as int,
                        y as int,
                    );
                }
            }
            sr = sr + (b as i128) * (lr as i128);
            sg = sg + (b as i128) * (lg as i128);
            sb = sb + (b as i128) * (lb as i128);
            y = y + 1;
        }
        x = x + 1;
    }
    proof {
        assert((w as int) * (h as int) * 4 == ((w as int) * (h as int)) * 4) by (nonlinear_arith);
        assert((w as int) * (h as int) <= 0x4000_0000_0000_0000);
    }
    let fr: i64 = scale_factor(sr, norm, n_pix);
    let fg: i64 = scale_factor(sg, norm, n_pix);
    let fb: i64 = scale_factor(sb, norm, n_pix);
    (fr, fg, fb)
}

/// Normalizes a raw basis projection and rescales it to units of 1/65536.
fn scale_factor(s: i128, norm: i64, n_pix: usize) -> (f: i64)
    requires
        1 <= norm <= 2,
        1 <= n_pix,
        -4294967296 * (n_pix as int) <= s <= 4294967296 * (n_pix as int),
        n_pix <= 0x4000_0000_0000_0000,
    ensures
        f == div_towards_zero(div_towards_zero((norm as int) * s, n_pix as int), 65536),
        -131072 <= f <= 131072,
{
    proof {
        assert(-8589934592 * (n_pix as int) <= (norm as int) * s <= 8589934592 * (n_pix as int))
            by (nonlinear_arith)
            requires
                1 <= norm <= 2,
                -4294967296 * (n_pix as int) <= s <= 4294967296 * (n_pix as int),
                1 <= n_pix,
        ;
        lemma_div_bound_both((norm as int) * s, 8589934592 * (n_pix as int), n_pix as int);
        assert((8589934592 * (n_pix as int)) / (n_pix as int) == 8589934592) by {
            vstd::arithmetic::div_mod::lemma_div_multiples_vanish(8589934592, n_pix as int);
        }
    }
    let scaled: i128 = div_trunc128((norm as i128) * s, n_pix as i128);
    proof {
        lemma_div_bound_both(scaled as int, 8589934592, 65536);
    }
    let f: i128 = div_trunc128(scaled, 65536);
    f as i64
}

/// Quantizes one AC channel value to a level in [0, 18].
fn quant_ac(v: i64, max_fp: i64) -> (q: u64)
    requires
        -131072 <= v <= 131072,
        1 <= max_fp <= 65536,
    ensures
        q == quant_channel(v as int, max_fp as int),
        q <= 18,
{
    let mag: u64 = if v >= 0 {
        v as u64
    } else {
        (-v) as u64
    };
    let u: u64 = mag * 65536 / (max_fp as u64);
    proof {
        assert(u == div_towards_zero(abs_of(v as int) * 65536, max_fp as int));
        assert(u <= 8589934592) by {
            lemma_div_is_ordered(mag as int * 65536, 131072int * 65536, max_fp as int);
            vstd::arithmetic::div_mod::lemma_div_is_ordered_by_denominator(
                131072int * 65536,
                1,
                max_fp as int,
            );
        }
    }
    let s: u64 = isqrt(u * 65536);
    proof {
        assert(s == sqrt_floor((u as int) * 65536));
        assert((s as int) * (s as int) <= (u as int) * 65536);
        assert(s <= 23726566) by {
            if s > 23726566 {
                assert((s as int) * (s as int) >= 23726567int * 23726567) by (nonlinear_arith)
                    requires
                        s >= 23726567,
                ;
            }
        }
    }
    let num: i64 = (if v >= 0 {
        s as i64
    } else {
        -(s as i64)
    }) * 18 + 1245184;
    if num < 0 {
        0
    } else {
        let q0: u64 = (num as u64) / 131072;
        proof {
            lemma_fundamental_div_mod(num as int, 131072);
        }
        if q0 > 18 {
            18
        } else {
            q0 as u64
        }
    }
}

/// Encodes a pixel buffer into a hash string.
///
/// The result is `Ok` exactly when both component counts lie in [1, 9] and
/// the buffer length equals `width * height * 4`; a bad component count is
/// rejected with `ComponentNumberOutbound` and a bad buffer length with
/// `PixelArrayMismatch`. On success the hash is exactly `encoded_hash`: the
/// size flag, the quantized maximum AC magnitude, the packed DC color and
/// the packed AC components, serialized in base 83, with total length
/// `4 + 2 * component_x * component_y`.
pub fn encode(
    pixels: Vec<u8>,
    width: usize,
    height: usize,
    component_x: usize,
    component_y: usize,
) -> (r: Result<String, EncodeError>)
    requires
        1 <= width,
        1 <= height,
    ensures
        r is Err ==> (r == Result::<String, EncodeError>::Err(EncodeError::ComponentNumberOutbound)
            <==> !(1 <= component_x <= 9 && 1 <= component_y <= 9)),
        r is Err ==> (r == Result::<String, EncodeError>::Err(EncodeError::PixelArrayMismatch)
            <==> (1 <= component_x <= 9 && 1 <= component_y <= 9 && (width as int) * (
        height as int) * 4 != pixels@.len())),
        r is Ok <==> (1 <= component_x <= 9 && 1 <= component_y <= 9 && (width as int) * (
        height as int) * 4 == pixels@.len()),
        r is Ok ==> r->Ok_0@ == encoded_hash(
            pixels@,
            width as int,
            height as int,
            component_x as int,
            component_y as int,
        ),
        r is Ok ==> r->Ok_0@.len() == 4 + 2 * component_x * component_y,
{
    if component_x < 1 || component_x > 9 || component_y < 1 || component_y > 9 {
        return Err(EncodeError::ComponentNumberOutbound);
    }
    proof {
        assert((width as int) * (height as int) <= 0xffff_ffff_ffff_ffff * 0xffff_ffff_ffff_ffff)
            by (nonlinear_arith)
            requires
                0 <= width <= 0xffff_ffff_ffff_ffff,
                0 <= height <= 0xffff_ffff_ffff_ffff,
        ;
    }
    let p: u128 = (width as u128) * (height as u128);
    let buffer_len: usize = pixels.len();
    proof {
        assert(pixels@.len() <= usize::MAX);
    }
    let quarter_max: u128 = (usize::MAX / 4) as u128;
    if p > quarter_max {
        proof {
            lemma_fundamental_div_mod(usize::MAX as int, 4);
            assert((width as int) * (height as int) * 4 > usize::MAX) by (nonlinear_arith)
                requires
                    (width as int) * (height as int) == p as int,
                    4 * (p as int) > usize::MAX,
            ;
        }
        return Err(EncodeError::PixelArrayMismatch);
    }
    proof {
        lemma_fundamental_div_mod(usize::MAX as int, 4);
        assert(4 * (p as int) <= usize::MAX);
    }
    let bytes: usize = (4 * p) as usize;
    proof {
        assert(bytes as int == 4 * (p as int));
        assert((width as int) * (height as int) * 4 == 4 * (p as int)) by (nonlinear_arith)
            requires
                (width as int) * (height as int) == p as int,
        ;
    }
    if bytes != buffer_len {
        return Err(EncodeError::PixelArrayMismatch);
    }
    let n_pix: usize = (p as usize);
    let cx: usize = component_x;
    let cy: usize = component_y;
    proof {
        assert(1 <= (cx as int) * (cy as int) <= 81) by (nonlinear_arith)
            requires
                1 <= cx <= 9,
                1 <= cy <= 9,
        ;
    }
    let total: usize = cx * cy;
    let ghost pix: Seq<u8> = pixels@;
    let ghost wi: int = width as int;
    let ghost hi: int = height as int;

    let mut factors: Vec<LinearColor> = Vec::new();
    let mut k: usize = 0;
    while k < total
        invariant
            k <= total,
            total == (cx as int) * (cy as int),
            1 <= cx <= 9,
            1 <= cy <= 9,
            1 <= width,
            1 <= height,
            wi == width as int,
            hi == height as int,
            pix == pixels@,
            (width as int) * (height as int) * 4 == pixels@.len(),
            factors@.len() == k,
            forall|m: int|
                0 <= m < k ==> #[trigger] factors@[m] == factors_of(pix, wi, hi, cx as int,
                cy as int)[m],
            forall|m: int|
                0 <= m < k ==> -131072 <= (#[trigger] factors@[m]).red <= 131072 && -131072
                    <= factors@[m].green <= 131072 && -131072 <= factors@[m].blue <= 131072,
        decreases total - k,
    {
        let i: usize = k % cx;
        let j: usize = k / cx;
        let norm: i64 = if i == 0 && j == 0 {
            1
        } else {
            2
        };
        let (fr, fg, fb) = factor_sums(&pixels, width, height, i, j, norm);
        factors.push(LinearColor { red: fr, green: fg, blue: fb });
        k = k + 1;
    }

    let mut am: i64 = 0;
    let mut k2: usize = 1;
    while k2 < total
        invariant
            1 <= k2 <= total || (total == 1 && k2 == 1),
            total == (cx as int) * (cy as int),
            factors@.len() == total,
            forall|m: int|
                0 <= m < total ==> #[trigger] factors@[m] == factors_of(pix, wi, hi, cx as int,
                cy as int)[m],
            forall|m: int|
                0 <= m < total ==> -131072 <= (#[trigger] factors@[m]).red <= 131072 && -131072
                    <= factors@[m].green <= 131072 && -131072 <= factors@[m].blue <= 131072,
            am == ac_max_upto(factors@, k2 as int),
            0 <= am <= 131072,
        decreases total - k2,
    {
        let c = &factors[k2];
        let ar: i64 = if c.red >= 0 {
            c.red
        } else {
            -c.red
        };
        let ag: i64 = if c.green >= 0 {
            c.green
        } else {
            -c.green
        };
        let ab: i64 = if c.blue >= 0 {
            c.blue
        } else {
            -c.blue
        };
        let cur: i64 = if ar >= ag && ar >= ab {
            ar
        } else if ag >= ab {
            ag
        } else {
            ab
        };
        proof {
            assert(cur == color_abs_max(factors@[k2 as int]));
        }
        if cur > am {
            am = cur;
        }
        k2 = k2 + 1;
    }
    proof {
        assert(factors@ =~= factors_of(pix, wi, hi, cx as int, cy as int));
    }

    let size_flag: usize = (cx - 1) + (cy - 1) * 9;
    let mut hash = String::new();
    proof {
        assert(pow83(0) == 1);
        assert(pow83(1) == 83);
        assert(pow83(2) == 6889);
        assert(pow83(3) == 571787);
        assert(pow83(4) == 47458321);
    }
    let piece_sf = encode83(size_flag, 1);
    hash.append(piece_sf.as_str());

    let quantised: u64;
    let max_fp: i64;
    if total > 1 {
        let scaled: i64 = am * 332;
        if scaled < 65536 {
            quantised = 0;
        } else {
            let q0: u64 = ((scaled - 65536) as u64) / 131072;
            quantised = if q0 > 82 {
                82
            } else {
                q0
            };
        }
        proof {
            assert(quantised == quantised_max(am as int));
        }
        max_fp = (((quantised + 1) * 65536) / 166) as i64;
        proof {
            assert(max_fp == encode_max_fp(pix, wi, hi, cx as int, cy as int));
            assert(1 <= max_fp <= 65536);
        }
    } else {
        quantised = 0;
        max_fp = 65536;
        proof {
            assert(max_fp == encode_max_fp(pix, wi, hi, cx as int, cy as int));
        }
    }
    let piece_qm = encode83(quantised as usize, 1);
    hash.append(piece_qm.as_str());

    let dc = &factors[0];
    let dr: u8 = linear2srgb(dc.red);
    let dg: u8 = linear2srgb(dc.green);
    let db: u8 = linear2srgb(dc.blue);
    let dcv: usize = (dr as usize) * 65536 + (dg as usize) * 256 + (db as usize);
    proof {
        assert(dcv == dc_value(factors@[0]));
    }
    let piece_dc = encode83(dcv, 4);
    hash.append(piece_dc.as_str());
    let ghost mfp: int = max_fp as int;
    let ghost fseq: Seq<LinearColor> = factors@;
    let ghost prefix: Seq<char> = hash@;
    proof {
        assert(hash@ == prefix + ac_fields(fseq, mfp, 1));
        assert(prefix + ac_fields(fseq, mfp, 1) =~= prefix);
    }

    let mut k3: usize = 1;
    while k3 < total
        invariant
            1 <= k3 <= total || (total == 1 && k3 == 1),
            total == (cx as int) * (cy as int),
            factors@ == fseq,
            fseq.len() == total,
            forall|m: int|
                0 <= m < total ==> -131072 <= (#[trigger] fseq[m]).red <= 131072 && -131072
                    <= fseq[m].green <= 131072 && -131072 <= fseq[m].blue <= 131072,
            mfp == max_fp as int,
            1 <= max_fp <= 65536,
            hash@ == prefix + ac_fields(fseq, mfp, k3 as int),
        decreases total - k3,
    {
        let c = &factors[k3];
        let qr: u64 = quant_ac(c.red, max_fp);
        let qg: u64 = quant_ac(c.green, max_fp);
        let qb: u64 = quant_ac(c.blue, max_fp);
        let packed: usize = (qr as usize) * 361 + (qg as usize) * 19 + (qb as usize);
        proof {
            assert(packed == ac_field_val(fseq[k3 as int], mfp));
            assert(packed < 6889);
            assert(pow83(0) == 1);
            assert(pow83(1) == 83);
            assert(pow83(2) == 6889);
        }
        let piece = encode83(packed, 2);
        hash.append(piece.as_str());
        k3 = k3 + 1;
    }
    proof {
        assert(hash@ =~= encoded_hash(pix, wi, hi, cx as int, cy as int));
        crate::base_83::lemma_enc83_len(size_flag as nat, 1);
        crate::base_83::lemma_enc83_len(quantised as nat, 1);
        crate::base_83::lemma_enc83_len(dcv as nat, 4);
        lemma_ac_fields_len(fseq, mfp, total as int);
        assert(2 * (cx as int) * (cy as int) == 2 * ((cx as int) * (cy as int)))
            by (nonlinear_arith);
    }
    Ok(hash)
}

/// The concatenated AC fields of the first `upto` factors hold two
/// characters per AC component.
proof fn lemma_ac_fields_len(factors: Seq<LinearColor>, max_fp: int, upto: int)
    requires
        upto >= 1,
    ensures
        ac_fields(factors, max_fp, upto).len() == 2 * (upto - 1),
    decreases upto,
{
    if upto == 1 {
    } else {
        lemma_ac_fields_len(factors, max_fp, upto - 1);
        crate::base_83::lemma_enc83_len(ac_field_val(factors[upto - 1], max_fp) as nat, 2);
    }
}

} // verus!
