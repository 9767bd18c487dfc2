//! Decoder: parses a hash string into quantized frequency components,
//! dequantizes them, and synthesizes an RGBA pixel buffer at a caller-chosen
//! resolution by inverse DCT basis summation, all in fixed-point arithmetic
//! at scale 65536.

use vstd::prelude::*;
use vstd::arithmetic::div_mod::lemma_fundamental_div_mod_converse;
use vstd::arithmetic::div_mod::lemma_div_is_ordered;
use vstd::string::StrSliceExecFns;
use crate::base_83::all_b83_digits;
use crate::base_83::base83_val;
use crate::base_83::decode83;
use crate::base_83::is_b83_digit;
use crate::base_83::lemma_base83_val_bound;
use crate::base_83::pow83;
use crate::color::linear_to_srgb_spec;
use crate::color::linear2srgb;
use crate::color::srgb_table;
use crate::color::srgb2linear;
use crate::errors::DecodeError;
use crate::fixed::cos_pi;
use crate::fixed::cos_pi_fp;
use crate::fixed::div_towards_zero;
use crate::fixed::div_trunc;

verus! {

/// A color in linear light: one fixed-point value per channel, in units of
/// 1/65536.
pub struct LinearColor {
    pub red: i64,
    pub green: i64,
    pub blue: i64,
}

/// The channel `chan` of a linear color (0 red, 1 green, 2 blue).
pub open spec fn channel_of(c: LinearColor, chan: int) -> int {
    if chan == 0 {
        c.red as int
    } else if chan == 1 {
        c.green as int
    } else {
        c.blue as int
    }
}

/// Every channel of every color is at most one (65536 at scale) in
/// magnitude.
pub open spec fn colors_bounded(colors: Seq<LinearColor>) -> bool {
    forall|k: int|
        0 <= k < colors.len() ==> -65536 <= (#[trigger] colors[k]).red <= 65536
            && -65536 <= colors[k].green <= 65536 && -65536 <= colors[k].blue <= 65536
}

/// The number of x frequency components declared by the hash's first
/// character.
pub open spec fn hash_num_x(hash: Seq<char>) -> int {
    base83_val(hash.subrange(0, 1)) % 9 + 1
}

/// The number of y frequency components declared by the hash's first
/// character.
pub open spec fn hash_num_y(hash: Seq<char>) -> int {
    base83_val(hash.subrange(0, 1)) / 9 + 1
}

/// The hash passes the decoder's structural validation: at least 6
/// characters, and exactly the length its component grid calls for.
pub open spec fn valid_hash_len(hash: Seq<char>) -> bool {
    hash.len() >= 6 && hash.len() == 4 + 2 * hash_num_x(hash) * hash_num_y(hash)
}

/// The dequantized maximum AC magnitude declared by the hash's second
/// character, at scale 65536.
pub open spec fn hash_max_fp(hash: Seq<char>) -> int {
    (base83_val(hash.subrange(1, 2)) + 1) * 65536 / 166
}

/// Unpacks the 24-bit DC field into three sRGB samples and converts each to
/// linear light.
pub open spec fn dc_color(v: int) -> LinearColor {
    LinearColor {
        red: srgb_table(v / 65536 % 256) as i64,
        green: srgb_table(v / 256 % 256) as i64,
        blue: srgb_table(v % 256) as i64,
    }
}

/// Dequantizes one AC channel level `q` in [0, 18]: the signed square of
/// `(q - 9) / 9` times the maximum AC magnitude.
pub open spec fn dequant_channel(q: int, max_fp: int) -> int {
    let a: int = q - 9;
    if a >= 0 {
        a * a * max_fp / 81
    } else {
        -(a * a * max_fp / 81)
    }
}

/// Unpacks a two-character AC field (a value in [0, 83^2)) into three
/// quantized levels and dequantizes each.
pub open spec fn ac_color(v: int, max_fp: int) -> LinearColor {
    LinearColor {
        red: dequant_channel(v / 361, max_fp) as i64,
        green: dequant_channel(v / 19 % 19, max_fp) as i64,
        blue: dequant_channel(v % 19, max_fp) as i64,
    }
}

/// The sequence of component colors a valid hash declares: the DC color
/// first, then one AC color per two-character field.
pub open spec fn hash_colors(hash: Seq<char>) -> Seq<LinearColor> {
    Seq::new(
        (hash_num_x(hash) * hash_num_y(hash)) as nat,
        |k: int|
            if k == 0 {
                dc_color(base83_val(hash.subrange(2, 6)))
            } else {
                ac_color(base83_val(hash.subrange(4 + 2 * k, 6 + 2 * k)), hash_max_fp(hash))
            },
    )
}

/// The contribution of component `k` to channel `chan` of the pixel at
/// `(x, y)`: the color weighted by the two cosine basis factors, each product
/// rescaled by truncating division.
pub open spec fn basis_term(
    col: LinearColor,
    nx: int,
    w: int,
    h: int,
    x: int,
    y: int,
    chan: int,
    k: int,
) -> int {
    div_towards_zero(
        div_towards_zero(channel_of(col, chan) * cos_pi_fp(x * (k % nx), w), 65536) * cos_pi_fp(
            y * (k / nx),
            h,
        ),
        65536,
    )
}

/// The basis-weighted sum of the first `k` components for channel `chan` of
/// the pixel at `(x, y)`.
pub open spec fn channel_sum(
    colors: Seq<LinearColor>,
    nx: int,
    w: int,
    h: int,
    x: int,
    y: int,
    chan: int,
    k: int,
) -> int
    decreases k,
{
    if k <= 0 {
        0
    } else {
        channel_sum(colors, nx, w, h, x, y, chan, k - 1) + basis_term(
            colors[k - 1],
            nx,
            w,
            h,
            x,
            y,
            chan,
            k - 1,
        )
    }
}

/// The byte the decoder writes at channel `chan` of the pixel at `(x, y)`:
/// the accumulated linear value converted back to sRGB for the three color
/// channels, and the constant 255 for alpha.
pub open spec fn decoded_pixel(hash: Seq<char>, w: int, h: int, x: int, y: int, chan: int) -> int {
    if chan == 3 {
        255
    } else {
        linear_to_srgb_spec(
            channel_sum(
                hash_colors(hash),
                hash_num_x(hash),
                w,
                h,
                x,
                y,
                chan,
                hash_num_x(hash) * hash_num_y(hash),
            ),
        )
    }
}

/// Decodes the base-83 field of the hash between character positions `from`
/// and `to`.
fn decode_field(hash: &str, from: usize, to: usize) -> (v: usize)
    requires
        all_b83_digits(hash@),
        from <= to <= hash@.len(),
        to - from <= 4,
    ensures
        v == base83_val(hash@.subrange(from as int, to as int)),
        v < pow83((to - from) as nat),
{
    let sub = hash.substring_char(from, to);
    proof {
        assert forall|i: int| 0 <= i < sub@.len() implies is_b83_digit(#[trigger] sub@[i]) by {
            assert(sub@[i] == hash@[from + i]);
        }
        lemma_base83_val_bound(sub@);
        assert(pow83(0) == 1);
        assert(pow83(1) == 83);
        assert(pow83(2) == 6889);
        assert(pow83(3) == 571787);
        assert(pow83(4) == 47458321);
    }
    decode83(sub)
}

/// Dequantizes one AC channel level.
fn dequant(q: usize, max_fp: i64) -> (r: i64)
    requires
        q <= 19,
        0 <= max_fp <= 32768,
    ensures
        r == dequant_channel(q as int, max_fp as int),
        -65536 <= r <= 65536,
{
    let a: i64 = (q as i64) - 9;
    proof {
        assert(0 <= a * a <= 100) by (nonlinear_arith)
            requires
                -9 <= a <= 10,
        ;
    }
    let sq: u64 = (a * a) as u64;
    proof {
        assert(sq * (max_fp as u64) <= 100 * 32768) by (nonlinear_arith)
            requires
                sq <= 100,
                0 <= max_fp <= 32768,
        ;
    }
    let mag: u64 = sq * (max_fp as u64) / 81;
    if a >= 0 {
        mag as i64
    } else {
        -(mag as i64)
    }
}

/// Accumulates the basis-weighted component sums for one pixel, returning the
/// three linear channel values.
fn pixel_sums(
    colors: &Vec<LinearColor>,
    nx: usize,
    w: usize,
    h: usize,
    x: usize,
    y: usize,
) -> (accs: (i64, i64, i64))
    requires
        colors_bounded(colors@),
        colors@.len() <= 90,
        1 <= nx,
        1 <= w <= 0xffff_ffff_ffff_ffff,
        1 <= h <= 0xffff_ffff_ffff_ffff,
        x < w,
        y < h,
    ensures
        accs.0 == channel_sum(colors@, nx as int, w as int, h as int, x as int, y as int, 0, colors@.len() as int),
        accs.1 == channel_sum(colors@, nx as int, w as int, h as int, x as int, y as int, 1, colors@.len() as int),
        accs.2 == channel_sum(colors@, nx as int, w as int, h as int, x as int, y as int, 2, colors@.len() as int),
        -5898240 <= accs.0 <= 5898240,
        -5898240 <= accs.1 <= 5898240,
        -5898240 <= accs.2 <= 5898240,
{
    let total: usize = colors.len();
    let mut acc_r: i64 = 0;
    let mut acc_g: i64 = 0;
    let mut acc_b: i64 = 0;
    let mut k: usize = 0;
    while k < total
        invariant
            k <= total,
            total == colors@.len() <= 90,
            colors_bounded(colors@),
            1 <= nx,
            1 <= w <= 0xffff_ffff_ffff_ffff,
            1 <= h <= 0xffff_ffff_ffff_ffff,
            x < w,
            y < h,
            acc_r == channel_sum(colors@, nx as int, w as int, h as int, x as int, y as int, 0, k as int),
            acc_g == channel_sum(colors@, nx as int, w as int, h as int, x as int, y as int, 1, k as int),
            acc_b == channel_sum(colors@, nx as int, w as int, h as int, x as int, y as int, 2, k as int),
            -65536 * k <= acc_r <= 65536 * k,
            -65536 * k <= acc_g <= 65536 * k,
            -65536 * k <= acc_b <= 65536 * k,
        decreases total - k,
    {
        let i: usize = k % nx;
        let j: usize = k / nx;
        proof {
            assert((x as int) * (i as int) <= 0xffff_ffff_ffff_ffff * 0xffff_ffff_ffff_ffff)
                by (nonlinear_arith)
                requires
                    0 <= x <= 0xffff_ffff_ffff_ffff,
                    0 <= i <= 0xffff_ffff_ffff_ffff,
            ;
            assert((y as int) * (j as int) <= 0xffff_ffff_ffff_ffff * 0xffff_ffff_ffff_ffff)
                by (nonlinear_arith)
                requires
                    0 <= y <= 0xffff_ffff_ffff_ffff,
                    0 <= j <= 0xffff_ffff_ffff_ffff,
            ;
        }
        let cx: i64 = cos_pi((x as u128) * (i as u128), w as u128);
        let cy: i64 = cos_pi((y as u128) * (j as u128), h as u128);
        let col = &colors[k];
        let tr: i64 = weighted(col.red, cx, cy);
        let tg: i64 = weighted(col.green, cx, cy);
        let tb: i64 = weighted(col.blue, cx, cy);
        proof {
            assert((x as int) * (i as int) == ((x as u128) * (i as u128)) as int);
            assert((y as int) * (j as int) == ((y as u128) * (j as u128)) as int);
            assert(tr == basis_term(colors@[k as int], nx as int, w as int, h as int, x as int, y as int, 0, k as int));
            assert(tg == basis_term(colors@[k as int], nx as int, w as int, h as int, x as int, y as int, 1, k as int));
            assert(tb == basis_term(colors@[k as int], nx as int, w as int, h as int, x as int, y as int, 2, k as int));
        }
        acc_r = acc_r + tr;
        acc_g = acc_g + tg;
        acc_b = acc_b + tb;
        k = k + 1;
    }
    (acc_r, acc_g, acc_b)
}

/// Weights one channel value by the two cosine basis factors, rescaling after
/// each product.
fn weighted(c: i64, cx: i64, cy: i64) -> (r: i64)
    requires
        -65536 <= c <= 65536,
        -65536 <= cx <= 65536,
        -65536 <= cy <= 65536,
    ensures
        r == div_towards_zero(
            div_towards_zero(c as int * cx as int, 65536) * cy as int,
            65536,
        ),
        -65536 <= r <= 65536,
{
    proof {
        assert(-65536 * 65536 <= c * cx <= 65536 * 65536) by (nonlinear_arith)
            requires
                -65536 <= c <= 65536,
                -65536 <= cx <= 65536,
        ;
        lemma_div_bound_both(c as int * cx as int, 65536int * 65536, 65536);
    }
    let first: i64 = div_trunc(c * cx, 65536);
    proof {
        assert(-65536 * 65536 <= first * cy <= 65536 * 65536) by (nonlinear_arith)
            requires
                -65536 <= first <= 65536,
                -65536 <= cy <= 65536,
        ;
        lemma_div_bound_both(first as int * cy as int, 65536int * 65536, 65536);
    }
    div_trunc(first * cy, 65536)
}

/// A magnitude bound on the dividend gives the matching bound on a quotient
/// rounded toward zero.
pub proof fn lemma_div_bound_both(a: int, bound: int, d: int)
    requires
        -bound <= a <= bound,
        0 <= bound,
        d > 0,
    ensures
        -(bound / d) <= div_towards_zero(a, d) <= bound / d,
{
    if a >= 0 {
        lemma_div_is_ordered(a, bound, d);
        vstd::arithmetic::div_mod::lemma_div_pos_is_pos(a, d);
    } else {
        lemma_div_is_ordered(-a, bound, d);
        vstd::arithmetic::div_mod::lemma_div_pos_is_pos(-a, d);
    }
}

/// Index bookkeeping for one byte of the row-major RGBA buffer.
proof fn lemma_pixel_index(w: int, x: int, y: int, c: int)
    requires
        0 <= x < w,
        0 <= y,
        0 <= c < 4,
    ensures
        (4 * (y * w + x) + c) / 4 == y * w + x,
        (4 * (y * w + x) + c) % 4 == c,
        (y * w + x) % w == x,
        (y * w + x) / w == y,
{
    let m: int = y * w + x;
    lemma_fundamental_div_mod_converse(4 * m + c, 4, m, c);
    lemma_fundamental_div_mod_converse(m, w, y, x);
}

/// Decodes a hash into a row-major RGBA pixel buffer of the requested size.
///
/// The result is `Ok` exactly when the hash is at least 6 characters long
/// and its length matches the component grid its first character declares;
/// a short hash is rejected with `InvalidLength` and a grid disagreement
/// with `LengthMismatch`. On success every byte of the buffer is the value
/// `decoded_pixel` assigns it: the inverse-DCT synthesis of the hash's
/// components, with alpha fixed at 255.
pub fn decode(hash: &str, width: usize, height: usize) -> (r: Result<Vec<u8>, DecodeError>)
    requires
        all_b83_digits(hash@),
        (width as int) * (height as int) * 4 <= usize::MAX,
    ensures
        r is Ok <==> valid_hash_len(hash@),
        hash@.len() < 6 ==> r == Result::<Vec<u8>, DecodeError>::Err(DecodeError::InvalidLength),
        hash@.len() >= 6 && !valid_hash_len(hash@) ==> r == Result::<Vec<u8>, DecodeError>::Err(
            DecodeError::LengthMismatch,
        ),
        r is Ok ==> r->Ok_0@.len() == (width as int) * (height as int) * 4,
        r is Ok ==> forall|n: int|
            0 <= n < r->Ok_0@.len() ==> (#[trigger] r->Ok_0@[n]) as int == decoded_pixel(
                hash@,
                width as int,
                height as int,
                (n / 4) % (width as int),
                (n / 4) / (width as int),
                n % 4,
            ),
{
    let len = hash.unicode_len();
    if len < 6 {
        return Err(DecodeError::InvalidLength);
    }
    let size_flag: usize = decode_field(hash, 0, 1);
    proof {
        assert(pow83(0) == 1);
        assert(pow83(1) == 83);
    }
    let num_y: usize = size_flag / 9 + 1;
    let num_x: usize = size_flag % 9 + 1;
    proof {
        assert(num_x == hash_num_x(hash@));
        assert(num_y == hash_num_y(hash@));
        assert(num_x <= 9 && num_y <= 10);
        assert((num_x as int) * (num_y as int) <= 90) by (nonlinear_arith)
            requires
                num_x <= 9,
                num_y <= 10,
        ;
    }
    let total: usize = num_x * num_y;
    proof {
        assert(total <= 90);
    }
    let expected: usize = 4 + 2 * total;
    proof {
        let nxi: int = hash_num_x(hash@);
        let nyi: int = hash_num_y(hash@);
        assert(2 * nxi * nyi == 2 * (nxi * nyi)) by (nonlinear_arith);
        assert(expected as int == 4 + 2 * nxi * nyi);
    }
    if len != expected {
        proof {
            assert(hash@.len() != 4 + 2 * hash_num_x(hash@) * hash_num_y(hash@));
            assert(!valid_hash_len(hash@));
        }
        return Err(DecodeError::LengthMismatch);
    }
    proof {
        assert(valid_hash_len(hash@));
    }

    let quantised_max: usize = decode_field(hash, 1, 2);
    proof {
        assert(pow83(0) == 1);
        assert(pow83(1) == 83);
    }
    let max_fp: i64 = (((quantised_max + 1) * 65536) / 166) as i64;
    proof {
        assert(max_fp == hash_max_fp(hash@));
        assert(0 <= max_fp <= 32768);
    }

    let mut colors: Vec<LinearColor> = Vec::new();
    let dc_val: usize = decode_field(hash, 2, 6);
    let red = srgb2linear(((dc_val / 65536) % 256) as u8);
    let green = srgb2linear(((dc_val / 256) % 256) as u8);
    let blue = srgb2linear((dc_val % 256) as u8);
    colors.push(LinearColor { red, green, blue });
    proof {
        assert(colors@[0] == hash_colors(hash@)[0]);
    }
    let mut index: usize = 1;
    while index < total
        invariant
            1 <= index <= total,
            total == hash_num_x(hash@) * hash_num_y(hash@),
            total <= 90,
            hash@.len() == 4 + 2 * total,
            all_b83_digits(hash@),
            max_fp == hash_max_fp(hash@),
            0 <= max_fp <= 32768,
            colors@.len() == index,
            forall|k: int| 0 <= k < index ==> colors@[k] == hash_colors(hash@)[k],
            colors_bounded(colors@),
        decreases total - index,
    {
        let v: usize = decode_field(hash, 4 + 2 * index, 6 + 2 * index);
        proof {
            assert(pow83(0) == 1);
            assert(pow83(1) == 83);
            assert(pow83(2) == 6889);
            assert(v / 361 <= 19) by {
                lemma_div_is_ordered(v as int, 6888, 361);
            }
        }
        let red = dequant(v / 361, max_fp);
        let green = dequant((v / 19) % 19, max_fp);
        let blue = dequant(v % 19, max_fp);
        colors.push(LinearColor { red, green, blue });
        proof {
            assert(colors@[index as int] == hash_colors(hash@)[index as int]);
        }
        index = index + 1;
    }
    proof {
        assert(colors@ =~= hash_colors(hash@));
    }

    if width == 0 || height == 0 {
        let empty: Vec<u8> = Vec::new();
        proof {
            assert((width as int) * (height as int) * 4 == 0) by (nonlinear_arith)
                requires
                    width == 0 || height == 0,
            ;
        }
        return Ok(empty);
    }

    proof {
        assert((width as int) * 4 <= (width as int) * (height as int) * 4) by (nonlinear_arith)
            requires
                height >= 1,
                width >= 0,
        ;
    }
    let stride: usize = width * 4;
    let mut pixels: Vec<u8> = Vec::new();
    let mut y: usize = 0;
    while y < height
        invariant
            y <= height,
            1 <= width,
            1 <= height,
            (width as int) * (height as int) * 4 <= usize::MAX,
            stride == width * 4,
            total == colors@.len(),
            total == hash_num_x(hash@) * hash_num_y(hash@),
            1 <= total <= 90,
            1 <= num_x == hash_num_x(hash@),
            colors@ == hash_colors(hash@),
            colors_bounded(colors@),
            pixels@.len() == 4 * ((y as int) * (width as int)),
            forall|n: int|
                0 <= n < pixels@.len() ==> (#[trigger] pixels@[n]) as int == decoded_pixel(
                    hash@,
                    width as int,
                    height as int,
                    (n / 4) % (width as int),
                    (n / 4) / (width as int),
                    n % 4,
                ),
        decreases height - y,
    {
        let mut x: usize = 0;
        proof {
            assert(4 * ((y as int) * (width as int)) + 4 * (width as int) <= (width as int) * (
            height as int) * 4) by (nonlinear_arith)
                requires
                    0 <= y < height,
                    1 <= width,
            ;
        }
        while x < width
            invariant
                x <= width,
                y < height,
                1 <= width,
                1 <= height,
                (width as int) * (height as int) * 4 <= usize::MAX,
                4 * ((y as int) * (width as int)) + 4 * (width as int) <= (width as int) * (
                height as int) * 4,
                stride == width * 4,
                total == colors@.len(),
                total == hash_num_x(hash@) * hash_num_y(hash@),
                1 <= total <= 90,
                1 <= num_x == hash_num_x(hash@),
                colors@ == hash_colors(hash@),
                colors_bounded(colors@),
                pixels@.len() == 4 * ((y as int) * (width as int)) + 4 * (x as int),
                forall|n: int|
                    0 <= n < pixels@.len() ==> (#[trigger] pixels@[n]) as int == decoded_pixel(
                        hash@,
                        width as int,
                        height as int,
                        (n / 4) % (width as int),
                        (n / 4) / (width as int),
                        n % 4,
                    ),
            decreases width - x,
        {
            let (acc_r, acc_g, acc_b) = pixel_sums(&colors, num_x, width, height, x, y);
            let b_r = linear2srgb(acc_r);
            let b_g = linear2srgb(acc_g);
            let b_b = linear2srgb(acc_b);
            let ghost before = pixels@;
            pixels.push(b_r);
            pixels.push(b_g);
            pixels.push(b_b);
            pixels.push(255);
            proof {
                let wi: int = width as int;
                let m: int = (y as int) * wi + (x as int);
                assert(before.len() == 4 * m);
                assert forall|c: int| 0 <= c < 4 implies (#[trigger] pixels@[4 * m + c]) as int
                    == decoded_pixel(
                    hash@,
                    wi,
                    height as int,
                    (4 * m + c) / 4 % wi,
                    (4 * m + c) / 4 / wi,
                    (4 * m + c) % 4,
                ) by {
                    lemma_pixel_index(wi, x as int, y as int, c);
                }
                assert forall|n: int| 0 <= n < pixels@.len() implies (#[trigger] pixels@[n]) as int
                    == decoded_pixel(
                    hash@,
                    wi,
                    height as int,
                    (n / 4) % wi,
                    (n / 4) / wi,
                    n % 4,
                ) by {
                    if n < before.len() {
                        assert(pixels@[n] == before[n]);
                    } else {
                        assert(pixels@[n] == pixels@[4 * m + (n - 4 * m)]);
                    }
                }
            }
            x = x + 1;
        }
        proof {
            assert(4 * ((y as int) * (width as int)) + 4 * (width as int) == 4 * (((y + 1) as int)
                * (width as int))) by (nonlinear_arith);
        }
        y = y + 1;
    }
    proof {
        assert(4 * ((height as int) * (width as int)) == (width as int) * (height as int) * 4)
            by (nonlinear_arith);
    }
    Ok(pixels)
}

} // verus!
