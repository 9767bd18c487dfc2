//! Laws connecting the encoder and the decoder: every emitted hash passes
//! the decoder's validation, a DC-only hash reconstructs a single flat
//! color, and a uniformly red image encodes to a hash whose size flag and DC
//! field decode back exactly.

use vstd::prelude::*;
use vstd::arithmetic::div_mod::lemma_fundamental_div_mod_converse;
use vstd::arithmetic::div_mod::lemma_div_multiples_vanish;
use vstd::arithmetic::div_mod::lemma_small_mod;
use crate::base_83::all_b83_digits;
use crate::base_83::base83_val;
use crate::base_83::enc83;
use crate::base_83::lemma_base83_round_trip;
use crate::base_83::lemma_enc83_len;
use crate::base_83::pow83;
use crate::color::linear_to_srgb_spec;
use crate::color::srgb_table;
use crate::color::lemma_l2s_range;
use crate::color::lemma_srgb_round_trip;
use crate::decode::LinearColor;
use crate::decode::basis_term;
use crate::decode::channel_of;
use crate::decode::channel_sum;
use crate::decode::dc_color;
use crate::decode::decoded_pixel;
use crate::decode::hash_colors;
use crate::decode::hash_num_x;
use crate::decode::hash_num_y;
use crate::decode::valid_hash_len;
use crate::encode::ac_field_val;
use crate::encode::ac_fields;
use crate::encode::basis_sum;
use crate::encode::dc_value;
use crate::encode::encode_max_fp;
use crate::encode::encoded_hash;
use crate::encode::factor_at;
use crate::encode::factors_of;
use crate::encode::quantised_max;
use crate::encode::ac_max_upto;
use crate::fixed::div_towards_zero;
use crate::fixed::lemma_cos_pi_zero;
use crate::fixed::lemma_scale_cancel;

verus! {

/// Every packed AC field value lies below 83^2.
proof fn lemma_ac_field_val_range(c: LinearColor, max_fp: int)
    ensures
        0 <= ac_field_val(c, max_fp) < 6889,
{
}

/// The concatenated AC fields are valid base-83 text of two characters per
/// component.
proof fn lemma_ac_fields_digits(factors: Seq<LinearColor>, max_fp: int, upto: int)
    requires
        upto >= 1,
    ensures
        ac_fields(factors, max_fp, upto).len() == 2 * (upto - 1),
        all_b83_digits(ac_fields(factors, max_fp, upto)),
    decreases upto,
{
    if upto == 1 {
    } else {
        lemma_ac_fields_digits(factors, max_fp, upto - 1);
        lemma_ac_field_val_range(factors[upto - 1], max_fp);
        assert(pow83(0) == 1);
        assert(pow83(1) == 83);
        assert(pow83(2) == 6889);
        lemma_base83_round_trip(ac_field_val(factors[upto - 1], max_fp) as nat, 2);
    }
}

/// The packed DC value lies below 83^4.
proof fn lemma_dc_value_range(c: LinearColor)
    ensures
        0 <= dc_value(c) < 16777216,
{
    lemma_l2s_range(c.red as int);
    lemma_l2s_range(c.green as int);
    lemma_l2s_range(c.blue as int);
}

/// Every hash the encoder emits passes the decoder's validation: its
/// characters are all alphabet members, its declared component grid is the
/// one it was encoded with, and its length is exactly the one that grid
/// calls for.
pub proof fn lemma_encoded_hash_valid(pixels: Seq<u8>, w: int, h: int, cx: int, cy: int)
    requires
        1 <= cx <= 9,
        1 <= cy <= 9,
    ensures
        all_b83_digits(encoded_hash(pixels, w, h, cx, cy)),
        encoded_hash(pixels, w, h, cx, cy).len() == 4 + 2 * cx * cy,
        hash_num_x(encoded_hash(pixels, w, h, cx, cy)) == cx,
        hash_num_y(encoded_hash(pixels, w, h, cx, cy)) == cy,
        valid_hash_len(encoded_hash(pixels, w, h, cx, cy)),
{
    let hash = encoded_hash(pixels, w, h, cx, cy);
    let factors = factors_of(pixels, w, h, cx, cy);
    let sf: int = (cx - 1) + (cy - 1) * 9;
    let qm: int = if cx * cy == 1 {
        0
    } else {
        quantised_max(ac_max_upto(factors, cx * cy))
    };
    let mfp: int = encode_max_fp(pixels, w, h, cx, cy);
    assert(1 <= cx * cy <= 81) by (nonlinear_arith)
        requires
            1 <= cx <= 9,
            1 <= cy <= 9,
    ;
    assert(pow83(0) == 1);
    assert(pow83(1) == 83);
    assert(pow83(2) == 6889);
    assert(pow83(3) == 571787);
    assert(pow83(4) == 47458321);
    assert(0 <= qm <= 82);
    lemma_base83_round_trip(sf as nat, 1);
    lemma_base83_round_trip(qm as nat, 1);
    lemma_dc_value_range(factors[0]);
    lemma_base83_round_trip(dc_value(factors[0]) as nat, 4);
    lemma_ac_fields_digits(factors, mfp, cx * cy);
    lemma_enc83_len(sf as nat, 1);
    lemma_enc83_len(qm as nat, 1);
    lemma_enc83_len(dc_value(factors[0]) as nat, 4);
    assert(hash.len() == 1 + 1 + 4 + 2 * (cx * cy - 1));
    assert(hash.len() == 4 + 2 * (cx * cy));
    assert(2 * cx * cy == 2 * (cx * cy)) by (nonlinear_arith);
    assert(hash.subrange(0, 1) =~= enc83(sf as nat, 1));
    assert(base83_val(hash.subrange(0, 1)) == sf);
    lemma_fundamental_div_mod_converse(sf, 9, cy - 1, cx - 1);
    assert(hash_num_x(hash) == cx);
    assert(hash_num_y(hash) == cy);
    assert(all_b83_digits(hash)) by {
        let a = enc83(sf as nat, 1);
        let b = enc83(qm as nat, 1);
        let c = enc83(dc_value(factors[0]) as nat, 4);
        let d = ac_fields(factors, mfp, cx * cy);
        assert forall|n: int| 0 <= n < hash.len() implies crate::base_83::is_b83_digit(
            #[trigger] hash[n],
        ) by {
            if n < 1 {
                assert(hash[n] == a[n]);
            } else if n < 2 {
                assert(hash[n] == b[n - 1]);
            } else if n < 6 {
                assert(hash[n] == c[n - 2]);
            } else {
                assert(hash[n] == d[n - 6]);
            }
        }
    }
}

/// A DC-only (1-by-1 component) hash reconstructs, at every output
/// resolution and every pixel, the single flat color obtained by converting
/// the image's mean linear color back to sRGB.
pub proof fn lemma_dc_only_reconstruction(
    pixels: Seq<u8>,
    w: int,
    h: int,
    wo: int,
    ho: int,
    x: int,
    y: int,
    chan: int,
) -> (flat: int)
    requires
        1 <= wo,
        1 <= ho,
        0 <= x < wo,
        0 <= y < ho,
        0 <= chan < 3,
    ensures
        flat == linear_to_srgb_spec(channel_of(factors_of(pixels, w, h, 1, 1)[0], chan)),
        decoded_pixel(encoded_hash(pixels, w, h, 1, 1), wo, ho, x, y, chan) == flat,
{
    let hash = encoded_hash(pixels, w, h, 1, 1);
    let factors = factors_of(pixels, w, h, 1, 1);
    lemma_encoded_hash_valid(pixels, w, h, 1, 1);
    let dcv: int = dc_value(factors[0]);
    lemma_dc_value_range(factors[0]);
    assert(pow83(0) == 1);
    assert(pow83(1) == 83);
    assert(pow83(2) == 6889);
    assert(pow83(3) == 571787);
    assert(pow83(4) == 47458321);
    lemma_enc83_len(0nat, 1);
    lemma_enc83_len(dcv as nat, 4);
    assert(hash.subrange(2, 6) =~= enc83(dcv as nat, 4));
    lemma_base83_round_trip(dcv as nat, 4);
    assert(base83_val(hash.subrange(2, 6)) == dcv);

    assert(0int % 1 == 0 && 0int / 1 == 0);
    let fr: int = linear_to_srgb_spec(factors[0].red as int);
    let fg: int = linear_to_srgb_spec(factors[0].green as int);
    let fb: int = linear_to_srgb_spec(factors[0].blue as int);
    lemma_l2s_range(factors[0].red as int);
    lemma_l2s_range(factors[0].green as int);
    lemma_l2s_range(factors[0].blue as int);
    assert(dcv == fr * 65536 + fg * 256 + fb);
    lemma_fundamental_div_mod_converse(dcv, 65536, fr, fg * 256 + fb);
    assert(dcv / 65536 == fr);
    lemma_small_mod(fr as nat, 256);
    lemma_fundamental_div_mod_converse(dcv, 256, fr * 256 + fg, fb);
    assert(dcv / 256 == fr * 256 + fg);
    lemma_fundamental_div_mod_converse(fr * 256 + fg, 256, fr, fg);
    assert((fr * 256 + fg) % 256 == fg);
    assert(dcv % 256 == fb);

    let col = dc_color(dcv);
    assert(col.red == srgb_table(fr));
    assert(col.green == srgb_table(fg));
    assert(col.blue == srgb_table(fb));

    let colors = hash_colors(hash);
    assert(colors.len() == 1);
    assert(colors[0] == col);

    let cs: int = channel_sum(colors, 1, wo, ho, x, y, chan, 1);
    assert(channel_sum(colors, 1, wo, ho, x, y, chan, 0) == 0);
    assert(cs == basis_term(colors[0], 1, wo, ho, x, y, chan, 0));
    assert(x * 0 == 0 && y * 0 == 0);
    lemma_cos_pi_zero(wo);
    lemma_cos_pi_zero(ho);
    let cval: int = channel_of(colors[0], chan);
    lemma_scale_cancel(cval);
    assert(cs == div_towards_zero(div_towards_zero(cval * 65536, 65536) * 65536, 65536));
    lemma_scale_cancel(div_towards_zero(cval * 65536, 65536));
    assert(cs == cval);

    let sample: int = if chan == 0 {
        fr
    } else if chan == 1 {
        fg
    } else {
        fb
    };
    assert(sample == linear_to_srgb_spec(channel_of(factors_of(pixels, w, h, 1, 1)[0], chan)));
    assert(cval == srgb_table(sample));
    lemma_srgb_round_trip(sample);
    assert(decoded_pixel(hash, wo, ho, x, y, chan) == linear_to_srgb_spec(srgb_table(sample)));
    assert(decoded_pixel(hash, wo, ho, x, y, chan) == sample);
    sample
}

/// The pixel buffer is uniformly red: every pixel is `(255, 0, 0, 255)`.
pub open spec fn uniform_red(pixels: Seq<u8>) -> bool {
    forall|n: int|
        0 <= n < pixels.len() ==> (#[trigger] pixels[n]) == (if n % 4 == 1 || n % 4 == 2 {
            0u8
        } else {
            255u8
        })
}

/// On a uniformly red buffer, the DC basis projection of the first `upto`
/// pixels is exact: full scale on the red channel and zero elsewhere.
proof fn lemma_uniform_basis_sum(pixels: Seq<u8>, w: int, h: int, chan: int, upto: int)
    requires
        1 <= w,
        1 <= h,
        pixels.len() == 4 * w * h,
        uniform_red(pixels),
        0 <= chan < 3,
        0 <= upto <= w * h,
    ensures
        basis_sum(pixels, w, h, 0, 0, chan, upto) == upto * (if chan == 0 {
            4294967296int
        } else {
            0int
        }),
    decreases upto,
{
    if upto > 0 {
        lemma_uniform_basis_sum(pixels, w, h, chan, upto - 1);
        let px: int = (upto - 1) / h;
        let py: int = (upto - 1) % h;
        assert(0 <= py < h);
        assert(0 <= px < w) by {
            vstd::arithmetic::div_mod::lemma_div_pos_is_pos(upto - 1, h);
            if px >= w {
                vstd::arithmetic::div_mod::lemma_fundamental_div_mod(upto - 1, h);
                assert(upto - 1 >= h * w) by (nonlinear_arith)
                    requires
                        (upto - 1) / h >= w,
                        h >= 1,
                        upto - 1 == h * ((upto - 1) / h) + (upto - 1) % h,
                        (upto - 1) % h >= 0,
                ;
                assert(h * w == w * h) by (nonlinear_arith);
            }
        }
        lemma_cos_pi_zero(w);
        lemma_cos_pi_zero(h);
        assert(0 * px == 0 && 0 * py == 0);
        assert(div_towards_zero(65536int * 65536, 65536) == 65536);
        let idx: int = 4 * px + chan + py * (4 * w);
        assert(0 <= idx && idx + 3 - chan < 4 * w * h) by (nonlinear_arith)
            requires
                0 <= px < w,
                0 <= py < h,
                0 <= chan < 3,
                idx == 4 * px + chan + py * (4 * w),
        ;
        assert(idx % 4 == chan) by {
            assert(idx == 4 * (px + py * w) + chan) by (nonlinear_arith)
                requires
                    idx == 4 * px + chan + py * (4 * w),
            ;
            lemma_fundamental_div_mod_converse(idx, 4, px + py * w, chan);
        }
        assert(pixels[idx] == (if chan == 0 {
            255u8
        } else {
            0u8
        }));
        assert(srgb_table(255) == 65536);
        assert(srgb_table(0) == 0);
        assert((upto - 1) * 4294967296 + 4294967296 == upto * 4294967296) by (nonlinear_arith);
    }
}

/// Encoding a uniformly red image with a 1-by-1 component grid yields a
/// hash whose size flag decodes to the `(1, 1)` grid and whose DC field
/// decodes back to exactly `(255, 0, 0)` after the sRGB round trip.
pub proof fn lemma_uniform_red_dc(pixels: Seq<u8>, w: int, h: int)
    requires
        1 <= w,
        1 <= h,
        pixels.len() == 4 * w * h,
        uniform_red(pixels),
    ensures
        base83_val(encoded_hash(pixels, w, h, 1, 1).subrange(0, 1)) == 0,
        hash_num_x(encoded_hash(pixels, w, h, 1, 1)) == 1,
        hash_num_y(encoded_hash(pixels, w, h, 1, 1)) == 1,
        base83_val(encoded_hash(pixels, w, h, 1, 1).subrange(2, 6)) == 255 * 65536,
        ({
            let col = dc_color(base83_val(encoded_hash(pixels, w, h, 1, 1).subrange(2, 6)));
            linear_to_srgb_spec(col.red as int) == 255 && linear_to_srgb_spec(col.green as int)
                == 0 && linear_to_srgb_spec(col.blue as int) == 0
        }),
{
    let hash = encoded_hash(pixels, w, h, 1, 1);
    let factors = factors_of(pixels, w, h, 1, 1);
    lemma_encoded_hash_valid(pixels, w, h, 1, 1);
    assert(1 <= w * h) by (nonlinear_arith)
        requires
            1 <= w,
            1 <= h,
    ;
    assert(pixels.len() == 4 * w * h);
    lemma_uniform_basis_sum(pixels, w, h, 0, w * h);
    lemma_uniform_basis_sum(pixels, w, h, 1, w * h);
    lemma_uniform_basis_sum(pixels, w, h, 2, w * h);
    assert(basis_sum(pixels, w, h, 0, 0, 0, w * h) == (w * h) * 4294967296);
    lemma_div_multiples_vanish(4294967296, w * h);
    assert(((w * h) * 4294967296) == 4294967296 * (w * h)) by (nonlinear_arith);
    assert(factor_at(pixels, w, h, 0, 0, 0) == div_towards_zero(4294967296, 65536));
    assert(factor_at(pixels, w, h, 0, 0, 0) == 65536);
    assert(div_towards_zero(0int, w * h) == 0) by {
        vstd::arithmetic::div_mod::lemma_div_pos_is_pos(0, w * h);
        vstd::arithmetic::div_mod::lemma_div_is_ordered(0, 0, w * h);
    }
    assert(factor_at(pixels, w, h, 0, 0, 1) == 0);
    assert(factor_at(pixels, w, h, 0, 0, 2) == 0);
    assert(factors[0].red == 65536 && factors[0].green == 0 && factors[0].blue == 0);
    assert(linear_to_srgb_spec(65536) == 255);
    assert(linear_to_srgb_spec(0) == 0);
    let dcv: int = dc_value(factors[0]);
    assert(dcv == 255 * 65536);
    assert(pow83(0) == 1);
    assert(pow83(1) == 83);
    assert(pow83(2) == 6889);
    assert(pow83(3) == 571787);
    assert(pow83(4) == 47458321);
    lemma_enc83_len(0nat, 1);
    lemma_enc83_len(dcv as nat, 4);
    assert(hash.subrange(2, 6) =~= enc83(dcv as nat, 4));
    lemma_base83_round_trip(dcv as nat, 4);
    assert(base83_val(hash.subrange(2, 6)) == 255 * 65536);
    let col = dc_color(dcv);
    lemma_fundamental_div_mod_converse(dcv, 65536, 255, 0);
    lemma_small_mod(255nat, 256);
    lemma_fundamental_div_mod_converse(dcv, 256, 255int * 256, 0);
    lemma_fundamental_div_mod_converse(255int * 256, 256, 255, 0);
    assert(col.red == srgb_table(255) && col.green == srgb_table(0) && col.blue == srgb_table(0));
    lemma_srgb_round_trip(255);
    lemma_srgb_round_trip(0);
}

} // verus!
