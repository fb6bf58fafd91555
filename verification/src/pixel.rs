//! ARGB8888 pixels: channel access, packing and straight-alpha blending.

use vstd::prelude::*;

verus! {

/// Alpha channel (bits 24..32) of an ARGB8888 pixel.
pub open spec fn alpha_of(c: u32) -> int {
    c as int / 0x1000000
}

/// Red channel (bits 16..24).
pub open spec fn red_of(c: u32) -> int {
    (c as int / 0x10000) % 0x100
}

/// Green channel (bits 8..16).
pub open spec fn green_of(c: u32) -> int {
    (c as int / 0x100) % 0x100
}

/// Blue channel (bits 0..8).
pub open spec fn blue_of(c: u32) -> int {
    c as int % 0x100
}

/// The ARGB8888 value with the given four channels.
pub open spec fn argb(a: int, r: int, g: int, b: int) -> int {
    a * 0x1000000 + r * 0x10000 + g * 0x100 + b
}

pub open spec fn min_int(a: int, b: int) -> int {
    if a < b { a } else { b }
}

pub open spec fn max_int(a: int, b: int) -> int {
    if a < b { b } else { a }
}

/// One colour channel of a partially transparent source blended over a
/// destination: the source's share plus the destination's share scaled by
/// what the source lets through, normalised by the resulting alpha.
pub open spec fn blend_channel(s: int, sa: int, d: int, da: int, a: int) -> int {
    (s * sa + d * da * (255 - sa) / 255) / max_int(a, 1)
}

/// Straight-alpha "source over destination" as the renderer defines it:
/// a fully transparent source leaves the destination, a (nearly) opaque
/// source (alpha 254 or 255) replaces it, and anything in between mixes the
/// channels, each clamped to 255.
pub open spec fn spec_alpha_blend(src: u32, dst: u32) -> int {
    let sa = alpha_of(src);
    if sa == 0 {
        dst as int
    } else if sa >= 0xFE {
        src as int
    } else {
        let da = alpha_of(dst);
        let a = sa + da * (255 - sa) / 255;
        argb(
            min_int(a, 255),
            min_int(blend_channel(red_of(src), sa, red_of(dst), da, a), 255),
            min_int(blend_channel(green_of(src), sa, green_of(dst), da, a), 255),
            min_int(blend_channel(blue_of(src), sa, blue_of(dst), da, a), 255),
        )
    }
}

proof fn lemma_channels(c: u32)
    ensures
        (c >> 24u32) & 0xFF == alpha_of(c),
        (c >> 16u32) & 0xFF == red_of(c),
        (c >> 8u32) & 0xFF == green_of(c),
        c & 0xFF == blue_of(c),
        0 <= alpha_of(c) < 256,
        0 <= red_of(c) < 256,
        0 <= green_of(c) < 256,
        0 <= blue_of(c) < 256,
        c == argb(alpha_of(c), red_of(c), green_of(c), blue_of(c)),
{
    assert((c >> 24u32) & 0xFF == c / 0x1000000) by (bit_vector);
    assert((c >> 16u32) & 0xFF == (c / 0x10000) % 0x100) by (bit_vector);
    assert((c >> 8u32) & 0xFF == (c / 0x100) % 0x100) by (bit_vector);
    assert(c & 0xFF == c % 0x100) by (bit_vector);
    assert(c / 0x1000000 < 256) by (bit_vector);
    assert(c == (c / 0x1000000) * 0x1000000 + ((c / 0x10000) % 0x100) * 0x10000
        + ((c / 0x100) % 0x100) * 0x100 + c % 0x100) by (bit_vector);
}

proof fn lemma_pack(a: u32, r: u32, g: u32, b: u32)
    requires
        a < 256,
        r < 256,
        g < 256,
        b < 256,
    ensures
        (a << 24u32) | (r << 16u32) | (g << 8u32) | b == argb(a as int, r as int, g as int, b as int),
        argb(a as int, r as int, g as int, b as int) <= u32::MAX,
{
    assert((a << 24u32) | (r << 16u32) | (g << 8u32) | b == a * 0x1000000 + r * 0x10000 + g
        * 0x100 + b) by (bit_vector)
        requires
            a < 256,
            r < 256,
            g < 256,
            b < 256,
    ;
}

/// Packs four 8-bit channels into one ARGB8888 pixel.
pub fn pack_argb(a: u8, r: u8, g: u8, b: u8) -> (res: u32)
    ensures
        res == argb(a as int, r as int, g as int, b as int),
        alpha_of(res) == a,
        red_of(res) == r,
        green_of(res) == g,
        blue_of(res) == b,
{
    let (a, r, g, b) = (a as u32, r as u32, g as u32, b as u32);
    proof {
        lemma_pack(a, r, g, b);
    }
    let res = (a << 24) | (r << 16) | (g << 8) | b;
    proof {
        lemma_channels(res);
        lemma_argb_unique(a as int, r as int, g as int, b as int, alpha_of(res), red_of(res),
            green_of(res), blue_of(res));
    }
    res
}

proof fn lemma_argb_unique(a: int, r: int, g: int, b: int, a2: int, r2: int, g2: int, b2: int)
    requires
        0 <= a < 256,
        0 <= r < 256,
        0 <= g < 256,
        0 <= b < 256,
        0 <= a2 < 256,
        0 <= r2 < 256,
        0 <= g2 < 256,
        0 <= b2 < 256,
        argb(a, r, g, b) == argb(a2, r2, g2, b2),
    ensures
        a == a2,
        r == r2,
        g == g2,
        b == b2,
{
}

/// Bounds a channel product needs to stay inside `u32`.
proof fn lemma_channel_bounds(s: int, sa: int, d: int, da: int)
    requires
        0 <= s < 256,
        0 < sa < 254,
        0 <= d < 256,
        0 <= da < 256,
    ensures
        0 <= s * sa <= 255 * 255,
        0 <= d * da <= 255 * 255,
        0 <= d * da * (255 - sa) <= 255 * 255 * 255,
        0 <= da * (255 - sa) <= 255 * 255,
{
    assert(0 <= s * sa <= 255 * 255) by (nonlinear_arith)
        requires
            0 <= s < 256,
            0 < sa < 254,
    ;
    assert(0 <= d * da <= 255 * 255) by (nonlinear_arith)
        requires
            0 <= d < 256,
            0 <= da < 256,
    ;
    assert(0 <= d * da * (255 - sa) <= 255 * 255 * 255) by (nonlinear_arith)
        requires
            0 <= d * da <= 255 * 255,
            0 < sa < 254,
    ;
    assert(0 <= da * (255 - sa) <= 255 * 255) by (nonlinear_arith)
        requires
            0 <= da < 256,
            0 < sa < 254,
    ;
}

fn blend_one(s: u32, sa: u32, d: u32, da: u32, a: u32) -> (res: u32)
    requires
        s < 256,
        0 < sa < 254,
        d < 256,
        da < 256,
        a >= 1,
    ensures
        res == min_int(blend_channel(s as int, sa as int, d as int, da as int, a as int), 255),
{
    proof {
        lemma_channel_bounds(s as int, sa as int, d as int, da as int);
    }
    let inv_sa = 255 - sa;
    let v = (s * sa + d * da * inv_sa / 255) / a;
    if v < 255 { v } else { 255 }
}

/// Blends `src` over `dst` (straight-alpha ARGB8888).
pub fn alpha_blend(src: u32, dst: u32) -> (res: u32)
    ensures
        res == spec_alpha_blend(src, dst),
{
    proof {
        lemma_channels(src);
        lemma_channels(dst);
    }
    let sa = (src >> 24) & 0xFF;
    if sa == 0 {
        return dst;
    }
    if sa >= 0xFE {
        return src;
    }
    let sr = (src >> 16) & 0xFF;
    let sg = (src >> 8) & 0xFF;
    let sb = src & 0xFF;
    let da = (dst >> 24) & 0xFF;
    let dr = (dst >> 16) & 0xFF;
    let dg = (dst >> 8) & 0xFF;
    let db = dst & 0xFF;
    proof {
        lemma_channel_bounds(0, sa as int, 0, da as int);
        assert(da * (255 - sa) / 255 <= 255 - sa) by (nonlinear_arith)
            requires
                0 <= da < 256,
                0 < sa < 254,
        ;
    }
    let a = sa + da * (255 - sa) / 255;
    let a1 = if a < 1 { 1 } else { a };
    let r = blend_one(sr, sa, dr, da, a1);
    let g = blend_one(sg, sa, dg, da, a1);
    let b = blend_one(sb, sa, db, da, a1);
    let a_c = if a < 255 { a } else { 255 };
    proof {
        lemma_pack(a_c, r, g, b);
    }
    (a_c << 24) | (r << 16) | (g << 8) | b
}

/// Blending over a cleared (all-zero) pixel gives the source back, except
/// that a fully transparent source leaves the pixel cleared.
pub proof fn lemma_blend_over_clear(src: u32)
    ensures
        spec_alpha_blend(src, 0) == if alpha_of(src) == 0 {
            0
        } else {
            src as int
        },
{
    lemma_channels(src);
    lemma_channels(0);
    let sa = alpha_of(src);
    if 0 < sa < 0xFE {
        assert(alpha_of(0) == 0 && red_of(0) == 0 && green_of(0) == 0 && blue_of(0) == 0);
        assert forall|s: int| 0 <= s < 256 implies blend_channel(s, sa, 0, 0, sa) == s by {
            assert(0int * 0 * (255 - sa) / 255 == 0);
            assert((s * sa) / sa == s) by (nonlinear_arith)
                requires
                    0 < sa,
            ;
        }
    }
}

/// A fully transparent source leaves the destination as it was, and a
/// (nearly) opaque one replaces it.
pub proof fn lemma_blend_extremes(src: u32, dst: u32)
    ensures
        alpha_of(src) == 0 ==> spec_alpha_blend(src, dst) == dst,
        alpha_of(src) >= 0xFE ==> spec_alpha_blend(src, dst) == src,
{
}

/// The coverage of a partially transparent source over a destination:
/// `sa + da * (255 - sa) / 255`, never above 255 and never below either
/// input's alpha.
proof fn lemma_over_coverage(sa: int, da: int)
    requires
        0 < sa < 254,
        0 <= da < 256,
    ensures
        0 <= da * (255 - sa) / 255 <= 255 - sa,
        sa <= sa + da * (255 - sa) / 255 <= 255,
        da <= sa + da * (255 - sa) / 255,
{
    assert(0 <= da * (255 - sa) <= 255 * (255 - sa)) by (nonlinear_arith)
        requires
            0 <= da < 256,
            0 < sa < 254,
    ;
    vstd::arithmetic::div_mod::lemma_div_is_ordered(da * (255 - sa), 255 * (255 - sa), 255);
    vstd::arithmetic::div_mod::lemma_div_multiples_vanish(255 - sa, 255);
    vstd::arithmetic::div_mod::lemma_div_pos_is_pos(da * (255 - sa), 255);
    if da > sa {
        assert(255 * (da - sa) <= da * (255 - sa)) by (nonlinear_arith)
            requires
                sa < da < 256,
                0 < sa,
        ;
        vstd::arithmetic::div_mod::lemma_div_is_ordered(255 * (da - sa), da * (255 - sa), 255);
        vstd::arithmetic::div_mod::lemma_div_multiples_vanish(da - sa, 255);
    }
}

/// The channels of a partial blend, read back from the packed pixel.
proof fn lemma_partial_blend_channels(src: u32, dst: u32)
    requires
        0 < alpha_of(src) < 0xFE,
    ensures
        ({
            let sa = alpha_of(src);
            let da = alpha_of(dst);
            let a = sa + da * (255 - sa) / 255;
            let r = spec_alpha_blend(src, dst);
            &&& 0 <= r <= u32::MAX
            &&& alpha_of(r as u32) == a
            &&& red_of(r as u32) == min_int(blend_channel(red_of(src), sa, red_of(dst), da, a), 255)
            &&& green_of(r as u32) == min_int(
                blend_channel(green_of(src), sa, green_of(dst), da, a),
                255,
            )
            &&& blue_of(r as u32) == min_int(
                blend_channel(blue_of(src), sa, blue_of(dst), da, a),
                255,
            )
        }),
{
    lemma_channels(src);
    lemma_channels(dst);
    let sa = alpha_of(src);
    let da = alpha_of(dst);
    lemma_over_coverage(sa, da);
    let a = sa + da * (255 - sa) / 255;
    let rr = min_int(blend_channel(red_of(src), sa, red_of(dst), da, a), 255);
    let gg = min_int(blend_channel(green_of(src), sa, green_of(dst), da, a), 255);
    let bb = min_int(blend_channel(blue_of(src), sa, blue_of(dst), da, a), 255);
    assert forall|x: int, d: int|
        0 <= x < 256 && 0 <= d < 256 implies 0 <= #[trigger] blend_channel(x, sa, d, da, a) by {
        lemma_channel_bounds(x, sa, d, da);
        vstd::arithmetic::div_mod::lemma_div_pos_is_pos(d * da * (255 - sa), 255);
        vstd::arithmetic::div_mod::lemma_div_pos_is_pos(
            x * sa + d * da * (255 - sa) / 255,
            max_int(a, 1),
        );
    }
    assert(0 <= rr < 256 && 0 <= gg < 256 && 0 <= bb < 256);
    let v = argb(a, rr, gg, bb);
    assert(v == spec_alpha_blend(src, dst));
    assert(0 <= v <= u32::MAX);
    let c = v as u32;
    assert(c as int == v);
    lemma_channels(c);
    lemma_argb_unique(a, rr, gg, bb, alpha_of(c), red_of(c), green_of(c), blue_of(c));
}

/// "Source over destination" coverage: a partially transparent source over
/// a destination gives a pixel whose alpha is the source's alpha plus the
/// destination's alpha scaled by what the source lets through,
/// `sa + da * (255 - sa) / 255`. So stacking never makes a pixel more
/// transparent than either layer, and never more than fully opaque.
pub proof fn lemma_blend_alpha_is_over(src: u32, dst: u32)
    requires
        0 < alpha_of(src) < 0xFE,
    ensures
        0 <= spec_alpha_blend(src, dst) <= u32::MAX,
        alpha_of(spec_alpha_blend(src, dst) as u32) == alpha_of(src) + alpha_of(dst) * (255
            - alpha_of(src)) / 255,
        alpha_of(spec_alpha_blend(src, dst) as u32) >= alpha_of(src),
        alpha_of(spec_alpha_blend(src, dst) as u32) >= alpha_of(dst),
        alpha_of(spec_alpha_blend(src, dst) as u32) <= 255,
{
    lemma_partial_blend_channels(src, dst);
    lemma_channels(dst);
    lemma_over_coverage(alpha_of(src), alpha_of(dst));
}

/// Over an opaque destination the result stays opaque, and each colour
/// channel is the mix of source and destination weighted by the source's
/// alpha: `(s * sa + d * (255 - sa)) / 255`.
pub proof fn lemma_blend_over_opaque(src: u32, dst: u32)
    requires
        0 < alpha_of(src) < 0xFE,
        alpha_of(dst) == 255,
    ensures
        ({
            let sa = alpha_of(src);
            let r = spec_alpha_blend(src, dst) as u32;
            &&& alpha_of(r) == 255
            &&& red_of(r) == (red_of(src) * sa + red_of(dst) * (255 - sa)) / 255
            &&& green_of(r) == (green_of(src) * sa + green_of(dst) * (255 - sa)) / 255
            &&& blue_of(r) == (blue_of(src) * sa + blue_of(dst) * (255 - sa)) / 255
        }),
{
    let sa = alpha_of(src);
    lemma_partial_blend_channels(src, dst);
    lemma_channels(src);
    lemma_channels(dst);
    vstd::arithmetic::div_mod::lemma_div_multiples_vanish(255 - sa, 255);
    assert(255 * (255 - sa) / 255 == 255 - sa);
    assert forall|x: int, d: int|
        0 <= x < 256 && 0 <= d < 256 implies #[trigger] blend_channel(x, sa, d, 255, 255) == (x
        * sa + d * (255 - sa)) / 255 && (x * sa + d * (255 - sa)) / 255 <= 255 by {
        assert(d * 255 * (255 - sa) == (d * (255 - sa)) * 255) by (nonlinear_arith);
        vstd::arithmetic::div_mod::lemma_div_multiples_vanish(d * (255 - sa), 255);
        assert(x * sa + d * (255 - sa) <= 255 * 255) by (nonlinear_arith)
            requires
                0 <= x < 256,
                0 <= d < 256,
                0 < sa < 254,
        ;
        vstd::arithmetic::div_mod::lemma_div_is_ordered(x * sa + d * (255 - sa), 65025int, 255);
        vstd::arithmetic::div_mod::lemma_div_multiples_vanish(255int, 255);
    }
}

} // verus!
