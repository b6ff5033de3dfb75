//! The resource-container decoder: pixel formats, the tiled texture
//! decoder, the model stream decoder, and the container parser that walks
//! the header, section and item tables with their offset-redirection scheme.

use crate::codec::{spec_le16, spec_le16i, spec_le32, read_le16, read_le16i, read_le32};
use crate::model::{Attribute, AttributeType, Model, VaryingAttribute};
use crate::texture::{Texture, WrapMode};
use vstd::arithmetic::div_mod::{
    lemma_div_multiples_vanish, lemma_fundamental_div_mod, lemma_fundamental_div_mod_converse,
};
use vstd::prelude::*;
use vstd::slice::slice_subrange;

verus! {

/// One of the twelve packed texel formats.
#[derive(Clone, Copy, Debug, PartialEq, Eq)]
pub enum TextureFormat {
    I4,
    I8,
    A4,
    A8,
    IA4,
    IA8,
    RG8,
    RGB565,
    RGB8,
    RGB5A1,
    RGBA4,
    RGBA8,
}

/// The format selected by a stored format code below twelve.
pub open spec fn spec_format_from_code(code: u8) -> TextureFormat {
    if code == 0 {
        TextureFormat::I4
    } else if code == 1 {
        TextureFormat::I8
    } else if code == 2 {
        TextureFormat::A4
    } else if code == 3 {
        TextureFormat::A8
    } else if code == 4 {
        TextureFormat::IA4
    } else if code == 5 {
        TextureFormat::IA8
    } else if code == 6 {
        TextureFormat::RG8
    } else if code == 7 {
        TextureFormat::RGB565
    } else if code == 8 {
        TextureFormat::RGB8
    } else if code == 9 {
        TextureFormat::RGB5A1
    } else if code == 10 {
        TextureFormat::RGBA4
    } else {
        TextureFormat::RGBA8
    }
}

/// Bits each texel of the format occupies in storage.
pub open spec fn spec_bit_per_pixel(fmt: TextureFormat) -> int {
    match fmt {
        TextureFormat::I4 => 4,
        TextureFormat::I8 => 8,
        TextureFormat::A4 => 4,
        TextureFormat::A8 => 8,
        TextureFormat::IA4 => 8,
        TextureFormat::IA8 => 16,
        TextureFormat::RG8 => 16,
        TextureFormat::RGB565 => 16,
        TextureFormat::RGB8 => 24,
        TextureFormat::RGB5A1 => 16,
        TextureFormat::RGBA4 => 16,
        TextureFormat::RGBA8 => 32,
    }
}

/// Bytes each horizontally adjacent texel pair occupies in storage.
pub open spec fn spec_pair_bytes(fmt: TextureFormat) -> int {
    spec_bit_per_pixel(fmt) * 2 / 8
}

impl TextureFormat {
    /// Decodes a stored format code; codes twelve and above name no format.
    pub fn from_code(code: u8) -> (r: Option<TextureFormat>)
        ensures
            r matches Some(f) ==> code < 12 && f == spec_format_from_code(code),
            r is None <==> code >= 12,
    {
        match code {
            0 => Some(TextureFormat::I4),
            1 => Some(TextureFormat::I8),
            2 => Some(TextureFormat::A4),
            3 => Some(TextureFormat::A8),
            4 => Some(TextureFormat::IA4),
            5 => Some(TextureFormat::IA8),
            6 => Some(TextureFormat::RG8),
            7 => Some(TextureFormat::RGB565),
            8 => Some(TextureFormat::RGB8),
            9 => Some(TextureFormat::RGB5A1),
            10 => Some(TextureFormat::RGBA4),
            11 => Some(TextureFormat::RGBA8),
            _ => None,
        }
    }

    /// Bits per texel.
    pub fn bit_per_pixel(&self) -> (r: usize)
        ensures
            r == spec_bit_per_pixel(*self),
    {
        match self {
            TextureFormat::I4 => 4,
            TextureFormat::I8 => 8,
            TextureFormat::A4 => 4,
            TextureFormat::A8 => 8,
            TextureFormat::IA4 => 8,
            TextureFormat::IA8 => 16,
            TextureFormat::RG8 => 16,
            TextureFormat::RGB565 => 16,
            TextureFormat::RGB8 => 24,
            TextureFormat::RGB5A1 => 16,
            TextureFormat::RGBA4 => 16,
            TextureFormat::RGBA8 => 32,
        }
    }

    /// Bytes per texel pair.
    pub fn pair_bytes(&self) -> (r: usize)
        ensures
            r == spec_pair_bytes(*self),
            1 <= r <= 8,
    {
        self.bit_per_pixel() * 2 / 8
    }
}

impl WrapMode {
    /// Decodes a stored wrap-mode code; codes three and above name no mode.
    pub fn from_code(code: u8) -> (r: Option<WrapMode>)
        ensures
            r matches Some(m) ==> code < 3 && m == spec_wrap_from_code(code),
            r is None <==> code >= 3,
    {
        match code {
            0 => Some(WrapMode::Edge),
            1 => Some(WrapMode::Repeat),
            2 => Some(WrapMode::Mirror),
            _ => None,
        }
    }
}

/// The wrap mode selected by a stored code below three.
pub open spec fn spec_wrap_from_code(code: u8) -> WrapMode {
    if code == 0 {
        WrapMode::Edge
    } else if code == 1 {
        WrapMode::Repeat
    } else {
        WrapMode::Mirror
    }
}

/// A four-bit channel value replicated to eight bits.
pub open spec fn spec_expand4(v: u8) -> u8 {
    (v << 4) | v
}

/// A five-bit channel value replicated to eight bits.
pub open spec fn spec_expand5(v: u8) -> u8 {
    (v << 3) | (v >> 2)
}

/// A six-bit channel value replicated to eight bits.
pub open spec fn spec_expand6(v: u8) -> u8 {
    (v << 2) | (v >> 4)
}

/// A one-bit alpha value expanded to eight bits.
pub open spec fn spec_expand1(v: u8) -> u8 {
    (v * 255) as u8
}

fn expand4(v: u8) -> (r: u8)
    ensures
        r == spec_expand4(v),
{
    (v << 4u8) | v
}

fn expand5(v: u8) -> (r: u8)
    ensures
        r == spec_expand5(v),
{
    (v << 3u8) | (v >> 2u8)
}

fn expand6(v: u8) -> (r: u8)
    ensures
        r == spec_expand6(v),
{
    (v << 2u8) | (v >> 4u8)
}

fn expand1(v: u8) -> (r: u8)
    requires
        v <= 1,
    ensures
        r == spec_expand1(v),
{
    v * 255
}

/// The eight output bytes (two RGBA8 texels) decoded from the stored bytes
/// of one texel pair.
pub open spec fn spec_decode_pixel_pair(fmt: TextureFormat, s: Seq<u8>) -> Seq<u8> {
    match fmt {
        TextureFormat::I4 => {
            let x = spec_expand4(s[0] & 0xF);
            let y = spec_expand4(s[0] >> 4);
            seq![x, x, x, 255u8, y, y, y, 255u8]
        },
        TextureFormat::I8 => seq![s[0], s[0], s[0], 255u8, s[1], s[1], s[1], 255u8],
        TextureFormat::A4 => {
            let x = spec_expand4(s[0] & 0xF);
            let y = spec_expand4(s[0] >> 4);
            seq![0u8, 0u8, 0u8, x, 0u8, 0u8, 0u8, y]
        },
        TextureFormat::A8 => seq![0u8, 0u8, 0u8, s[0], 0u8, 0u8, 0u8, s[1]],
        TextureFormat::IA4 => {
            let xa = spec_expand4(s[0] & 0xF);
            let xi = spec_expand4(s[0] >> 4);
            let ya = spec_expand4(s[1] & 0xF);
            let yi = spec_expand4(s[1] >> 4);
            seq![xi, xi, xi, xa, yi, yi, yi, ya]
        },
        TextureFormat::IA8 => seq![s[1], s[1], s[1], s[0], s[3], s[3], s[3], s[2]],
        TextureFormat::RG8 => seq![s[1], s[0], 0u8, 255u8, s[3], s[2], 0u8, 255u8],
        TextureFormat::RGB565 => {
            let r0 = spec_expand5(s[1] >> 3);
            let g0 = spec_expand6(((s[1] & 0b111) << 3) | (s[0] >> 5));
            let b0 = spec_expand5(s[0] & 0b11111);
            let r1 = spec_expand5(s[3] >> 3);
            let g1 = spec_expand6(((s[3] & 0b111) << 3) | (s[2] >> 5));
            let b1 = spec_expand5(s[2] & 0b11111);
            seq![r0, g0, b0, 255u8, r1, g1, b1, 255u8]
        },
        TextureFormat::RGB8 => seq![s[2], s[1], s[0], 255u8, s[5], s[4], s[3], 255u8],
        TextureFormat::RGB5A1 => {
            let r0 = spec_expand5(s[1] >> 3);
            let g0 = spec_expand5(((s[1] & 0b111) << 2) | (s[0] >> 6));
            let b0 = spec_expand5((s[0] & 0b111110) >> 1);
            let a0 = spec_expand1(s[0] & 1);
            let r1 = spec_expand5(s[3] >> 3);
            let g1 = spec_expand5(((s[3] & 0b111) << 2) | (s[2] >> 6));
            let b1 = spec_expand5((s[2] & 0b111110) >> 1);
            let a1 = spec_expand1(s[2] & 1);
            seq![r0, g0, b0, a0, r1, g1, b1, a1]
        },
        TextureFormat::RGBA4 => {
            let r0 = spec_expand4(s[1] >> 4);
            let g0 = spec_expand4(s[1] & 0b1111);
            let b0 = spec_expand4(s[0] >> 4);
            let a0 = spec_expand4(s[0] & 0b1111);
            let r1 = spec_expand4(s[3] >> 4);
            let g1 = spec_expand4(s[3] & 0b1111);
            let b1 = spec_expand4(s[2] >> 4);
            let a1 = spec_expand4(s[2] & 0b1111);
            seq![r0, g0, b0, a0, r1, g1, b1, a1]
        },
        TextureFormat::RGBA8 => seq![s[3], s[2], s[1], s[0], s[7], s[6], s[5], s[4]],
    }
}

impl TextureFormat {
    /// Decodes the stored bytes of one texel pair into two RGBA8 texels.
    pub fn decode_pixel_pair(&self, source: &[u8]) -> (r: [u8; 8])
        requires
            source@.len() == spec_pair_bytes(*self),
        ensures
            r@ == spec_decode_pixel_pair(*self, source@),
    {
        let r: [u8; 8] = match self {
            TextureFormat::I4 => {
                let x = expand4(source[0] & 0xF);
                let y = expand4(source[0] >> 4u8);
                [x, x, x, 255, y, y, y, 255]
            },
            TextureFormat::I8 => {
                let x = source[0];
                let y = source[1];
                [x, x, x, 255, y, y, y, 255]
            },
            TextureFormat::A4 => {
                let x = expand4(source[0] & 0xF);
                let y = expand4(source[0] >> 4u8);
                [0, 0, 0, x, 0, 0, 0, y]
            },
            TextureFormat::A8 => {
                let x = source[0];
                let y = source[1];
                [0, 0, 0, x, 0, 0, 0, y]
            },
            TextureFormat::IA4 => {
                let xa = expand4(source[0] & 0xF);
                let xi = expand4(source[0] >> 4u8);
                let ya = expand4(source[1] & 0xF);
                let yi = expand4(source[1] >> 4u8);
                [xi, xi, xi, xa, yi, yi, yi, ya]
            },
            TextureFormat::IA8 => {
                let xa = source[0];
                let xi = source[1];
                let ya = source[2];
                let yi = source[3];
                [xi, xi, xi, xa, yi, yi, yi, ya]
            },
            TextureFormat::RG8 => {
                let xg = source[0];
                let xr = source[1];
                let yg = source[2];
                let yr = source[3];
                [xr, xg, 0, 255, yr, yg, 0, 255]
            },
            TextureFormat::RGB565 => {
                let r0 = expand5(source[1] >> 3u8);
                let g0 = expand6(((source[1] & 0b111) << 3u8) | (source[0] >> 5u8));
                let b0 = expand5(source[0] & 0b11111);
                let r1 = expand5(source[3] >> 3u8);
                let g1 = expand6(((source[3] & 0b111) << 3u8) | (source[2] >> 5u8));
                let b1 = expand5(source[2] & 0b11111);
                [r0, g0, b0, 255, r1, g1, b1, 255]
            },
            TextureFormat::RGB8 => {
                [source[2], source[1], source[0], 255, source[5], source[4], source[3], 255]
            },
            TextureFormat::RGB5A1 => {
                proof {
                    let s0 = source@[0];
                    let s2 = source@[2];
                    assert(s0 & 1 <= 1 && s2 & 1 <= 1) by (bit_vector);
                }
                let r0 = expand5(source[1] >> 3u8);
                let g0 = expand5(((source[1] & 0b111) << 2u8) | (source[0] >> 6u8));
                let b0 = expand5((source[0] & 0b111110) >> 1u8);
                let a0 = expand1(source[0] & 1);
                let r1 = expand5(source[3] >> 3u8);
                let g1 = expand5(((source[3] & 0b111) << 2u8) | (source[2] >> 6u8));
                let b1 = expand5((source[2] & 0b111110) >> 1u8);
                let a1 = expand1(source[2] & 1);
                [r0, g0, b0, a0, r1, g1, b1, a1]
            },
            TextureFormat::RGBA4 => {
                let r0 = expand4(source[1] >> 4u8);
                let g0 = expand4(source[1] & 0b1111);
                let b0 = expand4(source[0] >> 4u8);
                let a0 = expand4(source[0] & 0b1111);
                let r1 = expand4(source[3] >> 4u8);
                let g1 = expand4(source[3] & 0b1111);
                let b1 = expand4(source[2] >> 4u8);
                let a1 = expand4(source[2] & 0b1111);
                [r0, g0, b0, a0, r1, g1, b1, a1]
            },
            TextureFormat::RGBA8 => {
                [source[3], source[2], source[1], source[0], source[7], source[6], source[5],
                    source[4]]
            },
        };
        proof {
            assert(r@ =~= spec_decode_pixel_pair(*self, source@));
        }
        r
    }
}

} // verus!
verus! {

/// `p` doubled until it is no smaller than `n`.
pub open spec fn spec_pad_up(n: int, p: int) -> int
    decreases (if n <= p { 0int } else { n - p }),
        when 1 <= p
{
    if p >= n {
        p
    } else {
        spec_pad_up(n, 2 * p)
    }
}

/// The padded extent of a texture dimension: the smallest power of two that
/// is at least eight and no smaller than the dimension.
pub open spec fn spec_padded_size(s: u16) -> int {
    spec_pad_up(s as int, 8)
}

/// The padded extent, computed by doubling.
#[verifier::loop_isolation(false)]
pub fn padded_size(s: u16) -> (r: usize)
    ensures
        r == spec_padded_size(s),
        8 <= r <= 0x10000,
        r % 8 == 0,
        s <= r,
        r == 8 || r < 2 * (s as int),
{
    let mut p: usize = 8;
    while p < s as usize
        invariant
            8 <= p <= 0x10000,
            p % 8 == 0,
            0x10000usize % p == 0,
            spec_pad_up(s as int, p as int) == spec_pad_up(s as int, 8),
            p == 8 || p < 2 * (s as int),
        decreases (if s as int <= p { 0int } else { s as int - p }),
    {
        proof {
            lemma_pow16_divisor(p as int);
            assert(spec_pad_up(s as int, p as int) == spec_pad_up(s as int, 2 * (p as int)));
        }
        p = p * 2;
    }
    proof {
        assert(spec_pad_up(s as int, p as int) == p as int);
    }
    p
}

/// A divisor of 0x10000 that is a positive multiple of eight and below
/// 0x10000 doubles to another such divisor.
proof fn lemma_pow16_divisor(p: int)
    requires
        8 <= p < 0x10000,
        p % 8 == 0,
        0x10000int % p == 0,
    ensures
        (2 * p) % 8 == 0,
        0x10000int % (2 * p) == 0,
        2 * p <= 0x10000,
{
    let q = 0x10000int / p;
    lemma_fundamental_div_mod(0x10000int, p);
    assert(0x10000 == p * q);
    assert(q > 1) by (nonlinear_arith)
        requires
            0x10000 == p * q,
            8 <= p < 0x10000,
    ;
    assert(q % 2 == 0) by (nonlinear_arith)
        requires
            0x10000 == p * q,
            p % 8 == 0,
            q > 1,
    ;
    let h = q / 2;
    lemma_fundamental_div_mod(q, 2);
    assert(q == 2 * h);
    assert(0x10000 == (2 * p) * h) by (nonlinear_arith)
        requires
            0x10000 == p * q,
            q == 2 * h,
    ;
    lemma_mod_multiples_basic_local(2 * p, h);
    assert(2 * p <= 0x10000) by (nonlinear_arith)
        requires
            0x10000 == (2 * p) * h,
            h >= 1,
            p >= 8,
    ;
}

/// `(d * x) % d == 0` for positive `d` and non-negative `x`.
proof fn lemma_mod_multiples_basic_local(d: int, x: int)
    requires
        0 < d,
        0 <= x,
    ensures
        (d * x) % d == 0,
{
    assert(d * x == x * d) by (nonlinear_arith);
    lemma_fundamental_div_mod_converse(d * x, d, x, 0);
}

} // verus!
verus! {

/// The tile-local offset contribution of the low three bits of x.
pub open spec fn spec_xlut(i: int) -> int {
    if i == 0 {
        0x00
    } else if i == 1 {
        0x01
    } else if i == 2 {
        0x04
    } else if i == 3 {
        0x05
    } else if i == 4 {
        0x10
    } else if i == 5 {
        0x11
    } else if i == 6 {
        0x14
    } else {
        0x15
    }
}

/// The tile-local offset contribution of the low three bits of y.
pub open spec fn spec_ylut(i: int) -> int {
    if i == 0 {
        0x00
    } else if i == 1 {
        0x02
    } else if i == 2 {
        0x08
    } else if i == 3 {
        0x0a
    } else if i == 4 {
        0x20
    } else if i == 5 {
        0x22
    } else if i == 6 {
        0x28
    } else {
        0x2a
    }
}

fn xlut_at(i: u64) -> (r: u64)
    requires
        i < 8,
    ensures
        r == spec_xlut(i as int),
{
    if i == 0 {
        0x00
    } else if i == 1 {
        0x01
    } else if i == 2 {
        0x04
    } else if i == 3 {
        0x05
    } else if i == 4 {
        0x10
    } else if i == 5 {
        0x11
    } else if i == 6 {
        0x14
    } else {
        0x15
    }
}

fn ylut_at(i: u64) -> (r: u64)
    requires
        i < 8,
    ensures
        r == spec_ylut(i as int),
{
    if i == 0 {
        0x00
    } else if i == 1 {
        0x02
    } else if i == 2 {
        0x08
    } else if i == 3 {
        0x0a
    } else if i == 4 {
        0x20
    } else if i == 5 {
        0x22
    } else if i == 6 {
        0x28
    } else {
        0x2a
    }
}

/// The texel-pair index at which the pair holding source texel `(x, sy)`
/// sits, in the eight-by-eight tiled, bit-interleaved storage order.
pub open spec fn spec_swizzle_offset(wp: int, x: int, sy: int) -> int {
    ((x / 8 + (sy / 8) * wp / 8) * 64 + spec_xlut(x % 8) + spec_ylut(sy % 8)) / 2
}

/// The tiled pair index stays inside the padded pixel grid.
proof fn lemma_swizzle_bound(wp: int, hp: int, x: int, sy: int)
    requires
        wp % 8 == 0,
        hp % 8 == 0,
        8 <= wp,
        8 <= hp,
        0 <= x < wp,
        0 <= sy < hp,
    ensures
        0 <= spec_swizzle_offset(wp, x, sy),
        spec_swizzle_offset(wp, x, sy) < wp * hp / 2,
{
    let w8 = wp / 8;
    let h8 = hp / 8;
    lemma_fundamental_div_mod(wp, 8);
    lemma_fundamental_div_mod(hp, 8);
    lemma_fundamental_div_mod(x, 8);
    lemma_fundamental_div_mod(sy, 8);
    let cx = x / 8;
    let cy = sy / 8;
    assert(cx < w8) by (nonlinear_arith)
        requires
            x == 8 * cx + x % 8,
            0 <= x % 8 < 8,
            wp == 8 * w8,
            x < wp,
    ;
    assert(cy < h8) by (nonlinear_arith)
        requires
            sy == 8 * cy + sy % 8,
            0 <= sy % 8 < 8,
            hp == 8 * h8,
            sy < hp,
    ;
    assert(cy * wp == 8 * (cy * w8)) by (nonlinear_arith)
        requires
            wp == 8 * w8,
    ;
    lemma_div_multiples_vanish(cy * w8, 8);
    assert((cy * wp) / 8 == cy * w8);
    let fo = spec_xlut(x % 8) + spec_ylut(sy % 8);
    assert(0 <= fo <= 0x3f);
    let inner = cx + (cy * wp) / 8;
    assert(inner <= w8 * h8 - 1) by (nonlinear_arith)
        requires
            inner == cx + cy * w8,
            cx <= w8 - 1,
            cy <= h8 - 1,
            w8 >= 1,
            h8 >= 1,
    ;
    let num = inner * 64 + fo;
    assert(num <= 64 * (w8 * h8) - 1) by (nonlinear_arith)
        requires
            inner <= w8 * h8 - 1,
            0 <= fo <= 0x3f,
            num == inner * 64 + fo,
    ;
    assert(0 <= num) by (nonlinear_arith)
        requires
            num == inner * 64 + fo,
            0 <= inner,
            0 <= fo,
    ;
    assert(wp * hp == 64 * (w8 * h8)) by (nonlinear_arith)
        requires
            wp == 8 * w8,
            hp == 8 * h8,
    ;
    lemma_div_multiples_vanish(32 * (w8 * h8), 2);
    assert(2 * (32 * (w8 * h8)) == 64 * (w8 * h8)) by (nonlinear_arith);
    assert(wp * hp / 2 == 32 * (w8 * h8));
    assert(num / 2 < 32 * (w8 * h8)) by {
        lemma_fundamental_div_mod(num, 2);
        assert(num / 2 <= (64 * (w8 * h8) - 1) / 2) by (nonlinear_arith)
            requires
                0 <= num <= 64 * (w8 * h8) - 1,
                num == 2 * (num / 2) + num % 2,
                0 <= num % 2 < 2,
                64 * (w8 * h8) - 1 >= 0,
        ;
        lemma_fundamental_div_mod_converse(64 * (w8 * h8) - 1, 2, 32 * (w8 * h8) - 1, 1);
    }
}

/// The stored pixel bytes of a padded grid cut exactly into texel pairs.
proof fn lemma_pixel_chunks(fmt: TextureFormat, wp: int, hp: int)
    requires
        wp % 8 == 0,
        hp % 8 == 0,
        8 <= wp,
        8 <= hp,
    ensures
        wp * hp * spec_bit_per_pixel(fmt) / 8 == (wp * hp / 2) * spec_pair_bytes(fmt),
{
    let bpp = spec_bit_per_pixel(fmt);
    let ps = spec_pair_bytes(fmt);
    assert(bpp == 4 * ps);
    let w8 = wp / 8;
    lemma_fundamental_div_mod(wp, 8);
    let m = wp * hp / 2;
    assert(wp * hp == 2 * (4 * (w8 * hp))) by (nonlinear_arith)
        requires
            wp == 8 * w8,
    ;
    lemma_div_multiples_vanish(4 * (w8 * hp), 2);
    assert(m == 4 * (w8 * hp));
    assert(wp * hp * bpp == 8 * (m * ps)) by (nonlinear_arith)
        requires
            wp * hp == 2 * m,
            bpp == 4 * ps,
    ;
    lemma_div_multiples_vanish(m * ps, 8);
}

/// A texture as stored in the container: its size, format, wrap modes and
/// packed pixel bytes covering the padded power-of-two grid.
#[derive(Clone, Debug, PartialEq)]
pub struct RawTexture {
    pub width: u16,
    pub height: u16,
    pub format: TextureFormat,
    pub wrap_u: WrapMode,
    pub wrap_v: WrapMode,
    pub pixels: Vec<u8>,
}

/// The decoded RGBA8 image: texel `(x, y)` of the output, in raster order,
/// is channel-expanded from the stored texel pair that holds source texel
/// `(x, height - 1 - y)` in the tiled storage order.
pub open spec fn spec_texture_decode(
    fmt: TextureFormat,
    width: int,
    height: int,
    wp: int,
    pixels: Seq<u8>,
) -> Seq<u8> {
    let pc = (width + 1) / 2;
    Seq::new(
        (height * pc * 8) as nat,
        |i: int|
            {
                let y = i / (pc * 8);
                let rest = i % (pc * 8);
                let px = rest / 8;
                let k = rest % 8;
                let o = spec_swizzle_offset(wp, 2 * px, height - 1 - y);
                spec_decode_pixel_pair(
                    fmt,
                    pixels.subrange(spec_pair_bytes(fmt) * o, spec_pair_bytes(fmt) * (o + 1)),
                )[k]
            },
    )
}

impl RawTexture {
    /// The pixel byte buffer covers the padded grid exactly.
    pub open spec fn wf(self) -> bool {
        self.pixels@.len() == spec_padded_size(self.width) * spec_padded_size(self.height)
            * spec_bit_per_pixel(self.format) / 8
    }

    /// Decodes the tiled, packed pixels into a flat RGBA8 buffer in raster
    /// order: a pure function of format, size and pixel bytes.
    #[verifier::loop_isolation(false)]
    #[verifier::rlimit(100)]
    pub fn decode(&self) -> (r: Vec<u8>)
        requires
            self.wf(),
        ensures
            r@ == spec_texture_decode(
                self.format,
                self.width as int,
                self.height as int,
                spec_padded_size(self.width),
                self.pixels@,
            ),
            r@.len() == self.height * ((self.width + 1) / 2) * 8,
    {
        let ghost spec_out = spec_texture_decode(
            self.format,
            self.width as int,
            self.height as int,
            spec_padded_size(self.width),
            self.pixels@,
        );
        let wp = padded_size(self.width);
        let hp = padded_size(self.height);
        let ps = self.format.pair_bytes();
        let plen = self.pixels.len();
        let width = self.width as usize;
        let height = self.height as usize;
        let pc = (width + 1) / 2;
        let ghost pci = (self.width as int + 1) / 2;
        proof {
            assert(pc == pci);
            lemma_pixel_chunks(self.format, wp as int, hp as int);
            lemma_fundamental_div_mod(width + 1, 2);
            assert(spec_out.len() == (self.height as int) * pci * 8);
        }
        let mut out: Vec<u8> = Vec::new();
        let mut y: usize = 0;
        while y < height
            invariant
                y <= height,
                out@.len() == y * (pci * 8),
                forall|i: int| 0 <= i < out@.len() ==> out@[i] == spec_out[i],
            decreases height - y,
        {
            let mut px: usize = 0;
            while px < pc
                invariant
                    y < height,
                    px <= pc,
                    out@.len() == y * (pci * 8) + px * 8,
                    forall|i: int| 0 <= i < out@.len() ==> out@[i] == spec_out[i],
                decreases pc - px,
            {
                let x = 2 * px;
                let sy = height - 1 - y;
                proof {
                    assert(x < wp && sy < hp);
                    lemma_swizzle_bound(wp as int, hp as int, x as int, sy as int);
                }
                let cx = (x as u64) / 8;
                let cy = (sy as u64) / 8;
                let fx = (x as u64) % 8;
                let fy = (sy as u64) % 8;
                let fo = xlut_at(fx) + ylut_at(fy);
                proof {
                    lemma_fundamental_div_mod(sy as int, 8);
                    assert(cy * (wp as u64) < 0x100000000) by (nonlinear_arith)
                        requires
                            cy <= 0xFFFF,
                            (wp as u64) <= 0x10000,
                    ;
                }
                let o64 = ((cx + cy * (wp as u64) / 8) * 64 + fo) / 2;
                proof {
                    assert(o64 == spec_swizzle_offset(wp as int, x as int, sy as int));
                    assert((o64 + 1) * (ps as int) <= self.pixels@.len()) by (nonlinear_arith)
                        requires
                            o64 < (wp as int) * (hp as int) / 2,
                            self.pixels@.len() == ((wp as int) * (hp as int) / 2) * (ps as int),
                            ps >= 1,
                    ;
                    assert((o64 + 1) * (ps as int) == o64 * (ps as int) + ps) by (nonlinear_arith);
                    assert((wp as int) * (hp as int) <= 0x100000000) by (nonlinear_arith)
                        requires
                            wp <= 0x10000,
                            hp <= 0x10000,
                    ;
                    assert((ps as int) * (o64 as int) == o64 * (ps as int)) by (nonlinear_arith);
                }
                let o = o64 as usize;
                let pair = slice_subrange(self.pixels.as_slice(), ps * o, ps * o + ps);
                let decoded = self.format.decode_pixel_pair(pair);
                let ghost len0 = out@.len() as int;
                let ghost pre = out@;
                let mut k: usize = 0;
                while k < 8
                    invariant
                        k <= 8,
                        out@ == pre + decoded@.take(k as int),
                    decreases 8 - k,
                {
                    out.push(decoded[k]);
                    proof {
                        assert(out@ =~= pre + decoded@.take(k + 1));
                    }
                    k = k + 1;
                }
                proof {
                    assert(decoded@.take(8) =~= decoded@);
                    assert(out@.len() == len0 + 8);
                    assert(out@.len() <= spec_out.len()) by (nonlinear_arith)
                        requires
                            out@.len() == y * (pci * 8) + px * 8 + 8,
                            spec_out.len() == (self.height as int) * pci * 8,
                            0 <= y < self.height as int,
                            0 <= px < pci,
                    ;
                    assert forall|i: int| 0 <= i < out@.len() implies out@[i] == spec_out[i] by {
                        if i < len0 {
                            assert(out@[i] == pre[i]);
                        } else {
                            let k2 = i - len0;
                            assert(out@[i] == decoded@[k2]);
                            lemma_fundamental_div_mod_converse(
                                i,
                                pci * 8,
                                y as int,
                                px * 8 + k2,
                            );
                            lemma_fundamental_div_mod_converse(px * 8 + k2, 8, px as int, k2);
                            assert(spec_out[i] == spec_decode_pixel_pair(
                                self.format,
                                self.pixels@.subrange(
                                    (ps as int) * o64,
                                    (ps as int) * (o64 + 1),
                                ),
                            )[k2]);
                            assert((ps as int) * (o64 + 1) == (ps as int) * o64 + ps)
                                by (nonlinear_arith);
                            assert(pair@ == self.pixels@.subrange(
                                (ps as int) * o64,
                                (ps as int) * (o64 + 1),
                            ));
                        }
                    }
                    assert(out@.len() == y * (pci * 8) + (px + 1) * 8);
                }
                px = px + 1;
            }
            proof {
                assert(y * (pci * 8) + pci * 8 == (y + 1) * (pci * 8)) by (nonlinear_arith);
            }
            y = y + 1;
        }
        proof {
            assert(out@.len() == spec_out.len()) by (nonlinear_arith)
                requires
                    out@.len() == (height as int) * (pci * 8),
                    spec_out.len() == (self.height as int) * pci * 8,
                    height == self.height as int,
            ;
            assert(out@ =~= spec_out);
        }
        out
    }

    /// Decodes the texture and packs it for the renderer.
    pub fn bake(&self) -> (r: Texture)
        requires
            self.wf(),
        ensures
            r.width == self.width,
            r.height == self.height,
            r.rgba@ == spec_texture_decode(
                self.format,
                self.width as int,
                self.height as int,
                spec_padded_size(self.width),
                self.pixels@,
            ),
            r.wrap_u == self.wrap_u,
            r.wrap_v == self.wrap_v,
    {
        let decoded = self.decode();
        Texture::new(
            self.width as usize,
            self.height as usize,
            decoded.as_slice(),
            &self.wrap_u,
            &self.wrap_v,
        )
    }
}

} // verus!
verus! {

/// Whether a per-vertex attribute is absent, shared, or varies per vertex.
#[derive(Clone, Copy, Debug, PartialEq, Eq)]
pub enum AttributeMode {
    Absent,
    Common,
    Individual,
}

/// The attribute mode implied by a stored attribute count.
pub open spec fn spec_attribute_mode(count: u16) -> AttributeMode {
    if count == 0 {
        AttributeMode::Absent
    } else if count == 1 {
        AttributeMode::Common
    } else {
        AttributeMode::Individual
    }
}

impl AttributeMode {
    /// No entries means absent, one a shared entry, more one per vertex.
    pub fn from_count(attribute_count: u16) -> (r: AttributeMode)
        ensures
            r == spec_attribute_mode(attribute_count),
    {
        if attribute_count == 0 {
            AttributeMode::Absent
        } else if attribute_count == 1 {
            AttributeMode::Common
        } else {
            AttributeMode::Individual
        }
    }
}

/// A model as stored in the container: the raw vertex stream, the raw index
/// stream, and how normals and texture coordinates are supplied.
pub struct RawModel {
    pub normal_mode: AttributeMode,
    pub texcoord_mode: AttributeMode,
    pub vertex_list: Vec<u8>,
    pub default_normal: (i16, i16, i16),
    pub default_texcoord: (i16, i16),
    pub index_list: Vec<u8>,
}

/// Bytes of one vertex record under the given attribute modes: position
/// always, plus a normal slot and a texture-coordinate slot when varying.
pub open spec fn spec_model_stride(nm: AttributeMode, tm: AttributeMode) -> int {
    6 + (if nm is Individual {
        6int
    } else {
        0int
    }) + (if tm is Individual {
        4int
    } else {
        0int
    })
}

/// The attribute slot map a model bakes to: position varying at offset zero,
/// then the normal slot, then the texture-coordinate slot, constants for
/// `Common` modes and varying entries at the running stride offset.
pub open spec fn spec_attribute_map(
    nm: AttributeMode,
    tm: AttributeMode,
    dn: (i16, i16, i16),
    dt: (i16, i16),
) -> Seq<(u32, Attribute)> {
    let base = seq![
        (
            0u32,
            Attribute::Varying(
                VaryingAttribute { dimension: 3, data_type: AttributeType::Short, offset: 0 },
            ),
        ),
    ];
    let with_normal = match nm {
        AttributeMode::Absent => base,
        AttributeMode::Common => base.push((1u32, Attribute::Short3(dn))),
        AttributeMode::Individual => base.push(
            (
                1u32,
                Attribute::Varying(
                    VaryingAttribute { dimension: 3, data_type: AttributeType::Short, offset: 6 },
                ),
            ),
        ),
    };
    let tex_offset: u32 = if nm is Individual {
        12u32
    } else {
        6u32
    };
    match tm {
        AttributeMode::Absent => with_normal,
        AttributeMode::Common => with_normal.push((2u32, Attribute::Short2(dt))),
        AttributeMode::Individual => with_normal.push(
            (
                2u32,
                Attribute::Varying(
                    VaryingAttribute {
                        dimension: 2,
                        data_type: AttributeType::Short,
                        offset: tex_offset,
                    },
                ),
            ),
        ),
    }
}

impl RawModel {
    /// Lays the model out for the renderer: the position attribute first,
    /// then normal and texture-coordinate slots in that fixed order, with
    /// the byte streams passed through unmodified.
    pub fn bake(&self) -> (r: Model)
        ensures
            r.vertex_data@ == self.vertex_list@,
            r.index_data@ == self.index_list@,
            r.stride == spec_model_stride(self.normal_mode, self.texcoord_mode),
            r.attribute_map@ == spec_attribute_map(
                self.normal_mode,
                self.texcoord_mode,
                self.default_normal,
                self.default_texcoord,
            ),
    {
        let mut attribute_map: Vec<(u32, Attribute)> = Vec::new();
        attribute_map.push(
            (
                0u32,
                Attribute::Varying(
                    VaryingAttribute { dimension: 3, data_type: AttributeType::Short, offset: 0 },
                ),
            ),
        );
        let mut stride: u32 = 6;
        match self.normal_mode {
            AttributeMode::Absent => {},
            AttributeMode::Common => {
                attribute_map.push((1u32, Attribute::Short3(self.default_normal)));
            },
            AttributeMode::Individual => {
                attribute_map.push(
                    (
                        1u32,
                        Attribute::Varying(
                            VaryingAttribute {
                                dimension: 3,
                                data_type: AttributeType::Short,
                                offset: stride,
                            },
                        ),
                    ),
                );
                stride = stride + 6;
            },
        }
        match self.texcoord_mode {
            AttributeMode::Absent => {},
            AttributeMode::Common => {
                attribute_map.push((2u32, Attribute::Short2(self.default_texcoord)));
            },
            AttributeMode::Individual => {
                attribute_map.push(
                    (
                        2u32,
                        Attribute::Varying(
                            VaryingAttribute {
                                dimension: 2,
                                data_type: AttributeType::Short,
                                offset: stride,
                            },
                        ),
                    ),
                );
                stride = stride + 4;
            },
        }
        proof {
            assert(attribute_map@ =~= spec_attribute_map(
                self.normal_mode,
                self.texcoord_mode,
                self.default_normal,
                self.default_texcoord,
            ));
        }
        Model::new(self.vertex_list.as_slice(), self.index_list.as_slice(), attribute_map, stride)
    }
}

/// The fixed face-configuration record that prefixes face-section items:
/// three positions of three 32-bit little-endian values each, kept as the
/// stored bit patterns.
#[derive(Clone, Copy, Debug)]
pub struct FaceConfig {
    pub hair_pos: (u32, u32, u32),
    pub nose_pos: (u32, u32, u32),
    pub beard_pos: (u32, u32, u32),
}

/// The face-configuration record stored at the front of `s`.
pub open spec fn spec_face_config(s: Seq<u8>) -> FaceConfig {
    FaceConfig {
        hair_pos: (spec_le32(s, 0), spec_le32(s, 4), spec_le32(s, 8)),
        nose_pos: (spec_le32(s, 12), spec_le32(s, 16), spec_le32(s, 20)),
        beard_pos: (spec_le32(s, 24), spec_le32(s, 28), spec_le32(s, 32)),
    }
}

/// Reads the 36-byte face-configuration record at the front of `bytes`;
/// refuses shorter buffers.
pub fn parse_face_config(bytes: &[u8]) -> (r: Option<FaceConfig>)
    ensures
        r is Some <==> bytes@.len() >= 36,
        r matches Some(c) ==> c == spec_face_config(bytes@),
{
    if bytes.len() < 36 {
        return None;
    }
    Some(
        FaceConfig {
            hair_pos: (read_le32(bytes, 0), read_le32(bytes, 4), read_le32(bytes, 8)),
            nose_pos: (read_le32(bytes, 12), read_le32(bytes, 16), read_le32(bytes, 20)),
            beard_pos: (read_le32(bytes, 24), read_le32(bytes, 28), read_le32(bytes, 32)),
        },
    )
}

} // verus!
verus! {

/// The vertex-stream end offset of a stored model: the four counts, then
/// `vertex_count` vertex records.
pub open spec fn spec_m_vend(s: Seq<u8>) -> int {
    8 + spec_le16(s, 0) * spec_model_stride(
        spec_attribute_mode(spec_le16(s, 2)),
        spec_attribute_mode(spec_le16(s, 4)),
    )
}

/// The end offset of the shared-normal record, present only when the
/// normal count is one.
pub open spec fn spec_m_nend(s: Seq<u8>) -> int {
    spec_m_vend(s) + if spec_le16(s, 2) == 1 {
        6int
    } else {
        0int
    }
}

/// The end offset of the shared-texture-coordinate record, present only
/// when the texture-coordinate count is one.
pub open spec fn spec_m_tend(s: Seq<u8>) -> int {
    spec_m_nend(s) + if spec_le16(s, 4) == 1 {
        4int
    } else {
        0int
    }
}

/// Whether `s` starts with a well-formed stored model: counts and streams
/// in bounds, and, when an index list is present, its fixed two-byte tag.
pub open spec fn spec_model_ok(s: Seq<u8>) -> bool {
    &&& s.len() >= 8
    &&& spec_m_tend(s) <= s.len()
    &&& (spec_le16(s, 6) == 1 ==> {
        let t = spec_m_tend(s);
        &&& t + 4 <= s.len()
        &&& s[t] == 4
        &&& s[t + 1] == 0
        &&& t + 4 + spec_le16(s, t + 2) <= s.len()
    })
}

/// The total bytes a well-formed stored model occupies at the front of `s`.
pub open spec fn spec_model_used(s: Seq<u8>) -> int {
    if spec_le16(s, 6) == 1 {
        spec_m_tend(s) + 4 + spec_le16(s, spec_m_tend(s) + 2)
    } else {
        spec_m_tend(s)
    }
}

/// Parses the stored model at the front of `bytes`: the four counts, the
/// vertex stream, the shared normal and texture-coordinate records when
/// their counts are one, and the tagged index stream when present.
/// Returns the model and the bytes consumed; refuses exactly the buffers
/// `spec_model_ok` refuses.
#[verifier::loop_isolation(false)]
#[verifier::spinoff_prover]
#[verifier::rlimit(100)]
pub fn parse_model(bytes: &[u8]) -> (r: Option<(RawModel, usize)>)
    ensures
        r is Some <==> spec_model_ok(bytes@),
        r matches Some((m, used)) ==> {
            &&& used == spec_model_used(bytes@)
            &&& used <= bytes@.len()
            &&& m.normal_mode == spec_attribute_mode(spec_le16(bytes@, 2))
            &&& m.texcoord_mode == spec_attribute_mode(spec_le16(bytes@, 4))
            &&& m.vertex_list@ == bytes@.subrange(8, spec_m_vend(bytes@))
            &&& m.default_normal == (if spec_le16(bytes@, 2) == 1 {
                (
                    spec_le16i(bytes@, spec_m_vend(bytes@)),
                    spec_le16i(bytes@, spec_m_vend(bytes@) + 2),
                    spec_le16i(bytes@, spec_m_vend(bytes@) + 4),
                )
            } else {
                (0i16, 0i16, 0i16)
            })
            &&& m.default_texcoord == (if spec_le16(bytes@, 4) == 1 {
                (spec_le16i(bytes@, spec_m_nend(bytes@)), spec_le16i(bytes@, spec_m_nend(bytes@) + 2))
            } else {
                (0i16, 0i16)
            })
            &&& m.index_list@ == (if spec_le16(bytes@, 6) == 1 {
                bytes@.subrange(spec_m_tend(bytes@) + 4, spec_model_used(bytes@))
            } else {
                Seq::<u8>::empty()
            })
        },
{
    let n = bytes.len();
    if n < 8 {
        return None;
    }
    let vertex_count = read_le16(bytes, 0);
    let normal_count = read_le16(bytes, 2);
    let texcoord_count = read_le16(bytes, 4);
    let index_list_count = read_le16(bytes, 6);
    let stride: usize = 6 + (if normal_count > 1 {
        6
    } else {
        0
    }) + (if texcoord_count > 1 {
        4
    } else {
        0
    });
    proof {
        assert((vertex_count as int) * (stride as int) <= 0xFFFF * 16) by (nonlinear_arith)
            requires
                vertex_count <= 0xFFFF,
                stride <= 16,
        ;
    }
    let vend: usize = 8 + (vertex_count as usize) * stride;
    if vend > n {
        return None;
    }
    let nend: usize = vend + (if normal_count == 1 {
        6
    } else {
        0
    });
    let tend: usize = nend + (if texcoord_count == 1 {
        4
    } else {
        0
    });
    if tend > n {
        return None;
    }
    let vertex_list = vstd::slice::slice_to_vec(slice_subrange(bytes, 8, vend));
    let default_normal: (i16, i16, i16) = if normal_count == 1 {
        (read_le16i(bytes, vend), read_le16i(bytes, vend + 2), read_le16i(bytes, vend + 4))
    } else {
        (0, 0, 0)
    };
    let default_texcoord: (i16, i16) = if texcoord_count == 1 {
        (read_le16i(bytes, nend), read_le16i(bytes, nend + 2))
    } else {
        (0, 0)
    };
    if index_list_count == 1 {
        if tend + 4 > n {
            return None;
        }
        if !(bytes[tend] == 4 && bytes[tend + 1] == 0) {
            return None;
        }
        let index_count = read_le16(bytes, tend + 2);
        let used = tend + 4 + index_count as usize;
        if used > n {
            return None;
        }
        let index_list = vstd::slice::slice_to_vec(slice_subrange(bytes, tend + 4, used));
        Some(
            (
                RawModel {
                    normal_mode: AttributeMode::from_count(normal_count),
                    texcoord_mode: AttributeMode::from_count(texcoord_count),
                    vertex_list,
                    default_normal,
                    default_texcoord,
                    index_list,
                },
                used,
            ),
        )
    } else {
        let index_list: Vec<u8> = Vec::new();
        proof {
            assert(index_list@ =~= Seq::<u8>::empty());
        }
        Some(
            (
                RawModel {
                    normal_mode: AttributeMode::from_count(normal_count),
                    texcoord_mode: AttributeMode::from_count(texcoord_count),
                    vertex_list,
                    default_normal,
                    default_texcoord,
                    index_list,
                },
                tend,
            ),
        )
    }
}

/// Whether `s` starts with a well-formed stored texture: size, the fixed
/// tag byte, valid format and wrap codes, and the padded pixel buffer.
pub open spec fn spec_texture_ok(s: Seq<u8>) -> bool {
    &&& s.len() >= 8
    &&& s[4] == 1
    &&& s[5] < 12
    &&& s[6] < 3
    &&& s[7] < 3
    &&& 8 + spec_texture_pixel_count(s) <= s.len()
}

/// The stored pixel byte count of the texture at the front of `s`.
pub open spec fn spec_texture_pixel_count(s: Seq<u8>) -> int {
    spec_padded_size(spec_le16(s, 0)) * spec_padded_size(spec_le16(s, 2)) * spec_bit_per_pixel(
        spec_format_from_code(s[5]),
    ) / 8
}

/// Parses the stored texture at the front of `bytes`: width, height, the
/// fixed tag, format and wrap codes, and the padded pixel bytes.  Returns
/// the texture and the bytes consumed; refuses exactly the buffers
/// `spec_texture_ok` refuses.
pub fn parse_texture(bytes: &[u8]) -> (r: Option<(RawTexture, usize)>)
    ensures
        r is Some <==> spec_texture_ok(bytes@),
        r matches Some((t, used)) ==> {
            &&& used == 8 + spec_texture_pixel_count(bytes@)
            &&& used <= bytes@.len()
            &&& t.width == spec_le16(bytes@, 0)
            &&& t.height == spec_le16(bytes@, 2)
            &&& t.format == spec_format_from_code(bytes@[5])
            &&& t.wrap_u == spec_wrap_from_code(bytes@[6])
            &&& t.wrap_v == spec_wrap_from_code(bytes@[7])
            &&& t.pixels@ == bytes@.subrange(8, 8 + spec_texture_pixel_count(bytes@))
            &&& t.wf()
        },
{
    let n = bytes.len();
    if n < 8 {
        return None;
    }
    let width = read_le16(bytes, 0);
    let height = read_le16(bytes, 2);
    if bytes[4] != 1 {
        return None;
    }
    let format = match TextureFormat::from_code(bytes[5]) {
        Some(f) => f,
        None => {
            return None;
        },
    };
    let wrap_u = match WrapMode::from_code(bytes[6]) {
        Some(w) => w,
        None => {
            return None;
        },
    };
    let wrap_v = match WrapMode::from_code(bytes[7]) {
        Some(w) => w,
        None => {
            return None;
        },
    };
    let wp = padded_size(width);
    let hp = padded_size(height);
    let bpp = format.bit_per_pixel();
    proof {
        assert((wp as int) * (hp as int) <= 0x100000000) by (nonlinear_arith)
            requires
                wp <= 0x10000,
                hp <= 0x10000,
        ;
        assert((wp as int) * (hp as int) * (bpp as int) <= 0x100000000 * 32) by (nonlinear_arith)
            requires
                (wp as int) * (hp as int) <= 0x100000000,
                bpp <= 32,
        ;
    }
    let npix64 = (wp as u64) * (hp as u64) * (bpp as u64) / 8;
    if 8 + npix64 > n as u64 {
        return None;
    }
    let npix = npix64 as usize;
    let pixels = vstd::slice::slice_to_vec(slice_subrange(bytes, 8, 8 + npix));
    Some((RawTexture { width, height, format, wrap_u, wrap_v, pixels }, 8 + npix))
}

} // verus!
verus! {

/// The stored offset of section `sec`'s header.
pub open spec fn spec_sec_off(s: Seq<u8>, sec: int) -> int {
    spec_le32(s, 4 + 4 * sec) as int
}

/// The number of items section header at `soff` declares.
pub open spec fn spec_item_count(s: Seq<u8>, soff: int) -> int {
    spec_le16(s, soff) as int
}

/// Entry `k` of the item-offset table of the section header at `soff`.
pub open spec fn spec_item_offset(s: Seq<u8>, soff: int, k: int) -> u32 {
    spec_le32(s, soff + 4 + 4 * k)
}

/// The item the stored offset value `v` of item `k` actually points at:
/// a nonzero top-ten-bit redirect field names another item, one-based.
pub open spec fn spec_item_target(v: u32, k: int) -> int {
    if v >> 22 != 0 {
        (v >> 22) - 1
    } else {
        k
    }
}

/// The data-chunk offset at which item `k`'s bytes begin.
pub open spec fn spec_item_begin(s: Seq<u8>, soff: int, k: int) -> int {
    (spec_item_offset(s, soff, spec_item_target(spec_item_offset(s, soff, k), k)) & 0x3FFFFF) as int
}

/// The data-chunk offset at which item `k`'s bytes end.
pub open spec fn spec_item_end(s: Seq<u8>, soff: int, k: int) -> int {
    (spec_item_offset(s, soff, spec_item_target(spec_item_offset(s, soff, k), k) + 1)
        & 0x3FFFFF) as int
}

/// Redirect resolution: an item whose stored offset redirects to item `k`
/// resolves to exactly the byte range of item `k` itself, provided item
/// `k` is a direct item.  (A redirect pointing at another redirect instead
/// adopts the target's stored low bits without following it further.)
pub proof fn lemma_redirect_resolution(s: Seq<u8>, soff: int, j: int, k: int)
    requires
        k >= 0,
        spec_item_offset(s, soff, j) >> 22 == k + 1,
        spec_item_offset(s, soff, k) >> 22 == 0,
    ensures
        spec_item_begin(s, soff, j) == spec_item_begin(s, soff, k),
        spec_item_end(s, soff, j) == spec_item_end(s, soff, k),
{
}

/// The fixed byte prefix of a stored model item in section `sec`: the
/// face-configuration record in the face section, a fixed skip in the
/// hair section, nothing elsewhere.
pub open spec fn spec_sec_prefix(sec: int) -> int {
    if sec == 2 {
        36
    } else if sec == 5 {
        0x48
    } else {
        0
    }
}

/// The stored index-stream length of the model at the front of `s`.
pub open spec fn spec_index_len(s: Seq<u8>) -> int {
    if spec_le16(s, 6) == 1 {
        spec_le16(s, spec_m_tend(s) + 2) as int
    } else {
        0
    }
}

/// Whether a non-empty item's bytes are acceptable for section `sec`:
/// texture sections take a stored texture with under four trailing bytes;
/// model sections take their fixed prefix and a stored model, with under
/// four trailing bytes, except that the face-canvas section expects its
/// cover data, tolerated up to three extra bytes.
pub open spec fn spec_item_body_ok(item: Seq<u8>, sec: int) -> bool {
    if sec >= 9 {
        &&& spec_texture_ok(item)
        &&& item.len() - (8 + spec_texture_pixel_count(item)) < 4
    } else {
        let pre = spec_sec_prefix(sec);
        let body = item.skip(pre);
        &&& item.len() >= pre
        &&& spec_model_ok(body)
        &&& {
            let rest = body.len() - spec_model_used(body);
            if sec == 6 {
                let cover = spec_index_len(body) / 3 * 2;
                &&& rest >= cover
                &&& rest < cover + 4
            } else {
                rest < 4
            }
        }
    }
}

/// Whether item `k` of the section at `soff` is acceptable: the redirect
/// target in range, an ordered byte range inside the buffer, and, when the
/// range is non-empty, an acceptable item body.
pub open spec fn spec_item_ok(s: Seq<u8>, sec: int, soff: int, k: int) -> bool {
    let ic = spec_item_count(s, soff);
    let chunk = soff + 8 + 4 * ic;
    let v = spec_item_offset(s, soff, k);
    let b = spec_item_begin(s, soff, k);
    let e = spec_item_end(s, soff, k);
    &&& (v >> 22 != 0 ==> v >> 22 <= ic)
    &&& b <= e
    &&& chunk + e <= s.len()
    &&& (b == e || spec_item_body_ok(s.subrange(chunk + b, chunk + e), sec))
}

/// Whether section `sec` is acceptable: its header and item-offset table
/// in bounds, and every declared item acceptable.
pub open spec fn spec_section_ok(s: Seq<u8>, sec: int) -> bool {
    let soff = spec_sec_off(s, sec);
    &&& soff + 4 <= s.len()
    &&& soff + 8 + 4 * spec_item_count(s, soff) <= s.len()
    &&& forall|k: int| 0 <= k < spec_item_count(s, soff) ==> spec_item_ok(s, sec, soff, k)
}

/// Whether the whole container is acceptable: a header declaring the
/// twenty fixed sections, and every section acceptable.  Any violation
/// anywhere makes the whole container unreadable.
pub open spec fn spec_asset_ok(s: Seq<u8>) -> bool {
    &&& s.len() >= 84
    &&& spec_le16(s, 0) == 20
    &&& forall|sec: int| 0 <= sec < 20 ==> spec_section_ok(s, sec)
}

/// The decoded model slot `k` of a model section: an empty byte range is
/// an empty slot; otherwise the slot holds the baked model of the item's
/// stored model stream.
pub open spec fn spec_model_slot_ok(
    s: Seq<u8>,
    sec: int,
    soff: int,
    k: int,
    slot: Option<Model>,
) -> bool {
    let chunk = soff + 8 + 4 * spec_item_count(s, soff);
    let b = spec_item_begin(s, soff, k);
    let e = spec_item_end(s, soff, k);
    if b == e {
        slot is None
    } else {
        let item = s.subrange(chunk + b, chunk + e);
        let body = item.skip(spec_sec_prefix(sec));
        let nm = spec_attribute_mode(spec_le16(body, 2));
        let tm = spec_attribute_mode(spec_le16(body, 4));
        &&& slot matches Some(m)
        &&& slot->Some_0.vertex_data@ == body.subrange(8, spec_m_vend(body))
        &&& slot->Some_0.index_data@ == (if spec_le16(body, 6) == 1 {
            body.subrange(spec_m_tend(body) + 4, spec_model_used(body))
        } else {
            Seq::<u8>::empty()
        })
        &&& slot->Some_0.stride == spec_model_stride(nm, tm)
        &&& slot->Some_0.attribute_map@ == spec_attribute_map(
            nm,
            tm,
            (if spec_le16(body, 2) == 1 {
                (
                    spec_le16i(body, spec_m_vend(body)),
                    spec_le16i(body, spec_m_vend(body) + 2),
                    spec_le16i(body, spec_m_vend(body) + 4),
                )
            } else {
                (0i16, 0i16, 0i16)
            }),
            (if spec_le16(body, 4) == 1 {
                (spec_le16i(body, spec_m_nend(body)), spec_le16i(body, spec_m_nend(body) + 2))
            } else {
                (0i16, 0i16)
            }),
        )
    }
}

/// The decoded texture slot `k` of a texture section: an empty byte range
/// is an empty slot; otherwise the slot holds the decoded RGBA8 image of
/// the item's stored texture.
pub open spec fn spec_texture_slot_ok(s: Seq<u8>, soff: int, k: int, slot: Option<Texture>) -> bool {
    let chunk = soff + 8 + 4 * spec_item_count(s, soff);
    let b = spec_item_begin(s, soff, k);
    let e = spec_item_end(s, soff, k);
    if b == e {
        slot is None
    } else {
        let item = s.subrange(chunk + b, chunk + e);
        &&& slot matches Some(t)
        &&& slot->Some_0.width == spec_le16(item, 0)
        &&& slot->Some_0.height == spec_le16(item, 2)
        &&& slot->Some_0.wrap_u == spec_wrap_from_code(item[6])
        &&& slot->Some_0.wrap_v == spec_wrap_from_code(item[7])
        &&& slot->Some_0.rgba@ == spec_texture_decode(
            spec_format_from_code(item[5]),
            spec_le16(item, 0) as int,
            spec_le16(item, 2) as int,
            spec_padded_size(spec_le16(item, 0)),
            item.subrange(8, 8 + spec_texture_pixel_count(item)),
        )
    }
}

/// The face-configuration slot `k` of the face section: empty slots for
/// empty ranges, else the stored record at the front of the item.
pub open spec fn spec_face_slot_ok(s: Seq<u8>, soff: int, k: int, slot: Option<FaceConfig>) -> bool {
    let chunk = soff + 8 + 4 * spec_item_count(s, soff);
    let b = spec_item_begin(s, soff, k);
    let e = spec_item_end(s, soff, k);
    if b == e {
        slot is None
    } else {
        &&& slot matches Some(c)
        &&& slot->Some_0 == spec_face_config(s.subrange(chunk + b, chunk + e))
    }
}

/// A fully decoded model list for section `sec`.
pub open spec fn spec_model_list_ok(s: Seq<u8>, sec: int, list: Seq<Option<Model>>) -> bool {
    let soff = spec_sec_off(s, sec);
    &&& list.len() == spec_item_count(s, soff)
    &&& forall|k: int| 0 <= k < list.len() ==> spec_model_slot_ok(s, sec, soff, k, list[k])
}

/// A fully decoded texture list for section `sec`.
pub open spec fn spec_texture_list_ok(s: Seq<u8>, sec: int, list: Seq<Option<Texture>>) -> bool {
    let soff = spec_sec_off(s, sec);
    &&& list.len() == spec_item_count(s, soff)
    &&& forall|k: int| 0 <= k < list.len() ==> spec_texture_slot_ok(s, soff, k, list[k])
}

/// A fully decoded face-configuration list.
pub open spec fn spec_face_list_ok(s: Seq<u8>, list: Seq<Option<FaceConfig>>) -> bool {
    let soff = spec_sec_off(s, 2);
    &&& list.len() == spec_item_count(s, soff)
    &&& forall|k: int| 0 <= k < list.len() ==> spec_face_slot_ok(s, soff, k, list[k])
}

} // verus!
verus! {

/// Decodes one model section: every declared item, following redirects,
/// with the face section also collecting its configuration records.
/// Refuses exactly the sections `spec_section_ok` refuses.
#[verifier::loop_isolation(false)]
#[verifier::rlimit(100)]
fn parse_model_section(bytes: &[u8], sec: usize) -> (r: Option<
    (Vec<Option<Model>>, Vec<Option<FaceConfig>>),
>)
    requires
        sec < 9,
        bytes@.len() >= 84,
    ensures
        r is Some <==> spec_section_ok(bytes@, sec as int),
        r matches Some((list, fcs)) ==> {
            &&& spec_model_list_ok(bytes@, sec as int, list@)
            &&& (sec == 2 ==> spec_face_list_ok(bytes@, fcs@))
            &&& (sec != 2 ==> fcs@.len() == 0)
        },
{
    let n = bytes.len();
    let n64 = n as u64;
    let soff64 = read_le32(bytes, 4 + 4 * sec) as u64;
    if soff64 + 4 > n64 {
        return None;
    }
    let soff = soff64 as usize;
    let ic = read_le16(bytes, soff) as usize;
    if soff64 + 8 + 4 * (ic as u64) > n64 {
        return None;
    }
    let table = soff + 4;
    let chunk = soff + 8 + 4 * ic;
    let mut list: Vec<Option<Model>> = Vec::new();
    let mut fcs: Vec<Option<FaceConfig>> = Vec::new();
    let mut k: usize = 0;
    while k < ic
        invariant
            k <= ic,
            list@.len() == k,
            fcs@.len() == (if sec == 2 {
                k as int
            } else {
                0int
            }),
            forall|j: int| 0 <= j < k ==> spec_item_ok(bytes@, sec as int, soff as int, j),
            forall|j: int|
                0 <= j < k ==> spec_model_slot_ok(bytes@, sec as int, soff as int, j, list@[j]),
            sec == 2 ==> forall|j: int|
                0 <= j < k ==> spec_face_slot_ok(bytes@, soff as int, j, fcs@[j]),
        decreases ic - k,
    {
        let v = read_le32(bytes, table + 4 * k);
        let rd = v >> 22u32;
        let t: usize = if rd != 0 {
            if rd as usize > ic {
                proof {
                    assert(!spec_item_ok(bytes@, sec as int, soff as int, k as int));
                }
                return None;
            }
            (rd - 1) as usize
        } else {
            k
        };
        let b = (read_le32(bytes, table + 4 * t) & 0x3FFFFF) as usize;
        let e = (read_le32(bytes, table + 4 * (t + 1)) & 0x3FFFFF) as usize;
        proof {
            assert(b == spec_item_begin(bytes@, soff as int, k as int));
            assert(e == spec_item_end(bytes@, soff as int, k as int));
        }
        if b > e {
            proof {
                assert(!spec_item_ok(bytes@, sec as int, soff as int, k as int));
                assert(!spec_section_ok(bytes@, sec as int));
            }
            return None;
        }
        if (chunk as u64) + (e as u64) > n64 {
            proof {
                assert(!spec_item_ok(bytes@, sec as int, soff as int, k as int));
                assert(!spec_section_ok(bytes@, sec as int));
            }
            return None;
        }
        if b == e {
            list.push(None);
            if sec == 2 {
                fcs.push(None);
            }
        } else {
            let item = slice_subrange(bytes, chunk + b, chunk + e);
            let pre: usize = if sec == 2 {
                36
            } else if sec == 5 {
                0x48
            } else {
                0
            };
            if item.len() < pre {
            proof {
                assert(!spec_item_ok(bytes@, sec as int, soff as int, k as int));
                assert(!spec_section_ok(bytes@, sec as int));
            }
                return None;
            }
            if sec == 2 {
                match parse_face_config(item) {
                    None => {
            proof {
                assert(!spec_item_ok(bytes@, sec as int, soff as int, k as int));
                assert(!spec_section_ok(bytes@, sec as int));
            }
                        return None;
                    },
                    Some(c) => {
                        fcs.push(Some(c));
                    },
                }
            }
            let body = slice_subrange(item, pre, item.len());
            proof {
                assert(body@ =~= item@.skip(pre as int));
            }
            match parse_model(body) {
                None => {
            proof {
                assert(!spec_item_ok(bytes@, sec as int, soff as int, k as int));
                assert(!spec_section_ok(bytes@, sec as int));
            }
                    return None;
                },
                Some((m, used)) => {
                    let rest = body.len() - used;
                    proof {
                        assert(m.index_list@.len() == spec_index_len(item@.skip(pre as int)));
                    }
                    if sec == 6 {
                        let cover = m.index_list.len() / 3 * 2;
                        if rest < cover || rest >= cover + 4 {
            proof {
                assert(!spec_item_ok(bytes@, sec as int, soff as int, k as int));
                assert(!spec_section_ok(bytes@, sec as int));
            }
                            return None;
                        }
                    } else {
                        if rest >= 4 {
            proof {
                assert(!spec_item_ok(bytes@, sec as int, soff as int, k as int));
                assert(!spec_section_ok(bytes@, sec as int));
            }
                            return None;
                        }
                    }
                    let baked = m.bake();
                    list.push(Some(baked));
                    proof {
                        assert(spec_item_ok(bytes@, sec as int, soff as int, k as int));
                        assert(spec_model_slot_ok(
                            bytes@,
                            sec as int,
                            soff as int,
                            k as int,
                            Some(baked),
                        ));
                    }
                },
            }
        }
        k = k + 1;
    }
    Some((list, fcs))
}

/// Decodes one texture section: every declared item, following redirects.
/// Refuses exactly the sections `spec_section_ok` refuses.
#[verifier::loop_isolation(false)]
#[verifier::rlimit(100)]
fn parse_texture_section(bytes: &[u8], sec: usize) -> (r: Option<Vec<Option<Texture>>>)
    requires
        9 <= sec < 20,
        bytes@.len() >= 84,
    ensures
        r is Some <==> spec_section_ok(bytes@, sec as int),
        r matches Some(list) ==> spec_texture_list_ok(bytes@, sec as int, list@),
{
    let n = bytes.len();
    let n64 = n as u64;
    let soff64 = read_le32(bytes, 4 + 4 * sec) as u64;
    if soff64 + 4 > n64 {
        return None;
    }
    let soff = soff64 as usize;
    let ic = read_le16(bytes, soff) as usize;
    if soff64 + 8 + 4 * (ic as u64) > n64 {
        return None;
    }
    let table = soff + 4;
    let chunk = soff + 8 + 4 * ic;
    let mut list: Vec<Option<Texture>> = Vec::new();
    let mut k: usize = 0;
    while k < ic
        invariant
            k <= ic,
            list@.len() == k,
            forall|j: int| 0 <= j < k ==> spec_item_ok(bytes@, sec as int, soff as int, j),
            forall|j: int| 0 <= j < k ==> spec_texture_slot_ok(bytes@, soff as int, j, list@[j]),
        decreases ic - k,
    {
        let v = read_le32(bytes, table + 4 * k);
        let rd = v >> 22u32;
        let t: usize = if rd != 0 {
            if rd as usize > ic {
                proof {
                    assert(!spec_item_ok(bytes@, sec as int, soff as int, k as int));
                }
                return None;
            }
            (rd - 1) as usize
        } else {
            k
        };
        let b = (read_le32(bytes, table + 4 * t) & 0x3FFFFF) as usize;
        let e = (read_le32(bytes, table + 4 * (t + 1)) & 0x3FFFFF) as usize;
        proof {
            assert(b == spec_item_begin(bytes@, soff as int, k as int));
            assert(e == spec_item_end(bytes@, soff as int, k as int));
        }
        if b > e {
            proof {
                assert(!spec_item_ok(bytes@, sec as int, soff as int, k as int));
                assert(!spec_section_ok(bytes@, sec as int));
            }
            return None;
        }
        if (chunk as u64) + (e as u64) > n64 {
            proof {
                assert(!spec_item_ok(bytes@, sec as int, soff as int, k as int));
                assert(!spec_section_ok(bytes@, sec as int));
            }
            return None;
        }
        if b == e {
            list.push(None);
        } else {
            let item = slice_subrange(bytes, chunk + b, chunk + e);
            match parse_texture(item) {
                None => {
            proof {
                assert(!spec_item_ok(bytes@, sec as int, soff as int, k as int));
                assert(!spec_section_ok(bytes@, sec as int));
            }
                    return None;
                },
                Some((tex, used)) => {
                    if item.len() - used >= 4 {
            proof {
                assert(!spec_item_ok(bytes@, sec as int, soff as int, k as int));
                assert(!spec_section_ok(bytes@, sec as int));
            }
                        return None;
                    }
                    let baked = tex.bake();
                    list.push(Some(baked));
                    proof {
                        assert(spec_item_ok(bytes@, sec as int, soff as int, k as int));
                        assert(spec_texture_slot_ok(
                            bytes@,
                            soff as int,
                            k as int,
                            Some(baked),
                        ));
                    }
                },
            }
        }
        k = k + 1;
    }
    Some(list)
}

/// The fully decoded resource container: twenty fixed lists of optional
/// decoded items, dispatched by section position, plus the face
/// configurations collected alongside the face models.
pub struct Asset {
    pub version: u16,
    pub beard_models: Vec<Option<Model>>,
    pub accessory_models: Vec<Option<Model>>,
    pub face_models: Vec<Option<Model>>,
    pub scalp_models: Vec<Option<Model>>,
    pub glass_models: Vec<Option<Model>>,
    pub hair_models: Vec<Option<Model>>,
    pub face_canvas_models: Vec<Option<Model>>,
    pub nose_canvas_models: Vec<Option<Model>>,
    pub nose_models: Vec<Option<Model>>,
    pub accessory_textures: Vec<Option<Texture>>,
    pub eye_textures: Vec<Option<Texture>>,
    pub eyebrow_textures: Vec<Option<Texture>>,
    pub beard_textures: Vec<Option<Texture>>,
    pub wrinkle_textures: Vec<Option<Texture>>,
    pub makeup_textures: Vec<Option<Texture>>,
    pub glass_textures: Vec<Option<Texture>>,
    pub mole_textures: Vec<Option<Texture>>,
    pub lip_textures: Vec<Option<Texture>>,
    pub mustache_textures: Vec<Option<Texture>>,
    pub nose_textures: Vec<Option<Texture>>,
    pub face_configs: Vec<Option<FaceConfig>>,
}

impl Asset {
    /// Decodes a whole resource container, or refuses it as a whole: the
    /// result is full exactly when the bytes satisfy `spec_asset_ok`, and
    /// then every list decodes its section as the slot relations state.
    #[verifier::spinoff_prover]
    #[verifier::rlimit(100)]
    pub fn from_bytes(bytes: &[u8]) -> (r: Option<Asset>)
        ensures
            r is Some <==> spec_asset_ok(bytes@),
            r matches Some(a) ==> {
                &&& a.version == spec_le16(bytes@, 2)
                &&& spec_model_list_ok(bytes@, 0, a.beard_models@)
                &&& spec_model_list_ok(bytes@, 1, a.accessory_models@)
                &&& spec_model_list_ok(bytes@, 2, a.face_models@)
                &&& spec_model_list_ok(bytes@, 3, a.scalp_models@)
                &&& spec_model_list_ok(bytes@, 4, a.glass_models@)
                &&& spec_model_list_ok(bytes@, 5, a.hair_models@)
                &&& spec_model_list_ok(bytes@, 6, a.face_canvas_models@)
                &&& spec_model_list_ok(bytes@, 7, a.nose_canvas_models@)
                &&& spec_model_list_ok(bytes@, 8, a.nose_models@)
                &&& spec_texture_list_ok(bytes@, 9, a.accessory_textures@)
                &&& spec_texture_list_ok(bytes@, 10, a.eye_textures@)
                &&& spec_texture_list_ok(bytes@, 11, a.eyebrow_textures@)
                &&& spec_texture_list_ok(bytes@, 12, a.beard_textures@)
                &&& spec_texture_list_ok(bytes@, 13, a.wrinkle_textures@)
                &&& spec_texture_list_ok(bytes@, 14, a.makeup_textures@)
                &&& spec_texture_list_ok(bytes@, 15, a.glass_textures@)
                &&& spec_texture_list_ok(bytes@, 16, a.mole_textures@)
                &&& spec_texture_list_ok(bytes@, 17, a.lip_textures@)
                &&& spec_texture_list_ok(bytes@, 18, a.mustache_textures@)
                &&& spec_texture_list_ok(bytes@, 19, a.nose_textures@)
                &&& spec_face_list_ok(bytes@, a.face_configs@)
            },
    {
        let n = bytes.len();
        if n < 84 {
            return None;
        }
        let section_count = read_le16(bytes, 0);
        if section_count != 20 {
            return None;
        }
        let version = read_le16(bytes, 2);
        let (beard_models, _no_fcs0) = match parse_model_section(bytes, 0) {
            None => {
                return None;
            },
            Some(x) => x,
        };
        let (accessory_models, _no_fcs1) = match parse_model_section(bytes, 1) {
            None => {
                return None;
            },
            Some(x) => x,
        };
        let (face_models, face_configs) = match parse_model_section(bytes, 2) {
            None => {
                return None;
            },
            Some(x) => x,
        };
        let (scalp_models, _no_fcs3) = match parse_model_section(bytes, 3) {
            None => {
                return None;
            },
            Some(x) => x,
        };
        let (glass_models, _no_fcs4) = match parse_model_section(bytes, 4) {
            None => {
                return None;
            },
            Some(x) => x,
        };
        let (hair_models, _no_fcs5) = match parse_model_section(bytes, 5) {
            None => {
                return None;
            },
            Some(x) => x,
        };
        let (face_canvas_models, _no_fcs6) = match parse_model_section(bytes, 6) {
            None => {
                return None;
            },
            Some(x) => x,
        };
        let (nose_canvas_models, _no_fcs7) = match parse_model_section(bytes, 7) {
            None => {
                return None;
            },
            Some(x) => x,
        };
        let (nose_models, _no_fcs8) = match parse_model_section(bytes, 8) {
            None => {
                return None;
            },
            Some(x) => x,
        };
        let accessory_textures = match parse_texture_section(bytes, 9) {
            None => {
                return None;
            },
            Some(x) => x,
        };
        let eye_textures = match parse_texture_section(bytes, 10) {
            None => {
                return None;
            },
            Some(x) => x,
        };
        let eyebrow_textures = match parse_texture_section(bytes, 11) {
            None => {
                return None;
            },
            Some(x) => x,
        };
        let beard_textures = match parse_texture_section(bytes, 12) {
            None => {
                return None;
            },
            Some(x) => x,
        };
        let wrinkle_textures = match parse_texture_section(bytes, 13) {
            None => {
                return None;
            },
            Some(x) => x,
        };
        let makeup_textures = match parse_texture_section(bytes, 14) {
            None => {
                return None;
            },
            Some(x) => x,
        };
        let glass_textures = match parse_texture_section(bytes, 15) {
            None => {
                return None;
            },
            Some(x) => x,
        };
        let mole_textures = match parse_texture_section(bytes, 16) {
            None => {
                return None;
            },
            Some(x) => x,
        };
        let lip_textures = match parse_texture_section(bytes, 17) {
            None => {
                return None;
            },
            Some(x) => x,
        };
        let mustache_textures = match parse_texture_section(bytes, 18) {
            None => {
                return None;
            },
            Some(x) => x,
        };
        let nose_textures = match parse_texture_section(bytes, 19) {
            None => {
                return None;
            },
            Some(x) => x,
        };
        Some(
            Asset {
                version,
                beard_models,
                accessory_models,
                face_models,
                scalp_models,
                glass_models,
                hair_models,
                face_canvas_models,
                nose_canvas_models,
                nose_models,
                accessory_textures,
                eye_textures,
                eyebrow_textures,
                beard_textures,
                wrinkle_textures,
                makeup_textures,
                glass_textures,
                mole_textures,
                lip_textures,
                mustache_textures,
                nose_textures,
                face_configs,
            },
        )
    }
}

} // verus!
verus! {

/// The decoded image of an even-width texture holds exactly
/// `width * height * 4` bytes: four bytes per texel, in raster order.
pub proof fn lemma_decode_len(
    fmt: TextureFormat,
    width: int,
    height: int,
    wp: int,
    pixels: Seq<u8>,
)
    requires
        width >= 0,
        height >= 0,
        width % 2 == 0,
    ensures
        spec_texture_decode(fmt, width, height, wp, pixels).len() == width * height * 4,
{
    let pc = (width + 1) / 2;
    lemma_fundamental_div_mod(width, 2);
    lemma_fundamental_div_mod_converse(width + 1, 2, width / 2, 1);
    assert(width == 2 * pc);
    assert(height * pc * 8 == width * height * 4) by (nonlinear_arith)
        requires
            width == 2 * pc,
    ;
}

} // verus!
