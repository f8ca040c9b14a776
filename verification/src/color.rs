//! Colours, and their mapping to bytes.

use vstd::prelude::*;
use vstd::arithmetic::power2::{pow2, lemma2_to64, lemma_pow2_adds, lemma_pow2_pos, lemma_pow2_strictly_increases};
use vstd::arithmetic::div_mod::{lemma_basic_div, lemma_div_multiples_vanish_quotient};
use crate::scalar::Scalar;

verus! {

/// The bit pattern of 1.0.
pub const ONE_BITS: u32 = 0x3f80_0000;

/// The bit pattern of 0.999, the largest channel value that is mapped to a
/// byte as it is.
pub const CEILING_BITS: u32 = 0x3f7f_be77;

/// Radiance, or a reflectance, in red, green and blue.
#[derive(Clone, Copy, Debug)]
pub struct Color {
    pub r: Scalar,
    pub g: Scalar,
    pub b: Scalar,
}

impl Color {
    pub fn new(r: Scalar, g: Scalar, b: Scalar) -> (c: Color)
        ensures
            c == (Color { r, g, b }),
    {
        Color { r, g, b }
    }
}

/// No light at all.
pub open spec fn spec_black() -> Color {
    Color { r: Scalar { bits: 0 }, g: Scalar { bits: 0 }, b: Scalar { bits: 0 } }
}

/// Full light in every channel.
pub open spec fn spec_white() -> Color {
    Color { r: Scalar { bits: ONE_BITS }, g: Scalar { bits: ONE_BITS }, b: Scalar { bits: ONE_BITS } }
}

#[verifier::when_used_as_spec(spec_black)]
pub fn black() -> (c: Color)
    ensures
        c == spec_black(),
{
    Color { r: Scalar { bits: 0 }, g: Scalar { bits: 0 }, b: Scalar { bits: 0 } }
}

#[verifier::when_used_as_spec(spec_white)]
pub fn white() -> (c: Color)
    ensures
        c == spec_white(),
{
    Color { r: Scalar { bits: ONE_BITS }, g: Scalar { bits: ONE_BITS }, b: Scalar { bits: ONE_BITS } }
}

/// The channel value that is mapped to a byte: `x` held between 0 and 0.999.
pub open spec fn held(x: Scalar) -> Scalar {
    x.clamp(Scalar { bits: 0 }, Scalar { bits: CEILING_BITS })
}

/// The byte for one channel: 256 times the held value, rounded down. A NaN
/// gives 0.
pub open spec fn quantized(x: Scalar) -> int {
    if held(x).is_nan() {
        0
    } else {
        (256 * held(x).units()) / (pow2(149) as int)
    }
}

proof fn lemma_shift_cancels(sig: int, e: nat)
    requires
        0 <= sig,
        1 <= e <= 126,
    ensures
        (256 * (sig * pow2((e - 1) as nat))) / (pow2(149) as int) == sig / (pow2((142 - e) as nat) as int),
{
    let low = pow2((e + 7) as nat) as int;
    let high = pow2((142 - e) as nat) as int;
    lemma2_to64();
    lemma_pow2_adds(8, (e - 1) as nat);
    lemma_pow2_adds((e + 7) as nat, (142 - e) as nat);
    lemma_pow2_pos((e + 7) as nat);
    lemma_pow2_pos((142 - e) as nat);
    assert(256 * (sig * pow2((e - 1) as nat)) == low * sig) by (nonlinear_arith)
        requires
            low == 256 * pow2((e - 1) as nat),
    ;
    assert(pow2(149) as int == low * high);
    lemma_div_multiples_vanish_quotient(low, sig, high);
}

/// One channel as a byte.
pub fn quantize(x: Scalar) -> (byte: u8)
    ensures
        byte == quantized(x),
{
    let c: Scalar = x.clamp(Scalar { bits: 0 }, Scalar { bits: CEILING_BITS });
    if c.is_nan() {
        return 0;
    }
    assert(c.magnitude() <= CEILING_BITS);
    let m: u32 = if c.bits >= 0x8000_0000 {
        c.bits - 0x8000_0000
    } else {
        c.bits
    };
    let e: u32 = m / 0x80_0000;
    let f: u32 = m % 0x80_0000;
    assert(e <= 126);
    proof {
        lemma2_to64();
        lemma_pow2_pos(149);
    }
    if e == 0 {
        proof {
            lemma_pow2_strictly_increases(31, 149);
            lemma_basic_div(256 * (f as int), pow2(149) as int);
        }
        return 0;
    }
    let sig: u32 = 0x80_0000 + f;
    proof {
        lemma_shift_cancels(sig as int, e as nat);
    }
    if e < 119 {
        proof {
            if e < 118 {
                lemma_pow2_strictly_increases(24, (142 - e) as nat);
            }
            lemma_basic_div(sig as int, pow2((142 - e) as nat) as int);
        }
        return 0;
    }
    let divisor: u32 = if e == 119 {
        0x80_0000
    } else if e == 120 {
        0x40_0000
    } else if e == 121 {
        0x20_0000
    } else if e == 122 {
        0x10_0000
    } else if e == 123 {
        0x8_0000
    } else if e == 124 {
        0x4_0000
    } else if e == 125 {
        0x2_0000
    } else {
        0x1_0000
    };
    assert(divisor == pow2((142 - e) as nat));
    let q: u32 = sig / divisor;
    assert(q < 256);
    q as u8
}

/// The three channels as bytes: red, green, blue.
pub fn map_color_256(color: Color) -> (bytes: (u8, u8, u8))
    ensures
        bytes.0 == quantized(color.r),
        bytes.1 == quantized(color.g),
        bytes.2 == quantized(color.b),
{
    (quantize(color.r), quantize(color.g), quantize(color.b))
}

} // verus!
