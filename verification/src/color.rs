//! Colours, and how a colour becomes a line of the image.
use crate::interval::Interval;
use crate::scalar::Scalar;
use crate::vec3::Vec3;
use vstd::arithmetic::power2::{lemma2_to64, lemma2_to64_rest, lemma_pow2_strictly_increases, pow2};
use vstd::prelude::*;

verus! {

pub type Color = Vec3;

/// The pattern of `0.999`, the largest intensity that is written.
pub const MAX_INTENSITY_BITS: u64 = 0x3FEF_F7CE_D916_872B;

/// The range of intensities that is written: `[0, 0.999]`.
pub open spec fn intensity() -> Interval {
    Interval { min: Scalar { bits: 0 }, max: Scalar { bits: MAX_INTENSITY_BITS } }
}

/// Gamma 2: the square root `root` of a positive linear component, and zero
/// for any other.
pub open spec fn spec_linear_to_gamma(linear_component: Scalar, root: Scalar) -> Scalar {
    if (Scalar { bits: 0 }).below(linear_component) {
        root
    } else {
        Scalar { bits: 0 }
    }
}

/// The level from 0 to 255 at which a gamma-corrected component is written:
/// the component clamped to `[0, 0.999]`, times 256, rounded toward zero.
pub open spec fn level(component: Scalar) -> int {
    intensity().spec_clamp(component).truncated(8)
}

/// The decimal digits of a number, as ASCII.
pub open spec fn decimal(n: nat) -> Seq<u8>
    decreases n,
{
    if n < 10 {
        seq![(48 + n) as u8]
    } else {
        decimal(n / 10).push((48 + n % 10) as u8)
    }
}

/// A number in decimal, with a minus sign before a negative one.
pub open spec fn signed_decimal(n: int) -> Seq<u8> {
    if n < 0 {
        seq![45u8] + decimal((-n) as nat)
    } else {
        decimal(n as nat)
    }
}

/// One line of the image: three levels separated by single spaces, and a
/// line feed.
pub open spec fn pixel_line(r: int, g: int, b: int) -> Seq<u8> {
    signed_decimal(r) + seq![32u8] + signed_decimal(g) + seq![32u8] + signed_decimal(b) + seq![
        10u8,
    ]
}

/// The line that a colour is written as, given the colour and the square
/// roots of its components.
pub open spec fn color_line(pixel_color: Color, roots: Color) -> Seq<u8> {
    pixel_line(
        level(spec_linear_to_gamma(pixel_color.0, roots.0)),
        level(spec_linear_to_gamma(pixel_color.1, roots.1)),
        level(spec_linear_to_gamma(pixel_color.2, roots.2)),
    )
}

/// The gamma-corrected value of a linear component whose square root the
/// caller has taken.
pub fn linear_to_gamma(linear_component: Scalar, root: Scalar) -> (r: Scalar)
    ensures
        r == spec_linear_to_gamma(linear_component, root),
{
    if linear_component.gt(&Scalar::zero()) {
        root
    } else {
        Scalar::zero()
    }
}

/// The level at which a gamma-corrected component is written.
pub fn quantize(component: Scalar) -> (r: u8)
    ensures
        r == level(component),
{
    let range = Interval::new(Scalar::zero(), Scalar::from_bits(MAX_INTENSITY_BITS));
    let clamped = range.clamp(component);
    proof {
        lemma_level_in_range(component);
    }
    let whole: i32 = clamped.truncate_scaled(8);
    whole as u8
}

/// Appends the decimal digits of `n`.
pub fn push_decimal(out: &mut Vec<u8>, n: u32)
    ensures
        final(out)@ == old(out)@ + decimal(n as nat),
    decreases n,
{
    if n >= 10 {
        push_decimal(out, n / 10);
    }
    let digit: u8 = (n % 10) as u8;
    out.push(48 + digit);
    assert(final(out)@ =~= old(out)@ + decimal(n as nat));
}

/// Appends `n` in decimal, with a minus sign if it is negative.
pub fn push_signed_decimal(out: &mut Vec<u8>, n: i32)
    ensures
        final(out)@ == old(out)@ + signed_decimal(n as int),
{
    if n < 0 {
        out.push(45);
        let magnitude: u32 = (-(n as i64)) as u32;
        push_decimal(out, magnitude);
        assert(final(out)@ =~= old(out)@ + signed_decimal(n as int));
    } else {
        push_decimal(out, n as u32);
    }
}

/// Appends the line of one pixel: the levels of its gamma-corrected
/// components. `roots` holds the square roots of the components of
/// `pixel_color`.
pub fn write_color(out: &mut Vec<u8>, pixel_color: &Color, roots: &Color)
    ensures
        final(out)@ == old(out)@ + color_line(*pixel_color, *roots),
{
    let r = linear_to_gamma(pixel_color.x(), roots.x());
    let g = linear_to_gamma(pixel_color.y(), roots.y());
    let b = linear_to_gamma(pixel_color.z(), roots.z());

    let rbyte: u8 = quantize(r);
    let gbyte: u8 = quantize(g);
    let bbyte: u8 = quantize(b);

    push_decimal(out, rbyte as u32);
    out.push(32);
    push_decimal(out, gbyte as u32);
    out.push(32);
    push_decimal(out, bbyte as u32);
    out.push(10);
    assert(final(out)@ =~= old(out)@ + color_line(*pixel_color, *roots));
}

/// Every level lies between 0 and 255.
pub proof fn lemma_level_in_range(component: Scalar)
    ensures
        0 <= level(component) <= 255,
{
    let c = intensity().spec_clamp(component);
    if !c.nan() {
        // The clamped value is a number between zero and 0.999.
        assert(c.magnitude() <= MAX_INTENSITY_BITS || c.nan());
        assert(c.sign() ==> c.magnitude() == 0);
        lemma_floor_below_one(c);
    }
}

/// A number of magnitude below one, times 256, has an integer part below 256;
/// zero has integer part zero.
proof fn lemma_floor_below_one(c: Scalar)
    requires
        c.magnitude() < crate::scalar::ONE_BITS,
    ensures
        c.floor_scaled(8) <= 255,
        c.magnitude() == 0 ==> c.floor_scaled(8) == 0,
{
    lemma2_to64();
    lemma2_to64_rest();
    let e = c.exponent() + 8;
    assert(c.exponent_field() <= 1022);
    assert(e <= -45);
    let shift = (-e) as nat;
    let sig = c.significand();
    assert(sig < 0x20_0000_0000_0000);
    if shift > 45 {
        lemma_pow2_strictly_increases(45, shift);
    }
    assert(pow2(shift) >= 0x2000_0000_0000);
    let p = pow2(shift) as int;
    let s = sig as int;
    assert(s / p <= 255) by (nonlinear_arith)
        requires
            0 <= s < 0x20_0000_0000_0000,
            p >= 0x2000_0000_0000,
    ;
    if c.magnitude() == 0 {
        assert(s == 0);
        assert(0int / p == 0) by (nonlinear_arith)
            requires
                p > 0,
        ;
    }
}

} // verus!
