//! Binary64 numbers as bit patterns, with exact order, sign and truncation.
use vstd::arithmetic::power2::{lemma2_to64, lemma2_to64_rest, lemma_pow2_strictly_increases, pow2};
use vstd::bits::{lemma_u64_shl_is_mul, lemma_u64_shr_is_div};
use vstd::prelude::*;

verus! {

/// The bit that holds the sign.
pub const SIGN_BIT: u64 = 0x8000_0000_0000_0000;

/// The pattern of positive infinity: every magnitude above it is not a number.
pub const INFINITY_BITS: u64 = 0x7FF0_0000_0000_0000;

/// Two to the power 52: the weight of the implicit leading bit of a normal
/// number's significand, and the divisor that separates the exponent field
/// from the fraction field.
pub const HIDDEN_BIT: u64 = 0x0010_0000_0000_0000;

/// A binary64 number, held as its bit pattern.
#[derive(Clone, Copy, Debug)]
pub struct Scalar {
    pub bits: u64,
}

/// The pattern of positive zero.
pub const ZERO_BITS: u64 = 0;

/// The pattern of one.
pub const ONE_BITS: u64 = 0x3FF0_0000_0000_0000;

/// The pattern of negative infinity.
pub const NEG_INFINITY_BITS: u64 = 0xFFF0_0000_0000_0000;

impl Scalar {
    /// The pattern without its sign bit.
    pub open spec fn magnitude(self) -> nat {
        (self.bits % SIGN_BIT) as nat
    }

    /// Whether the sign bit is set (true of negative zero as well).
    pub open spec fn sign(self) -> bool {
        self.bits >= SIGN_BIT
    }

    /// Whether the pattern is not a number.
    pub open spec fn nan(self) -> bool {
        self.magnitude() > INFINITY_BITS
    }

    /// An integer that orders the numbers as their values do (see
    /// `lemma_rank_orders_values`). Both zeros have rank 0.
    pub open spec fn rank(self) -> int {
        if self.sign() {
            -(self.magnitude() as int)
        } else {
            self.magnitude() as int
        }
    }

    /// `self < other` as binary64 comparison defines it: false if either is
    /// not a number.
    pub open spec fn below(self, other: Scalar) -> bool {
        !self.nan() && !other.nan() && self.rank() < other.rank()
    }

    /// `self <= other` as binary64 comparison defines it: false if either is
    /// not a number.
    pub open spec fn at_most(self, other: Scalar) -> bool {
        !self.nan() && !other.nan() && self.rank() <= other.rank()
    }

    /// The pattern with the sign bit flipped.
    pub open spec fn negated(self) -> Scalar {
        if self.bits >= SIGN_BIT {
            Scalar { bits: (self.bits - SIGN_BIT) as u64 }
        } else {
            Scalar { bits: (self.bits + SIGN_BIT) as u64 }
        }
    }

    /// The pattern with the sign bit cleared.
    pub open spec fn absolute(self) -> Scalar {
        Scalar { bits: (self.bits % SIGN_BIT) as u64 }
    }

    /// The exponent field: the eleven bits below the sign.
    pub open spec fn exponent_field(self) -> nat {
        self.magnitude() / (HIDDEN_BIT as nat)
    }

    /// The fraction field: the low 52 bits.
    pub open spec fn fraction(self) -> nat {
        self.magnitude() % (HIDDEN_BIT as nat)
    }

    /// The significand as an integer. The absolute value of a number is
    /// `significand() * 2^exponent()`.
    pub open spec fn significand(self) -> nat {
        if self.exponent_field() == 0 {
            self.fraction()
        } else {
            self.fraction() + HIDDEN_BIT as nat
        }
    }

    /// The power of two that weighs the significand.
    pub open spec fn exponent(self) -> int {
        if self.exponent_field() == 0 {
            -1074
        } else {
            self.exponent_field() - 1075
        }
    }

    /// The absolute value in units of `2^-1074`, the distance between the
    /// smallest numbers: a whole number of them for every number.
    pub open spec fn units(self) -> nat {
        self.significand() * pow2((self.exponent() + 1074) as nat)
    }

    /// The value in units of `2^-1074`.
    pub open spec fn signed_units(self) -> int {
        if self.sign() {
            -(self.units() as int)
        } else {
            self.units() as int
        }
    }

    /// The integer part of the absolute value times `2^k`.
    pub open spec fn floor_scaled(self, k: nat) -> nat {
        let e = self.exponent() + k;
        if e >= 0 {
            self.significand() * pow2(e as nat)
        } else {
            self.significand() / pow2((-e) as nat)
        }
    }

    /// The value times `2^k`, rounded toward zero and brought into the range
    /// of `i32`; 0 for what is not a number.
    pub open spec fn truncated(self, k: nat) -> int {
        if self.nan() {
            0
        } else if self.sign() {
            if self.floor_scaled(k) >= 0x8000_0000 {
                -0x8000_0000
            } else {
                -(self.floor_scaled(k) as int)
            }
        } else {
            if self.floor_scaled(k) >= 0x7FFF_FFFF {
                0x7FFF_FFFF
            } else {
                self.floor_scaled(k) as int
            }
        }
    }

    /// Positive zero.
    pub fn zero() -> (r: Scalar)
        ensures
            r.bits == ZERO_BITS,
    {
        Scalar { bits: ZERO_BITS }
    }

    /// One.
    pub fn one() -> (r: Scalar)
        ensures
            r.bits == ONE_BITS,
    {
        Scalar { bits: ONE_BITS }
    }

    /// Positive infinity.
    pub fn infinity() -> (r: Scalar)
        ensures
            r.bits == INFINITY_BITS,
    {
        Scalar { bits: INFINITY_BITS }
    }

    /// Negative infinity.
    pub fn neg_infinity() -> (r: Scalar)
        ensures
            r.bits == NEG_INFINITY_BITS,
    {
        Scalar { bits: NEG_INFINITY_BITS }
    }

    /// The number with the given bit pattern.
    pub fn from_bits(bits: u64) -> (r: Scalar)
        ensures
            r.bits == bits,
    {
        Scalar { bits }
    }

    /// The bit pattern.
    pub fn to_bits(&self) -> (r: u64)
        ensures
            r == self.bits,
    {
        self.bits
    }

    fn magnitude_bits(&self) -> (m: u64)
        ensures
            m == self.magnitude(),
    {
        let b: u64 = self.bits;
        assert(b & 0x7FFF_FFFF_FFFF_FFFFu64 == b % 0x8000_0000_0000_0000u64) by (bit_vector);
        b & 0x7FFF_FFFF_FFFF_FFFFu64
    }

    /// Whether the sign bit is set.
    pub fn is_sign_negative(&self) -> (r: bool)
        ensures
            r == self.sign(),
    {
        self.bits >= SIGN_BIT
    }

    /// Whether this is not a number.
    pub fn is_nan(&self) -> (r: bool)
        ensures
            r == self.nan(),
    {
        self.magnitude_bits() > INFINITY_BITS
    }

    /// `self < other`.
    pub fn lt(&self, other: &Scalar) -> (r: bool)
        ensures
            r == self.below(*other),
    {
        if self.is_nan() || other.is_nan() {
            return false;
        }
        let a: u64 = self.magnitude_bits();
        let b: u64 = other.magnitude_bits();
        if self.is_sign_negative() {
            if other.is_sign_negative() {
                a > b
            } else {
                a > 0 || b > 0
            }
        } else {
            !other.is_sign_negative() && a < b
        }
    }

    /// `self <= other`.
    pub fn le(&self, other: &Scalar) -> (r: bool)
        ensures
            r == self.at_most(*other),
    {
        if self.is_nan() || other.is_nan() {
            return false;
        }
        let a: u64 = self.magnitude_bits();
        let b: u64 = other.magnitude_bits();
        if self.is_sign_negative() {
            !other.is_sign_negative() || a >= b
        } else {
            if other.is_sign_negative() {
                a == 0 && b == 0
            } else {
                a <= b
            }
        }
    }

    /// `self > other`.
    pub fn gt(&self, other: &Scalar) -> (r: bool)
        ensures
            r == other.below(*self),
    {
        other.lt(self)
    }

    /// `self >= other`.
    pub fn ge(&self, other: &Scalar) -> (r: bool)
        ensures
            r == other.at_most(*self),
    {
        other.le(self)
    }

    /// The number with the opposite sign; exact for every pattern.
    pub fn neg(&self) -> (r: Scalar)
        ensures
            r == self.negated(),
            r.magnitude() == self.magnitude(),
            r.sign() == !self.sign(),
            r.nan() == self.nan(),
            r.rank() == -self.rank(),
    {
        if self.bits >= SIGN_BIT {
            Scalar { bits: self.bits - SIGN_BIT }
        } else {
            Scalar { bits: self.bits + SIGN_BIT }
        }
    }

    /// The absolute value; exact for every pattern.
    pub fn abs(&self) -> (r: Scalar)
        ensures
            r == self.absolute(),
            r.magnitude() == self.magnitude(),
            !r.sign(),
            r.nan() == self.nan(),
    {
        Scalar { bits: self.magnitude_bits() }
    }
    /// `value * 2^k` converted to `i32` the way a cast does it: rounded toward
    /// zero, brought into range, and 0 for what is not a number. Scaling a
    /// binary64 number by a power of two is exact, so for `k = 8` this is the
    /// cast of `256.0 * value`.
    pub fn truncate_scaled(&self, k: u32) -> (r: i32)
        ensures
            r == self.truncated(k as nat),
    {
        if self.is_nan() {
            return 0;
        }
        let m: u64 = self.magnitude_bits();
        let field: u64 = m >> 52;
        let frac: u64 = m & 0x000F_FFFF_FFFF_FFFFu64;
        proof {
            assert(m >> 52 == m / 0x0010_0000_0000_0000u64) by (bit_vector);
            assert(m & 0x000F_FFFF_FFFF_FFFFu64 == m % 0x0010_0000_0000_0000u64) by (bit_vector);
        }
        let sig: u64 = if field == 0 {
            frac
        } else {
            frac + HIDDEN_BIT
        };
        let e: i64 = if field == 0 {
            k as i64 - 1074
        } else {
            field as i64 - 1075 + k as i64
        };
        assert(sig == self.significand());
        assert(e == self.exponent() + k);
        let whole: u64 = if sig == 0 {
            proof {
                lemma_zero_scaled(e as int);
            }
            0
        } else if e >= 0 {
            if e >= 31 || sig >= 0x8000_0000 {
                proof {
                    lemma_scaled_is_large(sig as nat, e as nat);
                }
                0x8000_0000
            } else {
                proof {
                    lemma_scaled_fits(sig, e as u64);
                }
                let w: u64 = sig << (e as u64);
                if w >= 0x8000_0000 {
                    0x8000_0000
                } else {
                    w
                }
            }
        } else {
            let shift: i64 = -e;
            if shift >= 64 {
                proof {
                    lemma_shifted_out(sig, shift as nat);
                }
                0
            } else {
                proof {
                    lemma_u64_shr_is_div(sig, shift as u64);
                }
                let w: u64 = sig >> (shift as u64);
                if w >= 0x8000_0000 {
                    0x8000_0000
                } else {
                    w
                }
            }
        };
        assert(whole == if self.floor_scaled(k as nat) >= 0x8000_0000 {
            0x8000_0000
        } else {
            self.floor_scaled(k as nat)
        });
        if self.is_sign_negative() {
            if whole >= 0x8000_0000 {
                i32::MIN
            } else {
                -(whole as i32)
            }
        } else {
            if whole >= 0x7FFF_FFFF {
                i32::MAX
            } else {
                whole as i32
            }
        }
    }

    /// The value converted to `i32` the way a cast does it.
    pub fn to_i32(&self) -> (r: i32)
        ensures
            r == self.truncated(0),
    {
        self.truncate_scaled(0)
    }
}

proof fn lemma_zero_scaled(e: int)
    ensures
        e >= 0 ==> 0nat * pow2(e as nat) == 0,
        e < 0 ==> 0nat / pow2((-e) as nat) == 0,
{
    if e < 0 {
        vstd::arithmetic::power2::lemma_pow2_pos((-e) as nat);
    }
}

proof fn lemma_scaled_is_large(sig: nat, e: nat)
    requires
        sig > 0,
        e >= 31 || sig >= 0x8000_0000,
    ensures
        sig * pow2(e) >= 0x8000_0000,
{
    lemma2_to64();
    vstd::arithmetic::power2::lemma_pow2_pos(e);
    if e > 31 {
        lemma_pow2_strictly_increases(31, e);
    }
    let p = pow2(e) as int;
    let g = sig as int;
    assert(g * p >= 0x8000_0000) by (nonlinear_arith)
        requires
            g >= 1,
            p >= 1,
            p >= 0x8000_0000 || g >= 0x8000_0000,
    ;
}

proof fn lemma_scaled_fits(sig: u64, e: u64)
    requires
        sig < 0x8000_0000,
        e < 31,
    ensures
        (sig << e) == sig * pow2(e as nat),
{
    lemma2_to64();
    lemma_pow2_strictly_increases(e as nat, 31);
    let p = pow2(e as nat) as int;
    let g = sig as int;
    assert(g * p <= 0x8000_0000 * 0x8000_0000) by (nonlinear_arith)
        requires
            0 <= g < 0x8000_0000,
            0 <= p < 0x8000_0000,
    ;
    lemma_u64_shl_is_mul(sig, e);
}

proof fn lemma_shifted_out(sig: u64, shift: nat)
    requires
        shift >= 64,
    ensures
        sig as nat / pow2(shift) == 0,
{
    lemma2_to64();
    lemma2_to64_rest();
    if shift > 64 {
        lemma_pow2_strictly_increases(64, shift);
    }
    vstd::arithmetic::div_mod::lemma_basic_div(sig as int, pow2(shift) as int);
}

proof fn lemma_units_increase(a: Scalar, b: Scalar)
    requires
        a.magnitude() < b.magnitude(),
    ensures
        a.units() < b.units(),
{
    let fa = a.exponent_field();
    let fb = b.exponent_field();
    let h = HIDDEN_BIT as int;
    let sa = a.significand() as int;
    let sb = b.significand() as int;
    assert(a.magnitude() == fa * h + a.fraction());
    assert(b.magnitude() == fb * h + b.fraction());
    assert(fa <= fb);
    if fa == fb {
        let p = pow2((a.exponent() + 1074) as nat) as int;
        vstd::arithmetic::power2::lemma_pow2_pos((a.exponent() + 1074) as nat);
        assert(sa * p < sb * p) by (nonlinear_arith)
            requires
                sa < sb,
                p > 0,
        ;
    } else {
        let pb = pow2((fb - 1) as nat) as int;
        vstd::arithmetic::power2::lemma_pow2_pos((fb - 1) as nat);
        assert(sb * pb >= h * pb) by (nonlinear_arith)
            requires
                sb >= h,
                pb > 0,
        ;
        if fa == 0 {
            lemma2_to64();
            assert(pow2(0) == 1);
            assert(sa * 1 == sa);
            assert(h * pb >= h) by (nonlinear_arith)
                requires
                    h > 0,
                    pb >= 1,
            ;
        } else {
            let pa = pow2((fa - 1) as nat) as int;
            vstd::arithmetic::power2::lemma_pow2_pos((fa - 1) as nat);
            vstd::arithmetic::power2::lemma_pow2_unfold(fa);
            assert(pow2(fa) == 2 * pa);
            if fa < fb - 1 {
                lemma_pow2_strictly_increases(fa, (fb - 1) as nat);
            }
            let pf = pow2(fa) as int;
            assert(pf <= pb);
            assert(sa * pa < h * pb) by (nonlinear_arith)
                requires
                    0 <= sa < 2 * h,
                    pa > 0,
                    pf == 2 * pa,
                    pf <= pb,
                    h > 0,
            ;
        }
    }
}

/// The patterns without their signs are ordered as the absolute values are.
pub proof fn lemma_magnitude_orders_values(a: Scalar, b: Scalar)
    ensures
        a.magnitude() < b.magnitude() <==> a.units() < b.units(),
        a.magnitude() == b.magnitude() <==> a.units() == b.units(),
{
    if a.magnitude() < b.magnitude() {
        lemma_units_increase(a, b);
    }
    if b.magnitude() < a.magnitude() {
        lemma_units_increase(b, a);
    }
}

/// The rank orders the patterns as their values do: the value of `a` is
/// below that of `b` exactly if the rank of `a` is below that of `b`, and the
/// two values are equal exactly if the ranks are.
pub proof fn lemma_rank_orders_values(a: Scalar, b: Scalar)
    ensures
        a.rank() < b.rank() <==> a.signed_units() < b.signed_units(),
        a.rank() == b.rank() <==> a.signed_units() == b.signed_units(),
{
    let zero = Scalar { bits: 0 };
    lemma2_to64();
    assert(zero.units() == 0) by {
        assert(zero.significand() == 0);
        assert(0 * pow2((zero.exponent() + 1074) as nat) == 0) by (nonlinear_arith);
    }
    lemma_magnitude_orders_values(a, b);
    lemma_magnitude_orders_values(a, zero);
    lemma_magnitude_orders_values(b, zero);
}

/// Comparison is a strict order on the numbers: nothing is below itself, and
/// below twice is below.
pub proof fn lemma_below_is_strict_order(a: Scalar, b: Scalar, c: Scalar)
    ensures
        !a.below(a),
        a.below(b) && b.below(c) ==> a.below(c),
        a.below(b) ==> !b.below(a),
        a.at_most(b) <==> (a.below(b) || (!a.nan() && !b.nan() && a.rank() == b.rank())),
        !a.nan() && !b.nan() ==> (a.below(b) || b.at_most(a)),
{
}

/// Changing both signs reverses the order.
pub proof fn lemma_negation_reverses_order(a: Scalar, b: Scalar)
    ensures
        a.below(b) <==> b.negated().below(a.negated()),
        a.at_most(b) <==> b.negated().at_most(a.negated()),
{
}

/// The integer part that truncation takes is the floor of the absolute value
/// times `2^k`: the units, times `2^k`, divided by the `2^1074` units that
/// make up one.
pub proof fn lemma_floor_scaled_is_floor(a: Scalar, k: nat)
    ensures
        a.floor_scaled(k) == (a.units() * pow2(k)) / pow2(1074),
{
    let s = a.significand() as int;
    let up = (a.exponent() + 1074) as nat;
    let e = a.exponent() + k;
    let one = pow2(1074) as int;
    let pk = pow2(k) as int;
    let pu = pow2(up) as int;
    let both = pow2(up + k) as int;
    vstd::arithmetic::power2::lemma_pow2_adds(up, k);
    vstd::arithmetic::power2::lemma_pow2_pos(1074);
    vstd::arithmetic::power2::lemma_pow2_pos(up + k);
    assert((s * pu) * pk == s * both) by (nonlinear_arith)
        requires
            both == pu * pk,
    ;
    if e >= 0 {
        let pe = pow2(e as nat) as int;
        vstd::arithmetic::power2::lemma_pow2_adds(e as nat, 1074);
        assert(both == pe * one);
        assert(s * both == (s * pe) * one) by (nonlinear_arith)
            requires
                both == pe * one,
        ;
        assert(s * pe >= 0) by (nonlinear_arith)
            requires
                s >= 0,
                pe >= 0,
        ;
        vstd::arithmetic::div_mod::lemma_div_by_multiple(s * pe, one);
    } else {
        let n = (-e) as nat;
        let pn = pow2(n) as int;
        vstd::arithmetic::power2::lemma_pow2_adds(up + k, n);
        vstd::arithmetic::power2::lemma_pow2_pos(n);
        assert(one == both * pn);
        vstd::arithmetic::div_mod::lemma_div_multiples_vanish_quotient(both, s, pn);
        assert(s / pn == (both * s) / (both * pn));
        assert(both * s == s * both) by (nonlinear_arith);
    }
}

} // verus!
