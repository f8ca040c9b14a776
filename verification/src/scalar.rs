//! Single-precision numbers as bit patterns.
//!
//! Every number that travels through this crate is a [`Scalar`]: the 32 bits
//! of an IEEE-754 binary32 value. The crate never adds or multiplies them; it
//! orders them, picks between them and flips their sign, all of which is
//! exact on the bit pattern.

use vstd::prelude::*;
use vstd::arithmetic::power2::{pow2, lemma2_to64, lemma_pow2_adds, lemma_pow2_pos, lemma_pow2_strictly_increases};

verus! {

/// The sign bit of a binary32 pattern.
pub const SIGN_BIT: u32 = 0x8000_0000;

/// The magnitude bits of positive infinity. Every larger magnitude is a NaN.
pub const INFINITY_BITS: u32 = 0x7f80_0000;

/// A single-precision number, held as its IEEE-754 bit pattern.
#[derive(Clone, Copy, Debug)]
pub struct Scalar {
    pub bits: u32,
}

impl Scalar {
    /// Whether the sign bit is set.
    pub open spec fn negative(self) -> bool {
        self.bits >= SIGN_BIT
    }

    /// The pattern without its sign bit.
    pub open spec fn magnitude(self) -> int {
        if self.bits >= SIGN_BIT {
            self.bits - SIGN_BIT
        } else {
            self.bits as int
        }
    }

    /// Whether the pattern encodes "not a number".
    pub open spec fn spec_is_nan(self) -> bool {
        self.magnitude() > INFINITY_BITS
    }

    /// Where a number stands among all numbers: for two patterns that are not
    /// NaN, the one with the smaller rank is the smaller number, and equal
    /// ranks mean equal numbers (both zeros have rank 0).
    pub open spec fn rank(self) -> int {
        if self.negative() {
            -self.magnitude()
        } else {
            self.magnitude()
        }
    }

    /// IEEE `<`: false whenever either side is NaN.
    pub open spec fn spec_lt(self, rhs: Scalar) -> bool {
        !self.spec_is_nan() && !rhs.spec_is_nan() && self.rank() < rhs.rank()
    }

    /// IEEE `<=`: false whenever either side is NaN.
    pub open spec fn spec_le(self, rhs: Scalar) -> bool {
        !self.spec_is_nan() && !rhs.spec_is_nan() && self.rank() <= rhs.rank()
    }

    /// IEEE `>`: false whenever either side is NaN.
    pub open spec fn spec_gt(self, rhs: Scalar) -> bool {
        rhs.spec_lt(self)
    }

    /// IEEE `>=`: false whenever either side is NaN.
    pub open spec fn spec_ge(self, rhs: Scalar) -> bool {
        rhs.spec_le(self)
    }

    /// The smaller of two numbers. A NaN on one side yields the other side;
    /// of the two zeros the negative one counts as smaller.
    pub open spec fn spec_min(self, rhs: Scalar) -> Scalar {
        if self.spec_is_nan() {
            rhs
        } else if rhs.spec_is_nan() {
            self
        } else if rhs.rank() < self.rank() || (rhs.rank() == self.rank() && rhs.negative()) {
            rhs
        } else {
            self
        }
    }

    /// The larger of two numbers. A NaN on one side yields the other side;
    /// of the two zeros the positive one counts as larger.
    pub open spec fn spec_max(self, rhs: Scalar) -> Scalar {
        if self.spec_is_nan() {
            rhs
        } else if rhs.spec_is_nan() {
            self
        } else if rhs.rank() > self.rank() || (rhs.rank() == self.rank() && !rhs.negative()) {
            rhs
        } else {
            self
        }
    }

    /// The number with its sign flipped.
    pub open spec fn spec_neg(self) -> Scalar {
        if self.bits >= SIGN_BIT {
            Scalar { bits: (self.bits - SIGN_BIT) as u32 }
        } else {
            Scalar { bits: (self.bits + SIGN_BIT) as u32 }
        }
    }

    /// The next number above: the pattern whose rank is one more. Infinity
    /// and NaN stay as they are; both zeros are followed by the smallest
    /// positive number.
    pub open spec fn spec_next_up(self) -> Scalar {
        if self.spec_is_nan() || self.bits == INFINITY_BITS {
            self
        } else if self.magnitude() == 0 {
            Scalar { bits: 1 }
        } else if self.negative() {
            Scalar { bits: (self.bits - 1) as u32 }
        } else {
            Scalar { bits: (self.bits + 1) as u32 }
        }
    }

    /// The next number below: the pattern whose rank is one less. Negative
    /// infinity and NaN stay as they are; both zeros are preceded by the
    /// smallest negative number.
    pub open spec fn spec_next_down(self) -> Scalar {
        if self.spec_is_nan() || self.bits == SIGN_BIT + INFINITY_BITS {
            self
        } else if self.magnitude() == 0 {
            Scalar { bits: (SIGN_BIT + 1) as u32 }
        } else if self.negative() {
            Scalar { bits: (self.bits + 1) as u32 }
        } else {
            Scalar { bits: (self.bits - 1) as u32 }
        }
    }

    /// `lo` below `lo`, `hi` above `hi`, the number itself otherwise; a NaN
    /// passes through unchanged.
    pub open spec fn spec_clamp(self, lo: Scalar, hi: Scalar) -> Scalar {
        if self.spec_lt(lo) {
            lo
        } else if self.spec_gt(hi) {
            hi
        } else {
            self
        }
    }

    /// The biased exponent field of the pattern.
    pub open spec fn exponent(self) -> int {
        self.magnitude() / 0x80_0000
    }

    /// The fraction field of the pattern.
    pub open spec fn fraction(self) -> int {
        self.magnitude() % 0x80_0000
    }

    /// The size of a finite number, counted in units of 2^-149 (the smallest
    /// positive number there is): an exact integer for every finite pattern.
    pub open spec fn units(self) -> int {
        if self.exponent() == 0 {
            self.fraction()
        } else {
            (0x80_0000 + self.fraction()) * pow2((self.exponent() - 1) as nat)
        }
    }

    /// Positive zero.
    pub open spec fn spec_zero() -> Scalar {
        Scalar { bits: 0 }
    }

    /// Whether the pattern encodes a number, finite or infinite.
    pub open spec fn is_number(self) -> bool {
        !self.spec_is_nan()
    }

    #[verifier::when_used_as_spec(spec_zero)]
    pub fn zero() -> (s: Scalar)
        ensures
            s == Scalar::spec_zero(),
    {
        Scalar { bits: 0 }
    }

    pub fn from_bits(bits: u32) -> (s: Scalar)
        ensures
            s.bits == bits,
    {
        Scalar { bits }
    }

    pub fn to_bits(self) -> (bits: u32)
        ensures
            bits == self.bits,
    {
        self.bits
    }

    fn magnitude_bits(self) -> (m: u32)
        ensures
            m == self.magnitude(),
    {
        if self.bits >= SIGN_BIT {
            self.bits - SIGN_BIT
        } else {
            self.bits
        }
    }

    /// The rank as a machine number.
    pub fn signed_rank(self) -> (k: i64)
        ensures
            k == self.rank(),
    {
        let m: u32 = self.magnitude_bits();
        if self.bits >= SIGN_BIT {
            0 - (m as i64)
        } else {
            m as i64
        }
    }

    #[verifier::when_used_as_spec(spec_is_nan)]
    pub fn is_nan(self) -> (r: bool)
        ensures
            r == self.spec_is_nan(),
    {
        self.magnitude_bits() > INFINITY_BITS
    }

    #[verifier::when_used_as_spec(spec_lt)]
    pub fn lt(self, rhs: Scalar) -> (r: bool)
        ensures
            r == self.spec_lt(rhs),
    {
        !self.is_nan() && !rhs.is_nan() && self.signed_rank() < rhs.signed_rank()
    }

    #[verifier::when_used_as_spec(spec_le)]
    pub fn le(self, rhs: Scalar) -> (r: bool)
        ensures
            r == self.spec_le(rhs),
    {
        !self.is_nan() && !rhs.is_nan() && self.signed_rank() <= rhs.signed_rank()
    }

    #[verifier::when_used_as_spec(spec_gt)]
    pub fn gt(self, rhs: Scalar) -> (r: bool)
        ensures
            r == self.spec_gt(rhs),
    {
        rhs.lt(self)
    }

    #[verifier::when_used_as_spec(spec_ge)]
    pub fn ge(self, rhs: Scalar) -> (r: bool)
        ensures
            r == self.spec_ge(rhs),
    {
        rhs.le(self)
    }

    #[verifier::when_used_as_spec(spec_min)]
    pub fn min(self, rhs: Scalar) -> (r: Scalar)
        ensures
            r == self.spec_min(rhs),
    {
        if self.is_nan() {
            rhs
        } else if rhs.is_nan() {
            self
        } else {
            let a: i64 = self.signed_rank();
            let b: i64 = rhs.signed_rank();
            if b < a || (b == a && rhs.bits >= SIGN_BIT) {
                rhs
            } else {
                self
            }
        }
    }

    #[verifier::when_used_as_spec(spec_max)]
    pub fn max(self, rhs: Scalar) -> (r: Scalar)
        ensures
            r == self.spec_max(rhs),
    {
        if self.is_nan() {
            rhs
        } else if rhs.is_nan() {
            self
        } else {
            let a: i64 = self.signed_rank();
            let b: i64 = rhs.signed_rank();
            if b > a || (b == a && rhs.bits < SIGN_BIT) {
                rhs
            } else {
                self
            }
        }
    }

    #[verifier::when_used_as_spec(spec_neg)]
    pub fn neg(self) -> (r: Scalar)
        ensures
            r == self.spec_neg(),
    {
        if self.bits >= SIGN_BIT {
            Scalar { bits: self.bits - SIGN_BIT }
        } else {
            Scalar { bits: self.bits + SIGN_BIT }
        }
    }

    #[verifier::when_used_as_spec(spec_next_up)]
    pub fn next_up(self) -> (r: Scalar)
        ensures
            r == self.spec_next_up(),
    {
        let m: u32 = self.magnitude_bits();
        if m > INFINITY_BITS || self.bits == INFINITY_BITS {
            self
        } else if m == 0 {
            Scalar { bits: 1 }
        } else if self.bits >= SIGN_BIT {
            Scalar { bits: self.bits - 1 }
        } else {
            Scalar { bits: self.bits + 1 }
        }
    }

    #[verifier::when_used_as_spec(spec_next_down)]
    pub fn next_down(self) -> (r: Scalar)
        ensures
            r == self.spec_next_down(),
    {
        let m: u32 = self.magnitude_bits();
        if m > INFINITY_BITS || self.bits == SIGN_BIT + INFINITY_BITS {
            self
        } else if m == 0 {
            Scalar { bits: SIGN_BIT + 1 }
        } else if self.bits >= SIGN_BIT {
            Scalar { bits: self.bits + 1 }
        } else {
            Scalar { bits: self.bits - 1 }
        }
    }

    #[verifier::when_used_as_spec(spec_clamp)]
    pub fn clamp(self, lo: Scalar, hi: Scalar) -> (r: Scalar)
        ensures
            r == self.spec_clamp(lo, hi),
    {
        if self.lt(lo) {
            lo
        } else if self.gt(hi) {
            hi
        } else {
            self
        }
    }
}

proof fn lemma_larger_magnitude_is_larger(a: Scalar, b: Scalar)
    requires
        a.magnitude() < b.magnitude() < INFINITY_BITS,
    ensures
        a.units() < b.units(),
{
    let ea = a.exponent();
    let eb = b.exponent();
    let fa = a.fraction();
    let fb = b.fraction();
    lemma2_to64();
    assert(0 <= ea <= eb <= 254);
    if ea == eb {
        if ea > 0 {
            let p = pow2((ea - 1) as nat) as int;
            lemma_pow2_pos((ea - 1) as nat);
            assert((0x80_0000 + fa) * p < (0x80_0000 + fb) * p) by (nonlinear_arith)
                requires
                    fa < fb,
                    p > 0,
            ;
        }
    } else {
        let q = pow2((eb - 1) as nat) as int;
        lemma_pow2_pos((eb - 1) as nat);
        assert(0x80_0000 * q <= (0x80_0000 + fb) * q) by (nonlinear_arith)
            requires
                0 <= fb,
                q > 0,
        ;
        if ea == 0 {
            assert(0x80_0000 * 1 <= 0x80_0000 * q) by (nonlinear_arith)
                requires
                    q >= 1,
            ;
        } else {
            let p = pow2((ea - 1) as nat) as int;
            lemma_pow2_pos((ea - 1) as nat);
            assert((0x80_0000 + fa) * p < 0x100_0000 * p) by (nonlinear_arith)
                requires
                    fa < 0x80_0000,
                    p > 0,
            ;
            lemma_pow2_adds(1, (ea - 1) as nat);
            assert(pow2(ea as nat) == 2 * p);
            if ea < eb - 1 {
                lemma_pow2_strictly_increases(ea as nat, (eb - 1) as nat);
            }
            assert(2 * p <= q);
            assert(0x100_0000 * p <= 0x80_0000 * q) by (nonlinear_arith)
                requires
                    2 * p <= q,
            ;
        }
    }
}

/// Among finite patterns the order of the magnitudes is the order of the
/// sizes: the pattern with the larger magnitude encodes the larger absolute
/// value, and only equal magnitudes encode equal ones. So the rank orders
/// numbers as their values do.
pub proof fn magnitude_orders_by_size(a: Scalar, b: Scalar)
    requires
        a.magnitude() < INFINITY_BITS,
        b.magnitude() < INFINITY_BITS,
    ensures
        a.magnitude() < b.magnitude() <==> a.units() < b.units(),
        a.magnitude() == b.magnitude() <==> a.units() == b.units(),
{
    if a.magnitude() < b.magnitude() {
        lemma_larger_magnitude_is_larger(a, b);
    } else if b.magnitude() < a.magnitude() {
        lemma_larger_magnitude_is_larger(b, a);
    }
}

/// The next number above a number is a number that ranks one higher, unless
/// the number is infinity; the next number below ranks one lower, unless the
/// number is negative infinity. No number lies between a number and its
/// neighbour.
pub proof fn neighbours_rank_next(x: Scalar)
    requires
        x.is_number(),
    ensures
        x.next_up().is_number(),
        x.next_down().is_number(),
        x.next_up().rank() == if x.rank() == INFINITY_BITS {
            x.rank()
        } else {
            x.rank() + 1
        },
        x.next_down().rank() == if x.rank() == -INFINITY_BITS {
            x.rank()
        } else {
            x.rank() - 1
        },
{
}

} // verus!
