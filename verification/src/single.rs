//! IEEE-754 binary32 numbers by bit pattern: order, equality and selection.

use vstd::arithmetic::power2::{lemma_pow2_pos, lemma_pow2_strictly_increases, lemma_pow2_unfold, pow2};
use vstd::prelude::*;

verus! {

/// Mask of the sign bit.
pub const SIGN_BIT: u32 = 0x8000_0000;

/// Mask of exponent and fraction together.
pub const MAGNITUDE_MASK: u32 = 0x7fff_ffff;

/// Magnitude of the two infinities; every larger magnitude is a NaN.
pub const INFINITY_MAGNITUDE: u32 = 0x7f80_0000;

/// An IEEE-754 binary32 number, held by its bit pattern.
///
/// The derived `==` compares bit patterns. Numeric equality, under which the
/// two zeros are equal and a NaN equals nothing, is [`Single::same`].
#[derive(Clone, Copy, Debug, PartialEq, Eq, Structural)]
pub struct Single {
    pub bits: u32,
}

impl Single {
    /// Exponent and fraction, without the sign.
    pub open spec fn magnitude(self) -> int {
        (self.bits & MAGNITUDE_MASK) as int
    }

    /// Whether the sign bit is set.
    pub open spec fn negative(self) -> bool {
        self.bits & SIGN_BIT != 0
    }

    /// Whether the pattern encodes no number.
    pub open spec fn nan(self) -> bool {
        self.magnitude() > INFINITY_MAGNITUDE
    }

    /// Position in the numeric order: for two patterns that are numbers, the
    /// first number is less than the second exactly if its rank is less. Both
    /// zeros have rank 0.
    pub open spec fn rank(self) -> int {
        if self.negative() {
            -self.magnitude()
        } else {
            self.magnitude()
        }
    }

    /// Numeric `<`: false as soon as either side is a NaN.
    pub open spec fn below(self, other: Single) -> bool {
        !self.nan() && !other.nan() && self.rank() < other.rank()
    }

    /// Numeric `==`: false as soon as either side is a NaN.
    pub open spec fn alike(self, other: Single) -> bool {
        !self.nan() && !other.nan() && self.rank() == other.rank()
    }

    /// The pattern with the sign bit flipped.
    pub open spec fn opposite(self) -> Single {
        Single { bits: self.bits ^ SIGN_BIT }
    }

    /// The lesser of two numbers; where one side is a NaN, the other side.
    /// Of two sides that are alike, the second.
    pub open spec fn lesser(self, other: Single) -> Single {
        if other.nan() || self.below(other) {
            self
        } else {
            other
        }
    }

    /// The greater of two numbers; where one side is a NaN, the other side.
    /// Of two sides that are alike, the second.
    pub open spec fn greater(self, other: Single) -> Single {
        if other.nan() || other.below(self) {
            self
        } else {
            other
        }
    }

    /// `self` held between `low` and `high`: `low` where it is below `low`,
    /// `high` where it is above `high`, itself otherwise. A NaN stays as it is.
    pub open spec fn held_between(self, low: Single, high: Single) -> Single {
        if self.below(low) {
            low
        } else if high.below(self) {
            high
        } else {
            self
        }
    }

    /// The biased exponent.
    pub open spec fn exponent(self) -> int {
        ((self.bits >> 23) & 0xff) as int
    }

    /// The fraction bits.
    pub open spec fn fraction(self) -> int {
        (self.bits & 0x7f_ffff) as int
    }

    /// Whether the pattern encodes a number that is not infinite.
    pub open spec fn finite(self) -> bool {
        self.magnitude() < INFINITY_MAGNITUDE
    }

    /// The number that a finite pattern encodes, times 2^149: every finite
    /// binary32 number is a whole multiple of 2^-149. For an infinity this is
    /// a value beyond those of all finite patterns, on the side of its sign.
    pub open spec fn scaled(self) -> int {
        if self.negative() {
            -size_of(self.exponent(), self.fraction())
        } else {
            size_of(self.exponent(), self.fraction())
        }
    }

    /// Whether the pattern encodes the whole number `n`.
    pub open spec fn is_whole(self, n: int) -> bool {
        self.finite() && self.scaled() == n * pow2(149)
    }

    pub fn from_bits(bits: u32) -> (r: Single)
        ensures
            r.bits == bits,
    {
        Single { bits }
    }

    pub fn to_bits(self) -> (r: u32)
        ensures
            r == self.bits,
    {
        self.bits
    }

    pub fn is_nan(self) -> (r: bool)
        ensures
            r == self.nan(),
    {
        (self.bits & MAGNITUDE_MASK) > INFINITY_MAGNITUDE
    }

    /// The rank as a machine integer.
    pub fn key(self) -> (k: i64)
        ensures
            k == self.rank(),
            -(MAGNITUDE_MASK as int) <= k <= MAGNITUDE_MASK as int,
    {
        let bits: u32 = self.bits;
        let magnitude: u32 = bits & MAGNITUDE_MASK;
        assert(bits & 0x7fff_ffff <= 0x7fff_ffff) by (bit_vector);
        if bits & SIGN_BIT != 0 {
            -(magnitude as i64)
        } else {
            magnitude as i64
        }
    }

    pub fn lt(self, other: Single) -> (r: bool)
        ensures
            r == self.below(other),
    {
        !self.is_nan() && !other.is_nan() && self.key() < other.key()
    }

    pub fn gt(self, other: Single) -> (r: bool)
        ensures
            r == other.below(self),
    {
        other.lt(self)
    }

    pub fn same(self, other: Single) -> (r: bool)
        ensures
            r == self.alike(other),
    {
        !self.is_nan() && !other.is_nan() && self.key() == other.key()
    }

    pub fn neg(self) -> (r: Single)
        ensures
            r == self.opposite(),
    {
        Single { bits: self.bits ^ SIGN_BIT }
    }

    pub fn min(self, other: Single) -> (r: Single)
        ensures
            r == self.lesser(other),
    {
        if other.is_nan() || self.lt(other) {
            self
        } else {
            other
        }
    }

    pub fn max(self, other: Single) -> (r: Single)
        ensures
            r == self.greater(other),
    {
        if other.is_nan() || other.lt(self) {
            self
        } else {
            other
        }
    }

    pub fn clamp(self, low: Single, high: Single) -> (r: Single)
        ensures
            r == self.held_between(low, high),
    {
        if self.lt(low) {
            low
        } else if high.lt(self) {
            high
        } else {
            self
        }
    }
}

/// 2^149 times the size of the number with biased exponent `exponent` and
/// fraction bits `fraction`: without the hidden bit where the exponent is
/// zero, with it elsewhere.
pub open spec fn size_of(exponent: int, fraction: int) -> int {
    if exponent == 0 {
        fraction
    } else {
        (0x80_0000 + fraction) * pow2((exponent - 1) as nat)
    }
}

proof fn lemma_size_grows(e1: int, f1: int, e2: int, f2: int)
    requires
        0 <= e1 < 256,
        0 <= e2 < 256,
        0 <= f1 < 0x80_0000,
        0 <= f2 < 0x80_0000,
        e1 * 0x80_0000 + f1 < e2 * 0x80_0000 + f2,
    ensures
        0 <= size_of(e1, f1) < size_of(e2, f2),
{
    if e1 == e2 {
        if e1 > 0 {
            let scale = pow2((e1 - 1) as nat) as int;
            lemma_pow2_pos((e1 - 1) as nat);
            assert(0 <= (0x80_0000 + f1) * scale < (0x80_0000 + f2) * scale) by (nonlinear_arith)
                requires
                    scale > 0,
                    0 <= f1 < f2,
            ;
        }
    } else {
        assert(e1 < e2);
        let large = pow2((e2 - 1) as nat) as int;
        lemma_pow2_pos((e2 - 1) as nat);
        assert((0x80_0000 + f2) * large >= 0x80_0000 * large >= 0x80_0000) by (nonlinear_arith)
            requires
                f2 >= 0,
                large >= 1,
        ;
        if e1 > 0 {
            let small = pow2((e1 - 1) as nat) as int;
            let twice = pow2(e1 as nat) as int;
            lemma_pow2_pos((e1 - 1) as nat);
            lemma_pow2_unfold(e1 as nat);
            if e1 < e2 - 1 {
                lemma_pow2_strictly_increases(e1 as nat, (e2 - 1) as nat);
            }
            assert(twice <= large);
            assert(0 <= (0x80_0000 + f1) * small < 0x80_0000 * (2 * small)) by (nonlinear_arith)
                requires
                    0 <= f1 < 0x80_0000,
                    small > 0,
            ;
            assert(0x80_0000 * twice <= 0x80_0000 * large) by (nonlinear_arith)
                requires
                    twice <= large,
            ;
        }
    }
}

proof fn lemma_parts(bits: u32)
    ensures
        bits & 0x7fff_ffff == ((bits >> 23) & 0xff) * 0x80_0000 + (bits & 0x7f_ffff),
        (bits >> 23) & 0xff < 256,
        bits & 0x7f_ffff < 0x80_0000,
{
    assert(bits & 0x7fff_ffff == ((bits >> 23) & 0xff) * 0x80_0000 + (bits & 0x7f_ffff))
        by (bit_vector);
    assert((bits >> 23) & 0xff < 256) by (bit_vector);
    assert(bits & 0x7f_ffff < 0x80_0000) by (bit_vector);
}

/// The rank orders patterns as the numbers they encode are ordered: of two
/// patterns that are no NaN, one has the lesser rank exactly if it encodes
/// the lesser number, and the same rank exactly if it encodes the same number.
pub proof fn lemma_rank_orders_numbers(a: Single, b: Single)
    requires
        !a.nan(),
        !b.nan(),
    ensures
        a.rank() < b.rank() <==> a.scaled() < b.scaled(),
        a.rank() == b.rank() <==> a.scaled() == b.scaled(),
        a.below(b) <==> a.scaled() < b.scaled(),
        a.alike(b) <==> a.scaled() == b.scaled(),
{
    lemma_parts(a.bits);
    lemma_parts(b.bits);
    let (ea, fa) = (a.exponent(), a.fraction());
    let (eb, fb) = (b.exponent(), b.fraction());
    let zero_e: int = 0;
    let zero_f: int = 0;
    if a.magnitude() < b.magnitude() {
        lemma_size_grows(ea, fa, eb, fb);
    } else if b.magnitude() < a.magnitude() {
        lemma_size_grows(eb, fb, ea, fa);
    } else {
        assert(ea == eb && fa == fb);
    }
    if 0 < a.magnitude() {
        lemma_size_grows(zero_e, zero_f, ea, fa);
    } else {
        assert(ea == 0 && fa == 0);
    }
    if 0 < b.magnitude() {
        lemma_size_grows(zero_e, zero_f, eb, fb);
    } else {
        assert(eb == 0 && fb == 0);
    }
}

/// Flipping the sign mirrors a pattern in the order: the magnitude stays, the
/// rank and the encoded number change sign, and a NaN stays a NaN.
pub proof fn lemma_opposite(x: Single)
    ensures
        x.opposite().magnitude() == x.magnitude(),
        x.opposite().negative() == !x.negative(),
        x.opposite().rank() == -x.rank(),
        x.opposite().nan() == x.nan(),
        x.opposite().finite() == x.finite(),
        x.opposite().scaled() == -x.scaled(),
        x.opposite().opposite() == x,
{
    let b = x.bits;
    assert((b ^ 0x8000_0000) & 0x7fff_ffff == b & 0x7fff_ffff) by (bit_vector);
    assert(((b ^ 0x8000_0000) & 0x8000_0000 != 0) == !(b & 0x8000_0000 != 0)) by (bit_vector);
    assert(((b ^ 0x8000_0000) >> 23) & 0xff == (b >> 23) & 0xff) by (bit_vector);
    assert((b ^ 0x8000_0000) & 0x7f_ffff == b & 0x7f_ffff) by (bit_vector);
    assert((b ^ 0x8000_0000) ^ 0x8000_0000 == b) by (bit_vector);
}

/// What is held between two bounds is neither below the lower nor above the
/// upper one, as long as the upper bound is not below the lower.
pub proof fn lemma_held_between(x: Single, low: Single, high: Single)
    requires
        !high.below(low),
    ensures
        !x.held_between(low, high).below(low),
        !high.below(x.held_between(low, high)),
        !x.nan() && !low.nan() && !high.nan() ==> low.rank() <= x.held_between(low, high).rank()
            <= high.rank(),
        x.nan() ==> x.held_between(low, high) == x,
{
}

} // verus!
