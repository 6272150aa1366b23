//! Loudness levels as IEEE 754 numbers held by their bit patterns.
//!
//! The audio arithmetic itself happens outside; every decision that compares
//! two levels is made here, on the bits, and is proved to agree with the order
//! of the numbers that the bits stand for.

use vstd::arithmetic::power2::{
    lemma_pow2_pos, lemma_pow2_strictly_increases, lemma_pow2_unfold, pow2,
};
use vstd::prelude::*;

verus! {

/// The absolute value of a binary floating-point number, counted in units of
/// its smallest positive number. `mag` is the bit pattern without its sign bit
/// and `unit` is two to the number of fraction bits. Infinity comes out above
/// every finite number.
pub open spec fn magnitude(mag: int, unit: int) -> int {
    if mag < unit {
        mag
    } else {
        (unit + mag % unit) * pow2((mag / unit - 1) as nat) as int
    }
}

/// The order of sign-free bit patterns is the order of the numbers they hold.
pub proof fn magnitude_is_increasing(a: int, b: int, unit: int)
    requires
        unit > 0,
        0 <= a < b,
    ensures
        magnitude(a, unit) < magnitude(b, unit),
{
    if b >= unit {
        let eb = b / unit;
        let fb = b % unit;
        assert(eb >= 1 && 0 <= fb < unit && b == unit * eb + fb) by (nonlinear_arith)
            requires
                b >= unit,
                unit > 0,
                eb == b / unit,
                fb == b % unit,
        ;
        let pb = pow2((eb - 1) as nat) as int;
        lemma_pow2_pos((eb - 1) as nat);
        if a < unit {
            assert((unit + fb) * pb >= unit) by (nonlinear_arith)
                requires
                    pb >= 1,
                    fb >= 0,
                    unit > 0,
            ;
        } else {
            let ea = a / unit;
            let fa = a % unit;
            assert(ea >= 1 && 0 <= fa < unit && a == unit * ea + fa) by (nonlinear_arith)
                requires
                    a >= unit,
                    unit > 0,
                    ea == a / unit,
                    fa == a % unit,
            ;
            assert(ea <= eb) by (nonlinear_arith)
                requires
                    a < b,
                    unit > 0,
                    a == unit * ea + fa,
                    b == unit * eb + fb,
                    0 <= fa,
                    fb < unit,
            ;
            let pa = pow2((ea - 1) as nat) as int;
            lemma_pow2_pos((ea - 1) as nat);
            if ea == eb {
                assert((unit + fa) * pa < (unit + fb) * pa) by (nonlinear_arith)
                    requires
                        fa < fb,
                        pa >= 1,
                ;
            } else {
                lemma_pow2_unfold(ea as nat);
                if ea < eb - 1 {
                    lemma_pow2_strictly_increases(ea as nat, (eb - 1) as nat);
                }
                assert(2 * pa <= pb);
                assert((unit + fa) * pa < (unit + fb) * pb) by (nonlinear_arith)
                    requires
                        0 <= fa < unit,
                        0 <= fb,
                        pa >= 1,
                        2 * pa <= pb,
                ;
            }
        }
    }
}

/// A single-precision number, held by its IEEE 754 bit pattern.
#[derive(Clone, Copy, Debug, PartialEq, Eq, Structural)]
pub struct Level {
    pub bits: u32,
}

/// Two to the number of fraction bits of a single-precision number.
pub const SINGLE_UNIT: u32 = 0x0080_0000;

/// The weight of the sign bit of a single-precision number.
pub const SINGLE_SIGN: u32 = 0x8000_0000;

/// The bit pattern of positive infinity; any larger sign-free pattern is not a
/// number.
pub const SINGLE_INFINITY: u32 = 0x7f80_0000;

/// The bit pattern of one.
pub const SINGLE_ONE: u32 = 0x3f80_0000;

/// The bit pattern of the largest finite number.
pub const SINGLE_MAX: u32 = 0x7f7f_ffff;

impl Level {
    /// The bit pattern without its sign bit.
    pub open spec fn mag(self) -> int {
        if self.bits < SINGLE_SIGN {
            self.bits as int
        } else {
            self.bits - SINGLE_SIGN
        }
    }

    /// Whether the pattern stands for no number at all.
    pub open spec fn is_nan(self) -> bool {
        self.mag() > SINGLE_INFINITY
    }

    /// The number held, counted in units of the smallest positive number.
    pub open spec fn units(self) -> int {
        if self.bits < SINGLE_SIGN {
            magnitude(self.mag(), SINGLE_UNIT as int)
        } else {
            -magnitude(self.mag(), SINGLE_UNIT as int)
        }
    }

    /// Numeric `<`: never true when either side is not a number.
    pub open spec fn below(self, other: Level) -> bool {
        !self.is_nan() && !other.is_nan() && self.units() < other.units()
    }

    /// Numeric `<=`: never true when either side is not a number.
    pub open spec fn at_most(self, other: Level) -> bool {
        !self.is_nan() && !other.is_nan() && self.units() <= other.units()
    }

    /// Zero.
    pub open spec fn zero() -> Level {
        Level { bits: 0 }
    }

    /// One.
    pub open spec fn one() -> Level {
        Level { bits: SINGLE_ONE }
    }

    /// The largest finite number.
    pub open spec fn max_finite() -> Level {
        Level { bits: SINGLE_MAX }
    }

    /// Decides `self < other`.
    pub fn is_below(self, other: Level) -> (r: bool)
        ensures
            r == self.below(other),
    {
        let a: u32 = if self.bits < SINGLE_SIGN { self.bits } else { self.bits - SINGLE_SIGN };
        let b: u32 = if other.bits < SINGLE_SIGN { other.bits } else { other.bits - SINGLE_SIGN };
        proof {
            lemma_order(a as int, b as int, SINGLE_UNIT as int);
        }
        if a > SINGLE_INFINITY || b > SINGLE_INFINITY {
            false
        } else if self.bits < SINGLE_SIGN {
            other.bits < SINGLE_SIGN && a < b
        } else if other.bits < SINGLE_SIGN {
            a != 0 || b != 0
        } else {
            b < a
        }
    }

    /// Decides `self <= other`.
    pub fn is_at_most(self, other: Level) -> (r: bool)
        ensures
            r == self.at_most(other),
    {
        let a: u32 = if self.bits < SINGLE_SIGN { self.bits } else { self.bits - SINGLE_SIGN };
        let b: u32 = if other.bits < SINGLE_SIGN { other.bits } else { other.bits - SINGLE_SIGN };
        if a > SINGLE_INFINITY || b > SINGLE_INFINITY {
            false
        } else {
            !other.is_below(self)
        }
    }
}

impl Level {
    /// The nearest number between zero and one. What is not a number stays so.
    pub open spec fn clamped_to_unit(self) -> Level {
        if self.below(Level::zero()) {
            Level::zero()
        } else if Level::one().below(self) {
            Level::one()
        } else {
            self
        }
    }

    /// Brings a number between zero and one.
    pub fn clamp_to_unit(self) -> (r: Level)
        ensures
            r == self.clamped_to_unit(),
    {
        if self.is_below(Level { bits: 0 }) {
            Level { bits: 0 }
        } else if (Level { bits: SINGLE_ONE }).is_below(self) {
            Level { bits: SINGLE_ONE }
        } else {
            self
        }
    }
}

/// How levels compare, by their bits. Sign-free patterns up to infinity compare
/// as their bits do, those with a sign the other way round; any number with a
/// sign is below any without, but for the two zeros. What is no number compares
/// with nothing.
pub proof fn levels_compare_by_their_bits(a: Level, b: Level)
    ensures
        ({
            let a_plus = a.bits <= 0x7f80_0000;
            let b_plus = b.bits <= 0x7f80_0000;
            let a_minus = 0x8000_0000 <= a.bits <= 0xff80_0000;
            let b_minus = 0x8000_0000 <= b.bits <= 0xff80_0000;
            let both_zero = (a.bits == 0 || a.bits == 0x8000_0000) && (b.bits == 0 || b.bits
                == 0x8000_0000);
            &&& a_plus && b_plus ==> (a.below(b) <==> a.bits < b.bits) && (a.at_most(b)
                <==> a.bits <= b.bits)
            &&& a_minus && b_minus ==> (a.below(b) <==> a.bits > b.bits) && (a.at_most(b)
                <==> a.bits >= b.bits)
            &&& a_minus && b_plus ==> (a.below(b) <==> !both_zero) && a.at_most(b)
            &&& a_plus && b_minus ==> !a.below(b) && (a.at_most(b) <==> both_zero)
            &&& !(a_plus || a_minus) || !(b_plus || b_minus) ==> !a.below(b) && !a.at_most(b)
        }),
{
    lemma_order(a.mag(), b.mag(), SINGLE_UNIT as int);
}

/// Bringing a level between zero and one leaves it alone when it is there, or is
/// no number; a larger one becomes one, and a smaller one zero.
pub proof fn clamping_moves_only_what_is_outside(level: Level)
    ensures
        level.bits <= 0x3f80_0000 ==> level.clamped_to_unit() == level,
        0x3f80_0000 < level.bits <= 0x7f80_0000 ==> level.clamped_to_unit().bits == 0x3f80_0000,
        0x7f80_0000 < level.bits <= 0x8000_0000 ==> level.clamped_to_unit() == level,
        0x8000_0000 < level.bits <= 0xff80_0000 ==> level.clamped_to_unit().bits == 0,
        0xff80_0000 < level.bits ==> level.clamped_to_unit() == level,
{
    lemma_order(0, level.mag(), SINGLE_UNIT as int);
    lemma_order(SINGLE_ONE as int, level.mag(), SINGLE_UNIT as int);
}

/// A number that was brought between zero and one is there, unless it was no
/// number at all.
pub proof fn clamping_reaches_the_unit(level: Level)
    requires
        !level.is_nan(),
    ensures
        Level::zero().at_most(level.clamped_to_unit()),
        level.clamped_to_unit().at_most(Level::one()),
{
    lemma_order(0, SINGLE_ONE as int, SINGLE_UNIT as int);
}

/// A double-precision number, held by its IEEE 754 bit pattern.
#[derive(Clone, Copy, Debug, PartialEq, Eq, Structural)]
pub struct Double {
    pub bits: u64,
}

/// Two to the number of fraction bits of a double-precision number.
pub const DOUBLE_UNIT: u64 = 0x0010_0000_0000_0000;

/// The weight of the sign bit of a double-precision number.
pub const DOUBLE_SIGN: u64 = 0x8000_0000_0000_0000;

/// The bit pattern of positive infinity in double precision.
pub const DOUBLE_INFINITY: u64 = 0x7ff0_0000_0000_0000;

/// The bit pattern of one in double precision.
pub const DOUBLE_ONE: u64 = 0x3ff0_0000_0000_0000;

impl Double {
    /// The bit pattern without its sign bit.
    pub open spec fn mag(self) -> int {
        if self.bits < DOUBLE_SIGN {
            self.bits as int
        } else {
            self.bits - DOUBLE_SIGN
        }
    }

    /// Whether the pattern stands for no number at all.
    pub open spec fn is_nan(self) -> bool {
        self.mag() > DOUBLE_INFINITY
    }

    /// The number held, counted in units of the smallest positive number.
    pub open spec fn units(self) -> int {
        if self.bits < DOUBLE_SIGN {
            magnitude(self.mag(), DOUBLE_UNIT as int)
        } else {
            -magnitude(self.mag(), DOUBLE_UNIT as int)
        }
    }

    /// Numeric `<`: never true when either side is not a number.
    pub open spec fn below(self, other: Double) -> bool {
        !self.is_nan() && !other.is_nan() && self.units() < other.units()
    }

    /// The nearest number between zero and one. What is not a number stays so.
    pub open spec fn clamped_to_unit(self) -> Double {
        if self.below(Double { bits: 0 }) {
            Double { bits: 0 }
        } else if (Double { bits: DOUBLE_ONE }).below(self) {
            Double { bits: DOUBLE_ONE }
        } else {
            self
        }
    }

    /// Brings a number between zero and one.
    pub fn clamp_to_unit(self) -> (r: Double)
        ensures
            r == self.clamped_to_unit(),
    {
        proof {
            lemma_order(0, self.mag(), DOUBLE_UNIT as int);
            lemma_order(DOUBLE_ONE as int, self.mag(), DOUBLE_UNIT as int);
        }
        if self.bits > DOUBLE_SIGN && self.bits - DOUBLE_SIGN <= DOUBLE_INFINITY {
            Double { bits: 0 }
        } else if self.bits > DOUBLE_ONE && self.bits <= DOUBLE_INFINITY {
            Double { bits: DOUBLE_ONE }
        } else {
            self
        }
    }
}

/// The same of double precision: what is between zero and one, or is no number,
/// stays; a larger one becomes one, and a smaller one zero.
pub proof fn double_clamping_moves_only_what_is_outside(number: Double)
    ensures
        number.bits <= 0x3ff0_0000_0000_0000 ==> number.clamped_to_unit() == number,
        0x3ff0_0000_0000_0000 < number.bits <= 0x7ff0_0000_0000_0000
            ==> number.clamped_to_unit().bits == 0x3ff0_0000_0000_0000,
        0x7ff0_0000_0000_0000 < number.bits <= 0x8000_0000_0000_0000 ==> number.clamped_to_unit()
            == number,
        0x8000_0000_0000_0000 < number.bits <= 0xfff0_0000_0000_0000
            ==> number.clamped_to_unit().bits == 0,
        0xfff0_0000_0000_0000 < number.bits ==> number.clamped_to_unit() == number,
{
    lemma_order(0, number.mag(), DOUBLE_UNIT as int);
    lemma_order(DOUBLE_ONE as int, number.mag(), DOUBLE_UNIT as int);
}

/// A double-precision number that was brought between zero and one is there,
/// unless it was no number at all.
pub proof fn double_clamping_reaches_the_unit(number: Double)
    requires
        !number.is_nan(),
    ensures
        0 <= number.clamped_to_unit().units() <= (Double { bits: DOUBLE_ONE }).units(),
        !number.clamped_to_unit().is_nan(),
{
    lemma_order(0, DOUBLE_ONE as int, DOUBLE_UNIT as int);
}

/// How two sign-free patterns and their numbers compare, either way round.
proof fn lemma_order(a: int, b: int, unit: int)
    requires
        unit > 0,
        0 <= a,
        0 <= b,
    ensures
        a < b <==> magnitude(a, unit) < magnitude(b, unit),
        b < a <==> magnitude(b, unit) < magnitude(a, unit),
        magnitude(a, unit) >= 0,
        magnitude(b, unit) >= 0,
        a > 0 <==> magnitude(a, unit) > 0,
        b > 0 <==> magnitude(b, unit) > 0,
{
    if a < b {
        magnitude_is_increasing(a, b, unit);
    } else if b < a {
        magnitude_is_increasing(b, a, unit);
    }
    if a > 0 {
        magnitude_is_increasing(0, a, unit);
    }
    if b > 0 {
        magnitude_is_increasing(0, b, unit);
    }
}

} // verus!
