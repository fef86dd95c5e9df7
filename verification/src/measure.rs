//! Measured quantities, carried as the bits of a double-precision number.
//! Their order is decided here, on the bits. Their sums, quotients and decimal
//! texts are not.
use vstd::arithmetic::power2::pow2;
use vstd::prelude::*;

verus! {

/// A double-precision number, by its IEEE 754 bits.
#[derive(Clone, Copy, Debug, PartialEq, Eq, Structural)]
pub struct Measure {
    pub bits: u64,
}

/// The sign bit.
pub const SIGN: u64 = 0x8000_0000_0000_0000;

/// The bits of positive infinity. A magnitude above it is that of a NaN.
pub const INFINITE: u64 = 0x7FF0_0000_0000_0000;

/// The place of the exponent in the bits. A significand of a number of at least
/// one has this bit.
pub const ONE_EXPONENT: u64 = 0x10_0000_0000_0000;

/// The exponent of one, as it stands in the bits.
pub const EXPONENT_OF_ONE: u64 = 1023;

/// The exponent with which a significand is the number itself.
pub const EXPONENT_OF_UNIT: u64 = 1075;

impl Measure {
    /// The bits without the sign.
    pub open spec fn magnitude(self) -> int {
        if self.bits >= SIGN {
            self.bits - SIGN
        } else {
            self.bits as int
        }
    }

    /// Whether this is not a number.
    pub open spec fn is_nan(self) -> bool {
        self.magnitude() > INFINITE
    }

    /// An integer that orders the numbers: larger for a larger number, and
    /// equal for the two zeros.
    pub open spec fn rank(self) -> int {
        if self.bits >= SIGN {
            -self.magnitude()
        } else {
            self.magnitude()
        }
    }

    /// Whether one number is below another. A NaN is neither below nor above.
    pub open spec fn below(self, other: Measure) -> bool {
        !self.is_nan() && !other.is_nan() && self.rank() < other.rank()
    }

    /// The larger of two, or the one that is a number where the other is not.
    pub open spec fn larger(self, other: Measure) -> Measure {
        if self.is_nan() || self.below(other) {
            other
        } else {
            self
        }
    }

    /// The smaller of two, or the one that is a number where the other is not.
    pub open spec fn smaller(self, other: Measure) -> Measure {
        if self.is_nan() || other.below(self) {
            other
        } else {
            self
        }
    }

    /// The exponent, as it stands in the bits.
    pub open spec fn exponent(self) -> int {
        self.magnitude() / (ONE_EXPONENT as int)
    }

    /// The significand of a number of at least one, as an integer.
    pub open spec fn significand(self) -> int {
        ONE_EXPONENT + self.magnitude() % (ONE_EXPONENT as int)
    }

    /// The whole part of the number without its sign.
    pub open spec fn whole_magnitude(self) -> int {
        if self.exponent() < EXPONENT_OF_ONE {
            0
        } else if self.exponent() <= EXPONENT_OF_UNIT {
            self.significand() / (pow2((EXPONENT_OF_UNIT - self.exponent()) as nat) as int)
        } else {
            self.significand() * (pow2((self.exponent() - EXPONENT_OF_UNIT) as nat) as int)
        }
    }

    /// The integer nearest to the whole part, and zero where this is not a number.
    pub open spec fn integer(self) -> i64 {
        if self.is_nan() {
            0
        } else if self.bits >= SIGN {
            if self.whole_magnitude() > -i64::MIN {
                i64::MIN
            } else {
                (-self.whole_magnitude()) as i64
            }
        } else if self.whole_magnitude() > i64::MAX {
            i64::MAX
        } else {
            self.whole_magnitude() as i64
        }
    }

    /// Zero.
    pub fn zero() -> (r: Measure)
        ensures
            r == (Measure { bits: 0 }),
    {
        Measure { bits: 0 }
    }

    /// Positive infinity.
    pub fn infinity() -> (r: Measure)
        ensures
            r == (Measure { bits: INFINITE }),
    {
        Measure { bits: INFINITE }
    }

    /// Negative infinity.
    pub fn neg_infinity() -> (r: Measure)
        ensures
            r == (Measure { bits: (SIGN + INFINITE) as u64 }),
    {
        Measure { bits: SIGN + INFINITE }
    }

    fn not_a_number(self) -> (r: bool)
        ensures
            r == self.is_nan(),
    {
        if self.bits >= SIGN {
            self.bits - SIGN > INFINITE
        } else {
            self.bits > INFINITE
        }
    }

    /// Whether one number is below another.
    pub fn less_than(self, other: Measure) -> (r: bool)
        ensures
            r == self.below(other),
    {
        if self.not_a_number() || other.not_a_number() {
            return false;
        }
        if self.bits >= SIGN {
            if other.bits >= SIGN {
                other.bits < self.bits
            } else {
                self.bits > SIGN || other.bits > 0
            }
        } else {
            other.bits < SIGN && self.bits < other.bits
        }
    }

    /// The larger of two numbers.
    pub fn max(self, other: Measure) -> (r: Measure)
        ensures
            r == self.larger(other),
    {
        if self.not_a_number() || self.less_than(other) {
            other
        } else {
            self
        }
    }

    /// The smaller of two numbers.
    pub fn min(self, other: Measure) -> (r: Measure)
        ensures
            r == self.smaller(other),
    {
        if self.not_a_number() || other.less_than(self) {
            other
        } else {
            self
        }
    }
}

impl Measure {
    /// The whole part of a number that is large or not, up to what fits.
    fn whole(self) -> (r: Option<u64>)
        requires
            !self.is_nan(),
        ensures
            match r {
                Some(w) => w == self.whole_magnitude() && w < SIGN,
                None => self.whole_magnitude() >= SIGN,
            },
    {
        let magnitude: u64 = if self.bits >= SIGN {
            self.bits - SIGN
        } else {
            self.bits
        };
        let exponent: u64 = magnitude / ONE_EXPONENT;
        let significand: u64 = ONE_EXPONENT + magnitude % ONE_EXPONENT;
        if exponent < EXPONENT_OF_ONE {
            return Some(0);
        }
        if exponent <= EXPONENT_OF_UNIT {
            let shift: u64 = EXPONENT_OF_UNIT - exponent;
            proof {
                vstd::bits::lemma_u64_shr_is_div(significand, shift);
                vstd::arithmetic::power2::lemma_pow2_pos(shift as nat);
                vstd::arithmetic::div_mod::lemma_div_is_ordered_by_denominator(
                    significand as int,
                    1,
                    pow2(shift as nat) as int,
                );
            }
            return Some(significand >> shift);
        }
        let shift: u64 = exponent - EXPONENT_OF_UNIT;
        if shift > 10 {
            proof {
                vstd::arithmetic::power2::lemma2_to64();
                if shift > 11 {
                    vstd::arithmetic::power2::lemma_pow2_strictly_increases(11, shift as nat);
                }
                assert(significand * pow2(shift as nat) >= 0x10_0000_0000_0000 * 0x800)
                    by (nonlinear_arith)
                    requires
                        significand >= 0x10_0000_0000_0000,
                        pow2(shift as nat) >= 0x800,
                ;
            }
            return None;
        }
        proof {
            vstd::arithmetic::power2::lemma2_to64();
            if shift < 10 {
                vstd::arithmetic::power2::lemma_pow2_strictly_increases(shift as nat, 10);
            }
            assert(significand * pow2(shift as nat) <= 0x1F_FFFF_FFFF_FFFF * 0x400)
                by (nonlinear_arith)
                requires
                    significand <= 0x1F_FFFF_FFFF_FFFF,
                    pow2(shift as nat) <= 0x400,
            ;
            vstd::bits::lemma_u64_shl_is_mul(significand, shift);
        }
        Some(significand << shift)
    }

    /// The integer nearest to the whole part.
    pub fn to_integer(self) -> (r: i64)
        ensures
            r == self.integer(),
    {
        if self.not_a_number() {
            return 0;
        }
        match self.whole() {
            Some(whole) => if self.bits >= SIGN {
                -(whole as i64)
            } else {
                whole as i64
            },
            None => if self.bits >= SIGN {
                i64::MIN
            } else {
                i64::MAX
            },
        }
    }
}

/// The distance of the double-precision numbers around a natural number, or one
/// where they are closer.
pub open spec fn double_step(n: nat) -> nat
    decreases n,
{
    if n < 2 * ONE_EXPONENT {
        1
    } else {
        2 * double_step(n / 2)
    }
}

/// The double-precision number nearest to a natural number, the even one of two
/// that are as near.
pub open spec fn nearest_double(n: nat) -> nat {
    let step = double_step(n);
    let below = n / step;
    let rest = n % step;
    if 2 * rest > step || (2 * rest == step && below % 2 == 1) {
        (below + 1) * step
    } else {
        below * step
    }
}

/// What is left of a natural number that was a double-precision number in between.
pub open spec fn through_double(n: nat) -> i64 {
    if nearest_double(n) > i64::MAX {
        i64::MAX
    } else {
        nearest_double(n) as i64
    }
}

proof fn lemma_halves(n: nat, step: nat)
    requires
        step > 0,
    ensures
        (n / step) / 2 == n / (step * 2),
{
    vstd::arithmetic::div_mod::lemma_div_denominator(n as int, step as int, 2);
}

/// Makes a natural number a double-precision number and back.
pub fn round_through_double(n: i64) -> (r: i64)
    requires
        n >= 0,
    ensures
        r == through_double(n as nat),
{
    let n: u64 = n as u64;
    let mut step: u64 = 1;
    let mut below: u64 = n;
    assert(n as nat / 1 == n);
    while below >= 2 * ONE_EXPONENT
        invariant
            n <= i64::MAX,
            step > 0,
            below == n as nat / step as nat,
            double_step(n as nat) == step as nat * double_step(below as nat),
            step == 1 || below >= ONE_EXPONENT,
            below * step <= n,
        decreases below,
    {
        proof {
            lemma_halves(n as nat, step as nat);
            assert(2 * step <= n) by (nonlinear_arith)
                requires
                    below * step <= n,
                    below >= 2,
            ;
            assert(step as nat * (2 * double_step((below / 2) as nat)) == (2 * step) as nat
                * double_step((below / 2) as nat)) by (nonlinear_arith);
            assert((below / 2) * (2 * step) <= below * step) by (nonlinear_arith)
                requires
                    2 * (below / 2) <= below,
            ;
        }
        step = 2 * step;
        below = below / 2;
    }
    proof {
        assert(step as nat * 1 == step);
        assert(double_step(n as nat) == step);
        vstd::arithmetic::div_mod::lemma_fundamental_div_mod(n as int, step as int);
        assert(below * step == step * below) by (nonlinear_arith);
        assert((below + 1) * step == below * step + step) by (nonlinear_arith);
        assert(step <= n || step == 1) by (nonlinear_arith)
            requires
                step == 1 || below >= ONE_EXPONENT,
                below * step <= n,
        ;
    }
    let rest: u64 = n % step;
    let nearest: u64 = if rest > step - rest || (rest == step - rest && below % 2 == 1) {
        n - rest + step
    } else {
        n - rest
    };
    if nearest > 0x7FFF_FFFF_FFFF_FFFF {
        i64::MAX
    } else {
        nearest as i64
    }
}

/// A natural number that a double-precision number can be is kept by it.
pub proof fn small_integers_are_doubles(n: nat)
    requires
        n < 2 * ONE_EXPONENT,
    ensures
        through_double(n) == n,
{
    assert(n / 1 == n);
    assert(n % 1 == 0);
    assert(nearest_double(n) == n * 1);
}

/// The larger of two numbers is below neither of them, and is one of them.
pub proof fn larger_is_an_upper_bound(a: Measure, b: Measure)
    ensures
        a.larger(b) == a || a.larger(b) == b,
        !a.larger(b).below(a),
        !a.larger(b).below(b),
{
}

/// Neither of two numbers is below the smaller of them, which is one of them.
pub proof fn smaller_is_a_lower_bound(a: Measure, b: Measure)
    ensures
        a.smaller(b) == a || a.smaller(b) == b,
        !a.below(a.smaller(b)),
        !b.below(a.smaller(b)),
{
}

/// Numbers are ordered as they are: one without a sign by its bits, one with a sign the
/// other way round and before those without, and the two zeros alike. What is not a
/// number is before and after nothing.
pub proof fn numbers_are_in_order(a: Measure, b: Measure, c: Measure)
    ensures
        !a.below(a),
        a.below(b) && b.below(c) ==> a.below(c),
        a.below(b) ==> !b.below(a),
        a.bits <= INFINITE && b.bits <= INFINITE ==> (a.below(b) <==> a.bits < b.bits),
        SIGN <= a.bits <= SIGN + INFINITE && SIGN <= b.bits <= SIGN + INFINITE ==> (a.below(b)
            <==> b.bits < a.bits),
        SIGN <= a.bits <= SIGN + INFINITE && b.bits <= INFINITE ==> (a.below(b) <==> !(a.bits
            == SIGN && b.bits == 0)) && !b.below(a),
        INFINITE < a.bits < SIGN || a.bits > SIGN + INFINITE ==> !a.below(b) && !b.below(a),
{
}

/// The larger and the smaller of two numbers are the one and the other. Where one is
/// not a number, both are the other.
pub proof fn larger_and_smaller_are_of_the_two(a: Measure, b: Measure)
    ensures
        a.is_nan() ==> a.larger(b) == b && a.smaller(b) == b,
        !a.is_nan() && b.is_nan() ==> a.larger(b) == a && a.smaller(b) == a,
        a.below(b) ==> a.larger(b) == b && a.smaller(b) == a,
        b.below(a) ==> a.larger(b) == a && a.smaller(b) == b,
        !a.is_nan() && !b.is_nan() && a.rank() == b.rank() ==> a.larger(b) == a && a.smaller(b)
            == a,
{
}

/// The integer of a number is what stands before its point: no more than the number
/// without its sign, and less than one below it. One that is too large for an integer
/// is the largest or the smallest there is, and what is not a number is zero.
pub proof fn integers_are_what_stands_before_the_point(m: Measure)
    ensures
        m.is_nan() ==> m.integer() == 0,
        !m.is_nan() ==> {
            let whole = m.whole_magnitude();
            let exponent = m.magnitude() / 0x10_0000_0000_0000;
            let significand = 0x10_0000_0000_0000 + m.magnitude() % 0x10_0000_0000_0000;
            &&& exponent < 1023 ==> whole == 0
            &&& 1023 <= exponent <= 1075 ==> {
                let unit = pow2((1075 - exponent) as nat) as int;
                whole * unit <= significand < (whole + 1) * unit
            }
            &&& exponent > 1075 ==> whole == significand * pow2((exponent - 1075) as nat)
            &&& m.bits < SIGN ==> m.integer() == (if whole > i64::MAX {
                i64::MAX as int
            } else {
                whole
            })
            &&& m.bits >= SIGN ==> m.integer() == (if -whole < i64::MIN {
                i64::MIN as int
            } else {
                -whole
            })
        },
{
    if !m.is_nan() {
        let exponent = m.magnitude() / 0x10_0000_0000_0000;
        let significand = 0x10_0000_0000_0000 + m.magnitude() % 0x10_0000_0000_0000;
        let whole = m.whole_magnitude();
        if 1023 <= exponent <= 1075 {
            let unit = pow2((1075 - exponent) as nat) as int;
            vstd::arithmetic::power2::lemma_pow2_pos((1075 - exponent) as nat);
            vstd::arithmetic::div_mod::lemma_fundamental_div_mod(significand, unit);
            vstd::arithmetic::div_mod::lemma_mod_bound(significand, unit);
            assert(whole == significand / unit);
            assert(unit * whole == whole * unit) by (nonlinear_arith);
            assert((whole + 1) * unit == whole * unit + unit) by (nonlinear_arith);
            assert(whole >= 0) by (nonlinear_arith)
                requires
                    whole == significand / unit,
                    significand >= 0,
                    unit > 0,
            ;
        } else if exponent > 1075 {
            vstd::arithmetic::power2::lemma_pow2_pos((exponent - 1075) as nat);
            assert(whole >= 0) by (nonlinear_arith)
                requires
                    whole == significand * (pow2((exponent - 1075) as nat) as int),
                    significand >= 0,
                    pow2((exponent - 1075) as nat) > 0,
            ;
        }
    }
}

proof fn lemma_double_step(n: nat)
    ensures
        double_step(n) > 0,
    decreases n,
{
    if n >= 2 * ONE_EXPONENT {
        lemma_double_step(n / 2);
    }
}

/// The double-precision number nearest to a natural number is a multiple of the
/// distance of those around it, and no further from it than half of that.
pub proof fn nearest_doubles_are_near(n: nat)
    ensures
        ({
            let step = double_step(n) as int;
            let nearest = nearest_double(n) as int;
            &&& step > 0
            &&& exists|k: int| nearest == #[trigger] (k * step)
            &&& -step <= 2 * (nearest - n) <= step
        }),
{
    let step = double_step(n) as int;
    lemma_double_step(n);
    let below = n as int / step;
    let rest = n as int % step;
    vstd::arithmetic::div_mod::lemma_fundamental_div_mod(n as int, step);
    vstd::arithmetic::div_mod::lemma_mod_bound(n as int, step);
    assert(step * below == below * step) by (nonlinear_arith);
    assert((below + 1) * step == below * step + step) by (nonlinear_arith);
    assert(below >= 0) by (nonlinear_arith)
        requires
            below == n as int / step,
            step > 0,
            n >= 0,
    ;
    assert(nearest_double(n) == below * step || nearest_double(n) == (below + 1) * step);
}

} // verus!
