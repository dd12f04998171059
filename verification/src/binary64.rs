//! IEEE 754 binary64 numbers, held by their bit pattern.
//!
//! Prices, volumes and everything computed from them are numbers of this type. Each operation is
//! the correctly rounded one (to nearest, ties to even) and is proved to be, so that a result can
//! be compared bit for bit with the same computation on any conforming machine.

use vstd::prelude::*;
use vstd::arithmetic::power2::*;
use vstd::arithmetic::div_mod::*;
use vstd::arithmetic::mul::*;
use crate::rounding;
use crate::rounding::{HIDDEN, INFINITE};
use crate::significand;

verus! {

/// The sign bit of a pattern.
pub const SIGN: u64 = 0x8000_0000_0000_0000;

/// A binary64 number.
#[derive(Clone, Copy, Debug)]
pub struct Binary64 {
    pub bits: u64,
}

/// The number with a given sign and magnitude pattern.
pub open spec fn signed(negative: bool, pattern: int) -> Binary64 {
    Binary64 { bits: (if negative { pattern + SIGN } else { pattern }) as u64 }
}

/// The number nearest to `p / q`, negated where asked.
pub open spec fn nearest_ratio(negative: bool, p: int, q: int) -> Binary64 {
    signed(negative, rounding::rounded(p * pow2(1074), q))
}

impl Binary64 {
    /// Zero.
    #[verifier::allow_in_spec]
    pub fn zero() -> Binary64
        returns
            (Binary64 { bits: 0 }),
    {
        Binary64 { bits: 0 }
    }

    /// Zero with its sign bit set, the neutral element of addition.
    #[verifier::allow_in_spec]
    pub fn negative_zero() -> Binary64
        returns
            (Binary64 { bits: 0x8000_0000_0000_0000 }),
    {
        Binary64 { bits: 0x8000_0000_0000_0000 }
    }

    /// One.
    #[verifier::allow_in_spec]
    pub fn one() -> Binary64
        returns
            (Binary64 { bits: 0x3FF0_0000_0000_0000 }),
    {
        Binary64 { bits: 0x3FF0_0000_0000_0000 }
    }

    /// Positive infinity.
    #[verifier::allow_in_spec]
    pub fn infinity() -> Binary64
        returns
            (Binary64 { bits: 0x7FF0_0000_0000_0000 }),
    {
        Binary64 { bits: 0x7FF0_0000_0000_0000 }
    }

    /// Negative infinity.
    #[verifier::allow_in_spec]
    pub fn negative_infinity() -> Binary64
        returns
            (Binary64 { bits: 0xFFF0_0000_0000_0000 }),
    {
        Binary64 { bits: 0xFFF0_0000_0000_0000 }
    }

    /// What every invalid operation yields.
    #[verifier::allow_in_spec]
    pub fn nan() -> Binary64
        returns
            (Binary64 { bits: 0x7FF8_0000_0000_0000 }),
    {
        Binary64 { bits: 0x7FF8_0000_0000_0000 }
    }

    /// Whether the sign bit is set.
    pub open spec fn negative(self) -> bool {
        self.bits >= SIGN
    }

    /// The pattern without its sign bit.
    pub open spec fn magnitude(self) -> int {
        if self.bits >= SIGN {
            self.bits - SIGN
        } else {
            self.bits as int
        }
    }

    pub open spec fn is_nan_spec(self) -> bool {
        self.magnitude() > INFINITE
    }

    pub open spec fn is_infinite_spec(self) -> bool {
        self.magnitude() == INFINITE
    }

    pub open spec fn is_finite_spec(self) -> bool {
        self.magnitude() < INFINITE
    }

    /// The exact value of a finite number, in units of two to the minus 1074.
    pub open spec fn value(self) -> int {
        if self.negative() {
            -rounding::units(self.magnitude())
        } else {
            rounding::units(self.magnitude())
        }
    }

    /// The place of a number that is not NaN in the order of all such numbers; both zeros share
    /// one.
    pub open spec fn rank(self) -> int {
        if self.negative() {
            -self.magnitude()
        } else {
            self.magnitude()
        }
    }

    /// The place of any pattern in the total order, negative zero just before zero.
    pub open spec fn total_rank(self) -> int {
        if self.negative() {
            -self.magnitude() - 1
        } else {
            self.magnitude()
        }
    }

    pub open spec fn less_spec(self, other: Binary64) -> bool {
        !self.is_nan_spec() && !other.is_nan_spec() && self.rank() < other.rank()
    }

    pub open spec fn at_most_spec(self, other: Binary64) -> bool {
        !self.is_nan_spec() && !other.is_nan_spec() && self.rank() <= other.rank()
    }

    pub open spec fn equals_spec(self, other: Binary64) -> bool {
        !self.is_nan_spec() && !other.is_nan_spec() && self.rank() == other.rank()
    }

    pub open spec fn totally_before_spec(self, other: Binary64) -> bool {
        self.total_rank() < other.total_rank()
    }

    pub open spec fn negated_spec(self) -> Binary64 {
        signed(!self.negative(), self.magnitude())
    }

    pub open spec fn abs_spec(self) -> Binary64 {
        signed(false, self.magnitude())
    }

    /// The larger of two numbers; NaN only where both are.
    pub open spec fn max_spec(self, other: Binary64) -> Binary64 {
        if self.is_nan_spec() || self.less_spec(other) {
            other
        } else {
            self
        }
    }

    /// The smaller of two numbers; NaN only where both are.
    pub open spec fn min_spec(self, other: Binary64) -> Binary64 {
        if self.is_nan_spec() || other.less_spec(self) {
            other
        } else {
            self
        }
    }

    /// The sum, correctly rounded.
    #[verifier::opaque]
    pub open spec fn plus_spec(self, other: Binary64) -> Binary64 {
        if self.is_nan_spec() || other.is_nan_spec() {
            Binary64::nan()
        } else if self.is_infinite_spec() && other.is_infinite_spec() {
            if self.negative() == other.negative() {
                self
            } else {
                Binary64::nan()
            }
        } else if self.is_infinite_spec() {
            self
        } else if other.is_infinite_spec() {
            other
        } else {
            let exact = self.value() + other.value();
            if exact == 0 {
                signed(self.negative() && other.negative(), 0)
            } else if exact < 0 {
                signed(true, rounding::rounded(-exact, 1))
            } else {
                signed(false, rounding::rounded(exact, 1))
            }
        }
    }

    /// The difference, correctly rounded.
    pub open spec fn minus_spec(self, other: Binary64) -> Binary64 {
        self.plus_spec(other.negated_spec())
    }

    /// The product, correctly rounded.
    #[verifier::opaque]
    pub open spec fn times_spec(self, other: Binary64) -> Binary64 {
        let negative = self.negative() != other.negative();
        if self.is_nan_spec() || other.is_nan_spec() {
            Binary64::nan()
        } else if self.is_infinite_spec() || other.is_infinite_spec() {
            if self.magnitude() == 0 || other.magnitude() == 0 {
                Binary64::nan()
            } else {
                signed(negative, INFINITE as int)
            }
        } else {
            signed(
                negative,
                rounding::rounded(
                    rounding::units(self.magnitude()) * rounding::units(other.magnitude()),
                    pow2(1074) as int,
                ),
            )
        }
    }

    /// The quotient, correctly rounded.
    #[verifier::opaque]
    pub open spec fn over_spec(self, other: Binary64) -> Binary64 {
        let negative = self.negative() != other.negative();
        if self.is_nan_spec() || other.is_nan_spec() {
            Binary64::nan()
        } else if self.is_infinite_spec() {
            if other.is_infinite_spec() {
                Binary64::nan()
            } else {
                signed(negative, INFINITE as int)
            }
        } else if other.is_infinite_spec() {
            signed(negative, 0)
        } else if other.magnitude() == 0 {
            if self.magnitude() == 0 {
                Binary64::nan()
            } else {
                signed(negative, INFINITE as int)
            }
        } else {
            signed(
                negative,
                rounding::rounded(
                    rounding::units(self.magnitude()) * pow2(1074),
                    rounding::units(other.magnitude()),
                ),
            )
        }
    }

    /// The square root, correctly rounded.
    #[verifier::opaque]
    pub open spec fn sqrt_spec(self) -> Binary64 {
        if self.is_nan_spec() {
            Binary64::nan()
        } else if self.magnitude() == 0 {
            self
        } else if self.negative() {
            Binary64::nan()
        } else if self.is_infinite_spec() {
            self
        } else {
            signed(
                false,
                rounding::rounded_root(rounding::units(self.magnitude()) * pow2(1074)),
            )
        }
    }

    /// The largest whole number that is not above this one.
    #[verifier::opaque]
    pub open spec fn floor_spec(self) -> Binary64 {
        if self.is_nan_spec() {
            Binary64::nan()
        } else if self.is_infinite_spec() || self.magnitude() == 0 {
            self
        } else {
            let whole = self.value() / pow2(1074) as int;
            if whole < 0 {
                nearest_ratio(true, -whole, 1)
            } else {
                nearest_ratio(false, whole, 1)
            }
        }
    }

    #[verifier::when_used_as_spec(is_nan_spec)]
    pub fn is_nan(self) -> (r: bool)
        ensures
            r == self.is_nan_spec(),
    {
        self.pattern() > INFINITE
    }

    #[verifier::when_used_as_spec(is_infinite_spec)]
    pub fn is_infinite(self) -> (r: bool)
        ensures
            r == self.is_infinite_spec(),
    {
        self.pattern() == INFINITE
    }

    #[verifier::when_used_as_spec(is_finite_spec)]
    pub fn is_finite(self) -> (r: bool)
        ensures
            r == self.is_finite_spec(),
    {
        self.pattern() < INFINITE
    }

    /// The pattern without its sign bit.
    fn pattern(self) -> (r: u64)
        ensures
            r == self.magnitude(),
            r < SIGN,
    {
        if self.bits >= SIGN {
            self.bits - SIGN
        } else {
            self.bits
        }
    }

    fn is_negative(self) -> (r: bool)
        ensures
            r == self.negative(),
    {
        self.bits >= SIGN
    }

    fn from_parts(negative: bool, pattern: u64) -> (r: Binary64)
        requires
            pattern < SIGN,
        ensures
            r == signed(negative, pattern as int),
            r.negative() == negative,
            r.magnitude() == pattern,
    {
        if negative {
            Binary64 { bits: pattern + SIGN }
        } else {
            Binary64 { bits: pattern }
        }
    }

    fn order(self) -> (r: i64)
        ensures
            r == self.rank(),
    {
        let m: u64 = self.pattern();
        if self.bits >= SIGN {
            -(m as i64)
        } else {
            m as i64
        }
    }

    /// `self < other`; false where either is NaN.
    #[verifier::when_used_as_spec(less_spec)]
    pub fn less(self, other: Binary64) -> (r: bool)
        ensures
            r == self.less_spec(other),
    {
        !self.is_nan() && !other.is_nan() && self.order() < other.order()
    }

    /// `self <= other`; false where either is NaN.
    #[verifier::when_used_as_spec(at_most_spec)]
    pub fn at_most(self, other: Binary64) -> (r: bool)
        ensures
            r == self.at_most_spec(other),
    {
        !self.is_nan() && !other.is_nan() && self.order() <= other.order()
    }

    /// Numerical equality: the two zeros are equal, and NaN equals nothing.
    #[verifier::when_used_as_spec(equals_spec)]
    pub fn equals(self, other: Binary64) -> (r: bool)
        ensures
            r == self.equals_spec(other),
    {
        !self.is_nan() && !other.is_nan() && self.order() == other.order()
    }

    /// Whether `self` comes strictly first in the total order of all patterns.
    #[verifier::when_used_as_spec(totally_before_spec)]
    pub fn totally_before(self, other: Binary64) -> (r: bool)
        ensures
            r == self.totally_before_spec(other),
    {
        if self.is_negative() {
            !other.is_negative() || self.pattern() > other.pattern()
        } else {
            !other.is_negative() && self.pattern() < other.pattern()
        }
    }

    #[verifier::when_used_as_spec(negated_spec)]
    pub fn negated(self) -> (r: Binary64)
        ensures
            r == self.negated_spec(),
            r.negative() == !self.negative(),
            r.magnitude() == self.magnitude(),
    {
        Self::from_parts(!self.is_negative(), self.pattern())
    }

    #[verifier::when_used_as_spec(abs_spec)]
    pub fn abs(self) -> (r: Binary64)
        ensures
            r == self.abs_spec(),
    {
        Self::from_parts(false, self.pattern())
    }

    #[verifier::when_used_as_spec(max_spec)]
    pub fn max(self, other: Binary64) -> (r: Binary64)
        ensures
            r == self.max_spec(other),
    {
        if self.is_nan() || self.less(other) {
            other
        } else {
            self
        }
    }

    #[verifier::when_used_as_spec(min_spec)]
    pub fn min(self, other: Binary64) -> (r: Binary64)
        ensures
            r == self.min_spec(other),
    {
        if self.is_nan() || other.less(self) {
            other
        } else {
            self
        }
    }

    #[verifier::when_used_as_spec(plus_spec)]
    pub fn plus(self, other: Binary64) -> (r: Binary64)
        ensures
            r == self.plus_spec(other),
    {
        proof {
            reveal(Binary64::plus_spec);
        }
        if self.is_nan() || other.is_nan() {
            return Binary64::nan();
        }
        let a: u64 = self.pattern();
        let b: u64 = other.pattern();
        if a == INFINITE {
            return if b == INFINITE && self.is_negative() != other.is_negative() {
                Binary64::nan()
            } else {
                self
            };
        }
        if b == INFINITE {
            return other;
        }
        proof {
            rounding::lemma_units_zero(a as int);
            rounding::lemma_units_zero(b as int);
            rounding::lemma_rounded_nothing();
        }
        if self.is_negative() == other.is_negative() {
            let sum: u64 = if b <= a {
                significand::add_ordered(a, b)
            } else {
                significand::add_ordered(b, a)
            };
            Self::from_parts(self.is_negative(), sum)
        } else if a == b {
            Binary64::zero()
        } else if b < a {
            proof {
                rounding::lemma_units_order(b as int, a as int);
            }
            Self::from_parts(self.is_negative(), significand::sub_ordered(a, b))
        } else {
            proof {
                rounding::lemma_units_order(a as int, b as int);
            }
            Self::from_parts(other.is_negative(), significand::sub_ordered(b, a))
        }
    }

    #[verifier::when_used_as_spec(minus_spec)]
    pub fn minus(self, other: Binary64) -> (r: Binary64)
        ensures
            r == self.minus_spec(other),
    {
        self.plus(other.negated())
    }

    #[verifier::when_used_as_spec(times_spec)]
    pub fn times(self, other: Binary64) -> (r: Binary64)
        ensures
            r == self.times_spec(other),
    {
        proof {
            reveal(Binary64::times_spec);
        }
        let negative: bool = self.is_negative() != other.is_negative();
        if self.is_nan() || other.is_nan() {
            return Binary64::nan();
        }
        let a: u64 = self.pattern();
        let b: u64 = other.pattern();
        if a == INFINITE || b == INFINITE {
            return if a == 0 || b == 0 {
                Binary64::nan()
            } else {
                Self::from_parts(negative, INFINITE)
            };
        }
        let (ma, ka) = significand::split(a);
        let (mb, kb) = significand::split(b);
        proof {
            lemma_product(ma as int, ka as nat, mb as int, kb as nat);
        }
        let s: u128 = (ma as u128) * (mb as u128);
        let e: i32 = ka as i32 + kb as i32 - 1074;
        Self::from_parts(negative, significand::round_scaled(s, e))
    }

    #[verifier::when_used_as_spec(over_spec)]
    pub fn over(self, other: Binary64) -> (r: Binary64)
        ensures
            r == self.over_spec(other),
    {
        proof {
            reveal(Binary64::over_spec);
        }
        let negative: bool = self.is_negative() != other.is_negative();
        if self.is_nan() || other.is_nan() {
            return Binary64::nan();
        }
        let a: u64 = self.pattern();
        let b: u64 = other.pattern();
        if a == INFINITE {
            return if b == INFINITE {
                Binary64::nan()
            } else {
                Self::from_parts(negative, INFINITE)
            };
        }
        if b == INFINITE {
            return Self::from_parts(negative, 0);
        }
        if b == 0 {
            return if a == 0 {
                Binary64::nan()
            } else {
                Self::from_parts(negative, INFINITE)
            };
        }
        let (ma, ka) = significand::split(a);
        let (mb, kb) = significand::split(b);
        proof {
            lemma_quotient(ma as int, ka as nat, mb as int, kb as nat);
        }
        let e: i32 = ka as i32 - kb as i32 + 1074;
        Self::from_parts(negative, significand::round_quotient(ma, mb, e))
    }

    #[verifier::when_used_as_spec(sqrt_spec)]
    pub fn sqrt(self) -> (r: Binary64)
        ensures
            r == self.sqrt_spec(),
    {
        proof {
            reveal(Binary64::sqrt_spec);
        }
        if self.is_nan() {
            return Binary64::nan();
        }
        let a: u64 = self.pattern();
        if a == 0 {
            return self;
        }
        if self.is_negative() {
            return Binary64::nan();
        }
        if a == INFINITE {
            return self;
        }
        let (m, k) = significand::split(a);
        proof {
            lemma_pow2_adds(k as nat, 1074);
            assert((m * pow2(k as nat)) * pow2(1074) == m * (pow2(k as nat) * pow2(1074)))
                by (nonlinear_arith);
        }
        Self::from_parts(false, significand::round_root(m, k + 1074))
    }

    #[verifier::opaque]
    pub open spec fn ratio_spec(negative: bool, p: u64, q: u64) -> Binary64 {
        nearest_ratio(negative, p as int, q as int)
    }

    pub open spec fn count_spec(n: u64) -> Binary64 {
        Binary64::ratio_spec(false, n, 1)
    }

    /// The number nearest to the fraction `p / q`, negated where asked.
    #[verifier::when_used_as_spec(ratio_spec)]
    pub fn ratio(negative: bool, p: u64, q: u64) -> (r: Binary64)
        requires
            q > 0,
        ensures
            r == Self::ratio_spec(negative, p, q),
    {
        proof {
            reveal(Binary64::ratio_spec);
        }
        Self::from_parts(negative, significand::round_quotient(p, q, 1074))
    }

    /// The whole number `n`, rounded where it has more than 53 binary digits.
    #[verifier::when_used_as_spec(count_spec)]
    pub fn count(n: u64) -> (r: Binary64)
        ensures
            r == Self::count_spec(n),
    {
        Self::ratio(false, n, 1)
    }

    #[verifier::when_used_as_spec(floor_spec)]
    pub fn floor(self) -> (r: Binary64)
        ensures
            r == self.floor_spec(),
    {
        proof {
            reveal(Binary64::floor_spec);
            reveal(Binary64::ratio_spec);
        }
        if self.is_nan() {
            return Binary64::nan();
        }
        let a: u64 = self.pattern();
        if a == INFINITE || a == 0 {
            return self;
        }
        let (m, k) = significand::split(a);
        if k >= 1074 {
            proof {
                lemma_whole(a as int, m as int, k as nat);
                lemma_pow2_pos(1074);
                rounding::lemma_units_zero(a as int);
                let whole = rounding::units(a as int) / pow2(1074) as int;
                assert(whole > 0) by (nonlinear_arith)
                    requires
                        whole * pow2(1074) == rounding::units(a as int),
                        rounding::units(a as int) > 0,
                        pow2(1074) > 0,
                ;
                assert(self == signed(self.negative(), a as int));
                if self.negative() {
                    assert(self.value() / pow2(1074) as int == -whole);
                    assert(self.floor_spec() == nearest_ratio(true, whole, 1));
                } else {
                    assert(self.floor_spec() == nearest_ratio(false, whole, 1));
                }
            }
            return self;
        }
        let shift: u32 = 1074 - k;
        let whole: u64 = if shift >= 64 {
            proof {
                lemma2_to64();
                lemma2_to64_rest();
                rounding::lemma_pow2_monotone(64, shift as nat);
                lemma_fundamental_div_mod_converse(m as int, pow2(shift as nat) as int, 0, m as int);
            }
            0
        } else {
            proof {
                vstd::bits::lemma_u64_shr_is_div(m, shift as u64);
            }
            m >> (shift as u64)
        };
        proof {
            lemma_pow2_pos(k as nat);
            lemma_pow2_pos(shift as nat);
            lemma_pow2_adds(shift as nat, k as nat);
            rounding::lemma_div_scale(m as int, pow2(shift as nat) as int, pow2(k as nat) as int);
            lemma_fundamental_div_mod(m as int, pow2(shift as nat) as int);
            lemma_floor_of_negative(rounding::units(a as int), pow2(1074) as int);
            assert(whole <= m) by (nonlinear_arith)
                requires
                    m == pow2(shift as nat) * whole + m as int % pow2(shift as nat) as int,
                    m as int % pow2(shift as nat) as int >= 0,
                    pow2(shift as nat) >= 1,
            ;
        }
        if self.is_negative() {
            let exact: bool = if shift >= 64 {
                m == 0
            } else {
                let d: u128 = significand::power(shift);
                assert(whole * d <= m) by (nonlinear_arith)
                    requires
                        m == d * whole + m as int % d as int,
                        m as int % d as int >= 0,
                ;
                (whole as u128) * d == m as u128
            };
            proof {
                let v = pow2(shift as nat) as int;
                assert(v * whole == whole * v) by (nonlinear_arith);
                assert(exact <==> m as int % v == 0);
                assert((m as int % v) * pow2(k as nat) == 0 <==> m as int % v == 0) by (nonlinear_arith)
                    requires
                        pow2(k as nat) > 0,
                ;
            }
            Self::ratio(true, if exact { whole } else { whole + 1 }, 1)
        } else {
            Self::ratio(false, whole, 1)
        }
    }
}

proof fn lemma_product(ma: int, ka: nat, mb: int, kb: nat)
    requires
        0 <= ma < 2 * HIDDEN,
        0 <= mb < 2 * HIDDEN,
    ensures
        0 <= ma * mb < pow2(126),
        pow2(126) == 0x4000_0000_0000_0000_0000_0000_0000_0000,
        rounding::rounded((ma * pow2(ka)) * (mb * pow2(kb)), pow2(1074) as int)
            == rounding::rounded_scaled(ma * mb, ka + kb - 1074),
{
    lemma2_to64();
    lemma2_to64_rest();
    lemma_pow2_adds(63, 63);
    assert(0 <= ma * mb < 0x4000_0000_0000_0000_0000_0000_0000_0000) by (nonlinear_arith)
        requires
            0 <= ma < 0x20_0000_0000_0000,
            0 <= mb < 0x20_0000_0000_0000,
    ;
    lemma_pow2_adds(ka, kb);
    lemma_pow2_pos(1074);
    let p = (ma * pow2(ka)) * (mb * pow2(kb));
    assert(p == (ma * mb) * pow2(ka + kb)) by (nonlinear_arith)
        requires
            p == (ma * pow2(ka)) * (mb * pow2(kb)),
            pow2(ka + kb) == pow2(ka) * pow2(kb),
    ;
    let e = ka + kb - 1074;
    if e >= 0 {
        lemma_pow2_adds(e as nat, 1074);
        let r = (ma * mb) * pow2(e as nat);
        assert(p * 1 == r * pow2(1074)) by (nonlinear_arith)
            requires
                p == (ma * mb) * pow2(ka + kb),
                r == (ma * mb) * pow2(e as nat),
                pow2(ka + kb) == pow2(e as nat) * pow2(1074),
        ;
        rounding::lemma_rounded_ratio(p, pow2(1074) as int, r, 1);
    } else {
        let d = (-e) as nat;
        lemma_pow2_adds(d, ka + kb);
        lemma_pow2_pos(d);
        assert(p * pow2(d) == (ma * mb) * pow2(1074)) by (nonlinear_arith)
            requires
                p == (ma * mb) * pow2(ka + kb),
                pow2(1074) == pow2(d) * pow2(ka + kb),
        ;
        rounding::lemma_rounded_ratio(p, pow2(1074) as int, ma * mb, pow2(d) as int);
    }
}

proof fn lemma_quotient(ma: int, ka: nat, mb: int, kb: nat)
    requires
        0 <= ma,
        0 < mb,
    ensures
        rounding::rounded((ma * pow2(ka)) * pow2(1074), mb * pow2(kb))
            == rounding::rounded_quotient(ma, mb, ka - kb + 1074),
{
    let e = ka - kb + 1074;
    let p = (ma * pow2(ka)) * pow2(1074);
    let q = mb * pow2(kb);
    lemma_pow2_adds(ka, 1074);
    lemma_pow2_pos(kb);
    assert(q > 0) by (nonlinear_arith)
        requires
            q == mb * pow2(kb),
            mb > 0,
            pow2(kb) > 0,
    ;
    if e >= 0 {
        lemma_pow2_adds(e as nat, kb);
        assert(p * mb == (ma * pow2(e as nat)) * q) by (nonlinear_arith)
            requires
                p == (ma * pow2(ka)) * pow2(1074),
                q == mb * pow2(kb),
                pow2(ka) * pow2(1074) == pow2(e as nat) * pow2(kb),
        ;
        rounding::lemma_rounded_ratio(p, q, ma * pow2(e as nat), mb);
    } else {
        let d = (-e) as nat;
        lemma_pow2_adds(d, ka + 1074);
        lemma_pow2_pos(d);
        assert(mb * pow2(d) > 0) by (nonlinear_arith)
            requires
                mb > 0,
                pow2(d) > 0,
        ;
        assert(p * (mb * pow2(d)) == ma * q) by (nonlinear_arith)
            requires
                p == (ma * pow2(ka)) * pow2(1074),
                q == mb * pow2(kb),
                pow2(kb) == pow2(d) * (pow2(ka) * pow2(1074)),
        ;
        rounding::lemma_rounded_ratio(p, q, ma, mb * pow2(d));
    }
}

/// A number of at least the 53rd binade is whole.
pub proof fn lemma_whole(a: int, m: int, k: nat)
    requires
        0 <= a < INFINITE,
        rounding::units(a) == m * pow2(k),
        k >= 1074,
        m >= 0,
    ensures
        (rounding::units(a) / pow2(1074) as int) * pow2(1074) == rounding::units(a),
        -rounding::units(a) / pow2(1074) as int == -(rounding::units(a) / pow2(1074) as int),
        rounding::rounded((rounding::units(a) / pow2(1074) as int) * pow2(1074), 1) == a,
        rounding::units(a) / pow2(1074) as int >= 0,
{
    let d = (k - 1074) as nat;
    let w = pow2(1074) as int;
    lemma_pow2_adds(d, 1074);
    lemma_pow2_pos(1074);
    lemma_pow2_pos(d);
    let n = m * pow2(d);
    assert(m * pow2(k) == n * w) by (nonlinear_arith)
        requires
            n == m * pow2(d),
            pow2(k) == pow2(d) * w,
    ;
    assert(n >= 0) by (nonlinear_arith)
        requires
            n == m * pow2(d),
            m >= 0,
            pow2(d) > 0,
    ;
    lemma_fundamental_div_mod_converse(n * w, w, n, 0);
    assert(-(n * w) == (-n) * w) by (nonlinear_arith);
    lemma_fundamental_div_mod_converse(-(n * w), w, -n, 0);
    rounding::lemma_rounded_exact(a);
}

/// Dividing a negative number rounds away from zero unless the division is exact.
proof fn lemma_floor_of_negative(u: int, w: int)
    requires
        w > 0,
    ensures
        u % w == 0 ==> (-u) / w == -(u / w),
        u % w != 0 ==> (-u) / w == -(u / w) - 1,
{
    lemma_fundamental_div_mod(u, w);
    let f = u / w;
    let r = u % w;
    if r == 0 {
        assert(-u == (-f) * w) by (nonlinear_arith)
            requires
                u == w * f,
        ;
        lemma_fundamental_div_mod_converse(-u, w, -f, 0);
    } else {
        assert(-u == (-f - 1) * w + (w - r)) by (nonlinear_arith)
            requires
                u == w * f + r,
        ;
        lemma_fundamental_div_mod_converse(-u, w, -f - 1, w - r);
    }
}

impl PartialEq for Binary64 {
    fn eq(&self, other: &Self) -> (r: bool) {
        self.equals(*other)
    }
}

impl vstd::std_specs::cmp::PartialEqSpecImpl for Binary64 {
    open spec fn obeys_eq_spec() -> bool {
        true
    }

    open spec fn eq_spec(&self, other: &Self) -> bool {
        self.equals_spec(*other)
    }
}

/// Less is less in value.
pub proof fn law_less_is_value_order(a: Binary64, b: Binary64)
    requires
        a.is_finite(),
        b.is_finite(),
    ensures
        a.less(b) <==> a.value() < b.value(),
        a.equals(b) <==> a.value() == b.value(),
{
    let (m, n) = (a.magnitude(), b.magnitude());
    rounding::lemma_units_zero(m);
    rounding::lemma_units_zero(n);
    if m < n {
        rounding::lemma_units_order(m, n);
    } else if n < m {
        rounding::lemma_units_order(n, m);
    }
}

/// What a signed magnitude is worth.
proof fn lemma_signed_value(negative: bool, pattern: int)
    requires
        0 <= pattern < INFINITE,
    ensures
        signed(negative, pattern).is_finite(),
        signed(negative, pattern).value() == if negative {
            -rounding::units(pattern)
        } else {
            rounding::units(pattern)
        },
{
}

/// No finite number is nearer to `p / q`, negated where asked, than the one it rounds to.
pub proof fn law_nearest(negative: bool, p: int, q: int, c: Binary64)
    requires
        p >= 0,
        q > 0,
        c.is_finite(),
        rounding::rounded(p, q) < INFINITE,
    ensures
        ({
            let exact = if negative {
                -p
            } else {
                p
            };
            rounding::apart(signed(negative, rounding::rounded(p, q)).value() * q, exact)
                <= rounding::apart(c.value() * q, exact)
        }),
{
    let pattern = rounding::rounded(p, q);
    let m = c.magnitude();
    rounding::lemma_rounded_not_negative(p, q);
    lemma_signed_value(negative, pattern);
    rounding::law_rounded_is_nearest(p, q, m);
    rounding::law_rounded_is_nearest(p, q, 0);
    rounding::lemma_units_zero(m);
    rounding::lemma_units_zero(0);
    let (u, v) = (rounding::units(pattern), rounding::units(m));
    assert((-u) * q == -(u * q)) by (nonlinear_arith);
    assert((-v) * q == -(v * q)) by (nonlinear_arith);
    assert(v * q >= 0) by (nonlinear_arith)
        requires
            v >= 0,
            q > 0,
    ;
}

/// No finite number is nearer to the sum of two than the one that adding them gives.
pub proof fn law_plus_is_nearest(a: Binary64, b: Binary64, c: Binary64)
    requires
        a.is_finite(),
        b.is_finite(),
        c.is_finite(),
        a.plus(b).is_finite(),
    ensures
        rounding::apart(a.plus(b).value(), a.value() + b.value()) <= rounding::apart(
            c.value(),
            a.value() + b.value(),
        ),
{
    reveal(Binary64::plus_spec);
    let exact = a.value() + b.value();
    if exact == 0 {
        lemma_signed_value(a.negative() && b.negative(), 0);
        rounding::lemma_units_zero(0);
    } else {
        let p = if exact < 0 {
            -exact
        } else {
            exact
        };
        rounding::lemma_rounded_not_negative(p, 1);
        law_nearest(exact < 0, p, 1, c);
    }
}

/// No finite number is nearer to the product of two than the one that multiplying them gives.
/// Values are counted in units, of which there are two to the 1074 to one.
pub proof fn law_times_is_nearest(a: Binary64, b: Binary64, c: Binary64)
    requires
        a.is_finite(),
        b.is_finite(),
        c.is_finite(),
        a.times(b).is_finite(),
    ensures
        rounding::apart(a.times(b).value() * pow2(1074), a.value() * b.value()) <= rounding::apart(
            c.value() * pow2(1074),
            a.value() * b.value(),
        ),
{
    reveal(Binary64::times_spec);
    lemma_pow2_pos(1074);
    let (u, v) = (rounding::units(a.magnitude()), rounding::units(b.magnitude()));
    rounding::lemma_units_zero(a.magnitude());
    rounding::lemma_units_zero(b.magnitude());
    assert(u * v >= 0) by (nonlinear_arith)
        requires
            u >= 0,
            v >= 0,
    ;
    assert((-u) * v == -(u * v) && u * (-v) == -(u * v) && (-u) * (-v) == u * v)
        by (nonlinear_arith);
    rounding::lemma_rounded_not_negative(u * v, pow2(1074) as int);
    law_nearest(a.negative() != b.negative(), u * v, pow2(1074) as int, c);
}

/// No finite number is nearer to the quotient of two than the one that dividing them gives. The
/// distances are stated after multiplying with the divisor, whose sign they leave out.
pub proof fn law_over_is_nearest(a: Binary64, b: Binary64, c: Binary64)
    requires
        a.is_finite(),
        b.is_finite(),
        b.magnitude() > 0,
        c.is_finite(),
        a.over(b).is_finite(),
    ensures
        ({
            let divisor = rounding::units(b.magnitude());
            let scaled = if b.negative() {
                -a.value()
            } else {
                a.value()
            } * pow2(1074);
            rounding::apart(a.over(b).value() * divisor, scaled) <= rounding::apart(
                c.value() * divisor,
                scaled,
            )
        }),
{
    reveal(Binary64::over_spec);
    lemma_pow2_pos(1074);
    let (u, v) = (rounding::units(a.magnitude()), rounding::units(b.magnitude()));
    rounding::lemma_units_zero(a.magnitude());
    rounding::lemma_units_zero(b.magnitude());
    let p = u * pow2(1074);
    assert(p >= 0) by (nonlinear_arith)
        requires
            u >= 0,
            p == u * pow2(1074),
    ;
    assert((-u) * pow2(1074) == -p) by (nonlinear_arith)
        requires
            p == u * pow2(1074),
    ;
    rounding::lemma_rounded_not_negative(p, v);
    law_nearest(a.negative() != b.negative(), p, v, c);
}

/// The difference of two finite numbers is not negative where the first is at least the second.
pub proof fn law_minus_keeps_order(a: Binary64, b: Binary64)
    requires
        a.is_finite(),
        b.is_finite(),
        b.at_most(a),
    ensures
        Binary64::zero().at_most(a.minus(b)),
{
    reveal(Binary64::plus_spec);
    law_less_is_value_order(a, b);
    law_less_is_value_order(b, a);
    let n = b.negated();
    assert(n.magnitude() == b.magnitude() && n.negative() == !b.negative());
    let exact = a.value() - b.value();
    assert(exact == a.value() + n.value());
    assert(exact >= 0);
    if exact > 0 {
        rounding::lemma_rounded_not_negative(exact, 1);
    }
}

/// The pattern of a whole number that fills a significand when it is shifted by `e` digits.
pub proof fn lemma_count_pattern(n: u64, e: nat, pattern: int)
    requires
        e <= 1074,
        0 <= pattern < INFINITE,
        pattern / HIDDEN as int == 1075 - e,
        n * pow2(e) == pattern % HIDDEN as int + HIDDEN,
    ensures
        Binary64::count(n) == signed(false, pattern),
{
    reveal(Binary64::ratio_spec);
    lemma_pow2_adds(e, (1074 - e) as nat);
    let w = pow2((1074 - e) as nat) as int;
    assert((n * pow2(e)) * w == n * (pow2(e) * w)) by (nonlinear_arith);
    assert(pattern >= HIDDEN) by {
        lemma_fundamental_div_mod(pattern, HIDDEN as int);
    }
    rounding::lemma_rounded_exact(pattern);
}

/// One is the whole number, and minus one is one negated.
pub proof fn lemma_ones()
    ensures
        Binary64::count(1) == Binary64::one(),
        Binary64::ratio(true, 1, 1) == Binary64::one().negated(),
        rounding::units(Binary64::one().magnitude()) == pow2(1074),
{
    reveal(Binary64::ratio_spec);
    lemma2_to64();
    lemma2_to64_rest();
    lemma_pow2_adds(52, 1022);
    lemma_count_pattern(1, 52, 0x3FF0_0000_0000_0000);
    rounding::lemma_rounded_exact(0x3FF0_0000_0000_0000);
    assert(rounding::rounded(1int * pow2(1074), 1) == 0x3FF0_0000_0000_0000);
}

/// A whole number is finite, and positive unless it is zero.
pub proof fn law_counts_are_finite(n: u64)
    ensures
        Binary64::count(n).is_finite(),
        !Binary64::count(n).negative(),
        n > 0 ==> Binary64::count(n).magnitude() > 0,
{
    reveal(Binary64::ratio_spec);
    let w = pow2(1074) as int;
    let p = n * w;
    let k = rounding::binade(p);
    let d = pow2(k) as int;
    lemma_pow2_pos(1074);
    lemma_pow2_pos(k);
    lemma2_to64();
    lemma_pow2_adds(64, 1074);
    assert(0 <= p < pow2(1138)) by (nonlinear_arith)
        requires
            p == n * w,
            0 <= n < 0x1_0000_0000_0000_0000,
            w > 0,
            pow2(1138) == 0x1_0000_0000_0000_0000 * w,
    ;
    rounding::lemma_binade_bounds(p);
    if k >= 1087 {
        rounding::lemma_hidden_pow2(k);
        rounding::lemma_pow2_monotone(1138, 52 + k);
    }
    let f = p / d;
    assert(0 <= f < 2 * HIDDEN) by (nonlinear_arith)
        requires
            f == p / d,
            0 <= p < 2 * HIDDEN * d,
            d > 0,
    ;
    assert(rounding::half_even(p, 1 * d) <= 2 * HIDDEN);
    assert(k * HIDDEN + 2 * HIDDEN < INFINITE) by (nonlinear_arith)
        requires
            k <= 1086,
            HIDDEN == 0x10_0000_0000_0000,
            INFINITE == 0x7FF0_0000_0000_0000,
    ;
    rounding::lemma_rounded_not_negative(p, 1);
    if n > 0 {
        lemma_ones();
        assert(w <= p) by (nonlinear_arith)
            requires
                p == n * w,
                n >= 1,
                w > 0,
        ;
        rounding::lemma_rounded_at_least(p, 1, Binary64::one().magnitude());
    }
}

/// A finite number that is not zero goes into itself once.
pub proof fn law_over_itself(x: Binary64)
    requires
        x.is_finite(),
        x.magnitude() > 0,
    ensures
        x.over(x) == Binary64::one(),
{
    reveal(Binary64::over_spec);
    let u = rounding::units(x.magnitude());
    let w = pow2(1074) as int;
    rounding::lemma_units_zero(x.magnitude());
    lemma_ones();
    rounding::lemma_rounded_ratio(u * w, u, w, 1);
    rounding::lemma_rounded_exact(Binary64::one().magnitude());
}

/// Multiplying one with a finite number gives the number.
pub proof fn law_one_times(x: Binary64)
    requires
        x.is_finite(),
    ensures
        Binary64::one().times(x) == x,
{
    reveal(Binary64::times_spec);
    let u = rounding::units(x.magnitude());
    let w = pow2(1074) as int;
    lemma_pow2_pos(1074);
    lemma_ones();
    assert((w * u) * 1 == u * w) by (nonlinear_arith);
    rounding::lemma_rounded_ratio(w * u, w, u, 1);
    rounding::lemma_rounded_exact(x.magnitude());
}

/// Multiplying with minus one gives the negative of multiplying with one; of NaN both give NaN.
pub proof fn law_times_minus_one(x: Binary64)
    ensures
        !x.is_nan() ==> x.times(Binary64::ratio(true, 1, 1)) == x.times(Binary64::one()).negated(),
        x.is_nan() ==> x.times(Binary64::ratio(true, 1, 1)).is_nan() && x.times(
            Binary64::one(),
        ).is_nan(),
{
    reveal(Binary64::times_spec);
    lemma_ones();
    if x.is_finite() {
        let u = rounding::units(x.magnitude());
        let w = pow2(1074) as int;
        lemma_pow2_pos(1074);
        rounding::lemma_units_zero(x.magnitude());
        assert(u * w >= 0) by (nonlinear_arith)
            requires
                u >= 0,
                w > 0,
        ;
        rounding::lemma_rounded_not_negative(u * w, w);
    }
}

/// Half as much again as a number that is not negative is at least the number.
pub proof fn law_half_more_is_not_less(x: Binary64)
    requires
        Binary64::zero().at_most(x),
    ensures
        x.at_most(Binary64::ratio(false, 15, 10).times(x)),
{
    reveal(Binary64::times_spec);
    reveal(Binary64::ratio_spec);
    let w = pow2(1074) as int;
    let m = 0x3FF8_0000_0000_0000int;
    lemma_pow2_pos(1074);
    lemma2_to64();
    lemma2_to64_rest();
    lemma_pow2_adds(51, 1022);
    lemma_pow2_unfold(1074);
    let one_and_half = Binary64::ratio(false, 15, 10);
    assert(rounding::units(m) == 3 * pow2(1073)) by {
        assert(m % HIDDEN as int == 0x8_0000_0000_0000 && m / HIDDEN as int == 1023);
        assert(rounding::units(m) == (3 * 0x8_0000_0000_0000) * pow2(1022));
        assert((3 * 0x8_0000_0000_0000) * pow2(1022) == 3 * (0x8_0000_0000_0000 * pow2(1022)))
            by (nonlinear_arith);
    }
    assert(one_and_half == signed(false, m)) by {
        rounding::lemma_rounded_ratio(15 * w, 10, (3 * pow2(1073)) as int, 1);
        rounding::lemma_rounded_exact(m);
    }
    if x.is_finite() {
        let u = rounding::units(x.magnitude());
        let v = rounding::units(m);
        rounding::lemma_units_zero(x.magnitude());
        assert(u * w <= v * u) by (nonlinear_arith)
            requires
                u >= 0,
                w <= v,
        ;
        rounding::lemma_rounded_at_least(v * u, w, x.magnitude());
        if x.magnitude() == 0 {
            assert(v * u == 0) by (nonlinear_arith)
                requires
                    u == 0,
            ;
            rounding::lemma_rounded_ratio(0, w, 0, 1);
            rounding::lemma_rounded_nothing();
        }
    }
}

/// Adding zero changes no value, and adding negative zero nothing at all.
pub proof fn law_zero_is_neutral(a: Binary64)
    requires
        a.is_finite(),
    ensures
        a.plus(Binary64::negative_zero()) == a,
        a.plus(Binary64::zero()).equals(a),
{
    reveal(Binary64::plus_spec);
    rounding::lemma_units_zero(a.magnitude());
    rounding::lemma_units_zero(0);
    rounding::lemma_rounded_exact(a.magnitude());
}

} // verus!
