//! Binary64 numbers, carried by their bit patterns.
//!
//! Coordinates, day progress, cloud cover and the factor for idle screens are floating-point
//! numbers that the program computes elsewhere. The library orders and clamps them, turns them
//! into whole percentages and scales a percentage by a factor; all of that is decided by the bits.

use vstd::arithmetic::power2::*;
use vstd::prelude::*;

verus! {

/// A binary64 number: `bits` is what `to_bits` gives for it.
///
/// `==` compares bit patterns.
#[derive(Clone, Copy, Debug, PartialEq, Eq, Structural)]
pub struct Number {
    pub bits: u64,
}

/// The bit that holds the sign.
pub const SIGN_BIT: u64 = 0x8000_0000_0000_0000;

/// The bits of positive infinity: what lies above, sign aside, is not a number.
pub const INFINITY_BITS: u64 = 0x7FF0_0000_0000_0000;

/// The bits of `0.0`.
pub const ZERO_BITS: u64 = 0;

/// The bits of `1.0`.
pub const ONE_BITS: u64 = 0x3FF0_0000_0000_0000;

/// The bits of `100.0`.
pub const HUNDRED_BITS: u64 = 0x4059_0000_0000_0000;

/// The bits of `0.3`.
pub const THREE_TENTHS_BITS: u64 = 0x3FD3_3333_3333_3333;

/// The bits of `0.5`.
pub const HALF_BITS: u64 = 0x3FE0_0000_0000_0000;

/// Two to the 52nd power: one more than the largest stored fraction.
pub const FRACTION_RANGE: u64 = 0x10_0000_0000_0000;

/// Two to the 53rd power: the significand of a binary64 number lies below it.
pub const SIGNIFICAND_RANGE: u128 = 0x20_0000_0000_0000;

/// The distance between neighbouring binary64 numbers around the whole number `p`, where whole
/// numbers below 2^53 are all representable.
pub open spec fn spacing(p: nat) -> nat
    decreases p,
{
    if p < SIGNIFICAND_RANGE {
        1
    } else {
        2 * spacing(p / 2)
    }
}

/// The whole number `p` rounded to 53 significant bits, a tie going to the even neighbour.
pub open spec fn nearest(p: nat) -> nat {
    let u = spacing(p);
    let q = p / u;
    let r = p % u;
    if 2 * r < u || (2 * r == u && q % 2 == 0) {
        q * u
    } else {
        (q + 1) * u
    }
}

/// `p / 2^k` rounded to the nearest whole number, a half going up.
pub open spec fn half_up(p: nat, k: nat) -> nat {
    (2 * p + pow2(k)) / (2 * pow2(k))
}

impl Number {
    /// The bits without the sign.
    pub open spec fn magnitude(self) -> int {
        if self.bits >= SIGN_BIT {
            self.bits - SIGN_BIT
        } else {
            self.bits as int
        }
    }

    pub open spec fn nan(self) -> bool {
        self.magnitude() > INFINITY_BITS
    }

    /// Numbers that are not NaN are ordered as their keys are; both zeros have the key zero.
    pub open spec fn key(self) -> int {
        if self.bits >= SIGN_BIT {
            -self.magnitude()
        } else {
            self.magnitude()
        }
    }

    /// `self < other`.
    pub open spec fn below(self, other: Number) -> bool {
        !self.nan() && !other.nan() && self.key() < other.key()
    }

    /// `self <= other`.
    pub open spec fn at_most(self, other: Number) -> bool {
        !self.nan() && !other.nan() && self.key() <= other.key()
    }

    pub open spec fn clamped(self, low: Number, high: Number) -> Number {
        if self.below(low) {
            low
        } else if high.below(self) {
            high
        } else {
            self
        }
    }

    /// NaN, or between zero and one.
    pub open spec fn unit(self) -> bool {
        self.nan() || 0 <= self.key() <= ONE_BITS
    }

    pub open spec fn biased_exponent(self) -> int {
        self.magnitude() / (FRACTION_RANGE as int)
    }

    /// Sign aside, a finite number is `significand() * 2^exponent()`.
    pub open spec fn significand(self) -> nat {
        let fraction = (self.magnitude() % (FRACTION_RANGE as int)) as nat;
        if self.biased_exponent() == 0 {
            fraction
        } else {
            fraction + FRACTION_RANGE as nat
        }
    }

    pub open spec fn exponent(self) -> int {
        if self.biased_exponent() == 0 {
            -1074
        } else {
            self.biased_exponent() - 1075
        }
    }

    /// The whole part of the number without its sign.
    pub open spec fn floor(self) -> int {
        if self.exponent() >= 0 {
            (self.significand() * pow2(self.exponent() as nat)) as int
        } else {
            self.significand() as int / pow2((-self.exponent()) as nat) as int
        }
    }

    /// The number as a `u32`: the whole part, held between zero and `u32::MAX`; NaN gives zero.
    pub open spec fn saturated(self) -> int {
        if self.nan() || self.bits >= SIGN_BIT {
            0
        } else if self.floor() > u32::MAX {
            u32::MAX as int
        } else {
            self.floor()
        }
    }

    /// `level` times this number, rounded to binary64 and then to a whole number; NaN gives zero.
    pub open spec fn scaled(self, level: nat) -> nat {
        if self.nan() {
            0
        } else {
            half_up(nearest(level * self.significand()), (-self.exponent()) as nat)
        }
    }

    fn unsigned(self) -> (m: u64)
        ensures
            m == self.magnitude(),
    {
        if self.bits >= SIGN_BIT {
            self.bits - SIGN_BIT
        } else {
            self.bits
        }
    }

    pub fn is_nan(self) -> (b: bool)
        ensures
            b == self.nan(),
    {
        self.unsigned() > INFINITY_BITS
    }

    fn order(self) -> (k: i64)
        ensures
            k == self.key(),
    {
        if self.bits >= SIGN_BIT {
            -(self.unsigned() as i64)
        } else {
            self.unsigned() as i64
        }
    }

    /// Whether `self < other`.
    pub fn lt(self, other: Number) -> (b: bool)
        ensures
            b == self.below(other),
    {
        !self.is_nan() && !other.is_nan() && self.order() < other.order()
    }

    /// Whether `self <= other`.
    pub fn le(self, other: Number) -> (b: bool)
        ensures
            b == self.at_most(other),
    {
        !self.is_nan() && !other.is_nan() && self.order() <= other.order()
    }

    /// Holds the number between `low` and `high`; NaN stays what it is.
    pub fn clamp(self, low: Number, high: Number) -> (r: Number)
        requires
            low.at_most(high),
        ensures
            r == self.clamped(low, high),
    {
        if self.lt(low) {
            low
        } else if high.lt(self) {
            high
        } else {
            self
        }
    }

    fn parts(self) -> (r: (u64, u64))
        ensures
            r.0 == self.significand(),
            r.1 == self.biased_exponent(),
            r.1 <= 2047,
            r.0 < SIGNIFICAND_RANGE,
            r.1 > 0 ==> r.0 >= FRACTION_RANGE,
    {
        let m: u64 = self.unsigned();
        let e: u64 = m / FRACTION_RANGE;
        let f: u64 = m % FRACTION_RANGE;
        if e == 0 {
            (f, e)
        } else {
            (f + FRACTION_RANGE, e)
        }
    }

    /// The number as a `u32`, its fraction dropped.
    pub fn to_u32(self) -> (n: u32)
        ensures
            n == self.saturated(),
    {
        if self.is_nan() || self.bits >= SIGN_BIT {
            return 0;
        }
        let (sig, e) = self.parts();
        proof {
            lemma2_to64();
            lemma2_to64_rest();
        }
        if e < 1023 {
            proof {
                let k = (-self.exponent()) as nat;
                if k > 53 {
                    lemma_pow2_strictly_increases(53, k);
                }
                vstd::arithmetic::div_mod::lemma_basic_div(sig as int, pow2(k) as int);
            }
            0
        } else if e < 1055 {
            let shift: u64 = 1075 - e;
            proof {
                vstd::bits::lemma_u64_shr_is_div(sig, shift);
                if shift > 21 {
                    lemma_pow2_strictly_increases(21, shift as nat);
                }
                vstd::arithmetic::div_mod::lemma_div_is_ordered_by_denominator(
                    sig as int,
                    pow2(21) as int,
                    pow2(shift as nat) as int,
                );
            }
            (sig >> shift) as u32
        } else {
            proof {
                if self.exponent() >= 0 {
                    let k = self.exponent() as nat;
                    lemma_pow2_pos(k);
                    assert(sig * pow2(k) >= sig) by (nonlinear_arith)
                        requires
                            pow2(k) >= 1,
                    ;
                } else {
                    let k = (-self.exponent()) as nat;
                    lemma_pow2_pos(k);
                    if k < 20 {
                        lemma_pow2_strictly_increases(k, 20);
                    }
                    vstd::arithmetic::div_mod::lemma_div_is_ordered_by_denominator(
                        sig as int,
                        pow2(k) as int,
                        pow2(20) as int,
                    );
                }
            }
            u32::MAX
        }
    }

    /// `level` times this number, rounded as a binary64 product is and then to a whole number.
    pub fn scale(self, level: u32) -> (n: u32)
        requires
            self.unit(),
        ensures
            n == self.scaled(level as nat),
            n <= level,
    {
        if self.is_nan() {
            return 0;
        }
        let (sig, e) = self.parts();
        let k: u64 = if e == 0 {
            1074
        } else {
            1075 - e
        };
        assert(level as int * sig as int <= 0xFFFF_FFFF * 0x1F_FFFF_FFFF_FFFF) by (nonlinear_arith)
            requires
                0 <= level <= 0xFFFF_FFFF,
                0 <= sig <= 0x1F_FFFF_FFFF_FFFF,
        ;
        let p: u128 = level as u128 * sig as u128;
        proof {
            lemma_scaled_at_most(self, level as nat);
            lemma_nearest_bound(p as nat);
            lemma_pow2_pos(k as nat);
            lemma_pow2_90();
        }
        if k >= 90 {
            proof {
                if k > 90 {
                    lemma_pow2_strictly_increases(90, k as nat);
                }
                vstd::arithmetic::div_mod::lemma_basic_div(
                    (2 * nearest(p as nat) + pow2(k as nat)) as int,
                    (2 * pow2(k as nat)) as int,
                );
            }
            return 0;
        }
        let n: u128 = round_to_53_bits(p);
        let d: u128 = power_of_two(k);
        let r: u128 = (2 * n + d) / (2 * d);
        r as u32
    }
}

proof fn lemma_pow2_90()
    ensures
        pow2(90) == 0x400_0000_0000_0000_0000_0000,
{
    lemma2_to64();
    lemma2_to64_rest();
    lemma_pow2_adds(64, 26);
}

fn power_of_two(k: u64) -> (d: u128)
    requires
        k <= 90,
    ensures
        d == pow2(k as nat),
        1 <= d <= 0x400_0000_0000_0000_0000_0000,
{
    let mut d: u128 = 1;
    let mut i: u64 = 0;
    proof {
        lemma2_to64();
        lemma_pow2_90();
    }
    while i < k
        invariant
            i <= k <= 90,
            d == pow2(i as nat),
            pow2(90) == 0x400_0000_0000_0000_0000_0000,
        decreases k - i,
    {
        proof {
            lemma_pow2_unfold((i + 1) as nat);
            if i + 1 < 90 {
                lemma_pow2_strictly_increases((i + 1) as nat, 90);
            }
        }
        d = 2 * d;
        i = i + 1;
    }
    proof {
        lemma_pow2_pos(k as nat);
        if k < 90 {
            lemma_pow2_strictly_increases(k as nat, 90);
        }
    }
    d
}

/// The distance between neighbours is a power of two, and it is one or the number takes all 53
/// bits at that distance.
proof fn lemma_spacing(p: nat) -> (s: nat)
    ensures
        spacing(p) == pow2(s),
        s > 0 ==> p >= FRACTION_RANGE * pow2(s),
        p < SIGNIFICAND_RANGE * pow2(s),
    decreases p,
{
    lemma2_to64();
    if p < SIGNIFICAND_RANGE {
        0
    } else {
        let s = lemma_spacing(p / 2);
        lemma_pow2_unfold(s + 1);
        let u = pow2(s);
        assert(pow2(s + 1) == 2 * u);
        if s > 0 {
            assert(p >= FRACTION_RANGE * (2 * u)) by (nonlinear_arith)
                requires
                    p / 2 >= FRACTION_RANGE * u,
            ;
        }
        assert(p < SIGNIFICAND_RANGE * (2 * u)) by (nonlinear_arith)
            requires
                p / 2 < SIGNIFICAND_RANGE * u,
        ;
        s + 1
    }
}

/// Rounding to 53 bits never passes a multiple of the distance between neighbours.
proof fn lemma_nearest_below_multiple(p: nat, m: nat)
    requires
        p <= m,
        m % spacing(p) == 0,
    ensures
        nearest(p) <= m,
{
    let s = lemma_spacing(p);
    lemma_pow2_pos(s);
    let u = spacing(p);
    let q = p / u;
    let r = p % u;
    let t = m / u;
    vstd::arithmetic::div_mod::lemma_fundamental_div_mod(p as int, u as int);
    vstd::arithmetic::div_mod::lemma_fundamental_div_mod(m as int, u as int);
    assert(p == u * q + r && m == u * t);
    if q >= t {
        assert(u * q >= u * t) by (nonlinear_arith)
            requires
                q >= t,
        ;
        assert(r == 0);
        assert(q * u == u * q) by (nonlinear_arith);
    } else {
        assert((q + 1) * u <= u * t) by (nonlinear_arith)
            requires
                q + 1 <= t,
        ;
        assert(q * u <= (q + 1) * u) by (nonlinear_arith);
    }
}

proof fn lemma_nearest_bound(p: nat)
    ensures
        nearest(p) <= 2 * p,
{
    let s = lemma_spacing(p);
    lemma_pow2_pos(s);
    let u = spacing(p);
    if s == 0 {
        lemma2_to64();
        assert(p / 1 == p && p % 1 == 0);
    } else {
        let q = p / u;
        vstd::arithmetic::div_mod::lemma_fundamental_div_mod(p as int, u as int);
        assert(u <= FRACTION_RANGE * u) by (nonlinear_arith);
        assert(q * u <= p && (q + 1) * u <= p + u) by (nonlinear_arith)
            requires
                p == u * q + p % u,
                p % u >= 0,
        ;
    }
}

/// A number between zero and one scales no level up.
proof fn lemma_scaled_at_most(x: Number, level: nat)
    requires
        x.unit(),
        level <= u32::MAX,
    ensures
        x.scaled(level) <= level,
{
    if !x.nan() {
        let k = (-x.exponent()) as nat;
        let sig = x.significand();
        let p = level * sig;
        let d = pow2(k);
        let m = level * d;
        lemma2_to64();
        lemma2_to64_rest();
        assert(k >= 52);
        if k > 52 {
            lemma_pow2_strictly_increases(52, k);
        }
        assert(sig <= d) by {
            if k > 53 {
                lemma_pow2_strictly_increases(53, k);
            }
        }
        assert(p <= m) by (nonlinear_arith)
            requires
                p == level * sig,
                m == level * d,
                sig <= d,
        ;
        let s = lemma_spacing(p);
        let u = pow2(s);
        lemma_pow2_pos(s);
        assert(s <= k) by {
            if s > k {
                lemma_pow2_strictly_increases(k, s);
                assert(false) by (nonlinear_arith)
                    requires
                        p >= FRACTION_RANGE * u,
                        p <= m,
                        m == level * d,
                        level <= 0xFFFF_FFFF,
                        d < u,
                        FRACTION_RANGE > 0xFFFF_FFFF,
                ;
            }
        }
        let c = pow2((k - s) as nat);
        lemma_pow2_adds((k - s) as nat, s);
        assert(m == (level * c) * u) by (nonlinear_arith)
            requires
                m == level * d,
                d == c * u,
        ;
        vstd::arithmetic::div_mod::lemma_mod_multiples_basic((level * c) as int, u as int);
        lemma_nearest_below_multiple(p, m);
        let n = nearest(p);
        assert((2 * n + d) / (2 * d) <= level) by (nonlinear_arith)
            requires
                n <= level * d,
                d > 0,
        ;
    }
}

/// The whole number `p` rounded to the 53 significant bits of a binary64 number.
fn round_to_53_bits(p: u128) -> (n: u128)
    requires
        p <= 0xFFFF_FFFF * 0x1F_FFFF_FFFF_FFFF,
    ensures
        n == nearest(p as nat),
        n <= 2 * p,
{
    let mut u: u128 = 1;
    assert(p as int / 1 == p);
    while p / u >= SIGNIFICAND_RANGE
        invariant
            1 <= u <= p + 1,
            p <= 0xFFFF_FFFF * 0x1F_FFFF_FFFF_FFFF,
            spacing(p as nat) == u * spacing(p as nat / u as nat),
        decreases p + 1 - u,
    {
        proof {
            let (pp, uu) = (p as int, u as int);
            assert(2 * uu <= pp) by (nonlinear_arith)
                requires
                    pp / uu >= 2,
                    uu >= 1,
            ;
            vstd::arithmetic::div_mod::lemma_div_denominator(pp, uu, 2);
            let inner = spacing((pp / uu / 2) as nat);
            assert(uu * (2 * inner) == (2 * uu) * inner) by (nonlinear_arith);
        }
        u = 2 * u;
    }
    proof {
        lemma_nearest_bound(p as nat);
        let inner = spacing(p as nat / u as nat);
        assert(inner == 1);
        assert(u * inner == u) by (nonlinear_arith)
            requires
                inner == 1,
        ;
        assert(spacing(p as nat) == u);
    }
    let q: u128 = p / u;
    let r: u128 = p % u;
    proof {
        vstd::arithmetic::div_mod::lemma_fundamental_div_mod(p as int, u as int);
        assert(q * u <= p && (q + 1) * u <= p + u) by (nonlinear_arith)
            requires
                p == u * q + r,
                r >= 0,
        ;
    }
    if 2 * r < u || (2 * r == u && q % 2 == 0) {
        q * u
    } else {
        (q + 1) * u
    }
}

/// A number up to a hundred has a whole part up to a hundred.
pub proof fn lemma_up_to_hundred(x: Number)
    requires
        x.bits <= HUNDRED_BITS,
    ensures
        0 <= x.saturated() <= 100,
{
    lemma2_to64();
    lemma2_to64_rest();
    let k = (-x.exponent()) as nat;
    let sig = x.significand() as int;
    lemma_pow2_pos(k);
    if x.biased_exponent() == 1029 {
        assert(sig <= 0x19_0000_0000_0000);
        assert(k == 46 && pow2(46) == 0x4000_0000_0000);
        assert(sig / 0x4000_0000_0000 <= 100);
    } else {
        assert(k >= 47);
        if k > 47 {
            lemma_pow2_strictly_increases(47, k);
        }
        assert(pow2(47) == 0x8000_0000_0000);
        vstd::arithmetic::div_mod::lemma_div_is_ordered_by_denominator(
            sig,
            0x8000_0000_0000,
            pow2(k) as int,
        );
        assert(sig / 0x8000_0000_0000 <= 64);
    }
    assert(x.floor() == sig / pow2(k) as int);
    vstd::arithmetic::div_mod::lemma_div_pos_is_pos(sig, pow2(k) as int);
}

pub proof fn lemma_zero_has_no_whole_part()
    ensures
        (Number { bits: ZERO_BITS }).saturated() == 0,
{
    lemma_pow2_pos(1074);
    vstd::arithmetic::div_mod::lemma_basic_div(0, pow2(1074) as int);
}

/// Of two numbers from zero to a hundred the larger has no smaller whole part.
pub proof fn lemma_whole_parts_ordered(x: Number, y: Number)
    requires
        x.bits <= y.bits <= HUNDRED_BITS,
    ensures
        x.saturated() <= y.saturated(),
{
    lemma_up_to_hundred(x);
    lemma_up_to_hundred(y);
    lemma2_to64();
    lemma2_to64_rest();
    let (i, k) = ((-x.exponent()) as nat, (-y.exponent()) as nat);
    let (a, b) = (x.significand() as int, y.significand() as int);
    let (c, d) = (pow2(i) as int, pow2(k) as int);
    lemma_pow2_pos(i);
    lemma_pow2_pos(k);
    assert(x.floor() == a / c && y.floor() == b / d);
    if x.biased_exponent() == y.biased_exponent() {
        assert(a <= b);
        vstd::arithmetic::div_mod::lemma_div_is_ordered(a, b, d);
    } else if x.biased_exponent() == 0 {
        lemma_pow2_strictly_increases(52, i);
        vstd::arithmetic::div_mod::lemma_basic_div(a, c);
        vstd::arithmetic::div_mod::lemma_div_pos_is_pos(b, d);
    } else {
        let m = pow2((i - k - 1) as nat) as int;
        lemma_pow2_pos((i - k - 1) as nat);
        lemma_pow2_adds((i - k - 1) as nat, k);
        lemma_pow2_unfold((i - k - 1 + k + 1) as nat);
        assert(c == 2 * (m * d));
        let q = a / c;
        vstd::arithmetic::div_mod::lemma_fundamental_div_mod(a, c);
        vstd::arithmetic::div_mod::lemma_div_pos_is_pos(a, c);
        assert(q * d <= b) by (nonlinear_arith)
            requires
                a >= c * q,
                c == 2 * (m * d),
                m >= 1,
                d >= 1,
                q >= 0,
                a < 2 * FRACTION_RANGE,
                b >= FRACTION_RANGE,
        ;
        assert(q <= b / d) by (nonlinear_arith)
            requires
                q * d <= b,
                d >= 1,
        ;
    }
}

/// A factor of one leaves every level as it is.
pub proof fn scaling_by_one_is_identity(level: nat)
    requires
        level <= u32::MAX,
    ensures
        (Number { bits: ONE_BITS }).scaled(level) == level,
{
    let one = Number { bits: ONE_BITS };
    lemma2_to64();
    lemma2_to64_rest();
    let d = pow2(52);
    let p = level * d;
    let s = lemma_spacing(p);
    let u = pow2(s);
    lemma_pow2_pos(s);
    assert(s <= 52) by {
        if s > 52 {
            lemma_pow2_strictly_increases(52, s);
            assert(false) by (nonlinear_arith)
                requires
                    p >= FRACTION_RANGE * u,
                    p == level * d,
                    level <= 0xFFFF_FFFF,
                    d < u,
                    FRACTION_RANGE > 0xFFFF_FFFF,
            ;
        }
    }
    let c = pow2((52 - s) as nat);
    lemma_pow2_adds((52 - s) as nat, s);
    assert(p == (level * c) * u) by (nonlinear_arith)
        requires
            p == level * d,
            d == c * u,
    ;
    vstd::arithmetic::div_mod::lemma_mod_multiples_basic((level * c) as int, u as int);
    vstd::arithmetic::div_mod::lemma_div_by_multiple((level * c) as int, u as int);
    assert(nearest(p) == p);
    assert((2 * p + d) / (2 * d) == level) by (nonlinear_arith)
        requires
            p == level * d,
            d > 0,
    ;
}

/// A factor between zero and one never makes a level brighter, and a dark level stays dark.
pub proof fn scaling_never_brightens(factor: Number, level: nat)
    requires
        factor.unit(),
        level <= u32::MAX,
    ensures
        factor.scaled(level) <= level,
        factor.scaled(0) == 0,
{
    lemma_scaled_at_most(factor, level);
    lemma_scaled_at_most(factor, 0);
}

/// Numbers are ordered by their bits: among positive ones the larger pattern is the larger number,
/// among negative ones the smaller number, both zeros are the same, and what is not a number stands
/// in no order.
pub proof fn numbers_are_ordered_by_their_bits(a: Number, b: Number)
    ensures
        a.nan() <==> a.bits as int % 0x8000_0000_0000_0000 > 0x7FF0_0000_0000_0000,
        a.nan() || b.nan() ==> !a.below(b) && !a.at_most(b),
        !a.nan() && !b.nan() ==> {
            let (x, y) = (a.bits as int, b.bits as int);
            let sign = 0x8000_0000_0000_0000int;
            &&& x < sign && y < sign ==> (a.below(b) <==> x < y)
            &&& x >= sign && y >= sign ==> (a.below(b) <==> x > y)
            &&& x < sign && y >= sign ==> !a.below(b)
            &&& x >= sign && y < sign ==> (a.below(b) <==> !(x == sign && y == 0))
            &&& a.at_most(b) <==> !b.below(a)
        },
{
}

/// A number is moved into a range by the least that is needed: not at all where it lies inside, or
/// is not a number, and else to the nearer end.
pub proof fn clamping_moves_a_number_the_least(x: Number, low: Number, high: Number)
    requires
        low.at_most(high),
    ensures
        x.nan() ==> x.clamped(low, high) == x,
        low.at_most(x) && x.at_most(high) ==> x.clamped(low, high) == x,
        x.below(low) ==> x.clamped(low, high) == low,
        high.below(x) ==> x.clamped(low, high) == high,
        x.unit() <==> x.nan() || ((Number { bits: 0 }).at_most(x) && x.at_most(
            Number { bits: 0x3FF0_0000_0000_0000 },
        )),
{
}

/// A number as a `u32` is the largest whole number up to it. Its value stands in the bits: a
/// fraction, and above that an exponent, of which 1075 stands for one.
pub proof fn whole_part_is_the_largest_up_to_the_number(x: Number)
    ensures
        ({
            let e = x.bits as int / 0x10_0000_0000_0000;
            let sig = 0x10_0000_0000_0000 + x.bits as int % 0x10_0000_0000_0000;
            let n = x.saturated();
            &&& e < 1023 || e >= 2048 || x.nan() ==> n == 0
            &&& 1055 <= e < 2048 && !x.nan() ==> n == u32::MAX
            &&& 1023 <= e < 1055 ==> {
                let one = pow2((1075 - e) as nat) as int;
                n * one <= sig < (n + 1) * one
            }
        }),
{
    lemma2_to64();
    lemma2_to64_rest();
    let e = x.bits as int / 0x10_0000_0000_0000;
    let sig = x.significand() as int;
    if !x.nan() && x.bits < SIGN_BIT {
        let k = (-x.exponent()) as nat;
        if e < 1023 {
            if k > 53 {
                lemma_pow2_strictly_increases(53, k);
            }
            vstd::arithmetic::div_mod::lemma_basic_div(sig, pow2(k) as int);
        } else if e < 1055 {
            let one = pow2(k) as int;
            lemma_pow2_pos(k);
            if k > 21 {
                lemma_pow2_strictly_increases(21, k);
            }
            vstd::arithmetic::div_mod::lemma_div_is_ordered_by_denominator(
                sig,
                pow2(21) as int,
                one,
            );
            vstd::arithmetic::div_mod::lemma_fundamental_div_mod(sig, one);
            vstd::arithmetic::div_mod::lemma_mod_bound(sig, one);
            let q = sig / one;
            assert(q * one == one * q && (q + 1) * one == one * q + one) by (nonlinear_arith);
        } else if x.exponent() >= 0 {
            let j = x.exponent() as nat;
            lemma_pow2_pos(j);
            assert(sig * pow2(j) >= sig) by (nonlinear_arith)
                requires
                    pow2(j) >= 1,
                    sig >= 0,
            ;
        } else {
            lemma_pow2_pos(k);
            if k < 20 {
                lemma_pow2_strictly_increases(k, 20);
            }
            vstd::arithmetic::div_mod::lemma_div_is_ordered_by_denominator(
                sig,
                pow2(k) as int,
                pow2(20) as int,
            );
        }
    }
}

/// A whole number is rounded to 53 bits: no multiple of the distance between neighbours is nearer,
/// of two that are equally near the even one is taken, and what fits is kept.
pub proof fn rounding_takes_the_nearest(p: nat, m: nat)
    requires
        m % spacing(p) == 0,
    ensures
        ({
            let (u, r) = (spacing(p) as int, nearest(p) as int);
            let (off, other) = (
                if r < p {
                    p - r
                } else {
                    r - p
                },
                if m < p {
                    p - m
                } else {
                    m - p
                },
            );
            &&& u >= 1 && r % u == 0
            &&& off <= other
            &&& off == other && r != m ==> (r / u) % 2 == 0
            &&& p < 0x20_0000_0000_0000 ==> r == p
            &&& p >= 0x20_0000_0000_0000 ==> 0x10_0000_0000_0000 * u <= p < 0x20_0000_0000_0000 * u
        }),
{
    let s = lemma_spacing(p);
    lemma_pow2_pos(s);
    lemma2_to64();
    let u = spacing(p) as int;
    let (pp, mm) = (p as int, m as int);
    let (q, r, t) = (pp / u, pp % u, mm / u);
    vstd::arithmetic::div_mod::lemma_fundamental_div_mod(pp, u);
    vstd::arithmetic::div_mod::lemma_fundamental_div_mod(mm, u);
    vstd::arithmetic::div_mod::lemma_mod_bound(pp, u);
    vstd::arithmetic::div_mod::lemma_div_multiples_vanish(q, u);
    vstd::arithmetic::div_mod::lemma_div_multiples_vanish(q + 1, u);
    vstd::arithmetic::div_mod::lemma_mod_multiples_basic(q, u);
    vstd::arithmetic::div_mod::lemma_mod_multiples_basic(q + 1, u);
    assert(u * q == q * u && u * t == t * u && (q + 1) * u == q * u + u) by (nonlinear_arith);
    if t <= q {
        assert(t * u <= q * u) by (nonlinear_arith)
            requires
                t <= q,
                u >= 1,
        ;
        if t < q {
            assert(t * u <= q * u - u) by (nonlinear_arith)
                requires
                    t <= q - 1,
                    u >= 1,
            ;
        }
    } else {
        assert(t * u >= (q + 1) * u) by (nonlinear_arith)
            requires
                t >= q + 1,
                u >= 1,
        ;
        if t > q + 1 {
            assert(t * u >= (q + 1) * u + u) by (nonlinear_arith)
                requires
                    t >= q + 2,
                    u >= 1,
            ;
        }
    }
    if p < SIGNIFICAND_RANGE {
        assert(u == 1);
    } else {
        if s == 0 {
            assert(p < SIGNIFICAND_RANGE);
        }
    }
}

/// A level that is scaled is the whole number nearest to the product, a half going up. The product
/// is that of the level and the number, rounded as above; a number from zero to one is its
/// significand over a power of two.
pub proof fn scaled_level_is_nearest_to_the_product(x: Number, level: nat)
    requires
        x.bits as int <= 0x3FF0_0000_0000_0000,
    ensures
        ({
            let e = x.bits as int / 0x10_0000_0000_0000;
            let f = x.bits as int % 0x10_0000_0000_0000;
            let sig = if e == 0 {
                f
            } else {
                0x10_0000_0000_0000 + f
            };
            let one = pow2(
                if e == 0 {
                    1074
                } else {
                    (1075 - e) as nat
                },
            ) as int;
            let product = nearest((level * sig) as nat) as int;
            let n = x.scaled(level) as int;
            2 * product - one < 2 * n * one <= 2 * product + one
        }),
{
    let k = (-x.exponent()) as nat;
    let one = pow2(k) as int;
    lemma_pow2_pos(k);
    let product = nearest(level * x.significand()) as int;
    let whole = 2 * product + one;
    let n = whole / (2 * one);
    vstd::arithmetic::div_mod::lemma_fundamental_div_mod(whole, 2 * one);
    vstd::arithmetic::div_mod::lemma_mod_bound(whole, 2 * one);
    assert((2 * one) * n == 2 * n * one) by (nonlinear_arith);
}

/// What is not a number, and either zero, scales every level to nothing.
pub proof fn no_number_scales_to_nothing(x: Number, level: nat)
    requires
        x.nan() || x.bits == 0 || x.bits == 0x8000_0000_0000_0000,
    ensures
        x.scaled(level) == 0,
{
    if !x.nan() {
        assert(level * x.significand() == 0) by (nonlinear_arith)
            requires
                x.significand() == 0,
        ;
        lemma_pow2_pos(1074);
        let one = pow2(1074) as int;
        rounding_takes_the_nearest(0, 0);
        vstd::arithmetic::div_mod::lemma_basic_div(one, 2 * one);
    }
}

} // verus!
