//! Numbers of the language: IEEE-754 doubles, held by their bit pattern.
//!
//! What the interpreter decides about a number (whether it is zero, how two
//! numbers are ordered, which index it stands for) is computed here on the
//! bits. Arithmetic proper is asked of the host.

use vstd::prelude::*;

verus! {

/// The bit of the sign.
pub const SIGN_BIT: u64 = 0x8000_0000_0000_0000;

/// The bits of positive infinity: every pattern above it, the sign aside, is
/// a NaN.
pub const INFINITY_BITS: u64 = 0x7ff0_0000_0000_0000;

/// Two to the power 52, the weight of the hidden bit of a double.
pub const HIDDEN_BIT: u64 = 0x10_0000_0000_0000;

/// Two to the power 53.
pub const TWO_53: u64 = 0x20_0000_0000_0000;

/// Two to the power 54.
pub const TWO_54: u64 = 0x40_0000_0000_0000;

/// The biased exponent of a double whose unit in the last place is 1.
pub const UNIT_EXPONENT: u64 = 1075;

/// A number: the bits of an IEEE-754 double, sign first, then eleven bits of
/// exponent and 52 of fraction.
#[derive(Debug, Clone, Copy, PartialEq, Eq, Structural, Hash)]
pub struct Number {
    pub bits: u64,
}

/// The bits of the double nearest to `m * 2^(e - 1075)`, for `0 < m < 2^53`:
/// `m` is doubled until its hidden bit is set, which loses nothing.
pub open spec fn pack_exact(m: nat, e: nat) -> nat
    decreases
            (if m < HIDDEN_BIT {
                HIDDEN_BIT - m
            } else {
                0
            }),
{
    if m == 0 || m >= HIDDEN_BIT {
        (e * HIDDEN_BIT + (m - HIDDEN_BIT)) as nat
    } else {
        pack_exact(m * 2, (e - 1) as nat)
    }
}

/// The bits of the double nearest to `m * 2^(e - 1075)`, ties to even, for
/// `m >= 2^53`: `m` is halved until 54 bits are left, `sticky` telling
/// whether a one was dropped; the last bit then decides the rounding.
pub open spec fn pack_rounded(m: nat, e: nat, sticky: bool) -> nat
    decreases m,
{
    if m >= TWO_54 {
        pack_rounded(m / 2, e + 1, sticky || m % 2 == 1)
    } else {
        let q = m / 2;
        let up: nat = if m % 2 == 1 && (sticky || q % 2 == 1) {
            1
        } else {
            0
        };
        ((e + 1) * HIDDEN_BIT + (q - HIDDEN_BIT) + up) as nat
    }
}

/// The bits of the double nearest to the natural number `n`.
pub open spec fn count_bits(n: nat) -> nat {
    if n == 0 {
        0
    } else if n < TWO_53 {
        pack_exact(n, UNIT_EXPONENT as nat)
    } else {
        pack_rounded(n, UNIT_EXPONENT as nat, false)
    }
}

impl Number {
    /// The bits without the sign.
    pub open spec fn magnitude(self) -> int {
        if self.bits >= SIGN_BIT {
            self.bits - SIGN_BIT
        } else {
            self.bits as int
        }
    }

    /// Whether the sign bit is set.
    pub open spec fn negative(self) -> bool {
        self.bits >= SIGN_BIT
    }

    /// Whether this is a NaN.
    pub open spec fn nan(self) -> bool {
        self.magnitude() > INFINITY_BITS
    }

    /// Whether this is zero, of either sign.
    pub open spec fn zero(self) -> bool {
        self.magnitude() == 0
    }

    /// An integer that orders the numbers that are no NaN as their values
    /// are ordered: doubles of one sign are ordered as their magnitudes.
    pub open spec fn rank(self) -> int {
        if self.negative() {
            -self.magnitude()
        } else {
            self.magnitude()
        }
    }

    /// Whether two numbers are equal as doubles: neither is a NaN, and they
    /// have the same value (the two zeros are equal).
    pub open spec fn same(self, other: Number) -> bool {
        !self.nan() && !other.nan() && self.rank() == other.rank()
    }

    /// Whether `self` is less than `other` as doubles; false where either is
    /// a NaN.
    pub open spec fn below(self, other: Number) -> bool {
        !self.nan() && !other.nan() && self.rank() < other.rank()
    }

    /// The number with the sign turned.
    pub open spec fn negated(self) -> Number {
        if self.bits >= SIGN_BIT {
            Number { bits: (self.bits - SIGN_BIT) as u64 }
        } else {
            Number { bits: (self.bits + SIGN_BIT) as u64 }
        }
    }

    /// Whether the number counts as true: every number but the zeros.
    pub open spec fn truthy(self) -> bool {
        !self.zero()
    }

    /// The biased exponent.
    pub open spec fn exponent(self) -> int {
        self.magnitude() / (HIDDEN_BIT as int)
    }

    /// The fraction with the hidden bit set.
    pub open spec fn significand(self) -> int {
        self.magnitude() % (HIDDEN_BIT as int) + HIDDEN_BIT
    }

    /// The number cut to an integer, towards zero; a NaN gives 0, and a
    /// number beyond the range of `i64` gives the nearest end of it.
    pub open spec fn truncated(self) -> int {
        if self.nan() || self.exponent() < 1023 {
            0
        } else if self.exponent() >= 1086 {
            if self.negative() {
                i64::MIN as int
            } else {
                i64::MAX as int
            }
        } else {
            let whole = scaled(self.significand(), self.exponent() - 1075);
            if self.negative() {
                -whole
            } else {
                whole
            }
        }
    }

    /// The number nearest to the natural number `n`.
    pub open spec fn of_count(n: nat) -> Number {
        Number { bits: count_bits(n) as u64 }
    }

    /// The number nearest to the integer `i`.
    pub open spec fn of_integer(i: int) -> Number {
        if i < 0 {
            Number { bits: (count_bits((-i) as nat) + SIGN_BIT) as u64 }
        } else {
            Number::of_count(i as nat)
        }
    }

    pub fn new(bits: u64) -> (n: Number)
        ensures
            n.bits == bits,
    {
        Number { bits }
    }

    pub fn is_nan(self) -> (r: bool)
        ensures
            r == self.nan(),
    {
        self.abs_bits() > INFINITY_BITS
    }

    /// The bits without the sign.
    pub fn abs_bits(self) -> (r: u64)
        ensures
            r == self.magnitude(),
            r < SIGN_BIT,
    {
        if self.bits >= SIGN_BIT {
            self.bits - SIGN_BIT
        } else {
            self.bits
        }
    }

    pub fn is_negative(self) -> (r: bool)
        ensures
            r == self.negative(),
    {
        self.bits >= SIGN_BIT
    }

    pub fn is_truthy(self) -> (r: bool)
        ensures
            r == self.truthy(),
    {
        self.abs_bits() != 0
    }

    pub fn negate(self) -> (r: Number)
        ensures
            r == self.negated(),
    {
        if self.bits >= SIGN_BIT {
            Number { bits: self.bits - SIGN_BIT }
        } else {
            Number { bits: self.bits + SIGN_BIT }
        }
    }

    pub fn equals(self, other: Number) -> (r: bool)
        ensures
            r == self.same(other),
    {
        if self.is_nan() || other.is_nan() {
            false
        } else if self.is_negative() == other.is_negative() {
            self.abs_bits() == other.abs_bits()
        } else {
            self.abs_bits() == 0 && other.abs_bits() == 0
        }
    }

    pub fn less_than(self, other: Number) -> (r: bool)
        ensures
            r == self.below(other),
    {
        if self.is_nan() || other.is_nan() {
            false
        } else if self.is_negative() {
            if other.is_negative() {
                self.abs_bits() > other.abs_bits()
            } else {
                self.abs_bits() != 0 || other.abs_bits() != 0
            }
        } else {
            if other.is_negative() {
                false
            } else {
                self.abs_bits() < other.abs_bits()
            }
        }
    }

    pub fn less_than_or_equal(self, other: Number) -> (r: bool)
        ensures
            r == (self.below(other) || self.same(other)),
    {
        self.less_than(other) || self.equals(other)
    }

    pub fn greater_than(self, other: Number) -> (r: bool)
        ensures
            r == other.below(self),
    {
        other.less_than(self)
    }

    pub fn greater_than_or_equal(self, other: Number) -> (r: bool)
        ensures
            r == (other.below(self) || self.same(other)),
    {
        other.less_than(self) || self.equals(other)
    }

    /// The number cut to an integer, towards zero.
    pub fn to_integer(self) -> (r: i64)
        ensures
            r == self.truncated(),
    {
        let mag = self.abs_bits();
        let e = mag / HIDDEN_BIT;
        if mag > INFINITY_BITS || e < 1023 {
            0
        } else if e >= 1086 {
            if self.is_negative() {
                i64::MIN
            } else {
                i64::MAX
            }
        } else {
            let m = mag % HIDDEN_BIT + HIDDEN_BIT;
            let whole = if e >= 1075 {
                scale_up(m, e - 1075)
            } else {
                scale_down(m, 1075 - e)
            };
            if self.is_negative() {
                0 - (whole as i64)
            } else {
                whole as i64
            }
        }
    }

    /// The number nearest to `n`.
    pub fn from_count(n: usize) -> (r: Number)
        ensures
            r == Number::of_count(n as nat),
    {
        Number { bits: bits_of_count(n as u64) }
    }

    /// The number of the code point of `c`.
    pub fn from_char(c: char) -> (r: Number)
        ensures
            r == Number::of_count(c as nat),
    {
        Number { bits: bits_of_count(c as u32 as u64) }
    }

    /// The number nearest to `i`.
    pub fn from_integer(i: i64) -> (r: Number)
        ensures
            r == Number::of_integer(i as int),
    {
        if i < 0 {
            let n: u64 = if i == i64::MIN {
                SIGN_BIT
            } else {
                (0 - i) as u64
            };
            let bits = bits_of_count(n);
            Number { bits: bits + SIGN_BIT }
        } else {
            Number { bits: bits_of_count(i as u64) }
        }
    }
}

/// `m * 2^k` for `k >= 0`, and `m` halved `-k` times, rounding down, for
/// `k < 0`.
pub open spec fn scaled(m: int, k: int) -> int
    decreases
            (if k >= 0 {
                k
            } else {
                -k
            }),
{
    if k == 0 {
        m
    } else if k > 0 {
        scaled(m * 2, k - 1)
    } else {
        scaled(m / 2, k + 1)
    }
}

/// Two to the power `k`.
pub open spec fn power_of_two(k: int) -> int
    decreases k,
{
    if k <= 0 {
        1
    } else {
        2 * power_of_two(k - 1)
    }
}

proof fn power_positive(a: int)
    ensures
        1 <= power_of_two(a),
    decreases a,
{
    if a > 0 {
        power_positive(a - 1);
    }
}

proof fn power_monotone(a: int, b: int)
    requires
        a <= b,
    ensures
        1 <= power_of_two(a) <= power_of_two(b),
    decreases b - a,
{
    power_positive(a);
    if a < b {
        power_monotone(a, b - 1);
        power_positive(b - 1);
    }
}

proof fn power_values()
    ensures
        power_of_two(10) == 1024,
        power_of_two(11) == 2048,
        power_of_two(52) == HIDDEN_BIT,
{
    reveal_with_fuel(power_of_two, 12);
    assert(power_of_two(11) == 2048);
    assert(power_of_two(22) == 2048 * 2048) by {
        power_sum(11, 11);
    }
    assert(power_of_two(44) == 2048 * 2048 * 2048 * 2048) by {
        power_sum(22, 22);
    }
    assert(power_of_two(8) == 256);
    assert(power_of_two(52) == HIDDEN_BIT) by {
        power_sum(44, 8);
    }
}

proof fn power_sum(a: int, b: int)
    requires
        0 <= a,
        0 <= b,
    ensures
        power_of_two(a + b) == power_of_two(a) * power_of_two(b),
    decreases b,
{
    if b > 0 {
        power_sum(a, b - 1);
        assert(2 * (power_of_two(a) * power_of_two(b - 1)) == power_of_two(a) * (2 * power_of_two(
            b - 1,
        ))) by (nonlinear_arith);
    } else {
        assert(power_of_two(a) * 1 == power_of_two(a)) by (nonlinear_arith);
    }
}

fn scale_up(m: u64, k: u64) -> (r: u64)
    requires
        m < TWO_53,
        k <= 10,
    ensures
        r == scaled(m as int, k as int),
        r <= i64::MAX,
{
    let mut v: u64 = m;
    let mut i: u64 = k;
    proof {
        power_values();
        power_monotone(k as int, 10);
        assert(m * power_of_two(k as int) <= i64::MAX) by (nonlinear_arith)
            requires
                m < TWO_53,
                1 <= power_of_two(k as int) <= 1024,
        ;
    }
    while i > 0
        invariant
            scaled(m as int, k as int) == scaled(v as int, i as int),
            0 <= i <= 10,
            v * power_of_two(i as int) <= i64::MAX,
        decreases i,
    {
        proof {
            power_monotone(0, i as int - 1);
            assert(v * 2 * power_of_two(i as int - 1) == v * power_of_two(i as int))
                by (nonlinear_arith)
                requires
                    power_of_two(i as int) == 2 * power_of_two(i as int - 1),
            ;
            assert(v * 2 <= v * 2 * power_of_two(i as int - 1)) by (nonlinear_arith)
                requires
                    power_of_two(i as int - 1) >= 1,
                    v >= 0,
            ;
        }
        v = v * 2;
        i = i - 1;
    }
    assert(v * power_of_two(0) == v) by (nonlinear_arith)
        requires
            power_of_two(0) == 1,
    ;
    v
}

fn scale_down(m: u64, k: u64) -> (r: u64)
    requires
        k <= 52,
    ensures
        r == scaled(m as int, -(k as int)),
        r <= m,
{
    let mut v: u64 = m;
    let mut i: u64 = k;
    while i > 0
        invariant
            scaled(m as int, -(k as int)) == scaled(v as int, -(i as int)),
            v <= m,
        decreases i,
    {
        v = v / 2;
        i = i - 1;
    }
    v
}

fn bits_of_count(n: u64) -> (r: u64)
    ensures
        r == count_bits(n as nat),
        r < SIGN_BIT,
{
    if n == 0 {
        0
    } else if n < TWO_53 {
        let mut m: u64 = n;
        let mut e: u64 = UNIT_EXPONENT;
        let ghost mut k: int = 0;
        proof {
            power_values();
        }
        while m < HIDDEN_BIT
            invariant
                0 < m < TWO_53,
                pack_exact(n as nat, UNIT_EXPONENT as nat) == pack_exact(m as nat, e as nat),
                0 <= k <= 52,
                e == UNIT_EXPONENT - k,
                m >= power_of_two(k),
                power_of_two(52) == HIDDEN_BIT,
            decreases
                    (if m < HIDDEN_BIT {
                        HIDDEN_BIT - m
                    } else {
                        0
                    }),
        {
            proof {
                if k >= 52 {
                    power_monotone(52, k);
                }
                k = k + 1;
            }
            m = m * 2;
            e = e - 1;
        }
        e * HIDDEN_BIT + (m - HIDDEN_BIT)
    } else {
        let mut m: u64 = n;
        let mut e: u64 = UNIT_EXPONENT;
        let mut sticky = false;
        let ghost mut k: int = 0;
        proof {
            power_values();
        }
        while m >= TWO_54
            invariant
                m >= TWO_53,
                pack_rounded(n as nat, UNIT_EXPONENT as nat, false) == pack_rounded(
                    m as nat,
                    e as nat,
                    sticky,
                ),
                0 <= k <= 10,
                e == UNIT_EXPONENT + k,
                m * power_of_two(k) <= n,
                power_of_two(11) == 2048,
            decreases m,
        {
            proof {
                power_monotone(0, k);
                assert((m / 2) * power_of_two(k + 1) <= m * power_of_two(k)) by (nonlinear_arith)
                    requires
                        power_of_two(k + 1) == 2 * power_of_two(k),
                        power_of_two(k) >= 1,
                        m >= 0,
                ;
                if k >= 10 {
                    power_monotone(11, k + 1);
                    assert((m / 2) * power_of_two(k + 1) > u64::MAX) by (nonlinear_arith)
                        requires
                            m / 2 >= TWO_53,
                            power_of_two(k + 1) >= 2048,
                    ;
                }
                k = k + 1;
            }
            sticky = sticky || m % 2 == 1;
            m = m / 2;
            e = e + 1;
        }
        let q = m / 2;
        let up: u64 = if m % 2 == 1 && (sticky || q % 2 == 1) {
            1
        } else {
            0
        };
        (e + 1) * HIDDEN_BIT + (q - HIDDEN_BIT) + up
    }
}

} // verus!

verus! {

proof fn halving_undoes_doubling(m: int, k: int)
    requires
        k <= 0,
        m >= 0,
    ensures
        scaled(m * 2, k - 1) == scaled(m, k),
{
    assert((m * 2) / 2 == m);
}

proof fn exact_counts_come_back(m: nat, e: nat)
    requires
        0 < m < TWO_53,
        1023 <= e <= UNIT_EXPONENT,
        m * power_of_two(e - 1023) >= HIDDEN_BIT,
    ensures
        pack_exact(m, e) < SIGN_BIT,
        (Number { bits: pack_exact(m, e) as u64 }).truncated() == scaled(
            m as int,
            e - UNIT_EXPONENT,
        ),
    decreases
            (if m < HIDDEN_BIT {
                HIDDEN_BIT - m
            } else {
                0
            }),
{
    if m >= HIDDEN_BIT {
        let bits = (e * HIDDEN_BIT + (m - HIDDEN_BIT)) as nat;
        assert(bits == pack_exact(m, e));
        assert(e * HIDDEN_BIT <= 1075 * HIDDEN_BIT) by (nonlinear_arith)
            requires
                e <= 1075,
        ;
        let n = Number { bits: bits as u64 };
        assert(n.magnitude() == bits);
        assert(bits / (HIDDEN_BIT as nat) == e && bits % (HIDDEN_BIT as nat) == m - HIDDEN_BIT)
            by (nonlinear_arith)
            requires
                bits == e * HIDDEN_BIT + (m - HIDDEN_BIT),
                0 <= m - HIDDEN_BIT < HIDDEN_BIT,
        ;
        assert(n.exponent() == e);
        assert(n.significand() == m);
        assert(!n.nan());
    } else {
        if e <= 1023 {
            power_positive(e - 1023);
            assert(power_of_two(e - 1023) == 1);
            assert(m * 1 == m) by (nonlinear_arith);
            assert(false);
        }
        assert(power_of_two(e - 1023) == 2 * power_of_two(e - 1 - 1023));
        assert((m * 2) * power_of_two(e - 1 - 1023) == m * power_of_two(e - 1023))
            by (nonlinear_arith)
            requires
                power_of_two(e - 1023) == 2 * power_of_two(e - 1 - 1023),
        ;
        exact_counts_come_back(m * 2, (e - 1) as nat);
        halving_undoes_doubling(m as int, e - UNIT_EXPONENT);
    }
}

/// A count that a double holds exactly comes back from the double as it
/// went in: the number of a count below two to the power 53, cut to an
/// integer, is the count.
pub proof fn counts_come_back(n: nat)
    requires
        n < TWO_53,
    ensures
        Number::of_count(n).truncated() == n,
        !Number::of_count(n).nan(),
        !Number::of_count(n).negative(),
{
    if n > 0 {
        power_values();
        assert(n * power_of_two(52) >= HIDDEN_BIT) by (nonlinear_arith)
            requires
                n >= 1,
                power_of_two(52) == HIDDEN_BIT,
        ;
        exact_counts_come_back(n, UNIT_EXPONENT as nat);
        exact_counts_are_numbers(n, UNIT_EXPONENT as nat);
    } else {
        let zero = Number { bits: 0 };
        assert(zero.exponent() == 0);
    }
}

proof fn exact_counts_are_numbers(m: nat, e: nat)
    requires
        0 < m < TWO_53,
        1023 <= e <= UNIT_EXPONENT,
        m * power_of_two(e - 1023) >= HIDDEN_BIT,
    ensures
        pack_exact(m, e) <= 1075 * HIDDEN_BIT + HIDDEN_BIT,
    decreases
            (if m < HIDDEN_BIT {
                HIDDEN_BIT - m
            } else {
                0
            }),
{
    if m >= HIDDEN_BIT {
        assert(e * HIDDEN_BIT <= 1075 * HIDDEN_BIT) by (nonlinear_arith)
            requires
                e <= 1075,
        ;
    } else {
        if e <= 1023 {
            power_positive(e - 1023);
            assert(power_of_two(e - 1023) == 1);
            assert(m * 1 == m) by (nonlinear_arith);
            assert(false);
        }
        assert(power_of_two(e - 1023) == 2 * power_of_two(e - 1 - 1023));
        assert((m * 2) * power_of_two(e - 1 - 1023) == m * power_of_two(e - 1023))
            by (nonlinear_arith)
            requires
                power_of_two(e - 1023) == 2 * power_of_two(e - 1 - 1023),
        ;
        exact_counts_are_numbers(m * 2, (e - 1) as nat);
    }
}

} // verus!
