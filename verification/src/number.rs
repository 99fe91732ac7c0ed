//! Binary floating-point numbers held as their bit pattern.
//!
//! Coordinates, distances and scales arrive as IEEE 754 doubles. The rules of this
//! library only compare them, so a number is kept as its 64 bits and every comparison
//! is decided on integers.
use vstd::arithmetic::power2::{lemma_pow2_adds, lemma_pow2_pos, lemma_pow2_strictly_increases, lemma2_to64, lemma2_to64_rest, pow2};
use vstd::prelude::*;

verus! {

/// An IEEE 754 double, by its bits.
#[derive(Clone, Copy, Debug, PartialEq, Eq, Structural)]
pub struct Binary64 {
    pub bits: u64,
}

/// Bit that holds the sign.
pub const SIGN: u64 = 0x8000_0000_0000_0000;

/// Pattern of positive infinity; a larger magnitude is not a number.
pub const INFINITE: u64 = 0x7ff0_0000_0000_0000;

/// Weight of the lowest exponent bit, two to the power of 52.
pub const FRACTION: u64 = 0x10_0000_0000_0000;

/// The magnitude that a pattern without sign stands for, in units of two to the power
/// of -1074 (the smallest positive double). Infinity stands above all finite numbers.
pub open spec fn magnitude(pattern: u64) -> nat {
    let exponent = (pattern / FRACTION) as nat;
    let fraction = (pattern % FRACTION) as nat;
    if exponent == 0 {
        fraction
    } else {
        (FRACTION as nat + fraction) * pow2((exponent - 1) as nat)
    }
}

/// The number one, in the units of `magnitude`.
pub open spec fn unit() -> nat {
    pow2(1074)
}

impl Binary64 {
    /// Whether the sign bit is set.
    pub open spec fn negative(self) -> bool {
        self.bits >= SIGN
    }

    /// The pattern without its sign.
    pub open spec fn unsigned(self) -> u64 {
        if self.bits >= SIGN {
            (self.bits - SIGN) as u64
        } else {
            self.bits
        }
    }

    /// Whether this is a number at all.
    pub open spec fn number(self) -> bool {
        self.unsigned() <= INFINITE
    }

    /// Whether this is a number other than an infinity.
    pub open spec fn finite(self) -> bool {
        self.unsigned() < INFINITE
    }

    /// The value in units of two to the power of -1074.
    pub open spec fn value(self) -> int {
        if self.negative() {
            -(magnitude(self.unsigned()) as int)
        } else {
            magnitude(self.unsigned()) as int
        }
    }

    /// The number with these bits.
    pub fn from_bits(bits: u64) -> (r: Binary64)
        ensures
            r.bits == bits,
    {
        Binary64 { bits }
    }

    fn without_sign(self) -> (r: u64)
        ensures
            r == self.unsigned(),
            r < SIGN,
    {
        if self.bits >= SIGN {
            self.bits - SIGN
        } else {
            self.bits
        }
    }

    /// Whether this is a number other than an infinity.
    pub fn is_finite(self) -> (r: bool)
        ensures
            r == self.finite(),
    {
        self.without_sign() < INFINITE
    }

    /// The number without its sign.
    pub fn abs(self) -> (r: Binary64)
        ensures
            r.bits == self.unsigned(),
            r.number() == self.number(),
            r.finite() == self.finite(),
            r.value() == magnitude(self.unsigned()),
    {
        Binary64 { bits: self.without_sign() }
    }

    /// Whether both are numbers and this one is the smaller.
    pub fn less(self, other: Binary64) -> (r: bool)
        ensures
            r == (self.number() && other.number() && self.value() < other.value()),
    {
        let a: u64 = self.without_sign();
        let b: u64 = other.without_sign();
        proof {
            lemma_magnitude_order(a, b);
            lemma_magnitude_order(b, a);
            lemma_magnitude_zero(a);
            lemma_magnitude_zero(b);
        }
        if a > INFINITE || b > INFINITE {
            false
        } else if self.bits >= SIGN {
            if other.bits >= SIGN {
                b < a
            } else {
                a > 0 || b > 0
            }
        } else if other.bits >= SIGN {
            false
        } else {
            a < b
        }
    }

    /// Whether both are numbers of the same value; the two zeros are equal.
    pub fn same(self, other: Binary64) -> (r: bool)
        ensures
            r == (self.number() && other.number() && self.value() == other.value()),
    {
        let a: u64 = self.without_sign();
        let b: u64 = other.without_sign();
        proof {
            lemma_magnitude_order(a, b);
            lemma_magnitude_order(b, a);
            lemma_magnitude_zero(a);
            lemma_magnitude_zero(b);
        }
        a <= INFINITE && b <= INFINITE && (self.bits == other.bits || (a == 0 && b == 0))
    }

    /// The double that equals a 32-bit integer.
    pub fn from_u32(n: u32) -> (r: Binary64)
        ensures
            r.finite(),
            !r.negative(),
            r.value() == n * unit(),
    {
        if n == 0 {
            proof {
                assert(0 * unit() == 0) by (nonlinear_arith);
            }
            return Binary64 { bits: 0 };
        }
        let mut mantissa: u64 = n as u64;
        let mut exponent: u64 = 1075;
        proof {
            lemma_normalize_start(n as nat);
        }
        while mantissa < FRACTION
            invariant
                0 < mantissa < 2 * FRACTION,
                1023 <= exponent <= 1075,
                mantissa * pow2((exponent - 1) as nat) == n * unit(),
                mantissa >= pow2((1075 - exponent) as nat),
                n >= 1,
            decreases exponent,
        {
            proof {
                lemma_normalize_step(mantissa as nat, exponent as nat);
            }
            mantissa = mantissa * 2;
            exponent = exponent - 1;
        }
        let bits: u64 = exponent * FRACTION + (mantissa - FRACTION);
        proof {
            assert(bits / FRACTION == exponent && bits % FRACTION == mantissa - FRACTION) by (nonlinear_arith)
                requires
                    bits == exponent * FRACTION + (mantissa - FRACTION),
                    0 <= mantissa - FRACTION < FRACTION,
                    FRACTION == 0x10_0000_0000_0000u64,
            ;
            assert(bits < INFINITE);
        }
        Binary64 { bits }
    }

    /// The double that equals a signed 32-bit integer.
    pub fn from_i32(n: i32) -> (r: Binary64)
        ensures
            r.finite(),
            r.value() == n * unit(),
    {
        if n >= 0 {
            return Binary64::from_u32(n as u32);
        }
        let size: i64 = -(n as i64);
        let positive = Binary64::from_u32(size as u32);
        proof {
            assert(-(size * unit()) == n * unit()) by (nonlinear_arith)
                requires
                    size == -n,
            ;
        }
        Binary64 { bits: positive.bits + SIGN }
    }
}

proof fn lemma_normalize_start(n: nat)
    requires
        n >= 1,
    ensures
        n * pow2(1074) == n * unit(),
        n >= pow2(0),
{
    lemma2_to64();
}

proof fn lemma_normalize_step(mantissa: nat, exponent: nat)
    requires
        0 < mantissa < FRACTION,
        1023 <= exponent <= 1075,
        mantissa >= pow2((1075 - exponent) as nat),
    ensures
        exponent > 1023,
        (mantissa * 2) * pow2((exponent - 2) as nat) == mantissa * pow2((exponent - 1) as nat),
        mantissa * 2 >= pow2((1076 - exponent) as nat),
{
    lemma2_to64();
    lemma_pow2_adds(1, (exponent - 2) as nat);
    lemma_pow2_adds(1, (1075 - exponent) as nat);
    if exponent == 1023 {
        lemma2_to64_rest();
        assert(pow2(52) == 0x10_0000_0000_0000);
        assert(false);
    }
    let p = pow2((exponent - 2) as nat);
    assert((mantissa * 2) * p == mantissa * (2 * p)) by (nonlinear_arith);
}

/// A pattern stands for nothing exactly when it is zero.
proof fn lemma_magnitude_zero(a: u64)
    requires
        a < SIGN,
    ensures
        (magnitude(a) == 0) == (a == 0),
{
    let exponent = a / FRACTION;
    if exponent > 0 {
        lemma_pow2_pos((exponent - 1) as nat);
        let p = pow2((exponent - 1) as nat);
        let f = a % FRACTION;
        assert((FRACTION as nat + f as nat) * p > 0) by (nonlinear_arith)
            requires
                p > 0,
                FRACTION > 0,
        ;
    }
}

/// Patterns without sign are ordered as the magnitudes that they stand for.
proof fn lemma_magnitude_order(a: u64, b: u64)
    requires
        a < SIGN,
        b < SIGN,
    ensures
        a < b ==> magnitude(a) < magnitude(b),
        a == b ==> magnitude(a) == magnitude(b),
{
    if a < b {
        let ea = (a / FRACTION) as nat;
        let eb = (b / FRACTION) as nat;
        let fa = (a % FRACTION) as nat;
        let fb = (b % FRACTION) as nat;
        let f = FRACTION as nat;
        lemma2_to64();
        assert(pow2(0) == 1);
        if ea == eb {
            assert(fa < fb);
            if ea > 0 {
                let p = pow2((ea - 1) as nat);
                lemma_pow2_pos((ea - 1) as nat);
                assert((f + fa) * p < (f + fb) * p) by (nonlinear_arith)
                    requires
                        fa < fb,
                        p > 0,
                ;
            }
        } else {
            assert(ea < eb);
            let q = pow2((eb - 1) as nat);
            lemma_pow2_pos((eb - 1) as nat);
            assert((f + fb) * q >= f * q) by (nonlinear_arith)
                requires
                    q > 0,
            ;
            if ea == 0 {
                assert(f * q >= f) by (nonlinear_arith)
                    requires
                        q > 0,
                ;
            } else {
                let p = pow2((ea - 1) as nat);
                lemma_pow2_pos((ea - 1) as nat);
                lemma_pow2_adds(1, (ea - 1) as nat);
                assert(2 * p == pow2(ea));
                if ea < eb - 1 {
                    lemma_pow2_strictly_increases(ea, (eb - 1) as nat);
                }
                assert((f + fa) * p < f * q) by (nonlinear_arith)
                    requires
                        fa < f,
                        2 * p <= q,
                        p > 0,
                ;
            }
        }
    }
}

} // verus!
