//! Numeric readings. A reading is held as the bit pattern of an IEEE 754
//! binary64 number, and compared with whole-number bounds by exact integer
//! arithmetic on its sign, significand and exponent.

use vstd::prelude::*;
use vstd::arithmetic::power2::{
    lemma2_to64,
    lemma_pow2_pos,
    lemma_pow2_strictly_increases,
    lemma_pow2_unfold,
    pow2,
};
use vstd::bits::lemma_u64_pow2_no_overflow;

verus! {

/// The sign bit of a binary64 pattern.
pub const SIGN_BIT: u64 = 0x8000_0000_0000_0000;

/// Two to the power 52: the weight of the implicit leading bit of a normal
/// significand, and the divisor that parts exponent field from fraction.
pub const HIDDEN_BIT: u64 = 0x10_0000_0000_0000;

/// The exponent field of infinities and NaNs.
pub const SPECIAL_EXPONENT: u64 = 2047;

/// The exponent field of the numbers in `[1, 2)`, plus the 52 fraction bits.
pub const EXPONENT_OFFSET: u64 = 1075;

/// A number read from a field, as an IEEE 754 binary64 bit pattern.
#[derive(Clone, Copy, Debug, PartialEq, Eq)]
pub struct Reading {
    pub bits: u64,
}

impl Reading {
    /// Whether the sign bit is set.
    pub open spec fn is_negative(self) -> bool {
        self.bits >= SIGN_BIT
    }

    /// The pattern without its sign bit.
    pub open spec fn magnitude_bits(self) -> int {
        if self.bits >= SIGN_BIT {
            self.bits - SIGN_BIT
        } else {
            self.bits as int
        }
    }

    /// The eleven exponent bits, as a number.
    pub open spec fn exponent_field(self) -> int {
        self.magnitude_bits() / (HIDDEN_BIT as int)
    }

    /// The 52 fraction bits, as a number.
    pub open spec fn fraction_field(self) -> int {
        self.magnitude_bits() % (HIDDEN_BIT as int)
    }

    /// Neither an infinity nor a NaN.
    pub open spec fn is_finite(self) -> bool {
        self.exponent_field() < SPECIAL_EXPONENT
    }

    /// Not a number.
    pub open spec fn is_nan(self) -> bool {
        self.exponent_field() == SPECIAL_EXPONENT && self.fraction_field() != 0
    }

    /// The signed significand `m` of a finite reading, whose value is
    /// `m * 2^e` with `e` its `exponent`.
    pub open spec fn significand(self) -> int {
        let m = if self.exponent_field() == 0 {
            self.fraction_field()
        } else {
            HIDDEN_BIT + self.fraction_field()
        };
        if self.is_negative() {
            -m
        } else {
            m
        }
    }

    /// The power of two that scales the significand of a finite reading.
    pub open spec fn exponent(self) -> int {
        if self.exponent_field() == 0 {
            1 - EXPONENT_OFFSET
        } else {
            self.exponent_field() - EXPONENT_OFFSET
        }
    }

    /// `k <= value`, for a finite reading; false for infinities and NaN.
    pub open spec fn at_least(self, k: int) -> bool {
        self.is_finite() && if self.exponent() >= 0 {
            k <= self.significand() * pow2(self.exponent() as nat)
        } else {
            k * pow2((-self.exponent()) as nat) <= self.significand()
        }
    }

    /// `value <= k`, for a finite reading; false for infinities and NaN.
    pub open spec fn at_most(self, k: int) -> bool {
        self.is_finite() && if self.exponent() >= 0 {
            self.significand() * pow2(self.exponent() as nat) <= k
        } else {
            self.significand() <= k * pow2((-self.exponent()) as nat)
        }
    }

    /// `lo <= value <= hi`.
    pub open spec fn within(self, lo: int, hi: int) -> bool {
        self.at_least(lo) && self.at_most(hi)
    }

    /// The reading with the given bit pattern.
    pub fn from_bits(bits: u64) -> (r: Reading)
        ensures
            r.bits == bits,
    {
        Reading { bits }
    }

    /// The bit pattern of the reading.
    pub fn to_bits(&self) -> (bits: u64)
        ensures
            bits == self.bits,
    {
        self.bits
    }

    /// Whether the reading lies in the closed range from `lo` to `hi`. An
    /// infinity or a NaN lies in no range.
    pub fn in_range(&self, lo: i32, hi: i32) -> (b: bool)
        ensures
            b == self.within(lo as int, hi as int),
    {
        let negative = self.bits >= SIGN_BIT;
        let magnitude: u64 = if negative {
            self.bits - SIGN_BIT
        } else {
            self.bits
        };
        let field: u64 = magnitude / HIDDEN_BIT;
        let fraction: u64 = magnitude % HIDDEN_BIT;
        if field >= SPECIAL_EXPONENT {
            return false;
        }
        if field >= EXPONENT_OFFSET {
            proof {
                lemma_pow2_pos(self.exponent() as nat);
                lemma_large_outside(
                    self.significand(),
                    pow2(self.exponent() as nat) as int,
                    lo as int,
                    hi as int,
                );
            }
            return false;
        }
        let m: u64 = if field == 0 {
            fraction
        } else {
            HIDDEN_BIT + fraction
        };
        let shift: u64 = if field == 0 {
            EXPONENT_OFFSET - 1
        } else {
            EXPONENT_OFFSET - field
        };
        let sig: i128 = if negative {
            -(m as i128)
        } else {
            m as i128
        };
        assert(sig == self.significand());
        assert(shift == -self.exponent());
        if shift >= 64 {
            proof {
                lemma_tiny_scaled(sig as int, shift as nat, lo as int);
                lemma_tiny_scaled(sig as int, shift as nat, hi as int);
            }
            let above_lo = lo < 0 || (lo == 0 && sig >= 0);
            let below_hi = hi > 0 || (hi == 0 && sig <= 0);
            above_lo && below_hi
        } else {
            let p: i128 = power_of_two(shift) as i128;
            assert(-0x8000_0000 * 0x8000_0000_0000_0000 <= (lo as int) * (p as int)
                <= 0x8000_0000 * 0x8000_0000_0000_0000) by (nonlinear_arith)
                requires
                    -0x8000_0000 <= lo <= 0x8000_0000,
                    0 < p <= 0x8000_0000_0000_0000,
            ;
            assert(-0x8000_0000 * 0x8000_0000_0000_0000 <= (hi as int) * (p as int)
                <= 0x8000_0000 * 0x8000_0000_0000_0000) by (nonlinear_arith)
                requires
                    -0x8000_0000 <= hi <= 0x8000_0000,
                    0 < p <= 0x8000_0000_0000_0000,
            ;
            (lo as i128) * p <= sig && sig <= (hi as i128) * p
        }
    }
}

/// A significand of at least 52 bits, scaled up, lies beyond every bound of
/// 32 bits, on its own side of zero.
proof fn lemma_large_outside(sig: int, p: int, lo: int, hi: int)
    requires
        sig >= 0x10_0000_0000_0000 || sig <= -0x10_0000_0000_0000,
        p >= 1,
        -0x8000_0000 <= lo,
        hi <= 0x8000_0000,
    ensures
        !(lo <= sig * p && sig * p <= hi),
{
    if sig > 0 {
        assert(sig * p >= sig) by (nonlinear_arith)
            requires
                sig > 0,
                p >= 1,
        ;
    } else {
        assert(sig * p <= sig) by (nonlinear_arith)
            requires
                sig < 0,
                p >= 1,
        ;
    }
}

/// Scaled by two to the power 64 or more, a bound other than zero lies beyond
/// every significand, on its own side of zero.
proof fn lemma_tiny_scaled(sig: int, shift: nat, k: int)
    requires
        -0x20_0000_0000_0000 < sig < 0x20_0000_0000_0000,
        shift >= 64,
    ensures
        k > 0 ==> sig < k * pow2(shift),
        k < 0 ==> k * pow2(shift) < sig,
        k == 0 ==> k * pow2(shift) == 0,
{
    lemma2_to64();
    if shift > 64 {
        lemma_pow2_strictly_increases(64, shift);
    }
    let p = pow2(shift) as int;
    if k > 0 {
        assert(k * p >= p) by (nonlinear_arith)
            requires
                k > 0,
                p > 0,
        ;
    }
    if k < 0 {
        assert(k * p <= -p) by (nonlinear_arith)
            requires
                k < 0,
                p > 0,
        ;
    }
}

/// Two to the power `n`.
fn power_of_two(n: u64) -> (p: u64)
    requires
        n < 64,
    ensures
        p == pow2(n as nat),
        0 < p <= 0x8000_0000_0000_0000,
{
    let mut p: u64 = 1;
    let mut i: u64 = 0;
    proof {
        lemma2_to64();
    }
    while i < n
        invariant
            i <= n < 64,
            p == pow2(i as nat),
        decreases n - i,
    {
        proof {
            lemma_pow2_unfold((i + 1) as nat);
            lemma_u64_pow2_no_overflow((i + 1) as nat);
        }
        p = p * 2;
        i += 1;
    }
    proof {
        lemma_pow2_pos(n as nat);
        lemma2_to64();
        if n < 63 {
            lemma_pow2_strictly_increases(n as nat, 63);
        }
        vstd::arithmetic::power2::lemma2_to64_rest();
    }
    p
}

} // verus!
