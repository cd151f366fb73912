//! Single-precision numbers, held by their bit pattern, and their rounding to
//! whole numbers.

use vstd::prelude::*;
use vstd::arithmetic::power2::{lemma2_to64, lemma_pow2_pos, lemma_pow2_strictly_increases, pow2};
use vstd::arithmetic::div_mod::{lemma_fundamental_div_mod, lemma_mod_bound};
use vstd::bits::lemma_u64_shl_is_mul;

verus! {

/// The whole number nearest to `significand * 2^exponent`, a half taken
/// upwards.
pub open spec fn nearest(significand: nat, exponent: int) -> nat {
    if exponent >= 0 {
        significand * pow2(exponent as nat)
    } else {
        (2 * significand + pow2((-exponent) as nat)) / (2 * pow2((-exponent) as nat))
    }
}

/// A number rounds to a whole number no more than a half away from it, and
/// upwards from exactly a half: with `unit = 2^-exponent`, the difference
/// `2 * (nearest * unit - significand)` lies in `(-unit, unit]`.
pub proof fn nearest_is_within_half(significand: nat, exponent: int)
    requires
        exponent < 0,
    ensures
        -pow2((-exponent) as nat) < 2 * (nearest(significand, exponent) * pow2((-exponent) as nat)
            - significand) <= pow2((-exponent) as nat),
{
    let unit = pow2((-exponent) as nat) as int;
    let whole = nearest(significand, exponent) as int;
    lemma_pow2_pos((-exponent) as nat);
    lemma_fundamental_div_mod(2 * significand + unit, 2 * unit);
    lemma_mod_bound(2 * significand + unit, 2 * unit);
    assert(2 * unit * whole == 2 * (whole * unit)) by (nonlinear_arith);
}

/// The value of the 32-bit integer type nearest to `n`.
pub open spec fn clamped(n: int) -> int {
    if n < i32::MIN {
        i32::MIN as int
    } else if n > i32::MAX {
        i32::MAX as int
    } else {
        n
    }
}

/// The bits of the binary32 number nearest to one thousandth.
pub const THOUSANDTH: u32 = 0x3a83_126f;

/// A number in the IEEE 754 binary32 format, given by its 32 bits: from the
/// top the sign, eight bits of exponent and 23 bits of fraction.
#[derive(Clone, Copy, Debug, PartialEq, Eq)]
pub struct Binary32 {
    pub bits: u32,
}

impl Binary32 {
    /// Whether the sign bit is set.
    pub open spec fn negative(self) -> bool {
        self.bits >= 0x8000_0000
    }

    /// The exponent bits, as a number from 0 to 255.
    pub open spec fn field(self) -> int {
        ((self.bits / 0x80_0000) % 0x100) as int
    }

    /// The fraction bits, as a number below `2^23`.
    pub open spec fn fraction(self) -> int {
        (self.bits % 0x80_0000) as int
    }

    /// Whether the number is zero, of either sign.
    pub open spec fn is_zero(self) -> bool {
        self.field() == 0 && self.fraction() == 0
    }

    /// Whether the bits stand for no number at all.
    pub open spec fn is_nan(self) -> bool {
        self.field() == 255 && self.fraction() != 0
    }

    /// Whether the bits stand for an infinity.
    pub open spec fn is_infinite(self) -> bool {
        self.field() == 255 && self.fraction() == 0
    }

    /// The digits of a finite number: its size is `significand * 2^exponent`.
    pub open spec fn significand(self) -> nat {
        if self.field() == 0 {
            self.fraction() as nat
        } else {
            (0x80_0000 + self.fraction()) as nat
        }
    }

    /// The scale of a finite number: its size is `significand * 2^exponent`.
    pub open spec fn exponent(self) -> int {
        if self.field() == 0 {
            -149
        } else {
            self.field() - 150
        }
    }

    /// The number rounded to a 32-bit integer: the nearest whole number, a
    /// half taken away from zero, or the nearest the integer type has if that
    /// is out of its range. What is no number rounds to zero.
    pub open spec fn rounded(self) -> int {
        if self.is_nan() {
            0
        } else if self.is_infinite() {
            if self.negative() {
                i32::MIN as int
            } else {
                i32::MAX as int
            }
        } else if self.negative() {
            clamped(-nearest(self.significand(), self.exponent()))
        } else {
            clamped(nearest(self.significand(), self.exponent()) as int)
        }
    }

    /// This number as a divisor: the number itself, or a thousandth in place
    /// of zero. It is never zero.
    pub fn divisor(self) -> (d: Binary32)
        ensures
            d == if self.is_zero() {
                (Binary32 { bits: THOUSANDTH })
            } else {
                self
            },
            !d.is_zero(),
    {
        if self.bits == 0 || self.bits == 0x8000_0000 {
            Binary32 { bits: THOUSANDTH }
        } else {
            self
        }
    }

    pub fn round(self) -> (n: i32)
        ensures
            n == self.rounded(),
    {
        let negative = self.bits >= 0x8000_0000;
        let field: u32 = (self.bits / 0x80_0000) % 0x100;
        let fraction: u32 = self.bits % 0x80_0000;
        if field == 255 {
            if fraction != 0 {
                return 0;
            }
            return if negative {
                i32::MIN
            } else {
                i32::MAX
            };
        }
        let significand: u64 = if field == 0 {
            fraction as u64
        } else {
            0x80_0000 + fraction as u64
        };
        let whole: u64 = if field >= 150 {
            let shift: u64 = (field - 150) as u64;
            proof {
                lemma2_to64();
                if shift >= 8 {
                    if shift > 8 {
                        lemma_pow2_strictly_increases(8, shift as nat);
                    }
                    assert(significand * pow2(shift as nat) >= 0x8000_0000) by (nonlinear_arith)
                        requires
                            significand >= 0x80_0000,
                            pow2(shift as nat) >= 0x100,
                    ;
                } else {
                    lemma_pow2_strictly_increases(shift as nat, 8);
                    assert(significand * pow2(shift as nat) < 0x1_0000_0000) by (nonlinear_arith)
                        requires
                            significand < 0x100_0000,
                            pow2(shift as nat) < 0x100,
                    ;
                    lemma_u64_shl_is_mul(significand, shift);
                }
            }
            if shift >= 8 {
                0x8000_0000
            } else {
                significand << shift
            }
        } else {
            let shift: u64 = if field == 0 {
                149
            } else {
                (150 - field) as u64
            };
            proof {
                lemma2_to64();
                lemma_pow2_pos(shift as nat);
                if shift > 24 {
                    if shift > 25 {
                        lemma_pow2_strictly_increases(25, shift as nat);
                    }
                    let unit = pow2(shift as nat) as int;
                    assert((2 * significand + unit) / (2 * unit) == 0) by (nonlinear_arith)
                        requires
                            0 <= 2 * significand < unit,
                    ;
                } else {
                    lemma_pow2_strictly_increases(shift as nat, 25);
                    lemma_u64_shl_is_mul(1, shift);
                }
            }
            if shift > 24 {
                0
            } else {
                let unit: u64 = 1u64 << shift;
                (2 * significand + unit) / (2 * unit)
            }
        };
        if negative {
            if whole >= 0x8000_0000 {
                i32::MIN
            } else {
                -(whole as i32)
            }
        } else {
            if whole > 0x7fff_ffff {
                i32::MAX
            } else {
                whole as i32
            }
        }
    }
}

} // verus!
