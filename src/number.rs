use vstd::prelude::*;
use vstd::arithmetic::power2::{pow2, lemma2_to64, lemma2_to64_rest, lemma_pow2_strictly_increases};
use vstd::bits::{lemma_u64_shr_is_div, lemma_u64_shl_is_mul};

verus! {

/// A binary64 (IEEE 754 double precision) number, held by its bit pattern.
#[derive(PartialEq, Eq, Structural, Clone, Copy, Debug)]
pub struct Number {
    pub bits: u64,
}

/// The biased exponent field of a binary64 bit pattern.
pub open spec fn exponent_field(bits: u64) -> u64 {
    (bits >> 52u64) & 0x7ffu64
}

/// The fraction field of a binary64 bit pattern.
pub open spec fn fraction_field(bits: u64) -> u64 {
    bits & 0xf_ffff_ffff_ffffu64
}

pub open spec fn is_nan(bits: u64) -> bool {
    exponent_field(bits) == 0x7ff && fraction_field(bits) != 0
}

pub open spec fn is_infinite(bits: u64) -> bool {
    exponent_field(bits) == 0x7ff && fraction_field(bits) == 0
}

pub open spec fn sign_negative(bits: u64) -> bool {
    bits >> 63u64 == 1
}

/// For a finite number of magnitude at least one: the integer part of its magnitude,
/// significand * 2^(exponent - 1075).
pub open spec fn integer_part(bits: u64) -> int {
    let e = exponent_field(bits) as int;
    let m = fraction_field(bits) as int + pow2(52) as int;
    if e >= 1075 {
        m * pow2((e - 1075) as nat)
    } else {
        m / (pow2((1075 - e) as nat) as int)
    }
}

/// The index that a number denotes: the number truncated toward zero and
/// saturated into `usize`; zero for NaN and for every negative number.
pub open spec fn index_of(bits: u64) -> int {
    if is_nan(bits) || sign_negative(bits) {
        0
    } else if is_infinite(bits) {
        usize::MAX as int
    } else if exponent_field(bits) < 1023 {
        0
    } else if integer_part(bits) > usize::MAX {
        usize::MAX as int
    } else {
        integer_part(bits)
    }
}

impl Number {
    pub fn from_bits(bits: u64) -> (r: Number)
        ensures
            r.bits == bits,
    {
        Number { bits }
    }

    /// The number as an index: truncated toward zero, with NaN and negative
    /// numbers read as zero and numbers past `usize::MAX` read as `usize::MAX`.
    pub fn to_index(&self) -> (r: usize)
        ensures
            r as int == index_of(self.bits),
    {
        let bits = self.bits;
        let e: u64 = (bits >> 52u64) & 0x7ffu64;
        let f: u64 = bits & 0xf_ffff_ffff_ffffu64;
        if e == 0x7ff && f != 0 {
            0
        } else if bits >> 63u64 == 1 {
            0
        } else if e == 0x7ff {
            usize::MAX
        } else if e < 1023 {
            0
        } else {
            assert(f < 0x10_0000_0000_0000u64) by (bit_vector)
                requires f == bits & 0xf_ffff_ffff_ffffu64;
            proof {
                lemma2_to64();
                lemma2_to64_rest();
            }
            let m: u64 = f + 0x10_0000_0000_0000u64;
            assert(m as int == fraction_field(bits) as int + pow2(52) as int);
            if e >= 1075 {
                let s: u64 = e - 1075;
                if s >= 12 {
                    proof {
                        if s > 12 {
                            lemma_pow2_strictly_increases(12, s as nat);
                        }
                        assert(m * pow2(s as nat) >= 0x10_0000_0000_0000 * pow2(12))
                            by (nonlinear_arith)
                            requires m >= 0x10_0000_0000_0000, pow2(s as nat) >= pow2(12);
                    }
                    assert(integer_part(bits) == m * pow2(s as nat));
                    usize::MAX
                } else {
                    proof {
                        assert(m * pow2(s as nat) <= u64::MAX) by (nonlinear_arith)
                            requires m < 0x20_0000_0000_0000, pow2(s as nat) <= 2048;
                        lemma_u64_shl_is_mul(m, s);
                    }
                    clamp_to_usize(m << s)
                }
            } else {
                let s: u64 = 1075 - e;
                proof {
                    lemma_u64_shr_is_div(m, s);
                }
                assert(integer_part(bits) == (m >> s) as int);
                clamp_to_usize(m >> s)
            }
        }
    }
}

fn clamp_to_usize(v: u64) -> (r: usize)
    ensures
        r as int == if v > usize::MAX { usize::MAX as int } else { v as int },
{
    if v > usize::MAX as u64 {
        usize::MAX
    } else {
        v as usize
    }
}

} // verus!
