//! The chance with which an operation fires in a block. Verified code has
//! no floating point, so a chance is held as the sixty-four bits of its IEEE
//! 754 binary64 encoding and looked at with integers alone.

use vstd::arithmetic::power2::{
    lemma2_to64, lemma2_to64_rest, lemma_pow2_adds, lemma_pow2_pos, lemma_pow2_strictly_increases,
    pow2,
};
use vstd::bits::{lemma_u64_shl_is_mul, lemma_u64_shr_is_div};
use vstd::prelude::*;

verus! {

/// The encoding of the probability 1.
pub const ONE_BITS: u64 = 0x3FF0_0000_0000_0000;

/// The encoding of the probability 0 with its sign bit set.
pub const NEGATIVE_ZERO_BITS: u64 = 0x8000_0000_0000_0000;

/// The sign bit of a binary64 encoding.
pub open spec fn sign_field(bits: u64) -> nat {
    (bits / 0x8000_0000_0000_0000) as nat
}

/// The eleven exponent bits of a binary64 encoding.
pub open spec fn exponent_field(bits: u64) -> nat {
    ((bits / 0x10_0000_0000_0000) % 0x800) as nat
}

/// The fifty-two fraction bits of a binary64 encoding.
pub open spec fn fraction_field(bits: u64) -> nat {
    (bits % 0x10_0000_0000_0000) as nat
}

/// The integer `m` of the encoded magnitude `m * 2^(e - 1075)`.
pub open spec fn significand(bits: u64) -> nat {
    if exponent_field(bits) == 0 {
        fraction_field(bits)
    } else {
        0x10_0000_0000_0000 + fraction_field(bits)
    }
}

/// The integer `e` of the encoded magnitude `m * 2^(e - 1075)`.
pub open spec fn exponent(bits: u64) -> nat {
    if exponent_field(bits) == 0 {
        1
    } else {
        exponent_field(bits)
    }
}

/// Whether `bits` encodes a number from 0 to 1: a finite one that is zero,
/// or positive with `m * 2^(e - 1075) <= 1`.
pub open spec fn is_probability(bits: u64) -> bool {
    &&& exponent_field(bits) < 0x7FF
    &&& (significand(bits) == 0 || (sign_field(bits) == 0 && exponent(bits) <= 1075
        && significand(bits) <= pow2((1075 - exponent(bits)) as nat)))
}

/// Whether the uniform variable `draw / 2^64` is less than the magnitude
/// that `bits` encodes: `draw / 2^64 < m / 2^(1075 - e)`.
pub open spec fn draw_is_below(bits: u64, draw: u64) -> bool {
    draw * pow2((1075 - exponent(bits)) as nat) < significand(bits) * pow2(64)
}

/// A probability, held in its IEEE 754 binary64 encoding.
#[derive(Clone, Copy, Debug, PartialEq, Eq)]
pub struct Chance {
    bits: u64,
}

impl Chance {
    /// Every chance encodes a number from 0 to 1.
    #[verifier::type_invariant]
    pub closed spec fn valid(self) -> bool {
        is_probability(self.bits)
    }

    /// The encoding of this chance.
    pub closed spec fn bits(self) -> u64 {
        self.bits
    }

    /// Whether an operation with this chance fires on the uniform draw
    /// `draw`: whether `draw / 2^64` is less than the chance.
    pub open spec fn fires_on(self, draw: u64) -> bool {
        draw_is_below(self.bits(), draw)
    }

    /// The chance with the encoding `bits`, if `bits` encodes a number from 0 to 1.
    pub fn from_bits(bits: u64) -> (chance: Option<Chance>)
        ensures
            chance is Some <==> is_probability(bits),
            chance is Some ==> chance->0.bits() == bits && chance->0.valid(),
    {
        proof {
            lemma_probability_encodings(bits);
        }
        if bits <= ONE_BITS || bits == NEGATIVE_ZERO_BITS {
            Some(Chance { bits })
        } else {
            None
        }
    }

    /// The encoding of this chance.
    pub fn to_bits(&self) -> (bits: u64)
        ensures
            bits == self.bits(),
            is_probability(bits),
    {
        proof {
            use_type_invariant(self);
        }
        self.bits
    }
}

/// The encodings of the numbers from 0 to 1 are those up to `ONE_BITS`, and
/// `NEGATIVE_ZERO_BITS`.
pub proof fn lemma_probability_encodings(bits: u64)
    ensures
        is_probability(bits) <==> (bits <= ONE_BITS || bits == NEGATIVE_ZERO_BITS),
{
    lemma2_to64_rest();
    let e = exponent(bits);
    let m = significand(bits);
    if sign_field(bits) == 0 && exponent_field(bits) < 0x7FF {
        if e <= 1022 {
            assert(m < pow2(53));
            if e < 1022 {
                lemma_pow2_strictly_increases(53, (1075 - e) as nat);
            }
        } else if e == 1023 {
        } else if e <= 1075 {
            if e > 1024 {
                lemma_pow2_strictly_increases((1075 - e) as nat, 51);
            }
            assert(pow2((1075 - e) as nat) <= pow2(51));
        }
    }
}

/// The exponent and fraction bits of an encoding, read with shifts and masks.
fn fields(bits: u64) -> (r: (u64, u64))
    ensures
        r.0 == exponent_field(bits),
        r.1 == fraction_field(bits),
        r.1 < 0x10_0000_0000_0000,
        r.0 < 0x800,
{
    let e: u64 = (bits >> 52) & 0x7FF;
    let f: u64 = bits & 0xF_FFFF_FFFF_FFFF;
    assert((bits >> 52) & 0x7FF == (bits / 0x10_0000_0000_0000) % 0x800) by (bit_vector);
    assert(bits & 0xF_FFFF_FFFF_FFFF == bits % 0x10_0000_0000_0000) by (bit_vector);
    (e, f)
}

/// `d * 2^k < m` says the same as `d <= (m - 1) / 2^k`, for positive `m`.
proof fn lemma_scaled_below(d: int, m: int, p: int)
    requires
        0 <= d,
        0 < m,
        0 < p,
    ensures
        d * p < m <==> d <= (m - 1) / p,
{
    let q = (m - 1) / p;
    assert(q * p <= m - 1 < (q + 1) * p) by (nonlinear_arith)
        requires
            q == (m - 1) / p,
            0 < p,
            0 <= m - 1,
    ;
    if d <= q {
        assert(d * p <= q * p) by (nonlinear_arith)
            requires
                d <= q,
                0 < p,
        ;
    } else {
        assert(d * p >= (q + 1) * p) by (nonlinear_arith)
            requires
                d >= q + 1,
                0 < p,
        ;
    }
}

/// A common positive factor can be struck from both sides of `<`.
proof fn lemma_strike_factor(a: int, b: int, q: int)
    requires
        0 < q,
    ensures
        a * q < b * q <==> a < b,
{
    assert(a < b ==> a * q < b * q) by (nonlinear_arith)
        requires
            0 < q,
    ;
    assert(a >= b ==> a * q >= b * q) by (nonlinear_arith)
        requires
            0 < q,
    ;
}

impl Chance {
    /// Whether an operation with this chance fires on the uniform draw `draw`.
    pub fn fires(&self, draw: u64) -> (fired: bool)
        ensures
            fired == self.fires_on(draw),
    {
        proof {
            use_type_invariant(self);
            lemma_probability_encodings(self.bits);
            lemma2_to64();
            lemma2_to64_rest();
        }
        let bits = self.bits;
        let (e, f) = fields(bits);
        if bits == ONE_BITS {
            proof {
                lemma_extreme_chances(*self, draw);
            }
            return true;
        }
        if e == 0 && f == 0 {
            proof {
                lemma_extreme_chances(*self, draw);
            }
            return false;
        }
        assert(bits < ONE_BITS);
        assert(e <= 1022);
        let exp: u64 = if e == 0 {
            1
        } else {
            e
        };
        let m: u64 = if e == 0 {
            f
        } else {
            f + 0x10_0000_0000_0000
        };
        assert(m == significand(bits) && exp == exponent(bits));
        if exp >= 1011 {
            let shift: u64 = exp - 1011;
            proof {
                if shift < 11 {
                    lemma_pow2_strictly_increases(shift as nat, 11);
                }
                assert(m * pow2(shift as nat) <= u64::MAX) by (nonlinear_arith)
                    requires
                        m < 0x20_0000_0000_0000,
                        pow2(shift as nat) <= 0x800,
                ;
                lemma_u64_shl_is_mul(m, shift);
                lemma_pow2_adds((64 - shift) as nat, shift as nat);
                lemma_pow2_pos((64 - shift) as nat);
                let q = pow2((64 - shift) as nat) as int;
                let t = m * pow2(shift as nat);
                assert(m * pow2(64) == t * q) by (nonlinear_arith)
                    requires
                        pow2(64) == q * pow2(shift as nat),
                        t == m * pow2(shift as nat),
                ;
                lemma_strike_factor(draw as int, t, q);
            }
            draw < (m << shift)
        } else {
            let k: u64 = 1011 - exp;
            proof {
                lemma_pow2_adds(k as nat, 64);
                lemma_pow2_pos(k as nat);
                let p = pow2(k as nat) as int;
                assert(draw * pow2((1075 - exp) as nat) == (draw * p) * pow2(64)) by (nonlinear_arith)
                    requires
                        pow2((1075 - exp) as nat) == p * pow2(64),
                ;
                lemma_strike_factor(draw * p, m as int, pow2(64) as int);
                lemma_scaled_below(draw as int, m as int, p);
            }
            if k >= 53 {
                proof {
                    if k > 53 {
                        lemma_pow2_strictly_increases(53, k as nat);
                    }
                    let p = pow2(k as nat) as int;
                    assert((m - 1) / p == 0) by (nonlinear_arith)
                        requires
                            0 <= m - 1 < p,
                    ;
                }
                draw == 0
            } else {
                proof {
                    lemma_u64_shr_is_div((m - 1) as u64, k);
                }
                draw <= ((m - 1) >> k)
            }
        }
    }
}

/// A chance of 0 fires on no draw, and a chance of 1 fires on every draw.
pub proof fn lemma_extreme_chances(chance: Chance, draw: u64)
    requires
        chance.valid(),
    ensures
        chance.bits() == 0 || chance.bits() == NEGATIVE_ZERO_BITS ==> !chance.fires_on(draw),
        chance.bits() == ONE_BITS ==> chance.fires_on(draw),
{
    let bits = chance.bits();
    lemma2_to64();
    lemma2_to64_rest();
    if bits == ONE_BITS {
        assert(exponent(bits) == 1023 && significand(bits) == 0x10_0000_0000_0000);
        lemma_strike_factor(draw as int, pow2(64) as int, pow2(52) as int);
        assert(significand(bits) * pow2(64) == pow2(64) * pow2(52)) by (nonlinear_arith)
            requires
                significand(bits) == pow2(52),
        ;
    } else if bits == 0 || bits == NEGATIVE_ZERO_BITS {
        assert(significand(bits) == 0);
        lemma_pow2_pos((1075 - exponent(bits)) as nat);
        assert(draw * pow2((1075 - exponent(bits)) as nat) >= 0) by (nonlinear_arith)
            requires
                draw >= 0,
                pow2((1075 - exponent(bits)) as nat) > 0,
        ;
    }
}

} // verus!
