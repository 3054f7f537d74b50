//! Conversion of one channel sample into an 8-bit value.
//!
//! Floating-point samples are decoded from their IEEE-754 bit pattern with
//! integer arithmetic: the sample is multiplied by 255, the exact product is
//! rounded to the format's precision (to nearest, ties to even), and the
//! result is truncated toward zero and saturated to `0..=255`. NaN and
//! negative values give 0, positive infinity gives 255. Multi-byte samples
//! are read little-endian.
use vstd::arithmetic::div_mod::{
    lemma_basic_div, lemma_div_denominator, lemma_div_is_ordered_by_denominator,
    lemma_fundamental_div_mod, lemma_mod_pos_bound,
};
use vstd::arithmetic::power2::{
    lemma2_to64, lemma2_to64_rest, lemma_pow2_pos, lemma_pow2_strictly_increases,
    lemma_pow2_unfold, pow2,
};
use vstd::prelude::*;

verus! {

/// 8-bit value of a 16-bit sample `u`: `65535 / u * 255`, saturated, and 255 for `u == 0`.
pub open spec fn u16_rescaled(u: nat) -> u8 {
    if u == 0 {
        255
    } else if 65535 * 255 / u > 255 {
        255
    } else {
        (65535 * 255 / u) as u8
    }
}

/// Number of low bits to drop from `n` so that it fits in `bits` significant bits.
pub open spec fn excess_bits(n: nat, bits: nat) -> nat
    decreases n,
{
    if n == 0 || n < pow2(bits) {
        0
    } else {
        1 + excess_bits(n / 2, bits)
    }
}

/// `n` rounded to `bits` significant bits, to nearest, ties to even.
pub open spec fn round_to_bits(n: nat, bits: nat) -> nat {
    let s = excess_bits(n, bits);
    if s == 0 {
        n
    } else {
        let unit = pow2(s);
        let q = n / unit;
        let rem = n % unit;
        let half = pow2((s - 1) as nat);
        if rem > half || (rem == half && q % 2 == 1) {
            (q + 1) * unit
        } else {
            q * unit
        }
    }
}

/// `floor(r * 2^e)`.
pub open spec fn scaled_floor(r: nat, e: int) -> nat {
    if e >= 0 {
        r * pow2(e as nat)
    } else {
        r / pow2((-e) as nat)
    }
}

pub open spec fn saturate_u8(v: nat) -> u8 {
    if v > 255 {
        255
    } else {
        v as u8
    }
}

/// 8-bit value of a binary floating-point sample given by its fields: the sign,
/// the biased exponent and the fraction, in a format with `frac_bits` fraction
/// bits, all-ones exponent `max_biased` and exponent bias `bias`.
pub open spec fn float_sample(
    negative: bool,
    biased: nat,
    fraction: nat,
    frac_bits: nat,
    max_biased: nat,
    bias: nat,
) -> u8 {
    if biased == max_biased {
        if fraction == 0 && !negative {
            255
        } else {
            0
        }
    } else if negative {
        0
    } else {
        let m = if biased == 0 {
            fraction
        } else {
            fraction + pow2(frac_bits)
        };
        let e = (if biased == 0 {
            1int
        } else {
            biased as int
        }) - bias - frac_bits;
        saturate_u8(scaled_floor(round_to_bits(255 * m, frac_bits + 1), e))
    }
}

/// 8-bit value of the 16-bit sample held in `b[0..2]`.
pub open spec fn u16_sample(b: Seq<u8>) -> u8 {
    u16_rescaled(b[0] as nat + 256 * b[1] as nat)
}

/// 8-bit value of the 32-bit float sample held in `b[0..4]`.
pub open spec fn f32_sample(b: Seq<u8>) -> u8 {
    float_sample(
        b[3] >= 128,
        (b[3] % 128) as nat * 2 + (b[2] / 128) as nat,
        (b[2] % 128) as nat * 65536 + b[1] as nat * 256 + b[0] as nat,
        23,
        255,
        127,
    )
}

/// 8-bit value of the 64-bit float sample held in `b[0..8]`.
pub open spec fn f64_sample(b: Seq<u8>) -> u8 {
    float_sample(
        b[7] >= 128,
        (b[7] % 128) as nat * 16 + (b[6] / 16) as nat,
        (b[6] % 16) as nat * 281474976710656 + b[5] as nat * 1099511627776 + b[4] as nat
            * 4294967296 + b[3] as nat * 16777216 + b[2] as nat * 65536 + b[1] as nat * 256
            + b[0] as nat,
        52,
        2047,
        1023,
    )
}

fn pow2_exec(k: u64) -> (r: u64)
    requires
        k < 64,
    ensures
        r as nat == pow2(k as nat),
{
    proof {
        lemma2_to64();
        lemma2_to64_rest();
    }
    let mut r: u64 = 1;
    let mut i: u64 = 0;
    while i < k
        invariant
            i <= k < 64,
            r as nat == pow2(i as nat),
        decreases k - i,
    {
        proof {
            lemma2_to64_rest();
            lemma_pow2_unfold((i + 1) as nat);
            if i + 1 < 64 {
                lemma_pow2_strictly_increases((i + 1) as nat, 64);
            }
        }
        r = r * 2;
        i = i + 1;
    }
    r
}

fn round_to_bits_exec(n: u64, bits: u64) -> (r: u64)
    requires
        1 <= bits <= 62,
        n < 0x4000_0000_0000_0000,
    ensures
        r as nat == round_to_bits(n as nat, bits as nat),
        r < 0x8000_0000_0000_0000,
{
    proof {
        lemma2_to64();
        lemma2_to64_rest();
    }
    let limit = pow2_exec(bits);
    let mut s: u64 = 0;
    let mut t: u64 = n;
    proof {
        lemma_pow2_strictly_increases(0, bits as nat);
    }
    while t >= limit
        invariant
            limit as nat == pow2(bits as nat),
            limit >= 2,
            n < 0x4000_0000_0000_0000,
            s < 62,
            t as nat == n as nat / pow2(s as nat),
            pow2(s as nat) * t <= n,
            s > 0 ==> t >= 1,
            excess_bits(n as nat, bits as nat) == s + excess_bits(t as nat, bits as nat),
        decreases t,
    {
        let ghost old_t = t;
        proof {
            lemma_pow2_pos(s as nat);
            lemma_pow2_unfold((s + 1) as nat);
            lemma_div_denominator(n as int, pow2(s as nat) as int, 2);
            lemma_fundamental_div_mod(t as int, 2);
            assert(pow2((s + 1) as nat) * (t / 2) <= n) by (nonlinear_arith)
                requires
                    pow2((s + 1) as nat) == pow2(s as nat) * 2,
                    pow2(s as nat) * t <= n,
                    t == 2 * (t / 2) + t % 2,
                    t % 2 >= 0,
                    pow2(s as nat) > 0,
            ;
            if s + 1 >= 62 {
                lemma2_to64_rest();
                if s + 1 > 62 {
                    lemma_pow2_strictly_increases(62, (s + 1) as nat);
                }
                assert(pow2((s + 1) as nat) * (t / 2) >= pow2((s + 1) as nat)) by (nonlinear_arith)
                    requires
                        t / 2 >= 1,
                        pow2((s + 1) as nat) > 0,
                ;
            }
        }
        t = t / 2;
        s = s + 1;
    }
    if s == 0 {
        n
    } else {
        let unit = pow2_exec(s);
        let q = n / unit;
        let rem = n % unit;
        let half = pow2_exec(s - 1);
        proof {
            lemma_pow2_pos(s as nat);
            lemma_fundamental_div_mod(n as int, unit as int);
            lemma_mod_pos_bound(n as int, unit as int);
            assert(unit <= n) by (nonlinear_arith)
                requires
                    unit * t <= n,
                    t >= 1,
                    unit > 0,
            ;
            assert((q + 1) * unit <= 2 * n) by (nonlinear_arith)
                requires
                    n == unit * q + rem,
                    rem >= 0,
                    unit <= n,
            ;
            assert(q * unit <= n) by (nonlinear_arith)
                requires
                    n == unit * q + rem,
                    rem >= 0,
            ;
        }
        if rem > half || (rem == half && q % 2 == 1) {
            (q + 1) * unit
        } else {
            q * unit
        }
    }
}

fn saturate_scaled_exec(r: u64, e: i64) -> (v: u8)
    requires
        r < 0x8000_0000_0000_0000,
        -4000 < e < 4000,
    ensures
        v == saturate_u8(scaled_floor(r as nat, e as int)),
{
    proof {
        lemma2_to64();
        lemma2_to64_rest();
    }
    if e >= 0 {
        proof {
            lemma_pow2_pos(e as nat);
        }
        if r == 0 {
            0
        } else if r > 255 || e >= 8 {
            proof {
                if e > 8 {
                    lemma_pow2_strictly_increases(8, e as nat);
                }
                assert(r * pow2(e as nat) > 255) by (nonlinear_arith)
                    requires
                        r >= 1,
                        pow2(e as nat) >= 1,
                        r > 255 || pow2(e as nat) >= 256,
                ;
            }
            255
        } else {
            let p = pow2_exec(e as u64);
            proof {
                assert(r * p <= 255 * 128) by (nonlinear_arith)
                    requires
                        r <= 255,
                        p <= 128,
                ;
            }
            let v = r * p;
            if v > 255 {
                255
            } else {
                v as u8
            }
        }
    } else {
        let sh: u64 = (0 - e) as u64;
        if sh >= 63 {
            proof {
                if sh > 63 {
                    lemma_pow2_strictly_increases(63, sh as nat);
                }
                lemma_basic_div(r as int, pow2(sh as nat) as int);
            }
            0
        } else {
            let p = pow2_exec(sh);
            proof {
                lemma_pow2_pos(sh as nat);
            }
            let v = r / p;
            if v > 255 {
                255
            } else {
                v as u8
            }
        }
    }
}

fn float_sample_exec(
    negative: bool,
    biased: u64,
    fraction: u64,
    frac_bits: u64,
    max_biased: u64,
    bias: u64,
) -> (r: u8)
    requires
        (frac_bits == 23 && max_biased == 255 && bias == 127) || (frac_bits == 52 && max_biased
            == 2047 && bias == 1023),
        biased <= max_biased,
        fraction < pow2(frac_bits as nat),
    ensures
        r == float_sample(
            negative,
            biased as nat,
            fraction as nat,
            frac_bits as nat,
            max_biased as nat,
            bias as nat,
        ),
{
    proof {
        lemma2_to64();
        lemma2_to64_rest();
    }
    if biased == max_biased {
        if fraction == 0 && !negative {
            255
        } else {
            0
        }
    } else if negative {
        0
    } else {
        let hidden = pow2_exec(frac_bits);
        let m: u64 = if biased == 0 {
            fraction
        } else {
            fraction + hidden
        };
        let n: u64 = 255 * m;
        let rounded = round_to_bits_exec(n, frac_bits + 1);
        let e: i64 = (if biased == 0 {
            1i64
        } else {
            biased as i64
        }) - bias as i64 - frac_bits as i64;
        saturate_scaled_exec(rounded, e)
    }
}

/// 8-bit value of the 16-bit sample at `bytes[at..at + 2]`.
pub fn u16_sample_at(bytes: &Vec<u8>, at: usize) -> (r: u8)
    requires
        at + 2 <= bytes@.len(),
    ensures
        r == u16_sample(bytes@.subrange(at as int, at + 2)),
{
    // the length of a `Vec` fits a `usize`, so the indices below cannot overflow
    let _len = bytes.len();
    let u: u32 = bytes[at] as u32 + 256 * bytes[at + 1] as u32;
    if u == 0 {
        255
    } else {
        let q: u32 = 16711425 / u;
        if q > 255 {
            255
        } else {
            q as u8
        }
    }
}

/// 8-bit value of the 32-bit float sample at `bytes[at..at + 4]`.
pub fn f32_sample_at(bytes: &Vec<u8>, at: usize) -> (r: u8)
    requires
        at + 4 <= bytes@.len(),
    ensures
        r == f32_sample(bytes@.subrange(at as int, at + 4)),
{
    // the length of a `Vec` fits a `usize`, so the indices below cannot overflow
    let _len = bytes.len();
    let b0 = bytes[at] as u64;
    let b1 = bytes[at + 1] as u64;
    let b2 = bytes[at + 2] as u64;
    let b3 = bytes[at + 3] as u64;
    proof {
        lemma2_to64();
    }
    float_sample_exec(b3 >= 128, (b3 % 128) * 2 + b2 / 128, (b2 % 128) * 65536 + b1 * 256 + b0, 23, 255, 127)
}

/// 8-bit value of the 64-bit float sample at `bytes[at..at + 8]`.
pub fn f64_sample_at(bytes: &Vec<u8>, at: usize) -> (r: u8)
    requires
        at + 8 <= bytes@.len(),
    ensures
        r == f64_sample(bytes@.subrange(at as int, at + 8)),
{
    // the length of a `Vec` fits a `usize`, so the indices below cannot overflow
    let _len = bytes.len();
    let b0 = bytes[at] as u64;
    let b1 = bytes[at + 1] as u64;
    let b2 = bytes[at + 2] as u64;
    let b3 = bytes[at + 3] as u64;
    let b4 = bytes[at + 4] as u64;
    let b5 = bytes[at + 5] as u64;
    let b6 = bytes[at + 6] as u64;
    let b7 = bytes[at + 7] as u64;
    proof {
        lemma2_to64();
        lemma2_to64_rest();
    }
    let fraction = (b6 % 16) * 281474976710656 + b5 * 1099511627776 + b4 * 4294967296 + b3
        * 16777216 + b2 * 65536 + b1 * 256 + b0;
    float_sample_exec(b7 >= 128, (b7 % 128) * 16 + b6 / 16, fraction, 52, 2047, 1023)
}

/// Every 16-bit sample, zero included, becomes 255: `65535 / u` is at least 1.
pub proof fn lemma_u16_rescale_saturates(u: nat)
    requires
        u <= 65535,
    ensures
        u16_rescaled(u) == 255,
{
    if u > 0 {
        lemma_div_is_ordered_by_denominator(65535int * 255, u as int, 65535);
    }
}

/// A float sample whose bits are all zero becomes 0.
pub proof fn lemma_float_zero(frac_bits: nat, max_biased: nat, bias: nat)
    requires
        max_biased > 0,
        bias + frac_bits > 1,
    ensures
        float_sample(false, 0, 0, frac_bits, max_biased, bias) == 0,
{
    let e = 1int - bias - frac_bits;
    lemma_pow2_pos((-e) as nat);
    assert(round_to_bits(0, frac_bits + 1) == 0);
    assert(scaled_floor(0, e) == 0);
}

/// The 32-bit float 1.0 (bytes `00 00 80 3f`) becomes 255.
pub proof fn lemma_f32_one_is_255()
    ensures
        f32_sample(seq![0u8, 0u8, 0x80u8, 0x3fu8]) == 255,
{
    lemma2_to64();
    let n: nat = 255 * pow2(23);
    assert(n == 2139095040);
    reveal_with_fuel(excess_bits, 8);
    assert(excess_bits(n, 24) == 7);
    assert(n / pow2(7) == 16711680);
    assert(n % pow2(7) == 0);
    assert(round_to_bits(n, 24) == n);
    assert(n / pow2(23) == 255) by (nonlinear_arith)
        requires
            n == 2139095040,
            pow2(23) == 8388608,
    ;
    assert(scaled_floor(n, -23) == 255);
}
/// The 32-bit float 0.5 (bytes `00 00 00 3f`) becomes 127: 127.5 is truncated.
pub proof fn lemma_f32_half_is_127()
    ensures
        f32_sample(seq![0u8, 0u8, 0u8, 0x3fu8]) == 127,
{
    lemma2_to64();
    let n: nat = 255 * pow2(23);
    assert(n == 2139095040);
    reveal_with_fuel(excess_bits, 8);
    assert(excess_bits(n, 24) == 7);
    assert(n / pow2(7) == 16711680);
    assert(n % pow2(7) == 0);
    assert(round_to_bits(n, 24) == n);
    assert(n / pow2(24) == 127) by (nonlinear_arith)
        requires
            n == 2139095040,
            pow2(24) == 16777216,
    ;
    assert(scaled_floor(n, -24) == 127);
}

} // verus!
