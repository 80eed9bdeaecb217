//! Per-channel colour quantization: rounding an 8-bit sample to the nearest
//! multiple of a power of two.

use vstd::prelude::*;
use vstd::arithmetic::power2::{lemma2_to64, pow2};
use vstd::std_specs::bits::{axiom_u8_leading_ones, u8_leading_ones};

verus! {

/// The lowest quantization level: buckets of two.
pub const MIN_LEVEL: u8 = 1;

/// The highest quantization level: buckets of 128.
pub const MAX_LEVEL: u8 = 7;

/// The quantization levels that the filter accepts: the number of low bits
/// of a sample that are collapsed.
pub open spec fn valid_level(q: int) -> bool {
    MIN_LEVEL <= q <= MAX_LEVEL
}

/// Tells whether `q` is a level that the filter accepts.
pub fn is_valid_level(q: u8) -> (valid: bool)
    ensures
        valid == valid_level(q as int),
{
    MIN_LEVEL <= q && q <= MAX_LEVEL
}

/// Width of one bucket at level `q`: two to the power `q`.
pub open spec fn bucket(q: int) -> int {
    pow2(q as nat) as int
}

/// The sample `v` rounded to the nearest multiple of the bucket width, a tie
/// going upward, and held at 255 where the rounding would leave the range of
/// a sample.
pub open spec fn quantized(v: int, q: int) -> int {
    let rounded = ((v + bucket(q) / 2) / bucket(q)) * bucket(q);
    if rounded > 255 {
        255
    } else {
        rounded
    }
}

/// The bucket widths of the valid levels, written out.
proof fn lemma_bucket_values(q: u8)
    requires
        valid_level(q as int),
    ensures
        bucket(q as int) == (1u16 << q) as int,
        bucket(q as int) / 2 == (1u16 << ((q - 1) as u8)) as int,
        2 <= bucket(q as int) <= 128,
        256int % bucket(q as int) == 0,
{
    lemma2_to64();
    let p: u8 = (q - 1) as u8;
    assert(1 <= q <= 7 && p == q - 1 ==> (1u16 << q) == 2 * (1u16 << p) && 2 <= (1u16 << q) <= 128
        && (q == 1 ==> (1u16 << q) == 2)
        && (q == 2 ==> (1u16 << q) == 4)
        && (q == 3 ==> (1u16 << q) == 8)
        && (q == 4 ==> (1u16 << q) == 16)
        && (q == 5 ==> (1u16 << q) == 32)
        && (q == 6 ==> (1u16 << q) == 64)
        && (q == 7 ==> (1u16 << q) == 128)) by (bit_vector);
    let b = bucket(q as int);
    assert(b == 2 || b == 4 || b == 8 || b == 16 || b == 32 || b == 64 || b == 128);
    if b == 2 {
        assert(256int % 2 == 0);
    } else if b == 4 {
        assert(256int % 4 == 0);
    } else if b == 8 {
        assert(256int % 8 == 0);
    } else if b == 16 {
        assert(256int % 16 == 0);
    } else if b == 32 {
        assert(256int % 32 == 0);
    } else if b == 64 {
        assert(256int % 64 == 0);
    } else {
        assert(256int % 128 == 0);
    }
}

/// A sample has more than `8 - q` leading one bits exactly when rounding it
/// at level `q` would reach 256.
proof fn lemma_leading_ones_saturate(v: u8, q: u8)
    requires
        valid_level(q as int),
    ensures
        u8_leading_ones(v) > 8 - q <==> v + bucket(q as int) / 2 >= 256,
{
    lemma_bucket_values(q);
    axiom_u8_leading_ones(v);
    let n: u8 = u8_leading_ones(v) as u8;
    let p: u8 = (q - 1) as u8;
    let half: u16 = 1u16 << p;
    if n > 8 - q {
        let m: u8 = (8 - n) as u8;
        assert((!v) >> m == 0);
        assert(v as u16 + half >= 256) by (bit_vector)
            requires
                (!v) >> m == 0,
                m <= p,
                p <= 6,
                half == 1u16 << p,
        ;
    } else {
        let z: u8 = (7 - n) as u8;
        assert((v >> z) & 1u8 == 0u8);
        assert(v as u16 + half < 256) by (bit_vector)
            requires
                (v >> z) & 1u8 == 0u8,
                p <= z,
                z <= 7,
                half == 1u16 << p,
        ;
    }
}

/// Below saturation, shifting out the low bits, adding the highest of them
/// and shifting back is rounding to the nearest multiple of the bucket.
proof fn lemma_shift_rounding(v: u8, q: u8)
    requires
        valid_level(q as int),
        v + bucket(q as int) / 2 < 256,
    ensures
        (v >> q) + ((v >> ((q - 1) as u8)) & 1) <= 128,
        (((v >> q) + ((v >> ((q - 1) as u8)) & 1)) as u8) << q == ((v + bucket(q as int) / 2)
            / bucket(q as int)) * bucket(q as int),
        ((v + bucket(q as int) / 2) / bucket(q as int)) * bucket(q as int) <= 255,
{
    lemma_bucket_values(q);
    let p: u8 = (q - 1) as u8;
    let half: u16 = 1u16 << p;
    let step: u16 = 1u16 << q;
    let hi: u8 = v >> q;
    let carry: u8 = (v >> p) & 1;
    let sum: u16 = (v + half) as u16;
    assert(hi + carry <= 128 && ((hi + carry) as u8) << q == (sum / step) * step && (sum / step)
        * step <= 255) by (bit_vector)
        requires
            1 <= q <= 7,
            p == q - 1,
            half == 1u16 << p,
            step == 1u16 << q,
            sum == v as u16 + half,
            sum < 256,
            hi == v >> q,
            carry == (v >> p) & 1,
    ;
}

/// Rounding a number of at least 256 down to a multiple of a divisor of 256
/// leaves at least 256.
proof fn lemma_rounding_reaches(x: int, b: int)
    requires
        x >= 256,
        b > 0,
        256int % b == 0,
    ensures
        (x / b) * b >= 256,
{
    let m = 256int / b;
    assert(256int == b * m) by {
        vstd::arithmetic::div_mod::lemma_fundamental_div_mod(256int, b);
    }
    assert(x / b >= m) by {
        vstd::arithmetic::div_mod::lemma_div_is_ordered(256int, x, b);
    }
    assert((x / b) * b >= m * b) by (nonlinear_arith)
        requires
            x / b >= m,
            b > 0,
    ;
    assert(m * b == b * m) by (nonlinear_arith);
}

/// Quantizes one channel sample at level `q`.
pub fn quantize_channel(v: u8, q: u8) -> (out: u8)
    requires
        valid_level(q as int),
    ensures
        out as int == quantized(v as int, q as int),
{
    proof {
        lemma_leading_ones_saturate(v, q);
        lemma_bucket_values(q);
    }
    if v.leading_ones() as u8 > 8 - q {
        proof {
            lemma_rounding_reaches(v as int + bucket(q as int) / 2, bucket(q as int));
        }
        255
    } else {
        proof {
            lemma_shift_rounding(v, q);
        }
        ((v >> q) + (v >> (q - 1) & 1)) << q
    }
}

/// Rounding to the nearest: where `v` lies at most half a bucket below and
/// less than half a bucket above the multiple `k` of the bucket width, so
/// that a tie goes to the multiple above, the quantized sample is that
/// multiple, held at 255.
pub proof fn lemma_quantized_is_nearest(v: int, q: int, k: int)
    requires
        valid_level(q),
        k * bucket(q) <= v + bucket(q) / 2 < (k + 1) * bucket(q),
    ensures
        quantized(v, q) == if k * bucket(q) > 255 {
            255
        } else {
            k * bucket(q)
        },
{
    lemma_bucket_values(q as u8);
    let b = bucket(q);
    let x = v + b / 2;
    assert((k + 1) * b == k * b + b) by (nonlinear_arith);
    vstd::arithmetic::div_mod::lemma_fundamental_div_mod_converse(x, b, k, x - k * b);
}

/// Range preservation: a quantized sample is a sample again, at every valid
/// level.
pub proof fn lemma_quantized_in_range(v: int, q: int)
    requires
        0 <= v <= 255,
        valid_level(q),
    ensures
        0 <= quantized(v, q) <= 255,
{
    lemma_bucket_values(q as u8);
    let b = bucket(q);
    let x = v + b / 2;
    assert(x / b >= 0) by {
        vstd::arithmetic::div_mod::lemma_div_pos_is_pos(x, b);
    }
    assert((x / b) * b >= 0) by (nonlinear_arith)
        requires
            x / b >= 0,
            b > 0,
    ;
}

/// Quantization is a projection: a sample that was quantized at level `q`
/// is left as it is by a second quantization at that level.
pub proof fn lemma_quantized_idempotent(v: int, q: int)
    requires
        0 <= v <= 255,
        valid_level(q),
    ensures
        quantized(quantized(v, q), q) == quantized(v, q),
{
    lemma_bucket_values(q as u8);
    lemma_quantized_in_range(v, q);
    let b = bucket(q);
    let k = (v + b / 2) / b;
    if k * b > 255 {
        lemma_rounding_reaches(255 + b / 2, b);
    } else {
        assert((k + 1) * b == k * b + b) by (nonlinear_arith);
        lemma_quantized_is_nearest(k * b, q, k);
    }
}

} // verus!
