//! Bit patterns as natural numbers: what the bitwise operations of the
//! codec mean for the numbers that the patterns stand for.

use vstd::arithmetic::power2::{lemma2_to64, lemma_pow2_adds, pow2};
use vstd::prelude::*;

verus! {

/// The bitwise OR of two patterns of at most 128 bits.
pub open spec fn bit_or(a: nat, b: nat) -> nat {
    (a as u128 | b as u128) as nat
}

/// The bitwise AND of two patterns of at most 128 bits.
pub open spec fn bit_and(a: nat, b: nat) -> nat {
    (a as u128 & b as u128) as nat
}

/// `2^128`, one more than the largest pattern.
pub proof fn lemma_pow2_128()
    ensures
        pow2(128) == 0x1_0000_0000_0000_0000_0000_0000_0000_0000nat,
{
    lemma2_to64();
    lemma_pow2_adds(64, 64);
}

/// A pattern below `2^width` shifted right by `width` bits or more is zero.
pub proof fn lemma_shifted_off(n: nat, count: nat, width: nat)
    requires
        n < pow2(width),
        count >= width,
    ensures
        n / pow2(count) == 0,
{
    if count > width {
        vstd::arithmetic::power2::lemma_pow2_strictly_increases(width, count);
    }
    vstd::arithmetic::div_mod::lemma_basic_div(n as int, pow2(count) as int);
}

/// A pattern shifted left by `width` bits or more leaves nothing within
/// the width.
pub proof fn lemma_shifted_out(n: nat, count: nat, width: nat)
    requires
        count >= width,
    ensures
        (n * pow2(count)) % pow2(width) == 0,
{
    let rest = (count - width) as nat;
    lemma_pow2_adds(rest, width);
    vstd::arithmetic::power2::lemma_pow2_pos(width);
    assert(n * pow2(count) == (n * pow2(rest)) * pow2(width)) by (nonlinear_arith)
        requires
            pow2(count) == pow2(rest) * pow2(width),
    ;
    vstd::arithmetic::div_mod::lemma_mod_multiples_basic(
        (n * pow2(rest)) as int,
        pow2(width) as int,
    );
}

/// On 128 bits, a shift to the left multiplies by a power of two and
/// keeps what fits.
pub proof fn lemma_shl_u128(x: u128, count: u128)
    requires
        count < 128,
    ensures
        (x << count) as nat == (x as nat * pow2(count as nat)) % pow2(128),
    decreases count,
{
    let m = pow2(128);
    lemma_pow2_128();
    lemma2_to64();
    if count == 0 {
        assert(x << 0u128 == x) by (bit_vector);
        assert(x as nat * 1 == x as nat);
    } else {
        let less = (count - 1) as u128;
        let y = x << less;
        let p = pow2(less as nat);
        lemma_shl_u128(x, less);
        assert(x << count == (x << less) << 1u128) by (bit_vector)
            requires
                less + 1 == count,
                count < 128,
        ;
        assert((y << 1u128) as int == (y * 2) % 0x1_0000_0000_0000_0000_0000_0000_0000_0000int)
            by (bit_vector);
        assert(pow2(count as nat) == p * 2) by {
            lemma_pow2_adds(less as nat, 1);
        }
        assert((x as nat * p) * 2 == x as nat * (p * 2)) by (nonlinear_arith);
        vstd::arithmetic::div_mod::lemma_mul_mod_noop_left(
            (x as nat * p) as int,
            2,
            m as int,
        );
    }
}

/// Within a narrower width, a shift to the left by less than the width
/// multiplies by a power of two and keeps what fits the width.
pub proof fn lemma_shl_within(x: u128, count: u128, width: nat)
    requires
        count < 128,
        width <= 128,
    ensures
        ((x << count) as nat) % pow2(width) == (x as nat * pow2(count as nat)) % pow2(width),
{
    let rest = (128 - width) as nat;
    lemma_shl_u128(x, count);
    lemma_pow2_adds(width, rest);
    vstd::arithmetic::power2::lemma_pow2_pos(width);
    vstd::arithmetic::power2::lemma_pow2_pos(rest);
    vstd::arithmetic::div_mod::lemma_mod_mod(
        (x as nat * pow2(count as nat)) as int,
        pow2(width) as int,
        pow2(rest) as int,
    );
}

/// Two patterns that share no bit position add up under OR: one lies
/// below bit `split`, the other is a multiple of `2^split`.
pub proof fn lemma_or_disjoint(low: nat, high: nat, split: nat)
    requires
        split < 128,
        low < pow2(split),
        high < pow2(128),
        high % pow2(split) == 0,
    ensures
        bit_or(low, high) == low + high,
{
    let p = pow2(split);
    let x = low as u128;
    let y = high as u128;
    let s = split as u128;
    lemma_pow2_128();
    vstd::arithmetic::power2::lemma_pow2_pos(split);
    vstd::arithmetic::power2::lemma_pow2_strictly_increases(split, 128);
    vstd::bits::lemma_u128_shr_is_div(x, s);
    vstd::bits::lemma_u128_shr_is_div(y, s);
    assert(x >> s == 0) by {
        vstd::arithmetic::div_mod::lemma_basic_div(low as int, p as int);
    }
    let q = y >> s;
    assert((q << s) == y) by {
        lemma_shl_u128(q, s);
        vstd::arithmetic::div_mod::lemma_fundamental_div_mod(high as int, p as int);
        assert(q as nat * p == high) by (nonlinear_arith)
            requires
                high == p * (high / p) + high % p,
                high % p == 0,
                q as nat == high / p,
        ;
    }
    assert(x | y == x + y) by (bit_vector)
        requires
            s < 128,
            x >> s == 0,
            ((y >> s) << s) == y,
    ;
}

/// One step of decoding. The accumulator holds, within the width, the
/// number `so_far` of the digits read, which lies below `2^shift`; a digit
/// shifted left by `shift` bits and joined by OR adds the digit's weight.
pub proof fn lemma_accumulate(so_far: nat, digit: nat, shift: nat, width: nat)
    requires
        so_far < pow2(shift),
        width <= 128,
    ensures
        bit_or(so_far % pow2(width), (digit * pow2(shift)) % pow2(width)) == (so_far + digit
            * pow2(shift)) % pow2(width),
{
    let m = pow2(width);
    let p = pow2(shift);
    let x = digit * p;
    let t = x % m;
    lemma_pow2_128();
    vstd::arithmetic::power2::lemma_pow2_pos(width);
    vstd::arithmetic::power2::lemma_pow2_pos(shift);
    if width < 128 {
        vstd::arithmetic::power2::lemma_pow2_strictly_increases(width, 128);
    }
    vstd::arithmetic::div_mod::lemma_add_mod_noop_right(so_far as int, x as int, m as int);
    if shift >= width {
        lemma_shifted_out(digit, shift, width);
        let a = (so_far % m) as u128;
        assert(a | 0u128 == a) by (bit_vector);
    } else {
        let rest = (width - shift) as nat;
        let r = pow2(rest);
        lemma_pow2_adds(shift, rest);
        vstd::arithmetic::power2::lemma_pow2_pos(rest);
        vstd::arithmetic::power2::lemma_pow2_strictly_increases(shift, width);
        vstd::arithmetic::div_mod::lemma_small_mod(so_far, m);
        assert(t % p == 0) by {
            vstd::arithmetic::div_mod::lemma_mod_mod(x as int, p as int, r as int);
            vstd::arithmetic::div_mod::lemma_mod_multiples_basic(digit as int, p as int);
        }
        lemma_or_disjoint(so_far, t, shift);
        assert(so_far + t < m) by {
            vstd::arithmetic::div_mod::lemma_fundamental_div_mod(t as int, p as int);
            let q = t / p;
            assert(q < r) by (nonlinear_arith)
                requires
                    t == p * q,
                    t < p * r,
                    p > 0,
            ;
            assert(p * q + p <= p * r) by (nonlinear_arith)
                requires
                    q < r,
                    p > 0,
            ;
        }
        vstd::arithmetic::div_mod::lemma_small_mod(so_far + t, m);
    }
}

/// What the shifts do to a pattern of 8 bits.
pub proof fn lemma_u8_bits(x: u8, count: u8)
    requires
        count < 8,
    ensures
        (x << count) as nat == (x as nat * pow2(count as nat)) % pow2(8),
        (x >> count) as nat == x as nat / pow2(count as nat),
{
    lemma2_to64();
    assert((x << count) as u128 == ((x as u128) << (count as u128)) % 0x100) by (bit_vector)
        requires
            count < 8,
    ;
    lemma_shl_within(x as u128, count as u128, 8);
    vstd::bits::lemma_u8_shr_is_div(x, count);
}

/// What the shifts and the cast to a byte do to a pattern of 16 bits.
pub proof fn lemma_u16_bits(x: u16, count: u16)
    requires
        count < 16,
    ensures
        (x << count) as nat == (x as nat * pow2(count as nat)) % pow2(16),
        (x >> count) as nat == x as nat / pow2(count as nat),
        (x as u8) as nat == x as nat % 256,
{
    lemma2_to64();
    assert((x << count) as u128 == ((x as u128) << (count as u128)) % 0x1_0000)
        by (bit_vector)
        requires
            count < 16,
    ;
    assert((x as u8) == x % 256) by (bit_vector);
    lemma_shl_within(x as u128, count as u128, 16);
    vstd::bits::lemma_u16_shr_is_div(x, count);
}

/// What the shifts and the cast to a byte do to a pattern of 32 bits.
pub proof fn lemma_u32_bits(x: u32, count: u32)
    requires
        count < 32,
    ensures
        (x << count) as nat == (x as nat * pow2(count as nat)) % pow2(32),
        (x >> count) as nat == x as nat / pow2(count as nat),
        (x as u8) as nat == x as nat % 256,
{
    lemma2_to64();
    assert((x << count) as u128 == ((x as u128) << (count as u128)) % 0x1_0000_0000)
        by (bit_vector)
        requires
            count < 32,
    ;
    assert((x as u8) == x % 256) by (bit_vector);
    lemma_shl_within(x as u128, count as u128, 32);
    vstd::bits::lemma_u32_shr_is_div(x, count);
}

/// What the shifts and the cast to a byte do to a pattern of 64 bits.
pub proof fn lemma_u64_bits(x: u64, count: u64)
    requires
        count < 64,
    ensures
        (x << count) as nat == (x as nat * pow2(count as nat)) % pow2(64),
        (x >> count) as nat == x as nat / pow2(count as nat),
        (x as u8) as nat == x as nat % 256,
{
    lemma2_to64();
    assert((x << count) as u128 == ((x as u128) << (count as u128)) % 0x1_0000_0000_0000_0000)
        by (bit_vector)
        requires
            count < 64,
    ;
    assert((x as u8) == x % 256) by (bit_vector);
    lemma_shl_within(x as u128, count as u128, 64);
    vstd::bits::lemma_u64_shr_is_div(x, count);
}

/// What the shifts and the cast to a byte do to a pattern of 128 bits.
pub proof fn lemma_u128_bits(x: u128, count: u128)
    requires
        count < 128,
    ensures
        (x << count) as nat == (x as nat * pow2(count as nat)) % pow2(128),
        (x >> count) as nat == x as nat / pow2(count as nat),
        (x as u8) as nat == x as nat % 256,
{
    assert((x as u8) == x % 256) by (bit_vector);
    lemma_shl_u128(x, count);
    vstd::bits::lemma_u128_shr_is_div(x, count);
}

/// The two's complement of 8 bits: what the casts between `i8` and
/// `u8` do to the number.
pub proof fn lemma_i8_pattern(v: i8, u: u8)
    by (bit_vector)
    ensures
        (v as u8) as int == (if v >= 0 {
            v as int
        } else {
            v + 0x100
        }),
        (u as i8) as int == (if u < 0x80 {
            u as int
        } else {
            u - 0x100
        }),
{
}

/// The two's complement of 16 bits: what the casts between `i16` and
/// `u16` do to the number.
pub proof fn lemma_i16_pattern(v: i16, u: u16)
    by (bit_vector)
    ensures
        (v as u16) as int == (if v >= 0 {
            v as int
        } else {
            v + 0x1_0000
        }),
        (u as i16) as int == (if u < 0x8000 {
            u as int
        } else {
            u - 0x1_0000
        }),
{
}

/// The two's complement of 32 bits: what the casts between `i32` and
/// `u32` do to the number.
pub proof fn lemma_i32_pattern(v: i32, u: u32)
    by (bit_vector)
    ensures
        (v as u32) as int == (if v >= 0 {
            v as int
        } else {
            v + 0x1_0000_0000
        }),
        (u as i32) as int == (if u < 0x8000_0000 {
            u as int
        } else {
            u - 0x1_0000_0000
        }),
{
}

/// The two's complement of 64 bits: what the casts between `i64` and
/// `u64` do to the number.
pub proof fn lemma_i64_pattern(v: i64, u: u64)
    by (bit_vector)
    ensures
        (v as u64) as int == (if v >= 0 {
            v as int
        } else {
            v + 0x1_0000_0000_0000_0000
        }),
        (u as i64) as int == (if u < 0x8000_0000_0000_0000 {
            u as int
        } else {
            u - 0x1_0000_0000_0000_0000
        }),
{
}

/// The two's complement of 128 bits: what the casts between `i128` and
/// `u128` do to the number.
pub proof fn lemma_i128_pattern(v: i128, u: u128)
    by (bit_vector)
    ensures
        (v as u128) as int == (if v >= 0 {
            v as int
        } else {
            v + 0x1_0000_0000_0000_0000_0000_0000_0000_0000int
        }),
        (u as i128) as int == (if u < 0x8000_0000_0000_0000_0000_0000_0000_0000 {
            u as int
        } else {
            u - 0x1_0000_0000_0000_0000_0000_0000_0000_0000int
        }),
{
}

} // verus!
