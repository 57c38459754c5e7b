//! The unsigned integer types: each value is its own bit pattern.

use crate::bits::{
    lemma_pow2_128, lemma_shifted_off, lemma_shifted_out, lemma_u128_bits, lemma_u16_bits,
    lemma_u32_bits, lemma_u64_bits, lemma_u8_bits,
};
use crate::impl_serde::Encodable;
use vstd::arithmetic::power2::lemma2_to64;
use vstd::layout::layout_of_primitives;
use vstd::prelude::*;

verus! {

/// An integer type without a sign: every byte widens into it.
pub trait UnsignedInt: Encodable {
    /// No byte is refused.
    proof fn lemma_widens(byte: u8)
        ensures
            Self::widens(byte),
    ;

    /// Widens a byte into the type.
    fn widen(byte: u8) -> (r: Self)
        ensures
            r.bits() == byte,
    ;
}

impl Encodable for u8 {
    open spec fn width() -> nat {
        8
    }

    open spec fn bits(self) -> nat {
        self as nat
    }

    open spec fn from_bits(n: nat) -> Self {
        n as u8
    }

    open spec fn widens(byte: u8) -> bool {
        true
    }

    proof fn lemma_width() {
        broadcast use layout_of_primitives;

    }

    proof fn lemma_bits(self) {
        lemma2_to64();
    }

    proof fn lemma_from_bits(n: nat) {
        lemma2_to64();
    }

    fn zero() -> (z: Self) {
        0
    }

    fn from_byte(byte: u8) -> (r: Option<Self>) {
        Some(byte)
    }

    fn low_byte(self) -> (byte: u8) {
        self
    }

    fn is_zero(self) -> (b: bool) {
        self == 0
    }

    fn shift_left(self, count: usize) -> (r: Self) {
        if count >= 8 {
            proof {
                lemma_shifted_out(self as nat, count as nat, 8);
            }
            0
        } else {
            proof {
                lemma_u8_bits(self, count as u8);
            }
            self << count
        }
    }

    fn shift_right(self, count: usize) -> (r: Self) {
        if count >= 8 {
            proof {
                lemma2_to64();
                lemma_shifted_off(self as nat, count as nat, 8);
            }
            0
        } else {
            proof {
                lemma_u8_bits(self, count as u8);
            }
            self >> count
        }
    }

    fn and(self, other: Self) -> (r: Self) {
        self & other
    }

    fn or(self, other: Self) -> (r: Self) {
        self | other
    }
}

impl UnsignedInt for u8 {
    proof fn lemma_widens(byte: u8) {
    }

    fn widen(byte: u8) -> (r: Self) {
        byte
    }
}

impl Encodable for u16 {
    open spec fn width() -> nat {
        16
    }

    open spec fn bits(self) -> nat {
        self as nat
    }

    open spec fn from_bits(n: nat) -> Self {
        n as u16
    }

    open spec fn widens(byte: u8) -> bool {
        true
    }

    proof fn lemma_width() {
        broadcast use layout_of_primitives;

    }

    proof fn lemma_bits(self) {
        lemma2_to64();
    }

    proof fn lemma_from_bits(n: nat) {
        lemma2_to64();
    }

    fn zero() -> (z: Self) {
        0
    }

    fn from_byte(byte: u8) -> (r: Option<Self>) {
        Some(byte as u16)
    }

    fn low_byte(self) -> (byte: u8) {
        proof {
            lemma_u16_bits(self, 0);
        }
        #[verifier::truncate]
        (self as u8)
    }

    fn is_zero(self) -> (b: bool) {
        self == 0
    }

    fn shift_left(self, count: usize) -> (r: Self) {
        if count >= 16 {
            proof {
                lemma_shifted_out(self as nat, count as nat, 16);
            }
            0
        } else {
            proof {
                lemma_u16_bits(self, count as u16);
            }
            self << count
        }
    }

    fn shift_right(self, count: usize) -> (r: Self) {
        if count >= 16 {
            proof {
                lemma2_to64();
                lemma_shifted_off(self as nat, count as nat, 16);
            }
            0
        } else {
            proof {
                lemma_u16_bits(self, count as u16);
            }
            self >> count
        }
    }

    fn and(self, other: Self) -> (r: Self) {
        self & other
    }

    fn or(self, other: Self) -> (r: Self) {
        self | other
    }
}

impl UnsignedInt for u16 {
    proof fn lemma_widens(byte: u8) {
    }

    fn widen(byte: u8) -> (r: Self) {
        byte as u16
    }
}

impl Encodable for u32 {
    open spec fn width() -> nat {
        32
    }

    open spec fn bits(self) -> nat {
        self as nat
    }

    open spec fn from_bits(n: nat) -> Self {
        n as u32
    }

    open spec fn widens(byte: u8) -> bool {
        true
    }

    proof fn lemma_width() {
        broadcast use layout_of_primitives;

    }

    proof fn lemma_bits(self) {
        lemma2_to64();
    }

    proof fn lemma_from_bits(n: nat) {
        lemma2_to64();
    }

    fn zero() -> (z: Self) {
        0
    }

    fn from_byte(byte: u8) -> (r: Option<Self>) {
        Some(byte as u32)
    }

    fn low_byte(self) -> (byte: u8) {
        proof {
            lemma_u32_bits(self, 0);
        }
        #[verifier::truncate]
        (self as u8)
    }

    fn is_zero(self) -> (b: bool) {
        self == 0
    }

    fn shift_left(self, count: usize) -> (r: Self) {
        if count >= 32 {
            proof {
                lemma_shifted_out(self as nat, count as nat, 32);
            }
            0
        } else {
            proof {
                lemma_u32_bits(self, count as u32);
            }
            self << count
        }
    }

    fn shift_right(self, count: usize) -> (r: Self) {
        if count >= 32 {
            proof {
                lemma2_to64();
                lemma_shifted_off(self as nat, count as nat, 32);
            }
            0
        } else {
            proof {
                lemma_u32_bits(self, count as u32);
            }
            self >> count
        }
    }

    fn and(self, other: Self) -> (r: Self) {
        self & other
    }

    fn or(self, other: Self) -> (r: Self) {
        self | other
    }
}

impl UnsignedInt for u32 {
    proof fn lemma_widens(byte: u8) {
    }

    fn widen(byte: u8) -> (r: Self) {
        byte as u32
    }
}

impl Encodable for u64 {
    open spec fn width() -> nat {
        64
    }

    open spec fn bits(self) -> nat {
        self as nat
    }

    open spec fn from_bits(n: nat) -> Self {
        n as u64
    }

    open spec fn widens(byte: u8) -> bool {
        true
    }

    proof fn lemma_width() {
        broadcast use layout_of_primitives;

    }

    proof fn lemma_bits(self) {
        lemma2_to64();
    }

    proof fn lemma_from_bits(n: nat) {
        lemma2_to64();
    }

    fn zero() -> (z: Self) {
        0
    }

    fn from_byte(byte: u8) -> (r: Option<Self>) {
        Some(byte as u64)
    }

    fn low_byte(self) -> (byte: u8) {
        proof {
            lemma_u64_bits(self, 0);
        }
        #[verifier::truncate]
        (self as u8)
    }

    fn is_zero(self) -> (b: bool) {
        self == 0
    }

    fn shift_left(self, count: usize) -> (r: Self) {
        if count >= 64 {
            proof {
                lemma_shifted_out(self as nat, count as nat, 64);
            }
            0
        } else {
            proof {
                lemma_u64_bits(self, count as u64);
            }
            self << count
        }
    }

    fn shift_right(self, count: usize) -> (r: Self) {
        if count >= 64 {
            proof {
                lemma2_to64();
                lemma_shifted_off(self as nat, count as nat, 64);
            }
            0
        } else {
            proof {
                lemma_u64_bits(self, count as u64);
            }
            self >> count
        }
    }

    fn and(self, other: Self) -> (r: Self) {
        self & other
    }

    fn or(self, other: Self) -> (r: Self) {
        self | other
    }
}

impl UnsignedInt for u64 {
    proof fn lemma_widens(byte: u8) {
    }

    fn widen(byte: u8) -> (r: Self) {
        byte as u64
    }
}

impl Encodable for u128 {
    open spec fn width() -> nat {
        128
    }

    open spec fn bits(self) -> nat {
        self as nat
    }

    open spec fn from_bits(n: nat) -> Self {
        n as u128
    }

    open spec fn widens(byte: u8) -> bool {
        true
    }

    proof fn lemma_width() {
        broadcast use layout_of_primitives;

    }

    proof fn lemma_bits(self) {
        lemma_pow2_128();
    }

    proof fn lemma_from_bits(n: nat) {
        lemma_pow2_128();
    }

    fn zero() -> (z: Self) {
        0
    }

    fn from_byte(byte: u8) -> (r: Option<Self>) {
        Some(byte as u128)
    }

    fn low_byte(self) -> (byte: u8) {
        proof {
            lemma_u128_bits(self, 0);
        }
        #[verifier::truncate]
        (self as u8)
    }

    fn is_zero(self) -> (b: bool) {
        self == 0
    }

    fn shift_left(self, count: usize) -> (r: Self) {
        if count >= 128 {
            proof {
                lemma_shifted_out(self as nat, count as nat, 128);
            }
            0
        } else {
            proof {
                lemma_u128_bits(self, count as u128);
            }
            self << count
        }
    }

    fn shift_right(self, count: usize) -> (r: Self) {
        if count >= 128 {
            proof {
                lemma_pow2_128();
                lemma_shifted_off(self as nat, count as nat, 128);
            }
            0
        } else {
            proof {
                lemma_u128_bits(self, count as u128);
            }
            self >> count
        }
    }

    fn and(self, other: Self) -> (r: Self) {
        self & other
    }

    fn or(self, other: Self) -> (r: Self) {
        self | other
    }
}

impl UnsignedInt for u128 {
    proof fn lemma_widens(byte: u8) {
    }

    fn widen(byte: u8) -> (r: Self) {
        byte as u128
    }
}

} // verus!
