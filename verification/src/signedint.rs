//! The signed integer types: each stands for its two's complement, and
//! works through the unsigned type of its width.

use crate::bits::{
    lemma_i128_pattern, lemma_i16_pattern, lemma_i32_pattern, lemma_i64_pattern,
    lemma_i8_pattern, lemma_pow2_128,
};
use crate::impl_serde::Encodable;
use vstd::arithmetic::power2::lemma2_to64;
use vstd::layout::layout_of_primitives;
use vstd::prelude::*;

verus! {

impl Encodable for i8 {
    open spec fn width() -> nat {
        8
    }

    open spec fn bits(self) -> nat {
        if self >= 0 {
            self as nat
        } else {
            (self + 0x100) as nat
        }
    }

    open spec fn from_bits(n: nat) -> Self {
        if n < 0x80 {
            n as i8
        } else {
            (n - 0x100) as i8
        }
    }

    open spec fn widens(byte: u8) -> bool {
        byte < 128
    }

    proof fn lemma_width() {
        broadcast use layout_of_primitives;

    }

    proof fn lemma_bits(self) {
        lemma2_to64();
    }

    proof fn lemma_from_bits(n: nat) {
        lemma2_to64();
    }

    fn zero() -> (z: Self) {
        0
    }

    fn from_byte(byte: u8) -> (r: Option<Self>) {
        if byte < 128 {
            Some(byte as i8)
        } else {
            None
        }
    }

    fn low_byte(self) -> (byte: u8) {
        proof {
            lemma_i8_pattern(self, 0);
        }
        (self as u8).low_byte()
    }

    fn is_zero(self) -> (b: bool) {
        self == 0
    }

    fn shift_left(self, count: usize) -> (r: Self) {
        let r = (self as u8).shift_left(count);
        proof {
            lemma_i8_pattern(self, r);
        }
        r as i8
    }

    fn shift_right(self, count: usize) -> (r: Self) {
        let r = (self as u8).shift_right(count);
        proof {
            lemma_i8_pattern(self, r);
        }
        r as i8
    }

    fn and(self, other: Self) -> (r: Self) {
        let r = (self as u8).and(other as u8);
        proof {
            lemma_i8_pattern(self, r);
            lemma_i8_pattern(other, r);
        }
        r as i8
    }

    fn or(self, other: Self) -> (r: Self) {
        let r = (self as u8).or(other as u8);
        proof {
            lemma_i8_pattern(self, r);
            lemma_i8_pattern(other, r);
        }
        r as i8
    }
}

impl Encodable for i16 {
    open spec fn width() -> nat {
        16
    }

    open spec fn bits(self) -> nat {
        if self >= 0 {
            self as nat
        } else {
            (self + 0x1_0000) as nat
        }
    }

    open spec fn from_bits(n: nat) -> Self {
        if n < 0x8000 {
            n as i16
        } else {
            (n - 0x1_0000) as i16
        }
    }

    open spec fn widens(byte: u8) -> bool {
        true
    }

    proof fn lemma_width() {
        broadcast use layout_of_primitives;

    }

    proof fn lemma_bits(self) {
        lemma2_to64();
    }

    proof fn lemma_from_bits(n: nat) {
        lemma2_to64();
    }

    fn zero() -> (z: Self) {
        0
    }

    fn from_byte(byte: u8) -> (r: Option<Self>) {
        Some(byte as i16)
    }

    fn low_byte(self) -> (byte: u8) {
        proof {
            lemma_i16_pattern(self, 0);
        }
        (self as u16).low_byte()
    }

    fn is_zero(self) -> (b: bool) {
        self == 0
    }

    fn shift_left(self, count: usize) -> (r: Self) {
        let r = (self as u16).shift_left(count);
        proof {
            lemma_i16_pattern(self, r);
        }
        r as i16
    }

    fn shift_right(self, count: usize) -> (r: Self) {
        let r = (self as u16).shift_right(count);
        proof {
            lemma_i16_pattern(self, r);
        }
        r as i16
    }

    fn and(self, other: Self) -> (r: Self) {
        let r = (self as u16).and(other as u16);
        proof {
            lemma_i16_pattern(self, r);
            lemma_i16_pattern(other, r);
        }
        r as i16
    }

    fn or(self, other: Self) -> (r: Self) {
        let r = (self as u16).or(other as u16);
        proof {
            lemma_i16_pattern(self, r);
            lemma_i16_pattern(other, r);
        }
        r as i16
    }
}

impl Encodable for i32 {
    open spec fn width() -> nat {
        32
    }

    open spec fn bits(self) -> nat {
        if self >= 0 {
            self as nat
        } else {
            (self + 0x1_0000_0000) as nat
        }
    }

    open spec fn from_bits(n: nat) -> Self {
        if n < 0x8000_0000 {
            n as i32
        } else {
            (n - 0x1_0000_0000) as i32
        }
    }

    open spec fn widens(byte: u8) -> bool {
        true
    }

    proof fn lemma_width() {
        broadcast use layout_of_primitives;

    }

    proof fn lemma_bits(self) {
        lemma2_to64();
    }

    proof fn lemma_from_bits(n: nat) {
        lemma2_to64();
    }

    fn zero() -> (z: Self) {
        0
    }

    fn from_byte(byte: u8) -> (r: Option<Self>) {
        Some(byte as i32)
    }

    fn low_byte(self) -> (byte: u8) {
        proof {
            lemma_i32_pattern(self, 0);
        }
        (self as u32).low_byte()
    }

    fn is_zero(self) -> (b: bool) {
        self == 0
    }

    fn shift_left(self, count: usize) -> (r: Self) {
        let r = (self as u32).shift_left(count);
        proof {
            lemma_i32_pattern(self, r);
        }
        r as i32
    }

    fn shift_right(self, count: usize) -> (r: Self) {
        let r = (self as u32).shift_right(count);
        proof {
            lemma_i32_pattern(self, r);
        }
        r as i32
    }

    fn and(self, other: Self) -> (r: Self) {
        let r = (self as u32).and(other as u32);
        proof {
            lemma_i32_pattern(self, r);
            lemma_i32_pattern(other, r);
        }
        r as i32
    }

    fn or(self, other: Self) -> (r: Self) {
        let r = (self as u32).or(other as u32);
        proof {
            lemma_i32_pattern(self, r);
            lemma_i32_pattern(other, r);
        }
        r as i32
    }
}

impl Encodable for i64 {
    open spec fn width() -> nat {
        64
    }

    open spec fn bits(self) -> nat {
        if self >= 0 {
            self as nat
        } else {
            (self + 0x1_0000_0000_0000_0000) as nat
        }
    }

    open spec fn from_bits(n: nat) -> Self {
        if n < 0x8000_0000_0000_0000 {
            n as i64
        } else {
            (n - 0x1_0000_0000_0000_0000) as i64
        }
    }

    open spec fn widens(byte: u8) -> bool {
        true
    }

    proof fn lemma_width() {
        broadcast use layout_of_primitives;

    }

    proof fn lemma_bits(self) {
        lemma2_to64();
    }

    proof fn lemma_from_bits(n: nat) {
        lemma2_to64();
    }

    fn zero() -> (z: Self) {
        0
    }

    fn from_byte(byte: u8) -> (r: Option<Self>) {
        Some(byte as i64)
    }

    fn low_byte(self) -> (byte: u8) {
        proof {
            lemma_i64_pattern(self, 0);
        }
        (self as u64).low_byte()
    }

    fn is_zero(self) -> (b: bool) {
        self == 0
    }

    fn shift_left(self, count: usize) -> (r: Self) {
        let r = (self as u64).shift_left(count);
        proof {
            lemma_i64_pattern(self, r);
        }
        r as i64
    }

    fn shift_right(self, count: usize) -> (r: Self) {
        let r = (self as u64).shift_right(count);
        proof {
            lemma_i64_pattern(self, r);
        }
        r as i64
    }

    fn and(self, other: Self) -> (r: Self) {
        let r = (self as u64).and(other as u64);
        proof {
            lemma_i64_pattern(self, r);
            lemma_i64_pattern(other, r);
        }
        r as i64
    }

    fn or(self, other: Self) -> (r: Self) {
        let r = (self as u64).or(other as u64);
        proof {
            lemma_i64_pattern(self, r);
            lemma_i64_pattern(other, r);
        }
        r as i64
    }
}

impl Encodable for i128 {
    open spec fn width() -> nat {
        128
    }

    open spec fn bits(self) -> nat {
        if self >= 0 {
            self as nat
        } else {
            (self + 0x1_0000_0000_0000_0000_0000_0000_0000_0000) as nat
        }
    }

    open spec fn from_bits(n: nat) -> Self {
        if n < 0x8000_0000_0000_0000_0000_0000_0000_0000 {
            n as i128
        } else {
            (n - 0x1_0000_0000_0000_0000_0000_0000_0000_0000) as i128
        }
    }

    open spec fn widens(byte: u8) -> bool {
        true
    }

    proof fn lemma_width() {
        broadcast use layout_of_primitives;

    }

    proof fn lemma_bits(self) {
        lemma_pow2_128();
    }

    proof fn lemma_from_bits(n: nat) {
        lemma_pow2_128();
    }

    fn zero() -> (z: Self) {
        0
    }

    fn from_byte(byte: u8) -> (r: Option<Self>) {
        Some(byte as i128)
    }

    fn low_byte(self) -> (byte: u8) {
        proof {
            lemma_i128_pattern(self, 0);
        }
        (self as u128).low_byte()
    }

    fn is_zero(self) -> (b: bool) {
        self == 0
    }

    fn shift_left(self, count: usize) -> (r: Self) {
        let r = (self as u128).shift_left(count);
        proof {
            lemma_i128_pattern(self, r);
        }
        r as i128
    }

    fn shift_right(self, count: usize) -> (r: Self) {
        let r = (self as u128).shift_right(count);
        proof {
            lemma_i128_pattern(self, r);
        }
        r as i128
    }

    fn and(self, other: Self) -> (r: Self) {
        let r = (self as u128).and(other as u128);
        proof {
            lemma_i128_pattern(self, r);
            lemma_i128_pattern(other, r);
        }
        r as i128
    }

    fn or(self, other: Self) -> (r: Self) {
        let r = (self as u128).or(other as u128);
        proof {
            lemma_i128_pattern(self, r);
            lemma_i128_pattern(other, r);
        }
        r as i128
    }
}

} // verus!
