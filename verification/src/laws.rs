//! What holds of encoding and decoding together.

use crate::bits::{
    lemma_i128_pattern, lemma_i16_pattern, lemma_i32_pattern, lemma_i64_pattern,
    lemma_i8_pattern, lemma_pow2_128,
};
use crate::impl_serde::Encodable;
use crate::varint_serde::{decoded, patterns, payloads_widen, value_of};
use crate::wire::{lemma_parse_varint_all, parse, varint, varint_all};
use vstd::arithmetic::power2::{lemma2_to64, pow2};
use vstd::prelude::*;

verus! {

/// Whether `I` takes every payload, so that no buffer fails to decode.
pub open spec fn takes_every_payload<I: Encodable>() -> bool {
    forall|payload: u8| payload < 128 ==> I::widens(payload)
}

/// Each of the ten integer types takes every payload: decoding into one of
/// them never fails.
pub proof fn lemma_integers_take_every_payload()
    ensures
        takes_every_payload::<u8>(),
        takes_every_payload::<u16>(),
        takes_every_payload::<u32>(),
        takes_every_payload::<u64>(),
        takes_every_payload::<u128>(),
        takes_every_payload::<i8>(),
        takes_every_payload::<i16>(),
        takes_every_payload::<i32>(),
        takes_every_payload::<i64>(),
        takes_every_payload::<i128>(),
{
}

/// Into a type that takes every payload, every buffer decodes.
pub proof fn lemma_every_buffer_decodes<I: Encodable>(bytes: Seq<u8>)
    requires
        takes_every_payload::<I>(),
    ensures
        payloads_widen::<I>(bytes),
{
}

/// A value whose pattern is zero is encoded as the single byte zero,
/// whatever its width.
pub proof fn lemma_zero_is_one_zero_byte<I: Encodable>(value: I)
    requires
        value.bits() == 0,
    ensures
        varint(value.bits()) == seq![0u8],
{
}

/// The zero of each of the ten integer types is encoded as the single byte
/// zero.
pub proof fn lemma_integer_zeros()
    ensures
        varint(0u8.bits()) == seq![0u8],
        varint(0u16.bits()) == seq![0u8],
        varint(0u32.bits()) == seq![0u8],
        varint(0u64.bits()) == seq![0u8],
        varint(0u128.bits()) == seq![0u8],
        varint(0i8.bits()) == seq![0u8],
        varint(0i16.bits()) == seq![0u8],
        varint(0i32.bits()) == seq![0u8],
        varint(0i64.bits()) == seq![0u8],
        varint(0i128.bits()) == seq![0u8],
{
}

/// A signed value has the bit pattern of its cast to the unsigned type of
/// its width, the two's complement, and so the same encoding: below zero
/// that is the value raised by two to the width.
pub proof fn lemma_signed_is_twos_complement(a: i8, b: i16, c: i32, d: i64, e: i128)
    ensures
        a.bits() == (a as u8).bits() && (a < 0 ==> a.bits() == a + pow2(8)),
        b.bits() == (b as u16).bits() && (b < 0 ==> b.bits() == b + pow2(16)),
        c.bits() == (c as u32).bits() && (c < 0 ==> c.bits() == c + pow2(32)),
        d.bits() == (d as u64).bits() && (d < 0 ==> d.bits() == d + pow2(64)),
        e.bits() == (e as u128).bits() && (e < 0 ==> e.bits() == e + pow2(128)),
{
    lemma2_to64();
    lemma_pow2_128();
    lemma_i8_pattern(a, 0);
    lemma_i16_pattern(b, 0);
    lemma_i32_pattern(c, 0);
    lemma_i64_pattern(d, 0);
    lemma_i128_pattern(e, 0);
}

/// Round trip: the encoding of a value decodes, without error, to that
/// value alone.
pub proof fn lemma_round_trip<I: Encodable>(value: I)
    requires
        takes_every_payload::<I>(),
    ensures
        payloads_widen::<I>(varint(value.bits())),
        decoded::<I>(varint(value.bits())) == seq![value],
{
    lemma_round_trip_all(seq![value]);
    assert(patterns(seq![value]) =~= seq![value.bits()]);
    assert(seq![value.bits()].drop_first() =~= Seq::<nat>::empty());
    assert(varint_all(Seq::<nat>::empty()) =~= Seq::<u8>::empty());
    assert(varint_all(seq![value.bits()]) =~= varint(value.bits()));
}

/// Round trip over sequences: the encodings of some values, one after
/// another, decode, without error, to those values in their order.
pub proof fn lemma_round_trip_all<I: Encodable>(values: Seq<I>)
    requires
        takes_every_payload::<I>(),
    ensures
        payloads_widen::<I>(varint_all(patterns(values))),
        decoded::<I>(varint_all(patterns(values))) == values,
{
    let bytes = varint_all(patterns(values));
    lemma_parse_varint_all(patterns(values));
    assert forall|i: int| 0 <= i < values.len() implies #[trigger] decoded::<I>(bytes)[i]
        == values[i] by {
        values[i].lemma_bits();
        vstd::arithmetic::div_mod::lemma_small_mod(values[i].bits(), pow2(I::width()));
        assert(parse(bytes)[i] == values[i].bits());
        assert(decoded::<I>(bytes)[i] == value_of::<I>(values[i].bits()));
    }
    assert(decoded::<I>(bytes) =~= values);
}

} // verus!
