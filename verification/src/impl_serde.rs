//! What the codec needs of an integer type, and the codec itself, written
//! once for every such type.

use crate::bits::{bit_and, bit_or, lemma_accumulate, lemma_shifted_out};
use crate::varint_serde::{
    decoded, lemma_decoded_unfold, payloads_widen, SerdeError, VarIntDecode, VarIntEncode,
    CONTINUATION_MASK, ENCODED_CHUNK_SIZE, VALUE_MASK,
};
use crate::wire::{
    group_len, group_value, lemma_group_len_found, lemma_group_value_push, parse, varint,
};
use vstd::arithmetic::power2::pow2;
use vstd::layout::size_of;
use vstd::prelude::*;

verus! {

/// What the codec needs of an integer type: a zero, the shifts, the bitwise
/// AND and OR, and the conversions from and to a byte.
///
/// A value stands for its bit pattern, read as an unsigned number of
/// `width()` bits: `bits`. For a signed type that is the two's complement
/// of the value. All contracts speak of that number.
pub trait Encodable: Sized + Copy {
    /// The number of bits of the type.
    spec fn width() -> nat;

    /// The value's bit pattern, read as an unsigned number.
    spec fn bits(self) -> nat;

    /// The value whose bit pattern is `n`.
    spec fn from_bits(n: nat) -> Self;

    /// Whether `byte` can be widened into the type.
    spec fn widens(byte: u8) -> bool;

    /// The width is that of the type in memory, between 8 and 128 bits.
    proof fn lemma_width()
        ensures
            Self::width() == 8 * size_of::<Self>(),
            8 <= Self::width() <= 128,
    ;

    /// A pattern fits the width, and names its value.
    proof fn lemma_bits(self)
        ensures
            self.bits() < pow2(Self::width()),
            Self::from_bits(self.bits()) == self,
    ;

    /// Every pattern that fits the width is that of a value.
    proof fn lemma_from_bits(n: nat)
        requires
            n < pow2(Self::width()),
        ensures
            Self::from_bits(n).bits() == n,
    ;

    /// The value with no bit set.
    fn zero() -> (z: Self)
        ensures
            z.bits() == 0,
    ;

    /// Widens a byte into the type, where the type can hold it.
    fn from_byte(byte: u8) -> (r: Option<Self>)
        ensures
            r is Some <==> Self::widens(byte),
            r is Some ==> r->0.bits() == byte,
    ;

    /// The low eight bits of the pattern.
    fn low_byte(self) -> (byte: u8)
        ensures
            byte == self.bits() % 256,
    ;

    /// Whether no bit is set.
    fn is_zero(self) -> (b: bool)
        ensures
            b == (self.bits() == 0),
    ;

    /// Shifts the pattern left by `count` bits. Bits that leave the width
    /// are lost.
    fn shift_left(self, count: usize) -> (r: Self)
        ensures
            r.bits() == (self.bits() * pow2(count as nat)) % pow2(Self::width()),
    ;

    /// Shifts the pattern right by `count` bits.
    fn shift_right(self, count: usize) -> (r: Self)
        ensures
            r.bits() == self.bits() / pow2(count as nat),
    ;

    /// The bitwise AND of two patterns.
    fn and(self, other: Self) -> (r: Self)
        ensures
            r.bits() == bit_and(self.bits(), other.bits()),
    ;

    /// The bitwise OR of two patterns.
    fn or(self, other: Self) -> (r: Self)
        ensures
            r.bits() == bit_or(self.bits(), other.bits()),
    ;
}

impl<I: Encodable> VarIntEncode for I {
    fn encode(&self) -> (out: Vec<u8>) {
        let mut output: Vec<u8> = Vec::with_capacity(Self::get_endcoded_byte_size());
        let mut shifted: I = *self;
        if shifted.is_zero() {
            output.push(shifted.low_byte());
        }
        while !shifted.is_zero()
            invariant
                shifted.bits() != 0 ==> varint(self.bits()) == output@ + varint(shifted.bits()),
                shifted.bits() == 0 ==> varint(self.bits()) == output@,
            decreases shifted.bits(),
        {
            let rest = shifted.shift_right(ENCODED_CHUNK_SIZE);
            let low = shifted.low_byte();
            let val = if !rest.is_zero() {
                low | CONTINUATION_MASK
            } else {
                low
            };
            proof {
                let n = shifted.bits();
                vstd::arithmetic::power2::lemma2_to64();
                assert(low | 0x80 == low % 128 + 128) by (bit_vector);
                if n < 128 {
                    assert(varint(n) =~= seq![val]);
                } else {
                    assert(varint(n) =~= seq![val] + varint(rest.bits()));
                }
            }
            output.push(val);
            shifted = rest;
        }
        output
    }

    fn get_endcoded_byte_size() -> (n: usize) {
        proof {
            I::lemma_width();
        }
        ((core::mem::size_of::<I>() * 8) / ENCODED_CHUNK_SIZE) + 1
    }
}

impl<I: Encodable> VarIntDecode<I> for &[u8] {
    open spec fn wire(&self) -> Seq<u8> {
        self@
    }

    fn decode(&self) -> (r: Result<Vec<I>, SerdeError>) {
        let bytes: &[u8] = *self;
        let len = bytes.len();
        let mut output: Vec<I> = Vec::with_capacity(
            <Self as VarIntDecode<I>>::get_decoded_size(len),
        );
        let mut ptr: usize = 0;
        let mut accum: I = I::zero();
        proof {
            assert(bytes@.skip(0) =~= bytes@);
            assert(output@ + decoded::<I>(bytes@) =~= decoded::<I>(bytes@));
        }
        loop
            invariant
                bytes@ == (*self)@,
                len == bytes@.len(),
                ptr <= len,
                accum.bits() == 0,
                forall|i: int| 0 <= i < ptr ==> I::widens(#[trigger] bytes@[i] % 128),
                decoded::<I>(bytes@) == output@ + decoded::<I>(bytes@.skip(ptr as int)),
            decreases len - ptr,
        {
            if ptr == len {
                proof {
                    assert(bytes@.skip(ptr as int).len() == 0);
                    assert(parse(bytes@.skip(ptr as int)).len() == 0);
                    assert(decoded::<I>(bytes@) =~= output@);
                    assert(payloads_widen::<I>(bytes@));
                }
                return Ok(output);
            }
            let ghost start: int = ptr as int;
            let ghost group = bytes@.skip(start);
            let mut shifts: usize = 0;
            proof {
                assert(bytes@.subrange(start, start).len() == 0);
                vstd::arithmetic::power2::lemma_pow2_pos(I::width());
            }
            loop
                invariant_except_break
                    start <= ptr < len,
                    shifts == ptr - start,
                    forall|i: int| start <= i < ptr ==> bytes@[i] >= 128,
                invariant
                    bytes@ == (*self)@,
                    len == bytes@.len(),
                    group == bytes@.skip(start),
                    0 <= start <= ptr,
                    forall|i: int| 0 <= i < ptr ==> I::widens(#[trigger] bytes@[i] % 128),
                    accum.bits() == group_value(bytes@.subrange(start, ptr as int)) % pow2(
                        I::width(),
                    ),
                ensures
                    start < ptr <= len,
                    ptr - start == group_len(group),
                decreases len - ptr,
            {
                let current = bytes[ptr];
                let payload = VALUE_MASK & current;
                proof {
                    assert(0x7fu8 & current == current % 128) by (bit_vector);
                }
                let value: I = match I::from_byte(payload) {
                    Some(value) => value,
                    None => {
                        proof {
                            assert(!I::widens(bytes@[ptr as int] % 128));
                        }
                        return Err(SerdeError::Decode("Failed to convert".to_owned()));
                    },
                };
                let count = match shifts.checked_mul(ENCODED_CHUNK_SIZE) {
                    Some(count) => count,
                    None => usize::MAX,
                };
                let shifted_val = value.shift_left(count);
                let ghost before = bytes@.subrange(start, ptr as int);
                proof {
                    let k = before.len();
                    I::lemma_width();
                    lemma_group_value_push(before, current);
                    assert(before.push(current) =~= bytes@.subrange(start, ptr + 1));
                    if count != 7 * k {
                        lemma_shifted_out(payload as nat, count as nat, I::width());
                        lemma_shifted_out(payload as nat, 7 * k, I::width());
                    }
                    lemma_accumulate(group_value(before), payload as nat, 7 * k, I::width());
                }
                accum = accum.or(shifted_val);
                ptr += 1;
                let ends = (current & CONTINUATION_MASK) >> ENCODED_CHUNK_SIZE == 0;
                proof {
                    assert(((current & 0x80u8) >> 7usize == 0) == (current < 128))
                        by (bit_vector);
                }
                if ptr == len || ends {
                    proof {
                        assert forall|i: int| 0 <= i < ptr - 1 - start implies group[i] >= 128 by {
                            assert(group[i] == bytes@[start + i]);
                        }
                        lemma_group_len_found(group, ptr - 1 - start);
                    }
                    break ;
                }
                shifts += 1;
            }
            proof {
                let n = group_len(group) as int;
                lemma_decoded_unfold::<I>(group);
                accum.lemma_bits();
                assert(group.take(n) =~= bytes@.subrange(start, ptr as int));
                assert(group.skip(n) =~= bytes@.skip(ptr as int));
                assert(output@.push(accum) + decoded::<I>(bytes@.skip(ptr as int)) =~= output@
                    + decoded::<I>(group));
            }
            output.push(accum);
            accum = I::zero();
        }
    }

    fn get_decoded_size(byte_count: usize) -> (n: usize) {
        proof {
            I::lemma_width();
        }
        byte_count / core::mem::size_of::<I>()
    }
}

} // verus!
