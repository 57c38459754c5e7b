//! A codec for integers of 8 to 128 bits, signed or unsigned, in a
//! variable number of bytes.
//!
//! A value is written as the base-128 digits of its bit pattern, least
//! significant first, one digit in the low seven bits of each byte. The high
//! bit of a byte says that another byte of the same value follows. A buffer
//! holds any number of values one after another, and nothing else: neither
//! their count nor their width.

pub mod bits;
pub mod impl_serde;
pub mod laws;
pub mod signedint;
pub mod unsignedint;
pub mod varint_serde;
pub mod wire;

pub use crate::impl_serde::Encodable;
pub use crate::unsignedint::UnsignedInt;
pub use crate::varint_serde::{SerdeError, VarIntDecode, VarIntEncode};

use crate::varint_serde::{decoded, patterns, payloads_widen};
use crate::wire::{lemma_varint_all_push, varint, varint_all};
use vstd::prelude::*;

verus! {

/// Encodes each value of `nums` in order, one encoding after another.
pub fn encode_slice<I: VarIntEncode>(nums: &[I]) -> (out: Vec<u8>)
    ensures
        out@ == varint_all(patterns(nums@)),
{
    let mut output: Vec<u8> = Vec::new();
    let mut index: usize = 0;
    proof {
        assert(patterns(nums@.take(0)) =~= Seq::<nat>::empty());
    }
    while index < nums.len()
        invariant
            index <= nums@.len(),
            output@ == varint_all(patterns(nums@.take(index as int))),
        decreases nums@.len() - index,
    {
        let mut piece = nums[index].encode();
        proof {
            let done = patterns(nums@.take(index as int));
            lemma_varint_all_push(done, nums@[index as int].bits());
            assert(patterns(nums@.take(index + 1)) =~= done.push(nums@[index as int].bits()));
        }
        output.append(&mut piece);
        index += 1;
    }
    proof {
        assert(nums@.take(index as int) =~= nums@);
    }
    output
}

/// Encodes one value: the bytes that carry its bit pattern.
pub fn encode<I: VarIntEncode>(num: I) -> (out: Vec<u8>)
    ensures
        out@ == varint(num.bits()),
{
    num.encode()
}

/// Decodes the values of type `I` that `bytes` carries, one for each group
/// of bytes. The last group ends with the buffer, whatever its last byte. Of
/// a group that carries more bits than `I` has, the bits beyond the width of
/// `I` are lost.
///
/// Fails where the low seven bits of a byte cannot be widened into `I`, and
/// only there.
pub fn decode<I: Encodable>(bytes: &[u8]) -> (r: Result<Vec<I>, SerdeError>)
    ensures
        payloads_widen::<I>(bytes@) ==> (r matches Ok(values) && values@ == decoded::<I>(bytes@)),
        !payloads_widen::<I>(bytes@) ==> (r matches Err(SerdeError::Decode(message)) && message@
            == "Failed to convert"@),
{
    bytes.decode()
}

} // verus!
