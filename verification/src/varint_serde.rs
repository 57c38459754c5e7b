//! The codec's constants, its error, and the two traits through which
//! values are encoded and buffers decoded.

use crate::impl_serde::Encodable;
use crate::wire::{group_len, group_value, parse, varint};
use vstd::arithmetic::power2::pow2;
use vstd::layout::size_of;
use vstd::prelude::*;

verus! {

/// Payload bits in one encoded byte.
pub const ENCODED_CHUNK_SIZE: usize = 7;

/// The high bit of an encoded byte: set where more bytes of the same number
/// follow.
pub const CONTINUATION_MASK: u8 = 0b10000000;

/// The low seven bits of an encoded byte: its payload.
pub const VALUE_MASK: u8 = 0b01111111;

/// Why a buffer could not be decoded.
#[derive(Debug)]
pub enum SerdeError {
    /// A payload could not be widened into the requested type. The string
    /// says what failed.
    Decode(String),
}

impl SerdeError {
    /// What the error says of itself when shown: the same words for every
    /// message that it carries.
    pub fn to_string(&self) -> (text: String)
        ensures
            text@ == "Failed to decode num"@,
    {
        "Failed to decode num".to_owned()
    }
}

/// The bit patterns of `values`, in order.
pub open spec fn patterns<I: Encodable>(values: Seq<I>) -> Seq<nat> {
    Seq::new(values.len(), |i: int| values[i].bits())
}

/// The value of type `I` that a group with the number `n` yields: the one
/// whose bit pattern is `n`, cut to the width of `I`.
pub open spec fn value_of<I: Encodable>(n: nat) -> I {
    I::from_bits(n % pow2(I::width()))
}

/// The values of type `I` that `bytes` carries, one for each group.
pub open spec fn decoded<I: Encodable>(bytes: Seq<u8>) -> Seq<I> {
    Seq::new(parse(bytes).len(), |i: int| value_of::<I>(parse(bytes)[i]))
}

/// Whether the payload of every byte of `bytes` can be widened into `I`.
pub open spec fn payloads_widen<I: Encodable>(bytes: Seq<u8>) -> bool {
    forall|i: int| 0 <= i < bytes.len() ==> I::widens(#[trigger] bytes[i] % 128)
}

/// The first value that a buffer carries stands before those that the rest
/// of the buffer carries.
pub proof fn lemma_decoded_unfold<I: Encodable>(bytes: Seq<u8>)
    requires
        bytes.len() > 0,
    ensures
        decoded::<I>(bytes) == seq![
            value_of::<I>(group_value(bytes.take(group_len(bytes) as int))),
        ] + decoded::<I>(bytes.skip(group_len(bytes) as int)),
{
    let n = group_len(bytes) as int;
    let first = value_of::<I>(group_value(bytes.take(n)));
    let rest = decoded::<I>(bytes.skip(n));
    assert(parse(bytes) == seq![group_value(bytes.take(n))] + parse(bytes.skip(n)));
    assert(decoded::<I>(bytes) =~= seq![first] + rest);
}

/// Encoding of a value into bytes.
pub trait VarIntEncode: Encodable {
    /// The bytes that carry the bit pattern of `self`.
    fn encode(&self) -> (out: Vec<u8>)
        ensures
            out@ == varint(self.bits()),
    ;

    /// A number of bytes that holds the encoding of any value of the type.
    fn get_endcoded_byte_size() -> (n: usize)
        ensures
            n == (size_of::<Self>() * 8) / 7 + 1,
    ;
}

/// Decoding of a byte buffer into values of type `I`.
pub trait VarIntDecode<I: Encodable> {
    /// The bytes of the buffer.
    spec fn wire(&self) -> Seq<u8>;

    /// The values that the buffer carries, or the error where a payload
    /// cannot be widened into `I`.
    fn decode(&self) -> (r: Result<Vec<I>, SerdeError>)
        ensures
            payloads_widen::<I>(self.wire()) ==> (r matches Ok(values) && values@ == decoded::<I>(
                self.wire(),
            )),
            !payloads_widen::<I>(self.wire()) ==> (r matches Err(SerdeError::Decode(message))
                && message@ == "Failed to convert"@),
    ;

    /// The number of values of type `I` that fit in `byte_count` bytes of
    /// memory.
    fn get_decoded_size(byte_count: usize) -> (n: usize)
        ensures
            n == byte_count as nat / size_of::<I>(),
    ;
}

} // verus!
