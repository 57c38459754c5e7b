//! The wire format as mathematics: which bytes carry a natural number, and
//! which numbers a byte buffer carries.
//!
//! A number is written in base 128, least significant digit first, one digit
//! per byte. Every byte but the last of a number has its high bit set.

use vstd::arithmetic::power2::{lemma2_to64, lemma_pow2_adds, pow2};
use vstd::prelude::*;

verus! {

/// The bytes that carry `n`: its base-128 digits, least significant first,
/// each but the last raised by 128.
pub open spec fn varint(n: nat) -> Seq<u8>
    decreases n,
{
    if n < 128 {
        seq![n as u8]
    } else {
        seq![(n % 128 + 128) as u8] + varint(n / 128)
    }
}

/// The bytes that carry the numbers `ns`, one after another.
pub open spec fn varint_all(ns: Seq<nat>) -> Seq<u8>
    decreases ns.len(),
{
    if ns.len() == 0 {
        Seq::empty()
    } else {
        varint(ns[0]) + varint_all(ns.drop_first())
    }
}

/// How many bytes the first group of `bytes` takes: up to and including the
/// first byte whose high bit is clear, or all of `bytes` where there is none.
pub open spec fn group_len(bytes: Seq<u8>) -> nat
    decreases bytes.len(),
{
    if bytes.len() == 0 {
        0
    } else if bytes[0] < 128 {
        1
    } else {
        1 + group_len(bytes.drop_first())
    }
}

/// The number that a group carries: the low seven bits of its bytes, read as
/// base-128 digits with the least significant first.
pub open spec fn group_value(group: Seq<u8>) -> nat
    decreases group.len(),
{
    if group.len() == 0 {
        0
    } else {
        (group[0] % 128) as nat + 128 * group_value(group.drop_first())
    }
}

/// The numbers that `bytes` carries, group by group.
pub open spec fn parse(bytes: Seq<u8>) -> Seq<nat>
    decreases bytes.len(),
    via parse_terminates
{
    if bytes.len() == 0 {
        Seq::empty()
    } else {
        let n = group_len(bytes) as int;
        seq![group_value(bytes.take(n))] + parse(bytes.skip(n))
    }
}

#[via_fn]
proof fn parse_terminates(bytes: Seq<u8>) {
    lemma_group_len_bounds(bytes);
}

/// The number of binary digits of `n`; zero has none.
pub open spec fn bit_length(n: nat) -> nat
    decreases n,
{
    if n == 0 {
        0
    } else {
        1 + bit_length(n / 2)
    }
}

/// A group is never empty unless the buffer is, and never longer than it.
pub proof fn lemma_group_len_bounds(bytes: Seq<u8>)
    ensures
        group_len(bytes) <= bytes.len(),
        bytes.len() > 0 ==> group_len(bytes) >= 1,
    decreases bytes.len(),
{
    if bytes.len() > 0 && bytes[0] >= 128 {
        lemma_group_len_bounds(bytes.drop_first());
    }
}

/// Where the first `k` bytes all have the high bit set and byte `k` ends the
/// group, or the buffer ends there, the first group has `k + 1` bytes.
pub proof fn lemma_group_len_found(bytes: Seq<u8>, k: int)
    requires
        0 <= k < bytes.len(),
        forall|i: int| 0 <= i < k ==> bytes[i] >= 128,
        bytes[k] < 128 || k + 1 == bytes.len(),
    ensures
        group_len(bytes) == k + 1,
    decreases k,
{
    if k > 0 {
        let rest = bytes.drop_first();
        assert forall|i: int| 0 <= i < k - 1 implies rest[i] >= 128 by {
            assert(rest[i] == bytes[i + 1]);
        }
        assert(rest[k - 1] == bytes[k]);
        assert(bytes[0] >= 128);
        lemma_group_len_found(rest, k - 1);
    } else if bytes[0] >= 128 {
        assert(bytes.drop_first().len() == 0);
        assert(group_len(bytes.drop_first()) == 0);
    }
}

/// A group of `k` bytes carries a number below `128^k`, and one more byte
/// adds its low seven bits as the digit of weight `128^k`.
pub proof fn lemma_group_value_push(group: Seq<u8>, b: u8)
    ensures
        group_value(group) < pow2(7 * group.len()),
        group_value(group.push(b)) == group_value(group) + (b % 128) as nat * pow2(
            7 * group.len(),
        ),
    decreases group.len(),
{
    let k = group.len();
    let d = (b % 128) as nat;
    let longer = group.push(b);
    lemma2_to64();
    if k == 0 {
        assert(longer.drop_first() =~= group);
        assert(group_value(longer) == d + 128 * group_value(group));
        assert(d * 1 == d);
    } else {
        let rest = group.drop_first();
        let p = pow2((7 * (k - 1)) as nat);
        lemma_group_value_push(rest, b);
        assert(longer.drop_first() =~= rest.push(b));
        assert(longer[0] == group[0]);
        assert(pow2(7 * k) == 128 * p) by {
            lemma_pow2_adds(7, (7 * (k - 1)) as nat);
            assert(7 + 7 * (k - 1) == 7 * k);
        }
        let lo = (group[0] % 128) as nat;
        assert(group_value(group) == lo + 128 * group_value(rest));
        assert(group_value(longer) == lo + 128 * (group_value(rest) + d * p));
        assert(128 * (group_value(rest) + d * p) == 128 * group_value(rest) + d * (128 * p))
            by (nonlinear_arith);
        assert(lo + 128 * group_value(rest) < 128 * p) by (nonlinear_arith)
            requires
                lo < 128,
                group_value(rest) < p,
        ;
    }
}

/// Appending a number to a list appends its bytes.
pub proof fn lemma_varint_all_push(ns: Seq<nat>, n: nat)
    ensures
        varint_all(ns.push(n)) == varint_all(ns) + varint(n),
    decreases ns.len(),
{
    let longer = ns.push(n);
    if ns.len() == 0 {
        assert(longer.drop_first() =~= ns);
        assert(varint_all(longer) =~= varint(n) + varint_all(ns));
        assert(varint_all(longer) =~= varint_all(ns) + varint(n));
    } else {
        lemma_varint_all_push(ns.drop_first(), n);
        assert(longer.drop_first() =~= ns.drop_first().push(n));
        assert(longer[0] == ns[0]);
        assert(varint_all(longer) =~= varint_all(ns) + varint(n));
    }
}

/// The continuation bits of an encoding: it has at least one byte, every
/// byte but the last has the high bit set, and the last has it clear.
pub proof fn lemma_continuation_bits(n: nat)
    ensures
        varint(n).len() >= 1,
        forall|i: int| 0 <= i < varint(n).len() - 1 ==> varint(n)[i] >= 128,
        varint(n).last() < 128,
    decreases n,
{
    if n >= 128 {
        let tail = varint(n / 128);
        lemma_continuation_bits(n / 128);
        assert forall|i: int| 0 <= i < varint(n).len() - 1 implies varint(n)[i] >= 128 by {
            if i > 0 {
                assert(varint(n)[i] == tail[i - 1]);
            }
        }
        assert(varint(n).last() == tail.last());
    }
}

/// An encoding is as short as can be: one byte for zero, and for any other
/// number one byte for every seven binary digits, the last seven or fewer.
pub proof fn lemma_minimal_length(n: nat)
    ensures
        varint(n).len() == if n == 0 {
            1
        } else {
            (bit_length(n) + 6) / 7
        },
    decreases n,
{
    reveal_with_fuel(bit_length, 8);
    if n >= 128 {
        lemma_minimal_length(n / 128);
        assert(n / 2 / 2 / 2 / 2 / 2 / 2 / 2 == n / 128);
        assert(bit_length(n) == 7 + bit_length(n / 128));
    } else if n > 0 {
        assert(1 <= bit_length(n) <= 7);
    }
}

/// The bytes that carry `n` form one group, and the group carries `n`.
pub proof fn lemma_varint_value(n: nat)
    ensures
        group_value(varint(n)) == n,
    decreases n,
{
    if n < 128 {
        assert(varint(n).drop_first().len() == 0);
        assert(group_value(varint(n).drop_first()) == 0);
    } else {
        lemma_varint_value(n / 128);
        assert(varint(n).drop_first() =~= varint(n / 128));
        assert(varint(n)[0] == (n % 128 + 128) as u8);
    }
}

/// A buffer that starts with the bytes of `n` carries `n` first, and then
/// what the rest of it carries.
pub proof fn lemma_parse_varint(n: nat, rest: Seq<u8>)
    ensures
        parse(varint(n) + rest) == seq![n] + parse(rest),
{
    let bytes = varint(n) + rest;
    let len = varint(n).len() as int;
    lemma_continuation_bits(n);
    lemma_varint_value(n);
    assert forall|i: int| 0 <= i < len - 1 implies bytes[i] >= 128 by {
        assert(bytes[i] == varint(n)[i]);
    }
    assert(bytes[len - 1] == varint(n).last());
    lemma_group_len_found(bytes, len - 1);
    assert(bytes.take(len) =~= varint(n));
    assert(bytes.skip(len) =~= rest);
}

/// A buffer made of the bytes of some numbers carries those numbers.
pub proof fn lemma_parse_varint_all(ns: Seq<nat>)
    ensures
        parse(varint_all(ns)) == ns,
    decreases ns.len(),
{
    if ns.len() > 0 {
        lemma_parse_varint_all(ns.drop_first());
        lemma_parse_varint(ns[0], varint_all(ns.drop_first()));
        assert(seq![ns[0]] + ns.drop_first() =~= ns);
    } else {
        assert(varint_all(ns).len() == 0);
        assert(parse(varint_all(ns)) =~= ns);
    }
}

} // verus!
