//! Bit strings as byte arrays: eight bits to the byte, the byte's most
//! significant bit first.
use crate::access::BitMan;
use crate::model::bits_value;
use crate::model::lemma_same_value_same_bits;
use crate::model::lemma_value_bound;
use crate::word::unsigned8::lemma_u8_value;
use vstd::arithmetic::power2::lemma2_to64;
use vstd::prelude::*;

verus! {

/// The byte that eight bits stand for.
pub open spec fn byte_of(s: Seq<bool>) -> u8 {
    bits_value(s) as u8
}

/// The bytes of a bit string, in order: byte `j` holds the bits `8 * j` to
/// `8 * j + 7`.
pub open spec fn bytes_of_bits(s: Seq<bool>) -> Seq<u8> {
    Seq::new((s.len() / 8) as nat, |j: int| byte_of(s.subrange(8 * j, 8 * j + 8)))
}

/// The bits of a byte array, in order: each byte gives eight bits.
pub open spec fn bits_of_bytes(bytes: Seq<u8>) -> Seq<bool> {
    Seq::new(8 * bytes.len(), |i: int| bytes[i / 8].bit_seq()[i % 8])
}

/// The bit string with the order of the bits turned round within each group
/// of eight.
pub open spec fn flip_in_bytes(s: Seq<bool>) -> Seq<bool> {
    Seq::new(s.len(), |i: int| s[i - i % 8 + (7 - i % 8)])
}

/// Eight bits are the bits of the byte they stand for.
pub proof fn lemma_byte_of_bits(s: Seq<bool>)
    requires
        s.len() == 8,
    ensures
        byte_of(s).bit_seq() == s,
{
    lemma_value_bound(s);
    lemma2_to64();
    lemma_u8_value(byte_of(s));
    lemma_same_value_same_bits(byte_of(s).bit_seq(), s);
}

/// Turning the bits round within each byte twice gives the bit string back,
/// if its length is a multiple of eight.
pub proof fn lemma_flip_twice(s: Seq<bool>)
    requires
        s.len() % 8 == 0,
    ensures
        flip_in_bytes(flip_in_bytes(s)) == s,
{
    assert(flip_in_bytes(flip_in_bytes(s)) =~= s);
}

/// Bits to big-endian bytes and back: the same bits, if their number is a
/// multiple of eight.
pub proof fn lemma_be_bytes_round_trip(s: Seq<bool>)
    requires
        s.len() % 8 == 0,
    ensures
        bits_of_bytes(bytes_of_bits(s)) == s,
{
    let back = bits_of_bytes(bytes_of_bits(s));
    assert forall|i: int| 0 <= i < s.len() implies back[i] == s[i] by {
        lemma_byte_of_bits(s.subrange(8 * (i / 8), 8 * (i / 8) + 8));
    }
    assert(back =~= s);
}

/// Bits to little-endian bytes and back: the same bits, if their number is
/// a multiple of eight.
pub proof fn lemma_le_bytes_round_trip(s: Seq<bool>)
    requires
        s.len() % 8 == 0,
    ensures
        bits_of_bytes(bytes_of_bits(s).reverse().reverse()) == s,
{
    assert(bytes_of_bits(s).reverse().reverse() =~= bytes_of_bits(s));
    lemma_be_bytes_round_trip(s);
}

/// Bits to big-endian bytes of little-endian bits and back: the same bits,
/// if their number is a multiple of eight.
pub proof fn lemma_be_bytes_of_le_bits_round_trip(s: Seq<bool>)
    requires
        s.len() % 8 == 0,
    ensures
        flip_in_bytes(bits_of_bytes(bytes_of_bits(flip_in_bytes(s)))) == s,
{
    lemma_be_bytes_round_trip(flip_in_bytes(s));
    lemma_flip_twice(s);
}

/// Bits to little-endian bytes of little-endian bits and back: the same
/// bits, if their number is a multiple of eight.
pub proof fn lemma_le_bytes_of_le_bits_round_trip(s: Seq<bool>)
    requires
        s.len() % 8 == 0,
    ensures
        flip_in_bytes(bits_of_bytes(bytes_of_bits(flip_in_bytes(s)).reverse().reverse())) == s,
{
    let bytes = bytes_of_bits(flip_in_bytes(s));
    assert(bytes.reverse().reverse() =~= bytes);
    lemma_be_bytes_of_le_bits_round_trip(s);
}

/// Big-endian bytes to bits and back: the same bytes.
pub proof fn lemma_bytes_round_trip(bytes: Seq<u8>)
    ensures
        bytes_of_bits(bits_of_bytes(bytes)) == bytes,
{
    let s = bits_of_bytes(bytes);
    let back = bytes_of_bits(s);
    assert forall|j: int| 0 <= j < bytes.len() implies back[j] == bytes[j] by {
        assert(s.subrange(8 * j, 8 * j + 8) =~= bytes[j].bit_seq());
        lemma_u8_value(bytes[j]);
    }
    assert(back =~= bytes);
}

/// Bytes to bits and back in the other three conventions: the same bytes.
pub proof fn lemma_bytes_round_trip_in_other_orders(bytes: Seq<u8>)
    ensures
        bytes_of_bits(bits_of_bytes(bytes.reverse())).reverse() == bytes,
        bytes_of_bits(flip_in_bytes(flip_in_bytes(bits_of_bytes(bytes)))) == bytes,
        bytes_of_bits(flip_in_bytes(flip_in_bytes(bits_of_bytes(bytes.reverse())))).reverse()
            == bytes,
{
    lemma_bytes_round_trip(bytes);
    lemma_bytes_round_trip(bytes.reverse());
    lemma_flip_twice(bits_of_bytes(bytes));
    lemma_flip_twice(bits_of_bytes(bytes.reverse()));
    assert(bytes.reverse().reverse() =~= bytes);
}

} // verus!
