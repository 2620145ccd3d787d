//! A string of bits of any length, most significant bit first.
use crate::access::BitMan;
use crate::bit::Bit;
use crate::bytes::bits_of_bytes;
use crate::bytes::bytes_of_bits;
use crate::bytes::flip_in_bytes;
use crate::model::and_onto;
use crate::model::bits_and;
use crate::model::bits_not;
use crate::model::bits_or;
use crate::model::bits_sum;
use crate::model::bits_value;
use crate::model::bits_xor;
use crate::model::bools;
use crate::model::carry_into;
use crate::model::fit;
use crate::model::or_onto;
use crate::model::shifted;
use crate::model::shorter;
use crate::model::splice;
use crate::model::xor_onto;
use crate::model::zeros;
use crate::word::unsigned128::lemma_u128_value;
use crate::word::Word;
use vstd::layout::size_of;
use vstd::prelude::*;
use vstd::std_specs::convert::FromSpecImpl;
use vstd::std_specs::ops::AddSpecImpl;
use vstd::std_specs::ops::BitAndSpecImpl;
use vstd::std_specs::ops::BitOrSpecImpl;
use vstd::std_specs::ops::BitXorSpecImpl;
use vstd::std_specs::ops::MulSpecImpl;
use vstd::std_specs::ops::NotSpecImpl;
use vstd::std_specs::ops::ShlSpecImpl;
use vstd::std_specs::ops::ShrSpecImpl;
use vstd::string::StringExecFns;
use vstd::slice::slice_subrange;
use vstd::slice::slice_to_vec;

verus! {

/// An ordered string of bits. Entry 0 is the most significant bit.
#[derive(Debug, PartialEq, Eq, Hash, Clone)]
pub struct Bits {
    inner: Vec<Bit>,
}

impl View for Bits {
    type V = Seq<bool>;

    closed spec fn view(&self) -> Seq<bool> {
        bools(self.inner@)
    }
}

/// The bits in writing, each with a blank in front.
pub open spec fn written(s: Seq<bool>) -> Seq<char>
    decreases s.len(),
{
    if s.len() == 0 {
        Seq::empty()
    } else {
        written(s.drop_last()) + " "@ + (if s.last() { "Bit(true)"@ } else { "Bit(false)"@ })
    }
}

/// The bytes in the opposite order.
fn reversed(bytes: &[u8]) -> (r: Vec<u8>)
    ensures
        r@ == bytes@.reverse(),
{
    let mut out: Vec<u8> = Vec::new();
    let mut left: usize = bytes.len();
    while left > 0
        invariant
            left <= bytes@.len(),
            out@.len() == bytes@.len() - left,
            forall|j: int| 0 <= j < out@.len() ==> out@[j] == bytes@[bytes@.len() - 1 - j],
        decreases left,
    {
        left -= 1;
        out.push(bytes[left]);
    }
    out
}

impl Bits {
    /// A bit string that holds a copy of the given bits.
    pub fn new(inner_vector_of_bits: &[Bit]) -> (r: Bits)
        ensures
            r@ == bools(inner_vector_of_bits@),
    {
        Bits { inner: slice_to_vec(inner_vector_of_bits) }
    }

    /// The bits as bytes, eight bits to the byte in the order of the string,
    /// a byte's most significant bit first. The length must be a multiple of
    /// eight.
    pub fn to_be_bytes(&self) -> (r: Vec<u8>)
        requires
            self@.len() % 8 == 0,
        ensures
            r@ == bytes_of_bits(self@),
    {
        let mut bytes: Vec<u8> = Vec::new();
        let length = self.inner.len();
        let mut current_length: usize = 0;
        while current_length < length
            invariant
                length == self@.len(),
                length == self.inner@.len(),
                length % 8 == 0,
                current_length % 8 == 0,
                current_length <= length,
                bytes@.len() == current_length / 8,
                forall|j: int| 0 <= j < bytes@.len() ==> bytes@[j] == bytes_of_bits(self@)[j],
            decreases length - current_length,
        {
            let group = Bits::new(
                slice_subrange(self.inner.as_slice(), current_length, current_length + 8),
            );
            assert(group@ =~= self@.subrange(current_length as int, current_length + 8));
            assert(fit(group@, 8) =~= group@);
            bytes.push(u8::from(&group));
            current_length += 8;
        }
        bytes
    }

    /// The bytes of `to_be_bytes` in the opposite order.
    pub fn to_le_bytes(&self) -> (r: Vec<u8>)
        requires
            self@.len() % 8 == 0,
        ensures
            r@ == bytes_of_bits(self@).reverse(),
    {
        let bytes = self.to_be_bytes();
        reversed(bytes.as_slice())
    }

    /// The bytes of `to_be_bytes_of_le_bits` in the opposite order.
    pub fn to_le_bytes_of_le_bits(&self) -> (r: Vec<u8>)
        requires
            self@.len() % 8 == 0,
        ensures
            r@ == bytes_of_bits(flip_in_bytes(self@)).reverse(),
    {
        let vec_u8 = self.to_be_bytes_of_le_bits();
        reversed(vec_u8.as_slice())
    }

    /// The bits as bytes, eight bits to the byte in the order of the string,
    /// a byte's least significant bit first. The length must be a multiple of
    /// eight.
    pub fn to_be_bytes_of_le_bits(&self) -> (r: Vec<u8>)
        requires
            self@.len() % 8 == 0,
        ensures
            r@ == bytes_of_bits(flip_in_bytes(self@)),
    {
        let mut bytes: Vec<u8> = Vec::new();
        let length = self.inner.len();
        let mut current_length: usize = 0;
        let ghost flipped = flip_in_bytes(self@);
        while current_length < length
            invariant
                length == self@.len(),
                length == self.inner@.len(),
                length % 8 == 0,
                current_length % 8 == 0,
                current_length <= length,
                flipped == flip_in_bytes(self@),
                bytes@.len() == current_length / 8,
                forall|j: int| 0 <= j < bytes@.len() ==> bytes@[j] == bytes_of_bits(flipped)[j],
            decreases length - current_length,
        {
            let mut bits: Vec<Bit> = Vec::new();
            let mut count: usize = 8;
            while count > 0
                invariant
                    length == self.inner@.len(),
                    current_length + 8 <= length,
                    count <= 8,
                    bits@.len() == 8 - count,
                    forall|k: int|
                        0 <= k < bits@.len() ==> bits@[k] == self.inner@[current_length + 7 - k],
                decreases count,
            {
                count -= 1;
                bits.push(self.inner[current_length + count]);
            }
            let group = Bits::new(bits.as_slice());
            assert(group@ =~= flipped.subrange(current_length as int, current_length + 8));
            assert(fit(group@, 8) =~= group@);
            bytes.push(u8::from(&group));
            current_length += 8;
        }
        bytes
    }

    /// `to_be_bytes` where the length is a multiple of eight, and `None`
    /// where it is not.
    pub fn checked_to_be_bytes(&self) -> (r: Option<Vec<u8>>)
        ensures
            r.is_some() == (self@.len() % 8 == 0),
            r.is_some() ==> r.unwrap()@ == bytes_of_bits(self@),
    {
        if self.inner.len() % 8 == 0 {
            Some(self.to_be_bytes())
        } else {
            None
        }
    }

    /// `to_le_bytes` where the length is a multiple of eight, and `None`
    /// where it is not.
    pub fn checked_to_le_bytes(&self) -> (r: Option<Vec<u8>>)
        ensures
            r.is_some() == (self@.len() % 8 == 0),
            r.is_some() ==> r.unwrap()@ == bytes_of_bits(self@).reverse(),
    {
        if self.inner.len() % 8 == 0 {
            Some(self.to_le_bytes())
        } else {
            None
        }
    }

    /// `to_be_bytes_of_le_bits` where the length is a multiple of eight, and
    /// `None` where it is not.
    pub fn checked_to_be_bytes_of_le_bits(&self) -> (r: Option<Vec<u8>>)
        ensures
            r.is_some() == (self@.len() % 8 == 0),
            r.is_some() ==> r.unwrap()@ == bytes_of_bits(flip_in_bytes(self@)),
    {
        if self.inner.len() % 8 == 0 {
            Some(self.to_be_bytes_of_le_bits())
        } else {
            None
        }
    }

    /// `to_le_bytes_of_le_bits` where the length is a multiple of eight, and
    /// `None` where it is not.
    pub fn checked_to_le_bytes_of_le_bits(&self) -> (r: Option<Vec<u8>>)
        ensures
            r.is_some() == (self@.len() % 8 == 0),
            r.is_some() ==> r.unwrap()@ == bytes_of_bits(flip_in_bytes(self@)).reverse(),
    {
        if self.inner.len() % 8 == 0 {
            Some(self.to_le_bytes_of_le_bits())
        } else {
            None
        }
    }

    /// The bits of the bytes, in the order of the array, a byte's most
    /// significant bit first.
    pub fn from_be_bytes(slice_of_bytes: &[u8]) -> (r: Bits)
        ensures
            r@ == bits_of_bytes(slice_of_bytes@),
    {
        let mut bits = Bits { inner: Vec::new() };
        let mut done: usize = 0;
        while done < slice_of_bytes.len()
            invariant
                done <= slice_of_bytes@.len(),
                bits@.len() == 8 * done,
                forall|i: int| 0 <= i < 8 * done ==> bits@[i] == bits_of_bytes(slice_of_bytes@)[i],
            decreases slice_of_bytes@.len() - done,
        {
            let ghost before = bits@;
            let mut group = slice_of_bytes[done].bits();
            let ghost byte_bits = group@;
            bits.inner.append(&mut group.inner);
            assert(bits@ =~= before + byte_bits);
            done += 1;
        }
        bits
    }

    /// The bits of the bytes, taken from the last byte to the first, a
    /// byte's most significant bit first.
    pub fn from_le_bytes(slice_of_bytes: &[u8]) -> (r: Bits)
        ensures
            r@ == bits_of_bytes(slice_of_bytes@.reverse()),
    {
        let vec_of_bytes = reversed(slice_of_bytes);
        Bits::from_be_bytes(vec_of_bytes.as_slice())
    }

    /// The bits of the bytes, taken from the last byte to the first, a
    /// byte's least significant bit first.
    pub fn from_le_bytes_of_le_bits(slice_of_bytes: &[u8]) -> (r: Bits)
        ensures
            r@ == flip_in_bytes(bits_of_bytes(slice_of_bytes@.reverse())),
    {
        let mut vec_of_bytes = reversed(slice_of_bytes);
        Bits::from_be_bytes_of_le_bits(vec_of_bytes.as_mut_slice())
    }

    /// The bits of the bytes, in the order of the array, a byte's least
    /// significant bit first. The bytes are left as they are.
    pub fn from_be_bytes_of_le_bits(slice_of_bytes: &mut [u8]) -> (r: Bits)
        ensures
            r@ == flip_in_bytes(bits_of_bytes(old(slice_of_bytes)@)),
            final(slice_of_bytes)@ == old(slice_of_bytes)@,
    {
        let mut vec_of_bits: Vec<Bit> = Vec::new();
        let ghost wanted = flip_in_bytes(bits_of_bytes(slice_of_bytes@));
        let mut done: usize = 0;
        while done < slice_of_bytes.len()
            invariant
                slice_of_bytes@ == old(slice_of_bytes)@,
                wanted == flip_in_bytes(bits_of_bytes(slice_of_bytes@)),
                done <= slice_of_bytes@.len(),
                vec_of_bits@.len() == 8 * done,
                forall|i: int| 0 <= i < 8 * done ==> vec_of_bits@[i].0 == wanted[i],
            decreases slice_of_bytes@.len() - done,
        {
            let current_u8_as_bits: Bits = slice_of_bytes[done].bits();
            assert(current_u8_as_bits.inner@.len() == current_u8_as_bits@.len());
            let mut count: usize = 8;
            while count > 0
                invariant
                    slice_of_bytes@ == old(slice_of_bytes)@,
                    wanted == flip_in_bytes(bits_of_bytes(slice_of_bytes@)),
                    done < slice_of_bytes@.len(),
                    current_u8_as_bits@ == slice_of_bytes@[done as int].bit_seq(),
                    current_u8_as_bits.inner@.len() == 8,
                    count <= 8,
                    vec_of_bits@.len() == 8 * done + (8 - count),
                    forall|i: int| 0 <= i < vec_of_bits@.len() ==> vec_of_bits@[i].0 == wanted[i],
                decreases count,
            {
                count -= 1;
                vec_of_bits.push(current_u8_as_bits.inner[count]);
            }
            done += 1;
        }
        Bits { inner: vec_of_bits }
    }
}

impl Bits {
    /// A bit string with the same bits.
    fn copy(&self) -> (r: Bits)
        ensures
            r@ == self@,
    {
        Bits::new(self.inner.as_slice())
    }

    /// A string of `count` cleared bits.
    fn cleared(count: usize) -> (r: Bits)
        ensures
            r@ == zeros(count as nat),
    {
        let mut inner: Vec<Bit> = Vec::new();
        let mut done: usize = 0;
        while done < count
            invariant
                done <= count,
                inner@.len() == done,
                forall|i: int| 0 <= i < done ==> !inner@[i].0,
            decreases count - done,
        {
            inner.push(Bit(false));
            done += 1;
        }
        Bits { inner }
    }

    /// The string in writing: `Bits(`, then a blank and the bit in writing
    /// for each bit, then `)`.
    pub fn to_string(&self) -> (r: String)
        ensures
            r@ == "Bits("@ + written(self@) + ")"@,
    {
        let mut output = "Bits(".to_owned();
        let mut index_counter: usize = 0;
        while index_counter < self.inner.len()
            invariant
                index_counter <= self@.len(),
                output@ == "Bits("@ + written(self@.take(index_counter as int)),
            decreases self.inner@.len() - index_counter,
        {
            let bit = self.inner[index_counter].to_string();
            output.append(" ");
            output.append(bit.as_str());
            assert(self@.take(index_counter + 1).drop_last() =~= self@.take(index_counter as int));
            index_counter += 1;
        }
        assert(self@.take(self@.len() as int) =~= self@);
        output.append(")");
        output
    }

    /// Takes the last bit off the string and returns it, or returns `None`
    /// when the string is empty.
    pub fn next(&mut self) -> (r: Option<Bit>)
        ensures
            old(self)@.len() == 0 ==> r.is_none() && final(self)@ == old(self)@,
            old(self)@.len() > 0 ==> r == Some(Bit(old(self)@.last())),
            old(self)@.len() > 0 ==> final(self)@ == old(self)@.drop_last(),
    {
        self.inner.pop()
    }
}

impl Default for Bits {
    /// The empty bit string.
    fn default() -> (r: Bits)
        ensures
            r@ == Seq::<bool>::empty(),
    {
        Bits { inner: Vec::new() }
    }
}

impl core::ops::Deref for Bits {
    type Target = Vec<Bit>;

    fn deref(&self) -> (r: &Vec<Bit>)
        ensures
            bools(r@) == self@,
    {
        &self.inner
    }
}

impl core::ops::DerefMut for Bits {
    fn deref_mut(&mut self) -> (r: &mut Vec<Bit>)
        ensures
            bools(r@) == old(self)@,
            final(self)@ == bools(final(r)@),
    {
        &mut self.inner
    }
}

impl core::ops::BitAnd for Bits {
    type Output = Bits;

    /// Position by position, as far as both strings reach.
    fn bitand(self, rhs: Bits) -> (r: Bits)
        ensures
            r@ == bits_and(self@, rhs@),
    {
        let mut new_bits: Vec<Bit> = Vec::new();
        let mut index_counter: usize = 0;
        while index_counter < self.inner.len() && index_counter < rhs.inner.len()
            invariant
                index_counter <= shorter(self@, rhs@),
                new_bits@.len() == index_counter,
                forall|i: int| 0 <= i < index_counter ==> new_bits@[i].0 == (self@[i] && rhs@[i]),
            decreases self.inner@.len() - index_counter,
        {
            new_bits.push(self.inner[index_counter] & rhs.inner[index_counter]);
            index_counter += 1;
        }
        Bits { inner: new_bits }
    }
}

impl BitAndSpecImpl for Bits {
    open spec fn obeys_bitand_spec() -> bool {
        false
    }

    open spec fn bitand_req(self, rhs: Bits) -> bool {
        true
    }

    open spec fn bitand_spec(self, rhs: Bits) -> Bits {
        arbitrary()
    }
}

impl core::ops::BitAndAssign for Bits {
    /// Position by position, as far as `rhs` reaches; the rest of `self`
    /// stays.
    fn bitand_assign(&mut self, rhs: Bits)
        ensures
            final(self)@ == and_onto(old(self)@, rhs@),
    {
        let mut index_counter: usize = 0;
        while index_counter < self.inner.len() && index_counter < rhs.inner.len()
            invariant
                self@.len() == old(self)@.len(),
                index_counter <= shorter(self@, rhs@),
                forall|i: int|
                    0 <= i < index_counter ==> #[trigger] self@[i] == (old(self)@[i] && rhs@[i]),
                forall|i: int|
                    index_counter <= i < self@.len() ==> #[trigger] self@[i] == old(self)@[i],
            decreases self.inner@.len() - index_counter,
        {
            let bit = self.inner[index_counter] & rhs.inner[index_counter];
            let ghost earlier = self@;
            assert(self.inner@[index_counter as int].0 == earlier[index_counter as int]);
            self.inner.set(index_counter, bit);
            assert(self@ =~= earlier.update(index_counter as int, bit.0));
            index_counter += 1;
        }
    }
}

impl core::ops::BitOr for Bits {
    type Output = Bits;

    /// Position by position, as far as both strings reach.
    fn bitor(self, rhs: Bits) -> (r: Bits)
        ensures
            r@ == bits_or(self@, rhs@),
    {
        let mut new_bits: Vec<Bit> = Vec::new();
        let mut index_counter: usize = 0;
        while index_counter < self.inner.len() && index_counter < rhs.inner.len()
            invariant
                index_counter <= shorter(self@, rhs@),
                new_bits@.len() == index_counter,
                forall|i: int| 0 <= i < index_counter ==> new_bits@[i].0 == (self@[i] || rhs@[i]),
            decreases self.inner@.len() - index_counter,
        {
            new_bits.push(self.inner[index_counter] | rhs.inner[index_counter]);
            index_counter += 1;
        }
        Bits { inner: new_bits }
    }
}

impl BitOrSpecImpl for Bits {
    open spec fn obeys_bitor_spec() -> bool {
        false
    }

    open spec fn bitor_req(self, rhs: Bits) -> bool {
        true
    }

    open spec fn bitor_spec(self, rhs: Bits) -> Bits {
        arbitrary()
    }
}

impl core::ops::BitOrAssign for Bits {
    /// Position by position, as far as `rhs` reaches; the rest of `self`
    /// stays.
    fn bitor_assign(&mut self, rhs: Bits)
        ensures
            final(self)@ == or_onto(old(self)@, rhs@),
    {
        let mut index: usize = 0;
        while index < self.inner.len() && index < rhs.inner.len()
            invariant
                self@.len() == old(self)@.len(),
                index <= shorter(self@, rhs@),
                forall|i: int| 0 <= i < index ==> #[trigger] self@[i] == (old(self)@[i] || rhs@[i]),
                forall|i: int| index <= i < self@.len() ==> #[trigger] self@[i] == old(self)@[i],
            decreases self.inner@.len() - index,
        {
            let bit = self.inner[index] | rhs.inner[index];
            let ghost earlier = self@;
            assert(self.inner@[index as int].0 == earlier[index as int]);
            self.inner.set(index, bit);
            assert(self@ =~= earlier.update(index as int, bit.0));
            index += 1;
        }
    }
}

impl core::ops::BitXor for Bits {
    type Output = Bits;

    /// Position by position, as far as both strings reach.
    fn bitxor(self, rhs: Bits) -> (r: Bits)
        ensures
            r@ == bits_xor(self@, rhs@),
    {
        let mut new_bits: Vec<Bit> = Vec::new();
        let mut index_counter: usize = 0;
        while index_counter < self.inner.len() && index_counter < rhs.inner.len()
            invariant
                index_counter <= shorter(self@, rhs@),
                new_bits@.len() == index_counter,
                forall|i: int| 0 <= i < index_counter ==> new_bits@[i].0 == (self@[i] != rhs@[i]),
            decreases self.inner@.len() - index_counter,
        {
            new_bits.push(self.inner[index_counter] ^ rhs.inner[index_counter]);
            index_counter += 1;
        }
        Bits { inner: new_bits }
    }
}

impl BitXorSpecImpl for Bits {
    open spec fn obeys_bitxor_spec() -> bool {
        false
    }

    open spec fn bitxor_req(self, rhs: Bits) -> bool {
        true
    }

    open spec fn bitxor_spec(self, rhs: Bits) -> Bits {
        arbitrary()
    }
}

impl core::ops::BitXorAssign for Bits {
    /// Position by position, as far as `rhs` reaches; the rest of `self`
    /// stays.
    fn bitxor_assign(&mut self, rhs: Bits)
        ensures
            final(self)@ == xor_onto(old(self)@, rhs@),
    {
        let mut index: usize = 0;
        while index < self.inner.len() && index < rhs.inner.len()
            invariant
                self@.len() == old(self)@.len(),
                index <= shorter(self@, rhs@),
                forall|i: int| 0 <= i < index ==> #[trigger] self@[i] == (old(self)@[i] != rhs@[i]),
                forall|i: int| index <= i < self@.len() ==> #[trigger] self@[i] == old(self)@[i],
            decreases self.inner@.len() - index,
        {
            let bit = self.inner[index] ^ rhs.inner[index];
            let ghost earlier = self@;
            assert(self.inner@[index as int].0 == earlier[index as int]);
            self.inner.set(index, bit);
            assert(self@ =~= earlier.update(index as int, bit.0));
            index += 1;
        }
    }
}

impl core::ops::Not for Bits {
    type Output = Bits;

    /// The complement, bit by bit, at the same length.
    fn not(self) -> (r: Bits)
        ensures
            r@ == bits_not(self@),
    {
        let mut new_bits: Vec<Bit> = Vec::new();
        let mut index: usize = 0;
        while index < self.inner.len()
            invariant
                index <= self@.len(),
                new_bits@.len() == index,
                forall|i: int| 0 <= i < index ==> new_bits@[i].0 == !self@[i],
            decreases self.inner@.len() - index,
        {
            if self.inner[index].0 {
                new_bits.push(Bit(false));
            } else {
                new_bits.push(Bit(true));
            }
            index += 1;
        }
        Bits { inner: new_bits }
    }
}

impl NotSpecImpl for Bits {
    open spec fn obeys_not_spec() -> bool {
        false
    }

    open spec fn not_req(self) -> bool {
        true
    }

    open spec fn not_spec(self) -> Bits {
        arbitrary()
    }
}

impl Bits {
    /// The string without its first `count` bits and with as many cleared
    /// bits behind.
    fn moved(&self, count: usize) -> (r: Bits)
        requires
            count < self@.len(),
        ensures
            r@ == shifted(self@, count as nat),
    {
        let mut inner: Vec<Bit> = Vec::new();
        let length = self.inner.len();
        let mut index: usize = count;
        while index < length
            invariant
                length == self@.len(),
                count <= index <= length,
                inner@.len() == index - count,
                forall|i: int| 0 <= i < inner@.len() ==> inner@[i].0 == self@[count + i],
            decreases length - index,
        {
            inner.push(self.inner[index]);
            index += 1;
        }
        let mut added: usize = 0;
        while added < count
            invariant
                length == self@.len(),
                count < length,
                added <= count,
                inner@.len() == length - count + added,
                forall|i: int| 0 <= i < length - count ==> inner@[i].0 == self@[count + i],
                forall|i: int| length - count <= i < inner@.len() ==> !inner@[i].0,
            decreases count - added,
        {
            inner.push(Bit(false));
            added += 1;
        }
        Bits { inner }
    }
}

impl core::ops::Shl<u32> for &Bits {
    type Output = Bits;

    /// The first `rhs` bits leave and as many cleared bits follow at the end.
    /// The shift count must be below the length.
    fn shl(self, rhs: u32) -> (r: Bits)
        ensures
            r@ == shifted(self@, rhs as nat),
    {
        self.moved(rhs as usize)
    }
}

impl ShlSpecImpl<u32> for &Bits {
    open spec fn obeys_shl_spec() -> bool {
        false
    }

    open spec fn shl_req(self, rhs: u32) -> bool {
        rhs < self@.len()
    }

    open spec fn shl_spec(self, rhs: u32) -> Bits {
        arbitrary()
    }
}

impl core::ops::Shl<usize> for Bits {
    type Output = Bits;

    /// The first `rhs` bits leave and as many cleared bits follow at the end.
    /// The shift count must be below the length.
    fn shl(self, rhs: usize) -> (r: Bits)
        ensures
            r@ == shifted(self@, rhs as nat),
    {
        self.moved(rhs)
    }
}

impl ShlSpecImpl<usize> for Bits {
    open spec fn obeys_shl_spec() -> bool {
        false
    }

    open spec fn shl_req(self, rhs: usize) -> bool {
        rhs < self@.len()
    }

    open spec fn shl_spec(self, rhs: usize) -> Bits {
        arbitrary()
    }
}

impl core::ops::Shl<u32> for Bits {
    type Output = Bits;

    /// The first `rhs` bits leave and as many cleared bits follow at the end.
    /// The shift count must be below the length.
    fn shl(self, rhs: u32) -> (r: Bits)
        ensures
            r@ == shifted(self@, rhs as nat),
    {
        self.moved(rhs as usize)
    }
}

impl ShlSpecImpl<u32> for Bits {
    open spec fn obeys_shl_spec() -> bool {
        false
    }

    open spec fn shl_req(self, rhs: u32) -> bool {
        rhs < self@.len()
    }

    open spec fn shl_spec(self, rhs: u32) -> Bits {
        arbitrary()
    }
}

impl core::ops::Shr<usize> for Bits {
    type Output = Bits;

    /// The bits of a string move the same way in either shift: the first
    /// `rhs` bits leave and as many cleared bits follow at the end. The shift
    /// count must be below the length.
    fn shr(self, rhs: usize) -> (r: Bits)
        ensures
            r@ == shifted(self@, rhs as nat),
    {
        self.moved(rhs)
    }
}

impl ShrSpecImpl<usize> for Bits {
    open spec fn obeys_shr_spec() -> bool {
        false
    }

    open spec fn shr_req(self, rhs: usize) -> bool {
        rhs < self@.len()
    }

    open spec fn shr_spec(self, rhs: usize) -> Bits {
        arbitrary()
    }
}

impl core::ops::Shr<u32> for Bits {
    type Output = Bits;

    /// The bits of a string move the same way in either shift: the first
    /// `rhs` bits leave and as many cleared bits follow at the end. The shift
    /// count must be below the length.
    fn shr(self, rhs: u32) -> (r: Bits)
        ensures
            r@ == shifted(self@, rhs as nat),
    {
        self.moved(rhs as usize)
    }
}

impl ShrSpecImpl<u32> for Bits {
    open spec fn obeys_shr_spec() -> bool {
        false
    }

    open spec fn shr_req(self, rhs: u32) -> bool {
        rhs < self@.len()
    }

    open spec fn shr_spec(self, rhs: u32) -> Bits {
        arbitrary()
    }
}

impl num_traits::CheckedShl for Bits {
    /// The left shift where the count is below the length, and `None` where
    /// it is not.
    fn checked_shl(&self, rhs: u32) -> (r: Option<Bits>)
        ensures
            rhs < self@.len() ==> r.is_some() && r.unwrap()@ == shifted(self@, rhs as nat),
            rhs >= self@.len() ==> r.is_none(),
    {
        if rhs as usize >= self.inner.len() {
            None
        } else {
            Some(self << rhs)
        }
    }
}

impl num_traits::CheckedShr for Bits {
    /// The right shift where the count is below the length, and `None` where
    /// it is not. The bits move as in the left shift.
    fn checked_shr(&self, rhs: u32) -> (r: Option<Bits>)
        ensures
            rhs < self@.len() ==> r.is_some() && r.unwrap()@ == shifted(self@, rhs as nat),
            rhs >= self@.len() ==> r.is_none(),
    {
        if rhs as usize >= self.inner.len() {
            None
        } else {
            Some(self.moved(rhs as usize))
        }
    }
}

impl Bits {
    /// The width of the bit strings that `zero` and `one` make: eight bits
    /// for each byte that a `Bits` value itself takes in memory.
    pub open spec fn native_width() -> nat {
        8 * size_of::<Bits>()
    }
}

impl num_traits::Zero for Bits {
    /// A string of cleared bits at the native width.
    fn zero() -> (r: Bits)
        ensures
            r@ == zeros(Bits::native_width()),
    {
        let bytes = core::mem::size_of::<Bits>();
        let mut inner: Vec<Bit> = Vec::new();
        let mut done: usize = 0;
        while done < bytes
            invariant
                bytes == size_of::<Bits>(),
                done <= bytes,
                inner@.len() == 8 * done,
                forall|i: int| 0 <= i < inner@.len() ==> !inner@[i].0,
            decreases bytes - done,
        {
            let mut count: usize = 0;
            while count < 8
                invariant
                    count <= 8,
                    inner@.len() == 8 * done + count,
                    forall|i: int| 0 <= i < inner@.len() ==> !inner@[i].0,
                decreases 8 - count,
            {
                inner.push(Bit(false));
                count += 1;
            }
            done += 1;
        }
        Bits { inner }
    }

    /// Whether no bit is set.
    fn is_zero(&self) -> (r: bool)
        ensures
            r == (self@ == zeros(self@.len())),
    {
        let mut index: usize = 0;
        while index < self.inner.len()
            invariant
                index <= self@.len(),
                forall|i: int| 0 <= i < index ==> !self@[i],
            decreases self.inner@.len() - index,
        {
            if self.inner[index].0 {
                assert(self@[index as int] != zeros(self@.len())[index as int]);
                return false;
            }
            index += 1;
        }
        assert(self@ =~= zeros(self@.len()));
        true
    }
}

impl num_traits::One for Bits {
    /// The number one at the native width: only the last bit is set.
    fn one() -> (r: Bits)
        ensures
            r@.len() == Bits::native_width(),
            r@.len() > 0 ==> r@ == zeros((r@.len() - 1) as nat).push(true),
    {
        let mut output = <Bits as num_traits::Zero>::zero();
        let length = output.inner.len();
        let ghost blank = output@;
        if length > 0 {
            output.inner.set(length - 1, Bit(true));
            assert(output@ =~= blank.update(length - 1, true));
        }
        output
    }

    /// Whether the string stands for the number one: the last bit is set and
    /// no other.
    fn is_one(&self) -> (r: bool)
        ensures
            r == (self@.len() > 0 && self@ == zeros((self@.len() - 1) as nat).push(true)),
    {
        let length = self.inner.len();
        if length == 0 {
            return false;
        }
        let ghost wanted = zeros((length - 1) as nat).push(true);
        if !self.inner[length - 1].0 {
            assert(self@[length - 1] != wanted[length - 1]);
            return false;
        }
        let mut index: usize = 0;
        while index < length - 1
            invariant
                length == self@.len(),
                length > 0,
                index <= length - 1,
                wanted == zeros((length - 1) as nat).push(true),
                forall|i: int| 0 <= i < index ==> !self@[i],
            decreases length - 1 - index,
        {
            if self.inner[index].0 {
                assert(self@[index as int] != wanted[index as int]);
                return false;
            }
            index += 1;
        }
        assert(self@ =~= wanted);
        true
    }
}

impl core::ops::Mul for Bits {
    type Output = Bits;

    /// The product of the two numbers as a string of 128 bits. Each operand
    /// counts with its last 128 bits, and the product must fit.
    fn mul(self, rhs: Bits) -> (r: Bits)
        ensures
            r@ == ((bits_value(fit(self@, 128)) * bits_value(fit(rhs@, 128))) as u128).bit_seq(),
            r@.len() == 128,
            bits_value(r@) == bits_value(fit(self@, 128)) * bits_value(fit(rhs@, 128)),
    {
        let left = u128::from(&self);
        let right = u128::from(&rhs);
        let output_as_u128: u128 = left * right;
        proof {
            lemma_u128_value(output_as_u128);
        }
        Bits::from(output_as_u128)
    }
}

impl MulSpecImpl for Bits {
    open spec fn obeys_mul_spec() -> bool {
        false
    }

    open spec fn mul_req(self, rhs: Bits) -> bool {
        bits_value(fit(self@, 128)) * bits_value(fit(rhs@, 128)) <= u128::MAX
    }

    open spec fn mul_spec(self, rhs: Bits) -> Bits {
        arbitrary()
    }
}

impl num_traits::CheckedMul for Bits {
    /// The product as a string of 128 bits where it fits, and `None` where it
    /// does not.
    fn checked_mul(&self, v: &Bits) -> (r: Option<Bits>)
        ensures
            r.is_some() == (bits_value(fit(self@, 128)) * bits_value(fit(v@, 128)) <= u128::MAX),
            r.is_some() ==> r.unwrap()@ == ((bits_value(fit(self@, 128)) * bits_value(
                fit(v@, 128),
            )) as u128).bit_seq(),
    {
        match u128::from(self).checked_mul(u128::from(v)) {
            Some(product) => Some(Bits::from(product)),
            None => None,
        }
    }
}

impl core::ops::Add for Bits {
    type Output = Bits;

    /// Binary addition with carry from the last position to the first, over
    /// the positions that both strings reach. The carry out of the first
    /// position is dropped.
    fn add(self, rhs: Bits) -> (r: Bits)
        ensures
            r@ == bits_sum(self@, rhs@),
    {
        let length = if self.inner.len() <= rhs.inner.len() {
            self.inner.len()
        } else {
            rhs.inner.len()
        };
        let mut output_value = Bits::cleared(length);
        let mut carry = false;
        let mut index: usize = length;
        while index > 0
            invariant
                length == shorter(self@, rhs@),
                index <= length,
                output_value@.len() == length,
                carry == carry_into(self@, rhs@, index - 1),
                forall|i: int| index <= i < length ==> output_value@[i] == bits_sum(self@, rhs@)[i],
            decreases index,
        {
            index -= 1;
            let left = self.inner[index].0;
            let right = rhs.inner[index].0;
            let ghost earlier = output_value@;
            output_value.inner.set(index, Bit((left != right) != carry));
            assert(output_value@ =~= earlier.update(index as int, (left != right) != carry));
            carry = (left && right) || (left && carry) || (right && carry);
        }
        output_value
    }
}

impl AddSpecImpl for Bits {
    open spec fn obeys_add_spec() -> bool {
        false
    }

    open spec fn add_req(self, rhs: Bits) -> bool {
        true
    }

    open spec fn add_spec(self, rhs: Bits) -> Bits {
        arbitrary()
    }
}

impl BitMan for Bits {
    open spec fn bit_seq(&self) -> Seq<bool> {
        self@
    }

    fn bit_len(&self) -> (r: usize) {
        self.inner.len()
    }

    fn bit(&self, index: &u32) -> (r: Bit) {
        self.inner[*index as usize]
    }

    fn set_bit(&mut self, index: &u32, bit: &Bit) {
        self.inner.set(*index as usize, *bit);
    }

    fn bits(&self) -> (r: Bits) {
        self.copy()
    }

    fn set_bits(&mut self, index: u32, bits: &Bits) {
        let length = self.inner.len();
        let mut done: usize = 0;
        while done < bits.inner.len()
            invariant
                self@.len() == old(self)@.len(),
                length == self@.len(),
                self.inner@.len() == self@.len(),
                bits.inner@.len() == bits@.len(),
                index + bits@.len() <= self@.len(),
                done <= bits@.len(),
                self@ =~= splice(old(self)@, index as int, bits@.take(done as int)),
            decreases bits@.len() - done,
        {
            let ghost earlier = self@;
            self.inner.set(index as usize + done, bits.inner[done]);
            assert(self@ =~= earlier.update(index + done, bits@[done as int]));
            done += 1;
        }
    }
}

impl<T: Word> From<T> for Bits {
    /// The bits of an integer, most significant first.
    fn from(value_to_convert: T) -> (r: Bits)
        ensures
            r@ == value_to_convert.bit_seq(),
    {
        value_to_convert.bits()
    }
}

impl<T: Word> FromSpecImpl<T> for Bits {
    open spec fn obeys_from_spec() -> bool {
        false
    }

    open spec fn from_spec(v: T) -> Bits {
        arbitrary()
    }
}

impl From<Bit> for Bits {
    /// The string of one bit.
    fn from(value_to_convert: Bit) -> (r: Bits)
        ensures
            r@ == seq![value_to_convert.0],
    {
        let mut inner: Vec<Bit> = Vec::new();
        inner.push(value_to_convert);
        Bits { inner }
    }
}

impl FromSpecImpl<Bit> for Bits {
    open spec fn obeys_from_spec() -> bool {
        false
    }

    open spec fn from_spec(v: Bit) -> Bits {
        arbitrary()
    }
}

impl From<&Bits> for Bit {
    /// The last bit of the string, or the clear bit for the empty string.
    fn from(bits_to_convert: &Bits) -> (r: Bit) {
        let length = bits_to_convert.inner.len();
        if length == 0 {
            Bit(false)
        } else {
            bits_to_convert.inner[length - 1]
        }
    }
}

impl FromSpecImpl<&Bits> for Bit {
    open spec fn obeys_from_spec() -> bool {
        true
    }

    open spec fn from_spec(v: &Bits) -> Bit {
        Bit(fit(v@, 1)[0])
    }
}

} // verus!
