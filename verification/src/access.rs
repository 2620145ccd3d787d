//! Indexed access to the bits of a value.
use crate::bit::Bit;
use crate::bits::Bits;
use crate::model::splice;
use vstd::prelude::*;

verus! {

/// A value whose bits can be read and written by index. Index 0 is the most
/// significant bit.
pub trait BitMan: Sized {
    /// The bits of the value, most significant first.
    spec fn bit_seq(&self) -> Seq<bool>;

    /// The number of bits of the value.
    fn bit_len(&self) -> (r: usize)
        ensures
            r == self.bit_seq().len(),
    ;

    /// The bit at `index`.
    fn bit(&self, index: &u32) -> (r: Bit)
        requires
            *index < self.bit_seq().len(),
        ensures
            r.0 == self.bit_seq()[*index as int],
    ;

    /// Sets or clears the bit at `index` and leaves the others as they are.
    fn set_bit(&mut self, index: &u32, bit: &Bit)
        requires
            *index < old(self).bit_seq().len(),
        ensures
            final(self).bit_seq() == old(self).bit_seq().update(*index as int, bit.0),
    ;

    /// All bits of the value, in order.
    fn bits(&self) -> (r: Bits)
        ensures
            r@ == self.bit_seq(),
    ;

    /// Writes `bits` over the value's bits from `index` on, one position per
    /// bit.
    fn set_bits(&mut self, index: u32, bits: &Bits)
        requires
            index + bits@.len() <= old(self).bit_seq().len(),
        ensures
            final(self).bit_seq() == splice(old(self).bit_seq(), index as int, bits@),
    ;

    /// The bit at `index`, or `None` where the value has no bit there.
    fn checked_bit(&self, index: &u32) -> (r: Option<Bit>)
        ensures
            *index < self.bit_seq().len() ==> r == Some(Bit(self.bit_seq()[*index as int])),
            *index >= self.bit_seq().len() ==> r.is_none(),
    {
        if (*index as usize) < self.bit_len() {
            Some(self.bit(index))
        } else {
            None
        }
    }

    /// Sets or clears the bit at `index` and says so with `true`. Where the
    /// value has no bit there, it is left untouched and the answer is
    /// `false`.
    fn checked_set_bit(&mut self, index: &u32, bit: &Bit) -> (done: bool)
        ensures
            done == (*index < old(self).bit_seq().len()),
            done ==> final(self).bit_seq() == old(self).bit_seq().update(*index as int, bit.0),
            !done ==> *final(self) == *old(self),
    {
        if (*index as usize) < self.bit_len() {
            self.set_bit(index, bit);
            true
        } else {
            false
        }
    }

    /// Writes `bits` over the value's bits from `index` on and says so with
    /// `true`. Where they do not all fit, the value is left untouched and the
    /// answer is `false`.
    fn checked_set_bits(&mut self, index: u32, bits: &Bits) -> (done: bool)
        ensures
            done == (index + bits@.len() <= old(self).bit_seq().len()),
            done ==> final(self).bit_seq() == splice(old(self).bit_seq(), index as int, bits@),
            !done ==> *final(self) == *old(self),
    {
        let wanted: &Vec<Bit> = core::ops::Deref::deref(bits);
        let count = wanted.len();
        let length = self.bit_len();
        if count <= length && index as usize <= length - count {
            self.set_bits(index, bits);
            true
        } else {
            false
        }
    }
}

/// Writing a bit and reading it back gives the bit that was written, and the
/// write changes no other bit: this holds of every state that `set_bit` may
/// leave behind.
pub proof fn lemma_set_bit_then_bit<T: BitMan>(before: T, after: T, index: u32, bit: Bit)
    requires
        index < before.bit_seq().len(),
        after.bit_seq() == before.bit_seq().update(index as int, bit.0),
    ensures
        after.bit_seq().len() == before.bit_seq().len(),
        after.bit_seq()[index as int] == bit.0,
        forall|other: int|
            0 <= other < before.bit_seq().len() && other != index ==> after.bit_seq()[other]
                == before.bit_seq()[other],
{
}

} // verus!
