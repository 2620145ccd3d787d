//! Fixed-width integers as values with bits: the twelve primitive integer
//! types, and what is common to them.
use crate::access::BitMan;
use crate::bit::Bit;
use crate::bits::Bits;
use crate::model::bools;
use crate::model::fit;
use crate::model::splice;
use vstd::prelude::*;

pub mod signed128;
pub mod signed16;
pub mod signed32;
pub mod signed64;
pub mod signed8;
pub mod signed_size;
pub mod unsigned128;
pub mod unsigned16;
pub mod unsigned32;
pub mod unsigned64;
pub mod unsigned8;
pub mod unsigned_size;

verus! {

/// An integer of a fixed width whose bits are reached through one-bit masks.
/// A bit is named by its offset: the number of places it lies above the least
/// significant bit. An offset at or beyond the width names no bit.
pub trait Word: Copy {
    /// The number of bits of the type.
    spec fn width() -> nat;

    /// Whether the bit at `offset` is set.
    spec fn has(&self, offset: u32) -> bool;

    /// The number of bits of the type.
    fn bit_width() -> (r: u32)
        ensures
            r == Self::width(),
            r >= 1,
    ;

    /// The value with no bit set.
    fn cleared() -> (r: Self)
        ensures
            forall|q: u32| !r.has(q),
    ;

    /// Whether the bit at `offset` is set. There is no bit at an offset
    /// beyond the width, and the answer for it is `false`.
    fn test_at(&self, offset: u32) -> (r: bool)
        ensures
            r == self.has(offset),
    ;

    /// Sets or clears the bit at `offset`. An offset beyond the width leaves
    /// the value as it is.
    fn write_at(&mut self, offset: u32, bit: bool)
        ensures
            forall|q: u32|
                #[trigger] final(self).has(q) == (if q == offset && offset < Self::width() {
                    bit
                } else {
                    old(self).has(q)
                }),
    ;

    /// Two values with the same bits are the same value.
    proof fn lemma_bits_decide(a: Self, b: Self)
        requires
            forall|q: u32| q < Self::width() ==> a.has(q) == b.has(q),
        ensures
            a == b,
    ;
}

impl<T: Word> BitMan for T {
    open spec fn bit_seq(&self) -> Seq<bool> {
        Seq::new(T::width(), |i: int| self.has((T::width() - 1 - i) as u32))
    }

    fn bit_len(&self) -> (r: usize) {
        T::bit_width() as usize
    }

    fn bit(&self, index: &u32) -> (r: Bit) {
        let offset: u32 = (T::bit_width() - 1) - *index;
        Bit(self.test_at(offset))
    }

    fn set_bit(&mut self, index: &u32, bit: &Bit) {
        let offset: u32 = (T::bit_width() - 1) - *index;
        self.write_at(offset, bit.0);
    }

    fn bits(&self) -> (r: Bits) {
        let width = T::bit_width();
        let mut out: Vec<Bit> = Vec::new();
        let mut index: u32 = 0;
        while index < width
            invariant
                width == T::width(),
                index <= width,
                out@.len() == index,
                forall|j: int| 0 <= j < index ==> out@[j].0 == self.bit_seq()[j],
            decreases width - index,
        {
            out.push(Bit(self.test_at(width - 1 - index)));
            index += 1;
        }
        Bits::new(out.as_slice())
    }

    fn set_bits(&mut self, index: u32, bits: &Bits) {
        let width = T::bit_width();
        let source: &Vec<Bit> = core::ops::Deref::deref(bits);
        let n = source.len();
        let ghost before = *self;
        let mut k: usize = 0;
        while k < n
            invariant
                width == T::width(),
                n == bits@.len(),
                bools(source@) == bits@,
                index + n <= width,
                k <= n,
                self.bit_seq() =~= splice(before.bit_seq(), index as int, bits@.take(k as int)),
            decreases n - k,
        {
            let offset: u32 = width - 1 - (index + k as u32);
            let ghost earlier = *self;
            self.write_at(offset, source[k].0);
            proof {
                let wanted = splice(before.bit_seq(), index as int, bits@.take(k + 1));
                assert forall|i: int| 0 <= i < width implies self.bit_seq()[i] == wanted[i] by {
                    assert(self.has((width - 1 - i) as u32) == (if i == index + k {
                        bits@[k as int]
                    } else {
                        earlier.has((width - 1 - i) as u32)
                    }));
                    assert(earlier.bit_seq()[i] == earlier.has((width - 1 - i) as u32));
                }
            }
            k += 1;
        }
    }
}

/// The value whose bits are those of `bits` at the width of `T`: each bit of
/// `bits` is written into a cleared value, the last onto the last. Where
/// `bits` is longer than `T` is wide, its leading bits are left out.
pub fn assemble<T: Word>(bits: &Bits) -> (r: T)
    ensures
        r.bit_seq() == fit(bits@, T::width()),
{
    let mut value = T::cleared();
    let width = T::bit_width() as usize;
    let source: &Vec<Bit> = core::ops::Deref::deref(bits);
    let n = source.len();
    let skip: usize = if n > width { n - width } else { 0 };
    let ghost target = fit(bits@, width as nat);
    let mut k: usize = n;
    while k > skip
        invariant
            n == bits@.len(),
            bools(source@) == bits@,
            width == T::width(),
            width <= u32::MAX,
            skip == (if n > width { n - width } else { 0 }),
            skip <= k <= n,
            target == fit(bits@, width as nat),
            forall|q: u32| q < n - k ==> value.has(q) == target[width - 1 - q],
            forall|q: u32| q >= n - k ==> !value.has(q),
        decreases k,
    {
        k -= 1;
        let offset: u32 = (n - 1 - k) as u32;
        value.write_at(offset, source[k].0);
    }
    value
}

} // verus!
