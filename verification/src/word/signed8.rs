//! Bit access to `i8`. The bits of a signed integer are those of its two's
//! complement pattern, and the first of them is the sign bit.
use crate::access::BitMan;
use crate::bits::Bits;
use crate::model::bits_value;
use crate::model::fit;
use crate::model::zeros;
use crate::word::assemble;
use crate::word::unsigned8::lemma_u8_mask_seq_decides;
use crate::word::unsigned8::lemma_u8_value;
use crate::word::unsigned8::u8_mask_seq;
use crate::word::unsigned8::u8_masked;
use crate::word::Word;
use vstd::prelude::*;
use vstd::std_specs::convert::FromSpec;
use vstd::std_specs::convert::FromSpecImpl;

verus! {

/// `num_traits::CheckedShl::checked_shl` on `i8`, which hands the call on to
/// `i8::checked_shl`: `value << rhs` where `rhs` is below the 8 bits of
/// the type, and `None` from there on. A shift into the sign bit is no
/// overflow.
#[verifier::external_body]
fn i8_checked_shl(value: i8, rhs: u32) -> (r: Option<i8>)
    ensures
        rhs < 8 ==> r == Some(value << rhs),
        rhs >= 8 ==> r.is_none(),
{
    num_traits::CheckedShl::checked_shl(&value, rhs)
}

/// Whether `x` meets the one-bit mask at offset `q`.
pub open spec fn i8_masked(x: i8, q: u32) -> bool {
    x & (1i8 << q) != 0
}

/// What setting, clearing and testing with one-bit masks comes to, and that
/// the masks find in `x` the bits of the `u8` with the same pattern.
proof fn lemma_i8_masks(x: i8, p: u32, q: u32)
    by (bit_vector)
    requires
        p < 8,
        q < 8,
    ensures
        i8_masked(x | (1i8 << p), q) == (p == q || i8_masked(x, q)),
        i8_masked(x & !(1i8 << p), q) == (p != q && i8_masked(x, q)),
        !i8_masked(0i8, q),
        i8_masked(x, q) == u8_masked(x as u8, q),
        (x as u8) as i8 == x,
{
}

impl Word for i8 {
    open spec fn width() -> nat {
        8
    }

    open spec fn has(&self, offset: u32) -> bool {
        offset < 8 && i8_masked(*self, offset)
    }

    fn bit_width() -> (r: u32) {
        i8::BITS
    }

    fn cleared() -> (r: i8) {
        proof {
            assert forall|q: u32| !0i8.has(q) by {
                if q < 8 {
                    lemma_i8_masks(0, 0, q);
                }
            }
        }
        0
    }

    fn test_at(&self, offset: u32) -> (r: bool) {
        match i8_checked_shl(1, offset) {
            Some(mask) => *self & mask != 0,
            None => false,
        }
    }

    fn write_at(&mut self, offset: u32, bit: bool) {
        let ghost before = *self;
        if let Some(mask) = i8_checked_shl(1, offset) {
            if bit {
                *self |= mask;
            } else {
                *self &= !mask;
            }
        }
        proof {
            assert forall|q: u32|
                #[trigger] self.has(q) == (if q == offset && offset < 8 {
                    bit
                } else {
                    before.has(q)
                }) by {
                if q < 8 && offset < 8 {
                    lemma_i8_masks(before, offset, q);
                }
            }
        }
    }

    proof fn lemma_bits_decide(a: i8, b: i8) {
        let sa = u8_mask_seq(a as u8);
        let sb = u8_mask_seq(b as u8);
        assert forall|i: int| 0 <= i < 8 implies sa[i] == sb[i] by {
            let q = (7 - i) as u32;
            lemma_i8_masks(a, 0, q);
            lemma_i8_masks(b, 0, q);
            assert(a.has(q) == b.has(q));
        }
        assert(sa =~= sb);
        lemma_u8_mask_seq_decides(a as u8, b as u8);
        lemma_i8_masks(a, 0, 0);
        lemma_i8_masks(b, 0, 0);
    }
}

/// The bits of an `i8` are those of the `u8` with the same two's complement
/// pattern, and stand for that number.
pub proof fn lemma_i8_value(x: i8)
    ensures
        x.bit_seq() == (x as u8).bit_seq(),
        bits_value(x.bit_seq()) == x as u8,
{
    let theirs = (x as u8).bit_seq();
    assert forall|i: int| 0 <= i < 8 implies x.bit_seq()[i] == theirs[i] by {
        lemma_i8_masks(x, 0, (7 - i) as u32);
    }
    assert(x.bit_seq() =~= theirs);
    lemma_u8_value(x as u8);
}

/// All bits of the `i8` zero are clear.
pub proof fn lemma_i8_zero_bits()
    ensures
        0i8.bit_seq() == zeros(8),
{
    assert forall|i: int| 0 <= i < 8 implies !0i8.bit_seq()[i] by {
        lemma_i8_masks(0, 0, (7 - i) as u32);
    }
    assert(0i8.bit_seq() =~= zeros(8));
}

impl From<&Bits> for i8 {
    /// The number whose two's complement pattern the bits are: of a string
    /// longer than 8 bits only the last 8 count, and a shorter one
    /// is filled up with cleared bits in front.
    fn from(bits_to_convert: &Bits) -> (r: i8)
        ensures
            r as u8 == bits_value(fit(bits_to_convert@, 8)),
    {
        let r: i8 = assemble(bits_to_convert);
        proof {
            lemma_i8_value(r);
            lemma_i8_masks(r, 0, 0);
        }
        r
    }
}

impl FromSpecImpl<&Bits> for i8 {
    open spec fn obeys_from_spec() -> bool {
        true
    }

    open spec fn from_spec(v: &Bits) -> i8 {
        (bits_value(fit(v@, 8)) as u8) as i8
    }
}

/// The bits of an `i8`, converted back, give the same `i8`.
pub proof fn lemma_i8_round_trip(x: i8, bits: Bits)
    requires
        bits@ == x.bit_seq(),
    ensures
        <i8 as FromSpec<&Bits>>::from_spec(&bits) == x,
{
    assert(fit(bits@, 8) =~= x.bit_seq());
    lemma_i8_value(x);
    lemma_i8_masks(x, 0, 0);
}

} // verus!
