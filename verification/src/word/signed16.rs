//! Bit access to `i16`. The bits of a signed integer are those of its two's
//! complement pattern, and the first of them is the sign bit.
use crate::access::BitMan;
use crate::bits::Bits;
use crate::model::bits_value;
use crate::model::fit;
use crate::model::zeros;
use crate::word::assemble;
use crate::word::unsigned16::lemma_u16_mask_seq_decides;
use crate::word::unsigned16::lemma_u16_value;
use crate::word::unsigned16::u16_mask_seq;
use crate::word::unsigned16::u16_masked;
use crate::word::Word;
use vstd::prelude::*;
use vstd::std_specs::convert::FromSpec;
use vstd::std_specs::convert::FromSpecImpl;

verus! {

/// `num_traits::CheckedShl::checked_shl` on `i16`, which hands the call on to
/// `i16::checked_shl`: `value << rhs` where `rhs` is below the 16 bits of
/// the type, and `None` from there on. A shift into the sign bit is no
/// overflow.
#[verifier::external_body]
fn i16_checked_shl(value: i16, rhs: u32) -> (r: Option<i16>)
    ensures
        rhs < 16 ==> r == Some(value << rhs),
        rhs >= 16 ==> r.is_none(),
{
    num_traits::CheckedShl::checked_shl(&value, rhs)
}

/// Whether `x` meets the one-bit mask at offset `q`.
pub open spec fn i16_masked(x: i16, q: u32) -> bool {
    x & (1i16 << q) != 0
}

/// What setting, clearing and testing with one-bit masks comes to, and that
/// the masks find in `x` the bits of the `u16` with the same pattern.
proof fn lemma_i16_masks(x: i16, p: u32, q: u32)
    by (bit_vector)
    requires
        p < 16,
        q < 16,
    ensures
        i16_masked(x | (1i16 << p), q) == (p == q || i16_masked(x, q)),
        i16_masked(x & !(1i16 << p), q) == (p != q && i16_masked(x, q)),
        !i16_masked(0i16, q),
        i16_masked(x, q) == u16_masked(x as u16, q),
        (x as u16) as i16 == x,
{
}

impl Word for i16 {
    open spec fn width() -> nat {
        16
    }

    open spec fn has(&self, offset: u32) -> bool {
        offset < 16 && i16_masked(*self, offset)
    }

    fn bit_width() -> (r: u32) {
        i16::BITS
    }

    fn cleared() -> (r: i16) {
        proof {
            assert forall|q: u32| !0i16.has(q) by {
                if q < 16 {
                    lemma_i16_masks(0, 0, q);
                }
            }
        }
        0
    }

    fn test_at(&self, offset: u32) -> (r: bool) {
        match i16_checked_shl(1, offset) {
            Some(mask) => *self & mask != 0,
            None => false,
        }
    }

    fn write_at(&mut self, offset: u32, bit: bool) {
        let ghost before = *self;
        if let Some(mask) = i16_checked_shl(1, offset) {
            if bit {
                *self |= mask;
            } else {
                *self &= !mask;
            }
        }
        proof {
            assert forall|q: u32|
                #[trigger] self.has(q) == (if q == offset && offset < 16 {
                    bit
                } else {
                    before.has(q)
                }) by {
                if q < 16 && offset < 16 {
                    lemma_i16_masks(before, offset, q);
                }
            }
        }
    }

    proof fn lemma_bits_decide(a: i16, b: i16) {
        let sa = u16_mask_seq(a as u16);
        let sb = u16_mask_seq(b as u16);
        assert forall|i: int| 0 <= i < 16 implies sa[i] == sb[i] by {
            let q = (15 - i) as u32;
            lemma_i16_masks(a, 0, q);
            lemma_i16_masks(b, 0, q);
            assert(a.has(q) == b.has(q));
        }
        assert(sa =~= sb);
        lemma_u16_mask_seq_decides(a as u16, b as u16);
        lemma_i16_masks(a, 0, 0);
        lemma_i16_masks(b, 0, 0);
    }
}

/// The bits of an `i16` are those of the `u16` with the same two's complement
/// pattern, and stand for that number.
pub proof fn lemma_i16_value(x: i16)
    ensures
        x.bit_seq() == (x as u16).bit_seq(),
        bits_value(x.bit_seq()) == x as u16,
{
    let theirs = (x as u16).bit_seq();
    assert forall|i: int| 0 <= i < 16 implies x.bit_seq()[i] == theirs[i] by {
        lemma_i16_masks(x, 0, (15 - i) as u32);
    }
    assert(x.bit_seq() =~= theirs);
    lemma_u16_value(x as u16);
}

/// All bits of the `i16` zero are clear.
pub proof fn lemma_i16_zero_bits()
    ensures
        0i16.bit_seq() == zeros(16),
{
    assert forall|i: int| 0 <= i < 16 implies !0i16.bit_seq()[i] by {
        lemma_i16_masks(0, 0, (15 - i) as u32);
    }
    assert(0i16.bit_seq() =~= zeros(16));
}

impl From<&Bits> for i16 {
    /// The number whose two's complement pattern the bits are: of a string
    /// longer than 16 bits only the last 16 count, and a shorter one
    /// is filled up with cleared bits in front.
    fn from(bits_to_convert: &Bits) -> (r: i16)
        ensures
            r as u16 == bits_value(fit(bits_to_convert@, 16)),
    {
        let r: i16 = assemble(bits_to_convert);
        proof {
            lemma_i16_value(r);
            lemma_i16_masks(r, 0, 0);
        }
        r
    }
}

impl FromSpecImpl<&Bits> for i16 {
    open spec fn obeys_from_spec() -> bool {
        true
    }

    open spec fn from_spec(v: &Bits) -> i16 {
        (bits_value(fit(v@, 16)) as u16) as i16
    }
}

/// The bits of an `i16`, converted back, give the same `i16`.
pub proof fn lemma_i16_round_trip(x: i16, bits: Bits)
    requires
        bits@ == x.bit_seq(),
    ensures
        <i16 as FromSpec<&Bits>>::from_spec(&bits) == x,
{
    assert(fit(bits@, 16) =~= x.bit_seq());
    lemma_i16_value(x);
    lemma_i16_masks(x, 0, 0);
}

} // verus!
