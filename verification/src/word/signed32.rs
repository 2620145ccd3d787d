//! Bit access to `i32`. The bits of a signed integer are those of its two's
//! complement pattern, and the first of them is the sign bit.
use crate::access::BitMan;
use crate::bits::Bits;
use crate::model::bits_value;
use crate::model::fit;
use crate::model::zeros;
use crate::word::assemble;
use crate::word::unsigned32::lemma_u32_mask_seq_decides;
use crate::word::unsigned32::lemma_u32_value;
use crate::word::unsigned32::u32_mask_seq;
use crate::word::unsigned32::u32_masked;
use crate::word::Word;
use vstd::prelude::*;
use vstd::std_specs::convert::FromSpec;
use vstd::std_specs::convert::FromSpecImpl;

verus! {

/// `num_traits::CheckedShl::checked_shl` on `i32`, which hands the call on to
/// `i32::checked_shl`: `value << rhs` where `rhs` is below the 32 bits of
/// the type, and `None` from there on. A shift into the sign bit is no
/// overflow.
#[verifier::external_body]
fn i32_checked_shl(value: i32, rhs: u32) -> (r: Option<i32>)
    ensures
        rhs < 32 ==> r == Some(value << rhs),
        rhs >= 32 ==> r.is_none(),
{
    num_traits::CheckedShl::checked_shl(&value, rhs)
}

/// Whether `x` meets the one-bit mask at offset `q`.
pub open spec fn i32_masked(x: i32, q: u32) -> bool {
    x & (1i32 << q) != 0
}

/// What setting, clearing and testing with one-bit masks comes to, and that
/// the masks find in `x` the bits of the `u32` with the same pattern.
proof fn lemma_i32_masks(x: i32, p: u32, q: u32)
    by (bit_vector)
    requires
        p < 32,
        q < 32,
    ensures
        i32_masked(x | (1i32 << p), q) == (p == q || i32_masked(x, q)),
        i32_masked(x & !(1i32 << p), q) == (p != q && i32_masked(x, q)),
        !i32_masked(0i32, q),
        i32_masked(x, q) == u32_masked(x as u32, q),
        (x as u32) as i32 == x,
{
}

impl Word for i32 {
    open spec fn width() -> nat {
        32
    }

    open spec fn has(&self, offset: u32) -> bool {
        offset < 32 && i32_masked(*self, offset)
    }

    fn bit_width() -> (r: u32) {
        i32::BITS
    }

    fn cleared() -> (r: i32) {
        proof {
            assert forall|q: u32| !0i32.has(q) by {
                if q < 32 {
                    lemma_i32_masks(0, 0, q);
                }
            }
        }
        0
    }

    fn test_at(&self, offset: u32) -> (r: bool) {
        match i32_checked_shl(1, offset) {
            Some(mask) => *self & mask != 0,
            None => false,
        }
    }

    fn write_at(&mut self, offset: u32, bit: bool) {
        let ghost before = *self;
        if let Some(mask) = i32_checked_shl(1, offset) {
            if bit {
                *self |= mask;
            } else {
                *self &= !mask;
            }
        }
        proof {
            assert forall|q: u32|
                #[trigger] self.has(q) == (if q == offset && offset < 32 {
                    bit
                } else {
                    before.has(q)
                }) by {
                if q < 32 && offset < 32 {
                    lemma_i32_masks(before, offset, q);
                }
            }
        }
    }

    proof fn lemma_bits_decide(a: i32, b: i32) {
        let sa = u32_mask_seq(a as u32);
        let sb = u32_mask_seq(b as u32);
        assert forall|i: int| 0 <= i < 32 implies sa[i] == sb[i] by {
            let q = (31 - i) as u32;
            lemma_i32_masks(a, 0, q);
            lemma_i32_masks(b, 0, q);
            assert(a.has(q) == b.has(q));
        }
        assert(sa =~= sb);
        lemma_u32_mask_seq_decides(a as u32, b as u32);
        lemma_i32_masks(a, 0, 0);
        lemma_i32_masks(b, 0, 0);
    }
}

/// The bits of an `i32` are those of the `u32` with the same two's complement
/// pattern, and stand for that number.
pub proof fn lemma_i32_value(x: i32)
    ensures
        x.bit_seq() == (x as u32).bit_seq(),
        bits_value(x.bit_seq()) == x as u32,
{
    let theirs = (x as u32).bit_seq();
    assert forall|i: int| 0 <= i < 32 implies x.bit_seq()[i] == theirs[i] by {
        lemma_i32_masks(x, 0, (31 - i) as u32);
    }
    assert(x.bit_seq() =~= theirs);
    lemma_u32_value(x as u32);
}

/// All bits of the `i32` zero are clear.
pub proof fn lemma_i32_zero_bits()
    ensures
        0i32.bit_seq() == zeros(32),
{
    assert forall|i: int| 0 <= i < 32 implies !0i32.bit_seq()[i] by {
        lemma_i32_masks(0, 0, (31 - i) as u32);
    }
    assert(0i32.bit_seq() =~= zeros(32));
}

impl From<&Bits> for i32 {
    /// The number whose two's complement pattern the bits are: of a string
    /// longer than 32 bits only the last 32 count, and a shorter one
    /// is filled up with cleared bits in front.
    fn from(bits_to_convert: &Bits) -> (r: i32)
        ensures
            r as u32 == bits_value(fit(bits_to_convert@, 32)),
    {
        let r: i32 = assemble(bits_to_convert);
        proof {
            lemma_i32_value(r);
            lemma_i32_masks(r, 0, 0);
        }
        r
    }
}

impl FromSpecImpl<&Bits> for i32 {
    open spec fn obeys_from_spec() -> bool {
        true
    }

    open spec fn from_spec(v: &Bits) -> i32 {
        (bits_value(fit(v@, 32)) as u32) as i32
    }
}

/// The bits of an `i32`, converted back, give the same `i32`.
pub proof fn lemma_i32_round_trip(x: i32, bits: Bits)
    requires
        bits@ == x.bit_seq(),
    ensures
        <i32 as FromSpec<&Bits>>::from_spec(&bits) == x,
{
    assert(fit(bits@, 32) =~= x.bit_seq());
    lemma_i32_value(x);
    lemma_i32_masks(x, 0, 0);
}

} // verus!
