//! Bit access to `i128`. The bits of a signed integer are those of its two's
//! complement pattern, and the first of them is the sign bit.
use crate::access::BitMan;
use crate::bits::Bits;
use crate::model::bits_value;
use crate::model::fit;
use crate::model::zeros;
use crate::word::assemble;
use crate::word::unsigned128::lemma_u128_mask_seq_decides;
use crate::word::unsigned128::lemma_u128_value;
use crate::word::unsigned128::u128_mask_seq;
use crate::word::unsigned128::u128_masked;
use crate::word::Word;
use vstd::prelude::*;
use vstd::std_specs::convert::FromSpec;
use vstd::std_specs::convert::FromSpecImpl;

verus! {

/// `num_traits::CheckedShl::checked_shl` on `i128`, which hands the call on to
/// `i128::checked_shl`: `value << rhs` where `rhs` is below the 128 bits of
/// the type, and `None` from there on. A shift into the sign bit is no
/// overflow.
#[verifier::external_body]
fn i128_checked_shl(value: i128, rhs: u32) -> (r: Option<i128>)
    ensures
        rhs < 128 ==> r == Some(value << rhs),
        rhs >= 128 ==> r.is_none(),
{
    num_traits::CheckedShl::checked_shl(&value, rhs)
}

/// Whether `x` meets the one-bit mask at offset `q`.
pub open spec fn i128_masked(x: i128, q: u32) -> bool {
    x & (1i128 << q) != 0
}

/// What setting, clearing and testing with one-bit masks comes to, and that
/// the masks find in `x` the bits of the `u128` with the same pattern.
proof fn lemma_i128_masks(x: i128, p: u32, q: u32)
    by (bit_vector)
    requires
        p < 128,
        q < 128,
    ensures
        i128_masked(x | (1i128 << p), q) == (p == q || i128_masked(x, q)),
        i128_masked(x & !(1i128 << p), q) == (p != q && i128_masked(x, q)),
        !i128_masked(0i128, q),
        i128_masked(x, q) == u128_masked(x as u128, q),
        (x as u128) as i128 == x,
{
}

impl Word for i128 {
    open spec fn width() -> nat {
        128
    }

    open spec fn has(&self, offset: u32) -> bool {
        offset < 128 && i128_masked(*self, offset)
    }

    fn bit_width() -> (r: u32) {
        i128::BITS
    }

    fn cleared() -> (r: i128) {
        proof {
            assert forall|q: u32| !0i128.has(q) by {
                if q < 128 {
                    lemma_i128_masks(0, 0, q);
                }
            }
        }
        0
    }

    fn test_at(&self, offset: u32) -> (r: bool) {
        match i128_checked_shl(1, offset) {
            Some(mask) => *self & mask != 0,
            None => false,
        }
    }

    fn write_at(&mut self, offset: u32, bit: bool) {
        let ghost before = *self;
        if let Some(mask) = i128_checked_shl(1, offset) {
            if bit {
                *self |= mask;
            } else {
                *self &= !mask;
            }
        }
        proof {
            assert forall|q: u32|
                #[trigger] self.has(q) == (if q == offset && offset < 128 {
                    bit
                } else {
                    before.has(q)
                }) by {
                if q < 128 && offset < 128 {
                    lemma_i128_masks(before, offset, q);
                }
            }
        }
    }

    proof fn lemma_bits_decide(a: i128, b: i128) {
        let sa = u128_mask_seq(a as u128);
        let sb = u128_mask_seq(b as u128);
        assert forall|i: int| 0 <= i < 128 implies sa[i] == sb[i] by {
            let q = (127 - i) as u32;
            lemma_i128_masks(a, 0, q);
            lemma_i128_masks(b, 0, q);
            assert(a.has(q) == b.has(q));
        }
        assert(sa =~= sb);
        lemma_u128_mask_seq_decides(a as u128, b as u128);
        lemma_i128_masks(a, 0, 0);
        lemma_i128_masks(b, 0, 0);
    }
}

/// The bits of an `i128` are those of the `u128` with the same two's complement
/// pattern, and stand for that number.
pub proof fn lemma_i128_value(x: i128)
    ensures
        x.bit_seq() == (x as u128).bit_seq(),
        bits_value(x.bit_seq()) == x as u128,
{
    let theirs = (x as u128).bit_seq();
    assert forall|i: int| 0 <= i < 128 implies x.bit_seq()[i] == theirs[i] by {
        lemma_i128_masks(x, 0, (127 - i) as u32);
    }
    assert(x.bit_seq() =~= theirs);
    lemma_u128_value(x as u128);
}

/// All bits of the `i128` zero are clear.
pub proof fn lemma_i128_zero_bits()
    ensures
        0i128.bit_seq() == zeros(128),
{
    assert forall|i: int| 0 <= i < 128 implies !0i128.bit_seq()[i] by {
        lemma_i128_masks(0, 0, (127 - i) as u32);
    }
    assert(0i128.bit_seq() =~= zeros(128));
}

impl From<&Bits> for i128 {
    /// The number whose two's complement pattern the bits are: of a string
    /// longer than 128 bits only the last 128 count, and a shorter one
    /// is filled up with cleared bits in front.
    fn from(bits_to_convert: &Bits) -> (r: i128)
        ensures
            r as u128 == bits_value(fit(bits_to_convert@, 128)),
    {
        let r: i128 = assemble(bits_to_convert);
        proof {
            lemma_i128_value(r);
            lemma_i128_masks(r, 0, 0);
        }
        r
    }
}

impl FromSpecImpl<&Bits> for i128 {
    open spec fn obeys_from_spec() -> bool {
        true
    }

    open spec fn from_spec(v: &Bits) -> i128 {
        (bits_value(fit(v@, 128)) as u128) as i128
    }
}

/// The bits of an `i128`, converted back, give the same `i128`.
pub proof fn lemma_i128_round_trip(x: i128, bits: Bits)
    requires
        bits@ == x.bit_seq(),
    ensures
        <i128 as FromSpec<&Bits>>::from_spec(&bits) == x,
{
    assert(fit(bits@, 128) =~= x.bit_seq());
    lemma_i128_value(x);
    lemma_i128_masks(x, 0, 0);
}

} // verus!
