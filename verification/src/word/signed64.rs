//! Bit access to `i64`. The bits of a signed integer are those of its two's
//! complement pattern, and the first of them is the sign bit.
use crate::access::BitMan;
use crate::bits::Bits;
use crate::model::bits_value;
use crate::model::fit;
use crate::model::zeros;
use crate::word::assemble;
use crate::word::unsigned64::lemma_u64_mask_seq_decides;
use crate::word::unsigned64::lemma_u64_value;
use crate::word::unsigned64::u64_mask_seq;
use crate::word::unsigned64::u64_masked;
use crate::word::Word;
use vstd::prelude::*;
use vstd::std_specs::convert::FromSpec;
use vstd::std_specs::convert::FromSpecImpl;

verus! {

/// `num_traits::CheckedShl::checked_shl` on `i64`, which hands the call on to
/// `i64::checked_shl`: `value << rhs` where `rhs` is below the 64 bits of
/// the type, and `None` from there on. A shift into the sign bit is no
/// overflow.
#[verifier::external_body]
fn i64_checked_shl(value: i64, rhs: u32) -> (r: Option<i64>)
    ensures
        rhs < 64 ==> r == Some(value << rhs),
        rhs >= 64 ==> r.is_none(),
{
    num_traits::CheckedShl::checked_shl(&value, rhs)
}

/// Whether `x` meets the one-bit mask at offset `q`.
pub open spec fn i64_masked(x: i64, q: u32) -> bool {
    x & (1i64 << q) != 0
}

/// What setting, clearing and testing with one-bit masks comes to, and that
/// the masks find in `x` the bits of the `u64` with the same pattern.
proof fn lemma_i64_masks(x: i64, p: u32, q: u32)
    by (bit_vector)
    requires
        p < 64,
        q < 64,
    ensures
        i64_masked(x | (1i64 << p), q) == (p == q || i64_masked(x, q)),
        i64_masked(x & !(1i64 << p), q) == (p != q && i64_masked(x, q)),
        !i64_masked(0i64, q),
        i64_masked(x, q) == u64_masked(x as u64, q),
        (x as u64) as i64 == x,
{
}

impl Word for i64 {
    open spec fn width() -> nat {
        64
    }

    open spec fn has(&self, offset: u32) -> bool {
        offset < 64 && i64_masked(*self, offset)
    }

    fn bit_width() -> (r: u32) {
        i64::BITS
    }

    fn cleared() -> (r: i64) {
        proof {
            assert forall|q: u32| !0i64.has(q) by {
                if q < 64 {
                    lemma_i64_masks(0, 0, q);
                }
            }
        }
        0
    }

    fn test_at(&self, offset: u32) -> (r: bool) {
        match i64_checked_shl(1, offset) {
            Some(mask) => *self & mask != 0,
            None => false,
        }
    }

    fn write_at(&mut self, offset: u32, bit: bool) {
        let ghost before = *self;
        if let Some(mask) = i64_checked_shl(1, offset) {
            if bit {
                *self |= mask;
            } else {
                *self &= !mask;
            }
        }
        proof {
            assert forall|q: u32|
                #[trigger] self.has(q) == (if q == offset && offset < 64 {
                    bit
                } else {
                    before.has(q)
                }) by {
                if q < 64 && offset < 64 {
                    lemma_i64_masks(before, offset, q);
                }
            }
        }
    }

    proof fn lemma_bits_decide(a: i64, b: i64) {
        let sa = u64_mask_seq(a as u64);
        let sb = u64_mask_seq(b as u64);
        assert forall|i: int| 0 <= i < 64 implies sa[i] == sb[i] by {
            let q = (63 - i) as u32;
            lemma_i64_masks(a, 0, q);
            lemma_i64_masks(b, 0, q);
            assert(a.has(q) == b.has(q));
        }
        assert(sa =~= sb);
        lemma_u64_mask_seq_decides(a as u64, b as u64);
        lemma_i64_masks(a, 0, 0);
        lemma_i64_masks(b, 0, 0);
    }
}

/// The bits of an `i64` are those of the `u64` with the same two's complement
/// pattern, and stand for that number.
pub proof fn lemma_i64_value(x: i64)
    ensures
        x.bit_seq() == (x as u64).bit_seq(),
        bits_value(x.bit_seq()) == x as u64,
{
    let theirs = (x as u64).bit_seq();
    assert forall|i: int| 0 <= i < 64 implies x.bit_seq()[i] == theirs[i] by {
        lemma_i64_masks(x, 0, (63 - i) as u32);
    }
    assert(x.bit_seq() =~= theirs);
    lemma_u64_value(x as u64);
}

/// All bits of the `i64` zero are clear.
pub proof fn lemma_i64_zero_bits()
    ensures
        0i64.bit_seq() == zeros(64),
{
    assert forall|i: int| 0 <= i < 64 implies !0i64.bit_seq()[i] by {
        lemma_i64_masks(0, 0, (63 - i) as u32);
    }
    assert(0i64.bit_seq() =~= zeros(64));
}

impl From<&Bits> for i64 {
    /// The number whose two's complement pattern the bits are: of a string
    /// longer than 64 bits only the last 64 count, and a shorter one
    /// is filled up with cleared bits in front.
    fn from(bits_to_convert: &Bits) -> (r: i64)
        ensures
            r as u64 == bits_value(fit(bits_to_convert@, 64)),
    {
        let r: i64 = assemble(bits_to_convert);
        proof {
            lemma_i64_value(r);
            lemma_i64_masks(r, 0, 0);
        }
        r
    }
}

impl FromSpecImpl<&Bits> for i64 {
    open spec fn obeys_from_spec() -> bool {
        true
    }

    open spec fn from_spec(v: &Bits) -> i64 {
        (bits_value(fit(v@, 64)) as u64) as i64
    }
}

/// The bits of an `i64`, converted back, give the same `i64`.
pub proof fn lemma_i64_round_trip(x: i64, bits: Bits)
    requires
        bits@ == x.bit_seq(),
    ensures
        <i64 as FromSpec<&Bits>>::from_spec(&bits) == x,
{
    assert(fit(bits@, 64) =~= x.bit_seq());
    lemma_i64_value(x);
    lemma_i64_masks(x, 0, 0);
}

} // verus!
