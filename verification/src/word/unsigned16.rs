//! Bit access to `u16`.
use crate::access::BitMan;
use crate::bits::Bits;
use crate::model::bits_sum;
use crate::model::bits_value;
use crate::model::digit;
use crate::model::fit;
use crate::model::lemma_sum_value;
use crate::model::lemma_value_bound;
use crate::model::lemma_value_by_halving;
use crate::model::zeros;
use crate::word::assemble;
use crate::word::Word;
use vstd::prelude::*;
use vstd::std_specs::convert::FromSpec;
use vstd::std_specs::convert::FromSpecImpl;

verus! {

/// `num_traits::CheckedShl::checked_shl` on `u16`, which hands the call on to
/// `u16::checked_shl`: `value << rhs` where `rhs` is below the 16 bits of
/// the type, and `None` from there on.
#[verifier::external_body]
fn u16_checked_shl(value: u16, rhs: u32) -> (r: Option<u16>)
    ensures
        rhs < 16 ==> r == Some(value << rhs),
        rhs >= 16 ==> r.is_none(),
{
    num_traits::CheckedShl::checked_shl(&value, rhs)
}

/// Whether `x` meets the one-bit mask at offset `q`.
pub open spec fn u16_masked(x: u16, q: u32) -> bool {
    x & (1u16 << q) != 0
}

/// The bits that the one-bit masks find in `x`, most significant first.
pub open spec fn u16_mask_seq(x: u16) -> Seq<bool> {
    Seq::new(16, |i: int| u16_masked(x, (15 - i) as u32))
}

/// What setting, clearing and testing with one-bit masks comes to, and how
/// the bits of `x` make up its value: each shift to the right halves it.
proof fn lemma_u16_masks(x: u16, p: u32, q: u32)
    by (bit_vector)
    requires
        p < 16,
        q < 16,
    ensures
        u16_masked(x | (1u16 << p), q) == (p == q || u16_masked(x, q)),
        u16_masked(x & !(1u16 << p), q) == (p != q && u16_masked(x, q)),
        !u16_masked(0u16, q),
        q < 15 ==> x >> q == 2 * (x >> ((q + 1) as u32)) + (if u16_masked(x, q) {
            1u16
        } else {
            0u16
        }),
        x >> 15u32 == (if u16_masked(x, 15) {
            1u16
        } else {
            0u16
        }),
        x >> 0u32 == x,
{
}

proof fn lemma_u16_mask_value(x: u16)
    ensures
        bits_value(u16_mask_seq(x)) == x,
{
    let halved = |k: int| if 0 <= k < 16 { (x >> (k as u32)) as nat } else { 0nat };
    let s = u16_mask_seq(x);
    assert forall|k: int|
        0 <= k < 16 implies #[trigger] halved(k) == 2 * halved(k + 1) + digit(s[15 - k]) by {
        lemma_u16_masks(x, 0, k as u32);
    }
    lemma_value_by_halving(s, halved);
    lemma_u16_masks(x, 0, 0);
}

/// Two `u16` values in which the masks find the same bits are equal.
pub proof fn lemma_u16_mask_seq_decides(a: u16, b: u16)
    requires
        u16_mask_seq(a) == u16_mask_seq(b),
    ensures
        a == b,
{
    lemma_u16_mask_value(a);
    lemma_u16_mask_value(b);
}

impl Word for u16 {
    open spec fn width() -> nat {
        16
    }

    open spec fn has(&self, offset: u32) -> bool {
        offset < 16 && u16_masked(*self, offset)
    }

    fn bit_width() -> (r: u32) {
        u16::BITS
    }

    fn cleared() -> (r: u16) {
        proof {
            assert forall|q: u32| !0u16.has(q) by {
                if q < 16 {
                    lemma_u16_masks(0, 0, q);
                }
            }
        }
        0
    }

    fn test_at(&self, offset: u32) -> (r: bool) {
        match u16_checked_shl(1, offset) {
            Some(mask) => *self & mask != 0,
            None => false,
        }
    }

    fn write_at(&mut self, offset: u32, bit: bool) {
        let ghost before = *self;
        if let Some(mask) = u16_checked_shl(1, offset) {
            if bit {
                *self |= mask;
            } else {
                *self &= !mask;
            }
        }
        proof {
            assert forall|q: u32|
                #[trigger] self.has(q) == (if q == offset && offset < 16 {
                    bit
                } else {
                    before.has(q)
                }) by {
                if q < 16 && offset < 16 {
                    lemma_u16_masks(before, offset, q);
                }
            }
        }
    }

    proof fn lemma_bits_decide(a: u16, b: u16) {
        let sa = u16_mask_seq(a);
        let sb = u16_mask_seq(b);
        assert forall|i: int| 0 <= i < 16 implies sa[i] == sb[i] by {
            let q = (15 - i) as u32;
            assert(a.has(q) == b.has(q));
        }
        assert(sa =~= sb);
        lemma_u16_mask_seq_decides(a, b);
    }
}

/// The bits of a `u16` stand for its value.
pub proof fn lemma_u16_value(x: u16)
    ensures
        bits_value(x.bit_seq()) == x,
{
    assert(x.bit_seq() =~= u16_mask_seq(x));
    lemma_u16_mask_value(x);
}

/// All bits of the `u16` zero are clear.
pub proof fn lemma_u16_zero_bits()
    ensures
        0u16.bit_seq() == zeros(16),
{
    assert forall|i: int| 0 <= i < 16 implies !0u16.bit_seq()[i] by {
        lemma_u16_masks(0, 0, (15 - i) as u32);
    }
    assert(0u16.bit_seq() =~= zeros(16));
}

impl From<&Bits> for u16 {
    /// The number that the bits stand for, as far as it fits: of a string
    /// longer than 16 bits only the last 16 count.
    fn from(bits_to_convert: &Bits) -> (r: u16)
        ensures
            r == bits_value(fit(bits_to_convert@, 16)),
    {
        let r: u16 = assemble(bits_to_convert);
        proof {
            lemma_u16_value(r);
        }
        r
    }
}

impl FromSpecImpl<&Bits> for u16 {
    open spec fn obeys_from_spec() -> bool {
        true
    }

    open spec fn from_spec(v: &Bits) -> u16 {
        bits_value(fit(v@, 16)) as u16
    }
}

/// The bits of a `u16`, converted back, give the same `u16`.
pub proof fn lemma_u16_round_trip(x: u16, bits: Bits)
    requires
        bits@ == x.bit_seq(),
    ensures
        <u16 as FromSpec<&Bits>>::from_spec(&bits) == x,
{
    assert(fit(bits@, 16) =~= x.bit_seq());
    lemma_u16_value(x);
}

/// The bits of two `u16` values, added as bit strings and converted back,
/// give the sum of the two values where that sum is a `u16`.
pub proof fn lemma_u16_sum(x: u16, y: u16, sum: Bits)
    requires
        x + y <= u16::MAX,
        sum@ == bits_sum(x.bit_seq(), y.bit_seq()),
    ensures
        <u16 as FromSpec<&Bits>>::from_spec(&sum) == x + y,
{
    lemma_sum_value(x.bit_seq(), y.bit_seq());
    lemma_u16_value(x);
    lemma_u16_value(y);
    lemma_u16_value(u16::MAX);
    lemma_value_bound(u16::MAX.bit_seq());
    assert(fit(sum@, 16) =~= sum@);
}

} // verus!
