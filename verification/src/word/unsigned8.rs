//! Bit access to `u8`.
use crate::access::BitMan;
use crate::bits::Bits;
use crate::model::bits_sum;
use crate::model::bits_value;
use crate::model::digit;
use crate::model::fit;
use crate::model::lemma_sum_value;
use crate::model::lemma_value_bound;
use crate::model::lemma_value_by_halving;
use crate::model::zeros;
use crate::word::assemble;
use crate::word::Word;
use vstd::prelude::*;
use vstd::std_specs::convert::FromSpec;
use vstd::std_specs::convert::FromSpecImpl;

verus! {

/// `num_traits::CheckedShl::checked_shl` on `u8`, which hands the call on to
/// `u8::checked_shl`: `value << rhs` where `rhs` is below the 8 bits of
/// the type, and `None` from there on.
#[verifier::external_body]
fn u8_checked_shl(value: u8, rhs: u32) -> (r: Option<u8>)
    ensures
        rhs < 8 ==> r == Some(value << rhs),
        rhs >= 8 ==> r.is_none(),
{
    num_traits::CheckedShl::checked_shl(&value, rhs)
}

/// Whether `x` meets the one-bit mask at offset `q`.
pub open spec fn u8_masked(x: u8, q: u32) -> bool {
    x & (1u8 << q) != 0
}

/// The bits that the one-bit masks find in `x`, most significant first.
pub open spec fn u8_mask_seq(x: u8) -> Seq<bool> {
    Seq::new(8, |i: int| u8_masked(x, (7 - i) as u32))
}

/// What setting, clearing and testing with one-bit masks comes to, and how
/// the bits of `x` make up its value: each shift to the right halves it.
proof fn lemma_u8_masks(x: u8, p: u32, q: u32)
    by (bit_vector)
    requires
        p < 8,
        q < 8,
    ensures
        u8_masked(x | (1u8 << p), q) == (p == q || u8_masked(x, q)),
        u8_masked(x & !(1u8 << p), q) == (p != q && u8_masked(x, q)),
        !u8_masked(0u8, q),
        q < 7 ==> x >> q == 2 * (x >> ((q + 1) as u32)) + (if u8_masked(x, q) {
            1u8
        } else {
            0u8
        }),
        x >> 7u32 == (if u8_masked(x, 7) {
            1u8
        } else {
            0u8
        }),
        x >> 0u32 == x,
{
}

proof fn lemma_u8_mask_value(x: u8)
    ensures
        bits_value(u8_mask_seq(x)) == x,
{
    let halved = |k: int| if 0 <= k < 8 { (x >> (k as u32)) as nat } else { 0nat };
    let s = u8_mask_seq(x);
    assert forall|k: int|
        0 <= k < 8 implies #[trigger] halved(k) == 2 * halved(k + 1) + digit(s[7 - k]) by {
        lemma_u8_masks(x, 0, k as u32);
    }
    lemma_value_by_halving(s, halved);
    lemma_u8_masks(x, 0, 0);
}

/// Two `u8` values in which the masks find the same bits are equal.
pub proof fn lemma_u8_mask_seq_decides(a: u8, b: u8)
    requires
        u8_mask_seq(a) == u8_mask_seq(b),
    ensures
        a == b,
{
    lemma_u8_mask_value(a);
    lemma_u8_mask_value(b);
}

impl Word for u8 {
    open spec fn width() -> nat {
        8
    }

    open spec fn has(&self, offset: u32) -> bool {
        offset < 8 && u8_masked(*self, offset)
    }

    fn bit_width() -> (r: u32) {
        u8::BITS
    }

    fn cleared() -> (r: u8) {
        proof {
            assert forall|q: u32| !0u8.has(q) by {
                if q < 8 {
                    lemma_u8_masks(0, 0, q);
                }
            }
        }
        0
    }

    fn test_at(&self, offset: u32) -> (r: bool) {
        match u8_checked_shl(1, offset) {
            Some(mask) => *self & mask != 0,
            None => false,
        }
    }

    fn write_at(&mut self, offset: u32, bit: bool) {
        let ghost before = *self;
        if let Some(mask) = u8_checked_shl(1, offset) {
            if bit {
                *self |= mask;
            } else {
                *self &= !mask;
            }
        }
        proof {
            assert forall|q: u32|
                #[trigger] self.has(q) == (if q == offset && offset < 8 {
                    bit
                } else {
                    before.has(q)
                }) by {
                if q < 8 && offset < 8 {
                    lemma_u8_masks(before, offset, q);
                }
            }
        }
    }

    proof fn lemma_bits_decide(a: u8, b: u8) {
        let sa = u8_mask_seq(a);
        let sb = u8_mask_seq(b);
        assert forall|i: int| 0 <= i < 8 implies sa[i] == sb[i] by {
            let q = (7 - i) as u32;
            assert(a.has(q) == b.has(q));
        }
        assert(sa =~= sb);
        lemma_u8_mask_seq_decides(a, b);
    }
}

/// The bits of a `u8` stand for its value.
pub proof fn lemma_u8_value(x: u8)
    ensures
        bits_value(x.bit_seq()) == x,
{
    assert(x.bit_seq() =~= u8_mask_seq(x));
    lemma_u8_mask_value(x);
}

/// All bits of the `u8` zero are clear.
pub proof fn lemma_u8_zero_bits()
    ensures
        0u8.bit_seq() == zeros(8),
{
    assert forall|i: int| 0 <= i < 8 implies !0u8.bit_seq()[i] by {
        lemma_u8_masks(0, 0, (7 - i) as u32);
    }
    assert(0u8.bit_seq() =~= zeros(8));
}

impl From<&Bits> for u8 {
    /// The number that the bits stand for, as far as it fits: of a string
    /// longer than 8 bits only the last 8 count.
    fn from(bits_to_convert: &Bits) -> (r: u8)
        ensures
            r == bits_value(fit(bits_to_convert@, 8)),
    {
        let r: u8 = assemble(bits_to_convert);
        proof {
            lemma_u8_value(r);
        }
        r
    }
}

impl FromSpecImpl<&Bits> for u8 {
    open spec fn obeys_from_spec() -> bool {
        true
    }

    open spec fn from_spec(v: &Bits) -> u8 {
        bits_value(fit(v@, 8)) as u8
    }
}

/// The bits of a `u8`, converted back, give the same `u8`.
pub proof fn lemma_u8_round_trip(x: u8, bits: Bits)
    requires
        bits@ == x.bit_seq(),
    ensures
        <u8 as FromSpec<&Bits>>::from_spec(&bits) == x,
{
    assert(fit(bits@, 8) =~= x.bit_seq());
    lemma_u8_value(x);
}

/// The bits of two `u8` values, added as bit strings and converted back,
/// give the sum of the two values where that sum is a `u8`.
pub proof fn lemma_u8_sum(x: u8, y: u8, sum: Bits)
    requires
        x + y <= u8::MAX,
        sum@ == bits_sum(x.bit_seq(), y.bit_seq()),
    ensures
        <u8 as FromSpec<&Bits>>::from_spec(&sum) == x + y,
{
    lemma_sum_value(x.bit_seq(), y.bit_seq());
    lemma_u8_value(x);
    lemma_u8_value(y);
    lemma_u8_value(u8::MAX);
    lemma_value_bound(u8::MAX.bit_seq());
    assert(fit(sum@, 8) =~= sum@);
}

} // verus!
