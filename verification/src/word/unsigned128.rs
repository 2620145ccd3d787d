//! Bit access to `u128`.
use crate::access::BitMan;
use crate::bits::Bits;
use crate::model::bits_sum;
use crate::model::bits_value;
use crate::model::digit;
use crate::model::fit;
use crate::model::lemma_sum_value;
use crate::model::lemma_value_bound;
use crate::model::lemma_value_by_halving;
use crate::model::zeros;
use crate::word::assemble;
use crate::word::Word;
use vstd::prelude::*;
use vstd::std_specs::convert::FromSpec;
use vstd::std_specs::convert::FromSpecImpl;

verus! {

/// `num_traits::CheckedShl::checked_shl` on `u128`, which hands the call on to
/// `u128::checked_shl`: `value << rhs` where `rhs` is below the 128 bits of
/// the type, and `None` from there on.
#[verifier::external_body]
fn u128_checked_shl(value: u128, rhs: u32) -> (r: Option<u128>)
    ensures
        rhs < 128 ==> r == Some(value << rhs),
        rhs >= 128 ==> r.is_none(),
{
    num_traits::CheckedShl::checked_shl(&value, rhs)
}

/// Whether `x` meets the one-bit mask at offset `q`.
pub open spec fn u128_masked(x: u128, q: u32) -> bool {
    x & (1u128 << q) != 0
}

/// The bits that the one-bit masks find in `x`, most significant first.
pub open spec fn u128_mask_seq(x: u128) -> Seq<bool> {
    Seq::new(128, |i: int| u128_masked(x, (127 - i) as u32))
}

/// What setting, clearing and testing with one-bit masks comes to, and how
/// the bits of `x` make up its value: each shift to the right halves it.
proof fn lemma_u128_masks(x: u128, p: u32, q: u32)
    by (bit_vector)
    requires
        p < 128,
        q < 128,
    ensures
        u128_masked(x | (1u128 << p), q) == (p == q || u128_masked(x, q)),
        u128_masked(x & !(1u128 << p), q) == (p != q && u128_masked(x, q)),
        !u128_masked(0u128, q),
        q < 127 ==> x >> q == 2 * (x >> ((q + 1) as u32)) + (if u128_masked(x, q) {
            1u128
        } else {
            0u128
        }),
        x >> 127u32 == (if u128_masked(x, 127) {
            1u128
        } else {
            0u128
        }),
        x >> 0u32 == x,
{
}

proof fn lemma_u128_mask_value(x: u128)
    ensures
        bits_value(u128_mask_seq(x)) == x,
{
    let halved = |k: int| if 0 <= k < 128 { (x >> (k as u32)) as nat } else { 0nat };
    let s = u128_mask_seq(x);
    assert forall|k: int|
        0 <= k < 128 implies #[trigger] halved(k) == 2 * halved(k + 1) + digit(s[127 - k]) by {
        lemma_u128_masks(x, 0, k as u32);
    }
    lemma_value_by_halving(s, halved);
    lemma_u128_masks(x, 0, 0);
}

/// Two `u128` values in which the masks find the same bits are equal.
pub proof fn lemma_u128_mask_seq_decides(a: u128, b: u128)
    requires
        u128_mask_seq(a) == u128_mask_seq(b),
    ensures
        a == b,
{
    lemma_u128_mask_value(a);
    lemma_u128_mask_value(b);
}

impl Word for u128 {
    open spec fn width() -> nat {
        128
    }

    open spec fn has(&self, offset: u32) -> bool {
        offset < 128 && u128_masked(*self, offset)
    }

    fn bit_width() -> (r: u32) {
        u128::BITS
    }

    fn cleared() -> (r: u128) {
        proof {
            assert forall|q: u32| !0u128.has(q) by {
                if q < 128 {
                    lemma_u128_masks(0, 0, q);
                }
            }
        }
        0
    }

    fn test_at(&self, offset: u32) -> (r: bool) {
        match u128_checked_shl(1, offset) {
            Some(mask) => *self & mask != 0,
            None => false,
        }
    }

    fn write_at(&mut self, offset: u32, bit: bool) {
        let ghost before = *self;
        if let Some(mask) = u128_checked_shl(1, offset) {
            if bit {
                *self |= mask;
            } else {
                *self &= !mask;
            }
        }
        proof {
            assert forall|q: u32|
                #[trigger] self.has(q) == (if q == offset && offset < 128 {
                    bit
                } else {
                    before.has(q)
                }) by {
                if q < 128 && offset < 128 {
                    lemma_u128_masks(before, offset, q);
                }
            }
        }
    }

    proof fn lemma_bits_decide(a: u128, b: u128) {
        let sa = u128_mask_seq(a);
        let sb = u128_mask_seq(b);
        assert forall|i: int| 0 <= i < 128 implies sa[i] == sb[i] by {
            let q = (127 - i) as u32;
            assert(a.has(q) == b.has(q));
        }
        assert(sa =~= sb);
        lemma_u128_mask_seq_decides(a, b);
    }
}

/// The bits of a `u128` stand for its value.
pub proof fn lemma_u128_value(x: u128)
    ensures
        bits_value(x.bit_seq()) == x,
{
    assert(x.bit_seq() =~= u128_mask_seq(x));
    lemma_u128_mask_value(x);
}

/// All bits of the `u128` zero are clear.
pub proof fn lemma_u128_zero_bits()
    ensures
        0u128.bit_seq() == zeros(128),
{
    assert forall|i: int| 0 <= i < 128 implies !0u128.bit_seq()[i] by {
        lemma_u128_masks(0, 0, (127 - i) as u32);
    }
    assert(0u128.bit_seq() =~= zeros(128));
}

impl From<&Bits> for u128 {
    /// The number that the bits stand for, as far as it fits: of a string
    /// longer than 128 bits only the last 128 count.
    fn from(bits_to_convert: &Bits) -> (r: u128)
        ensures
            r == bits_value(fit(bits_to_convert@, 128)),
    {
        let r: u128 = assemble(bits_to_convert);
        proof {
            lemma_u128_value(r);
        }
        r
    }
}

impl FromSpecImpl<&Bits> for u128 {
    open spec fn obeys_from_spec() -> bool {
        true
    }

    open spec fn from_spec(v: &Bits) -> u128 {
        bits_value(fit(v@, 128)) as u128
    }
}

/// The bits of a `u128`, converted back, give the same `u128`.
pub proof fn lemma_u128_round_trip(x: u128, bits: Bits)
    requires
        bits@ == x.bit_seq(),
    ensures
        <u128 as FromSpec<&Bits>>::from_spec(&bits) == x,
{
    assert(fit(bits@, 128) =~= x.bit_seq());
    lemma_u128_value(x);
}

/// The bits of two `u128` values, added as bit strings and converted back,
/// give the sum of the two values where that sum is a `u128`.
pub proof fn lemma_u128_sum(x: u128, y: u128, sum: Bits)
    requires
        x + y <= u128::MAX,
        sum@ == bits_sum(x.bit_seq(), y.bit_seq()),
    ensures
        <u128 as FromSpec<&Bits>>::from_spec(&sum) == x + y,
{
    lemma_sum_value(x.bit_seq(), y.bit_seq());
    lemma_u128_value(x);
    lemma_u128_value(y);
    lemma_u128_value(u128::MAX);
    lemma_value_bound(u128::MAX.bit_seq());
    assert(fit(sum@, 128) =~= sum@);
}

} // verus!
