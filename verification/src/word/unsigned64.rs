//! Bit access to `u64`.
use crate::access::BitMan;
use crate::bits::Bits;
use crate::model::bits_sum;
use crate::model::bits_value;
use crate::model::digit;
use crate::model::fit;
use crate::model::lemma_sum_value;
use crate::model::lemma_value_bound;
use crate::model::lemma_value_by_halving;
use crate::model::zeros;
use crate::word::assemble;
use crate::word::Word;
use vstd::prelude::*;
use vstd::std_specs::convert::FromSpec;
use vstd::std_specs::convert::FromSpecImpl;

verus! {

/// `num_traits::CheckedShl::checked_shl` on `u64`, which hands the call on to
/// `u64::checked_shl`: `value << rhs` where `rhs` is below the 64 bits of
/// the type, and `None` from there on.
#[verifier::external_body]
fn u64_checked_shl(value: u64, rhs: u32) -> (r: Option<u64>)
    ensures
        rhs < 64 ==> r == Some(value << rhs),
        rhs >= 64 ==> r.is_none(),
{
    num_traits::CheckedShl::checked_shl(&value, rhs)
}

/// Whether `x` meets the one-bit mask at offset `q`.
pub open spec fn u64_masked(x: u64, q: u32) -> bool {
    x & (1u64 << q) != 0
}

/// The bits that the one-bit masks find in `x`, most significant first.
pub open spec fn u64_mask_seq(x: u64) -> Seq<bool> {
    Seq::new(64, |i: int| u64_masked(x, (63 - i) as u32))
}

/// What setting, clearing and testing with one-bit masks comes to, and how
/// the bits of `x` make up its value: each shift to the right halves it.
proof fn lemma_u64_masks(x: u64, p: u32, q: u32)
    by (bit_vector)
    requires
        p < 64,
        q < 64,
    ensures
        u64_masked(x | (1u64 << p), q) == (p == q || u64_masked(x, q)),
        u64_masked(x & !(1u64 << p), q) == (p != q && u64_masked(x, q)),
        !u64_masked(0u64, q),
        q < 63 ==> x >> q == 2 * (x >> ((q + 1) as u32)) + (if u64_masked(x, q) {
            1u64
        } else {
            0u64
        }),
        x >> 63u32 == (if u64_masked(x, 63) {
            1u64
        } else {
            0u64
        }),
        x >> 0u32 == x,
{
}

proof fn lemma_u64_mask_value(x: u64)
    ensures
        bits_value(u64_mask_seq(x)) == x,
{
    let halved = |k: int| if 0 <= k < 64 { (x >> (k as u32)) as nat } else { 0nat };
    let s = u64_mask_seq(x);
    assert forall|k: int|
        0 <= k < 64 implies #[trigger] halved(k) == 2 * halved(k + 1) + digit(s[63 - k]) by {
        lemma_u64_masks(x, 0, k as u32);
    }
    lemma_value_by_halving(s, halved);
    lemma_u64_masks(x, 0, 0);
}

/// Two `u64` values in which the masks find the same bits are equal.
pub proof fn lemma_u64_mask_seq_decides(a: u64, b: u64)
    requires
        u64_mask_seq(a) == u64_mask_seq(b),
    ensures
        a == b,
{
    lemma_u64_mask_value(a);
    lemma_u64_mask_value(b);
}

impl Word for u64 {
    open spec fn width() -> nat {
        64
    }

    open spec fn has(&self, offset: u32) -> bool {
        offset < 64 && u64_masked(*self, offset)
    }

    fn bit_width() -> (r: u32) {
        u64::BITS
    }

    fn cleared() -> (r: u64) {
        proof {
            assert forall|q: u32| !0u64.has(q) by {
                if q < 64 {
                    lemma_u64_masks(0, 0, q);
                }
            }
        }
        0
    }

    fn test_at(&self, offset: u32) -> (r: bool) {
        match u64_checked_shl(1, offset) {
            Some(mask) => *self & mask != 0,
            None => false,
        }
    }

    fn write_at(&mut self, offset: u32, bit: bool) {
        let ghost before = *self;
        if let Some(mask) = u64_checked_shl(1, offset) {
            if bit {
                *self |= mask;
            } else {
                *self &= !mask;
            }
        }
        proof {
            assert forall|q: u32|
                #[trigger] self.has(q) == (if q == offset && offset < 64 {
                    bit
                } else {
                    before.has(q)
                }) by {
                if q < 64 && offset < 64 {
                    lemma_u64_masks(before, offset, q);
                }
            }
        }
    }

    proof fn lemma_bits_decide(a: u64, b: u64) {
        let sa = u64_mask_seq(a);
        let sb = u64_mask_seq(b);
        assert forall|i: int| 0 <= i < 64 implies sa[i] == sb[i] by {
            let q = (63 - i) as u32;
            assert(a.has(q) == b.has(q));
        }
        assert(sa =~= sb);
        lemma_u64_mask_seq_decides(a, b);
    }
}

/// The bits of a `u64` stand for its value.
pub proof fn lemma_u64_value(x: u64)
    ensures
        bits_value(x.bit_seq()) == x,
{
    assert(x.bit_seq() =~= u64_mask_seq(x));
    lemma_u64_mask_value(x);
}

/// All bits of the `u64` zero are clear.
pub proof fn lemma_u64_zero_bits()
    ensures
        0u64.bit_seq() == zeros(64),
{
    assert forall|i: int| 0 <= i < 64 implies !0u64.bit_seq()[i] by {
        lemma_u64_masks(0, 0, (63 - i) as u32);
    }
    assert(0u64.bit_seq() =~= zeros(64));
}

impl From<&Bits> for u64 {
    /// The number that the bits stand for, as far as it fits: of a string
    /// longer than 64 bits only the last 64 count.
    fn from(bits_to_convert: &Bits) -> (r: u64)
        ensures
            r == bits_value(fit(bits_to_convert@, 64)),
    {
        let r: u64 = assemble(bits_to_convert);
        proof {
            lemma_u64_value(r);
        }
        r
    }
}

impl FromSpecImpl<&Bits> for u64 {
    open spec fn obeys_from_spec() -> bool {
        true
    }

    open spec fn from_spec(v: &Bits) -> u64 {
        bits_value(fit(v@, 64)) as u64
    }
}

/// The bits of a `u64`, converted back, give the same `u64`.
pub proof fn lemma_u64_round_trip(x: u64, bits: Bits)
    requires
        bits@ == x.bit_seq(),
    ensures
        <u64 as FromSpec<&Bits>>::from_spec(&bits) == x,
{
    assert(fit(bits@, 64) =~= x.bit_seq());
    lemma_u64_value(x);
}

/// The bits of two `u64` values, added as bit strings and converted back,
/// give the sum of the two values where that sum is a `u64`.
pub proof fn lemma_u64_sum(x: u64, y: u64, sum: Bits)
    requires
        x + y <= u64::MAX,
        sum@ == bits_sum(x.bit_seq(), y.bit_seq()),
    ensures
        <u64 as FromSpec<&Bits>>::from_spec(&sum) == x + y,
{
    lemma_sum_value(x.bit_seq(), y.bit_seq());
    lemma_u64_value(x);
    lemma_u64_value(y);
    lemma_u64_value(u64::MAX);
    lemma_value_bound(u64::MAX.bit_seq());
    assert(fit(sum@, 64) =~= sum@);
}

} // verus!
