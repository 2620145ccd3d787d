//! Bit access to `u32`.
use crate::access::BitMan;
use crate::bits::Bits;
use crate::model::bits_sum;
use crate::model::bits_value;
use crate::model::digit;
use crate::model::fit;
use crate::model::lemma_sum_value;
use crate::model::lemma_value_bound;
use crate::model::lemma_value_by_halving;
use crate::model::zeros;
use crate::word::assemble;
use crate::word::Word;
use vstd::prelude::*;
use vstd::std_specs::convert::FromSpec;
use vstd::std_specs::convert::FromSpecImpl;

verus! {

/// `num_traits::CheckedShl::checked_shl` on `u32`, which hands the call on to
/// `u32::checked_shl`: `value << rhs` where `rhs` is below the 32 bits of
/// the type, and `None` from there on.
#[verifier::external_body]
fn u32_checked_shl(value: u32, rhs: u32) -> (r: Option<u32>)
    ensures
        rhs < 32 ==> r == Some(value << rhs),
        rhs >= 32 ==> r.is_none(),
{
    num_traits::CheckedShl::checked_shl(&value, rhs)
}

/// Whether `x` meets the one-bit mask at offset `q`.
pub open spec fn u32_masked(x: u32, q: u32) -> bool {
    x & (1u32 << q) != 0
}

/// The bits that the one-bit masks find in `x`, most significant first.
pub open spec fn u32_mask_seq(x: u32) -> Seq<bool> {
    Seq::new(32, |i: int| u32_masked(x, (31 - i) as u32))
}

/// What setting, clearing and testing with one-bit masks comes to, and how
/// the bits of `x` make up its value: each shift to the right halves it.
proof fn lemma_u32_masks(x: u32, p: u32, q: u32)
    by (bit_vector)
    requires
        p < 32,
        q < 32,
    ensures
        u32_masked(x | (1u32 << p), q) == (p == q || u32_masked(x, q)),
        u32_masked(x & !(1u32 << p), q) == (p != q && u32_masked(x, q)),
        !u32_masked(0u32, q),
        q < 31 ==> x >> q == 2 * (x >> ((q + 1) as u32)) + (if u32_masked(x, q) {
            1u32
        } else {
            0u32
        }),
        x >> 31u32 == (if u32_masked(x, 31) {
            1u32
        } else {
            0u32
        }),
        x >> 0u32 == x,
{
}

proof fn lemma_u32_mask_value(x: u32)
    ensures
        bits_value(u32_mask_seq(x)) == x,
{
    let halved = |k: int| if 0 <= k < 32 { (x >> (k as u32)) as nat } else { 0nat };
    let s = u32_mask_seq(x);
    assert forall|k: int|
        0 <= k < 32 implies #[trigger] halved(k) == 2 * halved(k + 1) + digit(s[31 - k]) by {
        lemma_u32_masks(x, 0, k as u32);
    }
    lemma_value_by_halving(s, halved);
    lemma_u32_masks(x, 0, 0);
}

/// Two `u32` values in which the masks find the same bits are equal.
pub proof fn lemma_u32_mask_seq_decides(a: u32, b: u32)
    requires
        u32_mask_seq(a) == u32_mask_seq(b),
    ensures
        a == b,
{
    lemma_u32_mask_value(a);
    lemma_u32_mask_value(b);
}

impl Word for u32 {
    open spec fn width() -> nat {
        32
    }

    open spec fn has(&self, offset: u32) -> bool {
        offset < 32 && u32_masked(*self, offset)
    }

    fn bit_width() -> (r: u32) {
        u32::BITS
    }

    fn cleared() -> (r: u32) {
        proof {
            assert forall|q: u32| !0u32.has(q) by {
                if q < 32 {
                    lemma_u32_masks(0, 0, q);
                }
            }
        }
        0
    }

    fn test_at(&self, offset: u32) -> (r: bool) {
        match u32_checked_shl(1, offset) {
            Some(mask) => *self & mask != 0,
            None => false,
        }
    }

    fn write_at(&mut self, offset: u32, bit: bool) {
        let ghost before = *self;
        if let Some(mask) = u32_checked_shl(1, offset) {
            if bit {
                *self |= mask;
            } else {
                *self &= !mask;
            }
        }
        proof {
            assert forall|q: u32|
                #[trigger] self.has(q) == (if q == offset && offset < 32 {
                    bit
                } else {
                    before.has(q)
                }) by {
                if q < 32 && offset < 32 {
                    lemma_u32_masks(before, offset, q);
                }
            }
        }
    }

    proof fn lemma_bits_decide(a: u32, b: u32) {
        let sa = u32_mask_seq(a);
        let sb = u32_mask_seq(b);
        assert forall|i: int| 0 <= i < 32 implies sa[i] == sb[i] by {
            let q = (31 - i) as u32;
            assert(a.has(q) == b.has(q));
        }
        assert(sa =~= sb);
        lemma_u32_mask_seq_decides(a, b);
    }
}

/// The bits of a `u32` stand for its value.
pub proof fn lemma_u32_value(x: u32)
    ensures
        bits_value(x.bit_seq()) == x,
{
    assert(x.bit_seq() =~= u32_mask_seq(x));
    lemma_u32_mask_value(x);
}

/// All bits of the `u32` zero are clear.
pub proof fn lemma_u32_zero_bits()
    ensures
        0u32.bit_seq() == zeros(32),
{
    assert forall|i: int| 0 <= i < 32 implies !0u32.bit_seq()[i] by {
        lemma_u32_masks(0, 0, (31 - i) as u32);
    }
    assert(0u32.bit_seq() =~= zeros(32));
}

impl From<&Bits> for u32 {
    /// The number that the bits stand for, as far as it fits: of a string
    /// longer than 32 bits only the last 32 count.
    fn from(bits_to_convert: &Bits) -> (r: u32)
        ensures
            r == bits_value(fit(bits_to_convert@, 32)),
    {
        let r: u32 = assemble(bits_to_convert);
        proof {
            lemma_u32_value(r);
        }
        r
    }
}

impl FromSpecImpl<&Bits> for u32 {
    open spec fn obeys_from_spec() -> bool {
        true
    }

    open spec fn from_spec(v: &Bits) -> u32 {
        bits_value(fit(v@, 32)) as u32
    }
}

/// The bits of a `u32`, converted back, give the same `u32`.
pub proof fn lemma_u32_round_trip(x: u32, bits: Bits)
    requires
        bits@ == x.bit_seq(),
    ensures
        <u32 as FromSpec<&Bits>>::from_spec(&bits) == x,
{
    assert(fit(bits@, 32) =~= x.bit_seq());
    lemma_u32_value(x);
}

/// The bits of two `u32` values, added as bit strings and converted back,
/// give the sum of the two values where that sum is a `u32`.
pub proof fn lemma_u32_sum(x: u32, y: u32, sum: Bits)
    requires
        x + y <= u32::MAX,
        sum@ == bits_sum(x.bit_seq(), y.bit_seq()),
    ensures
        <u32 as FromSpec<&Bits>>::from_spec(&sum) == x + y,
{
    lemma_sum_value(x.bit_seq(), y.bit_seq());
    lemma_u32_value(x);
    lemma_u32_value(y);
    lemma_u32_value(u32::MAX);
    lemma_value_bound(u32::MAX.bit_seq());
    assert(fit(sum@, 32) =~= sum@);
}

} // verus!
