//! Bit access to `usize`.
use crate::access::BitMan;
use crate::bits::Bits;
use crate::model::bits_sum;
use crate::model::bits_value;
use crate::model::digit;
use crate::model::fit;
use crate::model::lemma_sum_value;
use crate::model::lemma_value_bound;
use crate::model::lemma_value_by_halving;
use crate::model::zeros;
use crate::word::assemble;
use crate::word::Word;
use vstd::prelude::*;
use vstd::std_specs::convert::FromSpec;
use vstd::std_specs::convert::FromSpecImpl;

verus! {

/// `num_traits::CheckedShl::checked_shl` on `usize`, which hands the call on to
/// `usize::checked_shl`: `value << rhs` where `rhs` is below the `usize::BITS` bits of
/// the type, and `None` from there on.
#[verifier::external_body]
fn usize_checked_shl(value: usize, rhs: u32) -> (r: Option<usize>)
    ensures
        rhs < usize::BITS ==> r == Some(value << rhs),
        rhs >= usize::BITS ==> r.is_none(),
{
    num_traits::CheckedShl::checked_shl(&value, rhs)
}

/// Whether `x` meets the one-bit mask at offset `q`.
pub open spec fn usize_masked(x: usize, q: u32) -> bool {
    x & (1usize << q) != 0
}

/// The bits that the one-bit masks find in `x`, most significant first.
pub open spec fn usize_mask_seq(x: usize) -> Seq<bool> {
    Seq::new(usize::BITS as nat, |i: int| usize_masked(x, (usize::BITS - 1 - i) as u32))
}

/// What setting, clearing and testing with one-bit masks comes to, and how
/// the bits of `x` make up its value: each shift to the right halves it.
proof fn lemma_usize_masks(x: usize, p: u32, q: u32)
    by (bit_vector)
    requires
        p < usize::BITS,
        q < usize::BITS,
    ensures
        usize_masked(x | (1usize << p), q) == (p == q || usize_masked(x, q)),
        usize_masked(x & !(1usize << p), q) == (p != q && usize_masked(x, q)),
        !usize_masked(0usize, q),
        q < usize::BITS - 1 ==> x >> q == 2 * (x >> ((q + 1) as u32)) + (if usize_masked(x, q) {
            1usize
        } else {
            0usize
        }),
        x >> ((usize::BITS - 1) as u32) == (if usize_masked(x, (usize::BITS - 1) as u32) {
            1usize
        } else {
            0usize
        }),
        x >> 0u32 == x,
{
}

proof fn lemma_usize_mask_value(x: usize)
    ensures
        bits_value(usize_mask_seq(x)) == x,
{
    let halved = |k: int| if 0 <= k < usize::BITS { (x >> (k as u32)) as nat } else { 0nat };
    let s = usize_mask_seq(x);
    let top = usize::BITS - 1;
    assert forall|k: int|
        0 <= k < usize::BITS implies #[trigger] halved(k) == 2 * halved(k + 1) + digit(s[top - k]) by {
        lemma_usize_masks(x, 0, k as u32);
    }
    lemma_value_by_halving(s, halved);
    lemma_usize_masks(x, 0, 0);
}

/// Two `usize` values in which the masks find the same bits are equal.
pub proof fn lemma_usize_mask_seq_decides(a: usize, b: usize)
    requires
        usize_mask_seq(a) == usize_mask_seq(b),
    ensures
        a == b,
{
    lemma_usize_mask_value(a);
    lemma_usize_mask_value(b);
}

impl Word for usize {
    open spec fn width() -> nat {
        usize::BITS as nat
    }

    open spec fn has(&self, offset: u32) -> bool {
        offset < usize::BITS && usize_masked(*self, offset)
    }

    fn bit_width() -> (r: u32) {
        usize::BITS
    }

    fn cleared() -> (r: usize) {
        proof {
            assert forall|q: u32| !0usize.has(q) by {
                if q < usize::BITS {
                    lemma_usize_masks(0, 0, q);
                }
            }
        }
        0
    }

    fn test_at(&self, offset: u32) -> (r: bool) {
        match usize_checked_shl(1, offset) {
            Some(mask) => *self & mask != 0,
            None => false,
        }
    }

    fn write_at(&mut self, offset: u32, bit: bool) {
        let ghost before = *self;
        if let Some(mask) = usize_checked_shl(1, offset) {
            if bit {
                *self |= mask;
            } else {
                *self &= !mask;
            }
        }
        proof {
            assert forall|q: u32|
                #[trigger] self.has(q) == (if q == offset && offset < usize::BITS {
                    bit
                } else {
                    before.has(q)
                }) by {
                if q < usize::BITS && offset < usize::BITS {
                    lemma_usize_masks(before, offset, q);
                }
            }
        }
    }

    proof fn lemma_bits_decide(a: usize, b: usize) {
        let sa = usize_mask_seq(a);
        let sb = usize_mask_seq(b);
        assert forall|i: int| 0 <= i < usize::BITS implies sa[i] == sb[i] by {
            let q = (usize::BITS - 1 - i) as u32;
            assert(a.has(q) == b.has(q));
        }
        assert(sa =~= sb);
        lemma_usize_mask_seq_decides(a, b);
    }
}

/// The bits of a `usize` stand for its value.
pub proof fn lemma_usize_value(x: usize)
    ensures
        bits_value(x.bit_seq()) == x,
{
    assert(x.bit_seq() =~= usize_mask_seq(x));
    lemma_usize_mask_value(x);
}

/// All bits of the `usize` zero are clear.
pub proof fn lemma_usize_zero_bits()
    ensures
        0usize.bit_seq() == zeros(usize::BITS as nat),
{
    assert forall|i: int| 0 <= i < usize::BITS implies !0usize.bit_seq()[i] by {
        lemma_usize_masks(0, 0, (usize::BITS - 1 - i) as u32);
    }
    assert(0usize.bit_seq() =~= zeros(usize::BITS as nat));
}

impl From<&Bits> for usize {
    /// The number that the bits stand for, as far as it fits: of a string
    /// longer than `usize::BITS` bits only the last `usize::BITS` count.
    fn from(bits_to_convert: &Bits) -> (r: usize)
        ensures
            r == bits_value(fit(bits_to_convert@, usize::BITS as nat)),
    {
        let r: usize = assemble(bits_to_convert);
        proof {
            lemma_usize_value(r);
        }
        r
    }
}

impl FromSpecImpl<&Bits> for usize {
    open spec fn obeys_from_spec() -> bool {
        true
    }

    open spec fn from_spec(v: &Bits) -> usize {
        bits_value(fit(v@, usize::BITS as nat)) as usize
    }
}

/// The bits of a `usize`, converted back, give the same `usize`.
pub proof fn lemma_usize_round_trip(x: usize, bits: Bits)
    requires
        bits@ == x.bit_seq(),
    ensures
        <usize as FromSpec<&Bits>>::from_spec(&bits) == x,
{
    assert(fit(bits@, usize::BITS as nat) =~= x.bit_seq());
    lemma_usize_value(x);
}

/// The bits of two `usize` values, added as bit strings and converted back,
/// give the sum of the two values where that sum is a `usize`.
pub proof fn lemma_usize_sum(x: usize, y: usize, sum: Bits)
    requires
        x + y <= usize::MAX,
        sum@ == bits_sum(x.bit_seq(), y.bit_seq()),
    ensures
        <usize as FromSpec<&Bits>>::from_spec(&sum) == x + y,
{
    lemma_sum_value(x.bit_seq(), y.bit_seq());
    lemma_usize_value(x);
    lemma_usize_value(y);
    lemma_usize_value(usize::MAX);
    lemma_value_bound(usize::MAX.bit_seq());
    assert(fit(sum@, usize::BITS as nat) =~= sum@);
}

} // verus!
