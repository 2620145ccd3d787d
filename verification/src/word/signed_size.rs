//! Bit access to `isize`. The bits of a signed integer are those of its two's
//! complement pattern, and the first of them is the sign bit.
use crate::access::BitMan;
use crate::bits::Bits;
use crate::model::bits_value;
use crate::model::fit;
use crate::model::zeros;
use crate::word::assemble;
use crate::word::unsigned_size::lemma_usize_mask_seq_decides;
use crate::word::unsigned_size::lemma_usize_value;
use crate::word::unsigned_size::usize_mask_seq;
use crate::word::unsigned_size::usize_masked;
use crate::word::Word;
use vstd::prelude::*;
use vstd::std_specs::convert::FromSpec;
use vstd::std_specs::convert::FromSpecImpl;

verus! {

/// `num_traits::CheckedShl::checked_shl` on `isize`, which hands the call on to
/// `isize::checked_shl`: `value << rhs` where `rhs` is below the `isize::BITS` bits of
/// the type, and `None` from there on. A shift into the sign bit is no
/// overflow.
#[verifier::external_body]
fn isize_checked_shl(value: isize, rhs: u32) -> (r: Option<isize>)
    ensures
        rhs < isize::BITS ==> r == Some(value << rhs),
        rhs >= isize::BITS ==> r.is_none(),
{
    num_traits::CheckedShl::checked_shl(&value, rhs)
}

/// Whether `x` meets the one-bit mask at offset `q`.
pub open spec fn isize_masked(x: isize, q: u32) -> bool {
    x & (1isize << q) != 0
}

/// What setting, clearing and testing with one-bit masks comes to, and that
/// the masks find in `x` the bits of the `usize` with the same pattern.
proof fn lemma_isize_masks(x: isize, p: u32, q: u32)
    by (bit_vector)
    requires
        p < isize::BITS,
        q < isize::BITS,
    ensures
        isize_masked(x | (1isize << p), q) == (p == q || isize_masked(x, q)),
        isize_masked(x & !(1isize << p), q) == (p != q && isize_masked(x, q)),
        !isize_masked(0isize, q),
        isize_masked(x, q) == usize_masked(x as usize, q),
        (x as usize) as isize == x,
{
}

impl Word for isize {
    open spec fn width() -> nat {
        isize::BITS as nat
    }

    open spec fn has(&self, offset: u32) -> bool {
        offset < isize::BITS && isize_masked(*self, offset)
    }

    fn bit_width() -> (r: u32) {
        isize::BITS
    }

    fn cleared() -> (r: isize) {
        proof {
            assert forall|q: u32| !0isize.has(q) by {
                if q < isize::BITS {
                    lemma_isize_masks(0, 0, q);
                }
            }
        }
        0
    }

    fn test_at(&self, offset: u32) -> (r: bool) {
        match isize_checked_shl(1, offset) {
            Some(mask) => *self & mask != 0,
            None => false,
        }
    }

    fn write_at(&mut self, offset: u32, bit: bool) {
        let ghost before = *self;
        if let Some(mask) = isize_checked_shl(1, offset) {
            if bit {
                *self |= mask;
            } else {
                *self &= !mask;
            }
        }
        proof {
            assert forall|q: u32|
                #[trigger] self.has(q) == (if q == offset && offset < isize::BITS {
                    bit
                } else {
                    before.has(q)
                }) by {
                if q < isize::BITS && offset < isize::BITS {
                    lemma_isize_masks(before, offset, q);
                }
            }
        }
    }

    proof fn lemma_bits_decide(a: isize, b: isize) {
        let sa = usize_mask_seq(a as usize);
        let sb = usize_mask_seq(b as usize);
        assert forall|i: int| 0 <= i < isize::BITS implies sa[i] == sb[i] by {
            let q = (isize::BITS - 1 - i) as u32;
            lemma_isize_masks(a, 0, q);
            lemma_isize_masks(b, 0, q);
            assert(a.has(q) == b.has(q));
        }
        assert(sa =~= sb);
        lemma_usize_mask_seq_decides(a as usize, b as usize);
        lemma_isize_masks(a, 0, 0);
        lemma_isize_masks(b, 0, 0);
    }
}

/// The bits of an `isize` are those of the `usize` with the same two's complement
/// pattern, and stand for that number.
pub proof fn lemma_isize_value(x: isize)
    ensures
        x.bit_seq() == (x as usize).bit_seq(),
        bits_value(x.bit_seq()) == x as usize,
{
    let theirs = (x as usize).bit_seq();
    assert forall|i: int| 0 <= i < isize::BITS implies x.bit_seq()[i] == theirs[i] by {
        lemma_isize_masks(x, 0, (isize::BITS - 1 - i) as u32);
    }
    assert(x.bit_seq() =~= theirs);
    lemma_usize_value(x as usize);
}

/// All bits of the `isize` zero are clear.
pub proof fn lemma_isize_zero_bits()
    ensures
        0isize.bit_seq() == zeros(isize::BITS as nat),
{
    assert forall|i: int| 0 <= i < isize::BITS implies !0isize.bit_seq()[i] by {
        lemma_isize_masks(0, 0, (isize::BITS - 1 - i) as u32);
    }
    assert(0isize.bit_seq() =~= zeros(isize::BITS as nat));
}

impl From<&Bits> for isize {
    /// The number whose two's complement pattern the bits are: of a string
    /// longer than `isize::BITS` bits only the last `isize::BITS` count, and a shorter one
    /// is filled up with cleared bits in front.
    fn from(bits_to_convert: &Bits) -> (r: isize)
        ensures
            r as usize == bits_value(fit(bits_to_convert@, isize::BITS as nat)),
    {
        let r: isize = assemble(bits_to_convert);
        proof {
            lemma_isize_value(r);
            lemma_isize_masks(r, 0, 0);
        }
        r
    }
}

impl FromSpecImpl<&Bits> for isize {
    open spec fn obeys_from_spec() -> bool {
        true
    }

    open spec fn from_spec(v: &Bits) -> isize {
        (bits_value(fit(v@, isize::BITS as nat)) as usize) as isize
    }
}

/// The bits of an `isize`, converted back, give the same `isize`.
pub proof fn lemma_isize_round_trip(x: isize, bits: Bits)
    requires
        bits@ == x.bit_seq(),
    ensures
        <isize as FromSpec<&Bits>>::from_spec(&bits) == x,
{
    assert(fit(bits@, isize::BITS as nat) =~= x.bit_seq());
    lemma_isize_value(x);
    lemma_isize_masks(x, 0, 0);
}

} // verus!
