//! The mathematical model: a bit string is a `Seq<bool>` whose entry 0 is the
//! most significant bit.
use crate::bit::Bit;
use vstd::arithmetic::div_mod::lemma_mod_add_multiples_vanish;
use vstd::arithmetic::div_mod::lemma_small_mod;
use vstd::arithmetic::power2::lemma2_to64;
use vstd::arithmetic::power2::lemma_pow2_unfold;
use vstd::arithmetic::power2::pow2;
use vstd::prelude::*;

verus! {

/// The values of a sequence of bits.
pub open spec fn bools(v: Seq<Bit>) -> Seq<bool> {
    Seq::new(v.len(), |i: int| v[i].0)
}

/// A bit as a number: one for a set bit, zero for a clear one.
pub open spec fn digit(bit: bool) -> nat {
    if bit {
        1
    } else {
        0
    }
}

/// The number that a bit string stands for, most significant bit first.
pub open spec fn bits_value(s: Seq<bool>) -> nat
    decreases s.len(),
{
    if s.len() == 0 {
        0
    } else {
        2 * bits_value(s.drop_last()) + digit(s.last())
    }
}

/// A string of `n` cleared bits.
pub open spec fn zeros(n: nat) -> Seq<bool> {
    Seq::new(n, |i: int| false)
}

/// `s` brought to a width of `w` bits without changing the number it stands
/// for, as far as that fits: a longer string keeps its last `w` bits, a
/// shorter one is padded with cleared bits in front.
pub open spec fn fit(s: Seq<bool>, w: nat) -> Seq<bool> {
    if s.len() >= w {
        s.subrange(s.len() - w, s.len() as int)
    } else {
        zeros((w - s.len()) as nat) + s
    }
}

/// `s` with the bits of `patch` written over it from position `start` on.
pub open spec fn splice(s: Seq<bool>, start: int, patch: Seq<bool>) -> Seq<bool> {
    Seq::new(
        s.len(),
        |i: int| if start <= i < start + patch.len() { patch[i - start] } else { s[i] },
    )
}

/// The length of the shorter of two bit strings.
pub open spec fn shorter(a: Seq<bool>, b: Seq<bool>) -> nat {
    if a.len() <= b.len() {
        a.len()
    } else {
        b.len()
    }
}

/// The bits of `a` and `b` combined position by position with "and", as far
/// as both reach.
pub open spec fn bits_and(a: Seq<bool>, b: Seq<bool>) -> Seq<bool> {
    Seq::new(shorter(a, b), |i: int| a[i] && b[i])
}

/// The bits of `a` and `b` combined position by position with "or", as far
/// as both reach.
pub open spec fn bits_or(a: Seq<bool>, b: Seq<bool>) -> Seq<bool> {
    Seq::new(shorter(a, b), |i: int| a[i] || b[i])
}

/// The bits of `a` and `b` combined position by position with "exclusive
/// or", as far as both reach.
pub open spec fn bits_xor(a: Seq<bool>, b: Seq<bool>) -> Seq<bool> {
    Seq::new(shorter(a, b), |i: int| a[i] != b[i])
}

/// Every bit of `a` turned into its opposite.
pub open spec fn bits_not(a: Seq<bool>) -> Seq<bool> {
    Seq::new(a.len(), |i: int| !a[i])
}

/// `a` after `b` was combined into it with "and": the positions that `b`
/// does not reach keep their bits.
pub open spec fn and_onto(a: Seq<bool>, b: Seq<bool>) -> Seq<bool> {
    Seq::new(a.len(), |i: int| if i < b.len() { a[i] && b[i] } else { a[i] })
}

/// `a` after `b` was combined into it with "or": the positions that `b`
/// does not reach keep their bits.
pub open spec fn or_onto(a: Seq<bool>, b: Seq<bool>) -> Seq<bool> {
    Seq::new(a.len(), |i: int| if i < b.len() { a[i] || b[i] } else { a[i] })
}

/// `a` after `b` was combined into it with "exclusive or": the positions
/// that `b` does not reach keep their bits.
pub open spec fn xor_onto(a: Seq<bool>, b: Seq<bool>) -> Seq<bool> {
    Seq::new(a.len(), |i: int| if i < b.len() { a[i] != b[i] } else { a[i] })
}

/// `s` shifted by `count` places: the first `count` bits leave, and as many
/// cleared bits follow the rest, so that the length stays.
pub open spec fn shifted(s: Seq<bool>, count: nat) -> Seq<bool> {
    s.subrange(count as int, s.len() as int) + zeros(count)
}

/// Whether at least two of three bits are set.
pub open spec fn majority(x: bool, y: bool, z: bool) -> bool {
    (x && y) || (x && z) || (y && z)
}

/// The carry that the addition of `a` and `b` hands to position `i` from the
/// positions after it. Only the positions that both strings reach take part,
/// and the last of them receives no carry.
pub open spec fn carry_into(a: Seq<bool>, b: Seq<bool>, i: int) -> bool
    decreases shorter(a, b) - i,
{
    if i + 1 >= shorter(a, b) {
        false
    } else {
        majority(a[i + 1], b[i + 1], carry_into(a, b, i + 1))
    }
}

/// The sum of `a` and `b` as binary numbers, bit by bit with carry, at the
/// length of the shorter one. The carry out of the first position is dropped.
pub open spec fn bits_sum(a: Seq<bool>, b: Seq<bool>) -> Seq<bool> {
    Seq::new(shorter(a, b), |i: int| (a[i] != b[i]) != carry_into(a, b, i))
}

/// A bit string stands for `f(0)` when `f` halves along it: `f(k)` is the
/// number left after the last `k` bits are dropped.
pub proof fn lemma_value_by_halving(s: Seq<bool>, f: spec_fn(int) -> nat)
    requires
        f(s.len() as int) == 0,
        forall|k: int|
            0 <= k < s.len() ==> #[trigger] f(k) == 2 * f(k + 1) + digit(s[s.len() - 1 - k]),
    ensures
        bits_value(s) == f(0),
    decreases s.len(),
{
    if s.len() > 0 {
        let rest = s.drop_last();
        let g = |k: int| f(k + 1);
        assert forall|k: int| 0 <= k < rest.len() implies #[trigger] g(k) == 2 * g(k + 1) + digit(
            rest[rest.len() - 1 - k],
        ) by {
            assert(f(k + 1) == 2 * f(k + 2) + digit(s[s.len() - 1 - (k + 1)]));
        }
        lemma_value_by_halving(rest, g);
    }
}

/// A string of `n` bits stands for a number below `2^n`.
pub proof fn lemma_value_bound(s: Seq<bool>)
    ensures
        bits_value(s) < pow2(s.len()),
    decreases s.len(),
{
    lemma2_to64();
    if s.len() > 0 {
        lemma_value_bound(s.drop_last());
        lemma_pow2_unfold(s.len());
    }
}

/// Two bit strings of one length that stand for the same number are equal.
pub proof fn lemma_same_value_same_bits(s: Seq<bool>, t: Seq<bool>)
    requires
        s.len() == t.len(),
        bits_value(s) == bits_value(t),
    ensures
        s == t,
    decreases s.len(),
{
    if s.len() > 0 {
        lemma_same_value_same_bits(s.drop_last(), t.drop_last());
        assert(s =~= s.drop_last().push(s.last()));
        assert(t =~= t.drop_last().push(t.last()));
    }
}

/// The number of a bit string, told from its first bit and the rest.
pub proof fn lemma_value_from_front(s: Seq<bool>)
    requires
        s.len() > 0,
    ensures
        bits_value(s) == (if s[0] { pow2((s.len() - 1) as nat) } else { 0 }) + bits_value(
            s.drop_first(),
        ),
    decreases s.len(),
{
    lemma2_to64();
    if s.len() == 1 {
        assert(s.drop_last() =~= Seq::<bool>::empty());
        assert(s.drop_first() =~= Seq::<bool>::empty());
    } else {
        lemma_value_from_front(s.drop_last());
        assert(s.drop_last().drop_first() =~= s.drop_first().drop_last());
        lemma_pow2_unfold((s.len() - 1) as nat);
    }
}

/// Without the first position the carries are the same, one index lower.
pub proof fn lemma_carry_without_front(a: Seq<bool>, b: Seq<bool>, i: int)
    requires
        a.len() > 0,
        b.len() > 0,
        i >= -1,
    ensures
        carry_into(a.drop_first(), b.drop_first(), i) == carry_into(a, b, i + 1),
    decreases shorter(a, b) - i,
{
    if i + 2 < shorter(a, b) {
        lemma_carry_without_front(a, b, i + 1);
    }
}

/// The sum of two bit strings of one length stands for the sum of their
/// numbers, less `2^n` where a carry leaves the first position.
pub proof fn lemma_sum_value(a: Seq<bool>, b: Seq<bool>)
    requires
        a.len() == b.len(),
    ensures
        bits_value(a) + bits_value(b) == bits_value(bits_sum(a, b)) + (if carry_into(a, b, -1) {
            pow2(a.len())
        } else {
            0
        }),
    decreases a.len(),
{
    let sum = bits_sum(a, b);
    if a.len() > 0 {
        let a_rest = a.drop_first();
        let b_rest = b.drop_first();
        lemma_sum_value(a_rest, b_rest);
        lemma_carry_without_front(a, b, -1);
        assert forall|i: int| 0 <= i < a_rest.len() implies sum.drop_first()[i] == bits_sum(
            a_rest,
            b_rest,
        )[i] by {
            lemma_carry_without_front(a, b, i);
        }
        assert(sum.drop_first() =~= bits_sum(a_rest, b_rest));
        lemma_value_from_front(a);
        lemma_value_from_front(b);
        lemma_value_from_front(sum);
        lemma_pow2_unfold(a.len());
    } else {
        lemma2_to64();
    }
}

/// Addition of bit strings of `n` bits is addition of their numbers modulo
/// `2^n`.
pub proof fn lemma_sum_wraps(a: Seq<bool>, b: Seq<bool>)
    requires
        a.len() == b.len(),
    ensures
        bits_value(bits_sum(a, b)) == (bits_value(a) + bits_value(b)) % pow2(a.len()),
{
    let sum = bits_sum(a, b);
    let modulus = pow2(a.len());
    lemma_sum_value(a, b);
    lemma_value_bound(sum);
    lemma_small_mod(bits_value(sum), modulus);
    if carry_into(a, b, -1) {
        lemma_mod_add_multiples_vanish(bits_value(sum) as int, modulus as int);
    }
}

} // verus!
