//! A single bit with the operators of a one-bit integer.
use crate::access::BitMan;
use crate::bits::Bits;
use vstd::prelude::*;
use vstd::std_specs::ops::AddSpecImpl;
use vstd::std_specs::ops::BitAndSpecImpl;
use vstd::std_specs::ops::BitOrSpecImpl;
use vstd::std_specs::ops::BitXorSpecImpl;
use vstd::std_specs::ops::DivSpecImpl;
use vstd::std_specs::ops::MulSpecImpl;
use vstd::std_specs::ops::NotSpecImpl;
use vstd::std_specs::ops::ShlSpecImpl;
use vstd::std_specs::ops::ShrSpecImpl;
use vstd::std_specs::ops::SubSpecImpl;

verus! {

/// One bit: `Bit(true)` is set, `Bit(false)` is clear.
#[derive(Debug, PartialEq, Eq, Copy, Clone, Hash, Structural)]
pub struct Bit(pub bool);

impl View for Bit {
    type V = bool;

    open spec fn view(&self) -> bool {
        self.0
    }
}

impl Bit {
    /// What a shift by `count` places leaves of a single bit: the bit itself
    /// for no shift at all, and a clear bit otherwise.
    pub open spec fn shifted(self, count: int) -> Bit {
        if count == 0 {
            self
        } else {
            Bit(false)
        }
    }
}

impl Bit {
    /// The bit in writing: `Bit(true)` or `Bit(false)`.
    pub fn to_string(&self) -> (r: String)
        ensures
            r@ == (if self.0 { "Bit(true)"@ } else { "Bit(false)"@ }),
    {
        if self.0 {
            "Bit(true)".to_owned()
        } else {
            "Bit(false)".to_owned()
        }
    }
}

impl Default for Bit {
    /// The clear bit.
    fn default() -> (r: Bit)
        ensures
            r == Bit(false),
    {
        Bit(false)
    }
}

impl core::ops::Deref for Bit {
    type Target = bool;

    fn deref(&self) -> (r: &bool)
        ensures
            *r == self.0,
    {
        &self.0
    }
}

impl core::ops::DerefMut for Bit {
    fn deref_mut(&mut self) -> (r: &mut bool)
        ensures
            *r == old(self).0,
            final(self).0 == *final(r),
    {
        &mut self.0
    }
}

impl core::ops::BitAnd for Bit {
    type Output = Bit;

    fn bitand(self, rhs: Bit) -> (r: Bit)
        ensures
            r == Bit(self.0 && rhs.0),
    {
        Bit(self.0 && rhs.0)
    }
}

impl BitAndSpecImpl for Bit {
    open spec fn obeys_bitand_spec() -> bool {
        true
    }

    open spec fn bitand_req(self, rhs: Bit) -> bool {
        true
    }

    open spec fn bitand_spec(self, rhs: Bit) -> Bit {
        Bit(self.0 && rhs.0)
    }
}

impl core::ops::BitAndAssign for Bit {
    fn bitand_assign(&mut self, rhs: Bit)
        ensures
            *final(self) == Bit(old(self).0 && rhs.0),
    {
        self.0 = self.0 && rhs.0;
    }
}

impl core::ops::BitOr for Bit {
    type Output = Bit;

    fn bitor(self, rhs: Bit) -> (r: Bit)
        ensures
            r == Bit(self.0 || rhs.0),
    {
        Bit(self.0 || rhs.0)
    }
}

impl BitOrSpecImpl for Bit {
    open spec fn obeys_bitor_spec() -> bool {
        true
    }

    open spec fn bitor_req(self, rhs: Bit) -> bool {
        true
    }

    open spec fn bitor_spec(self, rhs: Bit) -> Bit {
        Bit(self.0 || rhs.0)
    }
}

impl core::ops::BitOrAssign for Bit {
    fn bitor_assign(&mut self, rhs: Bit)
        ensures
            *final(self) == Bit(old(self).0 || rhs.0),
    {
        self.0 = self.0 || rhs.0;
    }
}

impl core::ops::BitXor for Bit {
    type Output = Bit;

    fn bitxor(self, rhs: Bit) -> (r: Bit)
        ensures
            r == Bit(self.0 != rhs.0),
    {
        if self.0 {
            Bit(!rhs.0)
        } else {
            Bit(rhs.0)
        }
    }
}

impl BitXorSpecImpl for Bit {
    open spec fn obeys_bitxor_spec() -> bool {
        true
    }

    open spec fn bitxor_req(self, rhs: Bit) -> bool {
        true
    }

    open spec fn bitxor_spec(self, rhs: Bit) -> Bit {
        Bit(self.0 != rhs.0)
    }
}

impl core::ops::BitXorAssign for Bit {
    fn bitxor_assign(&mut self, rhs: Bit)
        ensures
            *final(self) == Bit(old(self).0 != rhs.0),
    {
        if self.0 {
            self.0 = !rhs.0;
        } else {
            self.0 = rhs.0;
        }
    }
}

impl core::ops::Not for Bit {
    type Output = Bit;

    fn not(self) -> (r: Bit)
        ensures
            r == Bit(!self.0),
    {
        Bit(!self.0)
    }
}

impl NotSpecImpl for Bit {
    open spec fn obeys_not_spec() -> bool {
        true
    }

    open spec fn not_req(self) -> bool {
        true
    }

    open spec fn not_spec(self) -> Bit {
        Bit(!self.0)
    }
}

impl core::ops::Shl<usize> for Bit {
    type Output = Bit;

    fn shl(self, rhs: usize) -> (r: Bit)
        ensures
            r == self.shifted(rhs as int),
    {
        if rhs == 0 {
            return self;
        }
        Bit(false)
    }
}

impl ShlSpecImpl<usize> for Bit {
    open spec fn obeys_shl_spec() -> bool {
        true
    }

    open spec fn shl_req(self, rhs: usize) -> bool {
        true
    }

    open spec fn shl_spec(self, rhs: usize) -> Bit {
        self.shifted(rhs as int)
    }
}

impl core::ops::ShlAssign<usize> for Bit {
    fn shl_assign(&mut self, rhs: usize)
        ensures
            *final(self) == old(self).shifted(rhs as int),
    {
        if rhs != 0 {
            self.0 = false;
        }
    }
}

impl core::ops::Shl<u32> for Bit {
    type Output = Bit;

    fn shl(self, rhs: u32) -> (r: Bit)
        ensures
            r == self.shifted(rhs as int),
    {
        if rhs == 0 {
            return self;
        }
        Bit(false)
    }
}

impl ShlSpecImpl<u32> for Bit {
    open spec fn obeys_shl_spec() -> bool {
        true
    }

    open spec fn shl_req(self, rhs: u32) -> bool {
        true
    }

    open spec fn shl_spec(self, rhs: u32) -> Bit {
        self.shifted(rhs as int)
    }
}

impl core::ops::ShlAssign<u32> for Bit {
    fn shl_assign(&mut self, rhs: u32)
        ensures
            *final(self) == old(self).shifted(rhs as int),
    {
        if rhs != 0 {
            self.0 = false;
        }
    }
}

impl num_traits::CheckedShl for Bit {
    /// A single bit can be shifted by any count, so the result is never
    /// `None`.
    fn checked_shl(&self, rhs: u32) -> (r: Option<Bit>)
        ensures
            r == Some(self.shifted(rhs as int)),
    {
        if rhs == 0 {
            Some(*self)
        } else {
            Some(Bit(false))
        }
    }
}

impl core::ops::Shr<usize> for Bit {
    type Output = Bit;

    fn shr(self, rhs: usize) -> (r: Bit)
        ensures
            r == self.shifted(rhs as int),
    {
        if rhs == 0 {
            return self;
        }
        Bit(false)
    }
}

impl ShrSpecImpl<usize> for Bit {
    open spec fn obeys_shr_spec() -> bool {
        true
    }

    open spec fn shr_req(self, rhs: usize) -> bool {
        true
    }

    open spec fn shr_spec(self, rhs: usize) -> Bit {
        self.shifted(rhs as int)
    }
}

impl core::ops::ShrAssign<usize> for Bit {
    fn shr_assign(&mut self, rhs: usize)
        ensures
            *final(self) == old(self).shifted(rhs as int),
    {
        if rhs != 0 {
            self.0 = false;
        }
    }
}

impl core::ops::Mul for Bit {
    type Output = Bit;

    /// Multiplication of one-bit numbers is the logical and.
    fn mul(self, rhs: Bit) -> (r: Bit)
        ensures
            r == Bit(self.0 && rhs.0),
    {
        if self.0 {
            rhs
        } else {
            Bit(false)
        }
    }
}

impl MulSpecImpl for Bit {
    open spec fn obeys_mul_spec() -> bool {
        true
    }

    open spec fn mul_req(self, rhs: Bit) -> bool {
        true
    }

    open spec fn mul_spec(self, rhs: Bit) -> Bit {
        Bit(self.0 && rhs.0)
    }
}

impl core::ops::Div for Bit {
    type Output = Bit;

    /// Division by the set bit gives the dividend back. There is no quotient
    /// by the clear bit, so the divisor must be set.
    fn div(self, rhs: Bit) -> (r: Bit)
        ensures
            r == self,
    {
        self
    }
}

impl DivSpecImpl for Bit {
    open spec fn obeys_div_spec() -> bool {
        true
    }

    open spec fn div_req(self, rhs: Bit) -> bool {
        rhs.0
    }

    open spec fn div_spec(self, rhs: Bit) -> Bit {
        self
    }
}

impl num_traits::CheckedDiv for Bit {
    /// The quotient where the divisor is set, and `None` where it is clear.
    fn checked_div(&self, v: &Bit) -> (r: Option<Bit>)
        ensures
            r == (if v.0 { Some(*self) } else { None }),
    {
        if v.0 {
            Some(*self / *v)
        } else {
            None
        }
    }
}

impl core::ops::Add for Bit {
    type Output = Bit;

    /// Addition without carry: one and one wrap around to zero.
    fn add(self, rhs: Bit) -> (r: Bit)
        ensures
            r == Bit(self.0 != rhs.0),
    {
        if self.0 {
            if rhs.0 {
                return Bit(false);
            } else {
                return Bit(true);
            }
        }
        if rhs.0 {
            Bit(true)
        } else {
            Bit(false)
        }
    }
}

impl AddSpecImpl for Bit {
    open spec fn obeys_add_spec() -> bool {
        true
    }

    open spec fn add_req(self, rhs: Bit) -> bool {
        true
    }

    open spec fn add_spec(self, rhs: Bit) -> Bit {
        Bit(self.0 != rhs.0)
    }
}

impl core::ops::Sub for Bit {
    type Output = Bit;

    /// Subtraction that stops at zero: only one minus zero is one.
    fn sub(self, rhs: Bit) -> (r: Bit)
        ensures
            r == Bit(self.0 && !rhs.0),
    {
        if self.0 {
            if rhs.0 {
                Bit(false)
            } else {
                self
            }
        } else {
            Bit(false)
        }
    }
}

impl SubSpecImpl for Bit {
    open spec fn obeys_sub_spec() -> bool {
        true
    }

    open spec fn sub_req(self, rhs: Bit) -> bool {
        true
    }

    open spec fn sub_spec(self, rhs: Bit) -> Bit {
        Bit(self.0 && !rhs.0)
    }
}

impl num_traits::One for Bit {
    /// The set bit.
    fn one() -> (r: Bit)
        ensures
            r == Bit(true),
    {
        Bit(true)
    }
}

impl num_traits::Zero for Bit {
    /// The clear bit.
    fn zero() -> (r: Bit)
        ensures
            r == Bit(false),
    {
        Bit(false)
    }

    fn is_zero(&self) -> (r: bool)
        ensures
            r == !self.0,
    {
        !self.0
    }
}

impl BitMan for Bit {
    /// A bit is a bit string of length one.
    open spec fn bit_seq(&self) -> Seq<bool> {
        seq![self.0]
    }

    fn bit_len(&self) -> (r: usize) {
        1
    }

    fn bit(&self, _index: &u32) -> (r: Bit) {
        *self
    }

    fn set_bit(&mut self, _index: &u32, bit: &Bit) {
        self.0 = bit.0;
    }

    fn bits(&self) -> (r: Bits) {
        Bits::new(&[*self])
    }

    fn set_bits(&mut self, index: u32, bits: &Bits) {
        let source: &Vec<Bit> = core::ops::Deref::deref(bits);
        if source.len() > 0 {
            self.0 = source[source.len() - 1].0;
        }
    }
}

} // verus!
