use bitman::Bit;
use bitman::BitMan;
use bitman::Bits;
use num_traits::{CheckedDiv, CheckedShl, One, Zero};

const BOTH: [bool; 2] = [false, true];

#[test]
fn bit_logic_matches_bool_logic_exhaustively() {
    for x in BOTH {
        assert_eq!(!Bit(x), Bit(!x));
        for y in BOTH {
            assert_eq!(Bit(x) & Bit(y), Bit(x && y));
            assert_eq!(Bit(x) | Bit(y), Bit(x || y));
            assert_eq!(Bit(x) ^ Bit(y), Bit(x != y));
        }
    }
}

#[test]
fn bit_assign_operators_match_bool_logic_exhaustively() {
    for x in BOTH {
        for y in BOTH {
            let mut bit = Bit(x);
            bit &= Bit(y);
            assert_eq!(bit, Bit(x && y));
            let mut bit = Bit(x);
            bit |= Bit(y);
            assert_eq!(bit, Bit(x || y));
            let mut bit = Bit(x);
            bit ^= Bit(y);
            assert_eq!(bit, Bit(x != y));
        }
    }
}

#[test]
fn bit_arithmetic_tables() {
    for x in BOTH {
        for y in BOTH {
            assert_eq!(Bit(x) * Bit(y), Bit(x && y));
            assert_eq!(Bit(x) + Bit(y), Bit(x != y));
            assert_eq!(Bit(x) - Bit(y), Bit(x && !y));
        }
        assert_eq!(Bit(x) / Bit(true), Bit(x));
    }
}

#[test]
fn bit_shift_by_zero_is_identity_and_by_more_is_clear() {
    for x in BOTH {
        assert_eq!(Bit(x) << 0usize, Bit(x));
        assert_eq!(Bit(x) << 0u32, Bit(x));
        assert_eq!(Bit(x) >> 0usize, Bit(x));
        for count in [1usize, 2, 7, 8, 63, 64, 1000, usize::MAX] {
            assert_eq!(Bit(x) << count, Bit(false));
            assert_eq!(Bit(x) >> count, Bit(false));
        }
        for count in [1u32, 2, 31, 32, u32::MAX] {
            assert_eq!(Bit(x) << count, Bit(false));
            let mut bit = Bit(x);
            bit <<= count;
            assert_eq!(bit, Bit(false));
        }
    }
}

#[test]
fn bit_checked_shift_is_never_absent() {
    for x in BOTH {
        assert_eq!(Bit(x).checked_shl(0), Some(Bit(x)));
        assert_eq!(Bit(x).checked_shl(1), Some(Bit(false)));
        assert_eq!(Bit(x).checked_shl(u32::MAX), Some(Bit(false)));
    }
}

#[test]
fn bit_identities() {
    assert_eq!(Bit::zero(), Bit(false));
    assert_eq!(Bit::one(), Bit(true));
    assert_eq!(Bit::default(), Bit(false));
    assert!(Bit(false).is_zero());
    assert!(!Bit(true).is_zero());
    assert!(Bit(true).is_one());
    assert!(!Bit(false).is_one());
}

#[test]
fn bit_in_writing() {
    assert_eq!(Bit(true).to_string(), "Bit(true)");
    assert_eq!(Bit(false).to_string(), "Bit(false)");
}

#[test]
fn bit_is_a_container_of_one_bit() {
    for x in BOTH {
        let bit = Bit(x);
        assert_eq!(bit.bit_len(), 1);
        assert_eq!(bit.bit(&0), Bit(x));
        assert_eq!(bit.bits(), Bits::new(&[Bit(x)]));
        for y in BOTH {
            let mut target = Bit(x);
            target.set_bit(&0, &Bit(y));
            assert_eq!(target, Bit(y));
            let mut target = Bit(x);
            target.set_bits(0, &Bits::new(&[Bit(y)]));
            assert_eq!(target, Bit(y));
        }
        let mut target = Bit(x);
        target.set_bits(0, &Bits::new(&[]));
        assert_eq!(target, Bit(x));
        target.set_bits(1, &Bits::new(&[]));
        assert_eq!(target, Bit(x));
    }
}

#[test]
fn bit_to_and_from_bits() {
    assert_eq!(Bits::from(Bit(true)), Bits::new(&[Bit(true)]));
    assert_eq!(Bits::from(Bit(false)), Bits::new(&[Bit(false)]));
    assert_eq!(Bit::from(&Bits::new(&[])), Bit(false));
    assert_eq!(Bit::from(&Bits::new(&[Bit(true)])), Bit(true));
    assert_eq!(Bit::from(&Bits::new(&[Bit(true), Bit(false)])), Bit(false));
    assert_eq!(Bit::from(&Bits::new(&[Bit(false), Bit(true)])), Bit(true));
}

#[test]
fn bit_checked_division_is_absent_for_the_clear_divisor() {
    for x in BOTH {
        assert_eq!(Bit(x).checked_div(&Bit(true)), Some(Bit(x)));
        assert_eq!(Bit(x).checked_div(&Bit(false)), None);
    }
}

#[test]
fn bit_checked_access() {
    let mut bit = Bit(true);
    assert_eq!(bit.checked_bit(&0), Some(Bit(true)));
    assert_eq!(bit.checked_bit(&1), None);
    assert!(bit.checked_set_bit(&0, &Bit(false)));
    assert_eq!(bit, Bit(false));
    assert!(!bit.checked_set_bit(&1, &Bit(true)));
    assert_eq!(bit, Bit(false));
    assert!(bit.checked_set_bits(0, &Bits::new(&[Bit(true)])));
    assert_eq!(bit, Bit(true));
    assert!(!bit.checked_set_bits(1, &Bits::new(&[Bit(false)])));
    assert!(!bit.checked_set_bits(0, &Bits::new(&[Bit(false), Bit(false)])));
    assert_eq!(bit, Bit(true));
}
