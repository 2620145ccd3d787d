use bitman::Bit;
use bitman::BitMan;
use bitman::Bits;
use bitman::Word;

fn bits_of(pattern: &str) -> Bits {
    let bits: Vec<Bit> = pattern.chars().map(|c| Bit(c == '1')).collect();
    Bits::new(&bits)
}

#[test]
fn u8_zero_set_at_index_7_is_one() {
    let mut value = 0u8;
    value.set_bit(&7, &Bit(true));
    assert_eq!(value, 1);
    assert_eq!(value.bits(), bits_of("00000001"));
    assert_eq!(
        value.bits()[..],
        [
            Bit(false),
            Bit(false),
            Bit(false),
            Bit(false),
            Bit(false),
            Bit(false),
            Bit(false),
            Bit(true)
        ]
    );
}

#[test]
fn first_index_is_the_most_significant_bit() {
    let mut a = 0u8;
    a.set_bit(&0, &Bit(true));
    assert_eq!(a, 0x80);
    let mut b = 0u16;
    b.set_bit(&0, &Bit(true));
    assert_eq!(b, 0x8000);
    let mut c = 0u32;
    c.set_bit(&0, &Bit(true));
    assert_eq!(c, 0x8000_0000);
    let mut d = 0u64;
    d.set_bit(&0, &Bit(true));
    assert_eq!(d, 0x8000_0000_0000_0000);
    let mut e = 0u128;
    e.set_bit(&0, &Bit(true));
    assert_eq!(e, 1u128 << 127);
    let mut f = 0usize;
    f.set_bit(&0, &Bit(true));
    assert_eq!(f, 1usize << (usize::BITS - 1));
}

#[test]
fn first_index_of_a_signed_integer_is_the_sign_bit() {
    let mut a = 0i8;
    a.set_bit(&0, &Bit(true));
    assert_eq!(a, i8::MIN);
    let mut b = 0i16;
    b.set_bit(&0, &Bit(true));
    assert_eq!(b, i16::MIN);
    let mut c = 0i32;
    c.set_bit(&0, &Bit(true));
    assert_eq!(c, i32::MIN);
    let mut d = 0i64;
    d.set_bit(&0, &Bit(true));
    assert_eq!(d, i64::MIN);
    let mut e = 0i128;
    e.set_bit(&0, &Bit(true));
    assert_eq!(e, i128::MIN);
    let mut f = 0isize;
    f.set_bit(&0, &Bit(true));
    assert_eq!(f, isize::MIN);
    assert_eq!((-1i8).bit(&0), Bit(true));
    assert_eq!(1i8.bit(&0), Bit(false));
    let mut g = -1i8;
    g.set_bit(&0, &Bit(false));
    assert_eq!(g, i8::MAX);
}

#[test]
fn second_index_is_below_the_first() {
    let mut a = 0u8;
    a.set_bit(&1, &Bit(true));
    assert_eq!(a, 0x40);
    let mut b = 0i16;
    b.set_bit(&1, &Bit(true));
    assert_eq!(b, 0x4000);
    let mut c = 0u32;
    c.set_bit(&1, &Bit(true));
    assert_eq!(c, 0x4000_0000);
    let mut d = 0i64;
    d.set_bit(&1, &Bit(true));
    assert_eq!(d, 0x4000_0000_0000_0000);
    let mut e = 0u128;
    e.set_bit(&1, &Bit(true));
    assert_eq!(e, 1u128 << 126);
    let mut f = 0i128;
    f.set_bit(&127, &Bit(true));
    assert_eq!(f, 1);
    let mut g = 0usize;
    g.set_bit(&(usize::BITS - 1), &Bit(true));
    assert_eq!(g, 1);
    let mut h = 0isize;
    h.set_bit(&(isize::BITS - 2), &Bit(true));
    assert_eq!(h, 2);
    let mut i = 0i32;
    i.set_bit(&30, &Bit(true));
    assert_eq!(i, 2);
    let mut j = 0u64;
    j.set_bit(&62, &Bit(true));
    assert_eq!(j, 2);
    let mut k = 0u16;
    k.set_bit(&14, &Bit(true));
    assert_eq!(k, 2);
}

#[test]
fn bit_widths() {
    assert_eq!(0u8.bit_len(), 8);
    assert_eq!(0u16.bit_len(), 16);
    assert_eq!(0u32.bit_len(), 32);
    assert_eq!(0u64.bit_len(), 64);
    assert_eq!(0u128.bit_len(), 128);
    assert_eq!(0usize.bit_len(), usize::BITS as usize);
    assert_eq!(0i8.bit_len(), 8);
    assert_eq!(0i16.bit_len(), 16);
    assert_eq!(0i32.bit_len(), 32);
    assert_eq!(0i64.bit_len(), 64);
    assert_eq!(0i128.bit_len(), 128);
    assert_eq!(0isize.bit_len(), isize::BITS as usize);
    assert_eq!(<u8 as Word>::bit_width(), 8);
    assert_eq!(<i128 as Word>::bit_width(), 128);
}

#[test]
fn set_then_get_on_every_index_of_u8_for_every_value() {
    for start in 0..=u8::MAX {
        for index in 0u32..8 {
            for wanted in [false, true] {
                let mut value = start;
                value.set_bit(&index, &Bit(wanted));
                assert_eq!(value.bit(&index), Bit(wanted));
                for other in 0u32..8 {
                    if other != index {
                        assert_eq!(value.bit(&other), start.bit(&other));
                    }
                }
            }
        }
    }
}

#[test]
fn set_then_get_on_every_index_of_i8_for_every_value() {
    for start in i8::MIN..=i8::MAX {
        for index in 0u32..8 {
            for wanted in [false, true] {
                let mut value = start;
                value.set_bit(&index, &Bit(wanted));
                assert_eq!(value.bit(&index), Bit(wanted));
                for other in 0u32..8 {
                    if other != index {
                        assert_eq!(value.bit(&other), start.bit(&other));
                    }
                }
            }
        }
    }
}

#[test]
fn set_then_get_on_every_index_of_the_wide_types() {
    let mut a = 0x0123_4567_89ab_cdef_u64;
    let mut b = -0x0123_4567_89ab_cdef_0123_4567_89ab_cdef_i128;
    let mut c = 0x89ab_cdef_usize;
    for index in 0u32..64 {
        let before = a;
        a.set_bit(&index, &Bit(index % 3 == 0));
        assert_eq!(a.bit(&index), Bit(index % 3 == 0));
        assert_eq!(a | (1 << (63 - index)), before | (1 << (63 - index)));
    }
    for index in 0u32..128 {
        let before = b;
        b.set_bit(&index, &Bit(index % 5 == 0));
        assert_eq!(b.bit(&index), Bit(index % 5 == 0));
        assert_eq!(b | (1 << (127 - index)), before | (1 << (127 - index)));
    }
    for index in 0u32..usize::BITS {
        let before = c;
        c.set_bit(&index, &Bit(index % 2 == 0));
        assert_eq!(c.bit(&index), Bit(index % 2 == 0));
        let mask = 1usize << (usize::BITS - 1 - index);
        assert_eq!(c | mask, before | mask);
    }
}

#[test]
fn bits_of_integers() {
    assert_eq!(0xa5u8.bits(), bits_of("10100101"));
    assert_eq!((-2i8).bits(), bits_of("11111110"));
    assert_eq!(0x8001u16.bits(), bits_of("1000000000000001"));
    assert_eq!(1i16.bits(), bits_of("0000000000000001"));
    assert_eq!(u32::MAX.bits(), bits_of(&"1".repeat(32)));
    assert_eq!(i32::MIN.bits(), bits_of(&format!("1{}", "0".repeat(31))));
    assert_eq!(1u64.bits(), bits_of(&format!("{}1", "0".repeat(63))));
    assert_eq!((-1i64).bits(), bits_of(&"1".repeat(64)));
    assert_eq!(u128::MAX.bits().len(), 128);
    assert_eq!(0i128.bits(), bits_of(&"0".repeat(128)));
    assert_eq!(0usize.bits().len(), usize::BITS as usize);
    assert_eq!(isize::MIN.bits()[0], Bit(true));
    assert_eq!(Bits::from(0xa5u8), bits_of("10100101"));
    assert_eq!(Bits::from(-2i8), bits_of("11111110"));
}

#[test]
fn bits_and_back_gives_the_same_integer() {
    for x in 0..=u8::MAX {
        assert_eq!(u8::from(&x.bits()), x);
    }
    for x in i8::MIN..=i8::MAX {
        assert_eq!(i8::from(&x.bits()), x);
    }
    for x in [0u16, 1, 0x1234, 0x8000, u16::MAX] {
        assert_eq!(u16::from(&x.bits()), x);
    }
    for x in [0i16, 1, -1, 0x1234, i16::MIN, i16::MAX] {
        assert_eq!(i16::from(&x.bits()), x);
    }
    for x in [0u32, 1, 0x1234_5678, 0x8000_0000, u32::MAX] {
        assert_eq!(u32::from(&x.bits()), x);
    }
    for x in [0i32, 1, -1, 0x1234_5678, i32::MIN, i32::MAX] {
        assert_eq!(i32::from(&x.bits()), x);
    }
    for x in [0u64, 1, 0x1234_5678_9abc_def0, 1 << 63, u64::MAX] {
        assert_eq!(u64::from(&x.bits()), x);
    }
    for x in [0i64, 1, -1, 0x1234_5678_9abc_def0, i64::MIN, i64::MAX] {
        assert_eq!(i64::from(&x.bits()), x);
    }
    for x in [0u128, 1, 0x1234_5678_9abc_def0_0fed_cba9_8765_4321, 1 << 127, u128::MAX] {
        assert_eq!(u128::from(&x.bits()), x);
    }
    for x in [0i128, 1, -1, 0x1234_5678_9abc_def0_0fed_cba9_8765_4321, i128::MIN, i128::MAX] {
        assert_eq!(i128::from(&x.bits()), x);
    }
    for x in [0usize, 1, 0x1234_5678, 1 << (usize::BITS - 1), usize::MAX] {
        assert_eq!(usize::from(&x.bits()), x);
    }
    for x in [0isize, 1, -1, 0x1234_5678, isize::MIN, isize::MAX] {
        assert_eq!(isize::from(&x.bits()), x);
    }
}

#[test]
fn shorter_bit_strings_count_from_the_last_bit() {
    assert_eq!(u8::from(&bits_of("")), 0);
    assert_eq!(u8::from(&bits_of("1")), 1);
    assert_eq!(u8::from(&bits_of("101")), 5);
    assert_eq!(u16::from(&bits_of("11111111")), 255);
    assert_eq!(i8::from(&bits_of("1111111")), 127);
    assert_eq!(i16::from(&bits_of("10000000")), 128);
    assert_eq!(u128::from(&bits_of("1100")), 12);
    assert_eq!(usize::from(&bits_of("10")), 2);
}

#[test]
fn longer_bit_strings_keep_their_last_bits() {
    assert_eq!(u8::from(&bits_of("100000001")), 1);
    assert_eq!(u8::from(&bits_of("1111111100000101")), 5);
    assert_eq!(i8::from(&bits_of("0011111111")), -1);
    assert_eq!(u16::from(&bits_of("10000000000000010")), 2);
}

#[test]
fn set_bits_writes_a_run_of_bits() {
    let mut a = 0u8;
    a.set_bits(2, &bits_of("101"));
    assert_eq!(a, 0b0010_1000);
    let mut b = 0xffu8;
    b.set_bits(0, &bits_of("0000"));
    assert_eq!(b, 0x0f);
    let mut c = 0xffu8;
    c.set_bits(4, &bits_of("0110"));
    assert_eq!(c, 0xf6);
    let mut d = 0x1234u16;
    d.set_bits(0, &0xabcdu16.bits());
    assert_eq!(d, 0xabcd);
    let mut e = 0x55u8;
    e.set_bits(8, &bits_of(""));
    assert_eq!(e, 0x55);
    let mut f = 0i32;
    f.set_bits(0, &bits_of("1"));
    assert_eq!(f, i32::MIN);
    let mut g = 0u64;
    g.set_bits(60, &bits_of("1001"));
    assert_eq!(g, 9);
}

#[test]
fn masks_beyond_the_width_reach_no_bit() {
    assert!(!0xffu8.test_at(8));
    assert!(!u8::MAX.test_at(u32::MAX));
    assert!((-1i16).test_at(15));
    assert!(!(-1i16).test_at(16));
    assert!(u128::MAX.test_at(127));
    assert!(!u128::MAX.test_at(128));
    let mut a = 0x5au8;
    a.write_at(8, true);
    assert_eq!(a, 0x5a);
    a.write_at(9, false);
    assert_eq!(a, 0x5a);
    let mut b = 0i64;
    b.write_at(64, true);
    assert_eq!(b, 0);
    b.write_at(63, true);
    assert_eq!(b, i64::MIN);
    b.write_at(0, true);
    assert_eq!(b, i64::MIN + 1);
    b.write_at(63, false);
    assert_eq!(b, 1);
}

#[test]
fn masks_count_from_the_least_significant_bit() {
    assert!(1u8.test_at(0));
    assert!(!1u8.test_at(1));
    assert!(2u16.test_at(1));
    assert!(4u32.test_at(2));
    assert!(8u64.test_at(3));
    assert!(16u128.test_at(4));
    assert!(32usize.test_at(5));
    assert!(64i8.test_at(6));
    assert!(128i16.test_at(7));
    assert!(256i32.test_at(8));
    assert!(512i64.test_at(9));
    assert!(1024i128.test_at(10));
    assert!(2048isize.test_at(11));
    assert_eq!(<u32 as Word>::cleared(), 0);
    assert_eq!(<i64 as Word>::cleared(), 0);
}

#[test]
fn checked_access_to_bits_of_integers() {
    assert_eq!(0x80u8.checked_bit(&0), Some(Bit(true)));
    assert_eq!(0x80u8.checked_bit(&7), Some(Bit(false)));
    assert_eq!(0x80u8.checked_bit(&8), None);
    assert_eq!((-1i32).checked_bit(&31), Some(Bit(true)));
    assert_eq!((-1i32).checked_bit(&32), None);
    assert_eq!(u128::MAX.checked_bit(&u32::MAX), None);
    let mut a = 0u16;
    assert!(a.checked_set_bit(&15, &Bit(true)));
    assert_eq!(a, 1);
    assert!(!a.checked_set_bit(&16, &Bit(true)));
    assert_eq!(a, 1);
    let mut b = 0i64;
    assert!(b.checked_set_bits(60, &bits_of("1111")));
    assert_eq!(b, 15);
    assert!(!b.checked_set_bits(61, &bits_of("1111")));
    assert_eq!(b, 15);
    assert!(!b.checked_set_bits(u32::MAX, &bits_of("0")));
    assert!(b.checked_set_bits(0, &bits_of(&"0".repeat(64))));
    assert_eq!(b, 0);
    assert!(!b.checked_set_bits(0, &bits_of(&"0".repeat(65))));
}
