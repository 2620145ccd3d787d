use bitman::Bit;
use bitman::BitMan;
use bitman::Bits;
use num_traits::{CheckedMul, CheckedShl, CheckedShr, One, Zero};

fn pattern(text: &str) -> Bits {
    let bits: Vec<Bit> = text.chars().map(|c| Bit(c == '1')).collect();
    Bits::new(&bits)
}

#[test]
fn two_bytes_to_bits_and_back() {
    let bits = Bits::from_be_bytes(&[0x00, 0x01]);
    assert_eq!(bits, pattern("0000000000000001"));
    assert_eq!(bits.to_be_bytes(), vec![0x00, 0x01]);
    assert_eq!(bits.to_le_bytes(), vec![0x01, 0x00]);
}

#[test]
fn bytes_in_the_four_conventions() {
    let bytes = [0x80u8, 0x03];
    assert_eq!(Bits::from_be_bytes(&bytes), pattern("1000000000000011"));
    assert_eq!(Bits::from_le_bytes(&bytes), pattern("0000001110000000"));
    let mut copy = bytes;
    assert_eq!(Bits::from_be_bytes_of_le_bits(&mut copy), pattern("0000000111000000"));
    assert_eq!(copy, bytes);
    assert_eq!(Bits::from_le_bytes_of_le_bits(&bytes), pattern("1100000000000001"));
}

#[test]
fn bits_in_the_four_conventions() {
    let bits = pattern("1000000000000011");
    assert_eq!(bits.to_be_bytes(), vec![0x80, 0x03]);
    assert_eq!(bits.to_le_bytes(), vec![0x03, 0x80]);
    assert_eq!(bits.to_be_bytes_of_le_bits(), vec![0x01, 0xc0]);
    assert_eq!(bits.to_le_bytes_of_le_bits(), vec![0xc0, 0x01]);
}

#[test]
fn no_bytes_and_no_bits() {
    let empty = pattern("");
    assert_eq!(empty.to_be_bytes(), Vec::<u8>::new());
    assert_eq!(empty.to_le_bytes(), Vec::<u8>::new());
    assert_eq!(empty.to_be_bytes_of_le_bits(), Vec::<u8>::new());
    assert_eq!(empty.to_le_bytes_of_le_bits(), Vec::<u8>::new());
    assert_eq!(Bits::from_be_bytes(&[]), empty);
    assert_eq!(Bits::from_le_bytes(&[]), empty);
    assert_eq!(Bits::from_be_bytes_of_le_bits(&mut []), empty);
    assert_eq!(Bits::from_le_bytes_of_le_bits(&[]), empty);
}

#[test]
fn bytes_round_trip_in_every_convention() {
    let samples: [&[u8]; 5] =
        [&[], &[0x00], &[0xff], &[0x12, 0x34, 0x56], &[0x80, 0x01, 0xfe, 0x7f, 0xa5]];
    for bytes in samples {
        assert_eq!(Bits::from_be_bytes(bytes).to_be_bytes(), bytes);
        assert_eq!(Bits::from_le_bytes(bytes).to_le_bytes(), bytes);
        let mut copy = bytes.to_vec();
        assert_eq!(Bits::from_be_bytes_of_le_bits(&mut copy).to_be_bytes_of_le_bits(), bytes);
        assert_eq!(Bits::from_le_bytes_of_le_bits(bytes).to_le_bytes_of_le_bits(), bytes);
    }
    for byte in 0..=u8::MAX {
        assert_eq!(Bits::from_be_bytes(&[byte]).to_be_bytes(), vec![byte]);
        let bits = Bits::from_be_bytes(&[byte]);
        assert_eq!(bits.to_be_bytes_of_le_bits(), vec![byte.reverse_bits()]);
    }
}

#[test]
fn bits_round_trip_in_every_convention() {
    for text in ["", "00000000", "10000000", "0000000111111110", "101001011100001100111100"] {
        let bits = pattern(text);
        assert_eq!(Bits::from_be_bytes(&bits.to_be_bytes()), bits);
        assert_eq!(Bits::from_le_bytes(&bits.to_le_bytes()), bits);
        assert_eq!(Bits::from_be_bytes_of_le_bits(&mut bits.to_be_bytes_of_le_bits()), bits);
        assert_eq!(Bits::from_le_bytes_of_le_bits(&bits.to_le_bytes_of_le_bits()), bits);
    }
}

#[test]
fn logic_operators_stop_at_the_shorter_operand() {
    assert_eq!(pattern("1100") & pattern("1010"), pattern("1000"));
    assert_eq!(pattern("1100") | pattern("1010"), pattern("1110"));
    assert_eq!(pattern("1100") ^ pattern("1010"), pattern("0110"));
    assert_eq!(pattern("110011") & pattern("1010"), pattern("1000"));
    assert_eq!(pattern("1100") | pattern("101011"), pattern("1110"));
    assert_eq!(pattern("11") ^ pattern("1010"), pattern("01"));
    assert_eq!(pattern("") & pattern("1010"), pattern(""));
    assert_eq!(pattern("1") | pattern(""), pattern(""));
}

#[test]
fn logic_assignments_keep_the_length_of_the_target() {
    let mut a = pattern("110011");
    a &= pattern("1010");
    assert_eq!(a, pattern("100011"));
    let mut b = pattern("110000");
    b |= pattern("1010");
    assert_eq!(b, pattern("111000"));
    let mut c = pattern("110011");
    c ^= pattern("1010");
    assert_eq!(c, pattern("011011"));
    let mut d = pattern("11");
    d &= pattern("0110");
    assert_eq!(d, pattern("01"));
    let mut e = pattern("00");
    e |= pattern("0110");
    assert_eq!(e, pattern("01"));
    let mut f = pattern("11");
    f ^= pattern("0110");
    assert_eq!(f, pattern("10"));
}

#[test]
fn not_is_the_complement() {
    assert_eq!(!pattern("1100"), pattern("0011"));
    assert_eq!(!pattern(""), pattern(""));
    assert_eq!(!pattern("0"), pattern("1"));
}

#[test]
fn shifts_keep_the_length() {
    assert_eq!(pattern("1011") << 1usize, pattern("0110"));
    assert_eq!(pattern("1011") << 3u32, pattern("1000"));
    assert_eq!(pattern("1011") << 0usize, pattern("1011"));
    assert_eq!(&pattern("1011") << 2u32, pattern("1100"));
    assert_eq!(pattern("1011") >> 1usize, pattern("0110"));
    assert_eq!(pattern("1011") >> 3u32, pattern("1000"));
    assert_eq!(pattern("1011") >> 0u32, pattern("1011"));
}

#[test]
fn checked_shifts_are_absent_from_the_length_on() {
    let bits = pattern("1011");
    assert_eq!(bits.checked_shl(0), Some(pattern("1011")));
    assert_eq!(bits.checked_shl(3), Some(pattern("1000")));
    assert_eq!(bits.checked_shl(4), None);
    assert_eq!(bits.checked_shl(5), None);
    assert_eq!(bits.checked_shl(u32::MAX), None);
    assert_eq!(bits.checked_shr(0), Some(pattern("1011")));
    assert_eq!(bits.checked_shr(3), Some(pattern("1000")));
    assert_eq!(bits.checked_shr(4), None);
    assert_eq!(bits.checked_shr(u32::MAX), None);
    assert_eq!(pattern("").checked_shl(0), None);
    assert_eq!(pattern("").checked_shr(0), None);
}

#[test]
fn zero_and_one_have_the_native_width() {
    let width = std::mem::size_of::<Bits>() * 8;
    let zero = Bits::zero();
    assert_eq!(zero.len(), width);
    assert!(zero.iter().all(|bit| !bit.0));
    assert!(zero.is_zero());
    assert!(!zero.is_one());
    let one = Bits::one();
    assert_eq!(one.len(), width);
    assert_eq!(one[width - 1], Bit(true));
    assert!(one[..width - 1].iter().all(|bit| !bit.0));
    assert!(one.is_one());
    assert!(!one.is_zero());
}

#[test]
fn is_zero_and_is_one_at_any_length() {
    assert!(pattern("").is_zero());
    assert!(pattern("000").is_zero());
    assert!(!pattern("010").is_zero());
    assert!(!pattern("").is_one());
    assert!(pattern("1").is_one());
    assert!(pattern("0001").is_one());
    assert!(!pattern("0011").is_one());
    assert!(!pattern("0010").is_one());
    assert!(!pattern("1001").is_one());
}

#[test]
fn product_has_128_bits() {
    let product = Bits::from(3u8) * Bits::from(5u8);
    assert_eq!(product.len(), 128);
    assert_eq!(u128::from(&product), 15);
    let product = pattern("110") * pattern("0111");
    assert_eq!(u128::from(&product), 42);
    let product = Bits::from(u64::MAX) * Bits::from(u64::MAX);
    assert_eq!(u128::from(&product), u64::MAX as u128 * u64::MAX as u128);
    let product = pattern("") * Bits::from(7u8);
    assert_eq!(product, Bits::from(0u128));
}

#[test]
fn sums_carry_from_the_last_bit_to_the_first() {
    assert_eq!(pattern("0001") + pattern("0001"), pattern("0010"));
    assert_eq!(pattern("0011") + pattern("0001"), pattern("0100"));
    assert_eq!(pattern("0111") + pattern("0001"), pattern("1000"));
    assert_eq!(pattern("1111") + pattern("0001"), pattern("0000"));
    assert_eq!(pattern("1010") + pattern("0101"), pattern("1111"));
    assert_eq!(pattern("") + pattern(""), pattern(""));
    assert_eq!(Bits::from(100u8) + Bits::from(27u8), Bits::from(127u8));
    assert_eq!(Bits::from(200u8) + Bits::from(100u8), Bits::from(44u8));
}

#[test]
fn sums_of_integers_convert_back_to_the_sum() {
    for a in 0..=u8::MAX {
        for b in 0..=u8::MAX {
            let sum = u8::from(&(Bits::from(a) + Bits::from(b)));
            assert_eq!(sum, a.wrapping_add(b));
        }
    }
    let a = 0x1234_5678_9abc_def0u64;
    let b = 0x0fed_cba9_8765_4321u64;
    assert_eq!(u64::from(&(Bits::from(a) + Bits::from(b))), a + b);
}

#[test]
fn sums_stop_at_the_shorter_operand() {
    assert_eq!(pattern("011") + pattern("00111"), pattern("100"));
    assert_eq!(pattern("00111") + pattern("011"), pattern("100"));
    assert_eq!(pattern("1") + pattern(""), pattern(""));
}

#[test]
fn next_takes_the_last_bit() {
    let mut bits = pattern("10");
    assert_eq!(bits.next(), Some(Bit(false)));
    assert_eq!(bits, pattern("1"));
    assert_eq!(bits.next(), Some(Bit(true)));
    assert_eq!(bits, pattern(""));
    assert_eq!(bits.next(), None);
    assert_eq!(bits, pattern(""));
}

#[test]
fn bits_in_writing() {
    assert_eq!(pattern("").to_string(), "Bits()");
    assert_eq!(pattern("1").to_string(), "Bits( Bit(true))");
    assert_eq!(pattern("01").to_string(), "Bits( Bit(false) Bit(true))");
}

#[test]
fn bits_are_a_container_of_bits() {
    let mut bits = pattern("1001");
    assert_eq!(bits.bit_len(), 4);
    assert_eq!(bits.bit(&0), Bit(true));
    assert_eq!(bits.bit(&1), Bit(false));
    assert_eq!(bits.bit(&3), Bit(true));
    bits.set_bit(&1, &Bit(true));
    assert_eq!(bits, pattern("1101"));
    bits.set_bit(&0, &Bit(false));
    assert_eq!(bits, pattern("0101"));
    assert_eq!(bits.bits(), pattern("0101"));
    bits.set_bits(1, &pattern("011"));
    assert_eq!(bits, pattern("0011"));
    bits.set_bits(4, &pattern(""));
    assert_eq!(bits, pattern("0011"));
    bits.set_bits(0, &pattern("11"));
    assert_eq!(bits, pattern("1111"));
}

#[test]
fn default_is_empty_and_the_vector_is_in_reach() {
    let mut bits = Bits::default();
    assert_eq!(bits.len(), 0);
    assert_eq!(bits, pattern(""));
    bits.push(Bit(true));
    bits.push(Bit(false));
    assert_eq!(bits, pattern("10"));
    assert_eq!(bits[0], Bit(true));
    bits[1] = Bit(true);
    assert_eq!(bits, pattern("11"));
    assert_eq!(bits.clone(), bits);
}

#[test]
fn new_copies_the_bits() {
    let source = [Bit(true), Bit(false), Bit(true)];
    let bits = Bits::new(&source);
    assert_eq!(bits[..], source);
    assert_eq!(bits.len(), 3);
}

#[test]
fn checked_byte_conversions_are_absent_off_the_byte_boundary() {
    for text in ["1", "1010101", "100000001", "000000000000000"] {
        let bits = pattern(text);
        assert_eq!(bits.checked_to_be_bytes(), None);
        assert_eq!(bits.checked_to_le_bytes(), None);
        assert_eq!(bits.checked_to_be_bytes_of_le_bits(), None);
        assert_eq!(bits.checked_to_le_bytes_of_le_bits(), None);
    }
    let bits = pattern("1000000000000011");
    assert_eq!(bits.checked_to_be_bytes(), Some(vec![0x80, 0x03]));
    assert_eq!(bits.checked_to_le_bytes(), Some(vec![0x03, 0x80]));
    assert_eq!(bits.checked_to_be_bytes_of_le_bits(), Some(vec![0x01, 0xc0]));
    assert_eq!(bits.checked_to_le_bytes_of_le_bits(), Some(vec![0xc0, 0x01]));
    assert_eq!(pattern("").checked_to_be_bytes(), Some(vec![]));
}

#[test]
fn checked_product_is_absent_beyond_128_bits() {
    let product = Bits::from(6u8).checked_mul(&Bits::from(7u16));
    assert_eq!(product, Some(Bits::from(42u128)));
    let big = Bits::from(u128::MAX);
    assert_eq!(big.checked_mul(&Bits::from(2u8)), None);
    assert_eq!(big.checked_mul(&Bits::from(1u8)), Some(Bits::from(u128::MAX)));
    assert_eq!(big.checked_mul(&pattern("")), Some(Bits::from(0u128)));
    let half = Bits::from(1u128 << 64);
    assert_eq!(half.checked_mul(&half), None);
    assert_eq!(half.checked_mul(&Bits::from(u64::MAX)), Some(Bits::from((u64::MAX as u128) << 64)));
}

#[test]
fn checked_access_to_bits_of_a_string() {
    let mut bits = pattern("101");
    assert_eq!(bits.checked_bit(&0), Some(Bit(true)));
    assert_eq!(bits.checked_bit(&2), Some(Bit(true)));
    assert_eq!(bits.checked_bit(&3), None);
    assert!(bits.checked_set_bit(&1, &Bit(true)));
    assert_eq!(bits, pattern("111"));
    assert!(!bits.checked_set_bit(&3, &Bit(false)));
    assert_eq!(bits, pattern("111"));
    assert!(bits.checked_set_bits(1, &pattern("00")));
    assert_eq!(bits, pattern("100"));
    assert!(!bits.checked_set_bits(2, &pattern("11")));
    assert!(!bits.checked_set_bits(4, &pattern("")));
    assert!(bits.checked_set_bits(3, &pattern("")));
    assert_eq!(bits, pattern("100"));
}
