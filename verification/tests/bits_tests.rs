use bitman::Bit;
use bitman::BitMan;
use bitman::Bits;
use num_traits::{One, Zero};

#[test]
fn bit_method_test_on_u8() {
    assert_eq!(0u8.bit(&0), Bit(false));
    assert_eq!(0u8.bit(&1), Bit(false));
    assert_eq!(0u8.bit(&2), Bit(false));
    assert_eq!(0u8.bit(&3), Bit(false));
    assert_eq!(0u8.bit(&4), Bit(false));
    assert_eq!(0u8.bit(&5), Bit(false));
    assert_eq!(0u8.bit(&6), Bit(false));
    assert_eq!(0u8.bit(&7), Bit(false));
}

#[test]
fn set_bit_method_test_on_u8() {
    let mut my_u8 = 0u8;
    my_u8.set_bit(&0, &Bit(true));
    assert_eq!(my_u8.bit(&0), Bit(true));
    my_u8.set_bit(&1, &Bit(true));
    assert_eq!(my_u8.bit(&1), Bit(true));
    let mut my_u8 = 0u8;
    my_u8.set_bit(&2, &Bit(true));
    assert_eq!(my_u8.bit(&2), Bit(true));
    let mut my_u8 = 0u8;
    my_u8.set_bit(&3, &Bit(true));
    assert_eq!(my_u8.bit(&3), Bit(true));
    let mut my_u8 = 0u8;
    my_u8.set_bit(&4, &Bit(true));
    assert_eq!(my_u8.bit(&4), Bit(true));
    let mut my_u8 = 0u8;
    my_u8.set_bit(&5, &Bit(true));
    assert_eq!(my_u8.bit(&5), Bit(true));
    let mut my_u8 = 0u8;
    my_u8.set_bit(&6, &Bit(true));
    assert_eq!(my_u8.bit(&6), Bit(true));
    let mut my_u8 = 0u8;
    my_u8.set_bit(&7, &Bit(true));
    assert_eq!(my_u8.bit(&7), Bit(true));
}

#[test]
fn u8_zero_as_bits_compared_set_to_one_and_compared() {
    let mut my_u8_as_bits = 0u8.bits();
    assert_eq!(
        my_u8_as_bits[..],
        [
            Bit(false),
            Bit(false),
            Bit(false),
            Bit(false),
            Bit(false),
            Bit(false),
            Bit(false),
            Bit(false)
        ]
    );
    my_u8_as_bits = u8::one().bits();
    assert_eq!(
        my_u8_as_bits[..],
        [
            Bit(false),
            Bit(false),
            Bit(false),
            Bit(false),
            Bit(false),
            Bit(false),
            Bit(false),
            Bit(true)
        ]
    );
}

#[test]
fn bits_method_test_on_u8() {
    let new_bits = 0u8.bits();
    assert_eq!(new_bits.bit_len(), 8);
    assert_eq!(new_bits[0], Bit(false));
    assert_eq!(0u8.bits(), Bits::new(&[Bit::zero(); 8]));
}
