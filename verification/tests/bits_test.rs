use armventure::bits::{sint_in_range, BitIndex, CreateMask};

#[test]
fn bit_range_works() {
    assert_eq!(<u8 as BitIndex<u8>>::bi(0b1011u8, 2, 1), 0b01u8);
    assert_eq!(<u32 as BitIndex<u32>>::bi(0b1111u32, 1, 1), 0b1u32);
    assert_eq!(<u8 as BitIndex<u8>>::bi(0b1111u8, 1, 0), 0b11u8);
    assert_eq!(<u8 as BitIndex<u8>>::bi(0b1111u8, 0, 0), 0b1u8);
}

#[test]
fn it_checks_sint_in_range() {
    assert!(!sint_in_range::<2>(2));
    assert!(sint_in_range::<2>(1));
    assert!(sint_in_range::<2>(-1));
    assert!(sint_in_range::<2>(-2));
    assert!(!sint_in_range::<2>(-3));
    assert!(!sint_in_range::<2>(i64::MIN));
    assert!(!sint_in_range::<2>(i64::MAX));
    assert!(sint_in_range::<64>(i64::MIN));
    assert!(sint_in_range::<64>(i64::MAX));
}

#[test]
fn uint_range_and_masks() {
    assert!(armventure::bits::uint_in_range::<12>(0xFFF));
    assert!(!armventure::bits::uint_in_range::<12>(0x1000));
    assert_eq!(armventure::bits::uint_max_value::<12>(), 0xFFF);
    assert_eq!(armventure::bits::sint_max_value::<8>(), 127);
    assert_eq!(armventure::bits::sint_min_value::<8>(), -128);
    assert!(armventure::bits::uint_low_zeros::<2>(8));
    assert!(!armventure::bits::uint_low_zeros::<2>(6));
    assert!(armventure::bits::sint_low_zeros::<2>(-8));
    assert!(!armventure::bits::sint_low_zeros::<2>(-6));
    assert_eq!(u32::mask_lo_1s(4), 0xF);
    assert_eq!(u32::mask_lo_0s(4), 0xFFFF_FFF0);
    assert_eq!(u32::mask_hi_1s(4), 0xF000_0000);
    assert_eq!(u32::mask_hi_0s(4), 0x0FFF_FFFF);
    assert_eq!(u64::mask_lo_1s(0), 0);
    assert_eq!(u64::mask_hi_1s(64), u64::MAX);
}
