use armventure::bitstack::{push_bits_offset_u32, push_bits_u32, BitStackU32};

#[test]
fn push_bits_u32_works() {
    assert_eq!(push_bits_u32(0b1111, 0b0110, 4), 0b11110110);
    assert_eq!(
        push_bits_offset_u32(0b1111000011110000, 0b01100, 5, 16 + 4),
        0b1111011001110000u32
    );
    assert_eq!(
        push_bits_offset_u32(0b1111000011110000, 0b01100, 5, 16 + 4),
        0b1111011001110000u32
    );
    assert_eq!(
        push_bits_offset_u32(0b1111000011110000, 0b0110, 4, 16 + 4),
        0b1111011011110000u32
    );
    let mut v = 0;
    v = push_bits_u32(v, 0b1111, 4);
    let idx = 4;
    v = push_bits_u32(v, 0b101, 3);
    v = push_bits_u32(v, 0, 32 - 7);
    assert_eq!(v, 0b11111010_00000000_00000000_00000000);
    v = push_bits_offset_u32(v, 0b010, 3, idx);
    assert_eq!(v, 0b11110100_00000000_00000000_00000000);
}

#[test]
fn bit_stack_round_trip_concrete() {
    // pushing fields whose widths sum to 32 and reading them back
    let mut stack = BitStackU32::new();
    stack.push(0b101, 3);
    stack.push(0xABC, 12);
    stack.push(0x1FFFF, 17);
    assert!(stack.all_bits_written());
    let word = stack.value();
    // extract each field again
    assert_eq!((word >> 29) & 0b111, 0b101);
    assert_eq!((word >> 17) & 0xFFF, 0xABC);
    assert_eq!(word & 0x1FFFF, 0x1FFFF);
}

#[test]
fn fill_zero_pads_the_word() {
    let mut stack = BitStackU32::new();
    stack.push(0b11, 2);
    assert_eq!(stack.len(), 2);
    assert!(!stack.all_bits_written());
    stack.fill_zero();
    assert!(stack.all_bits_written());
    assert_eq!(stack.value(), 0b11 << 30);
}
