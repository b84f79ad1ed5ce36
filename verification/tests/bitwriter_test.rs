use armventure::bitwriter::{set_bits, BitWriter, BitWriterU32};

#[test]
fn it_set_bits() {
    assert_eq!(
        set_bits(0b1111000011110000, 0b0110, 8, 4),
        0b1111011011110000u32
    );
}

#[test]
fn writer_fills_top_down() {
    let mut w = BitWriterU32::new();
    assert_eq!(w.bit_idx(), 32);
    w.push(0b1111, 4);
    w.push(0b101, 3);
    w.skip(32 - 7);
    assert!(w.all_bits_written());
    assert_eq!(w.value(), 0b11111010_00000000_00000000_00000000);
    w.insert(0b010, 3, 32 - 4);
    assert_eq!(w.value(), 0b11110100_00000000_00000000_00000000);
}
