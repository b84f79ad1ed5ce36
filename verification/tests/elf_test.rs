use armventure::elf::{prog, Elf, Header, Type, FILE_HEADER_SIZE};

#[test]
fn file_header_bytes() {
    let header = Header {
        entry: 0x40_0000,
        ty: Type::Exec,
        prog_count: 1,
        sect_count: 0,
        prog_table_addr: 0x40,
        sect_table_addr: 0x78,
        sect_names_idx: 0,
    };
    let mut d = vec![0u8; FILE_HEADER_SIZE];
    header.copy_data_64le(&mut d);
    assert_eq!(&d[0..4], &[0x7F, b'E', b'L', b'F']);
    assert_eq!(d[4], 2); // 64-bit
    assert_eq!(d[5], 1); // little endian
    assert_eq!(d[0x10], 2); // executable
    assert_eq!(d[0x12], 0xB7); // AArch64
    assert_eq!(&d[0x18..0x20], &[0, 0, 0x40, 0, 0, 0, 0, 0]);
    assert_eq!(d[0x38], 1); // one program header
}

#[test]
fn object_image_layout() {
    let mut elf = Elf::new();
    elf.entry = 0x1000;
    elf.prog_tab.push(prog::Header {
        ty: prog::Type::Load,
        flags: prog::flags(true, false, true),
        file_addr: 0,
        virt_addr: 0x1000,
        file_size: 8,
        virt_size: 8,
        align: 0x1000,
    });
    let image = elf.write_64le();
    assert_eq!(image.len(), FILE_HEADER_SIZE + prog::PROG_HEADER_SIZE);
    assert_eq!(prog::flags(true, false, true), 5);
}
