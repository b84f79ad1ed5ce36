use armventure::sparsebin::{Aligned, SparseBin};

#[test]
fn it_write_u8() {
    let mut bin = SparseBin::new();
    bin.write_u8(0, 0x12);
    bin.write_u8(1, 0x34);
    bin.write_u8(2, 0x56);
    bin.write_u8(3, 0x78);
    assert_eq!(bin.get_u8(0), 0x12);
    assert_eq!(bin.get_u8(1), 0x34);
    assert_eq!(bin.get_u8(2), 0x56);
    assert_eq!(bin.get_u8(3), 0x78);
}

#[test]
fn it_write_sparse_u8() {
    let mut bin = SparseBin::new();
    bin.write_u8(0, 0x23);
    bin.write_u8(0x100000000, 0x4);
    bin.write_u8(0x100000001, 0x84);
    bin.write_u8(1, 0x11);
    assert_eq!(bin.get_u8(0), 0x23);
    assert_eq!(bin.get_u8(0x100000000), 0x4);
    assert_eq!(bin.get_u8(0x100000001), 0x84);
    assert_eq!(bin.get_u8(1), 0x11);
}

#[test]
fn it_write_sparse_u64() {
    let mut bin = SparseBin::new();
    bin.write_u64(Aligned::new(0).unwrap(), 0x1234567890abcdef);
    bin.write_u64(Aligned::new(8).unwrap(), 0xD800);
    bin.write_u64(Aligned::new(0x100000000).unwrap(), 0xabd18238);
    bin.write_u64(Aligned::new(0x100000010).unwrap(), 0x111111190abcdef);
    assert_eq!(bin.get_u64(Aligned::new(0).unwrap()), 0x1234567890abcdef);
    assert_eq!(bin.get_u64(Aligned::new(0x100000000).unwrap()), 0xabd18238);
    assert_eq!(bin.get_u64(Aligned::new(8).unwrap()), 0xD800);
    assert_eq!(
        bin.get_u64(Aligned::new(0x100000010).unwrap()),
        0x111111190abcdef
    );
}

#[test]
fn aligned_accepts_exactly_multiples() {
    // Aligned::new(x) succeeds exactly when x is a multiple of the alignment
    assert!(Aligned::<4>::new(0).is_some());
    assert!(Aligned::<4>::new(4).is_some());
    assert!(Aligned::<4>::new(2).is_none());
    assert!(Aligned::<4>::new(3).is_none());
    assert!(Aligned::<8>::new(8).is_some());
    assert!(Aligned::<8>::new(12).is_none());
}

#[test]
fn unwritten_pages_read_zero() {
    let mut bin = SparseBin::new();
    assert_eq!(bin.get_u8(12345), 0);
    assert_eq!(bin.get_u32(Aligned::new(0x5000).unwrap()), 0);
    bin.write_u32(Aligned::new(0).unwrap(), 0xDEADBEEF);
    // a different, never-written page still reads zero
    assert_eq!(bin.get_u64(Aligned::new(0x20_0000).unwrap()), 0);
    assert_eq!(bin.get_u32(Aligned::new(0).unwrap()), 0xDEADBEEF);
}

#[test]
fn page_range_iter() {
    let bin = SparseBin::new();
    let (first, mut iter, last) = bin.page_range_u8(0..0);
    assert_eq!(first.len(), 0);
    assert_eq!(iter.len(), 0);
    assert_eq!(iter.next(), None);
    assert_eq!(last.len(), 0);
}

#[test]
fn page_range_iter_len() {
    let bin = SparseBin::new();
    let start = 10 << armventure::sparsebin::PAGE_BITS;
    let end = 20 << armventure::sparsebin::PAGE_BITS;
    let (first, iter, last) = bin.page_range_u8(start..end);
    assert_eq!(first.len(), 0);
    assert_eq!(iter.len(), 10);
    assert_eq!(last.len(), 0);
}

#[test]
fn page_range_iter_next() {
    let bin = SparseBin::new();
    let start = 1 << armventure::sparsebin::PAGE_BITS;
    let end = 2 << armventure::sparsebin::PAGE_BITS;
    let (first, mut iter, last) = bin.page_range_u8(start..end);
    assert_eq!(first.len(), 0);
    assert_eq!(iter.len(), 1);
    assert!(iter.next().is_some());
    assert!(iter.next().is_none());
    assert_eq!(last.len(), 0);
}

#[test]
fn page_range_unaligned_ends() {
    let mut bin = SparseBin::new();
    bin.write_u8(4094, 0xAA);
    bin.write_u8(4095, 0xBB);
    bin.write_u8(8192, 0xCC);
    let (first, mut iter, last) = bin.page_range_u8(4094..8194);
    assert_eq!(first, vec![0xAA, 0xBB]);
    let page = iter.next().unwrap();
    assert_eq!(page.len(), 4096);
    assert!(iter.next().is_none());
    assert_eq!(last, vec![0xCC, 0x00]);
}
