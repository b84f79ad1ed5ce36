//! Program header entries: the memory-mapped segments of the object.

use vstd::prelude::*;

verus! {

use crate::elf::{put_u32, put_u64, spec_le_at};

/// The segment type.
#[derive(Clone, Copy, Debug, PartialEq, Eq, Structural)]
pub enum Type {
    Load,
    Dynamic,
    Interp,
    Note,
    HeaderTable,
    ThreadLocalStorage,
}

impl Type {
    pub open spec fn spec_code(self) -> u32 {
        match self {
            Type::Load => 1,
            Type::Dynamic => 2,
            Type::Interp => 3,
            Type::Note => 4,
            Type::HeaderTable => 6,
            Type::ThreadLocalStorage => 7,
        }
    }

    pub fn code(self) -> (r: u32)
        ensures
            r == self.spec_code(),
    {
        match self {
            Type::Load => 1,
            Type::Dynamic => 2,
            Type::Interp => 3,
            Type::Note => 4,
            Type::HeaderTable => 6,
            Type::ThreadLocalStorage => 7,
        }
    }
}

/// The permission bits of a segment, low to high: execute, write, read.
pub fn flags(exec: bool, write: bool, read: bool) -> (r: u32)
    ensures
        r == (if exec { 1int } else { 0int }) + (if write { 2int } else { 0int }) + (if read {
            4int
        } else {
            0int
        }),
{
    (if exec {
        1
    } else {
        0
    }) + (if write {
        2
    } else {
        0
    }) + (if read {
        4
    } else {
        0
    })
}

pub const PROG_HEADER_SIZE: usize = 0x38;

/// One program header entry.
pub struct Header {
    pub ty: Type,
    pub flags: u32,
    pub file_addr: u64,
    pub virt_addr: u64,
    pub file_size: u64,
    pub virt_size: u64,
    pub align: u64,
}

impl Header {
    /// Encodes the 64-bit little-endian program header into `d`.
    pub fn copy_data_64le(&self, d: &mut Vec<u8>)
        requires
            old(d)@.len() == PROG_HEADER_SIZE,
        ensures
            final(d)@.len() == PROG_HEADER_SIZE,
            spec_le_at(final(d)@, 0x0, 4, self.ty.spec_code() as nat),
            spec_le_at(final(d)@, 0x4, 4, self.flags as nat),
            spec_le_at(final(d)@, 0x8, 8, self.file_addr as nat),
            spec_le_at(final(d)@, 0x10, 8, self.virt_addr as nat),
            spec_le_at(final(d)@, 0x18, 8, 0),
            spec_le_at(final(d)@, 0x20, 8, self.file_size as nat),
            spec_le_at(final(d)@, 0x28, 8, self.virt_size as nat),
            spec_le_at(final(d)@, 0x30, 8, self.align as nat),
    {
        put_u32(d, 0x0, self.ty.code());
        put_u32(d, 0x4, self.flags);
        put_u64(d, 0x8, self.file_addr);
        put_u64(d, 0x10, self.virt_addr);
        // the physical address is unused
        put_u64(d, 0x18, 0);
        put_u64(d, 0x20, self.file_size);
        put_u64(d, 0x28, self.virt_size);
        put_u64(d, 0x30, self.align);
    }
}

} // verus!
