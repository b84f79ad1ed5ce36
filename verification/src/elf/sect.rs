//! Section header entries: the static data sections of the object.

use vstd::prelude::*;

verus! {

use crate::elf::{put_u32, put_u64, spec_le_at};

/// The section type.
#[derive(Clone, Copy, Debug, PartialEq, Eq, Structural)]
pub enum Type {
    ProgBits,
    SymTab,
    StrTab,
    /// Relocation entries with addends.
    RelAdd,
    Hash,
    Dynamic,
    Note,
    /// Uninitialised data.
    NoBits,
    /// Relocation entries without addends.
    Rel,
    DynSym,
    InitArray,
    FInitArray,
    PreInitArray,
    Group,
    SymTabExtIdx,
}

impl Type {
    pub open spec fn spec_code(self) -> u32 {
        match self {
            Type::ProgBits => 1,
            Type::SymTab => 2,
            Type::StrTab => 3,
            Type::RelAdd => 4,
            Type::Hash => 5,
            Type::Dynamic => 6,
            Type::Note => 7,
            Type::NoBits => 8,
            Type::Rel => 9,
            Type::DynSym => 0xB,
            Type::InitArray => 0xE,
            Type::FInitArray => 0xF,
            Type::PreInitArray => 0x10,
            Type::Group => 0x11,
            Type::SymTabExtIdx => 0x12,
        }
    }

    pub fn code(self) -> (r: u32)
        ensures
            r == self.spec_code(),
    {
        match self {
            Type::ProgBits => 1,
            Type::SymTab => 2,
            Type::StrTab => 3,
            Type::RelAdd => 4,
            Type::Hash => 5,
            Type::Dynamic => 6,
            Type::Note => 7,
            Type::NoBits => 8,
            Type::Rel => 9,
            Type::DynSym => 0xB,
            Type::InitArray => 0xE,
            Type::FInitArray => 0xF,
            Type::PreInitArray => 0x10,
            Type::Group => 0x11,
            Type::SymTabExtIdx => 0x12,
        }
    }
}

pub const SECT_HEADER_SIZE: usize = 0x40;

/// One section header entry.
pub struct Header {
    pub name_offset: u32,
    pub ty: Type,
    pub flags: u64,
    pub virt_addr: u64,
    pub file_addr: u64,
    pub file_size: u64,
    pub link_idx: u32,
    pub info: u32,
    pub align: u64,
    pub entry_size: u64,
}

impl Header {
    /// Encodes the 64-bit little-endian section header into `d`.
    pub fn copy_data_64le(&self, d: &mut Vec<u8>)
        requires
            old(d)@.len() == SECT_HEADER_SIZE,
        ensures
            final(d)@.len() == SECT_HEADER_SIZE,
            spec_le_at(final(d)@, 0x0, 4, self.name_offset as nat),
            spec_le_at(final(d)@, 0x4, 4, self.ty.spec_code() as nat),
            spec_le_at(final(d)@, 0x8, 8, self.flags as nat),
            spec_le_at(final(d)@, 0x10, 8, self.virt_addr as nat),
            spec_le_at(final(d)@, 0x18, 8, self.file_addr as nat),
            spec_le_at(final(d)@, 0x20, 8, self.file_size as nat),
            spec_le_at(final(d)@, 0x28, 4, self.link_idx as nat),
            spec_le_at(final(d)@, 0x2C, 4, self.info as nat),
            spec_le_at(final(d)@, 0x30, 8, self.align as nat),
            spec_le_at(final(d)@, 0x38, 8, self.entry_size as nat),
    {
        put_u32(d, 0x0, self.name_offset);
        put_u32(d, 0x4, self.ty.code());
        put_u64(d, 0x8, self.flags);
        put_u64(d, 0x10, self.virt_addr);
        put_u64(d, 0x18, self.file_addr);
        put_u64(d, 0x20, self.file_size);
        put_u32(d, 0x28, self.link_idx);
        put_u32(d, 0x2C, self.info);
        put_u64(d, 0x30, self.align);
        put_u64(d, 0x38, self.entry_size);
    }
}

} // verus!
