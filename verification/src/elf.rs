//! The ELF object layout: the file header and the byte-level encoding of
//! the header tables, little endian throughout.

use vstd::prelude::*;

pub mod prog;
pub mod sect;

verus! {

use vstd::arithmetic::power2::{pow2, lemma2_to64, lemma2_to64_rest};
use crate::sparsebin::SparseBin;

/// The word width of the object file.
#[derive(PartialEq, Eq, Clone, Copy, Debug, Structural)]
pub enum Class {
    Elf32,
    Elf64,
}

impl Class {
    pub open spec fn spec_code(self) -> u8 {
        match self {
            Class::Elf32 => 1,
            Class::Elf64 => 2,
        }
    }
}

/// The byte order of the object file.
#[derive(PartialEq, Eq, Clone, Copy, Debug, Structural)]
pub enum Endian {
    Little,
    Big,
}

impl Endian {
    pub open spec fn spec_code(self) -> u8 {
        match self {
            Endian::Little => 1,
            Endian::Big => 2,
        }
    }
}

/// The object file type.
#[derive(Clone, Copy, Debug, PartialEq, Eq, Structural)]
pub enum Type {
    /// A static object or library file.
    Reloc,
    /// An executable file.
    Exec,
    /// A dynamic object or library file.
    Shared,
}

impl Type {
    pub open spec fn spec_code(self) -> u16 {
        match self {
            Type::Reloc => 1,
            Type::Exec => 2,
            Type::Shared => 3,
        }
    }

    pub fn code(self) -> (r: u16)
        ensures
            r == self.spec_code(),
    {
        match self {
            Type::Reloc => 1,
            Type::Exec => 2,
            Type::Shared => 3,
        }
    }
}

/// The AArch64 machine code.
pub const ISA: u16 = 0xB7;

/// The bytes `off .. off + nbytes` of `s` hold `v` little endian.
pub open spec fn spec_le_at(s: Seq<u8>, off: int, nbytes: nat, v: nat) -> bool {
    forall|j: int| 0 <= j < nbytes ==> #[trigger] s[off + j] == ((v / pow2((8 * j) as nat)) % 256) as u8
}

/// Stores a 16-bit value little endian at `off`.
pub fn put_u16(d: &mut Vec<u8>, off: usize, v: u16)
    requires
        off + 2 <= old(d)@.len(),
    ensures
        final(d)@.len() == old(d)@.len(),
        spec_le_at(final(d)@, off as int, 2, v as nat),
        forall|j: int| 0 <= j < old(d)@.len() && !(off <= j < off + 2) ==> final(d)@[j] == old(d)@[j],
{
    proof {
        lemma2_to64();
    }
    let total = d.len();
    d[off] = (v % 256) as u8;
    d[off + 1] = ((v / 256) % 256) as u8;
    proof {
        assert forall|j: int| 0 <= j < 2 implies #[trigger] d@[off + j] == (((v as nat) / pow2(
            (8 * j) as nat,
        )) % 256) as u8 by {
            if j == 0 {
                assert(pow2(0) == 1);
                assert((v as nat) / 1 == v as nat);
            } else {
                assert(pow2(8) == 256);
            }
        }
    }
}

/// Stores a 32-bit value little endian at `off`.
pub fn put_u32(d: &mut Vec<u8>, off: usize, v: u32)
    requires
        off + 4 <= old(d)@.len(),
    ensures
        final(d)@.len() == old(d)@.len(),
        spec_le_at(final(d)@, off as int, 4, v as nat),
        forall|j: int| 0 <= j < old(d)@.len() && !(off <= j < off + 4) ==> final(d)@[j] == old(d)@[j],
{
    proof {
        lemma2_to64();
    }
    let total = d.len();
    d[off] = (v % 256) as u8;
    d[off + 1] = ((v / 256) % 256) as u8;
    d[off + 2] = ((v / 65536) % 256) as u8;
    d[off + 3] = ((v / 16777216) % 256) as u8;
    proof {
        assert forall|j: int| 0 <= j < 4 implies #[trigger] d@[off + j] == (((v as nat) / pow2(
            (8 * j) as nat,
        )) % 256) as u8 by {
            assert(pow2(0) == 1 && pow2(8) == 256 && pow2(16) == 65536 && pow2(24) == 16777216);
            if j == 0 {
                assert((v as nat) / 1 == v as nat);
            }
        }
    }
}

/// Stores a 64-bit value little endian at `off`.
pub fn put_u64(d: &mut Vec<u8>, off: usize, v: u64)
    requires
        off + 8 <= old(d)@.len(),
    ensures
        final(d)@.len() == old(d)@.len(),
        spec_le_at(final(d)@, off as int, 8, v as nat),
        forall|j: int| 0 <= j < old(d)@.len() && !(off <= j < off + 8) ==> final(d)@[j] == old(d)@[j],
{
    proof {
        lemma2_to64();
        lemma2_to64_rest();
    }
    let total = d.len();
    d[off] = (v % 256) as u8;
    d[off + 1] = ((v / 256) % 256) as u8;
    d[off + 2] = ((v / 65536) % 256) as u8;
    d[off + 3] = ((v / 16777216) % 256) as u8;
    d[off + 4] = ((v / 0x1_0000_0000) % 256) as u8;
    d[off + 5] = ((v / 0x100_0000_0000) % 256) as u8;
    d[off + 6] = ((v / 0x1_0000_0000_0000) % 256) as u8;
    d[off + 7] = ((v / 0x100_0000_0000_0000) % 256) as u8;
    proof {
        assert forall|j: int| 0 <= j < 8 implies #[trigger] d@[off + j] == (((v as nat) / pow2(
            (8 * j) as nat,
        )) % 256) as u8 by {
            assert(pow2(0) == 1 && pow2(8) == 256 && pow2(16) == 65536 && pow2(24) == 16777216);
            assert(pow2(32) == 0x1_0000_0000 && pow2(40) == 0x100_0000_0000 && pow2(48)
                == 0x1_0000_0000_0000 && pow2(56) == 0x100_0000_0000_0000);
            if j == 0 {
                assert((v as nat) / 1 == v as nat);
            }
        }
    }
}

/// Stores one byte at `off`.
pub fn put_u8(d: &mut Vec<u8>, off: usize, v: u8)
    requires
        off < old(d)@.len(),
    ensures
        final(d)@.len() == old(d)@.len(),
        final(d)@[off as int] == v,
        forall|j: int| 0 <= j < old(d)@.len() && j != off ==> final(d)@[j] == old(d)@[j],
{
    d[off] = v;
}

/// The ELF file header.
pub struct Header {
    pub entry: u64,
    pub ty: Type,
    pub prog_count: u16,
    pub sect_count: u16,
    pub prog_table_addr: u64,
    pub sect_table_addr: u64,
    pub sect_names_idx: u16,
}

pub const FILE_HEADER_SIZE: usize = 0x40;

impl Header {
    /// Encodes the 64-bit little-endian file header into `d`.
    pub fn copy_data_64le(&self, d: &mut Vec<u8>)
        requires
            old(d)@.len() == FILE_HEADER_SIZE,
        ensures
            final(d)@.len() == FILE_HEADER_SIZE,
            final(d)@[0] == 0x7F && final(d)@[1] == 69 && final(d)@[2] == 76 && final(d)@[3] == 70,
            final(d)@[4] == 2,  // 64-bit class
            final(d)@[5] == 1,  // little endian
            final(d)@[6] == 1,  // version
            final(d)@[7] == 3,  // abi
            spec_le_at(final(d)@, 0x10, 2, self.ty.spec_code() as nat),
            spec_le_at(final(d)@, 0x12, 2, ISA as nat),
            spec_le_at(final(d)@, 0x18, 8, self.entry as nat),
            spec_le_at(final(d)@, 0x20, 8, self.prog_table_addr as nat),
            spec_le_at(final(d)@, 0x28, 8, self.sect_table_addr as nat),
            spec_le_at(final(d)@, 0x38, 2, self.prog_count as nat),
            spec_le_at(final(d)@, 0x3C, 2, self.sect_count as nat),
            spec_le_at(final(d)@, 0x3E, 2, self.sect_names_idx as nat),
    {
        put_u8(d, 0x0, 0x7F);
        put_u8(d, 0x1, 69);  // 'E'
        put_u8(d, 0x2, 76);  // 'L'
        put_u8(d, 0x3, 70);  // 'F'
        put_u8(d, 0x4, 2);  // Class::Elf64
        put_u8(d, 0x5, 1);  // Endian::Little
        put_u8(d, 0x6, 1);  // version
        put_u8(d, 0x7, 0x3);  // linux abi
        // padding
        put_u8(d, 0x8, 0);
        put_u8(d, 0x9, 0);
        put_u8(d, 0xA, 0);
        put_u8(d, 0xB, 0);
        put_u8(d, 0xC, 0);
        put_u8(d, 0xD, 0);
        put_u8(d, 0xE, 0);
        put_u8(d, 0xF, 0);
        put_u16(d, 0x10, self.ty.code());
        put_u16(d, 0x12, ISA);
        put_u32(d, 0x14, 1);  // version
        put_u64(d, 0x18, self.entry);
        put_u64(d, 0x20, self.prog_table_addr);
        put_u64(d, 0x28, self.sect_table_addr);
        put_u32(d, 0x30, 0);  // flags
        put_u16(d, 0x34, FILE_HEADER_SIZE as u16);
        put_u16(d, 0x36, prog::PROG_HEADER_SIZE as u16);
        put_u16(d, 0x38, self.prog_count);
        put_u16(d, 0x3A, sect::SECT_HEADER_SIZE as u16);
        put_u16(d, 0x3C, self.sect_count);
        put_u16(d, 0x3E, self.sect_names_idx);
    }
}

/// The object being written: its entry point, header tables and image.
pub struct Elf {
    pub entry: u64,
    pub ty: Type,
    pub prog_tab: Vec<prog::Header>,
    pub sect_tab: Vec<sect::Header>,
    pub bin: SparseBin,
}

impl Elf {
    pub fn new() -> (r: Self)
        ensures
            r.entry == 0,
            r.ty == Type::Exec,
            r.prog_tab@.len() == 0,
            r.sect_tab@.len() == 0,
            r.bin.wf(),
    {
        Elf {
            entry: 0,
            ty: Type::Exec,
            prog_tab: Vec::new(),
            sect_tab: Vec::new(),
            bin: SparseBin::new(),
        }
    }

    /// Encodes the file header and both header tables as the leading
    /// bytes of the object file.
    pub fn write_64le(&self) -> (r: Vec<u8>)
        requires
            self.prog_tab@.len() <= u16::MAX,
            self.sect_tab@.len() <= u16::MAX,
        ensures
            r@.len() == FILE_HEADER_SIZE + self.prog_tab@.len() * prog::PROG_HEADER_SIZE
                + self.sect_tab@.len() * sect::SECT_HEADER_SIZE,
    {
        let prog_offset: usize = FILE_HEADER_SIZE;
        let nprog = self.prog_tab.len();
        let nsect = self.sect_tab.len();
        proof {
            assert(nprog * prog::PROG_HEADER_SIZE <= 0x10000 * 0x38) by (nonlinear_arith)
                requires
                    nprog <= 0x10000,
            ;
            assert(nsect * sect::SECT_HEADER_SIZE <= 0x10000 * 0x40) by (nonlinear_arith)
                requires
                    nsect <= 0x10000,
            ;
        }
        let sect_offset: usize = prog_offset + prog::PROG_HEADER_SIZE * nprog;
        let header = Header {
            entry: self.entry,
            ty: self.ty,
            prog_count: nprog as u16,
            sect_count: nsect as u16,
            prog_table_addr: prog_offset as u64,
            sect_table_addr: sect_offset as u64,
            sect_names_idx: 0,
        };
        let mut out: Vec<u8> = zero_vec(FILE_HEADER_SIZE);
        header.copy_data_64le(&mut out);
        let mut i: usize = 0;
        while i < nprog
            invariant
                nprog == self.prog_tab@.len(),
                nprog * prog::PROG_HEADER_SIZE <= 0x10000 * 0x38,
                i <= nprog,
                out@.len() == FILE_HEADER_SIZE + i * prog::PROG_HEADER_SIZE,
            decreases nprog - i,
        {
            let mut buf: Vec<u8> = zero_vec(prog::PROG_HEADER_SIZE);
            self.prog_tab[i].copy_data_64le(&mut buf);
            out.append(&mut buf);
            i = i + 1;
        }
        let mut i2: usize = 0;
        while i2 < nsect
            invariant
                nprog == self.prog_tab@.len(),
                nsect == self.sect_tab@.len(),
                nsect * sect::SECT_HEADER_SIZE <= 0x10000 * 0x40,
                i2 <= nsect,
                out@.len() == FILE_HEADER_SIZE + nprog * prog::PROG_HEADER_SIZE + i2
                    * sect::SECT_HEADER_SIZE,
            decreases nsect - i2,
        {
            let mut buf: Vec<u8> = zero_vec(sect::SECT_HEADER_SIZE);
            self.sect_tab[i2].copy_data_64le(&mut buf);
            out.append(&mut buf);
            i2 = i2 + 1;
        }
        out
    }
}

/// A vector of `n` zero bytes.
pub fn zero_vec(n: usize) -> (r: Vec<u8>)
    ensures
        r@.len() == n,
        forall|j: int| 0 <= j < n ==> r@[j] == 0u8,
{
    let mut v: Vec<u8> = Vec::new();
    let mut k: usize = 0;
    while k < n
        invariant
            k <= n,
            v@.len() == k,
            forall|j: int| 0 <= j < k ==> v@[j] == 0u8,
        decreases n - k,
    {
        v.push(0);
        k = k + 1;
    }
    v
}

} // verus!
