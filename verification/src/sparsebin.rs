//! Sparse page-backed address space: random-access byte storage with
//! page-granular backing allocation and typed little-endian reads and
//! writes at aligned addresses. Reading an address whose page has never
//! been written yields zero.

use vstd::prelude::*;

verus! {

use vstd::hash_map::HashMapWithView;
use crate::bits::pow2_u64;

pub const PAGE_BITS: u32 = 12;

pub const PAGE_SIZE: usize = 4096;

/// One 4 KiB page of backing storage.
pub struct Page(pub Vec<u8>);

impl Page {
    /// A page always holds exactly `PAGE_SIZE` bytes.
    pub open spec fn wf(&self) -> bool {
        self.0@.len() == PAGE_SIZE
    }

    /// A fresh page of zero bytes.
    pub fn new_zeroed() -> (r: Self)
        ensures
            r.wf(),
            forall|i: int| 0 <= i < PAGE_SIZE ==> r.0@[i] == 0u8,
    {
        Page(vec![0u8; PAGE_SIZE])
    }
}

impl Default for Page {
    fn default() -> (r: Self)
        ensures
            r.wf(),
            forall|i: int| 0 <= i < PAGE_SIZE ==> r.0@[i] == 0u8,
    {
        Page::new_zeroed()
    }
}

/// An address whose low bits are known to be zero: it can only be
/// produced from a value divisible by `ALIGN`.
#[derive(Copy, Clone)]
pub struct Aligned<const ALIGN: u64>(pub u64);

impl<const ALIGN: u64> Aligned<ALIGN> {
    /// The address is divisible by the alignment.
    pub open spec fn wf(&self) -> bool {
        self.0 % ALIGN == 0
    }

    /// Succeeds exactly on the multiples of `ALIGN`.
    pub fn new(value: u64) -> (r: Option<Self>)
        requires
            ALIGN >= 1,
        ensures
            r is Some <==> value % ALIGN == 0,
            r matches Some(a) ==> a.0 == value,
    {
        if value % ALIGN == 0 {
            Some(Aligned(value))
        } else {
            None
        }
    }

    /// The caller vouches for the alignment.
    pub fn new_unchecked(value: u64) -> (r: Self)
        requires
            value % ALIGN == 0,
        ensures
            r.0 == value,
    {
        Aligned(value)
    }
}

/// The page-addressed sparse byte store.
pub struct SparseBin {
    pub pages: HashMapWithView<u64, Page>,
}

impl SparseBin {
    /// Every backed page holds a full page of bytes.
    pub open spec fn wf(&self) -> bool {
        forall|k: u64| self.pages@.contains_key(k) ==> (#[trigger] self.pages@[k]).wf()
    }

    /// The page index and in-page offset of an address.
    pub open spec fn page_of(addr: nat) -> nat {
        addr / (PAGE_SIZE as nat)
    }

    /// True when the page holding `addr` has backing storage.
    pub open spec fn backed(&self, addr: nat) -> bool {
        self.pages@.contains_key(Self::page_of(addr) as u64)
    }

    /// The byte visible at `addr`: the stored byte on a backed page and
    /// zero everywhere else.
    pub open spec fn spec_byte(&self, addr: nat) -> u8 {
        if self.backed(addr) {
            self.pages@[Self::page_of(addr) as u64].0@[(addr % (PAGE_SIZE as nat)) as int]
        } else {
            0u8
        }
    }

    /// The little-endian 32-bit value visible at `addr`.
    pub open spec fn spec_word32(&self, addr: nat) -> nat {
        (self.spec_byte(addr) as nat) + 256 * ((self.spec_byte(addr + 1) as nat) + 256 * ((
        self.spec_byte(addr + 2) as nat) + 256 * (self.spec_byte(addr + 3) as nat)))
    }

    /// The little-endian 64-bit value visible at `addr`.
    pub open spec fn spec_word64(&self, addr: nat) -> nat {
        self.spec_word32(addr) + 0x1_0000_0000 * self.spec_word32(addr + 4)
    }

    pub fn new() -> (r: Self)
        ensures
            r.wf(),
            forall|a: nat| !r.backed(a),
            forall|a: nat| r.spec_byte(a) == 0u8,
    {
        SparseBin { pages: HashMapWithView::new() }
    }

    /// Writes one byte, allocating the page on first touch.
    pub fn write_u8(&mut self, addr: u64, value: u8)
        requires
            old(self).wf(),
        ensures
            final(self).wf(),
            final(self).spec_byte(addr as nat) == value,
            forall|a: nat| a <= u64::MAX && a != addr ==> final(self).spec_byte(a) == old(self).spec_byte(a),
            forall|a: nat|
                a <= u64::MAX && Self::page_of(a) != Self::page_of(addr as nat) ==> final(self).backed(a) == old(self).backed(a),
            final(self).backed(addr as nat),
    {
        let idx = addr / (PAGE_SIZE as u64);
        let off = (addr % (PAGE_SIZE as u64)) as usize;
        let mut page = match self.pages.remove(&idx) {
            Some(p) => p,
            None => Page::new_zeroed(),
        };
        page.0[off] = value;
        self.pages.insert(idx, page);
        proof {
            assert forall|a: nat| a <= u64::MAX && a != addr implies self.spec_byte(a) == old(self).spec_byte(a) by {
                assert(Self::page_of(a) <= a) by (nonlinear_arith)
                    requires
                        Self::page_of(a) == a / (PAGE_SIZE as nat),
                ;
                if Self::page_of(a) == Self::page_of(addr as nat) {
                    assert(a % (PAGE_SIZE as nat) != (addr as nat) % (PAGE_SIZE as nat)) by {
                        vstd::arithmetic::div_mod::lemma_fundamental_div_mod(
                            a as int,
                            PAGE_SIZE as int,
                        );
                        vstd::arithmetic::div_mod::lemma_fundamental_div_mod(
                            addr as int,
                            PAGE_SIZE as int,
                        );
                    }
                }
            }
            assert forall|a: nat|
                a <= u64::MAX && Self::page_of(a) != Self::page_of(addr as nat) implies self.backed(a)
                == old(self).backed(a) by {
                assert(Self::page_of(a) <= a) by (nonlinear_arith)
                    requires
                        Self::page_of(a) == a / (PAGE_SIZE as nat),
                ;
            }
        }
    }

    /// Reads one byte; an unbacked page reads as zero.
    pub fn get_u8(&self, addr: u64) -> (r: u8)
        requires
            self.wf(),
        ensures
            r == self.spec_byte(addr as nat),
    {
        let idx = addr / (PAGE_SIZE as u64);
        let off = (addr % (PAGE_SIZE as u64)) as usize;
        match self.pages.get(&idx) {
            Some(p) => p.0[off],
            None => 0,
        }
    }

    /// Writes a 32-bit word as four little-endian bytes.
    #[verifier::rlimit(30)]
    pub fn write_u32(&mut self, addr: Aligned<4>, value: u32)
        requires
            old(self).wf(),
            addr.wf(),
        ensures
            final(self).wf(),
            final(self).spec_word32(addr.0 as nat) == value,
            forall|a: nat|
                a <= u64::MAX && !(addr.0 <= a < addr.0 + 4) ==> final(self).spec_byte(a) == old(self).spec_byte(a),
            forall|a: nat|
                a <= u64::MAX && Self::page_of(a) != Self::page_of(addr.0 as nat) ==> final(self).backed(a) == old(self).backed(a),
    {
        let a = addr.0;
        let b0 = (value % 256) as u8;
        let b1 = ((value / 256) % 256) as u8;
        let b2 = ((value / 65536) % 256) as u8;
        let b3 = ((value / 16777216) % 256) as u8;
        proof {
            assert(Self::page_of((a + 1) as nat) == Self::page_of(a as nat) && Self::page_of(
                (a + 2) as nat,
            ) == Self::page_of(a as nat) && Self::page_of((a + 3) as nat) == Self::page_of(
                a as nat,
            )) by {
                lemma_aligned_same_page(a as nat);
            }
        }
        self.write_u8(a, b0);
        self.write_u8(a + 1, b1);
        self.write_u8(a + 2, b2);
        self.write_u8(a + 3, b3);
    }

    /// Reads the 32-bit little-endian word at `addr`.
    pub fn get_u32(&self, addr: Aligned<4>) -> (r: u32)
        requires
            self.wf(),
            addr.wf(),
        ensures
            r == self.spec_word32(addr.0 as nat),
    {
        let a = addr.0;
        let b0 = self.get_u8(a) as u32;
        let b1 = self.get_u8(a + 1) as u32;
        let b2 = self.get_u8(a + 2) as u32;
        let b3 = self.get_u8(a + 3) as u32;
        b0 + 256 * (b1 + 256 * (b2 + 256 * b3))
    }

    /// Writes a 64-bit word as eight little-endian bytes.
    pub fn write_u64(&mut self, addr: Aligned<8>, value: u64)
        requires
            old(self).wf(),
            addr.wf(),
        ensures
            final(self).wf(),
            final(self).spec_word64(addr.0 as nat) == value,
            forall|a: nat|
                a <= u64::MAX && !(addr.0 <= a < addr.0 + 8) ==> final(self).spec_byte(a) == old(self).spec_byte(a),
    {
        let a = addr.0;
        let lo = (value % 0x1_0000_0000) as u32;
        let hi = (value / 0x1_0000_0000) as u32;
        self.write_u32(Aligned::<4>(a), lo);
        self.write_u32(Aligned::<4>(a + 4), hi);
    }

    /// Reads the 64-bit little-endian word at `addr`.
    pub fn get_u64(&self, addr: Aligned<8>) -> (r: u64)
        requires
            self.wf(),
            addr.wf(),
        ensures
            r == self.spec_word64(addr.0 as nat),
    {
        let a = addr.0;
        let lo = self.get_u32(Aligned::<4>(a)) as u64;
        let hi = self.get_u32(Aligned::<4>(a + 4)) as u64;
        lo + 0x1_0000_0000 * hi
    }
}

/// The three other bytes of a 4-byte-aligned word lie on the same page.
proof fn lemma_aligned_same_page(a: nat)
    requires
        a % 4 == 0,
    ensures
        forall|k: nat| 0 < k < 4 ==> #[trigger] SparseBin::page_of(a + k) == SparseBin::page_of(a),
{
    assert forall|k: nat| 0 < k < 4 implies #[trigger] SparseBin::page_of(a + k)
        == SparseBin::page_of(a) by {
        let off = a % (PAGE_SIZE as nat);
        vstd::arithmetic::div_mod::lemma_fundamental_div_mod(a as int, PAGE_SIZE as int);
        assert(off % 4 == 0) by (nonlinear_arith)
            requires
                a % 4 == 0,
                off == a % (PAGE_SIZE as nat),
        ;
        assert(off <= PAGE_SIZE - 4);
        vstd::arithmetic::div_mod::lemma_div_multiples_vanish_fancy(
            (a / (PAGE_SIZE as nat)) as int,
            (off + k) as int,
            PAGE_SIZE as int,
        );
    }
}

/// Reading any address on a page that was never written gives zero.
pub proof fn lemma_unwritten_page_reads_zero(bin: SparseBin, addr: nat)
    requires
        !bin.backed(addr),
    ensures
        bin.spec_byte(addr) == 0u8,
{
}

} // verus!

verus! {

impl SparseBin {
    /// Copies `count` bytes starting at `start` out of the store.
    pub fn read_bytes(&self, start: u64, count: usize) -> (r: Vec<u8>)
        requires
            self.wf(),
            start + count <= u64::MAX,
        ensures
            r@.len() == count,
            forall|j: int| 0 <= j < count ==> r@[j] == self.spec_byte((start + j) as nat),
    {
        let mut v: Vec<u8> = Vec::new();
        let mut i: usize = 0;
        while i < count
            invariant
                self.wf(),
                start + count <= u64::MAX,
                i <= count,
                v@.len() == i,
                forall|j: int| 0 <= j < i ==> v@[j] == self.spec_byte((start + j) as nat),
            decreases count - i,
        {
            v.push(self.get_u8(start + (i as u64)));
            i = i + 1;
        }
        v
    }

    /// The (possibly empty) prefix slice up to the first page boundary,
    /// an iterator over the whole pages, and the suffix slice after the
    /// last whole page, so that an object writer can walk the range
    /// without materialising absent pages.
    pub fn page_range_u8(&self, range: core::ops::Range<u64>) -> (r: (Vec<u8>, PageRangeIter<'_>, Vec<u8>))
        requires
            self.wf(),
            range.start <= range.end,
        ensures
            r.1.wf(),
            r.1.bin == self,
            r.1.end_idx == range.end / 4096,
            range.start % 4096 == 0 ==> r.1.idx == range.start / 4096,
            range.start % 4096 != 0 && range.start / 4096 + 1 <= range.end / 4096 ==> r.1.idx
                == range.start / 4096 + 1,
            range.start % 4096 != 0 && range.start / 4096 + 1 > range.end / 4096 ==> r.1.idx
                == range.end / 4096,
            ({
                let head = if range.start % 4096 == 0 || (range.start / 4096 == range.end / 4096
                    && range.end % 4096 != 0) {
                    0nat
                } else {
                    (4096 - range.start % 4096) as nat
                };
                r.0@.len() == head && (forall|j: int|
                    0 <= j < head ==> r.0@[j] == self.spec_byte((range.start + j) as nat))
            }),
            ({
                let tail_start = range.end - range.end % 4096;
                let tail = if range.end % 4096 == 0 || range.start > tail_start {
                    0nat
                } else {
                    (range.end % 4096) as nat
                };
                r.2@.len() == tail && (forall|j: int|
                    0 <= j < tail ==> r.2@[j] == self.spec_byte((tail_start + j) as nat))
            }),
    {
        let start = range.start;
        let end = range.end;
        let start_page = start / 4096;
        let start_off = start % 4096;
        let end_page = end / 4096;
        let end_off = end % 4096;
        let same_partial_page = start_page == end_page && end_off != 0;
        let first: Vec<u8> = if start_off == 0 || same_partial_page {
            Vec::new()
        } else {
            self.read_bytes(start, (4096 - start_off) as usize)
        };
        let iter_start = if start_off == 0 {
            start_page
        } else {
            start_page + 1
        };
        let iter_start = if iter_start > end_page {
            end_page
        } else {
            iter_start
        };
        let last: Vec<u8> = if end_off == 0 || start > end - end_off {
            Vec::new()
        } else {
            self.read_bytes(end - end_off, end_off as usize)
        };
        (first, PageRangeIter { bin: self, idx: iter_start, end_idx: end_page }, last)
    }
}

/// An iterator over the whole pages of an address range; absent pages
/// read as zero pages.
pub struct PageRangeIter<'a> {
    pub bin: &'a SparseBin,
    pub idx: u64,
    pub end_idx: u64,
}

impl<'a> PageRangeIter<'a> {
    pub open spec fn wf(&self) -> bool {
        self.bin.wf() && self.idx <= self.end_idx && self.end_idx <= u64::MAX / 4096
    }

    /// The number of whole pages left.
    pub fn len(&self) -> (r: u64)
        requires
            self.wf(),
        ensures
            r == self.end_idx - self.idx,
    {
        self.end_idx - self.idx
    }

    /// The bytes of the next whole page.
    pub fn next(&mut self) -> (r: Option<Vec<u8>>)
        requires
            old(self).wf(),
        ensures
            final(self).wf(),
            final(self).bin == old(self).bin,
            final(self).end_idx == old(self).end_idx,
            r is Some <==> old(self).idx < old(self).end_idx,
            r matches Some(p) ==> final(self).idx == old(self).idx + 1 && p@.len() == 4096 && (
            forall|j: int|
                0 <= j < 4096 ==> p@[j] == old(self).bin.spec_byte(
                    (old(self).idx * 4096 + j) as nat,
                )),
            r is None ==> *final(self) == *old(self),
    {
        if self.idx >= self.end_idx {
            return None;
        }
        proof {
            assert(self.idx * 4096 + 4096 <= u64::MAX) by (nonlinear_arith)
                requires
                    self.idx < self.end_idx <= u64::MAX / 4096,
            ;
        }
        let page = self.bin.read_bytes(self.idx * 4096, 4096);
        self.idx = self.idx + 1;
        Some(page)
    }
}

} // verus!
