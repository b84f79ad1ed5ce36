//! Aligned addresses: an address type that can only be constructed from
//! values with the required number of zero low bits.

use vstd::prelude::*;

verus! {

use vstd::arithmetic::power2::pow2;
use crate::bits::pow2_u64;

/// Byte count of an alignment, as its number of zero low bits.
#[derive(Debug, Clone, Copy, PartialEq, Eq, Structural)]
pub enum AlignBitCt {
    B1,
    B2,
    B4,
    B8,
    B16,
}

impl AlignBitCt {
    /// The number of zero low bits.
    pub open spec fn spec_bits(self) -> u32 {
        match self {
            AlignBitCt::B1 => 0,
            AlignBitCt::B2 => 1,
            AlignBitCt::B4 => 2,
            AlignBitCt::B8 => 3,
            AlignBitCt::B16 => 4,
        }
    }

    pub fn bits(self) -> (r: u32)
        ensures
            r == self.spec_bits(),
    {
        match self {
            AlignBitCt::B1 => 0,
            AlignBitCt::B2 => 1,
            AlignBitCt::B4 => 2,
            AlignBitCt::B8 => 3,
            AlignBitCt::B16 => 4,
        }
    }
}

/// An address whose low `ALIGN` bits are zero by construction.
pub struct Addr<const ALIGN: u32>(pub usize);

impl<const ALIGN: u32> Addr<ALIGN> {
    pub open spec fn wf(&self) -> bool {
        (self.0 as nat) % pow2(ALIGN as nat) == 0
    }

    /// Wraps an address the caller knows is aligned.
    pub fn new(addr: usize) -> (r: Self)
        requires
            ALIGN < 32,
            (addr as nat) % pow2(ALIGN as nat) == 0,
        ensures
            r.0 == addr,
            r.wf(),
    {
        Addr(addr)
    }

    /// Checks the alignment and wraps the address when it holds.
    pub fn try_new(addr: usize) -> (r: Option<Self>)
        requires
            ALIGN < 32,
        ensures
            r is Some <==> (addr as nat) % pow2(ALIGN as nat) == 0,
            r matches Some(a) ==> a.0 == addr && a.wf(),
    {
        let p = pow2_u64(ALIGN);
        if (addr as u64) % p == 0 {
            Some(Addr(addr))
        } else {
            None
        }
    }

    /// Wraps an address whose alignment was established elsewhere.
    pub fn new_unchecked(addr: usize) -> (r: Self)
        requires
            ALIGN < 32,
            (addr as nat) % pow2(ALIGN as nat) == 0,
        ensures
            r.0 == addr,
            r.wf(),
    {
        Addr(addr)
    }
}

} // verus!
