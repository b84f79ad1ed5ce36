//! A 32-bit word builder that fills the word from the most significant
//! end downward, tracking the next free bit index.

use vstd::prelude::*;

verus! {

use vstd::arithmetic::power2::{pow2, lemma_pow2_adds, lemma_pow2_pos, lemma2_to64};
use crate::bits::pow2_u64;
use crate::bitstack::lemma_append_bits_bound;

/// Returns `current` with the field of width `len` at bit index `index`
/// overwritten by the low `len` bits of `value`; bits outside the field
/// are kept.
pub open spec fn spec_set_bits(current: u32, value: u32, index: nat, len: nat) -> nat
    recommends
        index + len <= 32,
{
    let lo = (current as nat) % pow2(index);
    let mid = (value as nat) % pow2(len);
    let hi = (current as nat) / pow2(index + len);
    (hi * pow2(len) + mid) * pow2(index) + lo
}

/// Overwrites the field of width `len` at bit index `index` of `current`
/// with the low `len` bits of `value`.
pub fn set_bits(current: u32, value: u32, index: u8, len: u8) -> (r: u32)
    requires
        index + len <= 32,
    ensures
        r == spec_set_bits(current, value, index as nat, len as nat),
{
    let pi = pow2_u64(index as u32);
    let pl = pow2_u64(len as u32);
    let pil = pow2_u64((index + len) as u32);
    proof {
        lemma_pow2_adds(index as nat, len as nat);
        lemma_pow2_pos(index as nat);
        lemma_pow2_pos(len as nat);
        lemma2_to64();
    }
    let lo = (current as u64) % pi;
    let mid = (value as u64) % pl;
    let hi = (current as u64) / pil;
    proof {
        assert((current as nat) / pow2((index + len) as nat) < pow2((32 - index - len) as nat))
            by {
            crate::bits::lemma_extract_div_bound(current as nat, (index + len) as nat, (32 - index
                - len) as nat);
        }
        lemma_append_bits_bound(hi as nat, mid as nat, (32 - index - len) as nat, len as nat);
        lemma_append_bits_bound(
            (hi * pow2(len as nat) + mid) as nat,
            lo as nat,
            (32 - index) as nat,
            index as nat,
        );
        lemma_pow2_adds((32 - index) as nat, index as nat);
    }
    ((hi * pl + mid) * pi + lo) as u32
}

/// Writes the field whose high end sits at `bit_index`, of width
/// `bit_len`, into `current`.
pub fn bit_write_u32(current: u32, value: u32, bit_len: u8, bit_index: u8) -> (r: u32)
    requires
        bit_len <= bit_index <= 32,
    ensures
        r == spec_set_bits(current, value, (bit_index - bit_len) as nat, bit_len as nat),
{
    set_bits(current, value, bit_index - bit_len, bit_len)
}

/// A word builder that fills fields from the top downward.
pub trait BitWriter: Sized {
    /// The bit index, for use in contracts.
    spec fn bit_idx_spec(&self) -> u8;

    /// The word, for use in contracts.
    spec fn value_spec(&self) -> u32;

    /// The bit index of the next free field end.
    fn bit_idx(&self) -> (r: u8)
        ensures
            r == self.bit_idx_spec(),
    ;

    /// True once all 32 bits are written.
    fn all_bits_written(&self) -> (r: bool)
        ensures
            r == (self.bit_idx_spec() == 0),
    ;

    /// The word as built so far.
    fn value(&self) -> (r: u32)
        ensures
            r == self.value_spec(),
    ;

    /// Appends a field of width `bit_len` below the written bits.
    fn push(&mut self, value: u32, bit_len: u8)
        requires
            bit_len <= old(self).bit_idx_spec() <= 32,
        ensures
            final(self).bit_idx_spec() == old(self).bit_idx_spec() - bit_len,
            final(self).value_spec() == spec_set_bits(
                old(self).value_spec(),
                value,
                (old(self).bit_idx_spec() - bit_len) as nat,
                bit_len as nat,
            ),
    ;

    /// Rewrites the field of width `bit_len` ending at `bit_index`.
    fn insert(&mut self, value: u32, bit_len: u8, bit_index: u8)
        requires
            bit_len <= bit_index,
            bit_index <= 32,
        ensures
            final(self).bit_idx_spec() == old(self).bit_idx_spec(),
            final(self).value_spec() == spec_set_bits(
                old(self).value_spec(),
                value,
                (bit_index - bit_len) as nat,
                bit_len as nat,
            ),
    ;

    /// Skips a field, leaving its bits as they are.
    fn skip(&mut self, bit_len: u8)
        requires
            bit_len <= old(self).bit_idx_spec(),
        ensures
            final(self).bit_idx_spec() == old(self).bit_idx_spec() - bit_len,
            final(self).value_spec() == old(self).value_spec(),
    ;
}

/// The 32-bit word builder.
pub struct BitWriterU32 {
    pub value: u32,
    pub bit_index: u8,
}

impl BitWriterU32 {
    pub open spec fn wf(&self) -> bool {
        self.bit_index <= 32
    }

    pub fn new() -> (r: Self)
        ensures
            r.wf(),
            r.value == 0,
            r.bit_index == 32,
    {
        BitWriterU32 { value: 0, bit_index: 32 }
    }
}

impl BitWriter for BitWriterU32 {
    open spec fn bit_idx_spec(&self) -> u8 {
        self.bit_index
    }

    open spec fn value_spec(&self) -> u32 {
        self.value
    }

    fn bit_idx(&self) -> (r: u8) {
        self.bit_index
    }

    fn all_bits_written(&self) -> (r: bool) {
        self.bit_index == 0
    }

    fn value(&self) -> (r: u32) {
        self.value
    }

    fn push(&mut self, value: u32, bit_len: u8) {
        self.bit_index = self.bit_index - bit_len;
        self.value = set_bits(self.value, value, self.bit_index, bit_len);
    }

    fn insert(&mut self, value: u32, bit_len: u8, bit_index: u8) {
        self.value = set_bits(self.value, value, bit_index - bit_len, bit_len);
    }

    fn skip(&mut self, bit_len: u8) {
        self.bit_index = self.bit_index - bit_len;
    }
}

} // verus!
