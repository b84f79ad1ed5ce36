//! The instruction-description engine: operand model, per-mnemonic
//! variant tables, the variant selector, and the errors shared by all of
//! them.

use vstd::prelude::*;

pub mod def;
pub mod dec;
pub mod dir;
pub mod operand;
pub mod util;

verus! {

use crate::intern::Key;
use operand::Encoder;

/// What can go wrong while selecting a variant or encoding an operand.
#[derive(Debug, Clone, Copy, PartialEq, Eq, Structural)]
pub enum Error {
    Required,
    Resolve,
    Unexpected,
    OutOfRange,
    NotAligned,
    InvalidGpr,
    MismatchedConstShift,
    InvalidExtendWidth,
    UnmatchedVariant,
    DuplicateLabel,
}

/// An error and the argument index that caused it.
#[derive(Debug, Clone, Copy, PartialEq, Eq, Structural)]
pub struct ErrorIdx(pub Error, pub u8);

/// An error and a static tag naming the recipe field that caused it.
#[derive(Debug, Clone, Copy)]
pub struct ErrorMacro(pub Error, pub &'static str);

/// A deferred patch of an emitted word, pending a label resolution: the
/// label key, the bit position just below the field inside the word, the
/// address of the word, and the encoder to run once the label is known.
#[derive(Debug, Clone, Copy)]
pub struct Fixup {
    pub key: Key,
    pub bit_idx: u8,
    pub pc: u64,
    pub enc: Encoder,
}

/// An address whose low `ALIGN` bits are zero by construction.
pub struct Addr<const ALIGN: usize>(pub usize);

impl<const ALIGN: usize> Addr<ALIGN> {
    pub fn new(addr: usize) -> (r: Option<Self>)
        requires
            ALIGN >= 1,
        ensures
            r is Some <==> addr as int % ALIGN as int == 0,
            r matches Some(a) ==> a.0 == addr,
    {
        if addr % ALIGN == 0 {
            Some(Addr(addr))
        } else {
            None
        }
    }

    pub fn get(&self) -> (r: usize)
        ensures
            r == self.0,
    {
        self.0
    }
}

} // verus!

verus! {

use crate::assembler::emit::{fixup_wf, spec_fixup_value, Emit};
use crate::bitstack::spec_patch_bits;

/// Records a fixup for the word being assembled: the label key, the
/// current bit position, the current emission address, and the encoder
/// to run once the label resolves.
pub fn create_fixup(e: &Emit, key: Key, enc: Encoder) -> (r: Fixup)
    ensures
        r.key == key,
        r.bit_idx == e.bit_stack.len,
        r.pc == e.pc,
        r.enc == enc,
{
    Fixup { key, bit_idx: e.bit_idx(), pc: e.pc(), enc }
}

/// Applies one fixup: resolves the label, re-encodes the displacement
/// with the emission address restored to the fixup's record, and patches
/// the already emitted word. A label never defined yields exactly
/// `Resolve`; a displacement the field cannot hold yields the encoder's
/// error; in both failing cases no emitted word changes.
pub fn apply_label_fixup(e: &mut Emit, fixup: Fixup) -> (r: Result<(), Error>)
    requires
        old(e).wf(),
        fixup_wf(fixup),
    ensures
        final(e).wf(),
        r == (match (if old(e).labels.addr_map@.contains_key(fixup.key.0) {
            Some(old(e).labels.addr_map@[fixup.key.0])
        } else {
            None
        }) {
            Some(addr) => match spec_fixup_value(fixup, addr) {
                Ok(_) => Result::<(), Error>::Ok(()),
                Err(er) => Result::<(), Error>::Err(er),
            },
            None => Result::<(), Error>::Err(Error::Resolve),
        }),
        r is Ok ==> final(e).bin.spec_word32(fixup.pc as nat) == spec_patch_bits(
            old(e).bin.spec_word32(fixup.pc as nat) as u32,
            spec_fixup_value(fixup, old(e).labels.addr_map@[fixup.key.0])->Ok_0,
            fixup.enc.spec_width(),
            fixup.bit_idx as nat,
        ),
        r is Ok ==> crate::assembler::emit::spec_bytes_framed(old(e).bin, final(e).bin, fixup.pc),
        r is Err ==> final(e).bin == old(e).bin,
{
    e.apply_fixup(&fixup)
}

} // verus!
