//! Name lookup for the keyword enums, plus the FNV string hashes the
//! lookups were originally built on.

use vstd::prelude::*;

verus! {

use crate::bytes::{spec_lower, spec_upper};

pub const FNV_OFFSET: u32 = 2166136261;

pub const FNV_PRIME: u32 = 16777619;

/// One FNV-1a step: fold a byte into the hash.
pub open spec fn spec_hash_step(hash: u32, c: u8) -> u32 {
    ((((hash ^ (c as u32)) as nat) * (FNV_PRIME as nat)) % 0x1_0000_0000) as u32
}

/// The FNV-1a hash of a byte string.
pub open spec fn spec_str_hash(s: Seq<u8>) -> u32
    decreases s.len(),
{
    if s.len() == 0 {
        FNV_OFFSET
    } else {
        spec_hash_step(spec_str_hash(s.drop_last()), s.last())
    }
}

/// Folds one byte into a hash.
fn hash_step(hash: u32, c: u8) -> (r: u32)
    ensures
        r == spec_hash_step(hash, c),
{
    let x = (hash ^ (c as u32)) as u64;
    ((x * (FNV_PRIME as u64)) % 0x1_0000_0000) as u32
}

/// The FNV-1a hash of a string.
pub fn str_hash(s: &[u8]) -> (r: u32)
    ensures
        r == spec_str_hash(s@),
{
    let n = s.len();
    let mut hash: u32 = FNV_OFFSET;
    let mut i: usize = 0;
    while i < n
        invariant
            n == s@.len(),
            i <= n,
            hash == spec_str_hash(s@.take(i as int)),
        decreases n - i,
    {
        proof {
            assert(s@.take(i + 1).drop_last() =~= s@.take(i as int));
            assert(s@.take(i + 1).last() == s@[i as int]);
        }
        hash = hash_step(hash, s[i]);
        i = i + 1;
    }
    proof {
        assert(s@.take(n as int) =~= s@);
    }
    hash
}

/// The FNV-1a hash of a string folded to lower case.
pub fn str_hash_to_lower(s: &[u8]) -> (r: u32)
    ensures
        r == spec_str_hash(s@.map_values(|c: u8| spec_lower(c))),
{
    let ghost mapped = s@.map_values(|c: u8| spec_lower(c));
    let n = s.len();
    let mut hash: u32 = FNV_OFFSET;
    let mut i: usize = 0;
    while i < n
        invariant
            n == s@.len(),
            mapped == s@.map_values(|c: u8| spec_lower(c)),
            i <= n,
            hash == spec_str_hash(mapped.take(i as int)),
        decreases n - i,
    {
        proof {
            assert(mapped.take(i + 1).drop_last() =~= mapped.take(i as int));
            assert(mapped.take(i + 1).last() == mapped[i as int]);
        }
        hash = hash_step(hash, crate::bytes::byte_to_lower(s[i]));
        i = i + 1;
    }
    proof {
        assert(mapped.take(n as int) =~= mapped);
    }
    hash
}

/// The FNV-1a hash of a string folded to upper case.
pub fn str_hash_to_upper(s: &[u8]) -> (r: u32)
    ensures
        r == spec_str_hash(s@.map_values(|c: u8| spec_upper(c))),
{
    let ghost mapped = s@.map_values(|c: u8| spec_upper(c));
    let n = s.len();
    let mut hash: u32 = FNV_OFFSET;
    let mut i: usize = 0;
    while i < n
        invariant
            n == s@.len(),
            mapped == s@.map_values(|c: u8| spec_upper(c)),
            i <= n,
            hash == spec_str_hash(mapped.take(i as int)),
        decreases n - i,
    {
        proof {
            assert(mapped.take(i + 1).drop_last() =~= mapped.take(i as int));
            assert(mapped.take(i + 1).last() == mapped[i as int]);
        }
        hash = hash_step(hash, crate::bytes::byte_to_upper(s[i]));
        i = i + 1;
    }
    proof {
        assert(mapped.take(n as int) =~= mapped);
    }
    hash
}

/// Name lookup for a keyword enum: the value named by a byte string
/// written all lower case or all upper case, and the canonical name of a
/// value.
pub trait EnumStr: Sized {
    /// The value named by an upper-case byte string.
    spec fn spec_of_upper(s: Seq<u8>) -> Option<Self>;

    /// Looks a value up by name, written all lower case or all upper
    /// case.
    fn from_str_lower_or_upper(s: &[u8]) -> (r: Option<Self>)
        ensures
            r == Self::spec_of_upper(s@.map_values(|c: u8| spec_upper(c))),
    ;

    /// The canonical name of a value.
    fn to_str(self) -> &'static str;
}

impl EnumStr for crate::inst::def::Mnemonic {
    open spec fn spec_of_upper(s: Seq<u8>) -> Option<Self> {
        crate::inst::def::spec_mnemonic_of(s)
    }

    fn from_str_lower_or_upper(s: &[u8]) -> (r: Option<Self>) {
        crate::inst::def::Mnemonic::from_str_lower_or_upper(s)
    }

    fn to_str(self) -> &'static str {
        match self {
            crate::inst::def::Mnemonic::UDF => "UDF",
            crate::inst::def::Mnemonic::ADD => "ADD",
            crate::inst::def::Mnemonic::ADDS => "ADDS",
            crate::inst::def::Mnemonic::B => "B",
        }
    }
}

impl EnumStr for crate::inst::operand::CondKind {
    open spec fn spec_of_upper(s: Seq<u8>) -> Option<Self> {
        crate::inst::operand::spec_condkind_of(s)
    }

    fn from_str_lower_or_upper(s: &[u8]) -> (r: Option<Self>) {
        crate::inst::operand::CondKind::from_str_lower_or_upper(s)
    }

    fn to_str(self) -> &'static str {
        match self {
            crate::inst::operand::CondKind::EQ => "EQ",
            crate::inst::operand::CondKind::NE => "NE",
            crate::inst::operand::CondKind::CS => "CS",
            crate::inst::operand::CondKind::CC => "CC",
            crate::inst::operand::CondKind::MI => "MI",
            crate::inst::operand::CondKind::PL => "PL",
            crate::inst::operand::CondKind::VS => "VS",
            crate::inst::operand::CondKind::VC => "VC",
            crate::inst::operand::CondKind::HI => "HI",
            crate::inst::operand::CondKind::LS => "LS",
            crate::inst::operand::CondKind::GE => "GE",
            crate::inst::operand::CondKind::LT => "LT",
            crate::inst::operand::CondKind::GT => "GT",
            crate::inst::operand::CondKind::LE => "LE",
            crate::inst::operand::CondKind::AL => "AL",
            crate::inst::operand::CondKind::NV => "NV",
        }
    }
}

impl EnumStr for crate::inst::operand::ShiftKind {
    open spec fn spec_of_upper(s: Seq<u8>) -> Option<Self> {
        crate::inst::operand::spec_shiftkind_of(s)
    }

    fn from_str_lower_or_upper(s: &[u8]) -> (r: Option<Self>) {
        crate::inst::operand::ShiftKind::from_str_lower_or_upper(s)
    }

    fn to_str(self) -> &'static str {
        match self {
            crate::inst::operand::ShiftKind::LSL => "LSL",
            crate::inst::operand::ShiftKind::LSR => "LSR",
            crate::inst::operand::ShiftKind::ASR => "ASR",
        }
    }
}

impl EnumStr for crate::inst::operand::ExtendKind {
    open spec fn spec_of_upper(s: Seq<u8>) -> Option<Self> {
        crate::inst::operand::spec_extendkind_of(s)
    }

    fn from_str_lower_or_upper(s: &[u8]) -> (r: Option<Self>) {
        crate::inst::operand::ExtendKind::from_str_lower_or_upper(s)
    }

    fn to_str(self) -> &'static str {
        match self {
            crate::inst::operand::ExtendKind::UXTB => "UXTB",
            crate::inst::operand::ExtendKind::UXTH => "UXTH",
            crate::inst::operand::ExtendKind::UXTW => "UXTW",
            crate::inst::operand::ExtendKind::UXTX => "UXTX",
            crate::inst::operand::ExtendKind::SXTB => "SXTB",
            crate::inst::operand::ExtendKind::SXTH => "SXTH",
            crate::inst::operand::ExtendKind::SXTW => "SXTW",
            crate::inst::operand::ExtendKind::SXTX => "SXTX",
        }
    }
}

} // verus!
