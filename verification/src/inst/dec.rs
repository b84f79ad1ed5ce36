//! Bit patterns for decoding: a mask/value pair parsed from a pattern
//! string of `0`, `1`, `x` and `_` characters.

use vstd::prelude::*;

verus! {

use vstd::arithmetic::power2::{pow2, lemma2_to64, lemma_pow2_unfold, lemma_pow2_strictly_increases};
use vstd::string::StringSliceAdditionalSpecFns;

/// A bit pattern: `test` holds when all mask bits of a value equal the
/// pattern's set bits.
#[derive(Clone, Copy, Debug, PartialEq, Eq, Structural)]
pub struct BitPat<Num> {
    pub mask: Num,
    pub set_bits: Num,
    pub len: u32,
}

impl BitPat<u32> {
    /// Checks whether all set bits of `mask` in `value` match `set_bits`.
    pub fn test(self, value: u32) -> (r: bool)
        ensures
            r == (value & self.mask == self.set_bits),
    {
        value & self.mask == self.set_bits
    }
}

/// Is the byte a pattern byte that denotes one bit (not a separator)?
pub open spec fn spec_is_pat_bit(b: u8) -> bool {
    b != 95
}

/// The number of pattern bits in a pattern string.
pub open spec fn spec_pat_len(s: Seq<u8>) -> nat
    decreases s.len(),
{
    if s.len() == 0 {
        0
    } else {
        spec_pat_len(s.drop_last()) + (if spec_is_pat_bit(s.last()) {
            1nat
        } else {
            0nat
        })
    }
}

/// The mask of a pattern: one bit per `0` or `1`, zero per `x`.
pub open spec fn spec_pat_mask(s: Seq<u8>) -> nat
    decreases s.len(),
{
    if s.len() == 0 {
        0
    } else if !spec_is_pat_bit(s.last()) {
        spec_pat_mask(s.drop_last())
    } else {
        spec_pat_mask(s.drop_last()) * 2 + (if s.last() == 48 || s.last() == 49 {
            1nat
        } else {
            0nat
        })
    }
}

/// The set bits of a pattern: one per `1`.
pub open spec fn spec_pat_bits(s: Seq<u8>) -> nat
    decreases s.len(),
{
    if s.len() == 0 {
        0
    } else if !spec_is_pat_bit(s.last()) {
        spec_pat_bits(s.drop_last())
    } else {
        spec_pat_bits(s.drop_last()) * 2 + (if s.last() == 49 {
            1nat
        } else {
            0nat
        })
    }
}

/// Every byte is `0`, `1`, `x` or `_`.
pub open spec fn spec_pat_valid(s: Seq<u8>) -> bool {
    forall|i: int| 0 <= i < s.len() ==> s[i] == 48 || s[i] == 49 || s[i] == 120 || (#[trigger] s[i]) == 95
}

/// Counts the pattern bits of a pattern string.
pub fn bit_pat_str_len(s: &str) -> (r: u32)
    requires
        spec_pat_len(s.spec_bytes()) <= u32::MAX,
    ensures
        r == spec_pat_len(s.spec_bytes()),
{
    let bytes = s.as_bytes();
    let n = bytes.len();
    let mut len: u32 = 0;
    let mut i: usize = 0;
    while i < n
        invariant
            bytes@ == s.spec_bytes(),
            n == bytes@.len(),
            i <= n,
            len == spec_pat_len(bytes@.take(i as int)),
            spec_pat_len(bytes@) <= u32::MAX,
        decreases n - i,
    {
        proof {
            assert(bytes@.take(i + 1).drop_last() =~= bytes@.take(i as int));
            assert(bytes@.take(i + 1).last() == bytes@[i as int]);
            lemma_pat_len_prefix(bytes@, i + 1);
        }
        if bytes[i] != 95 {
            len = len + 1;
        }
        i = i + 1;
    }
    proof {
        assert(bytes@.take(n as int) =~= bytes@);
    }
    len
}

/// A prefix never has more pattern bits than the whole string.
proof fn lemma_pat_len_prefix(s: Seq<u8>, i: int)
    requires
        0 <= i <= s.len(),
    ensures
        spec_pat_len(s.take(i)) <= spec_pat_len(s),
    decreases s.len() - i,
{
    if i == s.len() {
        assert(s.take(i) =~= s);
    } else {
        lemma_pat_len_prefix(s, i + 1);
        assert(s.take(i + 1).drop_last() =~= s.take(i));
    }
}

/// Parses a pattern of up to 32 bits into its mask and set bits.
pub fn bit_pat_bstr_32(s: &[u8]) -> (r: BitPat<u32>)
    requires
        spec_pat_valid(s@),
        1 <= spec_pat_len(s@) <= 32,
        spec_pat_mask(s@) != 0,
    ensures
        r.mask == spec_pat_mask(s@),
        r.set_bits == spec_pat_bits(s@),
        r.len == spec_pat_len(s@),
{
    proof {
        lemma2_to64();
    }
    let n = s.len();
    let mut mask: u32 = 0;
    let mut set_bits: u32 = 0;
    let mut len: u32 = 0;
    let mut i: usize = 0;
    while i < n
        invariant
            n == s@.len(),
            i <= n,
            spec_pat_valid(s@),
            spec_pat_len(s@) <= 32,
            len == spec_pat_len(s@.take(i as int)),
            mask == spec_pat_mask(s@.take(i as int)),
            set_bits == spec_pat_bits(s@.take(i as int)),
            mask < pow2(len as nat),
            set_bits < pow2(len as nat),
            pow2(32) == 0x1_0000_0000,
        decreases n - i,
    {
        proof {
            assert(s@.take(i + 1).drop_last() =~= s@.take(i as int));
            assert(s@.take(i + 1).last() == s@[i as int]);
            lemma_pat_len_prefix(s@, i + 1);
            lemma_pow2_unfold((len + 1) as nat);
            if len + 1 < 32 {
                lemma_pow2_strictly_increases((len + 1) as nat, 32);
            }
        }
        let b = s[i];
        if b != 95 {
            mask = mask * 2 + (if b == 48 || b == 49 {
                1
            } else {
                0
            });
            set_bits = set_bits * 2 + (if b == 49 {
                1
            } else {
                0
            });
            len = len + 1;
        }
        i = i + 1;
    }
    proof {
        assert(s@.take(n as int) =~= s@);
    }
    BitPat { mask, set_bits, len }
}

/// Parses a pattern string of up to 32 bits.
pub fn bit_pat_str_32(s: &str) -> (r: BitPat<u32>)
    requires
        spec_pat_valid(s.spec_bytes()),
        1 <= spec_pat_len(s.spec_bytes()) <= 32,
        spec_pat_mask(s.spec_bytes()) != 0,
    ensures
        r.mask == spec_pat_mask(s.spec_bytes()),
        r.set_bits == spec_pat_bits(s.spec_bytes()),
        r.len == spec_pat_len(s.spec_bytes()),
{
    bit_pat_bstr_32(s.as_bytes())
}

/// Parses a pattern of exactly `LEN` (at most 32) bits into its mask
/// and value words.
pub fn bit_pat_str<const LEN: u32>(s: &str) -> (r: (u64, u64))
    requires
        spec_pat_valid(s.spec_bytes()),
        1 <= LEN <= 32,
        spec_pat_len(s.spec_bytes()) == LEN,
        spec_pat_mask(s.spec_bytes()) != 0,
    ensures
        r.0 == spec_pat_mask(s.spec_bytes()),
        r.1 == spec_pat_bits(s.spec_bytes()),
{
    let pat = bit_pat_bstr_32(s.as_bytes());
    (pat.mask as u64, pat.set_bits as u64)
}

} // verus!
