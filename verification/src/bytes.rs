//! Byte-string helpers shared by the scanner and the operand parser:
//! exact comparison and ASCII case folding.

use vstd::prelude::*;

verus! {

/// ASCII upper-case image of one byte.
pub open spec fn spec_upper(b: u8) -> u8 {
    if 97 <= b <= 122 {
        (b - 32) as u8
    } else {
        b
    }
}

/// ASCII lower-case image of one byte.
pub open spec fn spec_lower(b: u8) -> u8 {
    if 65 <= b <= 90 {
        (b + 32) as u8
    } else {
        b
    }
}

pub fn byte_to_upper(b: u8) -> (r: u8)
    ensures
        r == spec_upper(b),
{
    if b >= 97 && b <= 122 {
        b - 32
    } else {
        b
    }
}

pub fn byte_to_lower(b: u8) -> (r: u8)
    ensures
        r == spec_lower(b),
{
    if b >= 65 && b <= 90 {
        b + 32
    } else {
        b
    }
}

/// Exact equality of two byte strings.
pub fn bytes_eq(a: &[u8], b: &[u8]) -> (r: bool)
    ensures
        r == (a@ == b@),
{
    if a.len() != b.len() {
        proof {
            assert(a@.len() != b@.len());
        }
        return false;
    }
    let n = a.len();
    let mut i: usize = 0;
    while i < n
        invariant
            n == a@.len() == b@.len(),
            i <= n,
            forall|j: int| 0 <= j < i ==> a@[j] == b@[j],
        decreases n - i,
    {
        if a[i] != b[i] {
            return false;
        }
        i = i + 1;
    }
    proof {
        assert(a@ =~= b@);
    }
    true
}

/// Equality of a byte string, after upper-casing, with an upper-case pattern.
pub fn bytes_eq_upper(a: &[u8], b: &[u8]) -> (r: bool)
    ensures
        r == (a@.map_values(|c: u8| spec_upper(c)) == b@),
{
    if a.len() != b.len() {
        proof {
            assert(a@.map_values(|c: u8| spec_upper(c)).len() != b@.len());
        }
        return false;
    }
    let n = a.len();
    let mut i: usize = 0;
    while i < n
        invariant
            n == a@.len() == b@.len(),
            i <= n,
            forall|j: int| 0 <= j < i ==> spec_upper(a@[j]) == b@[j],
        decreases n - i,
    {
        if byte_to_upper(a[i]) != b[i] {
            proof {
                assert(a@.map_values(|c: u8| spec_upper(c))[i as int] != b@[i as int]);
            }
            return false;
        }
        i = i + 1;
    }
    proof {
        assert(a@.map_values(|c: u8| spec_upper(c)) =~= b@);
    }
    true
}

/// Copies a byte slice into an owned vector.
pub fn bytes_to_vec(a: &[u8]) -> (r: Vec<u8>)
    ensures
        r@ == a@,
{
    let mut v: Vec<u8> = Vec::new();
    let n = a.len();
    let mut i: usize = 0;
    while i < n
        invariant
            n == a@.len(),
            i <= n,
            v@ =~= a@.take(i as int),
        decreases n - i,
    {
        v.push(a[i]);
        proof {
            assert(v@ =~= a@.take(i + 1));
        }
        i = i + 1;
    }
    proof {
        assert(v@ =~= a@);
    }
    v
}

} // verus!
