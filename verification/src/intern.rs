//! String interner: stable integer keys for label and identifier strings.
//! Equal strings receive equal keys, and every key resolves back to the
//! string it was created from.

use vstd::prelude::*;

verus! {

use crate::bytes::bytes_eq;

/// A stable key for an interned string.
#[derive(Clone, Copy, PartialEq, Eq, Structural, Debug, Hash)]
pub struct Key(pub u32);

/// The interner: a duplicate-free list of strings, addressed by index.
pub struct Intern {
    pub strs: Vec<Vec<u8>>,
}

impl Intern {
    /// The stored strings are pairwise distinct and their count fits a key.
    pub open spec fn wf(&self) -> bool {
        &&& self.strs@.len() <= u32::MAX
        &&& forall|i: int, j: int|
            0 <= i < j < self.strs@.len() ==> (#[trigger] self.strs@[i])@ != (
            #[trigger] self.strs@[j])@
    }

    /// The string a key stands for.
    pub open spec fn spec_resolve(&self, key: Key) -> Seq<u8> {
        self.strs@[key.0 as int]@
    }

    /// True if some key already stands for `s`.
    pub open spec fn spec_contains(&self, s: Seq<u8>) -> bool {
        exists|i: int| 0 <= i < self.strs@.len() && (#[trigger] self.strs@[i])@ == s
    }

    pub fn new() -> (r: Self)
        ensures
            r.wf(),
            r.strs@.len() == 0,
    {
        Intern { strs: Vec::new() }
    }

    pub fn len(&self) -> (r: usize)
        ensures
            r == self.strs@.len(),
    {
        self.strs.len()
    }

    pub fn is_empty(&self) -> (r: bool)
        ensures
            r == (self.strs@.len() == 0),
    {
        self.strs.len() == 0
    }

    /// The key `s` has, or gets: the index of the stored copy of `s`,
    /// or the next free index when `s` is new.
    pub open spec fn spec_key_of(strs: Seq<Seq<u8>>, s: Seq<u8>) -> int {
        if exists|i: int| 0 <= i < strs.len() && strs[i] == s {
            choose|i: int| 0 <= i < strs.len() && strs[i] == s
        } else {
            strs.len() as int
        }
    }

    /// The stored strings after interning `s`.
    pub open spec fn spec_after_intern(strs: Seq<Seq<u8>>, s: Seq<u8>) -> Seq<Seq<u8>> {
        if exists|i: int| 0 <= i < strs.len() && strs[i] == s {
            strs
        } else {
            strs.push(s)
        }
    }

    /// The key for `s`, interning it on first sight. Equal strings get
    /// equal keys; distinct strings get distinct keys.
    pub fn get_or_intern(&mut self, s: &[u8]) -> (key: Key)
        requires
            old(self).wf(),
            old(self).strs@.len() < u32::MAX,
        ensures
            final(self).wf(),
            (key.0 as int) < final(self).strs@.len(),
            final(self).spec_resolve(key) == s@,
            old(self).strs@.len() <= final(self).strs@.len() <= old(self).strs@.len() + 1,
            forall|i: int|
                0 <= i < old(self).strs@.len() ==> (#[trigger] final(self).strs@[i])@ == (
                #[trigger] old(self).strs@[i])@,
            old(self).spec_contains(s@) ==> final(self)@ == old(self)@,
            !old(self).spec_contains(s@) ==> final(self).strs@.len() == old(self).strs@.len() + 1
                && key.0 == old(self).strs@.len(),
            key.0 == Intern::spec_key_of(old(self)@, s@),
            final(self)@ == Intern::spec_after_intern(old(self)@, s@),
    {
        let n = self.strs.len();
        let mut i: usize = 0;
        while i < n
            invariant
                self == old(self),
                old(self).wf(),
                n == self.strs@.len(),
                n < u32::MAX,
                i <= n,
                forall|j: int| 0 <= j < i ==> (#[trigger] self.strs@[j])@ != s@,
            decreases n - i,
        {
            if bytes_eq(self.strs[i].as_slice(), s) {
                proof {
                    // the found index is the unique stored copy of `s`
                    assert(self@[i as int] == s@);
                    let j = Intern::spec_key_of(old(self)@, s@);
                    assert(old(self)@[j] == s@);
                    assert(self.strs@[j]@ == s@ && self.strs@[i as int]@ == s@);
                    if j != i {
                        assert(false);
                    }
                    assert(Intern::spec_after_intern(old(self)@, s@) == old(self)@);
                }
                return Key(i as u32);
            }
            i = i + 1;
        }
        let mut owned: Vec<u8> = Vec::new();
        let mut k: usize = 0;
        let sn = s.len();
        while k < sn
            invariant
                sn == s@.len(),
                k <= sn,
                owned@ =~= s@.take(k as int),
            decreases sn - k,
        {
            owned.push(s[k]);
            proof {
                assert(owned@ =~= s@.take(k + 1));
            }
            k = k + 1;
        }
        proof {
            assert(owned@ =~= s@);
        }
        self.strs.push(owned);
        proof {
            // `s` was not stored, so it gets the next free index
            assert forall|i: int| 0 <= i < old(self)@.len() implies old(self)@[i] != s@ by {
                assert((old(self).strs@[i])@ != s@);
            }
            assert(self@ =~= old(self)@.push(s@));
        }
        Key(n as u32)
    }

    /// The string `key` was created from.
    pub fn resolve(&self, key: Key) -> (r: &Vec<u8>)
        requires
            (key.0 as int) < self.strs@.len(),
        ensures
            r@ == self.spec_resolve(key),
    {
        &self.strs[key.0 as usize]
    }

    pub fn contains(&self, s: &[u8]) -> (r: bool)
        ensures
            r == self.spec_contains(s@),
    {
        let n = self.strs.len();
        let mut i: usize = 0;
        while i < n
            invariant
                n == self.strs@.len(),
                i <= n,
                forall|j: int| 0 <= j < i ==> (#[trigger] self.strs@[j])@ != s@,
            decreases n - i,
        {
            if bytes_eq(self.strs[i].as_slice(), s) {
                return true;
            }
            i = i + 1;
        }
        false
    }
}

impl View for Intern {
    type V = Seq<Seq<u8>>;

    open spec fn view(&self) -> Seq<Seq<u8>> {
        self.strs@.map_values(|v: Vec<u8>| v@)
    }
}

/// Interning is injective: two keys resolve to the same string only if
/// they are the same key.
pub proof fn lemma_intern_keys_injective(intern: Intern, k1: Key, k2: Key)
    requires
        intern.wf(),
        (k1.0 as int) < intern.strs@.len(),
        (k2.0 as int) < intern.strs@.len(),
        intern.spec_resolve(k1) == intern.spec_resolve(k2),
    ensures
        k1.0 == k2.0,
{
}

} // verus!
