//! The keyword set used when generating keyword matchers: a collection
//! of words that rejects duplicates.

use vstd::prelude::*;

verus! {

use crate::bytes::bytes_eq;

/// Inserting the same word twice is refused.
#[derive(Debug, Clone, Copy, PartialEq, Eq, Structural)]
pub enum Error {
    Duplicate,
}

/// The keyword set.
#[derive(Debug)]
pub struct Tree {
    pub words: Vec<Vec<u8>>,
}

impl Tree {
    /// The stored words are pairwise distinct.
    pub open spec fn wf(&self) -> bool {
        forall|i: int, j: int|
            0 <= i < j < self.words@.len() ==> (#[trigger] self.words@[i])@ != (
            #[trigger] self.words@[j])@
    }

    pub fn new() -> (r: Self)
        ensures
            r.wf(),
            r.words@.len() == 0,
    {
        Tree { words: Vec::new() }
    }

    pub fn is_empty(&self) -> (r: bool)
        ensures
            r == (self.words@.len() == 0),
    {
        self.words.len() == 0
    }

    /// Adds a word; a word seen before is reported as a duplicate.
    pub fn insert(&mut self, word: &[u8]) -> (r: Result<(), Error>)
        requires
            old(self).wf(),
        ensures
            final(self).wf(),
            r is Ok <==> !(exists|i: int|
                0 <= i < old(self).words@.len() && (#[trigger] old(self).words@[i])@ == word@),
            r is Ok ==> final(self).words@.len() == old(self).words@.len() + 1 && final(self).words@.last()@ == word@,
            r is Err ==> *final(self) == *old(self),
    {
        let n = self.words.len();
        let mut i: usize = 0;
        while i < n
            invariant
                self == old(self),
                old(self).wf(),
                n == self.words@.len(),
                i <= n,
                forall|k: int| 0 <= k < i ==> (#[trigger] self.words@[k])@ != word@,
            decreases n - i,
        {
            if bytes_eq(self.words[i].as_slice(), word) {
                return Err(Error::Duplicate);
            }
            i = i + 1;
        }
        let owned = crate::bytes::bytes_to_vec(word);
        self.words.push(owned);
        proof {
            assert forall|p: int, q: int|
                0 <= p < q < self.words@.len() implies (#[trigger] self.words@[p])@ != (
            #[trigger] self.words@[q])@ by {
                if q < self.words@.len() - 1 {
                    assert(self.words@[p] == old(self).words@[p]);
                    assert(self.words@[q] == old(self).words@[q]);
                } else {
                    assert(self.words@[q]@ == word@);
                    assert(self.words@[p] == old(self).words@[p]);
                }
            }
        }
        Ok(())
    }
}

} // verus!
