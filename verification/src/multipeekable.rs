//! An iterator adapter with unbounded lookahead: peeked items are
//! buffered until consumed.

use vstd::prelude::*;

verus! {

/// The adapter: the underlying iterator and the items peeked ahead of
/// the cursor, front first.
pub struct MultiPeekable<I: Iterator> {
    pub inner: I,
    pub peeked: Vec<I::Item>,
}

impl<I: Iterator> MultiPeekable<I> {
    pub fn new(iter: I) -> (r: Self)
        ensures
            r.peeked@.len() == 0,
    {
        MultiPeekable { inner: iter, peeked: Vec::new() }
    }

    /// The next item: the front of the peek buffer when one is waiting,
    /// otherwise the underlying iterator's next item.
    pub fn next(&mut self) -> (r: Option<I::Item>)
        ensures
            old(self).peeked@.len() > 0 ==> r == Some(old(self).peeked@[0]) && final(self).peeked@
                == old(self).peeked@.drop_first(),
            old(self).peeked@.len() == 0 ==> final(self).peeked@.len() == 0,
    {
        if self.peeked.len() == 0 {
            return self.inner.next();
        }
        let front = self.peeked.remove(0);
        proof {
            assert(self.peeked@ =~= old(self).peeked@.drop_first());
        }
        Some(front)
    }

    /// A reference to the next item without consuming it.
    pub fn peek(&mut self) -> (r: Option<&I::Item>)
        ensures
            final(self).peeked@.len() > 0 ==> (r matches Some(v) && *v == final(self).peeked@[0]),
            final(self).peeked@.len() == 0 ==> r is None,
            old(self).peeked@.len() > 0 ==> final(self).peeked@ == old(self).peeked@,
    {
        if self.peeked.len() == 0 {
            match self.inner.next() {
                Some(item) => {
                    self.peeked.push(item);
                },
                None => {
                    return None;
                },
            }
        }
        Some(&self.peeked[0])
    }

    /// A reference to the item `n` places ahead; `peek_by(1)` is the
    /// next item.
    pub fn peek_by(&mut self, n: usize) -> (r: Option<&I::Item>)
        requires
            n >= 1,
        ensures
            r matches Some(v) ==> final(self).peeked@.len() >= n && *v == final(self).peeked@[
                n - 1],
    {
        while self.peeked.len() < n
            invariant
                n >= 1,
            decreases n - self.peeked@.len(),
        {
            match self.inner.next() {
                Some(item) => {
                    self.peeked.push(item);
                },
                None => {
                    return None;
                },
            }
        }
        Some(&self.peeked[n - 1])
    }
}

} // verus!
