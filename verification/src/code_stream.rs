//! A character stream over a source buffer, tracking the byte index and
//! the line/column location of the cursor.

use vstd::prelude::*;

verus! {

use vstd::string::StringSliceAdditionalSpecFns;
use crate::code::Loc;

/// The stream: a byte cursor with its location.
pub struct SourceStream<'s> {
    pub src: &'s str,
    pub current: Option<char>,
    pub location: Loc,
    pub index: usize,
}

impl<'s> SourceStream<'s> {
    pub open spec fn wf(&self) -> bool {
        &&& self.index <= self.src.spec_bytes().len()
        &&& (self.current is Some <==> self.index < self.src.spec_bytes().len())
    }

    pub fn new(source: &'s str) -> (r: Self)
        ensures
            r.wf(),
            r.src == source,
            r.index == 0,
            r.location.line == 1,
            r.location.column == 1,
    {
        let bytes = source.as_bytes();
        let current = if bytes.len() > 0 {
            Some(bytes[0] as char)
        } else {
            None
        };
        SourceStream { src: source, current, location: Loc::new(), index: 0 }
    }

    /// The character under the cursor.
    pub fn peek(&self) -> (r: Option<char>)
        ensures
            r == self.current,
    {
        self.current
    }

    /// Consumes and returns the character under the cursor.
    pub fn next(&mut self) -> (r: Option<char>)
        requires
            old(self).wf(),
        ensures
            final(self).wf(),
            final(self).src == old(self).src,
            r == old(self).current,
            r is Some ==> final(self).index == old(self).index + 1,
            r is None ==> final(self).index == old(self).index,
    {
        let c = match self.current {
            Some(c) => c,
            None => {
                return None;
            },
        };
        let bytes = self.src.as_bytes();
        let total = bytes.len();
        if c == '\n' {
            if self.location.line < u32::MAX {
                self.location.line = self.location.line + 1;
                self.location.column = 1;
            }
        } else {
            if self.location.column < u32::MAX {
                self.location.column = self.location.column + 1;
            }
        }
        self.index = self.index + 1;
        self.current = if self.index < bytes.len() {
            Some(bytes[self.index] as char)
        } else {
            None
        };
        Some(c)
    }

    /// The character `n` places past the cursor; `peek_by(0)` is `peek`.
    pub fn peek_by(&self, n: usize) -> (r: Option<char>)
        requires
            self.wf(),
        ensures
            r is Some <==> self.index + n < self.src.spec_bytes().len(),
    {
        let bytes = self.src.as_bytes();
        if n < bytes.len() && self.index < bytes.len() - n {
            Some(bytes[self.index + n] as char)
        } else {
            proof {
                assert(self.index + n >= bytes@.len());
            }
            None
        }
    }

    /// The remaining text past the cursor.
    pub fn iter(&self) -> (r: &'s str)
        requires
            self.wf(),
    {
        crate::scan::sub_str(self.src, self.index, self.src.as_bytes().len())
    }

    /// Consumes everything up to, but not including, the next newline.
    pub fn next_till_newline(&mut self)
        requires
            old(self).wf(),
        ensures
            final(self).wf(),
            final(self).src == old(self).src,
            final(self).index >= old(self).index,
    {
        loop
            invariant
                self.wf(),
                self.src == old(self).src,
                self.index >= old(self).index,
            decreases self.src.spec_bytes().len() - self.index,
        {
            match self.peek() {
                Some(c) => {
                    if c == '\n' {
                        return ;
                    }
                    if c == '\r' && matches!(self.peek_by(1), Some('\n')) {
                        return ;
                    }
                    let consumed = self.next();
                    proof {
                        assert(consumed is Some);
                    }
                },
                None => {
                    return ;
                },
            }
        }
    }

    /// Consumes the cursor character if it equals `c`.
    pub fn next_if_eq(&mut self, c: char) -> (r: Option<char>)
        requires
            old(self).wf(),
        ensures
            final(self).wf(),
            final(self).src == old(self).src,
            final(self).index >= old(self).index,
    {
        match self.current {
            Some(p) => {
                if p == c {
                    self.next()
                } else {
                    None
                }
            },
            None => None,
        }
    }

    pub fn is_eof(&self) -> (r: bool)
        ensures
            r == (self.current is None),
    {
        self.current.is_none()
    }
}

} // verus!
