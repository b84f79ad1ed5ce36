//! A source file path with lazily loaded contents; the loading itself
//! happens outside the library.

use vstd::prelude::*;

verus! {

/// What can go wrong while obtaining the file contents.
#[derive(Debug, Clone, Copy, PartialEq, Eq, Structural)]
pub enum Error {
    Read,
}

/// A path and, once loaded, the text found there.
pub struct SourceFile {
    pub path: String,
    pub content: Option<String>,
}

impl SourceFile {
    pub fn new(path: String) -> (r: Self)
        ensures
            r.path@ == path@,
            r.content is None,
    {
        SourceFile { path, content: None }
    }

    /// Stores contents read elsewhere.
    pub fn set_content(&mut self, content: String)
        ensures
            final(self).content matches Some(c) && c@ == content@,
            final(self).path == old(self).path,
    {
        self.content = Some(content);
    }
}

} // verus!
