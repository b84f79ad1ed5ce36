//! Collected diagnostics, each a kind paired with the span it concerns.

use vstd::prelude::*;

verus! {

use crate::code::Span;

/// One recorded diagnostic.
pub struct Diag<Kind> {
    pub span: Span,
    pub kind: Kind,
}

/// Accumulates diagnostics for later rendering.
pub struct Reporter<Kind> {
    pub diags: Vec<Diag<Kind>>,
}

impl<Kind> Reporter<Kind> {
    pub fn new() -> (r: Self)
        ensures
            r.diags@.len() == 0,
    {
        Reporter { diags: Vec::new() }
    }

    /// Records one diagnostic.
    pub fn report(&mut self, span: Span, kind: Kind)
        ensures
            final(self).diags@.len() == old(self).diags@.len() + 1,
            final(self).diags@.last().span == span,
            final(self).diags@.last().kind == kind,
    {
        self.diags.push(Diag { span, kind });
    }
}

} // verus!
