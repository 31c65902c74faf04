//! Source positions.

use vstd::prelude::*;

verus! {

/// A region of source text together with the syntax context of whatever
/// stands there. The context names a chain of marks (see `hygiene`).
#[derive(Clone, Copy, Debug, PartialEq, Eq, Hash, Structural)]
pub struct Span {
    pub lo: u32,
    pub hi: u32,
    pub ctxt: u32,
}

impl Span {
    /// The span of a node that stands nowhere in the source.
    pub open spec fn spec_dummy() -> Span {
        Span { lo: 0, hi: 0, ctxt: 0 }
    }

    #[verifier::when_used_as_spec(spec_dummy)]
    pub fn dummy() -> (s: Span)
        ensures
            s == Span::spec_dummy(),
    {
        Span { lo: 0, hi: 0, ctxt: 0 }
    }

    /// The same region under another syntax context.
    pub open spec fn spec_with_ctxt(self, ctxt: u32) -> Span {
        Span { lo: self.lo, hi: self.hi, ctxt }
    }

    #[verifier::when_used_as_spec(spec_with_ctxt)]
    pub fn with_ctxt(self, ctxt: u32) -> (s: Span)
        ensures
            s == self.spec_with_ctxt(ctxt),
    {
        Span { lo: self.lo, hi: self.hi, ctxt }
    }
}

} // verus!
