//! Diagnostics.

use crate::span::Span;
use vstd::prelude::*;

verus! {

/// What a diagnostic complains about. The names follow the numbering of the
/// TypeScript compiler.
#[derive(Clone, Copy, Debug, PartialEq, Eq, Hash, Structural)]
pub enum DiagnosticKind {
    /// A name could not be found.
    TS2304,
    /// An object literal may only specify known properties.
    TS2353,
    /// A rest element must be of an array type.
    TS2370,
    /// The type given to an array pattern is not an array type.
    TS2461,
}

/// One finding of a check pass: what is wrong, and where. The span is that
/// of the smallest piece of syntax that is wrong.
#[derive(Clone, Copy, Debug, PartialEq, Eq, Hash, Structural)]
pub struct Diagnostic {
    pub kind: DiagnosticKind,
    pub span: Span,
}

} // verus!
