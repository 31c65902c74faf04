//! Interned names.

use vstd::prelude::*;

verus! {

/// A name, as the number that the interner gave it: two names are the same
/// name exactly when their numbers are equal.
#[derive(Clone, Copy, Debug, PartialEq, Eq, Hash, Structural)]
pub struct Sym(pub u32);

} // verus!
