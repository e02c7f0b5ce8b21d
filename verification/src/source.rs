//! Source locations.

use vstd::prelude::*;

verus! {

/// A region of the source text, as byte offsets. Errors are anchored at a
/// span; requirements that arose from a piece of syntax carry one.
#[derive(Clone, Copy, Debug, PartialEq, Eq, PartialOrd, Ord)]
pub struct Span {
    pub start: usize,
    pub end: usize,
}

} // verus!
