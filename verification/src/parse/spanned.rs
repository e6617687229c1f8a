//! What every parsed node can tell: where it was written.

use vstd::prelude::*;
use crate::location::SourceLocation;

verus! {

pub trait Spanned {
    /// The location of the node, as contracts see it.
    spec fn spec_span(&self) -> SourceLocation;

    /// The location of the node.
    fn span(&self) -> (r: SourceLocation)
        ensures
            r == self.spec_span(),
    ;
}

} // verus!
