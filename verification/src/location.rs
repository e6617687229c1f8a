//! Source locations attached to parsed nodes for diagnostics.

use vstd::prelude::*;

verus! {

/// A region of the source a node was read from, as a half-open range of
/// positions. The library only carries locations around and joins them; what a
/// position counts (characters, tokens) is up to whoever produced the tokens.
#[derive(Clone, Copy, Debug, PartialEq, Eq, Structural)]
pub struct SourceLocation {
    pub start: usize,
    pub end: usize,
}

impl SourceLocation {
    /// The smallest location that covers both `self` and `other`.
    pub open spec fn spec_join(self, other: SourceLocation) -> SourceLocation {
        SourceLocation {
            start: if self.start <= other.start { self.start } else { other.start },
            end: if self.end >= other.end { self.end } else { other.end },
        }
    }

    pub fn new(start: usize, end: usize) -> (r: SourceLocation)
        ensures
            r == (SourceLocation { start, end }),
    {
        SourceLocation { start, end }
    }

    pub fn join(self, other: SourceLocation) -> (r: SourceLocation)
        ensures
            r == self.spec_join(other),
    {
        SourceLocation {
            start: if self.start <= other.start { self.start } else { other.start },
            end: if self.end >= other.end { self.end } else { other.end },
        }
    }
}

} // verus!
