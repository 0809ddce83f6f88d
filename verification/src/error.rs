//! What can go wrong while a layout is captured or replayed.

use vstd::prelude::*;

verus! {

/// A failure that ends a capture or a replay.
#[derive(Clone, Copy, Debug, PartialEq, Eq, Structural)]
pub enum LayoutError {
    /// An output of the tree has no name.
    OutputWithNoName,
    /// A workspace of the tree has no name.
    WorkspaceWithNoName,
    /// A container has a layout that cannot be rebuilt.
    UnsupportedLayout,
    /// A child of a split container has no recorded percentage.
    MissingPercent,
    /// The window manager reports no focused container.
    NoFocusedWindow,
    /// The event stream ended while placeholders were still waiting.
    StreamEnded,
}

impl LayoutError {
    /// The failure in words.
    pub open spec fn text(self) -> Seq<char> {
        match self {
            LayoutError::OutputWithNoName => "output with no name"@,
            LayoutError::WorkspaceWithNoName => "workspace with no name"@,
            LayoutError::UnsupportedLayout => "unsupported layout"@,
            LayoutError::MissingPercent => "missing percent field"@,
            LayoutError::NoFocusedWindow => "no focused window"@,
            LayoutError::StreamEnded => "event stream ended"@,
        }
    }

    /// The failure in words.
    pub fn message(&self) -> (s: &'static str)
        ensures
            s@ == self.text(),
    {
        match self {
            LayoutError::OutputWithNoName => "output with no name",
            LayoutError::WorkspaceWithNoName => "workspace with no name",
            LayoutError::UnsupportedLayout => "unsupported layout",
            LayoutError::MissingPercent => "missing percent field",
            LayoutError::NoFocusedWindow => "no focused window",
            LayoutError::StreamEnded => "event stream ended",
        }
    }
}

/// The failure that a result carries, if any.
pub open spec fn failure(r: Result<(), LayoutError>) -> Option<LayoutError> {
    match r {
        Ok(_) => None,
        Err(e) => Some(e),
    }
}

} // verus!
