//! How the tools are placed beside the preview.
use vstd::prelude::*;

verus! {

/// Where the tools stand.
#[derive(Clone, Copy, Debug, PartialEq, Eq, Structural)]
pub enum InspectorLayout {
    /// Beside the preview.
    SideBySide,
    /// Below the preview.
    Stacked,
}

impl InspectorLayout {
    /// How many columns there are.
    pub fn columns(self) -> (count: usize)
        ensures
            count == (match self {
                InspectorLayout::SideBySide => 2usize,
                InspectorLayout::Stacked => 1usize,
            }),
    {
        match self {
            InspectorLayout::SideBySide => 2,
            InspectorLayout::Stacked => 1,
        }
    }
}

} // verus!
