//! Outline rendering techniques.
use vstd::prelude::*;

verus! {

/// The rendering technique used by an outline.
#[derive(Clone, Copy, Debug, Default, PartialEq, Eq)]
pub enum OutlineMode {
    /// Uses a hard screen-space edge over the selected instance group.
    #[default]
    Toon,
    /// Uses the selected instance group's rendered mask to trace its silhouette.
    Silhouette,
    /// Uses the GPU stencil buffer and an expanded back-face pass.
    Stencil,
}

/// The pipeline index of each outline technique.
pub open spec fn outline_mode_index(mode: OutlineMode) -> int {
    match mode {
        OutlineMode::Toon => 0,
        OutlineMode::Silhouette => 1,
        OutlineMode::Stencil => 2,
    }
}

impl OutlineMode {
    /// The zero-based index of this technique among the outline pipelines.
    pub fn index(self) -> (index: usize)
        ensures
            index == outline_mode_index(self),
            index < 3,
    {
        match self {
            OutlineMode::Toon => 0,
            OutlineMode::Silhouette => 1,
            OutlineMode::Stencil => 2,
        }
    }
}

} // verus!
