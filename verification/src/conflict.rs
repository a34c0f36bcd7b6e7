use vstd::prelude::*;

verus! {

/// Which merges of file contents count as unresolved.
#[derive(Clone, Copy, Debug, PartialEq, Eq, Structural)]
pub enum ContentMerge {
    /// Those that left conflict markers.
    Markers,
    /// Those too that only a resolution strategy kept from leaving conflict markers.
    ForcedResolution,
}

/// Which merges of tree entries count as unresolved.
#[derive(Clone, Copy, Debug, PartialEq, Eq, Structural)]
pub enum TreeMerge {
    /// All failed renames.
    Undecidable,
    /// Those, and the ones where an entry was renamed to avoid a clash.
    EvasiveRenames,
    /// Those, and the ones that only a resolution strategy kept from conflicting.
    ForcedResolution,
}

/// What counts as an unresolved conflict.
#[derive(Clone, Copy, Debug, PartialEq, Eq, Structural)]
pub struct TreatAsUnresolved {
    pub content_merge: ContentMerge,
    pub tree_merge: TreeMerge,
}

impl TreatAsUnresolved {
    /// The conflicts that Git would leave unresolved.
    pub open spec fn by_git() -> TreatAsUnresolved {
        TreatAsUnresolved {
            content_merge: ContentMerge::Markers,
            tree_merge: TreeMerge::EvasiveRenames,
        }
    }
}

/// Calls `gix::merge::tree::TreatAsUnresolved::git`.
///
/// Claimed of it: it always returns the preset of contents with conflict markers and of trees
/// with evasive renames.
#[verifier::external_body]
pub(crate) fn treat_as_unresolved_by_git() -> (kind: TreatAsUnresolved)
    ensures
        kind == TreatAsUnresolved::by_git(),
{
    let kind = gix::merge::tree::TreatAsUnresolved::git();
    TreatAsUnresolved {
        content_merge: match kind.content_merge {
            gix::merge::tree::treat_as_unresolved::ContentMerge::Markers => ContentMerge::Markers,
            gix::merge::tree::treat_as_unresolved::ContentMerge::ForcedResolution => ContentMerge::ForcedResolution,
        },
        tree_merge: match kind.tree_merge {
            gix::merge::tree::treat_as_unresolved::TreeMerge::Undecidable => TreeMerge::Undecidable,
            gix::merge::tree::treat_as_unresolved::TreeMerge::EvasiveRenames => TreeMerge::EvasiveRenames,
            gix::merge::tree::treat_as_unresolved::TreeMerge::ForcedResolution => TreeMerge::ForcedResolution,
        },
    }
}

} // verus!
