use crate::action::{Action, Event, Run};
use crate::object_id::ObjectId;
use vstd::prelude::*;

verus! {

/// What an octopus merge does with a head that conflicts with the heads before it.
#[derive(Clone, Copy, Debug, PartialEq, Eq, Structural)]
pub enum OnConflict {
    /// Give up.
    Fail,
    /// Leave the head out and go on with the next one.
    Evict,
}

/// How far an octopus merge has come, named after what it waits for.
#[derive(Clone, Copy, Debug, PartialEq, Eq, Structural)]
pub enum Phase {
    /// The merge base of `base` and the head at `next`, where `base` is that of all heads before.
    Base { base: ObjectId, next: usize },
    /// The tree of `base`, the merge base of all heads.
    BaseTree { base: ObjectId },
    /// The merge options, with `found` the tree of the merge base if there are heads.
    Options { found: Option<ObjectId> },
    /// The tree of the first head.
    FirstTree { base_tree: ObjectId },
    /// The tree of the head at `next`, with the heads before merged into `merged`.
    HeadTree { base_tree: ObjectId, merged: ObjectId, next: usize },
    /// Whether merging `theirs`, the tree of the head at `next`, left conflicts.
    Merge { base_tree: ObjectId, merged: ObjectId, theirs: ObjectId, next: usize },
    /// The tree of that merge.
    Write { base_tree: ObjectId, merged: ObjectId, theirs: ObjectId, next: usize },
    /// The eviction of the head at `next`.
    Evict { base_tree: ObjectId, merged: ObjectId, next: usize },
    /// The tree of the target.
    TargetTree,
    /// Nothing: the heads are merged into `tree`.
    Merged { tree: ObjectId },
    /// Nothing: the head at `head` is in conflict.
    Conflict { head: usize },
}

/// The state of an octopus merge as mathematics sees it.
pub struct OctopusView {
    pub heads: Seq<ObjectId>,
    pub target: ObjectId,
    pub on_conflict: OnConflict,
    pub phase: Phase,
}

impl OctopusView {
    /// The state before anything has been asked.
    pub open spec fn start(
        heads: Seq<ObjectId>,
        target: ObjectId,
        on_conflict: OnConflict,
    ) -> OctopusView {
        let phase = if heads.len() > 1 {
            Phase::Base { base: heads[0], next: 1 }
        } else if heads.len() == 1 {
            Phase::BaseTree { base: heads[0] }
        } else if on_conflict == OnConflict::Fail {
            Phase::TargetTree
        } else {
            Phase::Options { found: None }
        };
        OctopusView { heads, target, on_conflict, phase }
    }

    /// How the merge ended, once it has.
    pub open spec fn outcome(self) -> Option<Result<ObjectId, MergeConflict>> {
        match self.phase {
            Phase::Merged { tree } => Some(Ok(tree)),
            Phase::Conflict { head } => Some(Err(MergeConflict { head })),
            _ => None,
        }
    }

    /// The phase in which the heads before `next` are merged into `merged`.
    pub open spec fn merged_before(self, base_tree: ObjectId, merged: ObjectId, next: int) -> Phase {
        if next < self.heads.len() {
            Phase::HeadTree { base_tree, merged, next: next as usize }
        } else {
            Phase::Merged { tree: merged }
        }
    }

    /// The phase after `event`. An event that does not answer the action changes nothing.
    pub open spec fn next_phase(self, event: Event) -> Phase {
        match (self.phase, event) {
            (Phase::Base { next, .. }, Event::Id(base)) => if next + 1 < self.heads.len() {
                Phase::Base { base, next: (next + 1) as usize }
            } else {
                Phase::BaseTree { base }
            },
            (Phase::BaseTree { .. }, Event::Id(tree)) => Phase::Options { found: Some(tree) },
            (Phase::Options { found: Some(base_tree) }, Event::Done) => Phase::FirstTree {
                base_tree,
            },
            (Phase::Options { found: None }, Event::Done) => Phase::TargetTree,
            (Phase::FirstTree { base_tree }, Event::Id(tree)) => self.merged_before(
                base_tree,
                tree,
                1,
            ),
            (Phase::HeadTree { base_tree, merged, next }, Event::Id(theirs)) => Phase::Merge {
                base_tree,
                merged,
                theirs,
                next,
            },
            (Phase::Merge { base_tree, merged, theirs, next }, Event::Flag(unresolved)) => if !unresolved {
                Phase::Write { base_tree, merged, theirs, next }
            } else if self.on_conflict == OnConflict::Fail {
                Phase::Conflict { head: next }
            } else {
                Phase::Evict { base_tree, merged, next }
            },
            (Phase::Write { base_tree, next, .. }, Event::Id(tree)) => self.merged_before(
                base_tree,
                tree,
                next + 1,
            ),
            (Phase::Evict { base_tree, merged, next }, Event::Done) => self.merged_before(
                base_tree,
                merged,
                next + 1,
            ),
            (Phase::TargetTree, Event::Id(tree)) => Phase::Merged { tree },
            (phase, _) => phase,
        }
    }
}

impl Run for OctopusView {
    open spec fn wf(self) -> bool {
        let n = self.heads.len();
        &&& n <= usize::MAX
        &&& match self.phase {
            Phase::Base { next, .. } => 1 <= next < n,
            Phase::BaseTree { .. } => 1 <= n,
            Phase::Options { found } => found is Some <==> 1 <= n,
            Phase::FirstTree { .. } => 1 <= n,
            Phase::HeadTree { next, .. } => 1 <= next < n,
            Phase::Merge { next, .. } => 1 <= next < n,
            Phase::Write { next, .. } => 1 <= next < n,
            Phase::Evict { next, .. } => 1 <= next < n && self.on_conflict == OnConflict::Evict,
            Phase::TargetTree => n == 0,
            Phase::Merged { .. } => true,
            Phase::Conflict { head } => 1 <= head < n && self.on_conflict == OnConflict::Fail,
        }
    }

    open spec fn action(self) -> Option<Action> {
        match self.phase {
            Phase::Base { base, next } => Some(
                Action::MergeBase { one: base, two: self.heads[next as int] },
            ),
            Phase::BaseTree { base } => Some(Action::RealTree { commit: base }),
            Phase::Options { .. } => Some(Action::MergeOptions),
            Phase::FirstTree { .. } => Some(Action::RealTree { commit: self.heads[0] }),
            Phase::HeadTree { next, .. } => Some(
                Action::RealTree { commit: self.heads[next as int] },
            ),
            Phase::Merge { base_tree, merged, theirs, .. } => Some(
                Action::MergeTrees { base: base_tree, ours: merged, theirs },
            ),
            Phase::Write { base_tree, merged, theirs, .. } => Some(
                Action::WriteMerge { base: base_tree, ours: merged, theirs },
            ),
            Phase::Evict { next, .. } => Some(Action::Evict { head: next }),
            Phase::TargetTree => Some(Action::RealTree { commit: self.target }),
            Phase::Merged { .. } => None,
            Phase::Conflict { .. } => None,
        }
    }

    open spec fn parents(self) -> Option<Seq<ObjectId>> {
        None
    }

    open spec fn next(self, event: Event) -> OctopusView {
        OctopusView { phase: self.next_phase(event), ..self }
    }

    open spec fn remaining(self) -> int {
        let n = self.heads.len() as int;
        match self.phase {
            Phase::Base { next, .. } => (n - next) + 3 * n,
            Phase::BaseTree { .. } => 3 * n,
            Phase::Options { found } => if found is Some {
                3 * n - 1
            } else {
                2
            },
            Phase::FirstTree { .. } => 3 * n - 2,
            Phase::HeadTree { next, .. } => 3 * (n - next),
            Phase::Merge { next, .. } => 3 * (n - next) - 1,
            Phase::Write { next, .. } => 3 * (n - next) - 2,
            Phase::Evict { next, .. } => 3 * (n - next) - 2,
            Phase::TargetTree => 1,
            Phase::Merged { .. } => 0,
            Phase::Conflict { .. } => 0,
        }
    }

    proof fn law_answers_end_the_run(self, event: Event) {
    }
}

/// A head could not be merged with those before it.
#[derive(Clone, Copy, Debug, PartialEq, Eq, Structural)]
pub struct MergeConflict {
    /// The position of the head.
    pub head: usize,
}

impl MergeConflict {
    /// What to tell the user.
    pub fn message(&self) -> (message: &'static str)
        ensures
            message@ == "merge conflict when computing workspace tree"@,
    {
        "merge conflict when computing workspace tree"
    }
}

/// A merge of any number of commits into one tree, all against one base: the merge base of them
/// all.
///
/// The merge asks for work on the repository through [`Octopus::action`] and goes on when
/// [`Octopus::answer`] hands it what came of it.
pub struct Octopus {
    heads: Vec<ObjectId>,
    target: ObjectId,
    on_conflict: OnConflict,
    phase: Phase,
}

impl View for Octopus {
    type V = OctopusView;

    closed spec fn view(&self) -> OctopusView {
        OctopusView {
            heads: self.heads@,
            target: self.target,
            on_conflict: self.on_conflict,
            phase: self.phase,
        }
    }
}

impl Octopus {
    #[verifier::type_invariant]
    closed spec fn inv(self) -> bool {
        self@.wf()
    }

    /// Begins to merge `heads`. Without heads, the outcome is the tree of `target`, which is
    /// used for nothing else.
    pub fn new(heads: Vec<ObjectId>, target: ObjectId, on_conflict: OnConflict) -> (merge: Octopus)
        ensures
            merge@ == OctopusView::start(heads@, target, on_conflict),
            merge@.wf(),
    {
        let phase = if heads.len() > 1 {
            Phase::Base { base: heads[0], next: 1 }
        } else if heads.len() == 1 {
            Phase::BaseTree { base: heads[0] }
        } else {
            match on_conflict {
                OnConflict::Fail => Phase::TargetTree,
                OnConflict::Evict => Phase::Options { found: None },
            }
        };
        Octopus { heads, target, on_conflict, phase }
    }

    /// What is to be done next; `None` once the merge has ended.
    pub fn action(&self) -> (action: Option<Action>)
        ensures
            action == self@.action(),
            self@.wf(),
    {
        proof {
            use_type_invariant(self);
        }
        match self.phase {
            Phase::Base { base, next } => Some(
                Action::MergeBase { one: base, two: self.heads[next] },
            ),
            Phase::BaseTree { base } => Some(Action::RealTree { commit: base }),
            Phase::Options { .. } => Some(Action::MergeOptions),
            Phase::FirstTree { .. } => Some(Action::RealTree { commit: self.heads[0] }),
            Phase::HeadTree { next, .. } => Some(Action::RealTree { commit: self.heads[next] }),
            Phase::Merge { base_tree, merged, theirs, .. } => Some(
                Action::MergeTrees { base: base_tree, ours: merged, theirs },
            ),
            Phase::Write { base_tree, merged, theirs, .. } => Some(
                Action::WriteMerge { base: base_tree, ours: merged, theirs },
            ),
            Phase::Evict { next, .. } => Some(Action::Evict { head: next }),
            Phase::TargetTree => Some(Action::RealTree { commit: self.target }),
            Phase::Merged { .. } => None,
            Phase::Conflict { .. } => None,
        }
    }

    /// The commit whose tree is the outcome if there are no heads.
    pub fn target(&self) -> (target: ObjectId)
        ensures
            target == self@.target,
    {
        self.target
    }

    /// How the merge ended; `None` as long as there is something to be done.
    pub fn outcome(&self) -> (outcome: Option<Result<ObjectId, MergeConflict>>)
        ensures
            outcome == self@.outcome(),
            outcome is None <==> self@.action() is Some,
    {
        match self.phase {
            Phase::Merged { tree } => Some(Ok(tree)),
            Phase::Conflict { head } => Some(Err(MergeConflict { head })),
            _ => None,
        }
    }

    fn merged_before(&self, base_tree: ObjectId, merged: ObjectId, next: usize) -> (phase: Phase)
        ensures
            phase == self@.merged_before(base_tree, merged, next as int),
    {
        if next < self.heads.len() {
            Phase::HeadTree { base_tree, merged, next }
        } else {
            Phase::Merged { tree: merged }
        }
    }

    /// Goes on with what came of the action. An event that does not answer it changes nothing.
    pub fn answer(self, event: Event) -> (after: Octopus)
        ensures
            after@ == self@.next(event),
            after@.wf(),
    {
        proof {
            use_type_invariant(&self);
        }
        let phase = match (self.phase, event) {
            (Phase::Base { next, .. }, Event::Id(base)) => {
                if next + 1 < self.heads.len() {
                    Phase::Base { base, next: next + 1 }
                } else {
                    Phase::BaseTree { base }
                }
            },
            (Phase::BaseTree { .. }, Event::Id(tree)) => Phase::Options { found: Some(tree) },
            (Phase::Options { found: Some(base_tree) }, Event::Done) => Phase::FirstTree {
                base_tree,
            },
            (Phase::Options { found: None }, Event::Done) => Phase::TargetTree,
            (Phase::FirstTree { base_tree }, Event::Id(tree)) => self.merged_before(
                base_tree,
                tree,
                1,
            ),
            (Phase::HeadTree { base_tree, merged, next }, Event::Id(theirs)) => Phase::Merge {
                base_tree,
                merged,
                theirs,
                next,
            },
            (Phase::Merge { base_tree, merged, theirs, next }, Event::Flag(unresolved)) => {
                if !unresolved {
                    Phase::Write { base_tree, merged, theirs, next }
                } else {
                    match self.on_conflict {
                        OnConflict::Fail => Phase::Conflict { head: next },
                        OnConflict::Evict => Phase::Evict { base_tree, merged, next },
                    }
                }
            },
            (Phase::Write { base_tree, next, .. }, Event::Id(tree)) => self.merged_before(
                base_tree,
                tree,
                next + 1,
            ),
            (Phase::Evict { base_tree, merged, next }, Event::Done) => self.merged_before(
                base_tree,
                merged,
                next + 1,
            ),
            (Phase::TargetTree, Event::Id(tree)) => Phase::Merged { tree },
            (phase, _) => phase,
        };
        Octopus { heads: self.heads, target: self.target, on_conflict: self.on_conflict, phase }
    }
}

} // verus!
