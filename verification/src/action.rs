use crate::conflict::TreatAsUnresolved;
use crate::object_id::ObjectId;
use vstd::prelude::*;

verus! {

/// A stack of branches, as far as building the workspace depends on it.
#[derive(Clone, Copy, Debug, PartialEq, Eq, Structural)]
pub struct Stack {
    pub id: u128,
    /// Whether the stack is applied, that is, part of the workspace.
    pub in_workspace: bool,
}

/// Work that a run needs done on the repository, on the worktree or on the stored project data
/// before it can go on.
///
/// Each variant says which [`Event`] answers it. Work that fails ends the run: there is no event
/// for a failure, save where a variant says otherwise.
#[derive(Clone, Copy, Debug, PartialEq, Eq, Structural)]
pub enum Action {
    /// Find the best merge base of two commits. Answered by [`Event::Id`].
    MergeBase { one: ObjectId, two: ObjectId },
    /// Find the tree of a commit, or, if the commit is in conflict, the tree that stands for it.
    /// Answered by [`Event::Id`].
    RealTree { commit: ObjectId },
    /// Read the options for merges that stop at the first conflict. Answered by [`Event::Done`].
    MergeOptions,
    /// Merge two trees, with those options. Answered by [`Event::Flag`]: whether conflicts were
    /// left unresolved.
    MergeTrees { base: ObjectId, ours: ObjectId, theirs: ObjectId },
    /// Write the tree of the merge just made. Answered by [`Event::Id`].
    WriteMerge { base: ObjectId, ours: ObjectId, theirs: ObjectId },
    /// Deal with a head that was left out of the merge. Answered by [`Event::Done`].
    Evict { head: usize },
    /// Open the repository. Answered by [`Event::Done`].
    OpenRepository,
    /// Open the repository in the way that is fastest for merging. Answered by [`Event::Done`].
    OpenForMerging,
    /// Open the repository that writes indices and checks them out. Answered by [`Event::Done`].
    OpenForCheckout,
    /// Write the worktree, uncommitted changes and all, as a tree. `limit` is the size limit for
    /// untracked files that is passed on. Answered by [`Event::Id`].
    WorktreeTree { limit: u64 },
    /// Merge two trees into an index. With `favor_ours`, the contents of `ours` are taken where
    /// those of both sides conflict. Answered by [`Event::Flag`]: whether the index has
    /// conflicts.
    MergeIndex { ancestor: ObjectId, ours: ObjectId, theirs: ObjectId, favor_ours: bool },
    /// Write the index just made as a tree. Answered by [`Event::Id`].
    WriteIndex { ancestor: ObjectId, ours: ObjectId, theirs: ObjectId, favor_ours: bool },
    /// Check the index just made out into the worktree. Answered by [`Event::Done`].
    CheckoutIndex { force: bool, remove_untracked: bool, conflict_style_diff3: bool },
    /// Move the worktree from one tree to another without touching what the user has changed.
    /// Answered by [`Event::Done`].
    SafeCheckout { from: ObjectId, to: ObjectId },
    /// Find the commit that the workspace is based on. Answered by [`Event::Id`].
    WorkspaceTarget,
    /// Find the stack heads of the workspace, which is based on `target`. Answered by
    /// [`Event::Ids`].
    WorkspaceHeads { target: ObjectId },
    /// Read the commit of the stored default target. Answered by [`Event::Id`].
    DefaultTarget,
    /// Read the stored stacks that are in the workspace. Answered by [`Event::Stacks`].
    ListStacks,
    /// Find the head of a stack. Answered by [`Event::Id`].
    StackHead { stack: u128 },
    /// Store a stack. Answered by [`Event::Done`].
    StoreStack { stored: Stack },
    /// Find the head of a stack if it has one. Answered by [`Event::MaybeId`], with `None` for a
    /// failure.
    StackHeadIfAny { stack: u128 },
    /// Write the workspace commit, unsigned and without moving a reference, with `tree` as its
    /// tree. Answered by [`Event::Id`].
    CommitWorkspace { tree: ObjectId },
    /// Read where `HEAD` points to. Answered by [`Event::Done`].
    Head,
    /// Find the tree of a commit. Answered by [`Event::Id`].
    CommitTree { commit: ObjectId },
    /// Read the options for merges that stop at the first conflict and do not track renames.
    /// Answered by [`Event::Done`].
    MergeOptionsNoRewrites,
    /// Find the tree of the commit that `HEAD` points to. Answered by [`Event::Id`].
    HeadTree,
    /// Merge two trees with those options, stopping at the first conflict of the kind
    /// `fail_on`. Answered by [`Event::Done`].
    MergeWorktree {
        base: ObjectId,
        ours: ObjectId,
        theirs: ObjectId,
        fail_on: TreatAsUnresolved,
    },
}

/// What came of an [`Action`].
#[derive(Debug)]
pub enum Event {
    Id(ObjectId),
    Ids(Vec<ObjectId>),
    Flag(bool),
    Done,
    MaybeId(Option<ObjectId>),
    Stacks(Vec<Stack>),
}

/// Whether `event` is of the kind that answers `action`.
pub open spec fn answers(event: Event, action: Action) -> bool {
    match action {
        Action::MergeBase { .. } => event is Id,
        Action::RealTree { .. } => event is Id,
        Action::MergeOptions => event is Done,
        Action::MergeTrees { .. } => event is Flag,
        Action::WriteMerge { .. } => event is Id,
        Action::Evict { .. } => event is Done,
        Action::OpenRepository => event is Done,
        Action::OpenForMerging => event is Done,
        Action::OpenForCheckout => event is Done,
        Action::WorktreeTree { .. } => event is Id,
        Action::MergeIndex { .. } => event is Flag,
        Action::WriteIndex { .. } => event is Id,
        Action::CheckoutIndex { .. } => event is Done,
        Action::SafeCheckout { .. } => event is Done,
        Action::WorkspaceTarget => event is Id,
        Action::WorkspaceHeads { .. } => event is Ids,
        Action::DefaultTarget => event is Id,
        Action::ListStacks => event is Stacks,
        Action::StackHead { .. } => event is Id,
        Action::StoreStack { .. } => event is Done,
        Action::StackHeadIfAny { .. } => event is MaybeId,
        Action::CommitWorkspace { .. } => event is Id,
        Action::Head => event is Done,
        Action::CommitTree { .. } => event is Id,
        Action::MergeOptionsNoRewrites => event is Done,
        Action::HeadTree => event is Id,
        Action::MergeWorktree { .. } => event is Done,
    }
}

/// The state of a run as mathematics sees it: something that asks for one action after the other
/// and goes on with what came of each.
pub trait Run: Sized {
    /// Whether the state is one that a run can be in.
    spec fn wf(self) -> bool;

    /// What is to be done next; `None` once the run has ended.
    spec fn action(self) -> Option<Action>;

    /// The parents of the commit that the run writes, where it is known that it writes one, and
    /// which they are.
    spec fn parents(self) -> Option<Seq<ObjectId>>;

    /// The state after `event`.
    spec fn next(self, event: Event) -> Self;

    /// A bound on the number of actions that the run may still ask for.
    spec fn remaining(self) -> int;

    /// Every answer brings the run closer to its end, whatever the answer is. What is no answer
    /// changes nothing.
    proof fn law_answers_end_the_run(self, event: Event)
        requires
            self.wf(),
        ensures
            self.action() is None ==> self.next(event) == self,
            self.action() is Some && !answers(event, self.action()->0) ==> self.next(event)
                == self,
            self.action() is Some && answers(event, self.action()->0) ==> {
                &&& self.next(event).wf()
                &&& 0 <= self.next(event).remaining() < self.remaining()
            },
    ;
}

} // verus!
