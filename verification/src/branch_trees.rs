use crate::action::{Action, Event, Run};
use crate::object_id::ObjectId;
use crate::octopus::{MergeConflict, Octopus, OctopusView, OnConflict};
use vstd::prelude::*;

verus! {

/// A snapshot of the workspace as mathematics sees it.
pub struct WorkspaceView {
    pub heads: Seq<ObjectId>,
    pub target: ObjectId,
}

/// A snapshot of the workspace at a point in time.
#[derive(Debug)]
pub struct WorkspaceState {
    /// The commit ids of the stack heads in the workspace.
    heads: Vec<ObjectId>,
    /// The commit id of the workspace target.
    target: ObjectId,
}

impl View for WorkspaceState {
    type V = WorkspaceView;

    closed spec fn view(&self) -> WorkspaceView {
        WorkspaceView { heads: self.heads@, target: self.target }
    }
}

fn copy_ids(ids: &[ObjectId]) -> (copy: Vec<ObjectId>)
    ensures
        copy@ == ids@,
{
    let mut copy: Vec<ObjectId> = Vec::new();
    let mut i: usize = 0;
    while i < ids.len()
        invariant
            i <= ids@.len(),
            copy@ == ids@.take(i as int),
        decreases ids@.len() - i,
    {
        copy.push(ids[i]);
        i = i + 1;
    }
    copy
}

impl WorkspaceState {
    /// Begins to take a snapshot of the workspace.
    pub fn create() -> (snapshot: Snapshot)
        ensures
            snapshot@ == SnapshotView::Open,
    {
        Snapshot { stage: SnapshotStage::Open }
    }

    /// The snapshot with the stack heads `head_oids` and the target `target_base_oid`.
    pub fn from_heads_and_target(head_oids: &[ObjectId], target_base_oid: ObjectId) -> (state:
        WorkspaceState)
        ensures
            state@ == (WorkspaceView { heads: head_oids@, target: target_base_oid }),
    {
        WorkspaceState { heads: copy_ids(head_oids), target: target_base_oid }
    }

    /// Begins to take a snapshot of the workspace as it would be if its stack heads were `heads`.
    pub fn create_from_heads(heads: &[ObjectId]) -> (snapshot: Snapshot)
        ensures
            snapshot@ == (SnapshotView::Target { heads: Some(heads@) }),
    {
        Snapshot { stage: SnapshotStage::Target { heads: Some(copy_ids(heads)) } }
    }
}

/// How far taking a snapshot has come, named after what it waits for.
pub enum SnapshotView {
    /// The repository.
    Open,
    /// The commit that the workspace is based on, with the stack heads if they are known.
    Target { heads: Option<Seq<ObjectId>> },
    /// The stack heads.
    Heads { target: ObjectId },
    /// Nothing: the snapshot is taken.
    Finished { state: WorkspaceView },
}

impl Run for SnapshotView {
    open spec fn wf(self) -> bool {
        true
    }

    open spec fn action(self) -> Option<Action> {
        match self {
            SnapshotView::Open => Some(Action::OpenRepository),
            SnapshotView::Target { .. } => Some(Action::WorkspaceTarget),
            SnapshotView::Heads { target } => Some(Action::WorkspaceHeads { target }),
            SnapshotView::Finished { .. } => None,
        }
    }

    open spec fn parents(self) -> Option<Seq<ObjectId>> {
        None
    }

    open spec fn next(self, event: Event) -> SnapshotView {
        match (self, event) {
            (SnapshotView::Open, Event::Done) => SnapshotView::Target { heads: None },
            (SnapshotView::Target { heads: None }, Event::Id(target)) => SnapshotView::Heads {
                target,
            },
            (
                SnapshotView::Target { heads: Some(heads) },
                Event::Id(target),
            ) => SnapshotView::Finished { state: WorkspaceView { heads, target } },
            (SnapshotView::Heads { target }, Event::Ids(heads)) => SnapshotView::Finished {
                state: WorkspaceView { heads: heads@, target },
            },
            _ => self,
        }
    }

    open spec fn remaining(self) -> int {
        match self {
            SnapshotView::Open => 3,
            SnapshotView::Target { .. } => 2,
            SnapshotView::Heads { .. } => 1,
            SnapshotView::Finished { .. } => 0,
        }
    }

    proof fn law_answers_end_the_run(self, event: Event) {
    }
}

enum SnapshotStage {
    Open,
    Target { heads: Option<Vec<ObjectId>> },
    Heads { target: ObjectId },
    Finished { state: WorkspaceState },
}

/// The taking of a [`WorkspaceState`].
///
/// It asks for work through [`Snapshot::action`] and goes on when [`Snapshot::answer`] hands it
/// what came of it.
pub struct Snapshot {
    stage: SnapshotStage,
}

impl View for Snapshot {
    type V = SnapshotView;

    closed spec fn view(&self) -> SnapshotView {
        match self.stage {
            SnapshotStage::Open => SnapshotView::Open,
            SnapshotStage::Target { heads: None } => SnapshotView::Target { heads: None },
            SnapshotStage::Target { heads: Some(heads) } => SnapshotView::Target {
                heads: Some(heads@),
            },
            SnapshotStage::Heads { target } => SnapshotView::Heads { target },
            SnapshotStage::Finished { state } => SnapshotView::Finished { state: state@ },
        }
    }
}

impl Snapshot {
    /// What is to be done next; `None` once the snapshot is taken.
    pub fn action(&self) -> (action: Option<Action>)
        ensures
            action == self@.action(),
    {
        match &self.stage {
            SnapshotStage::Open => Some(Action::OpenRepository),
            SnapshotStage::Target { .. } => Some(Action::WorkspaceTarget),
            SnapshotStage::Heads { target } => Some(Action::WorkspaceHeads { target: *target }),
            SnapshotStage::Finished { .. } => None,
        }
    }

    /// The snapshot, or, as long as there is something to be done, what has come of it so far.
    pub fn finish(self) -> (finished: Result<WorkspaceState, Snapshot>)
        ensures
            match finished {
                Ok(state) => self@ == (SnapshotView::Finished { state: state@ }),
                Err(snapshot) => snapshot@ == self@ && self@.action() is Some,
            },
    {
        match self.stage {
            SnapshotStage::Finished { state } => Ok(state),
            stage => Err(Snapshot { stage }),
        }
    }

    /// Goes on with what came of the action. An event that does not answer it changes nothing.
    pub fn answer(self, event: Event) -> (after: Snapshot)
        ensures
            after@ == self@.next(event),
    {
        let stage = match (self.stage, event) {
            (SnapshotStage::Open, Event::Done) => SnapshotStage::Target { heads: None },
            (SnapshotStage::Target { heads: None }, Event::Id(target)) => SnapshotStage::Heads {
                target,
            },
            (SnapshotStage::Target { heads: Some(heads) }, Event::Id(target)) => {
                let state = WorkspaceState { heads, target };
                SnapshotStage::Finished { state }
            },
            (SnapshotStage::Heads { target }, Event::Ids(heads)) => {
                let state = WorkspaceState::from_heads_and_target(heads.as_slice(), target);
                SnapshotStage::Finished { state }
            },
            (stage, _) => stage,
        };
        Snapshot { stage }
    }
}

/// Begins to merge the stack heads of a workspace into a single tree.
///
/// The result is a merge of the stack heads only: the workspace target is not merged, and its
/// tree is the outcome only where there are no heads. All heads are merged against one base, the
/// merge base of them all. A head that conflicts with those before it ends the merge.
pub fn merge_workspace(workspace: &WorkspaceState) -> (merge: Octopus)
    ensures
        merge@ == OctopusView::start(workspace@.heads, workspace@.target, OnConflict::Fail),
        merge@.wf(),
{
    Octopus::new(copy_ids(workspace.heads.as_slice()), workspace.target, OnConflict::Fail)
}

/// The merge that applies what lies between `old_workspace` and `tree` on top of `new_workspace`.
///
/// Where the contents of the two sides conflict, those of `tree` are favored.
pub fn move_tree(tree: ObjectId, old_workspace: ObjectId, new_workspace: ObjectId) -> (merge:
    Action)
    ensures
        merge == (Action::MergeIndex {
            ancestor: old_workspace,
            ours: tree,
            theirs: new_workspace,
            favor_ours: true,
        }),
{
    Action::MergeIndex {
        ancestor: old_workspace,
        ours: tree,
        theirs: new_workspace,
        favor_ours: true,
    }
}

/// How far a check for conflicts has come, named after what it waits for.
#[derive(Clone, Copy, Debug, PartialEq, Eq, Structural)]
pub enum ConflictCheck {
    /// The repository, in which `tree` is to be moved.
    Open { tree: ObjectId, old_workspace: ObjectId, new_workspace: ObjectId },
    /// Whether moving `tree` leaves conflicts.
    Move { tree: ObjectId, old_workspace: ObjectId, new_workspace: ObjectId },
    /// Nothing: moving the tree leaves conflicts, or it does not.
    Finished { conflicts: bool },
}

impl Run for ConflictCheck {
    open spec fn wf(self) -> bool {
        true
    }

    open spec fn action(self) -> Option<Action> {
        match self {
            ConflictCheck::Open { .. } => Some(Action::OpenForCheckout),
            ConflictCheck::Move { tree, old_workspace, new_workspace } => Some(
                Action::MergeIndex {
                    ancestor: old_workspace,
                    ours: tree,
                    theirs: new_workspace,
                    favor_ours: true,
                },
            ),
            ConflictCheck::Finished { .. } => None,
        }
    }

    open spec fn parents(self) -> Option<Seq<ObjectId>> {
        None
    }

    open spec fn next(self, event: Event) -> ConflictCheck {
        match (self, event) {
            (
                ConflictCheck::Open { tree, old_workspace, new_workspace },
                Event::Done,
            ) => ConflictCheck::Move { tree, old_workspace, new_workspace },
            (ConflictCheck::Move { .. }, Event::Flag(conflicts)) => ConflictCheck::Finished {
                conflicts,
            },
            (check, _) => check,
        }
    }

    open spec fn remaining(self) -> int {
        match self {
            ConflictCheck::Open { .. } => 2,
            ConflictCheck::Move { .. } => 1,
            ConflictCheck::Finished { .. } => 0,
        }
    }

    proof fn law_answers_end_the_run(self, event: Event) {
    }
}

impl ConflictCheck {
    /// What is to be done next; `None` once it is known whether there are conflicts.
    pub fn next_action(&self) -> (action: Option<Action>)
        ensures
            action == self.action(),
    {
        match *self {
            ConflictCheck::Open { .. } => Some(Action::OpenForCheckout),
            ConflictCheck::Move { tree, old_workspace, new_workspace } => Some(
                move_tree(tree, old_workspace, new_workspace),
            ),
            ConflictCheck::Finished { .. } => None,
        }
    }

    /// Goes on with what came of the action. An event that does not answer it changes nothing.
    pub fn answer(self, event: Event) -> (after: ConflictCheck)
        ensures
            after == self.next(event),
    {
        match (self, event) {
            (
                ConflictCheck::Open { tree, old_workspace, new_workspace },
                Event::Done,
            ) => ConflictCheck::Move { tree, old_workspace, new_workspace },
            (ConflictCheck::Move { .. }, Event::Flag(conflicts)) => ConflictCheck::Finished {
                conflicts,
            },
            (check, _) => check,
        }
    }
}

/// Begins to check whether moving `tree` from `old_workspace` onto `new_workspace` leaves
/// conflicts.
pub fn move_tree_has_conflicts(
    tree: ObjectId,
    old_workspace: ObjectId,
    new_workspace: ObjectId,
) -> (check: ConflictCheck)
    ensures
        check == (ConflictCheck::Open { tree, old_workspace, new_workspace }),
{
    ConflictCheck::Open { tree, old_workspace, new_workspace }
}

/// How far an update of the uncommitted changes has come, named after what it waits for.
///
/// `worktree` is the tree with the uncommitted changes, if they are to be moved by way of a tree.
#[derive(Clone, Copy, Debug, PartialEq, Eq, Structural)]
pub enum Stage {
    /// The repository, in which the uncommitted changes are left in place with `cv3`.
    Open { cv3: bool },
    /// The tree with the uncommitted changes.
    WorktreeTree,
    /// The repository for merging.
    OpenForMerging { worktree: Option<ObjectId> },
    /// The repository for checking out.
    OpenForCheckout { tree: ObjectId },
    /// The merge of the old workspace.
    MergeOld { worktree: Option<ObjectId> },
    /// The merge of the new workspace.
    MergeNew { worktree: Option<ObjectId>, old_tree: ObjectId },
    /// Whether moving the uncommitted changes leaves conflicts.
    MoveTree { tree: ObjectId, old_tree: ObjectId, new_tree: ObjectId },
    /// The tree of the moved changes.
    WriteIndex { tree: ObjectId, old_tree: ObjectId, new_tree: ObjectId },
    /// The checkout of the moved changes.
    CheckoutIndex,
    /// The checkout that leaves the uncommitted changes in place.
    SafeCheckout { old_tree: ObjectId, new_tree: ObjectId },
    /// Nothing: the update is done.
    Finished,
    /// Nothing: one of the workspaces does not merge.
    Conflict { conflict: MergeConflict },
}

/// The state of an update of the uncommitted changes as mathematics sees it.
pub struct UpdateView {
    pub new: WorkspaceView,
    pub always_checkout: bool,
    /// The merge of the workspace whose turn it is.
    pub merge: OctopusView,
    pub stage: Stage,
}

impl UpdateView {
    /// The state before anything has been asked, if `stage` is what is waited for first.
    pub open spec fn start(
        old: WorkspaceView,
        new: WorkspaceView,
        always_checkout: bool,
        stage: Stage,
    ) -> UpdateView {
        UpdateView {
            new,
            always_checkout,
            merge: OctopusView::start(old.heads, old.target, OnConflict::Fail),
            stage,
        }
    }

    /// How the update ended, once it has.
    pub open spec fn outcome(self) -> Option<Result<(), MergeConflict>> {
        match self.stage {
            Stage::Finished => Some(Ok(())),
            Stage::Conflict { conflict } => Some(Err(conflict)),
            _ => None,
        }
    }

    /// The state in which the current merge has come to `merge`. Once that has ended, `merged`
    /// says what it makes of the tree.
    pub open spec fn merged_to(
        self,
        merge: OctopusView,
        merged: spec_fn(ObjectId) -> UpdateView,
    ) -> UpdateView {
        match merge.outcome() {
            None => UpdateView { merge, ..self },
            Some(Ok(tree)) => merged(tree),
            Some(Err(conflict)) => UpdateView {
                merge,
                stage: Stage::Conflict { conflict },
                ..self
            },
        }
    }
}

impl Run for UpdateView {
    open spec fn wf(self) -> bool {
        let unmerged = self.merge.wf() && self.merge.action() is Some;
        &&& self.new.heads.len() <= usize::MAX
        &&& match self.stage {
            Stage::Open { .. } => unmerged,
            Stage::WorktreeTree => unmerged,
            Stage::OpenForMerging { .. } => unmerged,
            Stage::OpenForCheckout { .. } => unmerged,
            Stage::MergeOld { .. } => unmerged,
            Stage::MergeNew { .. } => unmerged,
            _ => true,
        }
    }

    open spec fn action(self) -> Option<Action> {
        match self.stage {
            Stage::Open { .. } => Some(Action::OpenRepository),
            Stage::WorktreeTree => Some(Action::WorktreeTree { limit: 0 }),
            Stage::OpenForMerging { .. } => Some(Action::OpenForMerging),
            Stage::OpenForCheckout { .. } => Some(Action::OpenForCheckout),
            Stage::MergeOld { .. } => self.merge.action(),
            Stage::MergeNew { .. } => self.merge.action(),
            Stage::MoveTree { tree, old_tree, new_tree } => Some(
                Action::MergeIndex {
                    ancestor: old_tree,
                    ours: tree,
                    theirs: new_tree,
                    favor_ours: true,
                },
            ),
            Stage::WriteIndex { tree, old_tree, new_tree } => Some(
                Action::WriteIndex {
                    ancestor: old_tree,
                    ours: tree,
                    theirs: new_tree,
                    favor_ours: true,
                },
            ),
            Stage::CheckoutIndex => Some(
                Action::CheckoutIndex {
                    force: true,
                    remove_untracked: true,
                    conflict_style_diff3: true,
                },
            ),
            Stage::SafeCheckout { old_tree, new_tree } => Some(
                Action::SafeCheckout { from: old_tree, to: new_tree },
            ),
            Stage::Finished => None,
            Stage::Conflict { .. } => None,
        }
    }

    open spec fn parents(self) -> Option<Seq<ObjectId>> {
        None
    }

    open spec fn next(self, event: Event) -> UpdateView {
        let at = |stage: Stage| UpdateView { stage, ..self };
        match (self.stage, event) {
            (Stage::Open { cv3 }, Event::Done) => if cv3 {
                at(Stage::OpenForMerging { worktree: None })
            } else {
                at(Stage::WorktreeTree)
            },
            (Stage::WorktreeTree, Event::Id(tree)) => at(
                Stage::OpenForMerging { worktree: Some(tree) },
            ),
            (Stage::OpenForMerging { worktree: Some(tree) }, Event::Done) => at(
                Stage::OpenForCheckout { tree },
            ),
            (Stage::OpenForMerging { worktree: None }, Event::Done) => at(
                Stage::MergeOld { worktree: None },
            ),
            (Stage::OpenForCheckout { tree }, Event::Done) => at(
                Stage::MergeOld { worktree: Some(tree) },
            ),
            (Stage::MergeOld { worktree }, event) => self.merged_to(
                self.merge.next(event),
                |old_tree: ObjectId|
                    UpdateView {
                        merge: OctopusView::start(
                            self.new.heads,
                            self.new.target,
                            OnConflict::Fail,
                        ),
                        stage: Stage::MergeNew { worktree, old_tree },
                        ..self
                    },
            ),
            (Stage::MergeNew { worktree, old_tree }, event) => self.merged_to(
                self.merge.next(event),
                |new_tree: ObjectId|
                    UpdateView {
                        merge: self.merge.next(event),
                        stage: match worktree {
                            Some(tree) => Stage::MoveTree { tree, old_tree, new_tree },
                            None => Stage::SafeCheckout { old_tree, new_tree },
                        },
                        ..self
                    },
            ),
            (Stage::MoveTree { tree, old_tree, new_tree }, Event::Flag(conflicts)) => if conflicts
                || self.always_checkout {
                at(Stage::CheckoutIndex)
            } else {
                at(Stage::WriteIndex { tree, old_tree, new_tree })
            },
            (Stage::WriteIndex { tree, .. }, Event::Id(moved)) => if moved == tree {
                at(Stage::Finished)
            } else {
                at(Stage::CheckoutIndex)
            },
            (Stage::CheckoutIndex, Event::Done) => at(Stage::Finished),
            (Stage::SafeCheckout { .. }, Event::Done) => at(Stage::Finished),
            _ => self,
        }
    }

    open spec fn remaining(self) -> int {
        let second = 4 * self.new.heads.len() + 3 + 3;
        match self.stage {
            Stage::Open { .. } => 4 + self.merge.remaining() + second,
            Stage::WorktreeTree => 3 + self.merge.remaining() + second,
            Stage::OpenForMerging { .. } => 2 + self.merge.remaining() + second,
            Stage::OpenForCheckout { .. } => 1 + self.merge.remaining() + second,
            Stage::MergeOld { .. } => self.merge.remaining() + second,
            Stage::MergeNew { .. } => self.merge.remaining() + 3,
            Stage::MoveTree { .. } => 3,
            Stage::WriteIndex { .. } => 2,
            Stage::CheckoutIndex => 1,
            Stage::SafeCheckout { .. } => 1,
            Stage::Finished => 0,
            Stage::Conflict { .. } => 0,
        }
    }

    proof fn law_answers_end_the_run(self, event: Event) {
        if self.stage is MergeOld || self.stage is MergeNew {
            self.merge.law_answers_end_the_run(event);
        }
    }
}

/// An update of the uncommitted changes from one snapshot of the workspace to another.
///
/// The update asks for work through [`Update::action`] and goes on when [`Update::answer`] hands
/// it what came of it.
pub struct Update {
    new: WorkspaceState,
    always_checkout: bool,
    merge: Octopus,
    stage: Stage,
}

impl View for Update {
    type V = UpdateView;

    closed spec fn view(&self) -> UpdateView {
        UpdateView {
            new: self.new@,
            always_checkout: self.always_checkout,
            merge: self.merge@,
            stage: self.stage,
        }
    }
}

impl Update {
    #[verifier::type_invariant]
    closed spec fn inv(self) -> bool {
        self@.wf()
    }

    /// What is to be done next; `None` once the update has ended.
    pub fn action(&self) -> (action: Option<Action>)
        ensures
            action == self@.action(),
            self@.wf(),
    {
        proof {
            use_type_invariant(self);
        }
        match self.stage {
            Stage::Open { .. } => Some(Action::OpenRepository),
            Stage::WorktreeTree => Some(Action::WorktreeTree { limit: 0 }),
            Stage::OpenForMerging { .. } => Some(Action::OpenForMerging),
            Stage::OpenForCheckout { .. } => Some(Action::OpenForCheckout),
            Stage::MergeOld { .. } => self.merge.action(),
            Stage::MergeNew { .. } => self.merge.action(),
            Stage::MoveTree { tree, old_tree, new_tree } => Some(
                move_tree(tree, old_tree, new_tree),
            ),
            Stage::WriteIndex { tree, old_tree, new_tree } => Some(
                Action::WriteIndex {
                    ancestor: old_tree,
                    ours: tree,
                    theirs: new_tree,
                    favor_ours: true,
                },
            ),
            Stage::CheckoutIndex => Some(
                Action::CheckoutIndex {
                    force: true,
                    remove_untracked: true,
                    conflict_style_diff3: true,
                },
            ),
            Stage::SafeCheckout { old_tree, new_tree } => Some(
                Action::SafeCheckout { from: old_tree, to: new_tree },
            ),
            Stage::Finished => None,
            Stage::Conflict { .. } => None,
        }
    }

    /// How the update ended; `None` as long as there is something to be done.
    pub fn outcome(&self) -> (outcome: Option<Result<(), MergeConflict>>)
        ensures
            outcome == self@.outcome(),
            outcome is None <==> self@.action() is Some,
    {
        proof {
            use_type_invariant(self);
        }
        match self.stage {
            Stage::Finished => Some(Ok(())),
            Stage::Conflict { conflict } => Some(Err(conflict)),
            _ => None,
        }
    }

    /// Goes on with what came of the action. An event that does not answer it changes nothing.
    pub fn answer(self, event: Event) -> (after: Update)
        ensures
            after@ == self@.next(event),
            after@.wf(),
    {
        proof {
            use_type_invariant(&self);
            self@.law_answers_end_the_run(event);
        }
        let Update { new, always_checkout, merge, stage } = self;
        match (stage, event) {
            (Stage::MergeOld { worktree }, event) => {
                let merge = merge.answer(event);
                match merge.outcome() {
                    None => Update { new, always_checkout, merge, stage },
                    Some(Ok(old_tree)) => {
                        let merge = merge_workspace(&new);
                        let stage = Stage::MergeNew { worktree, old_tree };
                        Update { new, always_checkout, merge, stage }
                    },
                    Some(Err(conflict)) => {
                        let stage = Stage::Conflict { conflict };
                        Update { new, always_checkout, merge, stage }
                    },
                }
            },
            (Stage::MergeNew { worktree, old_tree }, event) => {
                let merge = merge.answer(event);
                let stage = match merge.outcome() {
                    None => stage,
                    Some(Ok(new_tree)) => match worktree {
                        Some(tree) => Stage::MoveTree { tree, old_tree, new_tree },
                        None => Stage::SafeCheckout { old_tree, new_tree },
                    },
                    Some(Err(conflict)) => Stage::Conflict { conflict },
                };
                Update { new, always_checkout, merge, stage }
            },
            (stage, event) => {
                let stage = match (stage, event) {
                    (Stage::Open { cv3 }, Event::Done) => {
                        if cv3 {
                            Stage::OpenForMerging { worktree: None }
                        } else {
                            Stage::WorktreeTree
                        }
                    },
                    (Stage::WorktreeTree, Event::Id(tree)) => Stage::OpenForMerging {
                        worktree: Some(tree),
                    },
                    (
                        Stage::OpenForMerging { worktree: Some(tree) },
                        Event::Done,
                    ) => Stage::OpenForCheckout { tree },
                    (Stage::OpenForMerging { worktree: None }, Event::Done) => Stage::MergeOld {
                        worktree: None,
                    },
                    (Stage::OpenForCheckout { tree }, Event::Done) => Stage::MergeOld {
                        worktree: Some(tree),
                    },
                    (Stage::MoveTree { tree, old_tree, new_tree }, Event::Flag(conflicts)) => {
                        if conflicts || always_checkout {
                            Stage::CheckoutIndex
                        } else {
                            Stage::WriteIndex { tree, old_tree, new_tree }
                        }
                    },
                    (Stage::WriteIndex { tree, .. }, Event::Id(moved)) => {
                        if moved == tree {
                            Stage::Finished
                        } else {
                            Stage::CheckoutIndex
                        }
                    },
                    (Stage::CheckoutIndex, Event::Done) => Stage::Finished,
                    (Stage::SafeCheckout { .. }, Event::Done) => Stage::Finished,
                    (stage, _) => stage,
                };
                Update { new, always_checkout, merge, stage }
            },
        }
    }
}

/// Begins to rebase the uncommitted changes from one snapshot of the workspace onto another.
///
/// With `cv3`, the uncommitted changes are left in place by a checkout that is safe for them.
/// Without it, they are written to a tree first, which is then moved.
pub fn update_uncommitted_changes(cv3: bool, old: WorkspaceState, new: WorkspaceState) -> (update:
    Update)
    ensures
        update@ == UpdateView::start(old@, new@, false, Stage::Open { cv3 }),
        update@.wf(),
{
    let merge = merge_workspace(&old);
    assert(new@.heads.len() == new.heads.len());
    Update { new, always_checkout: false, merge, stage: Stage::Open { cv3 } }
}

/// Begins to rebase the uncommitted changes, which are those of the tree
/// `old_uncommitted_changes`, from one snapshot of the workspace onto another.
///
/// `old_uncommitted_changes` is `None` if the changes are to be left in place by a checkout that
/// is safe for them. Unless `always_checkout` is `Some(true)`, nothing is checked out if moving
/// the tree does not change it.
pub fn update_uncommitted_changes_with_tree(
    old: WorkspaceState,
    new: WorkspaceState,
    old_uncommitted_changes: Option<ObjectId>,
    always_checkout: Option<bool>,
) -> (update: Update)
    ensures
        update@ == UpdateView::start(
            old@,
            new@,
            always_checkout == Some(true),
            Stage::OpenForMerging { worktree: old_uncommitted_changes },
        ),
        update@.wf(),
{
    let merge = merge_workspace(&old);
    let stage = Stage::OpenForMerging { worktree: old_uncommitted_changes };
    let always_checkout = match always_checkout {
        Some(always) => always,
        None => false,
    };
    assert(new@.heads.len() == new.heads.len());
    Update { new, always_checkout, merge, stage }
}

} // verus!
