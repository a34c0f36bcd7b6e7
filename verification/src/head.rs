use crate::action::{Action, Event, Run, Stack};
use crate::conflict::{treat_as_unresolved_by_git, TreatAsUnresolved};
use crate::object_id::ObjectId;
use crate::octopus::{Octopus, OctopusView, OnConflict};
use vstd::prelude::*;

verus! {

/// The message of the workspace commit.
pub const WORKSPACE_HEAD: &'static str = "Workspace Head";

/// How far the merge of the stored stacks has come, named after what it waits for.
pub enum RemergeView {
    /// The default target.
    Target,
    /// The stacks.
    Stacks { target: ObjectId },
    /// The head of the stack behind the last of `heads`.
    Heads { target: ObjectId, stacks: Seq<Stack>, heads: Seq<ObjectId> },
    /// The merge of the heads.
    Merge { stacks: Seq<Stack>, merge: OctopusView },
    /// Nothing: the stacks that are still in the workspace are merged into `tree`.
    Finished { tree: ObjectId, stacks: Seq<Stack>, target: ObjectId },
}

/// `stacks` once the stack at `at` is no longer in the workspace.
pub open spec fn without(stacks: Seq<Stack>, at: int) -> Seq<Stack> {
    stacks.update(at, Stack { in_workspace: false, ..stacks[at] })
}

impl RemergeView {
    /// The state in which the heads of all stacks are known.
    pub open spec fn merge(target: ObjectId, stacks: Seq<Stack>, heads: Seq<ObjectId>) -> Self {
        RemergeView::Merge {
            stacks,
            merge: OctopusView::start(heads, target, OnConflict::Evict),
        }
    }

    /// The state in which the merge has come to `merge`.
    pub open spec fn merged_to(stacks: Seq<Stack>, merge: OctopusView) -> Self {
        match merge.outcome() {
            Some(Ok(tree)) => RemergeView::Finished { tree, stacks, target: merge.target },
            _ => match merge.action() {
                Some(Action::Evict { head }) => RemergeView::Merge {
                    stacks: without(stacks, head as int),
                    merge,
                },
                _ => RemergeView::Merge { stacks, merge },
            },
        }
    }
}

impl Run for RemergeView {
    open spec fn wf(self) -> bool {
        match self {
            RemergeView::Heads { target, stacks, heads } => {
                &&& heads.len() < stacks.len()
                &&& stacks.len() <= usize::MAX
            },
            RemergeView::Merge { stacks, merge } => {
                &&& merge.wf()
                &&& merge.action() is Some
                &&& merge.on_conflict == OnConflict::Evict
                &&& merge.heads.len() == stacks.len()
                &&& merge.action() matches Some(Action::Evict { head })
                    ==> !stacks[head as int].in_workspace
            },
            _ => true,
        }
    }

    open spec fn action(self) -> Option<Action> {
        match self {
            RemergeView::Target => Some(Action::DefaultTarget),
            RemergeView::Stacks { .. } => Some(Action::ListStacks),
            RemergeView::Heads { stacks, heads, .. } => Some(
                Action::StackHead { stack: stacks[heads.len() as int].id },
            ),
            RemergeView::Merge { stacks, merge } => match merge.action() {
                Some(Action::Evict { head }) => Some(
                    Action::StoreStack { stored: stacks[head as int] },
                ),
                action => action,
            },
            RemergeView::Finished { .. } => None,
        }
    }

    open spec fn parents(self) -> Option<Seq<ObjectId>> {
        None
    }

    open spec fn next(self, event: Event) -> RemergeView {
        match (self, event) {
            (RemergeView::Target, Event::Id(target)) => RemergeView::Stacks { target },
            (RemergeView::Stacks { target }, Event::Stacks(stacks)) => if stacks@.len() == 0 {
                RemergeView::merge(target, stacks@, Seq::empty())
            } else {
                RemergeView::Heads { target, stacks: stacks@, heads: Seq::empty() }
            },
            (RemergeView::Heads { target, stacks, heads }, Event::Id(head)) => if heads.len() + 1
                < stacks.len() {
                RemergeView::Heads { target, stacks, heads: heads.push(head) }
            } else {
                RemergeView::merge(target, stacks, heads.push(head))
            },
            (RemergeView::Merge { stacks, merge }, event) => RemergeView::merged_to(
                stacks,
                merge.next(event),
            ),
            _ => self,
        }
    }

    /// A stack count is not known before the stacks are, so the bound for that is the largest
    /// there can be.
    open spec fn remaining(self) -> int {
        match self {
            RemergeView::Target => 5 * usize::MAX + 5,
            RemergeView::Stacks { .. } => 5 * usize::MAX + 4,
            RemergeView::Heads { stacks, heads, .. } => (stacks.len() - heads.len()) + 4
                * stacks.len() + 3,
            RemergeView::Merge { merge, .. } => merge.remaining(),
            RemergeView::Finished { .. } => 0,
        }
    }

    proof fn law_answers_end_the_run(self, event: Event) {
        if let RemergeView::Merge { stacks, merge } = self {
            merge.law_answers_end_the_run(event);
            if let Some(Action::Evict { head }) = merge.action() {
                assert(without(stacks, head as int) =~= stacks);
            }
        }
        if let Event::Stacks(stacks) = event {
            assert(stacks@.len() == stacks.len());
        }
    }
}

enum RemergeStage {
    Target,
    Stacks { target: ObjectId },
    Heads { target: ObjectId, stacks: Vec<Stack>, heads: Vec<ObjectId> },
    Merge { stacks: Vec<Stack>, merge: Octopus },
    Finished { tree: ObjectId, stacks: Vec<Stack>, target: ObjectId },
}

/// The tree that the stored stacks merge to, with the stacks and the target it was made from.
#[derive(Debug)]
pub struct Remerged {
    pub tree: ObjectId,
    /// The stacks, in the order in which they are stored. One that conflicts with those before
    /// it is no longer in the workspace.
    pub stacks: Vec<Stack>,
    pub target: ObjectId,
}

/// A merge of the stored stacks into a tree.
///
/// The merge asks for work through [`Remerge::action`] and goes on when [`Remerge::answer`] hands
/// it what came of it.
pub struct Remerge {
    stage: RemergeStage,
}

impl View for Remerge {
    type V = RemergeView;

    closed spec fn view(&self) -> RemergeView {
        match self.stage {
            RemergeStage::Target => RemergeView::Target,
            RemergeStage::Stacks { target } => RemergeView::Stacks { target },
            RemergeStage::Heads { target, stacks, heads } => RemergeView::Heads {
                target,
                stacks: stacks@,
                heads: heads@,
            },
            RemergeStage::Merge { stacks, merge } => RemergeView::Merge {
                stacks: stacks@,
                merge: merge@,
            },
            RemergeStage::Finished { tree, stacks, target } => RemergeView::Finished {
                tree,
                stacks: stacks@,
                target,
            },
        }
    }
}

/// Begins to merge the stored stacks into a tree.
///
/// All heads are merged against one base, the merge base of them all, so the target is not
/// merged, and its tree is the outcome only where there are no stacks. A stack that conflicts
/// with those before it is taken out of the workspace.
pub fn remerged_workspace_tree_v2() -> (remerge: Remerge)
    ensures
        remerge@ == RemergeView::Target,
{
    Remerge { stage: RemergeStage::Target }
}

impl Remerge {
    #[verifier::type_invariant]
    closed spec fn inv(self) -> bool {
        self@.wf()
    }

    /// What is to be done next; `None` once the stacks are merged.
    pub fn action(&self) -> (action: Option<Action>)
        ensures
            action == self@.action(),
            self@.wf(),
    {
        proof {
            use_type_invariant(self);
        }
        match &self.stage {
            RemergeStage::Target => Some(Action::DefaultTarget),
            RemergeStage::Stacks { .. } => Some(Action::ListStacks),
            RemergeStage::Heads { stacks, heads, .. } => Some(
                Action::StackHead { stack: stacks[heads.len()].id },
            ),
            RemergeStage::Merge { stacks, merge } => match merge.action() {
                Some(Action::Evict { head }) => Some(Action::StoreStack { stored: stacks[head] }),
                action => action,
            },
            RemergeStage::Finished { .. } => None,
        }
    }

    /// What the stacks merge to, or, as long as there is something to be done, the merge itself.
    pub fn finish(self) -> (finished: Result<Remerged, Remerge>)
        ensures
            match finished {
                Ok(remerged) => self@ == (RemergeView::Finished {
                    tree: remerged.tree,
                    stacks: remerged.stacks@,
                    target: remerged.target,
                }),
                Err(remerge) => remerge@ == self@ && self@.action() is Some,
            },
    {
        proof {
            use_type_invariant(&self);
        }
        match self.stage {
            RemergeStage::Finished { tree, stacks, target } => Ok(
                Remerged { tree, stacks, target },
            ),
            stage => Err(Remerge { stage }),
        }
    }

    /// Goes on with what came of the action. An event that does not answer it changes nothing.
    pub fn answer(self, event: Event) -> (after: Remerge)
        ensures
            after@ == self@.next(event),
            after@.wf(),
    {
        proof {
            use_type_invariant(&self);
            self@.law_answers_end_the_run(event);
        }
        let stage = match (self.stage, event) {
            (RemergeStage::Target, Event::Id(target)) => RemergeStage::Stacks { target },
            (RemergeStage::Stacks { target }, Event::Stacks(stacks)) => {
                let heads: Vec<ObjectId> = Vec::new();
                if stacks.len() == 0 {
                    let merge = Octopus::new(heads, target, OnConflict::Evict);
                    RemergeStage::Merge { stacks, merge }
                } else {
                    RemergeStage::Heads { target, stacks, heads }
                }
            },
            (RemergeStage::Heads { target, stacks, heads }, Event::Id(head)) => {
                let mut heads = heads;
                heads.push(head);
                if heads.len() < stacks.len() {
                    RemergeStage::Heads { target, stacks, heads }
                } else {
                    let merge = Octopus::new(heads, target, OnConflict::Evict);
                    RemergeStage::Merge { stacks, merge }
                }
            },
            (RemergeStage::Merge { stacks, merge }, event) => {
                let merge = merge.answer(event);
                match merge.outcome() {
                    Some(Ok(tree)) => {
                        let target = merge.target();
                        RemergeStage::Finished { tree, stacks, target }
                    },
                    _ => {
                        let mut stacks = stacks;
                        if let Some(Action::Evict { head }) = merge.action() {
                            let evicted = Stack { id: stacks[head].id, in_workspace: false };
                            stacks.set(head, evicted);
                        }
                        RemergeStage::Merge { stacks, merge }
                    },
                }
            },
            (stage, _) => stage,
        };
        Remerge { stage }
    }
}

/// The position of the first stack at or behind `from` that is in the workspace, or the number of
/// stacks if there is none.
pub open spec fn first_in_workspace(stacks: Seq<Stack>, from: int) -> int
    decreases stacks.len() - from,
{
    if from >= stacks.len() {
        stacks.len() as int
    } else if stacks[from].in_workspace {
        from
    } else {
        first_in_workspace(stacks, from + 1)
    }
}

/// How far writing the workspace commit has come, named after what it waits for.
pub enum CommitView {
    /// The repository for merging.
    Open,
    /// The merge of the stored stacks.
    Remerge { remerge: RemergeView },
    /// The head of the stack at `next`, with `parents` the heads of those before it.
    Heads {
        tree: ObjectId,
        target: ObjectId,
        stacks: Seq<Stack>,
        next: int,
        parents: Seq<ObjectId>,
    },
    /// The commit.
    Commit { tree: ObjectId, parents: Seq<ObjectId> },
    /// Nothing: the commit is written.
    Finished { commit: ObjectId, parents: Seq<ObjectId> },
}

impl CommitView {
    /// The state in which the stacks before `from` have been gone through, with `parents` the
    /// heads of those that are in the workspace. The target stands in for a parent if there is
    /// none.
    pub open spec fn heads(
        tree: ObjectId,
        target: ObjectId,
        stacks: Seq<Stack>,
        from: int,
        parents: Seq<ObjectId>,
    ) -> Self {
        let next = first_in_workspace(stacks, from);
        if next < stacks.len() {
            CommitView::Heads { tree, target, stacks, next, parents }
        } else if parents.len() == 0 {
            CommitView::Commit { tree, parents: seq![target] }
        } else {
            CommitView::Commit { tree, parents }
        }
    }

    /// The state in which the merge of the stored stacks has come to `remerge`.
    pub open spec fn remerged_to(remerge: RemergeView) -> Self {
        match remerge {
            RemergeView::Finished { tree, stacks, target } => CommitView::heads(
                tree,
                target,
                stacks,
                0,
                Seq::empty(),
            ),
            _ => CommitView::Remerge { remerge },
        }
    }

    /// The workspace commit, once it is written.
    pub open spec fn outcome(self) -> Option<ObjectId> {
        match self {
            CommitView::Finished { commit, .. } => Some(commit),
            _ => None,
        }
    }
}

proof fn lemma_first_in_workspace(stacks: Seq<Stack>, from: int)
    requires
        0 <= from <= stacks.len(),
    ensures
        from <= first_in_workspace(stacks, from) <= stacks.len(),
        first_in_workspace(stacks, from) < stacks.len() ==> stacks[first_in_workspace(
            stacks,
            from,
        )].in_workspace,
        forall|i: int|
            from <= i < first_in_workspace(stacks, from) ==> !(#[trigger] stacks[i]).in_workspace,
    decreases stacks.len() - from,
{
    if from < stacks.len() && !stacks[from].in_workspace {
        lemma_first_in_workspace(stacks, from + 1);
    }
}

impl Run for CommitView {
    open spec fn wf(self) -> bool {
        match self {
            CommitView::Remerge { remerge } => remerge.wf() && remerge.action() is Some,
            CommitView::Heads { stacks, next, .. } => {
                &&& 0 <= next < stacks.len() <= usize::MAX
                &&& stacks[next].in_workspace
            },
            CommitView::Commit { parents, .. } => parents.len() > 0,
            CommitView::Finished { parents, .. } => parents.len() > 0,
            CommitView::Open => true,
        }
    }

    open spec fn action(self) -> Option<Action> {
        match self {
            CommitView::Open => Some(Action::OpenForMerging),
            CommitView::Remerge { remerge } => remerge.action(),
            CommitView::Heads { stacks, next, .. } => Some(
                Action::StackHeadIfAny { stack: stacks[next].id },
            ),
            CommitView::Commit { tree, .. } => Some(Action::CommitWorkspace { tree }),
            CommitView::Finished { .. } => None,
        }
    }

    /// The parents of the workspace commit, once they are known.
    open spec fn parents(self) -> Option<Seq<ObjectId>> {
        match self {
            CommitView::Commit { parents, .. } => Some(parents),
            CommitView::Finished { parents, .. } => Some(parents),
            _ => None,
        }
    }

    open spec fn next(self, event: Event) -> CommitView {
        match (self, event) {
            (CommitView::Open, Event::Done) => CommitView::Remerge { remerge: RemergeView::Target },
            (CommitView::Remerge { remerge }, event) => CommitView::remerged_to(
                remerge.next(event),
            ),
            (
                CommitView::Heads { tree, target, stacks, next, parents },
                Event::MaybeId(Some(head)),
            ) => CommitView::heads(tree, target, stacks, next + 1, parents.push(head)),
            (
                CommitView::Heads { tree, target, stacks, next, parents },
                Event::MaybeId(None),
            ) => CommitView::heads(tree, target, stacks, next + 1, parents),
            (CommitView::Commit { parents, .. }, Event::Id(commit)) => CommitView::Finished {
                commit,
                parents,
            },
            _ => self,
        }
    }

    open spec fn remaining(self) -> int {
        match self {
            CommitView::Open => 6 * usize::MAX + 8,
            CommitView::Remerge { remerge } => remerge.remaining() + usize::MAX + 2,
            CommitView::Heads { stacks, next, .. } => stacks.len() - next + 1,
            CommitView::Commit { .. } => 1,
            CommitView::Finished { .. } => 0,
        }
    }

    proof fn law_answers_end_the_run(self, event: Event) {
        match self {
            CommitView::Remerge { remerge } => {
                remerge.law_answers_end_the_run(event);
                if let RemergeView::Finished { stacks, .. } = remerge.next(event) {
                    lemma_first_in_workspace(stacks, 0);
                }
            },
            CommitView::Heads { stacks, next, .. } => {
                lemma_first_in_workspace(stacks, next + 1);
            },
            _ => {},
        }
    }
}

enum CommitStage {
    Open,
    Remerge { remerge: Remerge },
    Heads {
        tree: ObjectId,
        target: ObjectId,
        stacks: Vec<Stack>,
        next: usize,
        parents: Vec<ObjectId>,
    },
    Commit { tree: ObjectId, parents: Vec<ObjectId> },
    Finished { commit: ObjectId, parents: Vec<ObjectId> },
}

/// A merge commit of all active stack heads: what the working directory is compared with to see
/// which files have been modified.
///
/// Writing it asks for work through [`WorkspaceCommit::action`] and goes on when
/// [`WorkspaceCommit::answer`] hands it what came of it.
pub struct WorkspaceCommit {
    stage: CommitStage,
}

impl View for WorkspaceCommit {
    type V = CommitView;

    closed spec fn view(&self) -> CommitView {
        match self.stage {
            CommitStage::Open => CommitView::Open,
            CommitStage::Remerge { remerge } => CommitView::Remerge { remerge: remerge@ },
            CommitStage::Heads { tree, target, stacks, next, parents } => CommitView::Heads {
                tree,
                target,
                stacks: stacks@,
                next: next as int,
                parents: parents@,
            },
            CommitStage::Commit { tree, parents } => CommitView::Commit {
                tree,
                parents: parents@,
            },
            CommitStage::Finished { commit, parents } => CommitView::Finished {
                commit,
                parents: parents@,
            },
        }
    }
}

/// Begins to write a merge commit of all active stack heads.
pub fn remerged_workspace_commit_v2() -> (commit: WorkspaceCommit)
    ensures
        commit@ == CommitView::Open,
{
    WorkspaceCommit { stage: CommitStage::Open }
}

impl WorkspaceCommit {
    #[verifier::type_invariant]
    closed spec fn inv(self) -> bool {
        self@.wf()
    }

    /// What is to be done next; `None` once the commit is written.
    pub fn action(&self) -> (action: Option<Action>)
        ensures
            action == self@.action(),
            self@.wf(),
    {
        proof {
            use_type_invariant(self);
        }
        match &self.stage {
            CommitStage::Open => Some(Action::OpenForMerging),
            CommitStage::Remerge { remerge } => remerge.action(),
            CommitStage::Heads { stacks, next, .. } => Some(
                Action::StackHeadIfAny { stack: stacks[*next].id },
            ),
            CommitStage::Commit { tree, .. } => Some(Action::CommitWorkspace { tree: *tree }),
            CommitStage::Finished { .. } => None,
        }
    }

    /// The parents that the commit is to have; `None` as long as they are not known.
    pub fn parents(&self) -> (parents: Option<&Vec<ObjectId>>)
        ensures
            match parents {
                Some(parents) => self@.parents() == Some(parents@),
                None => self@.parents() is None,
            },
    {
        match &self.stage {
            CommitStage::Commit { parents, .. } => Some(parents),
            CommitStage::Finished { parents, .. } => Some(parents),
            _ => None,
        }
    }

    /// The message that the workspace commit is to have.
    pub fn message(&self) -> (message: &'static str)
        ensures
            message@ == "Workspace Head"@,
    {
        WORKSPACE_HEAD
    }

    /// The workspace commit; `None` as long as there is something to be done.
    pub fn outcome(&self) -> (outcome: Option<ObjectId>)
        ensures
            outcome == self@.outcome(),
            outcome is None <==> self@.action() is Some,
    {
        proof {
            use_type_invariant(self);
        }
        match &self.stage {
            CommitStage::Finished { commit, .. } => Some(*commit),
            _ => None,
        }
    }

    fn heads(
        tree: ObjectId,
        target: ObjectId,
        stacks: Vec<Stack>,
        from: usize,
        parents: Vec<ObjectId>,
    ) -> (commit: WorkspaceCommit)
        requires
            from <= stacks@.len(),
        ensures
            commit@ == CommitView::heads(tree, target, stacks@, from as int, parents@),
            commit@.wf(),
    {
        let mut next: usize = from;
        while next < stacks.len() && !stacks[next].in_workspace
            invariant
                from <= next <= stacks@.len(),
                first_in_workspace(stacks@, from as int) == first_in_workspace(
                    stacks@,
                    next as int,
                ),
            decreases stacks@.len() - next,
        {
            next = next + 1;
        }
        let stage = if next < stacks.len() {
            CommitStage::Heads { tree, target, stacks, next, parents }
        } else if parents.len() == 0 {
            let mut parents = parents;
            parents.push(target);
            assert(parents@ =~= seq![target]);
            CommitStage::Commit { tree, parents }
        } else {
            CommitStage::Commit { tree, parents }
        };
        WorkspaceCommit { stage }
    }

    /// Goes on with what came of the action. An event that does not answer it changes nothing.
    pub fn answer(self, event: Event) -> (after: WorkspaceCommit)
        ensures
            after@ == self@.next(event),
            after@.wf(),
    {
        proof {
            use_type_invariant(&self);
            self@.law_answers_end_the_run(event);
        }
        match (self.stage, event) {
            (CommitStage::Open, Event::Done) => {
                let remerge = remerged_workspace_tree_v2();
                WorkspaceCommit { stage: CommitStage::Remerge { remerge } }
            },
            (CommitStage::Remerge { remerge }, event) => {
                match remerge.answer(event).finish() {
                    Ok(Remerged { tree, stacks, target }) => {
                        let parents: Vec<ObjectId> = Vec::new();
                        WorkspaceCommit::heads(tree, target, stacks, 0, parents)
                    },
                    Err(remerge) => WorkspaceCommit { stage: CommitStage::Remerge { remerge } },
                }
            },
            (
                CommitStage::Heads { tree, target, stacks, next, parents },
                Event::MaybeId(head),
            ) => {
                let mut parents = parents;
                if let Some(head) = head {
                    parents.push(head);
                }
                WorkspaceCommit::heads(tree, target, stacks, next + 1, parents)
            },
            (CommitStage::Commit { parents, .. }, Event::Id(commit)) => {
                WorkspaceCommit { stage: CommitStage::Finished { commit, parents } }
            },
            (stage, _) => WorkspaceCommit { stage },
        }
    }
}

/// How far merging the worktree with the workspace has come, named after what it waits for.
///
/// `ours` is the tree of the worktree, and `theirs` that of the workspace commit.
pub enum WorktreeMergeView {
    /// Where `HEAD` points to.
    Head,
    /// The tree of the worktree.
    Worktree,
    /// The workspace commit.
    Commit { ours: ObjectId, commit: CommitView },
    /// The tree of the workspace commit.
    CommitTree { ours: ObjectId, written: ObjectId },
    /// The merge options.
    Options { ours: ObjectId, theirs: ObjectId },
    /// The tree that `HEAD` points to.
    HeadTree { ours: ObjectId, theirs: ObjectId },
    /// The merge.
    Merge { base: ObjectId, ours: ObjectId, theirs: ObjectId },
    /// Nothing: the merge is made.
    Finished,
}

impl WorktreeMergeView {
    /// The state in which the workspace commit has come to `commit`.
    pub open spec fn committed_to(ours: ObjectId, commit: CommitView) -> Self {
        match commit.outcome() {
            Some(written) => WorktreeMergeView::CommitTree { ours, written },
            None => WorktreeMergeView::Commit { ours, commit },
        }
    }

    /// Which conflicts of the merge are unresolved, once it is made.
    pub open spec fn outcome(self) -> Option<TreatAsUnresolved> {
        match self {
            WorktreeMergeView::Finished => Some(TreatAsUnresolved::by_git()),
            _ => None,
        }
    }
}

impl Run for WorktreeMergeView {
    open spec fn wf(self) -> bool {
        match self {
            WorktreeMergeView::Commit { commit, .. } => commit.wf() && commit.action() is Some,
            _ => true,
        }
    }

    open spec fn action(self) -> Option<Action> {
        match self {
            WorktreeMergeView::Head => Some(Action::Head),
            WorktreeMergeView::Worktree => Some(Action::WorktreeTree { limit: 0 }),
            WorktreeMergeView::Commit { commit, .. } => commit.action(),
            WorktreeMergeView::CommitTree { written, .. } => Some(
                Action::CommitTree { commit: written },
            ),
            WorktreeMergeView::Options { .. } => Some(Action::MergeOptionsNoRewrites),
            WorktreeMergeView::HeadTree { .. } => Some(Action::HeadTree),
            WorktreeMergeView::Merge { base, ours, theirs } => Some(
                Action::MergeWorktree { base, ours, theirs, fail_on: TreatAsUnresolved::by_git() },
            ),
            WorktreeMergeView::Finished => None,
        }
    }

    /// The parents of the workspace commit, once they are known and as long as it is not written.
    open spec fn parents(self) -> Option<Seq<ObjectId>> {
        match self {
            WorktreeMergeView::Commit { commit, .. } => commit.parents(),
            _ => None,
        }
    }

    open spec fn next(self, event: Event) -> WorktreeMergeView {
        match (self, event) {
            (WorktreeMergeView::Head, Event::Done) => WorktreeMergeView::Worktree,
            (WorktreeMergeView::Worktree, Event::Id(ours)) => WorktreeMergeView::Commit {
                ours,
                commit: CommitView::Open,
            },
            (
                WorktreeMergeView::Commit { ours, commit },
                event,
            ) => WorktreeMergeView::committed_to(ours, commit.next(event)),
            (
                WorktreeMergeView::CommitTree { ours, .. },
                Event::Id(theirs),
            ) => WorktreeMergeView::Options { ours, theirs },
            (
                WorktreeMergeView::Options { ours, theirs },
                Event::Done,
            ) => WorktreeMergeView::HeadTree { ours, theirs },
            (
                WorktreeMergeView::HeadTree { ours, theirs },
                Event::Id(base),
            ) => WorktreeMergeView::Merge { base, ours, theirs },
            (WorktreeMergeView::Merge { .. }, Event::Done) => WorktreeMergeView::Finished,
            _ => self,
        }
    }

    open spec fn remaining(self) -> int {
        match self {
            WorktreeMergeView::Head => 6 * usize::MAX + 14,
            WorktreeMergeView::Worktree => 6 * usize::MAX + 13,
            WorktreeMergeView::Commit { commit, .. } => commit.remaining() + 4,
            WorktreeMergeView::CommitTree { .. } => 4,
            WorktreeMergeView::Options { .. } => 3,
            WorktreeMergeView::HeadTree { .. } => 2,
            WorktreeMergeView::Merge { .. } => 1,
            WorktreeMergeView::Finished => 0,
        }
    }

    proof fn law_answers_end_the_run(self, event: Event) {
        if let WorktreeMergeView::Commit { commit, .. } = self {
            commit.law_answers_end_the_run(event);
        }
    }
}

enum WorktreeMergeStage {
    Head,
    Worktree,
    Commit { ours: ObjectId, commit: WorkspaceCommit },
    CommitTree { ours: ObjectId, written: ObjectId },
    Options { ours: ObjectId, theirs: ObjectId },
    HeadTree { ours: ObjectId, theirs: ObjectId },
    Merge { base: ObjectId, ours: ObjectId, theirs: ObjectId },
    Finished,
}

/// A merge of the tree of the worktree with the tree of the workspace.
///
/// The merge asks for work through [`WorktreeMerge::action`] and goes on when
/// [`WorktreeMerge::answer`] hands it what came of it.
pub struct WorktreeMerge {
    stage: WorktreeMergeStage,
}

impl View for WorktreeMerge {
    type V = WorktreeMergeView;

    closed spec fn view(&self) -> WorktreeMergeView {
        match self.stage {
            WorktreeMergeStage::Head => WorktreeMergeView::Head,
            WorktreeMergeStage::Worktree => WorktreeMergeView::Worktree,
            WorktreeMergeStage::Commit { ours, commit } => WorktreeMergeView::Commit {
                ours,
                commit: commit@,
            },
            WorktreeMergeStage::CommitTree { ours, written } => WorktreeMergeView::CommitTree {
                ours,
                written,
            },
            WorktreeMergeStage::Options { ours, theirs } => WorktreeMergeView::Options {
                ours,
                theirs,
            },
            WorktreeMergeStage::HeadTree { ours, theirs } => WorktreeMergeView::HeadTree {
                ours,
                theirs,
            },
            WorktreeMergeStage::Merge { base, ours, theirs } => WorktreeMergeView::Merge {
                base,
                ours,
                theirs,
            },
            WorktreeMergeStage::Finished => WorktreeMergeView::Finished,
        }
    }
}

/// Begins to merge the tree of the worktree with the tree of the workspace, whichever branch
/// `HEAD` points to.
pub fn merge_worktree_with_workspace() -> (merge: WorktreeMerge)
    ensures
        merge@ == WorktreeMergeView::Head,
{
    WorktreeMerge { stage: WorktreeMergeStage::Head }
}

impl WorktreeMerge {
    #[verifier::type_invariant]
    closed spec fn inv(self) -> bool {
        self@.wf()
    }

    /// What is to be done next; `None` once the merge is made.
    pub fn action(&self) -> (action: Option<Action>)
        ensures
            action == self@.action(),
            self@.wf(),
    {
        proof {
            use_type_invariant(self);
        }
        match &self.stage {
            WorktreeMergeStage::Head => Some(Action::Head),
            WorktreeMergeStage::Worktree => Some(Action::WorktreeTree { limit: 0 }),
            WorktreeMergeStage::Commit { commit, .. } => commit.action(),
            WorktreeMergeStage::CommitTree { written, .. } => Some(
                Action::CommitTree { commit: *written },
            ),
            WorktreeMergeStage::Options { .. } => Some(Action::MergeOptionsNoRewrites),
            WorktreeMergeStage::HeadTree { .. } => Some(Action::HeadTree),
            WorktreeMergeStage::Merge { base, ours, theirs } => Some(
                Action::MergeWorktree {
                    base: *base,
                    ours: *ours,
                    theirs: *theirs,
                    fail_on: treat_as_unresolved_by_git(),
                },
            ),
            WorktreeMergeStage::Finished => None,
        }
    }

    /// The parents that the workspace commit is to have; `None` as long as they are not known,
    /// and once it is written.
    pub fn parents(&self) -> (parents: Option<&Vec<ObjectId>>)
        ensures
            match parents {
                Some(parents) => self@.parents() == Some(parents@),
                None => self@.parents() is None,
            },
    {
        match &self.stage {
            WorktreeMergeStage::Commit { commit, .. } => commit.parents(),
            _ => None,
        }
    }

    /// The message that the workspace commit is to have.
    pub fn message(&self) -> (message: &'static str)
        ensures
            message@ == "Workspace Head"@,
    {
        WORKSPACE_HEAD
    }

    /// Which conflicts of the merge are unresolved; `None` as long as there is something to be
    /// done.
    pub fn outcome(&self) -> (outcome: Option<TreatAsUnresolved>)
        ensures
            outcome == self@.outcome(),
            outcome is None <==> self@.action() is Some,
    {
        proof {
            use_type_invariant(self);
        }
        match &self.stage {
            WorktreeMergeStage::Finished => Some(treat_as_unresolved_by_git()),
            _ => None,
        }
    }

    /// Goes on with what came of the action. An event that does not answer it changes nothing.
    pub fn answer(self, event: Event) -> (after: WorktreeMerge)
        ensures
            after@ == self@.next(event),
            after@.wf(),
    {
        proof {
            use_type_invariant(&self);
            self@.law_answers_end_the_run(event);
        }
        let stage = match (self.stage, event) {
            (WorktreeMergeStage::Head, Event::Done) => WorktreeMergeStage::Worktree,
            (WorktreeMergeStage::Worktree, Event::Id(ours)) => {
                let commit = remerged_workspace_commit_v2();
                WorktreeMergeStage::Commit { ours, commit }
            },
            (WorktreeMergeStage::Commit { ours, commit }, event) => {
                let commit = commit.answer(event);
                match commit.outcome() {
                    Some(written) => WorktreeMergeStage::CommitTree { ours, written },
                    None => WorktreeMergeStage::Commit { ours, commit },
                }
            },
            (
                WorktreeMergeStage::CommitTree { ours, .. },
                Event::Id(theirs),
            ) => WorktreeMergeStage::Options { ours, theirs },
            (
                WorktreeMergeStage::Options { ours, theirs },
                Event::Done,
            ) => WorktreeMergeStage::HeadTree { ours, theirs },
            (
                WorktreeMergeStage::HeadTree { ours, theirs },
                Event::Id(base),
            ) => WorktreeMergeStage::Merge { base, ours, theirs },
            (WorktreeMergeStage::Merge { .. }, Event::Done) => WorktreeMergeStage::Finished,
            (stage, _) => stage,
        };
        WorktreeMerge { stage }
    }
}

} // verus!
