use crate::action::{Action, Run, Stack};
use crate::conflict::{ContentMerge, TreatAsUnresolved, TreeMerge};
use crate::head::{CommitView, RemergeView, WorktreeMergeView};
use crate::object_id::ObjectId;
use crate::octopus::{MergeConflict, OctopusView, OnConflict, Phase};
use crate::repository::Repository;
use vstd::prelude::*;

verus! {

/// The actions that store a stack.
pub open spec fn stores() -> spec_fn(Action) -> bool {
    |action: Action| action is StoreStack
}

/// The actions that write the workspace commit.
pub open spec fn commits() -> spec_fn(Action) -> bool {
    |action: Action| action is CommitWorkspace
}

/// The actions that merge the worktree.
pub open spec fn worktree_merges() -> spec_fn(Action) -> bool {
    |action: Action| action is MergeWorktree
}

impl Repository {
    /// The heads of the stored stacks.
    pub open spec fn stack_heads(self) -> Seq<ObjectId> {
        self.stacks@.map_values(|stack: Stack| (self.stack_head)(stack.id))
    }

    /// Whether the stored stack at `i` conflicts with those before it.
    pub open spec fn evicted(self, i: int) -> bool {
        let heads = self.stack_heads();
        self.evicts((self.real_tree)(self.octopus_base(heads)), heads, i)
    }

    /// The stored stacks, without those that conflict with others before them in the workspace.
    pub open spec fn stacks_left(self) -> Seq<Stack> {
        self.stacks@.map(
            |i: int, stack: Stack|
                Stack { in_workspace: stack.in_workspace && !self.evicted(i), ..stack },
        )
    }

    /// The tree that the stored stacks merge to.
    pub open spec fn stacks_tree(self) -> ObjectId {
        self.workspace_tree(self.stack_heads(), self.default_target, OnConflict::Evict)->Ok_0
    }

    /// The heads of those of `stacks` that are in the workspace and whose head is found.
    pub open spec fn heads_left(self, stacks: Seq<Stack>) -> Seq<ObjectId>
        decreases stacks.len(),
    {
        if stacks.len() == 0 {
            Seq::empty()
        } else {
            let before = self.heads_left(stacks.drop_last());
            let stack = stacks.last();
            match (self.stack_head_if_any)(stack.id) {
                Some(head) if stack.in_workspace => before.push(head),
                _ => before,
            }
        }
    }

    /// The parents that the workspace commit is to have.
    pub open spec fn workspace_parents(self) -> Seq<ObjectId> {
        let heads = self.heads_left(self.stacks_left());
        if heads.len() == 0 {
            seq![self.default_target]
        } else {
            heads
        }
    }

    /// Up to which stack it is settled whether it stays in the workspace.
    spec fn settled(self, phase: Phase) -> int {
        match phase {
            Phase::HeadTree { next, .. } => next as int,
            Phase::Merge { next, .. } => next as int,
            Phase::Write { next, .. } => next as int,
            Phase::Evict { next, .. } => next + 1,
            Phase::Merged { .. } => self.stacks@.len() as int,
            _ => 0,
        }
    }

    /// Whether merging the stored stacks has come to where it is with what the repository holds.
    spec fn remerge_on_track(self, remerge: RemergeView) -> bool {
        match remerge {
            RemergeView::Target => true,
            RemergeView::Stacks { target } => target == self.default_target,
            RemergeView::Heads { target, stacks, heads } => {
                &&& target == self.default_target
                &&& stacks == self.stacks@
                &&& heads == self.stack_heads().take(heads.len() as int)
            },
            RemergeView::Merge { stacks, merge } => {
                &&& merge.target == self.default_target
                &&& merge.heads == self.stack_heads()
                &&& self.on_track(merge)
                &&& self.stacks_settled(stacks, self.settled(merge.phase))
            },
            RemergeView::Finished { tree, stacks, target } => {
                &&& tree == self.stacks_tree()
                &&& stacks == self.stacks_left()
                &&& target == self.default_target
            },
        }
    }

    spec fn stacks_settled(self, stacks: Seq<Stack>, settled: int) -> bool {
        &&& stacks.len() == self.stacks@.len()
        &&& forall|i: int|
            0 <= i < stacks.len() ==> #[trigger] stacks[i] == if i < settled {
                self.stacks_left()[i]
            } else {
                self.stacks@[i]
            }
    }

    proof fn lemma_remerge_step(self, remerge: RemergeView)
        requires
            remerge.wf(),
            self.remerge_on_track(remerge),
            remerge.action() is Some,
        ensures
            self.remerge_on_track(remerge.next(self.reply(remerge))),
    {
        let heads = self.stack_heads();
        let next = remerge.next(self.reply(remerge));
        assert(self.stacks@.len() == self.stacks.len());
        match remerge {
            RemergeView::Stacks { .. } => {
                assert(heads.take(0) =~= Seq::empty());
                if self.stacks@.len() == 0 {
                    assert(heads =~= Seq::empty());
                }
            },
            RemergeView::Heads { stacks, heads: known, .. } => {
                let n = known.len() as int;
                assert(known.push(heads[n]) =~= heads.take(n + 1));
                assert(heads.take(heads.len() as int) =~= heads);
                if heads.len() > 1 {
                    assert(heads.take(1).len() == 1);
                }
            },
            RemergeView::Merge { stacks, merge } => {
                let event = self.reply(merge);
                assert(self.reply(remerge) == event);
                self.lemma_step_on_track(merge);
                self.law_evicting_does_not_fail(
                    (self.real_tree)(self.octopus_base(heads)),
                    heads,
                );
                let after = merge.next(event);
                assert(self.settled(after.phase) >= 1 ==> !self.evicted(0));
                match next {
                    RemergeView::Merge { stacks: left, .. } => {
                        assert(self.stacks_settled(left, self.settled(after.phase)));
                    },
                    RemergeView::Finished { stacks: left, .. } => {
                        assert(self.stacks_settled(left, self.stacks@.len() as int));
                        assert(left =~= self.stacks_left());
                    },
                    _ => {},
                }
            },
            _ => {},
        }
    }

    proof fn lemma_remerge_run(self, remerge: RemergeView)
        requires
            remerge.wf(),
            self.remerge_on_track(remerge),
        ensures
            self.run(remerge) == (RemergeView::Finished {
                tree: self.stacks_tree(),
                stacks: self.stacks_left(),
                target: self.default_target,
            }),
        decreases remerge.remaining(),
    {
        if remerge.action() is Some {
            let event = self.reply(remerge);
            remerge.law_answers_end_the_run(event);
            self.lemma_remerge_step(remerge);
            self.lemma_remerge_run(remerge.next(event));
        }
    }

    /// Merging the stored stacks ends with the tree that their heads merge to, and with those
    /// stacks taken out of the workspace that conflict with others before them. Everything else
    /// about the stacks stays as it is.
    pub proof fn law_remerge(self)
        ensures
            self.run(RemergeView::Target) == (RemergeView::Finished {
                tree: self.stacks_tree(),
                stacks: self.stacks_left(),
                target: self.default_target,
            }),
    {
        self.lemma_remerge_run(RemergeView::Target);
    }

    /// The first stack is never taken out of the workspace.
    pub proof fn law_first_stack_stays(self)
        requires
            self.stacks@.len() > 0,
        ensures
            self.stacks_left()[0] == self.stacks@[0],
    {
    }
}

impl Repository {
    /// The actions that store the stacks at or behind `from` that conflict with others before
    /// them.
    pub open spec fn evictions(self, from: int) -> Seq<Action>
        decreases self.stacks@.len() - from,
    {
        if from < 0 || from >= self.stacks@.len() {
            Seq::empty()
        } else if self.evicted(from) {
            seq![Action::StoreStack { stored: self.stacks_left()[from] }] + self.evictions(from + 1)
        } else {
            self.evictions(from + 1)
        }
    }

    /// The first stack that is not yet stored if it is to be.
    spec fn unstored(self, remerge: RemergeView) -> int {
        match remerge {
            RemergeView::Merge { merge, .. } => match merge.phase {
                Phase::HeadTree { next, .. } => next as int,
                Phase::Merge { next, .. } => next as int,
                Phase::Write { next, .. } => next as int,
                Phase::Evict { next, .. } => next as int,
                _ => 0,
            },
            RemergeView::Finished { .. } => self.stacks@.len() as int,
            _ => 0,
        }
    }

    proof fn lemma_remerge_stores(self, remerge: RemergeView)
        requires
            remerge.wf(),
            self.remerge_on_track(remerge),
        ensures
            self.asked(remerge, stores()) =~= self.evictions(self.unstored(remerge)),
        decreases remerge.remaining(),
    {
        if remerge.action() is Some {
            let event = self.reply(remerge);
            let next = remerge.next(event);
            remerge.law_answers_end_the_run(event);
            self.lemma_step(remerge, stores());
            self.lemma_remerge_step(remerge);
            self.lemma_remerge_stores(next);
            if let RemergeView::Merge { stacks, merge } = remerge {
                self.lemma_step_on_track(merge);
                assert(event == self.reply(merge));
                let from = self.unstored(remerge);
                assert(!self.evicted(0));
                if let Phase::Evict { next: at, .. } = merge.phase {
                    assert(self.evicted(at as int));
                    assert(stacks[at as int] == self.stacks_left()[at as int]);
                }
            }
        }
    }

    /// Merging the stored stacks stores the ones that it takes out of the workspace, in their
    /// order, and no others.
    pub proof fn law_evicted_stacks_are_stored(self)
        ensures
            self.asked(RemergeView::Target, stores()) == self.evictions(0),
    {
        self.lemma_remerge_stores(RemergeView::Target);
    }

    proof fn lemma_remerge_writes_nothing(self, remerge: RemergeView, of: spec_fn(Action) -> bool)
        requires
            remerge.wf(),
            forall|action: Action| #[trigger] of(action) ==> action is CommitWorkspace
                || action is MergeWorktree,
        ensures
            self.asked(remerge, of) =~= Seq::empty(),
        decreases remerge.remaining(),
    {
        if remerge.action() is Some {
            let event = self.reply(remerge);
            remerge.law_answers_end_the_run(event);
            self.lemma_step(remerge, of);
            self.lemma_remerge_writes_nothing(remerge.next(event), of);
            assert(!(remerge.action()->0 is CommitWorkspace) && !(
            remerge.action()->0 is MergeWorktree));
        }
    }

    proof fn lemma_commit_remerges(self, remerge: RemergeView, of: spec_fn(Action) -> bool)
        requires
            remerge.wf(),
            remerge.action() is Some,
            self.remerge_on_track(remerge),
        ensures
            ({
                let commit = CommitView::Remerge { remerge };
                let after = CommitView::remerged_to(self.run(remerge));
                &&& commit.wf()
                &&& after.wf()
                &&& self.run(commit) == self.run(after)
                &&& self.asked(commit, of) == self.asked(remerge, of) + self.asked(after, of)
            }),
        decreases remerge.remaining(),
    {
        let commit = CommitView::Remerge { remerge };
        let event = self.reply(remerge);
        let next = remerge.next(event);
        remerge.law_answers_end_the_run(event);
        self.lemma_remerge_step(remerge);
        self.lemma_step(commit, of);
        self.lemma_step(remerge, of);
        if next.action() is Some {
            self.lemma_commit_remerges(next, of);
        } else {
            assert(self.run(next) == next);
            assert(self.asked(next, of) =~= Seq::empty());
        }
        let after = CommitView::remerged_to(self.run(remerge));
        assert(self.asked(commit, of) =~= self.asked(remerge, of) + self.asked(after, of));
    }

    proof fn lemma_commit_heads(
        self,
        tree: ObjectId,
        target: ObjectId,
        stacks: Seq<Stack>,
        from: int,
        parents: Seq<ObjectId>,
    )
        requires
            0 <= from <= stacks.len() <= usize::MAX,
            parents == self.heads_left(stacks.take(from)),
        ensures
            ({
                let commit = CommitView::heads(tree, target, stacks, from, parents);
                let left = self.heads_left(stacks);
                let known = if left.len() == 0 {
                    seq![target]
                } else {
                    left
                };
                &&& commit.wf()
                &&& self.run(commit) == (CommitView::Finished {
                    commit: (self.workspace_commit)(tree, known),
                    parents: known,
                })
                &&& self.asked(commit, commits()) =~= seq![Action::CommitWorkspace { tree }]
            }),
        decreases stacks.len() - from,
    {
        let commit = CommitView::heads(tree, target, stacks, from, parents);
        if from == stacks.len() {
            assert(stacks.take(from) =~= stacks);
            self.lemma_step(commit, commits());
        } else {
            assert(stacks.take(from + 1).drop_last() =~= stacks.take(from));
            if stacks[from].in_workspace {
                self.lemma_step(commit, commits());
                let known = match (self.stack_head_if_any)(stacks[from].id) {
                    Some(head) => parents.push(head),
                    None => parents,
                };
                self.lemma_commit_heads(tree, target, stacks, from + 1, known);
            } else {
                self.lemma_commit_heads(tree, target, stacks, from + 1, parents);
            }
        }
    }

    /// Writing the workspace commit ends, and it writes one commit: with the tree that the stored
    /// stacks merge to, and with the heads of those stacks as parents that are still in the
    /// workspace then, so without those that conflict with others before them. The target is the
    /// parent if there is no other. The outcome is the commit that was written.
    pub proof fn law_workspace_commit(self)
        ensures
            self.run(CommitView::Open).outcome() == Some(
                (self.workspace_commit)(self.stacks_tree(), self.workspace_parents()),
            ),
            self.run(CommitView::Open).parents() == Some(self.workspace_parents()),
            self.run(CommitView::Open) == (CommitView::Finished {
                commit: (self.workspace_commit)(self.stacks_tree(), self.workspace_parents()),
                parents: self.workspace_parents(),
            }),
            self.asked(CommitView::Open, commits()) == seq![
                Action::CommitWorkspace { tree: self.stacks_tree() },
            ],
    {
        assert(self.stacks@.len() == self.stacks.len());
        self.law_remerge();
        self.lemma_step(CommitView::Open, commits());
        self.lemma_commit_remerges(RemergeView::Target, commits());
        self.lemma_remerge_writes_nothing(RemergeView::Target, commits());
        assert(self.stacks_left().take(0) =~= Seq::empty());
        self.lemma_commit_heads(
            self.stacks_tree(),
            self.default_target,
            self.stacks_left(),
            0,
            Seq::empty(),
        );
    }

    proof fn lemma_committing_stores_nothing(self, commit: CommitView)
        requires
            commit.wf(),
            commit is Heads || commit is Commit || commit is Finished,
        ensures
            self.asked(commit, stores()) =~= Seq::empty(),
        decreases commit.remaining(),
    {
        if commit.action() is Some {
            let event = self.reply(commit);
            commit.law_answers_end_the_run(event);
            self.lemma_step(commit, stores());
            self.lemma_committing_stores_nothing(commit.next(event));
        }
    }

    /// Writing the workspace commit stores the stacks that it takes out of the workspace, in
    /// their order, and no others.
    pub proof fn law_commit_stores_evicted_stacks(self)
        ensures
            self.asked(CommitView::Open, stores()) == self.evictions(0),
    {
        self.law_remerge();
        self.law_evicted_stacks_are_stored();
        self.lemma_step(CommitView::Open, stores());
        self.lemma_commit_remerges(RemergeView::Target, stores());
        let after = CommitView::remerged_to(self.run(RemergeView::Target));
        self.lemma_committing_stores_nothing(after);
        assert(self.asked(CommitView::Open, stores()) =~= self.evictions(0));
    }

    proof fn lemma_heads_left_are_kept(self, k: int)
        requires
            0 <= k <= self.stacks@.len(),
            forall|i: int| 0 <= i < self.stacks@.len() ==> (#[trigger] self.stacks@[i]).in_workspace,
            forall|i: int|
                0 <= i < self.stacks@.len() ==> (self.stack_head_if_any)(
                    (#[trigger] self.stacks@[i]).id,
                ) == Some((self.stack_head)(self.stacks@[i].id)),
        ensures
            self.heads_left(self.stacks_left().take(k)) == self.kept(
                (self.real_tree)(self.octopus_base(self.stack_heads())),
                self.stack_heads().take(k),
            ),
        decreases k,
    {
        let base_tree = (self.real_tree)(self.octopus_base(self.stack_heads()));
        let heads = self.stack_heads().take(k);
        let stacks = self.stacks_left().take(k);
        if k > 0 {
            self.lemma_heads_left_are_kept(k - 1);
            assert(heads.drop_last() =~= self.stack_heads().take(k - 1));
            assert(stacks.drop_last() =~= self.stacks_left().take(k - 1));
            assert(heads.take(k - 1) =~= self.stack_heads().take(k - 1));
            assert(self.evicts(base_tree, heads, k - 1) == self.evicted(k - 1));
            assert(self.stacks@[k - 1].in_workspace);
        }
    }

    /// The tree of the workspace commit is what the trees of its parents merge to, without
    /// conflict and against one base: that of all stored stacks. So nothing of a stack that was
    /// taken out of the workspace is in it, and everything that is in it comes from a parent.
    pub proof fn law_workspace_tree_merges_its_parents(self)
        requires
            self.stacks@.len() > 0,
            forall|i: int| 0 <= i < self.stacks@.len() ==> (#[trigger] self.stacks@[i]).in_workspace,
            forall|i: int|
                0 <= i < self.stacks@.len() ==> (self.stack_head_if_any)(
                    (#[trigger] self.stacks@[i]).id,
                ) == Some((self.stack_head)(self.stacks@[i].id)),
        ensures
            self.merged(
                (self.real_tree)(self.octopus_base(self.stack_heads())),
                self.workspace_parents(),
                OnConflict::Fail,
            ) == Ok::<ObjectId, MergeConflict>(self.stacks_tree()),
    {
        let heads = self.stack_heads();
        let base_tree = (self.real_tree)(self.octopus_base(heads));
        let n = self.stacks@.len() as int;
        self.lemma_heads_left_are_kept(n);
        assert(heads.take(n) =~= heads);
        assert(self.stacks_left().take(n) =~= self.stacks_left());
        self.law_evicted_heads_leave_no_trace(base_tree, heads);
        self.law_evicting_does_not_fail(base_tree, heads);
    }

    proof fn lemma_worktree_commits(self, ours: ObjectId, commit: CommitView, of: spec_fn(Action) -> bool)
        requires
            commit.wf(),
            commit.action() is Some,
        ensures
            ({
                let merge = WorktreeMergeView::Commit { ours, commit };
                let after = WorktreeMergeView::committed_to(ours, self.run(commit));
                &&& after.wf()
                &&& self.run(merge) == self.run(after)
                &&& self.asked(merge, of) == self.asked(commit, of)
                    + self.asked(after, of)
            }),
        decreases commit.remaining(),
    {
        let merge = WorktreeMergeView::Commit { ours, commit };
        let event = self.reply(commit);
        let next = commit.next(event);
        commit.law_answers_end_the_run(event);
        self.lemma_step(merge, of);
        self.lemma_step(commit, of);
        if next.action() is Some {
            self.lemma_worktree_commits(ours, next, of);
        } else {
            assert(self.run(next) == next);
            assert(self.asked(next, of) =~= Seq::empty());
        }
        let after = WorktreeMergeView::committed_to(ours, self.run(commit));
        assert(self.asked(merge, of) =~= self.asked(commit, of)
            + self.asked(after, of));
    }

    proof fn lemma_commit_merges_no_worktree(self, commit: CommitView)
        requires
            commit.wf(),
        ensures
            self.asked(commit, worktree_merges()) =~= Seq::empty(),
        decreases commit.remaining(),
    {
        if commit.action() is Some {
            let event = self.reply(commit);
            commit.law_answers_end_the_run(event);
            self.lemma_step(commit, worktree_merges());
            self.lemma_commit_merges_no_worktree(commit.next(event));
            assert(!(commit.action()->0 is MergeWorktree));
        }
    }

    /// Merging the worktree with the workspace ends, and it makes one merge: of the tree of the
    /// worktree, as ours, with the tree of the workspace commit, as theirs, against the tree that
    /// `HEAD` points to, stopping where Git would leave a conflict unresolved.
    pub proof fn law_worktree_merge(self)
        ensures
            self.run(WorktreeMergeView::Head) == WorktreeMergeView::Finished,
            self.run(WorktreeMergeView::Head).outcome() == Some(
                TreatAsUnresolved {
                    content_merge: ContentMerge::Markers,
                    tree_merge: TreeMerge::EvasiveRenames,
                },
            ),
            self.asked(WorktreeMergeView::Head, worktree_merges()) == seq![
                Action::MergeWorktree {
                    base: self.head_tree,
                    ours: self.worktree_tree,
                    theirs: (self.commit_tree)((self.workspace_commit)(self.stacks_tree(), self.workspace_parents())),
                    fail_on: TreatAsUnresolved::by_git(),
                },
            ],
    {
        let of = worktree_merges();
        let ours = self.worktree_tree;
        let written = (self.workspace_commit)(self.stacks_tree(), self.workspace_parents());
        let theirs = (self.commit_tree)(written);
        let base = self.head_tree;
        self.law_workspace_commit();
        self.lemma_step(WorktreeMergeView::Head, of);
        self.lemma_step(WorktreeMergeView::Worktree, of);
        self.lemma_worktree_commits(ours, CommitView::Open, of);
        self.lemma_commit_merges_no_worktree(CommitView::Open);
        self.lemma_step(WorktreeMergeView::CommitTree { ours, written }, of);
        self.lemma_step(WorktreeMergeView::Options { ours, theirs }, of);
        self.lemma_step(WorktreeMergeView::HeadTree { ours, theirs }, of);
        self.lemma_step(WorktreeMergeView::Merge { base, ours, theirs }, of);
        assert(self.asked(WorktreeMergeView::Finished, of) =~= Seq::empty());
        assert(self.asked(WorktreeMergeView::Head, of) =~= seq![
            Action::MergeWorktree { base, ours, theirs, fail_on: TreatAsUnresolved::by_git() },
        ]);
    }

    /// Merging the worktree with the workspace stores the stacks that it takes out of the
    /// workspace, in their order, and no others.
    pub proof fn law_worktree_merge_stores_evicted_stacks(self)
        ensures
            self.asked(WorktreeMergeView::Head, stores()) == self.evictions(0),
    {
        let of = stores();
        let ours = self.worktree_tree;
        let written = (self.workspace_commit)(self.stacks_tree(), self.workspace_parents());
        let theirs = (self.commit_tree)(written);
        let base = self.head_tree;
        self.law_workspace_commit();
        self.law_commit_stores_evicted_stacks();
        self.lemma_step(WorktreeMergeView::Head, of);
        self.lemma_step(WorktreeMergeView::Worktree, of);
        self.lemma_worktree_commits(ours, CommitView::Open, of);
        self.lemma_step(WorktreeMergeView::CommitTree { ours, written }, of);
        self.lemma_step(WorktreeMergeView::Options { ours, theirs }, of);
        self.lemma_step(WorktreeMergeView::HeadTree { ours, theirs }, of);
        self.lemma_step(WorktreeMergeView::Merge { base, ours, theirs }, of);
        assert(self.asked(WorktreeMergeView::Finished, of) =~= Seq::empty());
        assert(self.asked(WorktreeMergeView::Head, of) =~= self.evictions(0));
    }

    /// The lookups of the heads of the stored stacks, from the stack at `from` on.
    pub open spec fn heads_trace(self, from: int) -> Seq<Action> {
        self.stacks@.skip(from).map_values(|stack: Stack| Action::StackHead { stack: stack.id })
    }

    /// What dealing with the eviction of a head is for the stored stacks: the stack is stored as
    /// one that is not in the workspace.
    pub open spec fn storing(self) -> spec_fn(Action) -> Action {
        |action: Action|
            match action {
                Action::Evict { head } => Action::StoreStack {
                    stored: Stack { id: self.stacks@[head as int].id, in_workspace: false },
                },
                _ => action,
            }
    }

    /// All that merging the stored stacks takes: the target, the stacks, the head of each, and
    /// what merging the heads takes, with each stack whose head is evicted stored.
    pub open spec fn remerge_trace(self) -> Seq<Action> {
        seq![Action::DefaultTarget, Action::ListStacks] + self.heads_trace(0)
            + self.octopus_trace(
            self.stack_heads(),
            self.default_target,
            OnConflict::Evict,
        ).map_values(self.storing())
    }

    /// What merging the stored stacks has still to ask for.
    spec fn remerge_left(self, remerge: RemergeView) -> Seq<Action> {
        let merge = self.octopus_trace(
            self.stack_heads(),
            self.default_target,
            OnConflict::Evict,
        ).map_values(self.storing());
        match remerge {
            RemergeView::Target => seq![Action::DefaultTarget, Action::ListStacks]
                + self.heads_trace(0) + merge,
            RemergeView::Stacks { .. } => seq![Action::ListStacks] + self.heads_trace(0) + merge,
            RemergeView::Heads { heads, .. } => self.heads_trace(heads.len() as int) + merge,
            RemergeView::Merge { merge, .. } => self.asked(
                merge,
                crate::traces::everything(),
            ).map_values(self.storing()),
            RemergeView::Finished { .. } => Seq::empty(),
        }
    }

    proof fn lemma_remerge_trace(self, remerge: RemergeView)
        requires
            remerge.wf(),
            self.remerge_on_track(remerge),
        ensures
            self.asked(remerge, crate::traces::everything()) =~= self.remerge_left(remerge),
        decreases remerge.remaining(),
    {
        let all = crate::traces::everything();
        if remerge.action() is Some {
            let event = self.reply(remerge);
            let next = remerge.next(event);
            assert(self.stacks@.len() == self.stacks.len());
            remerge.law_answers_end_the_run(event);
            self.lemma_step(remerge, all);
            self.lemma_remerge_step(remerge);
            self.lemma_remerge_trace(next);
            self.law_octopus_trace(self.stack_heads(), self.default_target, OnConflict::Evict);
            match remerge {
                RemergeView::Stacks { .. } => {
                    if self.stacks@.len() == 0 {
                        assert(self.heads_trace(0) =~= Seq::empty());
                        assert(self.stack_heads() =~= Seq::empty());
                    }
                },
                RemergeView::Heads { heads, .. } => {
                    let n = heads.len() as int;
                    let all_heads = self.stack_heads();
                    assert(self.heads_trace(n) =~= seq![remerge.action()->0] + self.heads_trace(
                        n + 1,
                    ));
                    assert(heads.push(all_heads[n]) =~= all_heads.take(n + 1));
                    if n + 1 == self.stacks@.len() {
                        assert(self.heads_trace(n + 1) =~= Seq::empty());
                        assert(all_heads.take(n + 1) =~= all_heads);
                    }
                },
                RemergeView::Merge { stacks, merge } => {
                    assert(event == self.reply(merge));
                    self.lemma_step_on_track(merge);
                    self.lemma_step(merge, all);
                    merge.law_answers_end_the_run(event);
                    let after = merge.next(event);
                    assert((self.storing())(merge.action()->0) == remerge.action()->0);
                    assert(self.asked(merge, all) =~= seq![merge.action()->0] + self.asked(
                        after,
                        all,
                    ));
                    if next is Finished {
                        assert(self.asked(after, all) =~= Seq::empty());
                    }
                },
                _ => {},
            }
        }
    }

    /// Merging the stored stacks asks for the default target, for the stacks, for the head of
    /// each, and for what merging the heads asks for, except that a stack whose head is evicted
    /// is stored as one that is not in the workspace. It asks for nothing else, and for all of it
    /// in this order.
    pub proof fn law_remerge_trace(self)
        ensures
            self.asked(RemergeView::Target, crate::traces::everything()) == self.remerge_trace(),
    {
        self.lemma_remerge_trace(RemergeView::Target);
    }

    /// All that writing the workspace commit takes: the repository, the merge of the stored
    /// stacks, the head of each stack that is still in the workspace, and the commit.
    pub open spec fn commit_trace(self) -> Seq<Action> {
        seq![Action::OpenForMerging] + self.remerge_trace() + parents_trace(self.stacks_left(), 0)
            + seq![Action::CommitWorkspace { tree: self.stacks_tree() }]
    }

    proof fn lemma_parents_trace(
        self,
        tree: ObjectId,
        target: ObjectId,
        stacks: Seq<Stack>,
        from: int,
        parents: Seq<ObjectId>,
    )
        requires
            0 <= from <= stacks.len() <= usize::MAX,
        ensures
            ({
                let commit = CommitView::heads(tree, target, stacks, from, parents);
                &&& commit.wf()
                &&& self.asked(commit, crate::traces::everything()) =~= parents_trace(stacks, from)
                    + seq![Action::CommitWorkspace { tree }]
            }),
        decreases stacks.len() - from,
    {
        let all = crate::traces::everything();
        let commit = CommitView::heads(tree, target, stacks, from, parents);
        if from == stacks.len() {
            self.lemma_step(commit, all);
        } else if stacks[from].in_workspace {
            self.lemma_step(commit, all);
            let known = match (self.stack_head_if_any)(stacks[from].id) {
                Some(head) => parents.push(head),
                None => parents,
            };
            self.lemma_parents_trace(tree, target, stacks, from + 1, known);
        } else {
            self.lemma_parents_trace(tree, target, stacks, from + 1, parents);
        }
    }

    /// Writing the workspace commit asks for the repository, for what merging the stored stacks
    /// asks for, for the head of each stack that is in the workspace then, and for the commit. It
    /// asks for nothing else, and for all of it in this order.
    pub proof fn law_workspace_commit_trace(self)
        ensures
            self.asked(CommitView::Open, crate::traces::everything()) == self.commit_trace(),
    {
        let all = crate::traces::everything();
        assert(self.stacks@.len() == self.stacks.len());
        self.law_remerge();
        self.law_remerge_trace();
        self.lemma_step(CommitView::Open, all);
        self.lemma_commit_remerges(RemergeView::Target, all);
        self.lemma_parents_trace(
            self.stacks_tree(),
            self.default_target,
            self.stacks_left(),
            0,
            Seq::empty(),
        );
        assert(self.asked(CommitView::Open, all) =~= self.commit_trace());
    }

    /// Merging the worktree with the workspace asks for where `HEAD` points to, for the tree of
    /// the worktree, with zero as the limit for untracked files, for what writing the workspace
    /// commit asks for, for the tree of that commit, for the options for merges that do not track
    /// renames, for the tree that `HEAD` points to, and for the merge. It asks for nothing else,
    /// and for all of it in this order.
    pub proof fn law_worktree_merge_trace(self)
        ensures
            self.asked(WorktreeMergeView::Head, crate::traces::everything()) == seq![
                Action::Head,
                Action::WorktreeTree { limit: 0 },
            ] + self.commit_trace() + seq![
                Action::CommitTree {
                    commit: (self.workspace_commit)(self.stacks_tree(), self.workspace_parents()),
                },
                Action::MergeOptionsNoRewrites,
                Action::HeadTree,
                Action::MergeWorktree {
                    base: self.head_tree,
                    ours: self.worktree_tree,
                    theirs: (self.commit_tree)(
                        (self.workspace_commit)(self.stacks_tree(), self.workspace_parents()),
                    ),
                    fail_on: TreatAsUnresolved {
                        content_merge: ContentMerge::Markers,
                        tree_merge: TreeMerge::EvasiveRenames,
                    },
                },
            ],
    {
        let of = crate::traces::everything();
        let ours = self.worktree_tree;
        let written = (self.workspace_commit)(self.stacks_tree(), self.workspace_parents());
        let theirs = (self.commit_tree)(written);
        let base = self.head_tree;
        let fail_on = TreatAsUnresolved {
            content_merge: ContentMerge::Markers,
            tree_merge: TreeMerge::EvasiveRenames,
        };
        let last = seq![
            Action::CommitTree { commit: written },
            Action::MergeOptionsNoRewrites,
            Action::HeadTree,
            Action::MergeWorktree { base, ours, theirs, fail_on },
        ];
        self.law_workspace_commit();
        self.law_workspace_commit_trace();
        self.lemma_step(WorktreeMergeView::Head, of);
        self.lemma_step(WorktreeMergeView::Worktree, of);
        self.lemma_worktree_commits(ours, CommitView::Open, of);
        self.lemma_step(WorktreeMergeView::CommitTree { ours, written }, of);
        self.lemma_step(WorktreeMergeView::Options { ours, theirs }, of);
        self.lemma_step(WorktreeMergeView::HeadTree { ours, theirs }, of);
        self.lemma_step(WorktreeMergeView::Merge { base, ours, theirs }, of);
        assert(self.asked(WorktreeMergeView::CommitTree { ours, written }, of) =~= last);
        assert(self.asked(WorktreeMergeView::Head, of) =~= seq![
            Action::Head,
            Action::WorktreeTree { limit: 0 },
        ] + self.commit_trace() + last);
    }
}

/// The lookups of the heads of those of `stacks` at `from` and behind that are in the workspace.
pub open spec fn parents_trace(stacks: Seq<Stack>, from: int) -> Seq<Action>
    decreases stacks.len() - from,
{
    if from >= stacks.len() {
        Seq::empty()
    } else if stacks[from].in_workspace {
        seq![Action::StackHeadIfAny { stack: stacks[from].id }] + parents_trace(stacks, from + 1)
    } else {
        parents_trace(stacks, from + 1)
    }
}

/// The parents of the workspace commit are known when it is to be written, and not before.
pub proof fn law_parents_are_known_for_the_commit(commit: CommitView)
    requires
        commit.wf(),
    ensures
        commit.parents() is Some <==> commit.action() is None
            || commit.action()->0 is CommitWorkspace,
        commit.parents() matches Some(parents) ==> parents.len() > 0,
{
}

/// The same holds where the commit is written on the way to merging the worktree with it, except
/// that the parents are not known any more once it is.
pub proof fn law_parents_are_known_on_the_way(merge: WorktreeMergeView)
    requires
        merge.wf(),
    ensures
        merge.parents() is Some <==> merge.action() is Some
            && merge.action()->0 is CommitWorkspace,
{
    if let WorktreeMergeView::Commit { commit, .. } = merge {
        law_parents_are_known_for_the_commit(commit);
    }
}

} // verus!
