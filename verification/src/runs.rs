use crate::action::{Action, Event, Run};
use crate::branch_trees::{ConflictCheck, SnapshotView, Stage, UpdateView, WorkspaceView};
use crate::object_id::ObjectId;
use crate::octopus::{MergeConflict, OctopusView, OnConflict, Phase};
use crate::repository::{IndexMerge, Repository};
use vstd::prelude::*;

verus! {

impl Repository {
    /// Whether an octopus merge on this repository has come to the phase it is in with what the
    /// repository holds.
    pub open spec fn on_track(self, merge: OctopusView) -> bool {
        let heads = merge.heads;
        let base_tree = (self.real_tree)(self.octopus_base(heads));
        let merged_up_to = |next: usize, tree: ObjectId|
            self.merged(base_tree, heads.take(next as int), merge.on_conflict)
                == Ok::<ObjectId, MergeConflict>(tree);
        let ending = self.workspace_tree(heads, merge.target, merge.on_conflict);
        match merge.phase {
            Phase::Base { base, next } => base == self.octopus_base(heads.take(next as int)),
            Phase::BaseTree { base } => base == self.octopus_base(heads),
            Phase::Options { found } => found is Some ==> found == Some(base_tree),
            Phase::FirstTree { base_tree: base } => base == base_tree,
            Phase::HeadTree { base_tree: base, merged, next } => {
                &&& base == base_tree
                &&& merged_up_to(next, merged)
            },
            Phase::Merge { base_tree: base, merged, theirs, next } => {
                &&& base == base_tree
                &&& merged_up_to(next, merged)
                &&& theirs == (self.real_tree)(heads[next as int])
            },
            Phase::Write { base_tree: base, merged, theirs, next } => {
                &&& base == base_tree
                &&& merged_up_to(next, merged)
                &&& theirs == (self.real_tree)(heads[next as int])
                &&& (self.merge)(base, merged, theirs) is Some
            },
            Phase::Evict { base_tree: base, merged, next } => {
                &&& base == base_tree
                &&& merged_up_to(next, merged)
                &&& (self.merge)(base, merged, (self.real_tree)(heads[next as int])) is None
            },
            Phase::TargetTree => true,
            Phase::Merged { tree } => ending == Ok::<ObjectId, MergeConflict>(tree),
            Phase::Conflict { head } => ending == Err::<ObjectId, MergeConflict>(
                MergeConflict { head },
            ),
        }
    }

    /// A conflict among the first heads is the conflict among all of them.
    proof fn lemma_conflict_stays(
        self,
        base_tree: ObjectId,
        heads: Seq<ObjectId>,
        on_conflict: OnConflict,
        k: int,
    )
        requires
            1 <= k <= heads.len(),
            self.merged(base_tree, heads.take(k), on_conflict) is Err,
        ensures
            self.merged(base_tree, heads, on_conflict) == self.merged(
                base_tree,
                heads.take(k),
                on_conflict,
            ),
        decreases heads.len(),
    {
        if k == heads.len() {
            assert(heads.take(k) =~= heads);
        } else {
            assert(heads.drop_last().take(k) =~= heads.take(k));
            self.lemma_conflict_stays(base_tree, heads.drop_last(), on_conflict, k);
        }
    }

    /// Whatever a merge that is on track asks for, what the repository answers keeps it there.
    pub proof fn lemma_step_on_track(self, merge: OctopusView)
        requires
            merge.wf(),
            self.on_track(merge),
            merge.action() is Some,
        ensures
            merge.next(self.reply(merge)).wf(),
            self.on_track(merge.next(self.reply(merge))),
    {
        let heads = merge.heads;
        let base_tree = (self.real_tree)(self.octopus_base(heads));
        assert(heads.take(heads.len() as int) =~= heads);
        match merge.phase {
            Phase::Base { base, next } => {
                assert(heads.take(next + 1).drop_last() =~= heads.take(next as int));
            },
            Phase::FirstTree { .. } => {
                assert(heads.take(1).len() == 1);
            },
            Phase::Merge { next, .. } => {
                assert(heads.take(next + 1).drop_last() =~= heads.take(next as int));
                if merge.next(self.reply(merge)).phase is Conflict {
                    self.lemma_conflict_stays(base_tree, heads, merge.on_conflict, next + 1);
                }
            },
            Phase::Write { next, .. } => {
                assert(heads.take(next + 1).drop_last() =~= heads.take(next as int));
            },
            Phase::Evict { next, .. } => {
                assert(heads.take(next + 1).drop_last() =~= heads.take(next as int));
            },
            _ => {},
        }
    }

    proof fn lemma_run_on_track(self, merge: OctopusView)
        requires
            merge.wf(),
            self.on_track(merge),
        ensures
            self.run(merge).outcome() == Some(
                self.workspace_tree(merge.heads, merge.target, merge.on_conflict),
            ),
        decreases merge.remaining(),
    {
        if merge.action() is Some {
            self.lemma_step_on_track(merge);
            self.lemma_run_on_track(merge.next(self.reply(merge)));
        }
    }

    /// An octopus merge ends, and it ends with the heads merged one after the other against one
    /// base, the tree of the merge base of them all; without heads, with the tree of the target.
    pub proof fn law_octopus_merges_heads(
        self,
        heads: Seq<ObjectId>,
        target: ObjectId,
        on_conflict: OnConflict,
    )
        requires
            heads.len() <= usize::MAX,
        ensures
            self.run(OctopusView::start(heads, target, on_conflict)).outcome() == Some(
                self.workspace_tree(heads, target, on_conflict),
            ),
    {
        let start = OctopusView::start(heads, target, on_conflict);
        if heads.len() > 1 {
            assert(heads.take(1).len() == 1);
        }
        self.lemma_run_on_track(start);
    }
}

/// The actions that merge into an index, write one, or change the worktree.
pub open spec fn index_work() -> spec_fn(Action) -> bool {
    |action: Action|
        action is MergeIndex || action is WriteIndex || action is CheckoutIndex
            || action is SafeCheckout
}

/// The actions that change the worktree.
pub open spec fn checkouts() -> spec_fn(Action) -> bool {
    |action: Action| action is CheckoutIndex || action is SafeCheckout
}

impl Repository {
    /// A run asks for its first action and then for those of the run that is left.
    pub proof fn lemma_step<R: Run>(self, run: R, of: spec_fn(Action) -> bool)
        requires
            run.wf(),
            run.action() is Some,
        ensures
            ({
                let next = run.next(self.reply(run));
                &&& next.wf()
                &&& self.run(run) == self.run(next)
                &&& self.asked(run, of) == if of(run.action()->0) {
                    seq![run.action()->0] + self.asked(next, of)
                } else {
                    self.asked(next, of)
                }
            }),
    {
        run.law_answers_end_the_run(self.reply(run));
    }

    /// The tree of a workspace whose heads must not conflict.
    pub open spec fn tree_of(self, workspace: WorkspaceView) -> Result<ObjectId, MergeConflict> {
        self.workspace_tree(workspace.heads, workspace.target, OnConflict::Fail)
    }

    /// What applying the changes between `old_tree` and `tree` on top of `new_tree` gives, with
    /// the contents of `tree` favored.
    pub open spec fn moved(
        self,
        tree: ObjectId,
        old_tree: ObjectId,
        new_tree: ObjectId,
    ) -> IndexMerge {
        (self.merge_index)(old_tree, tree, new_tree, true)
    }

    /// How an update of the uncommitted changes is to end, and what it is to check out, with
    /// `worktree` the tree with the uncommitted changes if they are to be moved.
    pub open spec fn updated(
        self,
        old: WorkspaceView,
        new: WorkspaceView,
        worktree: Option<ObjectId>,
        always_checkout: bool,
    ) -> (Result<(), MergeConflict>, Seq<Action>) {
        match (self.tree_of(old), self.tree_of(new)) {
            (Err(conflict), _) => (Err(conflict), Seq::empty()),
            (_, Err(conflict)) => (Err(conflict), Seq::empty()),
            (Ok(old_tree), Ok(new_tree)) => (
                Ok(()),
                match worktree {
                    None => seq![Action::SafeCheckout { from: old_tree, to: new_tree }],
                    Some(tree) => {
                        let moved = self.moved(tree, old_tree, new_tree);
                        if moved.conflicts || always_checkout || moved.tree != tree {
                            seq![
                                Action::CheckoutIndex {
                                    force: true,
                                    remove_untracked: true,
                                    conflict_style_diff3: true,
                                },
                            ]
                        } else {
                            Seq::empty()
                        }
                    },
                },
            ),
        }
    }

    /// The state in which an update goes on once the merge of the old workspace has ended as
    /// `ended`.
    spec fn after_old(self, update: UpdateView, ended: OctopusView) -> UpdateView {
        match (ended.outcome(), update.stage) {
            (Some(Ok(old_tree)), Stage::MergeOld { worktree }) => UpdateView {
                merge: OctopusView::start(update.new.heads, update.new.target, OnConflict::Fail),
                stage: Stage::MergeNew { worktree, old_tree },
                ..update
            },
            (Some(Err(conflict)), _) => UpdateView {
                merge: ended,
                stage: Stage::Conflict { conflict },
                ..update
            },
            _ => update,
        }
    }

    /// The state in which an update goes on once the merge of the new workspace has ended as
    /// `ended`.
    spec fn after_new(self, update: UpdateView, ended: OctopusView) -> UpdateView {
        match (ended.outcome(), update.stage) {
            (Some(Ok(new_tree)), Stage::MergeNew { worktree, old_tree }) => UpdateView {
                merge: ended,
                stage: match worktree {
                    Some(tree) => Stage::MoveTree { tree, old_tree, new_tree },
                    None => Stage::SafeCheckout { old_tree, new_tree },
                },
                ..update
            },
            (Some(Err(conflict)), _) => UpdateView {
                merge: ended,
                stage: Stage::Conflict { conflict },
                ..update
            },
            _ => update,
        }
    }

    proof fn lemma_update_merges(self, update: UpdateView, of: spec_fn(Action) -> bool)
        requires
            update.wf(),
            update.stage is MergeOld || update.stage is MergeNew,
        ensures
            ({
                let ended = self.run(update.merge);
                let after = if update.stage is MergeOld {
                    self.after_old(update, ended)
                } else {
                    self.after_new(update, ended)
                };
                &&& self.run(update) == self.run(after)
                &&& self.asked(update, of) == self.asked(update.merge, of) + self.asked(after, of)
                &&& after.wf()
            }),
        decreases update.merge.remaining(),
    {
        let event = self.reply(update.merge);
        update.merge.law_answers_end_the_run(event);
        self.lemma_step(update, of);
        self.lemma_step(update.merge, of);
        let merge = update.merge.next(event);
        let ended = self.run(update.merge);
        let after = if update.stage is MergeOld {
            self.after_old(update, ended)
        } else {
            self.after_new(update, ended)
        };
        let asked_first = if of(update.action()->0) {
            seq![update.action()->0]
        } else {
            Seq::empty()
        };
        assert(self.asked(update.merge, of) =~= asked_first + self.asked(merge, of));
        assert(self.asked(update, of) =~= asked_first + self.asked(update.next(event), of));
        if merge.action() is Some {
            assert(update.next(event) == (UpdateView { merge, ..update }));
            self.lemma_update_merges(update.next(event), of);
            self.lemma_ended(merge);
        } else {
            assert(self.run(merge) == merge);
            assert(self.asked(merge, of) =~= Seq::empty());
        }
        assert(self.asked(update, of) =~= self.asked(update.merge, of) + self.asked(after, of));
    }

    proof fn lemma_ended(self, merge: OctopusView)
        requires
            merge.wf(),
        ensures
            self.run(merge).outcome() is Some,
        decreases merge.remaining(),
    {
        if merge.action() is Some {
            merge.law_answers_end_the_run(self.reply(merge));
            self.lemma_ended(merge.next(self.reply(merge)));
        }
    }

    proof fn lemma_octopus_leaves_indices_alone(self, merge: OctopusView, of: spec_fn(Action) -> bool)
        requires
            merge.wf(),
            forall|action: Action| #[trigger] of(action) ==> index_work()(action),
        ensures
            self.asked(merge, of) =~= Seq::empty(),
        decreases merge.remaining(),
    {
        if merge.action() is Some {
            let event = self.reply(merge);
            merge.law_answers_end_the_run(event);
            self.lemma_step(merge, of);
            self.lemma_octopus_leaves_indices_alone(merge.next(event), of);
            assert(!index_work()(merge.action()->0));
        }
    }

    proof fn lemma_updated(self, old: WorkspaceView, update: UpdateView, worktree: Option<ObjectId>)
        requires
            update.wf(),
            update.stage == (Stage::MergeOld { worktree }),
            old.heads.len() <= usize::MAX,
            update.merge == OctopusView::start(old.heads, old.target, OnConflict::Fail),
        ensures
            ({
                let (outcome, expected) = self.updated(
                    old,
                    update.new,
                    worktree,
                    update.always_checkout,
                );
                &&& self.run(update).outcome() == Some(outcome)
                &&& self.asked(update, checkouts()) =~= expected
            }),
    {
        self.law_octopus_merges_heads(old.heads, old.target, OnConflict::Fail);
        self.law_octopus_merges_heads(update.new.heads, update.new.target, OnConflict::Fail);
        assert forall|action: Action| #[trigger] checkouts()(action) implies index_work()(
            action,
        ) by {}
        self.lemma_update_merges(update, checkouts());
        self.lemma_octopus_leaves_indices_alone(update.merge, checkouts());
        let merging = self.after_old(update, self.run(update.merge));
        if merging.stage is MergeNew {
            self.lemma_update_merges(merging, checkouts());
            self.lemma_octopus_leaves_indices_alone(merging.merge, checkouts());
            let moving = self.after_new(merging, self.run(merging.merge));
            if moving.action() is Some {
                self.lemma_moved(moving);
            }
        }
    }

    proof fn lemma_moved(self, update: UpdateView)
        requires
            update.wf(),
            update.stage is MoveTree || update.stage is SafeCheckout,
        ensures
            self.run(update).outcome() == Some(Ok::<(), MergeConflict>(())),
            update.stage matches Stage::SafeCheckout { old_tree, new_tree } ==> self.asked(
                update,
                checkouts(),
            ) =~= seq![Action::SafeCheckout { from: old_tree, to: new_tree }],
            update.stage matches Stage::MoveTree { tree, old_tree, new_tree } ==> {
                let moved = self.moved(tree, old_tree, new_tree);
                self.asked(update, checkouts()) =~= if moved.conflicts || update.always_checkout
                    || moved.tree != tree {
                    seq![
                        Action::CheckoutIndex {
                            force: true,
                            remove_untracked: true,
                            conflict_style_diff3: true,
                        },
                    ]
                } else {
                    Seq::empty()
                }
            },
    {
        self.lemma_step(update, checkouts());
        let second = update.next(self.reply(update));
        if second.action() is Some {
            self.lemma_step(second, checkouts());
            let third = second.next(self.reply(second));
            if third.action() is Some {
                self.lemma_step(third, checkouts());
            }
        }
    }

    /// An update of the uncommitted changes ends, and it ends in a conflict if one of the
    /// workspaces does not merge, without having checked out anything. Otherwise, changes that
    /// are left in place see one safe checkout from the old workspace tree to the new one, and
    /// changes that are moved see one checkout of what moving them gives, unless that has no
    /// conflicts, is what the worktree holds already, and no checkout is asked for.
    pub proof fn law_update_with_tree(
        self,
        old: WorkspaceView,
        new: WorkspaceView,
        worktree: Option<ObjectId>,
        always_checkout: bool,
    )
        requires
            old.heads.len() <= usize::MAX,
            new.heads.len() <= usize::MAX,
        ensures
            ({
                let update = UpdateView::start(
                    old,
                    new,
                    always_checkout,
                    Stage::OpenForMerging { worktree },
                );
                let (outcome, expected) = self.updated(old, new, worktree, always_checkout);
                &&& self.run(update).outcome() == Some(outcome)
                &&& self.asked(update, checkouts()) == expected
            }),
    {
        let update = UpdateView::start(
            old,
            new,
            always_checkout,
            Stage::OpenForMerging { worktree },
        );
        let merging = UpdateView { stage: Stage::MergeOld { worktree }, ..update };
        self.lemma_updated(old, merging, worktree);
        self.lemma_step(update, checkouts());
        if worktree is Some {
            self.lemma_step(update.next(Event::Done), checkouts());
        }
    }

    /// An update that is not handed a tree leaves the uncommitted changes in place with `cv3`, and
    /// moves what the worktree holds without it.
    pub proof fn law_update(self, old: WorkspaceView, new: WorkspaceView, cv3: bool)
        requires
            old.heads.len() <= usize::MAX,
            new.heads.len() <= usize::MAX,
        ensures
            ({
                let update = UpdateView::start(old, new, false, Stage::Open { cv3 });
                let worktree = if cv3 {
                    None
                } else {
                    Some(self.worktree_tree)
                };
                let (outcome, expected) = self.updated(old, new, worktree, false);
                &&& self.run(update).outcome() == Some(outcome)
                &&& self.asked(update, checkouts()) == expected
            }),
    {
        let update = UpdateView::start(old, new, false, Stage::Open { cv3 });
        let worktree = if cv3 {
            None
        } else {
            Some(self.worktree_tree)
        };
        self.law_update_with_tree(old, new, worktree, false);
        self.lemma_step(update, checkouts());
        if !cv3 {
            self.lemma_step(update.next(Event::Done), checkouts());
        }
    }

    /// What is done with an index once both workspaces are merged, and what is checked out: without
    /// a tree to be moved, a safe checkout from the old workspace tree to the new one. With one,
    /// a merge of that tree, on top of the new workspace tree, with the old one as the ancestor;
    /// and then, unless a checkout follows anyway, the tree of what was merged; and then, unless
    /// that is the tree that was there, a checkout of what was merged.
    pub open spec fn index_trace(
        self,
        old_tree: ObjectId,
        new_tree: ObjectId,
        worktree: Option<ObjectId>,
        always_checkout: bool,
    ) -> Seq<Action> {
        match worktree {
            None => seq![Action::SafeCheckout { from: old_tree, to: new_tree }],
            Some(tree) => {
                let moved = self.moved(tree, old_tree, new_tree);
                let merge = Action::MergeIndex {
                    ancestor: old_tree,
                    ours: tree,
                    theirs: new_tree,
                    favor_ours: true,
                };
                let write = Action::WriteIndex {
                    ancestor: old_tree,
                    ours: tree,
                    theirs: new_tree,
                    favor_ours: true,
                };
                let checkout = Action::CheckoutIndex {
                    force: true,
                    remove_untracked: true,
                    conflict_style_diff3: true,
                };
                if moved.conflicts || always_checkout {
                    seq![merge, checkout]
                } else if moved.tree != tree {
                    seq![merge, write, checkout]
                } else {
                    seq![merge, write]
                }
            },
        }
    }

    /// All that an update takes once its repositories are open: the merge of the old workspace;
    /// if that does not fail, the merge of the new one; and if that does not fail either, what is
    /// done with the index.
    pub open spec fn update_trace(
        self,
        old: WorkspaceView,
        new: WorkspaceView,
        worktree: Option<ObjectId>,
        always_checkout: bool,
    ) -> Seq<Action> {
        let merge_old = self.octopus_trace(old.heads, old.target, OnConflict::Fail);
        let merge_new = self.octopus_trace(new.heads, new.target, OnConflict::Fail);
        match (self.tree_of(old), self.tree_of(new)) {
            (Err(_), _) => merge_old,
            (_, Err(_)) => merge_old + merge_new,
            (Ok(old_tree), Ok(new_tree)) => merge_old + merge_new + self.index_trace(
                old_tree,
                new_tree,
                worktree,
                always_checkout,
            ),
        }
    }

    proof fn lemma_index_trace(self, update: UpdateView, of: spec_fn(Action) -> bool)
        requires
            update.wf(),
            update.stage is MoveTree || update.stage is SafeCheckout,
            forall|action: Action| index_work()(action) ==> #[trigger] of(action),
        ensures
            update.stage matches Stage::SafeCheckout { old_tree, new_tree } ==> self.asked(
                update,
                of,
            ) =~= self.index_trace(old_tree, new_tree, None, update.always_checkout),
            update.stage matches Stage::MoveTree { tree, old_tree, new_tree } ==> self.asked(
                update,
                of,
            ) =~= self.index_trace(old_tree, new_tree, Some(tree), update.always_checkout),
    {
        self.lemma_step(update, of);
        let second = update.next(self.reply(update));
        if second.action() is Some {
            self.lemma_step(second, of);
            let third = second.next(self.reply(second));
            if third.action() is Some {
                self.lemma_step(third, of);
            }
        }
    }

    /// What an update that has begun to merge asks for: what the merges ask for, and what is done
    /// with the index.
    proof fn lemma_update_trace(
        self,
        old: WorkspaceView,
        update: UpdateView,
        worktree: Option<ObjectId>,
        of: spec_fn(Action) -> bool,
    )
        requires
            update.wf(),
            update.stage == (Stage::MergeOld { worktree }),
            old.heads.len() <= usize::MAX,
            update.merge == OctopusView::start(old.heads, old.target, OnConflict::Fail),
            forall|action: Action| index_work()(action) ==> #[trigger] of(action),
        ensures
            ({
                let new = update.new;
                let merge_old = self.asked(update.merge, of);
                let merge_new = self.asked(
                    OctopusView::start(new.heads, new.target, OnConflict::Fail),
                    of,
                );
                self.asked(update, of) =~= match (self.tree_of(old), self.tree_of(new)) {
                    (Err(_), _) => merge_old,
                    (_, Err(_)) => merge_old + merge_new,
                    (Ok(old_tree), Ok(new_tree)) => merge_old + merge_new + self.index_trace(
                        old_tree,
                        new_tree,
                        worktree,
                        update.always_checkout,
                    ),
                }
            }),
    {
        self.law_octopus_merges_heads(old.heads, old.target, OnConflict::Fail);
        self.law_octopus_merges_heads(update.new.heads, update.new.target, OnConflict::Fail);
        self.lemma_update_merges(update, of);
        let merging = self.after_old(update, self.run(update.merge));
        if merging.stage is MergeNew {
            self.lemma_update_merges(merging, of);
            let moving = self.after_new(merging, self.run(merging.merge));
            if moving.action() is Some {
                self.lemma_index_trace(moving, of);
            } else {
                assert(self.asked(moving, of) =~= Seq::empty());
            }
        } else {
            assert(self.asked(merging, of) =~= Seq::empty());
        }
    }

    /// An update asks for nothing but the repositories, the merges of the two workspaces, and what
    /// is done with the index, in this order.
    pub proof fn law_update_with_tree_trace(
        self,
        old: WorkspaceView,
        new: WorkspaceView,
        worktree: Option<ObjectId>,
        always_checkout: bool,
    )
        requires
            old.heads.len() <= usize::MAX,
            new.heads.len() <= usize::MAX,
        ensures
            ({
                let update = UpdateView::start(
                    old,
                    new,
                    always_checkout,
                    Stage::OpenForMerging { worktree },
                );
                let opened = if worktree is Some {
                    seq![Action::OpenForMerging, Action::OpenForCheckout]
                } else {
                    seq![Action::OpenForMerging]
                };
                self.asked(update, crate::traces::everything()) == opened + self.update_trace(
                    old,
                    new,
                    worktree,
                    always_checkout,
                )
            }),
    {
        let of = crate::traces::everything();
        let update = UpdateView::start(
            old,
            new,
            always_checkout,
            Stage::OpenForMerging { worktree },
        );
        let merging = UpdateView { stage: Stage::MergeOld { worktree }, ..update };
        self.law_octopus_trace(old.heads, old.target, OnConflict::Fail);
        self.law_octopus_trace(new.heads, new.target, OnConflict::Fail);
        self.lemma_update_trace(old, merging, worktree, of);
        self.lemma_step(update, of);
        let trace = self.update_trace(old, new, worktree, always_checkout);
        assert(self.asked(merging, of) =~= trace);
        if worktree is Some {
            self.lemma_step(update.next(Event::Done), of);
            assert(self.asked(update, of) =~= seq![
                Action::OpenForMerging,
                Action::OpenForCheckout,
            ] + trace);
        } else {
            assert(self.asked(update, of) =~= seq![Action::OpenForMerging] + trace);
        }
    }

    /// An update that is not handed a tree opens the repository first. Without `cv3`, it then
    /// writes the worktree as a tree, with zero as the limit for untracked files, and goes on as
    /// if it were handed that tree; with `cv3`, as if it were handed none.
    pub proof fn law_update_trace(self, old: WorkspaceView, new: WorkspaceView, cv3: bool)
        requires
            old.heads.len() <= usize::MAX,
            new.heads.len() <= usize::MAX,
        ensures
            ({
                let update = UpdateView::start(old, new, false, Stage::Open { cv3 });
                let with_tree = |worktree: Option<ObjectId>|
                    UpdateView::start(old, new, false, Stage::OpenForMerging { worktree });
                let of = crate::traces::everything();
                self.asked(update, of) == if cv3 {
                    seq![Action::OpenRepository] + self.asked(with_tree(None), of)
                } else {
                    seq![Action::OpenRepository, Action::WorktreeTree { limit: 0 }] + self.asked(
                        with_tree(Some(self.worktree_tree)),
                        of,
                    )
                }
            }),
    {
        let of = crate::traces::everything();
        let update = UpdateView::start(old, new, false, Stage::Open { cv3 });
        self.lemma_step(update, of);
        if cv3 {
            let rest = UpdateView::start(
                old,
                new,
                false,
                Stage::OpenForMerging { worktree: None },
            );
            assert(update.next(self.reply(update)) == rest);
            assert(self.asked(update, of) =~= seq![Action::OpenRepository] + self.asked(rest, of));
        } else {
            let second = update.next(self.reply(update));
            let rest = UpdateView::start(
                old,
                new,
                false,
                Stage::OpenForMerging { worktree: Some(self.worktree_tree) },
            );
            self.lemma_step(second, of);
            assert(second.next(self.reply(second)) == rest);
            assert(self.asked(update, of) =~= seq![
                Action::OpenRepository,
                Action::WorktreeTree { limit: 0 },
            ] + self.asked(rest, of));
        }
    }

    /// An update makes at most one merge into an index, and checks out nothing but what that
    /// merge gives, also where the checkout is asked for: the merge has the old workspace tree as
    /// ancestor, the tree with the uncommitted changes as ours, and the new workspace tree as
    /// theirs. If one of the workspaces does not merge, there is neither a merge nor a checkout.
    pub proof fn law_update_checks_out_what_was_moved(
        self,
        old: WorkspaceView,
        new: WorkspaceView,
        worktree: Option<ObjectId>,
        always_checkout: bool,
    )
        requires
            old.heads.len() <= usize::MAX,
            new.heads.len() <= usize::MAX,
        ensures
            ({
                let update = UpdateView::start(
                    old,
                    new,
                    always_checkout,
                    Stage::OpenForMerging { worktree },
                );
                self.asked(update, index_work()) == match (self.tree_of(old), self.tree_of(new)) {
                    (Ok(old_tree), Ok(new_tree)) => self.index_trace(
                        old_tree,
                        new_tree,
                        worktree,
                        always_checkout,
                    ),
                    _ => Seq::empty(),
                }
            }),
    {
        let of = index_work();
        let update = UpdateView::start(
            old,
            new,
            always_checkout,
            Stage::OpenForMerging { worktree },
        );
        let merging = UpdateView { stage: Stage::MergeOld { worktree }, ..update };
        self.lemma_octopus_leaves_indices_alone(update.merge, of);
        self.lemma_octopus_leaves_indices_alone(
            OctopusView::start(new.heads, new.target, OnConflict::Fail),
            of,
        );
        self.lemma_update_trace(old, merging, worktree, of);
        self.lemma_step(update, of);
        if worktree is Some {
            self.lemma_step(update.next(Event::Done), of);
        }
        match (self.tree_of(old), self.tree_of(new)) {
            (Ok(old_tree), Ok(new_tree)) => {
                assert(self.asked(merging, of) =~= self.index_trace(
                    old_tree,
                    new_tree,
                    worktree,
                    always_checkout,
                ));
            },
            _ => {
                assert(self.asked(merging, of) =~= Seq::empty());
            },
        }
    }

    /// A snapshot of the workspace holds the target and the stack heads that are found with it.
    pub proof fn law_snapshot(self)
        ensures
            self.run(SnapshotView::Open) == (SnapshotView::Finished {
                state: WorkspaceView {
                    heads: (self.workspace_heads)(self.workspace_target)@,
                    target: self.workspace_target,
                },
            }),
            self.asked(SnapshotView::Open, crate::traces::everything()) == seq![
                Action::OpenRepository,
                Action::WorkspaceTarget,
                Action::WorkspaceHeads { target: self.workspace_target },
            ],
    {
        let all = crate::traces::everything();
        self.lemma_step(SnapshotView::Open, all);
        self.lemma_step(SnapshotView::Target { heads: None }, all);
        self.lemma_step(SnapshotView::Heads { target: self.workspace_target }, all);
        assert(self.asked(SnapshotView::Open, all) =~= seq![
            Action::OpenRepository,
            Action::WorkspaceTarget,
            Action::WorkspaceHeads { target: self.workspace_target },
        ]);
    }

    /// A snapshot with given stack heads holds those, and the target of the workspace.
    pub proof fn law_snapshot_from_heads(self, heads: Seq<ObjectId>)
        ensures
            self.run(SnapshotView::Target { heads: Some(heads) }) == (SnapshotView::Finished {
                state: WorkspaceView { heads, target: self.workspace_target },
            }),
            self.asked(
                SnapshotView::Target { heads: Some(heads) },
                crate::traces::everything(),
            ) == seq![Action::WorkspaceTarget],
    {
        let all = crate::traces::everything();
        self.lemma_step(SnapshotView::Target { heads: Some(heads) }, all);
        assert(self.asked(SnapshotView::Target { heads: Some(heads) }, all) =~= seq![
            Action::WorkspaceTarget,
        ]);
    }

    /// A check for conflicts finds those of applying what lies between the old workspace tree and
    /// the tree on top of the new workspace tree.
    pub proof fn law_conflict_check(
        self,
        tree: ObjectId,
        old_workspace: ObjectId,
        new_workspace: ObjectId,
    )
        ensures
            self.run(ConflictCheck::Open { tree, old_workspace, new_workspace }) == (
            ConflictCheck::Finished {
                conflicts: self.moved(tree, old_workspace, new_workspace).conflicts,
            }),
            self.asked(
                ConflictCheck::Open { tree, old_workspace, new_workspace },
                crate::traces::everything(),
            ) == seq![
                Action::OpenForCheckout,
                Action::MergeIndex {
                    ancestor: old_workspace,
                    ours: tree,
                    theirs: new_workspace,
                    favor_ours: true,
                },
            ],
    {
        let all = crate::traces::everything();
        let check = ConflictCheck::Open { tree, old_workspace, new_workspace };
        self.lemma_step(check, all);
        self.lemma_step(ConflictCheck::Move { tree, old_workspace, new_workspace }, all);
        assert(self.asked(check, all) =~= seq![
            Action::OpenForCheckout,
            Action::MergeIndex {
                ancestor: old_workspace,
                ours: tree,
                theirs: new_workspace,
                favor_ours: true,
            },
        ]);
    }
}

} // verus!
