use crate::action::{Action, Event, Run, Stack};
use crate::object_id::ObjectId;
use crate::octopus::{MergeConflict, OnConflict};
use vstd::prelude::*;

verus! {

/// What merging two trees into an index gives.
pub struct IndexMerge {
    /// Whether the index has conflicts.
    pub conflicts: bool,
    /// The tree that writing the index gives.
    pub tree: ObjectId,
}

/// A repository, with its worktree and the stored project data, on which no action fails, as
/// mathematics sees it.
pub struct Repository {
    /// The best merge base of two commits.
    pub merge_base: spec_fn(ObjectId, ObjectId) -> ObjectId,
    /// The tree that stands for a commit.
    pub real_tree: spec_fn(ObjectId) -> ObjectId,
    /// The tree that merging two trees against a base gives, or `None` if conflicts remain.
    pub merge: spec_fn(ObjectId, ObjectId, ObjectId) -> Option<ObjectId>,
    /// What merging two trees against a base into an index gives, with ours favored or not.
    pub merge_index: spec_fn(ObjectId, ObjectId, ObjectId, bool) -> IndexMerge,
    /// The tree that the worktree holds.
    pub worktree_tree: ObjectId,
    /// The commit that the workspace is based on.
    pub workspace_target: ObjectId,
    /// The stack heads of the workspace if it is based on a given commit.
    pub workspace_heads: spec_fn(ObjectId) -> Vec<ObjectId>,
    /// The commit of the stored default target.
    pub default_target: ObjectId,
    /// The stored stacks that are in the workspace.
    pub stacks: Vec<Stack>,
    /// The head of a stack.
    pub stack_head: spec_fn(u128) -> ObjectId,
    /// The head of a stack where one is found when it is asked for again.
    pub stack_head_if_any: spec_fn(u128) -> Option<ObjectId>,
    /// The workspace commit with a given tree and given parents.
    pub workspace_commit: spec_fn(ObjectId, Seq<ObjectId>) -> ObjectId,
    /// The tree of a commit.
    pub commit_tree: spec_fn(ObjectId) -> ObjectId,
    /// The tree of the commit that `HEAD` points to.
    pub head_tree: ObjectId,
}

impl Repository {
    /// What comes of an action, with `parents` those of the commit that it writes, if it does.
    pub open spec fn answer(self, action: Action, parents: Option<Seq<ObjectId>>) -> Event {
        match action {
            Action::MergeBase { one, two } => Event::Id((self.merge_base)(one, two)),
            Action::RealTree { commit } => Event::Id((self.real_tree)(commit)),
            Action::MergeTrees { base, ours, theirs } => Event::Flag(
                (self.merge)(base, ours, theirs) is None,
            ),
            Action::WriteMerge { base, ours, theirs } => Event::Id(
                (self.merge)(base, ours, theirs)->0,
            ),
            Action::WorktreeTree { .. } => Event::Id(self.worktree_tree),
            Action::MergeIndex { ancestor, ours, theirs, favor_ours } => Event::Flag(
                (self.merge_index)(ancestor, ours, theirs, favor_ours).conflicts,
            ),
            Action::WriteIndex { ancestor, ours, theirs, favor_ours } => Event::Id(
                (self.merge_index)(ancestor, ours, theirs, favor_ours).tree,
            ),
            Action::WorkspaceTarget => Event::Id(self.workspace_target),
            Action::WorkspaceHeads { target } => Event::Ids((self.workspace_heads)(target)),
            Action::DefaultTarget => Event::Id(self.default_target),
            Action::ListStacks => Event::Stacks(self.stacks),
            Action::StackHead { stack } => Event::Id((self.stack_head)(stack)),
            Action::StackHeadIfAny { stack } => Event::MaybeId((self.stack_head_if_any)(stack)),
            Action::CommitWorkspace { tree } => Event::Id(
                (self.workspace_commit)(tree, parents->0),
            ),
            Action::CommitTree { commit } => Event::Id((self.commit_tree)(commit)),
            Action::HeadTree => Event::Id(self.head_tree),
            _ => Event::Done,
        }
    }

    /// What comes of what a run asks for.
    pub open spec fn reply<R: Run>(self, run: R) -> Event {
        self.answer(run.action()->0, run.parents())
    }

    /// The merge base of all `heads`.
    pub open spec fn octopus_base(self, heads: Seq<ObjectId>) -> ObjectId
        recommends
            heads.len() > 0,
        decreases heads.len(),
    {
        if heads.len() <= 1 {
            heads[0]
        } else {
            (self.merge_base)(self.octopus_base(heads.drop_last()), heads.last())
        }
    }

    /// The tree that merging the trees of `heads` one after the other, all against `base_tree`,
    /// gives. The error is the position of a head that conflicts with those before it; where such
    /// heads are evicted, there is none.
    pub open spec fn merged(
        self,
        base_tree: ObjectId,
        heads: Seq<ObjectId>,
        on_conflict: OnConflict,
    ) -> Result<ObjectId, MergeConflict>
        recommends
            heads.len() > 0,
        decreases heads.len(),
    {
        if heads.len() <= 1 {
            Ok((self.real_tree)(heads[0]))
        } else {
            match self.merged(base_tree, heads.drop_last(), on_conflict) {
                Err(conflict) => Err(conflict),
                Ok(ours) => match (self.merge)(base_tree, ours, (self.real_tree)(heads.last())) {
                    Some(tree) => Ok(tree),
                    None => if on_conflict == OnConflict::Evict {
                        Ok(ours)
                    } else {
                        Err(MergeConflict { head: (heads.len() - 1) as usize })
                    },
                },
            }
        }
    }

    /// Whether the head at `i` conflicts with those before it that do not.
    pub open spec fn evicts(self, base_tree: ObjectId, heads: Seq<ObjectId>, i: int) -> bool {
        match self.merged(base_tree, heads.take(i), OnConflict::Evict) {
            Ok(ours) => i >= 1 && (self.merge)(
                base_tree,
                ours,
                (self.real_tree)(heads[i]),
            ) is None,
            Err(_) => false,
        }
    }

    /// Those of `heads` that do not conflict with others before them.
    pub open spec fn kept(self, base_tree: ObjectId, heads: Seq<ObjectId>) -> Seq<ObjectId>
        decreases heads.len(),
    {
        if heads.len() == 0 {
            Seq::empty()
        } else {
            let before = self.kept(base_tree, heads.drop_last());
            if self.evicts(base_tree, heads, heads.len() - 1) {
                before
            } else {
                before.push(heads.last())
            }
        }
    }

    /// The tree of a workspace: its heads merged against the tree of their common merge base, or,
    /// if there are none, the tree of its target.
    pub open spec fn workspace_tree(
        self,
        heads: Seq<ObjectId>,
        target: ObjectId,
        on_conflict: OnConflict,
    ) -> Result<ObjectId, MergeConflict> {
        if heads.len() == 0 {
            Ok((self.real_tree)(target))
        } else {
            self.merged((self.real_tree)(self.octopus_base(heads)), heads, on_conflict)
        }
    }

    /// The state in which a run ends.
    pub open spec fn run<R: Run>(self, run: R) -> R
        decreases run.remaining(),
        when run.wf()
        via Self::run_ends::<R>
    {
        match run.action() {
            None => run,
            Some(_) => self.run(run.next(self.reply(run))),
        }
    }

    /// The actions of a kind that a run asks for, in the order in which it does.
    pub open spec fn asked<R: Run>(self, run: R, of: spec_fn(Action) -> bool) -> Seq<Action>
        decreases run.remaining(),
        when run.wf()
        via Self::asking_ends::<R>
    {
        match run.action() {
            None => Seq::empty(),
            Some(action) => {
                let rest = self.asked(run.next(self.reply(run)), of);
                if of(action) {
                    seq![action] + rest
                } else {
                    rest
                }
            },
        }
    }

    #[via_fn]
    proof fn asking_ends<R: Run>(self, run: R, of: spec_fn(Action) -> bool) {
        if run.action() is Some {
            run.law_answers_end_the_run(self.reply(run));
        }
    }

    #[via_fn]
    proof fn run_ends<R: Run>(self, run: R) {
        if run.action() is Some {
            run.law_answers_end_the_run(self.reply(run));
        }
    }
}

} // verus!
