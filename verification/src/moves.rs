use crate::branch_trees::{Stage, UpdateView, WorkspaceView};
use crate::object_id::ObjectId;
use crate::octopus::MergeConflict;
use crate::repository::{IndexMerge, Repository};
use vstd::prelude::*;

verus! {

/// Whether what one side alone changed is apart from what the other side alone changed: nowhere
/// the same place, and nowhere one of two places that exclude each other, as a file and a file in
/// a directory of its name do.
pub open spec fn apart<P, C>(
    at: spec_fn(ObjectId, P) -> Option<C>,
    excludes: spec_fn(P, P) -> bool,
    ancestor: ObjectId,
    ours: ObjectId,
    theirs: ObjectId,
) -> bool {
    forall|p: P, q: P|
        #![trigger at(ours, p), at(theirs, q)]
        at(ours, p) != at(ancestor, p) && at(ours, p) != at(theirs, p) && at(theirs, q) != at(
            ancestor,
            q,
        ) && at(theirs, q) != at(ours, q) ==> p != q && !excludes(p, q)
}

/// Whether `tree` differs from `old_tree` only at places where `new_tree` does not, and at none
/// that excludes one where it does.
pub open spec fn untouched_by<P, C>(
    at: spec_fn(ObjectId, P) -> Option<C>,
    excludes: spec_fn(P, P) -> bool,
    tree: ObjectId,
    old_tree: ObjectId,
    new_tree: ObjectId,
) -> bool {
    forall|p: P, q: P|
        #![trigger at(tree, p), at(new_tree, q)]
        at(tree, p) != at(old_tree, p) && at(new_tree, q) != at(old_tree, q) ==> p != q
            && !excludes(p, q)
}

impl Repository {
    /// Whether moving `tree` from `old_tree` to `new_tree` goes place by place. It then leaves a
    /// conflict at most where both sides changed what is at a place, differently, and one of them
    /// removed it. Otherwise it takes what is in `tree` where that was changed, and what is in
    /// `new_tree` elsewhere.
    pub open spec fn moves_by_place<P, C>(
        self,
        at: spec_fn(ObjectId, P) -> Option<C>,
        tree: ObjectId,
        old_tree: ObjectId,
        new_tree: ObjectId,
    ) -> bool {
        let moved = self.moved(tree, old_tree, new_tree);
        if moved.conflicts {
            exists|p: P| #[trigger]
                crate::places::contested(at, old_tree, tree, new_tree, p) && (at(tree, p) is None || at(
                    new_tree,
                    p,
                ) is None)
        } else {
            crate::places::takes_what_changed(at, old_tree, tree, new_tree, moved.tree)
        }
    }

    /// Whether moving `tree` from `old_tree` to `new_tree` leaves no conflict and takes what was
    /// changed from either side, if what the sides changed is apart.
    pub open spec fn moves_what_is_apart<P, C>(
        self,
        at: spec_fn(ObjectId, P) -> Option<C>,
        excludes: spec_fn(P, P) -> bool,
        tree: ObjectId,
        old_tree: ObjectId,
        new_tree: ObjectId,
    ) -> bool {
        let moved = self.moved(tree, old_tree, new_tree);
        apart(at, excludes, old_tree, tree, new_tree) ==> {
            &&& !moved.conflicts
            &&& crate::places::takes_what_changed(at, old_tree, tree, new_tree, moved.tree)
        }
    }

    /// Where contents conflict, those of the tree that is moved are favored: unless one side
    /// removed what the other changed, moving leaves no conflict, everything that was changed in
    /// the tree stays as it is there, and everything else is as in the new tree.
    pub proof fn law_moving_favors_the_tree<P, C>(
        self,
        at: spec_fn(ObjectId, P) -> Option<C>,
        tree: ObjectId,
        old_tree: ObjectId,
        new_tree: ObjectId,
    )
        requires
            self.moves_by_place(at, tree, old_tree, new_tree),
            forall|p: P| #[trigger]
                crate::places::contested(at, old_tree, tree, new_tree, p) ==> at(tree, p) is Some && at(
                    new_tree,
                    p,
                ) is Some,
        ensures
            ({
                let moved = self.moved(tree, old_tree, new_tree);
                &&& !moved.conflicts
                &&& crate::places::takes_what_changed(at, old_tree, tree, new_tree, moved.tree)
            }),
    {
    }

    /// Between equal workspace trees, changes are kept as they are.
    pub proof fn law_moving_to_the_same_tree<P, C>(
        self,
        at: spec_fn(ObjectId, P) -> Option<C>,
        excludes: spec_fn(P, P) -> bool,
        tree: ObjectId,
        workspace: ObjectId,
    )
        requires
            crate::places::told_by_contents(at),
            self.moves_what_is_apart(at, excludes, tree, workspace, workspace),
        ensures
            self.moved(tree, workspace, workspace) == (IndexMerge { conflicts: false, tree }),
    {
        let moved = self.moved(tree, workspace, workspace);
        assert(crate::places::contents_agree(at, moved.tree, tree));
    }

    /// Without changes, moving gives the new workspace tree.
    pub proof fn law_moving_no_changes<P, C>(
        self,
        at: spec_fn(ObjectId, P) -> Option<C>,
        excludes: spec_fn(P, P) -> bool,
        old_tree: ObjectId,
        new_tree: ObjectId,
    )
        requires
            crate::places::told_by_contents(at),
            self.moves_what_is_apart(at, excludes, old_tree, old_tree, new_tree),
        ensures
            self.moved(old_tree, old_tree, new_tree) == (IndexMerge {
                conflicts: false,
                tree: new_tree,
            }),
    {
        let moved = self.moved(old_tree, old_tree, new_tree);
        assert(crate::places::contents_agree(at, moved.tree, new_tree));
    }

    /// Changes that the new workspace tree has already are not made again.
    pub proof fn law_moving_changes_already_there<P, C>(
        self,
        at: spec_fn(ObjectId, P) -> Option<C>,
        excludes: spec_fn(P, P) -> bool,
        old_tree: ObjectId,
        new_tree: ObjectId,
    )
        requires
            crate::places::told_by_contents(at),
            self.moves_what_is_apart(at, excludes, new_tree, old_tree, new_tree),
        ensures
            self.moved(new_tree, old_tree, new_tree) == (IndexMerge {
                conflicts: false,
                tree: new_tree,
            }),
    {
        let moved = self.moved(new_tree, old_tree, new_tree);
        assert(crate::places::contents_agree(at, moved.tree, new_tree));
    }

    /// Moving there and back restores the tree, if it has changes only where the workspace trees
    /// agree, and none at a place that excludes one where they do not.
    pub proof fn law_moving_there_and_back<P, C>(
        self,
        at: spec_fn(ObjectId, P) -> Option<C>,
        excludes: spec_fn(P, P) -> bool,
        tree: ObjectId,
        old_tree: ObjectId,
        new_tree: ObjectId,
    )
        requires
            crate::places::told_by_contents(at),
            untouched_by(at, excludes, tree, old_tree, new_tree),
            self.moves_what_is_apart(at, excludes, tree, old_tree, new_tree),
            self.moves_what_is_apart(
                at,
                excludes,
                self.moved(tree, old_tree, new_tree).tree,
                new_tree,
                old_tree,
            ),
        ensures
            ({
                let there = self.moved(tree, old_tree, new_tree);
                &&& !there.conflicts
                &&& self.moved(there.tree, new_tree, old_tree) == (IndexMerge {
                    conflicts: false,
                    tree,
                })
            }),
    {
        let there = self.moved(tree, old_tree, new_tree);
        let back = self.moved(there.tree, new_tree, old_tree);
        assert(apart(at, excludes, old_tree, tree, new_tree));
        assert forall|p: P, q: P|
            #![trigger at(there.tree, p), at(old_tree, q)]
            at(there.tree, p) != at(new_tree, p) && at(there.tree, p) != at(old_tree, p) && at(
                old_tree,
                q,
            ) != at(new_tree, q) && at(old_tree, q) != at(there.tree, q) implies p != q
            && !excludes(p, q) by {
            assert(at(tree, p) != at(old_tree, p));
            assert(at(new_tree, q) != at(old_tree, q));
        }
        assert(apart(at, excludes, new_tree, there.tree, old_tree));
        assert forall|p: P| #[trigger] at(back.tree, p) == at(tree, p) by {
            assert(at(there.tree, p) == at(there.tree, p));
            if at(tree, p) != at(old_tree, p) {
                assert(at(new_tree, p) == at(old_tree, p));
            }
        }
        assert(crate::places::contents_agree(at, back.tree, tree));
    }

    /// What moving a tree from one workspace to another gives.
    pub open spec fn moved_between(
        self,
        tree: ObjectId,
        old: WorkspaceView,
        new: WorkspaceView,
    ) -> Result<IndexMerge, MergeConflict> {
        match (self.tree_of(old), self.tree_of(new)) {
            (Err(conflict), _) => Err(conflict),
            (_, Err(conflict)) => Err(conflict),
            (Ok(old_tree), Ok(new_tree)) => Ok(self.moved(tree, old_tree, new_tree)),
        }
    }

    /// Moving uncommitted changes to another workspace and back restores them, if both workspaces
    /// merge, the changes are only where the workspaces agree, and none is at a place that
    /// excludes one where they do not.
    pub proof fn law_moving_between_workspaces_and_back<P, C>(
        self,
        at: spec_fn(ObjectId, P) -> Option<C>,
        excludes: spec_fn(P, P) -> bool,
        tree: ObjectId,
        old: WorkspaceView,
        new: WorkspaceView,
    )
        requires
            crate::places::told_by_contents(at),
            self.tree_of(old) is Ok,
            self.tree_of(new) is Ok,
            untouched_by(
                at,
                excludes,
                tree,
                self.tree_of(old)->Ok_0,
                self.tree_of(new)->Ok_0,
            ),
            self.moves_what_is_apart(at, excludes, tree, self.tree_of(old)->Ok_0, self.tree_of(new)->Ok_0),
            self.moves_what_is_apart(
                at,
                excludes,
                self.moved(tree, self.tree_of(old)->Ok_0, self.tree_of(new)->Ok_0).tree,
                self.tree_of(new)->Ok_0,
                self.tree_of(old)->Ok_0,
            ),
        ensures
            self.moved_between(tree, old, new) matches Ok(there) && !there.conflicts
                && self.moved_between(there.tree, new, old) == Ok::<IndexMerge, MergeConflict>(
                IndexMerge { conflicts: false, tree },
            ),
    {
        self.law_moving_there_and_back(
            at,
            excludes,
            tree,
            self.tree_of(old)->Ok_0,
            self.tree_of(new)->Ok_0,
        );
    }

    /// An update between workspaces that merge to the same tree leaves the worktree alone, unless
    /// a checkout is asked for.
    pub proof fn law_update_to_the_same_tree<P, C>(
        self,
        at: spec_fn(ObjectId, P) -> Option<C>,
        excludes: spec_fn(P, P) -> bool,
        tree: ObjectId,
        old: WorkspaceView,
        new: WorkspaceView,
    )
        requires
            old.heads.len() <= usize::MAX,
            new.heads.len() <= usize::MAX,
            self.tree_of(old) is Ok,
            self.tree_of(new) == self.tree_of(old),
            crate::places::told_by_contents(at),
            self.moves_what_is_apart(at, excludes, tree, self.tree_of(old)->Ok_0, self.tree_of(old)->Ok_0),
        ensures
            ({
                let update = UpdateView::start(
                    old,
                    new,
                    false,
                    Stage::OpenForMerging { worktree: Some(tree) },
                );
                &&& self.run(update).outcome() == Some(Ok::<(), MergeConflict>(()))
                &&& self.asked(update, crate::runs::checkouts()).len() == 0
            }),
    {
        self.law_moving_to_the_same_tree(at, excludes, tree, self.tree_of(old)->Ok_0);
        self.law_update_with_tree(old, new, Some(tree), false);
    }
}

} // verus!
