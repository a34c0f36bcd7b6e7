use crate::action::Stack;
use crate::head::{CommitView, RemergeView};
use crate::object_id::ObjectId;
use crate::octopus::OnConflict;
use crate::repository::Repository;
use vstd::prelude::*;

verus! {

/// Those of `stacks` that are in the workspace.
pub open spec fn in_workspace(stacks: Seq<Stack>) -> Seq<Stack>
    decreases stacks.len(),
{
    if stacks.len() == 0 {
        Seq::empty()
    } else {
        let before = in_workspace(stacks.drop_last());
        if stacks.last().in_workspace {
            before.push(stacks.last())
        } else {
            before
        }
    }
}

impl Repository {
    /// Whether two repositories hold the same commits and trees, and merge them in the same way.
    pub open spec fn merges_like(self, other: Repository) -> bool {
        &&& other.merge_base == self.merge_base
        &&& other.real_tree == self.real_tree
        &&& other.merge == self.merge
    }

    proof fn lemma_same_base(self, other: Repository, heads: Seq<ObjectId>)
        requires
            self.merges_like(other),
        ensures
            other.octopus_base(heads) == self.octopus_base(heads),
        decreases heads.len(),
    {
        if heads.len() > 1 {
            self.lemma_same_base(other, heads.drop_last());
        }
    }

    proof fn lemma_same_merge(
        self,
        other: Repository,
        base_tree: ObjectId,
        heads: Seq<ObjectId>,
        on_conflict: OnConflict,
    )
        requires
            self.merges_like(other),
        ensures
            other.merged(base_tree, heads, on_conflict) == self.merged(
                base_tree,
                heads,
                on_conflict,
            ),
        decreases heads.len(),
    {
        if heads.len() > 1 {
            self.lemma_same_merge(other, base_tree, heads.drop_last(), on_conflict);
        }
    }

    /// With a stack in the project, the target has no part in the workspace: whatever the default
    /// target is, the stored stacks merge to the same tree, and the same of them stay.
    pub proof fn law_remerge_ignores_the_target(self, target: ObjectId)
        requires
            self.stacks@.len() > 0,
        ensures
            ({
                let other = Repository { default_target: target, ..self };
                self.run(RemergeView::Target) matches RemergeView::Finished { tree, stacks, .. }
                    && other.run(RemergeView::Target) == (RemergeView::Finished {
                    tree,
                    stacks,
                    target,
                })
            }),
    {
        let other = Repository { default_target: target, ..self };
        let heads = self.stack_heads();
        let base_tree = (self.real_tree)(self.octopus_base(heads));
        assert(other.stack_heads() =~= heads);
        self.lemma_same_base(other, heads);
        self.lemma_same_merge(other, base_tree, heads, OnConflict::Evict);
        assert forall|i: int| #[trigger] other.evicted(i) == self.evicted(i) by {
            self.lemma_same_merge(other, base_tree, heads.take(i), OnConflict::Evict);
        }
        assert(other.stacks_left() =~= self.stacks_left());
        self.law_remerge();
        other.law_remerge();
    }

    /// The order in which the stacks are listed is irrelevant where merge bases are unique, trees
    /// merge place by place, and no stack is taken out of the workspace: then none is in any
    /// other order, and the stacks merge to the same tree.
    pub proof fn law_order_of_stacks_is_irrelevant<P, C>(
        self,
        other: Repository,
        ancestor: spec_fn(ObjectId, ObjectId) -> bool,
        commits: spec_fn(ObjectId) -> bool,
        at: spec_fn(ObjectId, P) -> Option<C>,
        trees: spec_fn(ObjectId) -> bool,
    )
        requires
            other == (Repository { stacks: other.stacks, ..self }),
            other.stacks@.to_multiset() == self.stacks@.to_multiset(),
            forall|i: int| 0 <= i < self.stacks@.len() ==> !#[trigger] self.evicted(i),
            forall|i: int|
                0 <= i < self.stacks@.len() ==> commits(#[trigger] self.stack_heads()[i]) && trees(
                    (self.real_tree)(self.stack_heads()[i]),
                ),
            crate::places::is_ancestry(ancestor, commits),
            self.merge_bases_are_unique(ancestor, commits),
            crate::places::told_by_contents(at),
            self.merges_by_place(
                at,
                (self.real_tree)(self.octopus_base(self.stack_heads())),
                trees,
            ),
        ensures
            ({
                &&& self.run(RemergeView::Target) matches RemergeView::Finished { tree, .. }
                    && other.run(RemergeView::Target) == (RemergeView::Finished {
                    tree,
                    stacks: other.stacks@,
                    target: self.default_target,
                })
            }),
    {
        let heads = self.stack_heads();
        let reordered = other.stack_heads();
        let target = self.default_target;
        let base_tree = (self.real_tree)(self.octopus_base(heads));
        let head_of = |stack: Stack| (self.stack_head)(stack.id);
        assert(heads =~= crate::laws::mapped(self.stacks@, head_of));
        assert(reordered =~= crate::laws::mapped(other.stacks@, head_of));
        crate::laws::lemma_map_keeps_multiset(self.stacks@, other.stacks@, head_of);
        self.stacks@.to_multiset_ensures();
        other.stacks@.to_multiset_ensures();
        self.law_merges_where_nothing_is_evicted(heads, target);
        assert forall|i: int| 0 <= i < heads.len() implies !#[trigger] self.evicts(
            base_tree,
            heads,
            i,
        ) by {
            assert(!self.evicted(i));
        }
        self.law_policies_agree_without_conflict(heads, target);
        self.law_order_is_irrelevant_by_place(
            heads,
            reordered,
            target,
            ancestor,
            commits,
            at,
            trees,
        );
        assert(self.workspace_tree(reordered, target, OnConflict::Fail) is Ok);
        assert(self.workspace_tree(reordered, target, OnConflict::Evict) is Ok);
        let other_base = (self.real_tree)(self.octopus_base(reordered));
        self.lemma_same_base(other, reordered);
        self.lemma_same_merge(other, other_base, reordered, OnConflict::Evict);
        self.law_merges_where_nothing_is_evicted(reordered, target);
        assert forall|i: int| 0 <= i < reordered.len() implies !#[trigger] other.evicted(i) by {
            self.lemma_same_merge(other, other_base, reordered.take(i), OnConflict::Evict);
            assert(!self.evicts(other_base, reordered, i));
        }
        assert(other.stacks_left() =~= other.stacks@);
        self.law_remerge();
        other.law_remerge();
    }

    proof fn lemma_heads_left_in_workspace(self, stacks: Seq<Stack>)
        ensures
            self.heads_left(in_workspace(stacks)) == self.heads_left(stacks),
        decreases stacks.len(),
    {
        if stacks.len() > 0 {
            let before = in_workspace(stacks.drop_last());
            self.lemma_heads_left_in_workspace(stacks.drop_last());
            assert(before.push(stacks.last()).drop_last() =~= before);
        }
    }

    /// Taking stacks out of the workspace takes heads away, and adds none.
    proof fn lemma_heads_left_shrink(self, stacks: Seq<Stack>, fewer: Seq<Stack>, head: ObjectId)
        requires
            fewer.len() == stacks.len(),
            forall|i: int|
                0 <= i < stacks.len() ==> (#[trigger] fewer[i]).id == stacks[i].id && (
                fewer[i].in_workspace ==> stacks[i].in_workspace),
            self.heads_left(fewer).contains(head),
        ensures
            self.heads_left(stacks).contains(head),
        decreases stacks.len(),
    {
        if stacks.len() > 0 {
            let n = stacks.len() - 1;
            let all = self.heads_left(stacks.drop_last());
            let left = self.heads_left(fewer.drop_last());
            assert(fewer[n].id == stacks[n].id);
            assert forall|i: int| 0 <= i < n implies (#[trigger] fewer.drop_last()[i]).id
                == stacks.drop_last()[i].id && (fewer.drop_last()[i].in_workspace
                ==> stacks.drop_last()[i].in_workspace) by {
                assert(fewer.drop_last()[i] == fewer[i]);
            }
            let at = choose|at: int|
                0 <= at < self.heads_left(fewer).len() && self.heads_left(fewer)[at] == head;
            if at < left.len() {
                assert(left[at] == head);
                assert(left.contains(head));
                self.lemma_heads_left_shrink(stacks.drop_last(), fewer.drop_last(), head);
                let old = choose|old: int| 0 <= old < all.len() && all[old] == head;
                assert(self.heads_left(stacks)[old] == head);
            } else {
                assert(self.heads_left(stacks).last() == head);
            }
        }
    }

    proof fn lemma_some_head_left(self, stacks: Seq<Stack>, at: int)
        requires
            0 <= at < stacks.len(),
            stacks[at].in_workspace,
            (self.stack_head_if_any)(stacks[at].id) is Some,
        ensures
            self.heads_left(stacks).len() > 0,
        decreases stacks.len(),
    {
        if at < stacks.len() - 1 {
            self.lemma_some_head_left(stacks.drop_last(), at);
        }
    }

    proof fn lemma_in_workspace(stacks: Seq<Stack>)
        ensures
            forall|i: int|
                0 <= i < in_workspace(stacks).len() ==> (#[trigger] in_workspace(
                    stacks,
                )[i]).in_workspace && stacks.contains(in_workspace(stacks)[i]),
        decreases stacks.len(),
    {
        if stacks.len() > 0 {
            let before = stacks.drop_last();
            Self::lemma_in_workspace(before);
            assert forall|i: int| 0 <= i < in_workspace(stacks).len() implies (
            #[trigger] in_workspace(stacks)[i]).in_workspace && stacks.contains(
                in_workspace(stacks)[i],
            ) by {
                if i < in_workspace(before).len() {
                    let stack = in_workspace(before)[i];
                    assert(before.contains(stack));
                    let j = choose|j: int| 0 <= j < before.len() && before[j] == stack;
                    assert(stacks[j] == stack);
                } else {
                    assert(stacks[stacks.len() - 1] == stacks.last());
                }
            }
        }
    }

    /// A stack that was taken out of the workspace does not come back: of two workspace commits
    /// in a row, every parent of the second is a parent of the first. `again` is what the first
    /// leaves: the stacks that are still in the workspace are listed, and the target and the
    /// heads of the stacks, which are all found, are the same.
    pub proof fn law_evicted_stacks_do_not_come_back(self, again: Repository, parent: ObjectId)
        requires
            again.stacks@ == in_workspace(self.stacks_left()),
            again.default_target == self.default_target,
            again.stack_head_if_any == self.stack_head_if_any,
            forall|i: int|
                0 <= i < self.stacks@.len() ==> (self.stack_head_if_any)(
                    (#[trigger] self.stacks@[i]).id,
                ) is Some,
            again.run(CommitView::Open) matches CommitView::Finished { parents, .. }
                && parents.contains(parent),
        ensures
            self.run(CommitView::Open) matches CommitView::Finished { parents, .. }
                && parents.contains(parent),
    {
        let left = self.stacks_left();
        self.law_workspace_commit();
        again.law_workspace_commit();
        self.lemma_heads_left_in_workspace(left);
        again.lemma_same_heads_left(self, again.stacks_left());
        if again.stacks@.len() > 0 {
            let stack = again.stacks@[0];
            Self::lemma_in_workspace(left);
            assert(in_workspace(left)[0] == stack);
            let at = choose|at: int| 0 <= at < left.len() && left[at] == stack;
            assert(self.stacks@[at].id == stack.id);
            again.law_first_stack_stays();
            again.lemma_some_head_left(again.stacks_left(), 0);
            self.lemma_heads_left_shrink(again.stacks@, again.stacks_left(), parent);
        }
    }

    proof fn lemma_same_heads_left(self, other: Repository, stacks: Seq<Stack>)
        requires
            other.stack_head_if_any == self.stack_head_if_any,
        ensures
            other.heads_left(stacks) == self.heads_left(stacks),
        decreases stacks.len(),
    {
        if stacks.len() > 0 {
            self.lemma_same_heads_left(other, stacks.drop_last());
        }
    }
}

} // verus!
