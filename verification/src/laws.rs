use crate::action::{Action, Event, Run};
use crate::branch_trees::UpdateView;
use crate::object_id::ObjectId;
use crate::octopus::{MergeConflict, OctopusView, OnConflict, Phase};
use crate::repository::Repository;
use vstd::prelude::*;

verus! {

/// The target of a workspace that has heads is no input of the merge: whatever the answers are,
/// the merge asks for the same and ends in the same way with any other target.
pub proof fn law_target_is_not_merged(merge: OctopusView, target: ObjectId, event: Event)
    requires
        merge.wf(),
        merge.heads.len() > 0,
    ensures
        ({
            let other = OctopusView { target, ..merge };
            &&& other.wf()
            &&& other.action() == merge.action()
            &&& other.outcome() == merge.outcome()
            &&& other.next(event) == (OctopusView { target, ..merge.next(event) })
        }),
{
}

/// An update that has merged into an index checks out that index or none: whatever the answers
/// are, there is no second merge into an index before or after the checkout, what is written as a
/// tree is the merge just made, and nothing comes between the merge and what is done with it.
pub proof fn law_index_is_merged_once(update: UpdateView, event: Event)
    requires
        update.wf(),
        update.action() is Some,
        crate::action::answers(event, update.action()->0),
    ensures
        ({
            let before = update.action()->0;
            let after = update.next(event).action();
            &&& before is MergeIndex || before is WriteIndex || before is CheckoutIndex ==> !(
            after matches Some(Action::MergeIndex { .. }))
            &&& after matches Some(Action::CheckoutIndex { .. }) ==> before is MergeIndex
                || before is WriteIndex
            &&& after matches Some(Action::WriteIndex { ancestor, ours, theirs, favor_ours })
                ==> before == (Action::MergeIndex { ancestor, ours, theirs, favor_ours })
            &&& before is CheckoutIndex || before is SafeCheckout ==> update.next(event).outcome()
                == Some(Ok::<(), MergeConflict>(()))
        }),
{
    if update.stage is MergeOld || update.stage is MergeNew {
        update.merge.law_answers_end_the_run(event);
    }
}

/// The base that a merge has come to merge its heads against, once it is known.
pub open spec fn base_tree_of(phase: Phase) -> Option<ObjectId> {
    match phase {
        Phase::Options { found } => found,
        Phase::FirstTree { base_tree } => Some(base_tree),
        Phase::HeadTree { base_tree, .. } => Some(base_tree),
        Phase::Merge { base_tree, .. } => Some(base_tree),
        Phase::Write { base_tree, .. } => Some(base_tree),
        Phase::Evict { base_tree, .. } => Some(base_tree),
        _ => None,
    }
}

/// All heads are merged against one base: whatever the answers are, the base stays what it is
/// until the merge ends, and every merge of two trees is against it.
pub proof fn law_one_shared_base(merge: OctopusView, event: Event)
    requires
        merge.wf(),
        base_tree_of(merge.phase) is Some,
    ensures
        merge.next(event).outcome() is None ==> base_tree_of(merge.next(event).phase)
            == base_tree_of(merge.phase),
        merge.action() matches Some(Action::MergeTrees { base, .. }) ==> Some(base)
            == base_tree_of(merge.phase),
{
}

impl Repository {
    /// A merge that evicts heads does not fail.
    pub proof fn law_evicting_does_not_fail(
        self,
        base_tree: ObjectId,
        heads: Seq<ObjectId>,
    )
        ensures
            self.merged(base_tree, heads, OnConflict::Evict) is Ok,
        decreases heads.len(),
    {
        if heads.len() > 1 {
            self.law_evicting_does_not_fail(base_tree, heads.drop_last());
        }
    }

    /// Heads that are evicted leave no trace: the outcome is that of merging the others, which do
    /// not conflict, against the same base.
    pub proof fn law_evicted_heads_leave_no_trace(
        self,
        base_tree: ObjectId,
        heads: Seq<ObjectId>,
    )
        requires
            heads.len() > 0,
        ensures
            self.kept(base_tree, heads).len() > 0,
            self.merged(base_tree, heads, OnConflict::Evict) == self.merged(
                base_tree,
                self.kept(base_tree, heads),
                OnConflict::Fail,
            ),
        decreases heads.len(),
    {
        assert(heads.take(heads.len() - 1) =~= heads.drop_last());
        if heads.len() > 1 {
            let kept = self.kept(base_tree, heads.drop_last());
            self.law_evicted_heads_leave_no_trace(base_tree, heads.drop_last());
            self.law_evicting_does_not_fail(base_tree, heads.drop_last());
            assert(kept.push(heads.last()).drop_last() =~= kept);
        } else {
            assert(self.kept(base_tree, heads.drop_last()) =~= Seq::empty());
            assert(self.kept(base_tree, heads) =~= heads);
        }
    }

    /// Where the heads of a workspace merge without conflict, evicting heads that conflict makes
    /// no difference.
    pub proof fn law_policies_agree_without_conflict(
        self,
        heads: Seq<ObjectId>,
        target: ObjectId,
    )
        requires
            self.workspace_tree(heads, target, OnConflict::Fail) is Ok,
        ensures
            self.workspace_tree(heads, target, OnConflict::Evict) == self.workspace_tree(
                heads,
                target,
                OnConflict::Fail,
            ),
    {
        self.lemma_policies_agree((self.real_tree)(self.octopus_base(heads)), heads);
    }

    proof fn lemma_policies_agree(self, base_tree: ObjectId, heads: Seq<ObjectId>)
        ensures
            self.merged(base_tree, heads, OnConflict::Fail) is Ok ==> self.merged(
                base_tree,
                heads,
                OnConflict::Evict,
            ) == self.merged(base_tree, heads, OnConflict::Fail),
        decreases heads.len(),
    {
        if heads.len() > 1 {
            self.lemma_policies_agree(base_tree, heads.drop_last());
        }
    }

    /// The heads of a workspace merge without conflict exactly where none would be evicted.
    pub proof fn law_merges_where_nothing_is_evicted(
        self,
        heads: Seq<ObjectId>,
        target: ObjectId,
    )
        ensures
            self.workspace_tree(heads, target, OnConflict::Fail) is Ok <==> (forall|i: int|
                0 <= i < heads.len() ==> !#[trigger] self.evicts(
                    (self.real_tree)(self.octopus_base(heads)),
                    heads,
                    i,
                )),
    {
        self.lemma_merges_where_nothing_is_evicted(
            (self.real_tree)(self.octopus_base(heads)),
            heads,
        );
    }

    proof fn lemma_merges_where_nothing_is_evicted(
        self,
        base_tree: ObjectId,
        heads: Seq<ObjectId>,
    )
        ensures
            self.merged(base_tree, heads, OnConflict::Fail) is Ok <==> (forall|i: int|
                0 <= i < heads.len() ==> !#[trigger] self.evicts(base_tree, heads, i)),
        decreases heads.len(),
    {
        if heads.len() > 1 {
            let before = heads.drop_last();
            let n = heads.len() - 1;
            self.lemma_merges_where_nothing_is_evicted(base_tree, before);
            self.lemma_policies_agree(base_tree, before);
            assert(heads.take(n) =~= before);
            assert forall|i: int| 0 <= i < n implies #[trigger] self.evicts(base_tree, before, i)
                == self.evicts(base_tree, heads, i) by {
                assert(before.take(i) =~= heads.take(i));
            }
            if self.merged(base_tree, heads, OnConflict::Fail) is Ok {
                assert forall|i: int| 0 <= i < heads.len() implies !#[trigger] self.evicts(
                    base_tree,
                    heads,
                    i,
                ) by {
                    assert(i < n ==> !self.evicts(base_tree, before, i));
                }
            } else if self.merged(base_tree, before, OnConflict::Fail) is Ok {
                assert(self.evicts(base_tree, heads, n));
            } else {
                let i = choose|i: int|
                    0 <= i < before.len() && #[trigger] self.evicts(base_tree, before, i);
                assert(self.evicts(base_tree, heads, i));
            }
        }
    }

    /// Nothing comes into the workspace tree that is in no head: what holds of the tree of every
    /// head, and is kept when trees of which it holds are merged, holds of the workspace tree,
    /// whatever the target is.
    pub proof fn law_workspace_holds_heads_only(
        self,
        heads: Seq<ObjectId>,
        target: ObjectId,
        on_conflict: OnConflict,
        holds: spec_fn(ObjectId) -> bool,
    )
        requires
            heads.len() > 0,
            forall|i: int|
                0 <= i < heads.len() ==> holds(#[trigger] (self.real_tree)(heads[i])),
            forall|ours: ObjectId, theirs: ObjectId|
                {
                    let merged = #[trigger] (self.merge)(
                        (self.real_tree)(self.octopus_base(heads)),
                        ours,
                        theirs,
                    );
                    holds(ours) && holds(theirs) && merged is Some ==> holds(merged->0)
                },
        ensures
            self.workspace_tree(heads, target, on_conflict) matches Ok(tree) ==> holds(tree),
    {
        let base_tree = (self.real_tree)(self.octopus_base(heads));
        self.lemma_kept_by_merging(base_tree, heads, on_conflict, holds);
    }

    proof fn lemma_kept_by_merging(
        self,
        base_tree: ObjectId,
        heads: Seq<ObjectId>,
        on_conflict: OnConflict,
        holds: spec_fn(ObjectId) -> bool,
    )
        requires
            heads.len() > 0,
            forall|i: int|
                0 <= i < heads.len() ==> holds(#[trigger] (self.real_tree)(heads[i])),
            forall|ours: ObjectId, theirs: ObjectId|
                {
                    let merged = #[trigger] (self.merge)(base_tree, ours, theirs);
                    holds(ours) && holds(theirs) && merged is Some ==> holds(merged->0)
                },
        ensures
            self.merged(base_tree, heads, on_conflict) matches Ok(tree) ==> holds(tree),
        decreases heads.len(),
    {
        assert(holds((self.real_tree)(heads[0])));
        assert(holds((self.real_tree)(heads[heads.len() - 1])));
        if heads.len() > 1 {
            let before = heads.drop_last();
            assert forall|i: int| 0 <= i < before.len() implies holds(
                #[trigger] (self.real_tree)(before[i]),
            ) by {
                assert(before[i] == heads[i]);
            }
            self.lemma_kept_by_merging(base_tree, before, on_conflict, holds);
        }
    }

    /// What is in some head survives: what holds of the tree of one head, and of what two trees
    /// merge to if it holds of either of them, holds of the workspace tree.
    pub proof fn law_what_a_head_holds_survives(
        self,
        heads: Seq<ObjectId>,
        target: ObjectId,
        head: int,
        holds: spec_fn(ObjectId) -> bool,
    )
        requires
            0 <= head < heads.len(),
            holds((self.real_tree)(heads[head])),
            forall|ours: ObjectId, theirs: ObjectId|
                {
                    let merged = #[trigger] (self.merge)(
                        (self.real_tree)(self.octopus_base(heads)),
                        ours,
                        theirs,
                    );
                    (holds(ours) || holds(theirs)) && merged is Some ==> holds(merged->0)
                },
        ensures
            self.workspace_tree(heads, target, OnConflict::Fail) matches Ok(tree) ==> holds(tree),
    {
        let base_tree = (self.real_tree)(self.octopus_base(heads));
        self.lemma_survives(base_tree, heads, head, holds);
    }

    proof fn lemma_survives(
        self,
        base_tree: ObjectId,
        heads: Seq<ObjectId>,
        head: int,
        holds: spec_fn(ObjectId) -> bool,
    )
        requires
            0 <= head < heads.len(),
            holds((self.real_tree)(heads[head])),
            forall|ours: ObjectId, theirs: ObjectId|
                {
                    let merged = #[trigger] (self.merge)(base_tree, ours, theirs);
                    (holds(ours) || holds(theirs)) && merged is Some ==> holds(merged->0)
                },
        ensures
            self.merged(base_tree, heads, OnConflict::Fail) matches Ok(tree) ==> holds(tree),
        decreases heads.len(),
    {
        if heads.len() > 1 && head < heads.len() - 1 {
            self.lemma_survives(base_tree, heads.drop_last(), head, holds);
        }
    }
}

/// Whether `op` is commutative and associative on `carrier`, and does not lead out of it.
pub open spec fn commutes_on<T>(op: spec_fn(T, T) -> T, carrier: spec_fn(T) -> bool) -> bool {
    &&& forall|a: T, b: T|
        carrier(a) && carrier(b) ==> carrier(#[trigger] op(a, b)) && op(a, b) == op(b, a)
    &&& forall|a: T, b: T, c: T|
        carrier(a) && carrier(b) && carrier(c) ==> #[trigger] op(op(a, b), c) == op(a, op(b, c))
}

/// The elements of a sequence combined from the first to the last.
spec fn combined<T>(op: spec_fn(T, T) -> T, s: Seq<T>) -> T
    decreases s.len(),
{
    if s.len() <= 1 {
        s[0]
    } else {
        op(combined(op, s.drop_last()), s.last())
    }
}

proof fn lemma_combined_in_carrier<T>(
    op: spec_fn(T, T) -> T,
    carrier: spec_fn(T) -> bool,
    s: Seq<T>,
)
    requires
        commutes_on(op, carrier),
        s.len() > 0,
        forall|i: int| 0 <= i < s.len() ==> carrier(#[trigger] s[i]),
    ensures
        carrier(combined(op, s)),
    decreases s.len(),
{
    if s.len() > 1 {
        lemma_combined_in_carrier(op, carrier, s.drop_last());
    }
}

/// Moving one element to the end changes nothing.
proof fn lemma_combined_move_last<T>(
    op: spec_fn(T, T) -> T,
    carrier: spec_fn(T) -> bool,
    s: Seq<T>,
    at: int,
)
    requires
        commutes_on(op, carrier),
        0 <= at < s.len(),
        forall|i: int| 0 <= i < s.len() ==> carrier(#[trigger] s[i]),
    ensures
        combined(op, s) == combined(op, s.remove(at).push(s[at])),
    decreases s.len(),
{
    let moved = s.remove(at).push(s[at]);
    if at == s.len() - 1 {
        assert(moved =~= s);
    } else {
        let x = s[at];
        let last = s.last();
        let init = s.drop_last();
        assert(moved.drop_last() =~= s.remove(at));
        assert(s.remove(at).last() == last);
        if s.len() > 2 {
            lemma_combined_move_last(op, carrier, init, at);
            assert(init.remove(at).push(x).drop_last() =~= init.remove(at));
            assert(s.remove(at).drop_last() =~= init.remove(at));
            lemma_combined_in_carrier(op, carrier, init.remove(at));
            let rest = combined(op, init.remove(at));
            assert(combined(op, s) == op(op(rest, x), last));
            assert(combined(op, s.remove(at)) == op(rest, last));
            assert(moved.last() == x);
            assert(combined(op, moved) == op(op(rest, last), x));
            assert(op(x, last) == op(last, x));
        } else {
            assert(combined(op, init) == x);
            assert(combined(op, s.remove(at)) == last);
            assert(op(x, last) == op(last, x));
        }
    }
}

proof fn lemma_combined_any_order<T>(
    op: spec_fn(T, T) -> T,
    carrier: spec_fn(T) -> bool,
    s: Seq<T>,
    t: Seq<T>,
)
    requires
        commutes_on(op, carrier),
        s.len() > 0,
        forall|i: int| 0 <= i < s.len() ==> carrier(#[trigger] s[i]),
        s.to_multiset() == t.to_multiset(),
    ensures
        combined(op, s) == combined(op, t),
    decreases s.len(),
{
    s.to_multiset_ensures();
    t.to_multiset_ensures();
    let x = t.last();
    assert(t.contains(x));
    assert(t.to_multiset().count(x) > 0);
    assert(s.contains(x));
    let at = choose|i: int| 0 <= i < s.len() && s[i] == x;
    lemma_combined_move_last(op, carrier, s, at);
    if s.len() > 1 {
        assert(s.remove(at).push(x).drop_last() =~= s.remove(at));
        assert(t.remove(t.len() - 1) =~= t.drop_last());
        assert(s.remove(at).to_multiset() =~= t.drop_last().to_multiset());
        lemma_combined_any_order(op, carrier, s.remove(at), t.drop_last());
    }
}

/// The elements of a sequence, each as `f` maps it.
pub open spec fn mapped<A, T>(s: Seq<A>, f: spec_fn(A) -> T) -> Seq<T> {
    Seq::new(s.len(), |i: int| f(s[i]))
}

/// Mapping two sequences that differ in their order only gives two that do.
pub proof fn lemma_map_keeps_multiset<A, T>(s: Seq<A>, t: Seq<A>, f: spec_fn(A) -> T)
    requires
        s.to_multiset() == t.to_multiset(),
    ensures
        mapped(s, f).to_multiset() == mapped(t, f).to_multiset(),
    decreases s.len(),
{
    s.to_multiset_ensures();
    t.to_multiset_ensures();
    mapped(s, f).to_multiset_ensures();
    mapped(t, f).to_multiset_ensures();
    if s.len() == 0 {
        assert(mapped(s, f) =~= mapped(t, f));
    } else {
        let x = t.last();
        assert(t.contains(x));
        assert(t.to_multiset().count(x) > 0);
        assert(s.contains(x));
        let at = choose|i: int| 0 <= i < s.len() && s[i] == x;
        let end = t.len() - 1;
        assert(t.remove(end) =~= t.drop_last());
        assert(s.remove(at).to_multiset() =~= t.drop_last().to_multiset());
        lemma_map_keeps_multiset(s.remove(at), t.drop_last(), f);
        assert(mapped(s.remove(at), f) =~= mapped(s, f).remove(at));
        assert(mapped(t.drop_last(), f) =~= mapped(t, f).remove(end));
        assert(mapped(s, f).contains(mapped(s, f)[at]));
        assert(mapped(t, f).contains(mapped(t, f)[end]));
        assert(mapped(s, f).to_multiset() =~= mapped(s, f).remove(at).to_multiset().insert(f(x)));
        assert(mapped(t, f).to_multiset() =~= mapped(t, f).remove(end).to_multiset().insert(f(x)));
    }
}

/// Whether a tree, if there is one, is one of `trees`.
pub open spec fn none_or(trees: spec_fn(ObjectId) -> bool) -> spec_fn(Option<ObjectId>) -> bool {
    |tree: Option<ObjectId>| tree matches Some(tree) ==> trees(tree)
}

impl Repository {
    /// What two trees merge to against `base_tree`, if there are two and no conflict remains.
    pub open spec fn merge_both(self, base_tree: ObjectId) -> spec_fn(
        Option<ObjectId>,
        Option<ObjectId>,
    ) -> Option<ObjectId> {
        |ours: Option<ObjectId>, theirs: Option<ObjectId>|
            match (ours, theirs) {
                (Some(ours), Some(theirs)) => (self.merge)(base_tree, ours, theirs),
                _ => None,
            }
    }

    spec fn tree_if_any(self) -> spec_fn(ObjectId) -> Option<ObjectId> {
        |head: ObjectId| Some((self.real_tree)(head))
    }

    proof fn lemma_base_is_combined(self, heads: Seq<ObjectId>)
        requires
            heads.len() > 0,
        ensures
            self.octopus_base(heads) == combined(self.merge_base, heads),
        decreases heads.len(),
    {
        if heads.len() > 1 {
            self.lemma_base_is_combined(heads.drop_last());
        }
    }

    proof fn lemma_merged_is_combined(self, base_tree: ObjectId, heads: Seq<ObjectId>)
        requires
            heads.len() > 0,
        ensures
            combined(self.merge_both(base_tree), mapped(heads, self.tree_if_any())) == (
            match self.merged(base_tree, heads, OnConflict::Fail) {
                Ok(tree) => Some(tree),
                Err(_) => None,
            }),
        decreases heads.len(),
    {
        let trees = mapped(heads, self.tree_if_any());
        if heads.len() > 1 {
            assert(trees.drop_last() =~= mapped(heads.drop_last(), self.tree_if_any()));
            self.lemma_merged_is_combined(base_tree, heads.drop_last());
        }
    }

    /// The workspace tree does not depend on the order of the heads where nothing of what it is
    /// made from does: where finding the merge base is commutative and associative among
    /// `commits`, and so is merging against that of the heads among `trees`. The heads then
    /// conflict in any order or in none, and where they do not, they merge to the same tree,
    /// whether or not heads that conflict would be evicted.
    pub proof fn law_order_of_heads_is_irrelevant(
        self,
        heads: Seq<ObjectId>,
        reordered: Seq<ObjectId>,
        target: ObjectId,
        commits: spec_fn(ObjectId) -> bool,
        trees: spec_fn(ObjectId) -> bool,
    )
        requires
            heads.to_multiset() == reordered.to_multiset(),
            forall|i: int|
                0 <= i < heads.len() ==> commits(#[trigger] heads[i]) && trees(
                    (self.real_tree)(heads[i]),
                ),
            commutes_on(self.merge_base, commits),
            commutes_on(
                self.merge_both((self.real_tree)(self.octopus_base(heads))),
                none_or(trees),
            ),
        ensures
            match self.workspace_tree(heads, target, OnConflict::Fail) {
                Ok(tree) => forall|on_conflict: OnConflict| #[trigger]
                    self.workspace_tree(reordered, target, on_conflict) == Ok::<
                        ObjectId,
                        MergeConflict,
                    >(tree),
                Err(_) => self.workspace_tree(reordered, target, OnConflict::Fail) is Err,
            },
    {
        heads.to_multiset_ensures();
        reordered.to_multiset_ensures();
        if heads.len() > 0 {
            let base_tree = (self.real_tree)(self.octopus_base(heads));
            let f = self.tree_if_any();
            self.lemma_base_is_combined(heads);
            self.lemma_base_is_combined(reordered);
            lemma_combined_any_order(self.merge_base, commits, heads, reordered);
            lemma_map_keeps_multiset(heads, reordered, f);
            assert forall|i: int| 0 <= i < heads.len() implies none_or(trees)(
                #[trigger] mapped(heads, f)[i],
            ) by {
                assert(commits(heads[i]));
            }
            self.lemma_merged_is_combined(base_tree, heads);
            self.lemma_merged_is_combined(base_tree, reordered);
            lemma_combined_any_order(
                self.merge_both(base_tree),
                none_or(trees),
                mapped(heads, f),
                mapped(reordered, f),
            );
        } else {
            assert(heads =~= reordered);
        }
        if self.workspace_tree(heads, target, OnConflict::Fail) is Ok {
            self.law_policies_agree_without_conflict(reordered, target);
        }
    }
}

} // verus!
