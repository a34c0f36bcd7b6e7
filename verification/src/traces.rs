use crate::action::{Action, Run};
use crate::object_id::ObjectId;
use crate::octopus::{OctopusView, OnConflict, Phase};
use crate::repository::Repository;
use vstd::prelude::*;

verus! {

/// Every action there is.
pub open spec fn everything() -> spec_fn(Action) -> bool {
    |action: Action| true
}

/// The actions that read merge options.
pub open spec fn options_read() -> spec_fn(Action) -> bool {
    |action: Action| action is MergeOptions || action is MergeOptionsNoRewrites
}

impl Repository {
    /// The search for the merge base of all `heads`, from the head at `from` on.
    pub open spec fn bases_trace(self, heads: Seq<ObjectId>, from: int) -> Seq<Action>
        decreases heads.len() - from,
    {
        if from >= heads.len() {
            Seq::empty()
        } else {
            seq![
                Action::MergeBase { one: self.octopus_base(heads.take(from)), two: heads[from] },
            ] + self.bases_trace(heads, from + 1)
        }
    }

    /// The merges of the heads at `from` and behind with those before them, as long as none of
    /// them fails: each is of the tree of the head with what the heads before it merge to.
    pub open spec fn merges_trace(
        self,
        base: ObjectId,
        heads: Seq<ObjectId>,
        on_conflict: OnConflict,
        from: int,
    ) -> Seq<Action>
        decreases heads.len() - from,
    {
        if from >= heads.len() {
            Seq::empty()
        } else {
            match self.merged(base, heads.take(from), on_conflict) {
                Err(_) => Seq::empty(),
                Ok(ours) => {
                    let theirs = (self.real_tree)(heads[from]);
                    let settled = if (self.merge)(base, ours, theirs) is Some {
                        seq![Action::WriteMerge { base, ours, theirs }]
                    } else if on_conflict == OnConflict::Evict {
                        seq![Action::Evict { head: from as usize }]
                    } else {
                        Seq::empty()
                    };
                    seq![
                        Action::RealTree { commit: heads[from] },
                        Action::MergeTrees { base, ours, theirs },
                    ] + settled + self.merges_trace(base, heads, on_conflict, from + 1)
                },
            }
        }
    }

    /// All that merging `heads` takes: their common merge base, its tree, the options for merges
    /// that stop at the first conflict, and the merges, all against that tree. Without heads, it
    /// takes the tree of the target, and nothing is merged.
    pub open spec fn octopus_trace(
        self,
        heads: Seq<ObjectId>,
        target: ObjectId,
        on_conflict: OnConflict,
    ) -> Seq<Action> {
        let base = self.octopus_base(heads);
        if heads.len() == 0 {
            if on_conflict == OnConflict::Fail {
                seq![Action::RealTree { commit: target }]
            } else {
                seq![Action::MergeOptions, Action::RealTree { commit: target }]
            }
        } else {
            self.bases_trace(heads, 1) + seq![
                Action::RealTree { commit: base },
                Action::MergeOptions,
                Action::RealTree { commit: heads[0] },
            ] + self.merges_trace((self.real_tree)(base), heads, on_conflict, 1)
        }
    }

    /// What a merge that is on track has still to ask for.
    spec fn octopus_left(self, merge: OctopusView) -> Seq<Action> {
        let heads = merge.heads;
        let base = self.octopus_base(heads);
        let merges = |from: int|
            self.merges_trace((self.real_tree)(base), heads, merge.on_conflict, from);
        let first = Action::RealTree { commit: heads[0] };
        let rest = seq![Action::RealTree { commit: base }, Action::MergeOptions, first] + merges(1);
        match merge.phase {
            Phase::Base { next, .. } => self.bases_trace(heads, next as int) + rest,
            Phase::BaseTree { .. } => rest,
            Phase::Options { found: Some(_) } => seq![Action::MergeOptions, first] + merges(1),
            Phase::Options { found: None } => seq![
                Action::MergeOptions,
                Action::RealTree { commit: merge.target },
            ],
            Phase::FirstTree { .. } => seq![first] + merges(1),
            Phase::HeadTree { next, .. } => merges(next as int),
            Phase::Merge { next, .. } => merges(next as int).skip(1),
            Phase::Write { base_tree, merged, theirs, next } => seq![
                Action::WriteMerge { base: base_tree, ours: merged, theirs },
            ] + merges(next + 1),
            Phase::Evict { next, .. } => seq![Action::Evict { head: next }] + merges(next + 1),
            Phase::TargetTree => seq![Action::RealTree { commit: merge.target }],
            Phase::Merged { .. } => Seq::empty(),
            Phase::Conflict { .. } => Seq::empty(),
        }
    }

    proof fn lemma_octopus_trace(self, merge: OctopusView)
        requires
            merge.wf(),
            self.on_track(merge),
        ensures
            self.asked(merge, everything()) =~= self.octopus_left(merge),
        decreases merge.remaining(),
    {
        if merge.action() is Some {
            let event = self.reply(merge);
            let next = merge.next(event);
            let heads = merge.heads;
            let base_tree = (self.real_tree)(self.octopus_base(heads));
            merge.law_answers_end_the_run(event);
            self.lemma_step(merge, everything());
            self.lemma_step_on_track(merge);
            self.lemma_octopus_trace(next);
            match merge.phase {
                Phase::HeadTree { next: at, .. } => {
                    let merges = self.merges_trace(base_tree, heads, merge.on_conflict, at as int);
                    assert(merges[0] == merge.action()->0);
                    assert(merges =~= seq![merges[0]] + merges.skip(1));
                },
                Phase::Merge { merged, theirs, next: at, .. } => {
                    let merges = self.merges_trace(base_tree, heads, merge.on_conflict, at as int);
                    let rest = self.merges_trace(base_tree, heads, merge.on_conflict, at + 1);
                    assert(heads.take(at + 1).drop_last() =~= heads.take(at as int));
                    assert(heads.take(at + 1).last() == heads[at as int]);
                    assert(merges[1] == merge.action()->0);
                    assert(merges.skip(1) =~= seq![merges[1]] + merges.skip(2));
                    if next.phase is Conflict {
                        assert(self.merged(base_tree, heads.take(at + 1), merge.on_conflict) is Err);
                        assert(rest =~= Seq::empty());
                    }
                    assert(merges.skip(2) =~= self.octopus_left(next));
                },
                Phase::Base { next: at, .. } => {
                    let rest = self.bases_trace(heads, at + 1);
                    assert(at + 1 >= heads.len() ==> rest =~= Seq::empty());
                },
                Phase::FirstTree { .. } => {
                    let rest = self.merges_trace(base_tree, heads, merge.on_conflict, 1);
                    assert(1 >= heads.len() ==> rest =~= Seq::empty());
                },
                Phase::Write { next: at, .. } => {
                    let rest = self.merges_trace(base_tree, heads, merge.on_conflict, at + 1);
                    assert(at + 1 >= heads.len() ==> rest =~= Seq::empty());
                },
                Phase::Evict { next: at, .. } => {
                    let rest = self.merges_trace(base_tree, heads, merge.on_conflict, at + 1);
                    assert(at + 1 >= heads.len() ==> rest =~= Seq::empty());
                },
                _ => {},
            }
        }
    }

    /// A merge of heads asks for the common merge base of the heads, for its tree, once for the
    /// options for merges that stop at the first conflict, and then for one merge for each head
    /// but the first: of its tree with what the heads before it merge to, against the tree of the
    /// common base. It asks for nothing else, and for all of it in this order.
    pub proof fn law_octopus_trace(
        self,
        heads: Seq<ObjectId>,
        target: ObjectId,
        on_conflict: OnConflict,
    )
        requires
            heads.len() <= usize::MAX,
        ensures
            self.asked(OctopusView::start(heads, target, on_conflict), everything())
                == self.octopus_trace(heads, target, on_conflict),
    {
        let start = OctopusView::start(heads, target, on_conflict);
        if heads.len() > 1 {
            assert(heads.take(1).len() == 1);
        }
        self.lemma_octopus_trace(start);
        if heads.len() == 1 {
            assert(self.bases_trace(heads, 1) =~= Seq::empty());
        }
    }

    proof fn lemma_octopus_options(self, merge: OctopusView)
        requires
            merge.wf(),
        ensures
            self.asked(merge, options_read()) =~= match merge.phase {
                Phase::Base { .. } => seq![Action::MergeOptions],
                Phase::BaseTree { .. } => seq![Action::MergeOptions],
                Phase::Options { .. } => seq![Action::MergeOptions],
                _ => Seq::empty(),
            },
        decreases merge.remaining(),
    {
        if merge.action() is Some {
            let event = self.reply(merge);
            merge.law_answers_end_the_run(event);
            self.lemma_step(merge, options_read());
            self.lemma_octopus_options(merge.next(event));
        }
    }

    /// Every merge of heads reads merge options once, and they are those that track renames. A
    /// merge without heads that would fail on a conflict reads none.
    pub proof fn law_octopus_options(
        self,
        heads: Seq<ObjectId>,
        target: ObjectId,
        on_conflict: OnConflict,
    )
        requires
            heads.len() <= usize::MAX,
        ensures
            self.asked(OctopusView::start(heads, target, on_conflict), options_read()) == (
            if heads.len() == 0 && on_conflict == OnConflict::Fail {
                Seq::empty()
            } else {
                seq![Action::MergeOptions]
            }),
    {
        self.lemma_octopus_options(OctopusView::start(heads, target, on_conflict));
    }
}

} // verus!
