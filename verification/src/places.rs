use crate::object_id::ObjectId;
use crate::octopus::{MergeConflict, OnConflict};
use crate::repository::Repository;
use vstd::prelude::*;

verus! {

/// Whether two trees hold the same at every place. A place is what merging treats as one: a file,
/// or a part of one.
pub open spec fn contents_agree<P, C>(
    at: spec_fn(ObjectId, P) -> Option<C>,
    one: ObjectId,
    two: ObjectId,
) -> bool {
    forall|p: P| #[trigger] at(one, p) == at(two, p)
}

/// Whether a tree is told from others by what is at its places alone.
pub open spec fn told_by_contents<P, C>(at: spec_fn(ObjectId, P) -> Option<C>) -> bool {
    forall|one: ObjectId, two: ObjectId| #[trigger]
        contents_agree(at, one, two) ==> one == two
}

/// Whether both sides changed what is at `p`, and differently.
pub open spec fn contested<P, C>(
    at: spec_fn(ObjectId, P) -> Option<C>,
    ancestor: ObjectId,
    ours: ObjectId,
    theirs: ObjectId,
    p: P,
) -> bool {
    &&& at(ours, p) != at(ancestor, p)
    &&& at(theirs, p) != at(ancestor, p)
    &&& at(ours, p) != at(theirs, p)
}

/// Whether `tree` holds what `ours` holds where that was changed, and what `theirs` holds
/// elsewhere.
pub open spec fn takes_what_changed<P, C>(
    at: spec_fn(ObjectId, P) -> Option<C>,
    ancestor: ObjectId,
    ours: ObjectId,
    theirs: ObjectId,
    tree: ObjectId,
) -> bool {
    forall|p: P| #[trigger]
        at(tree, p) == if at(ours, p) != at(ancestor, p) {
            at(ours, p)
        } else {
            at(theirs, p)
        }
}

/// Whether `merged` is what merging goes to place by place: at each, the side that differs from
/// the base wins, equal changes agree, and other changes conflict.
pub open spec fn merged_by_place<P, C>(
    at: spec_fn(ObjectId, P) -> Option<C>,
    base: ObjectId,
    ours: ObjectId,
    theirs: ObjectId,
    merged: Option<ObjectId>,
) -> bool {
    match merged {
        None => exists|p: P| #[trigger] contested(at, base, ours, theirs, p),
        Some(tree) => {
            &&& forall|p: P| !#[trigger] contested(at, base, ours, theirs, p)
            &&& takes_what_changed(at, base, ours, theirs, tree)
        },
    }
}

/// Whether `ancestor` orders `commits` as their history does, each commit being an ancestor of
/// itself.
pub open spec fn is_ancestry(
    ancestor: spec_fn(ObjectId, ObjectId) -> bool,
    commits: spec_fn(ObjectId) -> bool,
) -> bool {
    &&& forall|a: ObjectId| commits(a) ==> #[trigger] ancestor(a, a)
    &&& forall|a: ObjectId, b: ObjectId|
        commits(a) && commits(b) && #[trigger] ancestor(a, b) && #[trigger] ancestor(b, a) ==> a
            == b
    &&& forall|a: ObjectId, b: ObjectId, c: ObjectId|
        commits(a) && commits(b) && commits(c) && #[trigger] ancestor(a, b)
            && #[trigger] ancestor(b, c) ==> ancestor(a, c)
}

/// Whether `base` is the one greatest common ancestor of two commits.
pub open spec fn is_greatest_common_ancestor(
    ancestor: spec_fn(ObjectId, ObjectId) -> bool,
    commits: spec_fn(ObjectId) -> bool,
    one: ObjectId,
    two: ObjectId,
    base: ObjectId,
) -> bool {
    &&& commits(base)
    &&& ancestor(base, one)
    &&& ancestor(base, two)
    &&& forall|c: ObjectId|
        commits(c) && #[trigger] ancestor(c, one) && #[trigger] ancestor(c, two) ==> ancestor(
            c,
            base,
        )
}

impl Repository {
    /// Whether merging `trees` against `base_tree` goes place by place, and does not lead out of
    /// them.
    pub open spec fn merges_by_place<P, C>(
        self,
        at: spec_fn(ObjectId, P) -> Option<C>,
        base_tree: ObjectId,
        trees: spec_fn(ObjectId) -> bool,
    ) -> bool {
        forall|ours: ObjectId, theirs: ObjectId|
            trees(ours) && trees(theirs) ==> {
                let merged = #[trigger] (self.merge)(base_tree, ours, theirs);
                &&& merged_by_place(at, base_tree, ours, theirs, merged)
                &&& merged matches Some(tree) ==> trees(tree)
            }
    }

    /// Whether any two of `commits` have one greatest common ancestor, and it is their merge
    /// base.
    pub open spec fn merge_bases_are_unique(
        self,
        ancestor: spec_fn(ObjectId, ObjectId) -> bool,
        commits: spec_fn(ObjectId) -> bool,
    ) -> bool {
        forall|one: ObjectId, two: ObjectId|
            commits(one) && commits(two) ==> is_greatest_common_ancestor(
                ancestor,
                commits,
                one,
                two,
                #[trigger] (self.merge_base)(one, two),
            )
    }

    /// Finding merge bases is commutative and associative where they are unique.
    pub proof fn law_unique_merge_bases_commute(
        self,
        ancestor: spec_fn(ObjectId, ObjectId) -> bool,
        commits: spec_fn(ObjectId) -> bool,
    )
        requires
            is_ancestry(ancestor, commits),
            self.merge_bases_are_unique(ancestor, commits),
        ensures
            crate::laws::commutes_on(self.merge_base, commits),
    {
        let op = self.merge_base;
        assert forall|a: ObjectId, b: ObjectId| commits(a) && commits(b) implies commits(
            #[trigger] op(a, b),
        ) && op(a, b) == op(b, a) by {
            let one = op(a, b);
            let two = op(b, a);
            assert(ancestor(one, two));
            assert(ancestor(two, one));
        }
        assert forall|a: ObjectId, b: ObjectId, c: ObjectId|
            commits(a) && commits(b) && commits(c) implies #[trigger] op(op(a, b), c) == op(
            a,
            op(b, c),
        ) by {
            let one = op(op(a, b), c);
            let two = op(a, op(b, c));
            assert(commits(op(a, b)) && commits(op(b, c)));
            assert(ancestor(one, op(a, b)) && ancestor(op(a, b), a) && ancestor(op(a, b), b));
            assert(ancestor(two, op(b, c)) && ancestor(op(b, c), b) && ancestor(op(b, c), c));
            assert(ancestor(one, a) && ancestor(one, b) && ancestor(one, c));
            assert(ancestor(two, a) && ancestor(two, b) && ancestor(two, c));
            assert(ancestor(one, op(b, c)));
            assert(ancestor(two, op(a, b)));
            assert(ancestor(one, two));
            assert(ancestor(two, one));
        }
    }

    proof fn lemma_merging_commutes<P, C>(
        self,
        at: spec_fn(ObjectId, P) -> Option<C>,
        base_tree: ObjectId,
        trees: spec_fn(ObjectId) -> bool,
        a: ObjectId,
        b: ObjectId,
    )
        requires
            told_by_contents(at),
            self.merges_by_place(at, base_tree, trees),
            trees(a),
            trees(b),
        ensures
            (self.merge)(base_tree, a, b) == (self.merge)(base_tree, b, a),
    {
        let one = (self.merge)(base_tree, a, b);
        let two = (self.merge)(base_tree, b, a);
        assert(forall|p: P| #[trigger]
            contested(at, base_tree, a, b, p) == contested(at, base_tree, b, a, p));
        if one is None {
            let p = choose|p: P| #[trigger] contested(at, base_tree, a, b, p);
            assert(contested(at, base_tree, b, a, p));
        } else if two is None {
            let p = choose|p: P| #[trigger] contested(at, base_tree, b, a, p);
            assert(contested(at, base_tree, a, b, p));
        } else {
            assert forall|p: P| #[trigger] at(one->0, p) == at(two->0, p) by {
                assert(!contested(at, base_tree, a, b, p));
                assert(at(two->0, p) == at(two->0, p));
            }
            assert(contents_agree(at, one->0, two->0));
        }
    }

    proof fn lemma_merging_associates<P, C>(
        self,
        at: spec_fn(ObjectId, P) -> Option<C>,
        base_tree: ObjectId,
        trees: spec_fn(ObjectId) -> bool,
        a: ObjectId,
        b: ObjectId,
        c: ObjectId,
    )
        requires
            told_by_contents(at),
            self.merges_by_place(at, base_tree, trees),
            trees(a),
            trees(b),
            trees(c),
        ensures
            ({
                let op = self.merge_both(base_tree);
                op(op(Some(a), Some(b)), Some(c)) == op(Some(a), op(Some(b), Some(c)))
            }),
    {
        let ab = (self.merge)(base_tree, a, b);
        let bc = (self.merge)(base_tree, b, c);
        if ab is None && bc is None {
        } else if ab is None {
            let y = bc->0;
            let p = choose|p: P| #[trigger] contested(at, base_tree, a, b, p);
            assert(at(y, p) == at(b, p));
            assert(contested(at, base_tree, a, y, p));
            assert((self.merge)(base_tree, a, y) is None);
        } else if bc is None {
            let x = ab->0;
            let p = choose|p: P| #[trigger] contested(at, base_tree, b, c, p);
            assert(!contested(at, base_tree, a, b, p));
            assert(at(x, p) == at(b, p));
            assert(contested(at, base_tree, x, c, p));
            assert((self.merge)(base_tree, x, c) is None);
        } else {
            let x = ab->0;
            let y = bc->0;
            let one = (self.merge)(base_tree, x, c);
            let two = (self.merge)(base_tree, a, y);
            assert forall|p: P|
                contested(at, base_tree, x, c, p) == #[trigger] contested(at, base_tree, a, y, p) by {
                assert(!contested(at, base_tree, a, b, p));
                assert(!contested(at, base_tree, b, c, p));
                assert(at(x, p) == at(x, p));
                assert(at(y, p) == at(y, p));
            }
            if one is None {
                let p = choose|p: P| #[trigger] contested(at, base_tree, x, c, p);
                assert(contested(at, base_tree, a, y, p));
            } else if two is None {
                let p = choose|p: P| #[trigger] contested(at, base_tree, a, y, p);
                assert(contested(at, base_tree, x, c, p));
            } else {
                assert forall|p: P| #[trigger] at(one->0, p) == at(two->0, p) by {
                    assert(!contested(at, base_tree, a, b, p));
                    assert(!contested(at, base_tree, b, c, p));
                    assert(!contested(at, base_tree, x, c, p));
                    assert(at(x, p) == at(x, p));
                    assert(at(y, p) == at(y, p));
                    assert(at(two->0, p) == at(two->0, p));
                }
                assert(contents_agree(at, one->0, two->0));
            }
        }
    }

    /// Merging against one base is commutative and associative, conflicts and all, where it goes
    /// place by place.
    pub proof fn law_merging_by_place_commutes<P, C>(
        self,
        at: spec_fn(ObjectId, P) -> Option<C>,
        base_tree: ObjectId,
        trees: spec_fn(ObjectId) -> bool,
    )
        requires
            told_by_contents(at),
            self.merges_by_place(at, base_tree, trees),
        ensures
            crate::laws::commutes_on(self.merge_both(base_tree), crate::laws::none_or(trees)),
    {
        let op = self.merge_both(base_tree);
        let carrier = crate::laws::none_or(trees);
        assert forall|a: Option<ObjectId>, b: Option<ObjectId>|
            carrier(a) && carrier(b) implies carrier(#[trigger] op(a, b)) && op(a, b) == op(b, a) by {
            if a is Some && b is Some {
                self.lemma_merging_commutes(at, base_tree, trees, a->0, b->0);
            }
        }
        assert forall|a: Option<ObjectId>, b: Option<ObjectId>, c: Option<ObjectId>|
            carrier(a) && carrier(b) && carrier(c) implies #[trigger] op(op(a, b), c) == op(
            a,
            op(b, c),
        ) by {
            if a is Some && b is Some && c is Some {
                self.lemma_merging_associates(at, base_tree, trees, a->0, b->0, c->0);
            }
        }
    }

    /// The workspace tree does not depend on the order of the heads where merge bases are unique
    /// and trees merge place by place. The heads conflict in any order or in none, and where they
    /// do not, they merge to the same tree, whether or not heads that conflict would be evicted.
    pub proof fn law_order_is_irrelevant_by_place<P, C>(
        self,
        heads: Seq<ObjectId>,
        reordered: Seq<ObjectId>,
        target: ObjectId,
        ancestor: spec_fn(ObjectId, ObjectId) -> bool,
        commits: spec_fn(ObjectId) -> bool,
        at: spec_fn(ObjectId, P) -> Option<C>,
        trees: spec_fn(ObjectId) -> bool,
    )
        requires
            heads.to_multiset() == reordered.to_multiset(),
            forall|i: int|
                0 <= i < heads.len() ==> commits(#[trigger] heads[i]) && trees(
                    (self.real_tree)(heads[i]),
                ),
            is_ancestry(ancestor, commits),
            self.merge_bases_are_unique(ancestor, commits),
            told_by_contents(at),
            self.merges_by_place(at, (self.real_tree)(self.octopus_base(heads)), trees),
        ensures
            match self.workspace_tree(heads, target, OnConflict::Fail) {
                Ok(tree) => forall|on_conflict: OnConflict| #[trigger]
                    self.workspace_tree(reordered, target, on_conflict) == Ok::<
                        ObjectId,
                        MergeConflict,
                    >(tree),
                Err(_) => self.workspace_tree(reordered, target, OnConflict::Fail) is Err,
            },
    {
        let base_tree = (self.real_tree)(self.octopus_base(heads));
        self.law_unique_merge_bases_commute(ancestor, commits);
        self.law_merging_by_place_commutes(at, base_tree, trees);
        self.law_order_of_heads_is_irrelevant(heads, reordered, target, commits, trees);
    }

    /// Whether `tree` holds at `p` what the base holds where none of `heads` changed that, and
    /// what the heads that changed it hold where some did.
    pub open spec fn follows_heads<P, C>(
        self,
        at: spec_fn(ObjectId, P) -> Option<C>,
        base_tree: ObjectId,
        heads: Seq<ObjectId>,
        tree: ObjectId,
        p: P,
    ) -> bool {
        &&& (forall|i: int|
            0 <= i < heads.len() ==> at((self.real_tree)(#[trigger] heads[i]), p) == at(
                base_tree,
                p,
            )) ==> at(tree, p) == at(base_tree, p)
        &&& forall|i: int|
            0 <= i < heads.len() && at((self.real_tree)(#[trigger] heads[i]), p) != at(base_tree, p)
                ==> at(tree, p) == at((self.real_tree)(heads[i]), p)
    }

    /// Whether two of `heads` changed what is at some place, and differently.
    pub open spec fn heads_contest<P, C>(
        self,
        at: spec_fn(ObjectId, P) -> Option<C>,
        base_tree: ObjectId,
        heads: Seq<ObjectId>,
    ) -> bool {
        exists|i: int, j: int, p: P|
            0 <= i < j < heads.len() && #[trigger] contested(
                at,
                base_tree,
                (self.real_tree)(heads[i]),
                (self.real_tree)(heads[j]),
                p,
            )
    }

    /// Merging heads against one base fails exactly where two of them changed the same place
    /// differently. Otherwise every place holds what the heads that changed it agree on, or what
    /// the base holds if there are none.
    pub proof fn law_merged_by_place<P, C>(
        self,
        at: spec_fn(ObjectId, P) -> Option<C>,
        base_tree: ObjectId,
        heads: Seq<ObjectId>,
        trees: spec_fn(ObjectId) -> bool,
    )
        requires
            heads.len() > 0,
            forall|i: int| 0 <= i < heads.len() ==> trees((self.real_tree)(#[trigger] heads[i])),
            self.merges_by_place(at, base_tree, trees),
        ensures
            match self.merged(base_tree, heads, OnConflict::Fail) {
                Ok(tree) => {
                    &&& trees(tree)
                    &&& !self.heads_contest(at, base_tree, heads)
                    &&& forall|p: P| #[trigger] self.follows_heads(at, base_tree, heads, tree, p)
                },
                Err(_) => self.heads_contest(at, base_tree, heads),
            },
        decreases heads.len(),
    {
        let n = heads.len() - 1;
        assert(trees((self.real_tree)(heads[n])));
        if heads.len() > 1 {
            let before = heads.drop_last();
            assert forall|i: int| 0 <= i < before.len() implies trees(
                (self.real_tree)(#[trigger] before[i]),
            ) by {
                assert(before[i] == heads[i]);
            }
            self.law_merged_by_place(at, base_tree, before, trees);
            match self.merged(base_tree, before, OnConflict::Fail) {
                Err(_) => {
                    let (i, j, p) = choose|i: int, j: int, p: P|
                        0 <= i < j < before.len() && #[trigger] contested(
                            at,
                            base_tree,
                            (self.real_tree)(before[i]),
                            (self.real_tree)(before[j]),
                            p,
                        );
                    assert(contested(
                        at,
                        base_tree,
                        (self.real_tree)(heads[i]),
                        (self.real_tree)(heads[j]),
                        p,
                    ));
                },
                Ok(ours) => self.lemma_merged_one_more(at, base_tree, heads, ours, trees),
            }
        } else {
            let tree = (self.real_tree)(heads[0]);
            assert forall|p: P| #[trigger]
                self.follows_heads(at, base_tree, heads, tree, p) by {
                assert(heads[0] == heads[0]);
            }
        }
    }

    proof fn lemma_merged_one_more<P, C>(
        self,
        at: spec_fn(ObjectId, P) -> Option<C>,
        base_tree: ObjectId,
        heads: Seq<ObjectId>,
        ours: ObjectId,
        trees: spec_fn(ObjectId) -> bool,
    )
        requires
            heads.len() > 1,
            trees(ours),
            trees((self.real_tree)(heads.last())),
            self.merges_by_place(at, base_tree, trees),
            !self.heads_contest(at, base_tree, heads.drop_last()),
            forall|p: P| #[trigger]
                self.follows_heads(at, base_tree, heads.drop_last(), ours, p),
        ensures
            match (self.merge)(base_tree, ours, (self.real_tree)(heads.last())) {
                Some(tree) => {
                    &&& !self.heads_contest(at, base_tree, heads)
                    &&& forall|p: P| #[trigger] self.follows_heads(at, base_tree, heads, tree, p)
                },
                None => self.heads_contest(at, base_tree, heads),
            },
    {
        let before = heads.drop_last();
        let n = heads.len() - 1;
        let theirs = (self.real_tree)(heads.last());
        match (self.merge)(base_tree, ours, theirs) {
            None => {
                let p = choose|p: P| #[trigger] contested(at, base_tree, ours, theirs, p);
                assert(self.follows_heads(at, base_tree, before, ours, p));
                let i = choose|i: int|
                    0 <= i < before.len() && at((self.real_tree)(#[trigger] before[i]), p) != at(
                        base_tree,
                        p,
                    );
                assert(before[i] == heads[i]);
                assert(contested(
                    at,
                    base_tree,
                    (self.real_tree)(heads[i]),
                    (self.real_tree)(heads[n]),
                    p,
                ));
            },
            Some(tree) => {
                assert forall|p: P| #[trigger]
                    self.follows_heads(at, base_tree, heads, tree, p) by {
                    assert(self.follows_heads(at, base_tree, before, ours, p));
                    assert(!contested(at, base_tree, ours, theirs, p));
                    assert(at(tree, p) == at(tree, p));
                    assert(heads[n] == heads.last());
                    assert forall|i: int|
                        0 <= i < heads.len() && at((self.real_tree)(#[trigger] heads[i]), p) != at(
                            base_tree,
                            p,
                        ) implies at(tree, p) == at((self.real_tree)(heads[i]), p) by {
                        if i < n {
                            assert(before[i] == heads[i]);
                        }
                    }
                    if forall|i: int|
                        0 <= i < heads.len() ==> at((self.real_tree)(#[trigger] heads[i]), p) == at(
                            base_tree,
                            p,
                        ) {
                        assert forall|i: int| 0 <= i < before.len() implies at(
                            (self.real_tree)(#[trigger] before[i]),
                            p,
                        ) == at(base_tree, p) by {
                            assert(before[i] == heads[i]);
                        }
                    }
                }
                assert forall|i: int, j: int, p: P| 0 <= i < j < heads.len() implies !#[trigger]
                contested(
                    at,
                    base_tree,
                    (self.real_tree)(heads[i]),
                    (self.real_tree)(heads[j]),
                    p,
                ) by {
                    assert(self.follows_heads(at, base_tree, heads, tree, p));
                }
            },
        }
    }

    proof fn lemma_kept_are_heads(
        self,
        base_tree: ObjectId,
        heads: Seq<ObjectId>,
        holds: spec_fn(ObjectId) -> bool,
    )
        requires
            forall|i: int| 0 <= i < heads.len() ==> holds(#[trigger] heads[i]),
        ensures
            forall|i: int|
                0 <= i < self.kept(base_tree, heads).len() ==> holds(
                    #[trigger] self.kept(base_tree, heads)[i],
                ),
        decreases heads.len(),
    {
        if heads.len() > 0 {
            let before = heads.drop_last();
            assert forall|i: int| 0 <= i < before.len() implies holds(#[trigger] before[i]) by {
                assert(before[i] == heads[i]);
            }
            self.lemma_kept_are_heads(base_tree, before, holds);
            assert(holds(heads[heads.len() - 1]));
            assert forall|i: int| 0 <= i < self.kept(base_tree, heads).len() implies holds(
                #[trigger] self.kept(base_tree, heads)[i],
            ) by {
                if i < self.kept(base_tree, before).len() {
                    assert(holds(self.kept(base_tree, before)[i]));
                }
            }
        }
    }

    /// A workspace merges exactly where no two of its heads changed the same place differently,
    /// and its tree then holds at every place what the heads that changed it agree on, or what
    /// their common base holds if there are none. Where heads are evicted, that holds of those
    /// that are kept.
    pub proof fn law_workspace_tree_by_place<P, C>(
        self,
        at: spec_fn(ObjectId, P) -> Option<C>,
        heads: Seq<ObjectId>,
        target: ObjectId,
        trees: spec_fn(ObjectId) -> bool,
    )
        requires
            heads.len() > 0,
            forall|i: int| 0 <= i < heads.len() ==> trees((self.real_tree)(#[trigger] heads[i])),
            self.merges_by_place(at, (self.real_tree)(self.octopus_base(heads)), trees),
        ensures
            ({
                let base_tree = (self.real_tree)(self.octopus_base(heads));
                let kept = self.kept(base_tree, heads);
                &&& match self.workspace_tree(heads, target, OnConflict::Fail) {
                    Ok(tree) => {
                        &&& !self.heads_contest(at, base_tree, heads)
                        &&& forall|p: P| #[trigger]
                            self.follows_heads(at, base_tree, heads, tree, p)
                    },
                    Err(_) => self.heads_contest(at, base_tree, heads),
                }
                &&& match self.workspace_tree(heads, target, OnConflict::Evict) {
                    Ok(tree) => {
                        &&& !self.heads_contest(at, base_tree, kept)
                        &&& forall|p: P| #[trigger]
                            self.follows_heads(at, base_tree, kept, tree, p)
                    },
                    Err(_) => false,
                }
            }),
    {
        let base_tree = (self.real_tree)(self.octopus_base(heads));
        let kept = self.kept(base_tree, heads);
        let holds = |head: ObjectId| trees((self.real_tree)(head));
        self.law_merged_by_place(at, base_tree, heads, trees);
        self.law_evicting_does_not_fail(base_tree, heads);
        self.law_evicted_heads_leave_no_trace(base_tree, heads);
        assert forall|i: int| 0 <= i < heads.len() implies holds(#[trigger] heads[i]) by {}
        self.lemma_kept_are_heads(base_tree, heads, holds);
        assert forall|i: int| 0 <= i < kept.len() implies trees(
            (self.real_tree)(#[trigger] kept[i]),
        ) by {
            assert(holds(kept[i]));
        }
        self.law_merged_by_place(at, base_tree, kept, trees);
    }
}

} // verus!
