use gitbutler_workspace::action::{Action, Event};
use gitbutler_workspace::branch_trees::{merge_workspace, WorkspaceState};
use gitbutler_workspace::object_id::ObjectId;
use gitbutler_workspace::octopus::{MergeConflict, Octopus, OnConflict};

/// A commit that holds a set of files, one for each bit.
fn commit(files: u32) -> ObjectId {
    ObjectId {
        leading: 1,
        trailing: files,
    }
}

/// The tree with these files.
fn tree(files: u32) -> ObjectId {
    ObjectId {
        leading: 2,
        trailing: files,
    }
}

/// A file that does not merge with `THEIRS`.
const OURS: u32 = 0x100;
const THEIRS: u32 = 0x200;

/// Adds and removes what was added and removed on either side.
fn merged(base: ObjectId, ours: ObjectId, theirs: ObjectId) -> u32 {
    let (base, ours, theirs) = (base.trailing, ours.trailing, theirs.trailing);
    (ours & theirs) | (ours & !base) | (theirs & !base)
}

/// Answers from a repository whose commits share the files that they have in common.
fn answer(action: Action) -> Event {
    match action {
        Action::MergeBase { one, two } => Event::Id(commit(one.trailing & two.trailing)),
        Action::RealTree { commit } => Event::Id(tree(commit.trailing)),
        Action::MergeOptions => Event::Done,
        Action::MergeTrees { base, ours, theirs } => {
            let files = merged(base, ours, theirs);
            Event::Flag(files & OURS != 0 && files & THEIRS != 0)
        }
        Action::WriteMerge { base, ours, theirs } => Event::Id(tree(merged(base, ours, theirs))),
        Action::Evict { .. } => Event::Done,
        other => panic!("unexpected action: {other:?}"),
    }
}

/// What a merge ended with, and what it asked for on the way.
fn run(mut merge: Octopus) -> (Result<ObjectId, MergeConflict>, Vec<Action>) {
    let mut asked = Vec::new();
    while let Some(action) = merge.action() {
        assert!(merge.outcome().is_none());
        asked.push(action);
        merge = merge.answer(answer(action));
    }
    (merge.outcome().expect("the merge has ended"), asked)
}

fn heads(files: &[u32]) -> Vec<ObjectId> {
    files.iter().map(|files| commit(*files)).collect()
}

fn merge(files: &[u32], on_conflict: OnConflict) -> Result<ObjectId, MergeConflict> {
    run(Octopus::new(heads(files), commit(0x80), on_conflict)).0
}

#[test]
fn all_heads_are_merged_against_one_base() {
    let workspace = WorkspaceState::from_heads_and_target(
        &heads(&[0b0011, 0b0101, 0b1001]),
        commit(0x80),
    );
    let (outcome, asked) = run(merge_workspace(&workspace));
    assert_eq!(outcome, Ok(tree(0b1111)));
    assert_eq!(
        asked,
        vec![
            Action::MergeBase {
                one: commit(0b0011),
                two: commit(0b0101)
            },
            Action::MergeBase {
                one: commit(0b0001),
                two: commit(0b1001)
            },
            Action::RealTree {
                commit: commit(0b0001)
            },
            Action::MergeOptions,
            Action::RealTree {
                commit: commit(0b0011)
            },
            Action::RealTree {
                commit: commit(0b0101)
            },
            Action::MergeTrees {
                base: tree(0b0001),
                ours: tree(0b0011),
                theirs: tree(0b0101)
            },
            Action::WriteMerge {
                base: tree(0b0001),
                ours: tree(0b0011),
                theirs: tree(0b0101)
            },
            Action::RealTree {
                commit: commit(0b1001)
            },
            Action::MergeTrees {
                base: tree(0b0001),
                ours: tree(0b0111),
                theirs: tree(0b1001)
            },
            Action::WriteMerge {
                base: tree(0b0001),
                ours: tree(0b0111),
                theirs: tree(0b1001)
            },
        ]
    );
}

#[test]
fn one_head_merges_to_its_own_tree() {
    for on_conflict in [OnConflict::Fail, OnConflict::Evict] {
        let (outcome, asked) = run(Octopus::new(heads(&[0b11]), commit(0x80), on_conflict));
        assert_eq!(outcome, Ok(tree(0b11)));
        assert_eq!(
            asked,
            vec![
                Action::RealTree {
                    commit: commit(0b11)
                },
                Action::MergeOptions,
                Action::RealTree {
                    commit: commit(0b11)
                },
            ]
        );
    }
}

#[test]
fn no_heads_merge_to_the_tree_of_the_target() {
    let target_tree = Action::RealTree {
        commit: commit(0x80),
    };
    let (outcome, asked) = run(Octopus::new(Vec::new(), commit(0x80), OnConflict::Fail));
    assert_eq!(outcome, Ok(tree(0x80)));
    assert_eq!(asked, vec![target_tree]);

    let (outcome, asked) = run(Octopus::new(Vec::new(), commit(0x80), OnConflict::Evict));
    assert_eq!(outcome, Ok(tree(0x80)));
    assert_eq!(asked, vec![Action::MergeOptions, target_tree]);
}

#[test]
fn the_target_is_not_merged() {
    for on_conflict in [OnConflict::Fail, OnConflict::Evict] {
        let one = run(Octopus::new(heads(&[0b11, 0b101]), commit(0x80), on_conflict));
        let other = run(Octopus::new(heads(&[0b11, 0b101]), commit(0x40), on_conflict));
        assert_eq!(one, other);
    }
}

#[test]
fn a_head_in_conflict_fails_the_merge() {
    let outcome = merge(&[OURS | 1, 0b11, THEIRS | 1, 0b101], OnConflict::Fail);
    assert_eq!(outcome, Err(MergeConflict { head: 2 }));
    assert_eq!(
        outcome.unwrap_err().message(),
        "merge conflict when computing workspace tree"
    );
}

#[test]
fn an_evicted_head_leaves_no_trace() {
    let (outcome, asked) = run(Octopus::new(
        heads(&[OURS | 1, 0b11, THEIRS | 0b1001, 0b101]),
        commit(0x80),
        OnConflict::Evict,
    ));
    assert_eq!(outcome, Ok(tree(OURS | 0b111)));
    assert!(asked.contains(&Action::Evict { head: 2 }));
    // What is behind the evicted head is merged with what was in front of it.
    assert_eq!(
        asked.last(),
        Some(&Action::WriteMerge {
            base: tree(1),
            ours: tree(OURS | 0b11),
            theirs: tree(0b101)
        })
    );
    // The evicted head still takes part in the shared base.
    assert_eq!(
        merge(&[OURS | 0b11, THEIRS, 0b10], OnConflict::Evict),
        Ok(tree(OURS | 0b11))
    );
}

#[test]
fn the_policies_agree_where_nothing_conflicts() {
    for files in [&[0b11][..], &[0b11, 0b101], &[OURS, 0b11, 0b110], &[]] {
        assert_eq!(
            merge(files, OnConflict::Fail),
            merge(files, OnConflict::Evict)
        );
    }
}

#[test]
fn heads_merge_exactly_where_none_is_evicted() {
    for files in [
        &[0b11, 0b101][..],
        &[OURS, THEIRS],
        &[OURS, 0b11, THEIRS, 0b1],
        &[THEIRS, 0b1, 0b11],
    ] {
        let (_, asked) = run(Octopus::new(heads(files), commit(0x80), OnConflict::Evict));
        let evicts = asked
            .iter()
            .any(|action| matches!(action, Action::Evict { .. }));
        assert_eq!(merge(files, OnConflict::Fail).is_ok(), !evicts);
    }
}

#[test]
fn every_file_is_as_the_heads_that_changed_it_have_it() {
    // The base is 0b1001: two heads add the same file, one changes nothing.
    let outcome = merge(&[0b1011, 0b1011, 0b1001, 0b1101], OnConflict::Fail);
    assert_eq!(outcome, Ok(tree(0b1111)));
}

#[test]
fn the_order_of_the_heads_is_irrelevant() {
    for files in [
        [0b0111, 0b1011, 0b0011],
        [0b0111, 0b0011, 0b1011],
        [0b1011, 0b0111, 0b0011],
        [0b1011, 0b0011, 0b0111],
        [0b0011, 0b0111, 0b1011],
        [0b0011, 0b1011, 0b0111],
    ] {
        assert_eq!(merge(&files, OnConflict::Fail), Ok(tree(0b1111)));
    }
}

#[test]
fn what_a_head_holds_survives_and_nothing_else_appears() {
    let files = [0b0011, 0b0101, 0b1001];
    let merged = merge(&files, OnConflict::Fail).expect("nothing conflicts");
    assert_eq!(merged.trailing, 0b0011 | 0b0101 | 0b1001);
}

#[test]
fn an_event_that_is_no_answer_changes_nothing() {
    let mut merge = Octopus::new(heads(&[OURS, 0b11, THEIRS]), commit(0x80), OnConflict::Evict);
    let mut steps = 0;
    while let Some(action) = merge.action() {
        merge = merge.answer(Event::Ids(Vec::new()));
        assert_eq!(merge.action(), Some(action));
        merge = merge.answer(Event::MaybeId(None));
        assert_eq!(merge.action(), Some(action));
        merge = match answer(action) {
            Event::Done => merge.answer(Event::Flag(true)),
            _ => merge.answer(Event::Done),
        };
        assert_eq!(merge.action(), Some(action));
        merge = merge.answer(answer(action));
        steps += 1;
    }
    assert_eq!(steps, 11);
    assert_eq!(merge.outcome(), Some(Ok(tree(OURS | 0b11))));
    merge = merge.answer(Event::Id(tree(0)));
    assert_eq!(merge.outcome(), Some(Ok(tree(OURS | 0b11))));
}
