use gitbutler_workspace::action::{Action, Event};
use gitbutler_workspace::branch_trees::{
    move_tree, move_tree_has_conflicts, update_uncommitted_changes,
    update_uncommitted_changes_with_tree, ConflictCheck, Snapshot, Update, WorkspaceState,
};
use gitbutler_workspace::object_id::ObjectId;
use gitbutler_workspace::octopus::MergeConflict;

fn id(number: u32) -> ObjectId {
    ObjectId {
        leading: 0,
        trailing: number,
    }
}

const OLD_HEAD: u32 = 1;
const NEW_HEAD: u32 = 2;
const TARGET: u32 = 3;
const WORKTREE: u32 = 4;
const MOVED: u32 = 5;

/// The tree of a commit.
fn tree_of(commit: ObjectId) -> ObjectId {
    id(100 + commit.trailing)
}

/// What comes of merging trees.
#[derive(Clone, Copy)]
struct Merges {
    /// Heads do not merge with one another.
    heads_conflict: bool,
    /// The uncommitted changes do not move to the new workspace.
    index_conflicts: bool,
    /// What they are once they are moved.
    moved: u32,
}

const CLEAN: Merges = Merges {
    heads_conflict: false,
    index_conflicts: false,
    moved: MOVED,
};

fn answer(action: Action, merges: Merges) -> Event {
    match action {
        Action::OpenRepository | Action::OpenForMerging | Action::OpenForCheckout => Event::Done,
        Action::WorktreeTree { limit } => {
            assert_eq!(limit, 0);
            Event::Id(id(WORKTREE))
        }
        Action::MergeBase { .. } => Event::Id(id(TARGET)),
        Action::RealTree { commit } => Event::Id(tree_of(commit)),
        Action::MergeOptions => Event::Done,
        Action::MergeTrees { .. } => Event::Flag(merges.heads_conflict),
        Action::WriteMerge { .. } => Event::Id(id(MOVED)),
        Action::MergeIndex { .. } => Event::Flag(merges.index_conflicts),
        Action::WriteIndex { .. } => Event::Id(id(merges.moved)),
        Action::CheckoutIndex { .. } | Action::SafeCheckout { .. } => Event::Done,
        Action::WorkspaceTarget => Event::Id(id(TARGET)),
        Action::WorkspaceHeads { target } => {
            assert_eq!(target, id(TARGET));
            Event::Ids(vec![id(OLD_HEAD), id(NEW_HEAD)])
        }
        other => panic!("unexpected action: {other:?}"),
    }
}

fn run(mut update: Update, merges: Merges) -> (Result<(), MergeConflict>, Vec<Action>) {
    let mut asked = Vec::new();
    while let Some(action) = update.action() {
        assert!(update.outcome().is_none());
        asked.push(action);
        update = update.answer(answer(action, merges));
    }
    (update.outcome().expect("the update has ended"), asked)
}

fn workspace(heads: &[u32]) -> WorkspaceState {
    let heads: Vec<ObjectId> = heads.iter().map(|head| id(*head)).collect();
    WorkspaceState::from_heads_and_target(&heads, id(TARGET))
}

fn with_tree(
    worktree: Option<u32>,
    always_checkout: Option<bool>,
    merges: Merges,
) -> (Result<(), MergeConflict>, Vec<Action>) {
    let update = update_uncommitted_changes_with_tree(
        workspace(&[OLD_HEAD]),
        workspace(&[NEW_HEAD]),
        worktree.map(id),
        always_checkout,
    );
    run(update, merges)
}

/// What an update asks for to merge the two workspaces.
fn both_merges() -> Vec<Action> {
    let one = |head: u32| {
        let tree = Action::RealTree { commit: id(head) };
        [tree, Action::MergeOptions, tree]
    };
    [one(OLD_HEAD), one(NEW_HEAD)].concat()
}

fn merge_index() -> Action {
    Action::MergeIndex {
        ancestor: tree_of(id(OLD_HEAD)),
        ours: id(WORKTREE),
        theirs: tree_of(id(NEW_HEAD)),
        favor_ours: true,
    }
}

fn write_index() -> Action {
    Action::WriteIndex {
        ancestor: tree_of(id(OLD_HEAD)),
        ours: id(WORKTREE),
        theirs: tree_of(id(NEW_HEAD)),
        favor_ours: true,
    }
}

const CHECKOUT_INDEX: Action = Action::CheckoutIndex {
    force: true,
    remove_untracked: true,
    conflict_style_diff3: true,
};

/// What an update that moves a tree asks for, if `last` is how it ends.
fn moving(last: &[Action]) -> Vec<Action> {
    let mut asked = vec![Action::OpenForMerging, Action::OpenForCheckout];
    asked.extend(both_merges());
    asked.push(merge_index());
    asked.extend_from_slice(last);
    asked
}

#[test]
fn moved_changes_are_checked_out() {
    for always_checkout in [None, Some(false)] {
        let (outcome, asked) = with_tree(Some(WORKTREE), always_checkout, CLEAN);
        assert_eq!(outcome, Ok(()));
        assert_eq!(asked, moving(&[write_index(), CHECKOUT_INDEX]));
    }
}

#[test]
fn unchanged_changes_are_not_checked_out() {
    let unchanged = Merges {
        moved: WORKTREE,
        ..CLEAN
    };
    for always_checkout in [None, Some(false)] {
        let (outcome, asked) = with_tree(Some(WORKTREE), always_checkout, unchanged);
        assert_eq!(outcome, Ok(()));
        assert_eq!(asked, moving(&[write_index()]));
    }
}

#[test]
fn unchanged_changes_are_checked_out_on_request() {
    let unchanged = Merges {
        moved: WORKTREE,
        ..CLEAN
    };
    let (outcome, asked) = with_tree(Some(WORKTREE), Some(true), unchanged);
    assert_eq!(outcome, Ok(()));
    assert_eq!(asked, moving(&[CHECKOUT_INDEX]));
}

#[test]
fn changes_in_conflict_are_checked_out_without_writing_a_tree() {
    let conflicts = Merges {
        index_conflicts: true,
        ..CLEAN
    };
    for always_checkout in [None, Some(false), Some(true)] {
        let (outcome, asked) = with_tree(Some(WORKTREE), always_checkout, conflicts);
        assert_eq!(outcome, Ok(()));
        assert_eq!(asked, moving(&[CHECKOUT_INDEX]));
    }
}

#[test]
fn without_a_tree_the_checkout_is_safe() {
    for always_checkout in [None, Some(false), Some(true)] {
        let (outcome, asked) = with_tree(None, always_checkout, CLEAN);
        assert_eq!(outcome, Ok(()));
        let mut expected = vec![Action::OpenForMerging];
        expected.extend(both_merges());
        expected.push(Action::SafeCheckout {
            from: tree_of(id(OLD_HEAD)),
            to: tree_of(id(NEW_HEAD)),
        });
        assert_eq!(asked, expected);
    }
}

#[test]
fn the_worktree_is_written_to_a_tree_unless_the_changes_stay_in_place() {
    let update =
        update_uncommitted_changes(false, workspace(&[OLD_HEAD]), workspace(&[NEW_HEAD]));
    let (outcome, asked) = run(update, CLEAN);
    assert_eq!(outcome, Ok(()));
    let mut expected = vec![Action::OpenRepository, Action::WorktreeTree { limit: 0 }];
    expected.extend(with_tree(Some(WORKTREE), None, CLEAN).1);
    assert_eq!(asked, expected);

    let update = update_uncommitted_changes(true, workspace(&[OLD_HEAD]), workspace(&[NEW_HEAD]));
    let (outcome, asked) = run(update, CLEAN);
    assert_eq!(outcome, Ok(()));
    let mut expected = vec![Action::OpenRepository];
    expected.extend(with_tree(None, None, CLEAN).1);
    assert_eq!(asked, expected);
}

#[test]
fn a_workspace_that_does_not_merge_is_not_checked_out() {
    let conflicts = Merges {
        heads_conflict: true,
        ..CLEAN
    };
    let both = [OLD_HEAD, NEW_HEAD];
    for (old, new) in [(&both[..], &both[..1]), (&both[..1], &both[..])] {
        for worktree in [None, Some(id(WORKTREE))] {
            let update = update_uncommitted_changes_with_tree(
                workspace(old),
                workspace(new),
                worktree,
                Some(true),
            );
            let (outcome, asked) = run(update, conflicts);
            assert_eq!(outcome, Err(MergeConflict { head: 1 }));
            assert_eq!(
                outcome.unwrap_err().message(),
                "merge conflict when computing workspace tree"
            );
            assert!(matches!(asked.last(), Some(Action::MergeTrees { .. })));
        }
    }
}

#[test]
fn an_event_that_is_no_answer_leaves_an_update_as_it_is() {
    let mut update =
        update_uncommitted_changes(false, workspace(&[OLD_HEAD]), workspace(&[NEW_HEAD]));
    while let Some(action) = update.action() {
        update = update.answer(Event::MaybeId(Some(id(WORKTREE))));
        assert_eq!(update.action(), Some(action));
        update = match answer(action, CLEAN) {
            Event::Done => update.answer(Event::Id(id(WORKTREE))),
            _ => update.answer(Event::Done),
        };
        assert_eq!(update.action(), Some(action));
        update = update.answer(answer(action, CLEAN));
    }
    assert_eq!(update.outcome(), Some(Ok(())));
    assert_eq!(update.answer(Event::Done).outcome(), Some(Ok(())));
}

fn take(mut snapshot: Snapshot) -> (WorkspaceState, Vec<Action>) {
    let mut asked = Vec::new();
    loop {
        snapshot = match snapshot.finish() {
            Ok(state) => return (state, asked),
            Err(snapshot) => snapshot,
        };
        let action = snapshot.action().expect("there is something to be done");
        asked.push(action);
        snapshot = snapshot
            .answer(Event::Flag(false))
            .answer(answer(action, CLEAN));
    }
}

#[test]
fn a_snapshot_holds_the_heads_and_the_target() {
    let (state, asked) = take(WorkspaceState::create());
    assert_eq!(
        format!("{state:?}"),
        format!("{:?}", workspace(&[OLD_HEAD, NEW_HEAD]))
    );
    assert_eq!(
        asked,
        vec![
            Action::OpenRepository,
            Action::WorkspaceTarget,
            Action::WorkspaceHeads { target: id(TARGET) },
        ]
    );
}

#[test]
fn a_snapshot_from_heads_asks_for_the_target_only() {
    let (state, asked) = take(WorkspaceState::create_from_heads(&[id(9)]));
    assert_eq!(format!("{state:?}"), format!("{:?}", workspace(&[9])));
    assert_eq!(asked, vec![Action::WorkspaceTarget]);
}

#[test]
fn a_tree_moves_from_the_old_workspace_onto_the_new_one() {
    assert_eq!(
        move_tree(id(1), id(2), id(3)),
        Action::MergeIndex {
            ancestor: id(2),
            ours: id(1),
            theirs: id(3),
            favor_ours: true
        }
    );
}

#[test]
fn a_conflict_check_tells_what_the_merge_tells() {
    for conflicts in [false, true] {
        let check = move_tree_has_conflicts(id(1), id(2), id(3));
        assert_eq!(check.next_action(), Some(Action::OpenForCheckout));
        assert_eq!(check.answer(Event::Flag(conflicts)), check);
        let check = check.answer(Event::Done);
        assert_eq!(check.next_action(), Some(move_tree(id(1), id(2), id(3))));
        assert_eq!(check.answer(Event::Done), check);
        let check = check.answer(Event::Flag(conflicts));
        assert_eq!(check, ConflictCheck::Finished { conflicts });
        assert_eq!(check.next_action(), None);
    }
}
