use gitbutler_workspace::action::{Action, Event, Stack};
use gitbutler_workspace::conflict::{ContentMerge, TreatAsUnresolved, TreeMerge};
use gitbutler_workspace::head::{
    merge_worktree_with_workspace, remerged_workspace_commit_v2, remerged_workspace_tree_v2,
    Remerged, WorkspaceCommit, WORKSPACE_HEAD,
};
use gitbutler_workspace::object_id::ObjectId;

fn id(number: u32) -> ObjectId {
    ObjectId {
        leading: 0,
        trailing: number,
    }
}

const TARGET: u32 = 1000;
const COMMIT: u32 = 2000;
const WORKTREE: u32 = 3000;
const HEAD_TREE: u32 = 4000;

/// The head of a stack.
fn head_of(stack: u128) -> ObjectId {
    id(stack as u32)
}

/// The tree of a commit.
fn tree_of(commit: ObjectId) -> ObjectId {
    id(10_000 + commit.trailing)
}

/// What is stored of a project.
struct Project {
    stacks: Vec<Stack>,
    /// Stacks that conflict with any other.
    conflicting: Vec<u128>,
    /// Stacks whose head cannot be found a second time.
    lost: Vec<u128>,
    target: u32,
    asked: Vec<Action>,
}

fn project(stacks: &[u128], conflicting: &[u128], lost: &[u128]) -> Project {
    Project {
        stacks: stacks
            .iter()
            .map(|id| Stack {
                id: *id,
                in_workspace: true,
            })
            .collect(),
        conflicting: conflicting.to_vec(),
        lost: lost.to_vec(),
        target: TARGET,
        asked: Vec::new(),
    }
}

impl Project {
    fn answer(&mut self, action: Action) -> Event {
        self.asked.push(action);
        match action {
            Action::OpenForMerging | Action::MergeOptions => Event::Done,
            Action::DefaultTarget => Event::Id(id(self.target)),
            Action::ListStacks => Event::Stacks(self.stacks.clone()),
            Action::StackHead { stack } => Event::Id(head_of(stack)),
            Action::StackHeadIfAny { stack } if self.lost.contains(&stack) => Event::MaybeId(None),
            Action::StackHeadIfAny { stack } => Event::MaybeId(Some(head_of(stack))),
            Action::MergeBase { .. } => Event::Id(id(TARGET)),
            Action::RealTree { commit } => Event::Id(tree_of(commit)),
            Action::MergeTrees { theirs, .. } => {
                let conflicts = |stack: &u128| tree_of(head_of(*stack)) == theirs;
                Event::Flag(self.conflicting.iter().any(conflicts))
            }
            // Whatever merges cleanly merges to what it adds to.
            Action::WriteMerge { ours, theirs, .. } => {
                Event::Id(id(ours.trailing + 100_000 * (theirs.trailing - 10_000)))
            }
            Action::StoreStack { stored } => {
                for stack in &mut self.stacks {
                    if stack.id == stored.id {
                        *stack = stored;
                    }
                }
                Event::Done
            }
            Action::CommitWorkspace { .. } => Event::Id(id(COMMIT)),
            Action::Head | Action::MergeOptionsNoRewrites | Action::MergeWorktree { .. } => {
                Event::Done
            }
            Action::WorktreeTree { limit } => {
                assert_eq!(limit, 0);
                Event::Id(id(WORKTREE))
            }
            Action::CommitTree { commit } => Event::Id(tree_of(commit)),
            Action::HeadTree => Event::Id(id(HEAD_TREE)),
            other => panic!("unexpected action: {other:?}"),
        }
    }

    fn remerge(&mut self) -> Remerged {
        let mut run = remerged_workspace_tree_v2();
        loop {
            run = match run.finish() {
                Ok(remerged) => return remerged,
                Err(run) => run,
            };
            let action = run.action().expect("there is something to be done");
            run = run
                .answer(Event::Ids(Vec::new()))
                .answer(self.answer(action));
        }
    }

    fn commit(&mut self) -> WorkspaceCommit {
        let mut run = remerged_workspace_commit_v2();
        while let Some(action) = run.action() {
            assert_eq!(run.outcome(), None);
            run = run
                .answer(Event::Ids(Vec::new()))
                .answer(self.answer(action));
        }
        run
    }

    fn parents(&mut self) -> Vec<ObjectId> {
        let run = self.commit();
        run.parents().expect("the parents are known").clone()
    }

    fn stored(&self) -> Vec<Action> {
        let mut stored = self.asked.clone();
        stored.retain(|action| matches!(action, Action::StoreStack { .. }));
        stored
    }
}

fn out(id: u128) -> Stack {
    Stack {
        id,
        in_workspace: false,
    }
}

fn applied(id: u128) -> Stack {
    Stack {
        id,
        in_workspace: true,
    }
}

#[test]
fn stacks_in_conflict_are_taken_out_of_the_workspace() {
    let mut project = project(&[1, 2, 3, 4], &[2, 4], &[]);
    let remerged = project.remerge();
    let expected = vec![applied(1), out(2), applied(3), out(4)];
    assert_eq!(remerged.stacks, expected);
    assert_eq!(remerged.target, id(TARGET));
    assert_eq!(remerged.tree, id(10_001 + 300_000));
    assert_eq!(
        project.stored(),
        vec![
            Action::StoreStack { stored: out(2) },
            Action::StoreStack { stored: out(4) },
        ]
    );
    assert_eq!(project.stacks, expected);
}

#[test]
fn the_first_stack_stays_in_the_workspace() {
    let mut project = project(&[1, 2, 3], &[1, 2, 3], &[]);
    let remerged = project.remerge();
    assert_eq!(remerged.stacks, vec![applied(1), out(2), out(3)]);
    assert_eq!(remerged.tree, tree_of(head_of(1)));
}

#[test]
fn heads_are_found_before_anything_is_merged() {
    let mut project = project(&[1, 2], &[2], &[]);
    project.remerge();
    assert_eq!(
        project.asked,
        vec![
            Action::DefaultTarget,
            Action::ListStacks,
            Action::StackHead { stack: 1 },
            Action::StackHead { stack: 2 },
            Action::MergeBase {
                one: head_of(1),
                two: head_of(2)
            },
            Action::RealTree { commit: id(TARGET) },
            Action::MergeOptions,
            Action::RealTree { commit: head_of(1) },
            Action::RealTree { commit: head_of(2) },
            Action::MergeTrees {
                base: tree_of(id(TARGET)),
                ours: tree_of(head_of(1)),
                theirs: tree_of(head_of(2))
            },
            Action::StoreStack { stored: out(2) },
        ]
    );
}

#[test]
fn without_stacks_the_workspace_is_the_target() {
    let mut project = project(&[], &[], &[]);
    let remerged = project.remerge();
    assert_eq!(remerged.tree, tree_of(id(TARGET)));
    assert_eq!(remerged.stacks, Vec::new());
    assert_eq!(remerged.target, id(TARGET));
    assert_eq!(
        project.asked,
        vec![
            Action::DefaultTarget,
            Action::ListStacks,
            Action::MergeOptions,
            Action::RealTree { commit: id(TARGET) },
        ]
    );
    assert_eq!(project.parents(), vec![id(TARGET)]);
}

#[test]
fn the_workspace_commit_has_the_heads_that_are_left_as_parents() {
    let mut project = project(&[1, 2, 3], &[2], &[]);
    let run = project.commit();
    assert_eq!(run.outcome(), Some(id(COMMIT)));
    assert_eq!(run.parents(), Some(&vec![head_of(1), head_of(3)]));
    assert_eq!(project.asked[0], Action::OpenForMerging);
    assert_eq!(
        project.asked[project.asked.len() - 3..],
        [
            Action::StackHeadIfAny { stack: 1 },
            Action::StackHeadIfAny { stack: 3 },
            Action::CommitWorkspace {
                tree: id(10_001 + 300_000)
            },
        ]
    );
    assert_eq!(run.message(), "Workspace Head");
    assert_eq!(WORKSPACE_HEAD, "Workspace Head");
}

#[test]
fn stacks_that_are_not_in_the_workspace_are_no_parents() {
    let mut project = project(&[1, 2], &[], &[]);
    project.stacks[1].in_workspace = false;
    assert_eq!(project.parents(), vec![head_of(1)]);
}

#[test]
fn heads_that_cannot_be_found_are_no_parents() {
    assert_eq!(
        project(&[1, 2, 3], &[], &[1, 3]).parents(),
        vec![head_of(2)]
    );
    // The target is the parent if no head is left.
    assert_eq!(
        project(&[1, 2], &[2], &[1]).parents(),
        vec![id(TARGET)]
    );
}

#[test]
fn the_worktree_is_merged_with_the_workspace_on_top_of_head() {
    let mut project = project(&[1, 2], &[], &[]);
    let by_git = TreatAsUnresolved {
        content_merge: ContentMerge::Markers,
        tree_merge: TreeMerge::EvasiveRenames,
    };
    let mut run = merge_worktree_with_workspace();
    let mut parents = None;
    assert_eq!(run.message(), "Workspace Head");
    while let Some(action) = run.action() {
        assert_eq!(run.outcome(), None);
        if matches!(action, Action::CommitWorkspace { .. }) {
            parents = run.parents().cloned();
        }
        run = run
            .answer(Event::Ids(Vec::new()))
            .answer(project.answer(action));
    }
    assert_eq!(run.outcome(), Some(by_git));
    assert_eq!(project.stored(), Vec::new());
    assert_eq!(parents, Some(vec![head_of(1), head_of(2)]));
    assert_eq!(
        project.asked[..3],
        [
            Action::Head,
            Action::WorktreeTree { limit: 0 },
            Action::OpenForMerging,
        ]
    );
    assert_eq!(
        project.asked[project.asked.len() - 5..],
        [
            Action::CommitWorkspace {
                tree: id(10_001 + 200_000)
            },
            Action::CommitTree { commit: id(COMMIT) },
            Action::MergeOptionsNoRewrites,
            Action::HeadTree,
            Action::MergeWorktree {
                base: id(HEAD_TREE),
                ours: id(WORKTREE),
                theirs: tree_of(id(COMMIT)),
                fail_on: by_git
            },
        ]
    );
}

#[test]
fn every_run_that_merges_the_stacks_stores_those_it_takes_out() {
    let expected = vec![
        Action::StoreStack { stored: out(2) },
        Action::StoreStack { stored: out(3) },
    ];
    let mut by_commit = project(&[1, 2, 3, 4], &[2, 3], &[]);
    by_commit.commit();
    assert_eq!(by_commit.stored(), expected);

    let mut by_merge = project(&[1, 2, 3, 4], &[2, 3], &[]);
    let mut run = merge_worktree_with_workspace();
    while let Some(action) = run.action() {
        run = run.answer(by_merge.answer(action));
    }
    assert_eq!(by_merge.stored(), expected);
}

#[test]
fn evicted_stacks_do_not_come_back_as_parents() {
    let mut project = project(&[1, 2, 3], &[2], &[]);
    let first = project.parents();
    assert_eq!(first, vec![head_of(1), head_of(3)]);
    // Only what is in the workspace is listed again, and more of it conflicts.
    project.stacks.retain(|stack| stack.in_workspace);
    project.conflicting = vec![3];
    let second = project.parents();
    assert_eq!(second, vec![head_of(1)]);
    assert!(second.iter().all(|parent| first.contains(parent)));
}

#[test]
fn the_default_target_has_no_part_in_a_workspace_with_stacks() {
    let remerged = project(&[1, 2, 3], &[2], &[]).remerge();
    let mut moved = project(&[1, 2, 3], &[2], &[]);
    moved.target = 1001;
    let other = moved.remerge();
    assert_eq!(other.tree, remerged.tree);
    assert_eq!(other.stacks, remerged.stacks);
    assert_eq!(other.target, id(1001));
}

/// The conflicts that are unresolved are those of the library that merges.
#[test]
fn git_leaves_markers_and_evasive_renames_unresolved() {
    let kind = gix::merge::tree::TreatAsUnresolved::git();
    assert!(matches!(
        kind.content_merge,
        gix::merge::tree::treat_as_unresolved::ContentMerge::Markers
    ));
    assert!(matches!(
        kind.tree_merge,
        gix::merge::tree::treat_as_unresolved::TreeMerge::EvasiveRenames
    ));
}
