use anyhow::Result;
use gitbutler_workspace::action::{Action, Event, Stack};
use gitbutler_workspace::branch_trees::{merge_workspace, WorkspaceState};
use gitbutler_workspace::head::remerged_workspace_commit_v2;
use gitbutler_workspace::object_id::ObjectId;
use tempfile::TempDir;

/// The library's name for an object of the repository.
fn named(id: gix::ObjectId) -> ObjectId {
    let bytes = id.as_bytes();
    let mut leading = [0u8; 16];
    let mut trailing = [0u8; 4];
    leading.copy_from_slice(&bytes[..16]);
    trailing.copy_from_slice(&bytes[16..]);
    ObjectId {
        leading: u128::from_be_bytes(leading),
        trailing: u32::from_be_bytes(trailing),
    }
}

/// The object that goes by a name.
fn object(id: ObjectId) -> gix::ObjectId {
    let mut bytes = [0u8; 20];
    bytes[..16].copy_from_slice(&id.leading.to_be_bytes());
    bytes[16..].copy_from_slice(&id.trailing.to_be_bytes());
    gix::ObjectId::from_bytes_or_panic(&bytes)
}

fn empty_repository() -> Result<(gix::Repository, TempDir)> {
    let dir = TempDir::new()?;
    let repo = gix::init(dir.path())?;
    Ok((repo, dir))
}

fn commit(
    repo: &gix::Repository,
    files: &[(&str, String)],
    parents: &[gix::ObjectId],
) -> Result<gix::ObjectId> {
    let mut editor = repo.edit_tree(gix::ObjectId::empty_tree(gix::hash::Kind::Sha1))?;
    for (path, content) in files {
        let blob = repo.write_blob(content.as_bytes())?.detach();
        editor.upsert(*path, gix::objs::tree::EntryKind::Blob, blob)?;
    }
    let tree = editor.write()?.detach();
    write_commit(repo, "commit", tree, parents)
}

fn write_commit(
    repo: &gix::Repository,
    message: &str,
    tree: gix::ObjectId,
    parents: &[gix::ObjectId],
) -> Result<gix::ObjectId> {
    let signature = gix::actor::Signature {
        name: "author".into(),
        email: "author@example.com".into(),
        time: gix::date::Time::new(0, 0),
    };
    let commit = gix::objs::Commit {
        tree,
        parents: parents.iter().copied().collect(),
        author: signature.clone(),
        committer: signature,
        encoding: None,
        message: message.into(),
        extra_headers: Vec::new(),
    };
    Ok(repo.write_object(&commit)?.detach())
}

/// The stored stacks and target of a project.
struct Project {
    stacks: Vec<Stack>,
    heads: Vec<gix::ObjectId>,
    target: gix::ObjectId,
    workspace_parents: Vec<gix::ObjectId>,
    workspace_message: &'static str,
}

/// Does work on the repository. The last merge stays in `merge` until it is written.
fn perform<'repo>(
    repo: &'repo gix::Repository,
    project: &mut Project,
    merge: &mut Option<gix::merge::tree::Outcome<'repo>>,
    action: Action,
) -> Result<Event> {
    let kind = gix::merge::tree::TreatAsUnresolved::git();
    Ok(match action {
        Action::MergeBase { one, two } => {
            Event::Id(named(repo.merge_base(object(one), object(two))?.detach()))
        }
        Action::RealTree { commit } => {
            Event::Id(named(repo.find_commit(object(commit))?.tree_id()?.detach()))
        }
        Action::MergeOptions => Event::Done,
        Action::MergeTrees { base, ours, theirs } => {
            let options = repo.tree_merge_options()?.with_fail_on_conflict(Some(kind));
            let outcome = repo.merge_trees(
                object(base),
                object(ours),
                object(theirs),
                Default::default(),
                options,
            )?;
            let unresolved = outcome.has_unresolved_conflicts(kind);
            *merge = Some(outcome);
            Event::Flag(unresolved)
        }
        Action::WriteMerge { .. } => {
            let mut outcome = merge.take().expect("a merge was made");
            Event::Id(named(outcome.tree.write()?.detach()))
        }
        Action::OpenForMerging => Event::Done,
        Action::DefaultTarget => Event::Id(named(project.target)),
        Action::ListStacks => Event::Stacks(project.stacks.clone()),
        Action::StackHead { stack } => Event::Id(named(project.heads[stack as usize])),
        Action::StackHeadIfAny { stack } => {
            Event::MaybeId(project.heads.get(stack as usize).map(|id| named(*id)))
        }
        Action::StoreStack { stored } => {
            project.stacks[stored.id as usize] = stored;
            Event::Done
        }
        Action::CommitWorkspace { tree } => Event::Id(named(write_commit(
            repo,
            project.workspace_message,
            object(tree),
            &project.workspace_parents,
        )?)),
        other => panic!("unexpected action: {other:?}"),
    })
}

fn merged_tree(
    repo: &gix::Repository,
    workspace: &WorkspaceState,
) -> Result<std::result::Result<gix::ObjectId, &'static str>> {
    let mut project = project(&[], repo.object_hash().null());
    let mut run = merge_workspace(workspace);
    let mut merge = None;
    while let Some(action) = run.action() {
        run = run.answer(perform(repo, &mut project, &mut merge, action)?);
    }
    Ok(match run.outcome().expect("the merge has ended") {
        Ok(tree) => Ok(object(tree)),
        Err(conflict) => Err(conflict.message()),
    })
}

fn project(heads: &[gix::ObjectId], target: gix::ObjectId) -> Project {
    Project {
        stacks: (0..heads.len())
            .map(|id| Stack {
                id: id as u128,
                in_workspace: true,
            })
            .collect(),
        heads: heads.to_vec(),
        target,
        workspace_parents: Vec::new(),
        workspace_message: "",
    }
}

fn update_workspace_commit(repo: &gix::Repository, project: &mut Project) -> Result<gix::ObjectId> {
    let mut run = remerged_workspace_commit_v2();
    project.workspace_message = run.message();
    let mut merge = None;
    while let Some(action) = run.action() {
        if let Some(parents) = run.parents() {
            project.workspace_parents = parents.iter().map(|id| object(*id)).collect();
        }
        run = run.answer(perform(repo, project, &mut merge, action)?);
    }
    Ok(object(run.outcome().expect("the commit is written")))
}

fn stacks_in_workspace(project: &Project) -> Vec<Stack> {
    let mut stacks = project.stacks.clone();
    stacks.retain(|stack| stack.in_workspace);
    stacks
}

fn workspace(heads: &[gix::ObjectId], target: gix::ObjectId) -> WorkspaceState {
    let heads: Vec<ObjectId> = heads.iter().map(|id| named(*id)).collect();
    WorkspaceState::from_heads_and_target(&heads, named(target))
}

/// When two applied stacks have trees that conflict on the same file, the later stack is taken
/// out of the workspace, and its head must be excluded from the workspace commit's parent list.
#[test]
fn conflicting_stacks_evicted_from_workspace_commit_parents() -> Result<()> {
    let (repo, _temp_dir) = empty_repository()?;
    let target = commit(&repo, &[("file.txt", "base\n".into())], &[])?;
    let stack_a = commit(&repo, &[("file.txt", "from a\n".into())], &[target])?;
    let stack_b = commit(&repo, &[("file.txt", "from b\n".into())], &[target])?;
    let mut project = project(&[stack_a, stack_b], target);

    assert_eq!(
        stacks_in_workspace(&project).len(),
        2,
        "precondition: 2 stacks in workspace"
    );

    let ws_commit = update_workspace_commit(&repo, &mut project)?;

    // Exactly one of the two conflicting stacks should have been evicted.
    let stacks_after = stacks_in_workspace(&project);
    assert_eq!(
        stacks_after.len(),
        1,
        "Only the non-conflicting stack should remain in workspace"
    );
    let surviving_stack = &stacks_after[0];

    // The workspace commit must have exactly 1 parent: the surviving stack's head.
    let ws_commit = repo.find_commit(ws_commit)?;
    let parent_ids: Vec<_> = ws_commit.parent_ids().collect();
    assert_eq!(
        parent_ids.len(),
        1,
        "Workspace commit should have only the surviving stack as parent"
    );

    let surviving_head = project.heads[surviving_stack.id as usize];
    assert_eq!(
        parent_ids[0].detach(),
        surviving_head,
        "The only parent should be the surviving stack's head"
    );
    assert_eq!(ws_commit.message_raw()?, "Workspace Head");
    assert_eq!(ws_commit.tree_id()?, repo.find_commit(stack_a)?.tree_id()?);

    Ok(())
}

/// When two applied stacks modify adjacent but non-overlapping sections of the same file, merging
/// the workspace must be clean.
///
/// Stack A owns lines 1-5 and 11-15; Stack B owns lines 6-10.
#[test]
fn merge_workspace_succeeds_with_adjacent_hunks_from_both_sides() -> Result<()> {
    let (repo, _temp_dir) = empty_repository()?;
    let lines = |by_a: &str, by_b: &str| -> String {
        (1..=15)
            .map(|line| {
                let by = if (6..=10).contains(&line) { by_b } else { by_a };
                format!("{by} line {line}\n")
            })
            .collect()
    };
    let target = commit(&repo, &[("file.txt", lines("base", "base"))], &[])?;
    let stack_a = commit(&repo, &[("file.txt", lines("a", "base"))], &[target])?;
    let stack_b = commit(&repo, &[("file.txt", lines("base", "b"))], &[target])?;

    // Build the workspace commit so both stacks are properly registered.
    let mut project = project(&[stack_a, stack_b], target);
    update_workspace_commit(&repo, &mut project)?;
    assert_eq!(
        stacks_in_workspace(&project).len(),
        2,
        "both stacks should be in workspace"
    );

    let merged = merged_tree(&repo, &workspace(&[stack_a, stack_b], target))?
        .expect("adjacent hunks should merge cleanly");
    assert_eq!(
        content(&repo.find_tree(merged)?, "file.txt")?,
        lines("a", "b")
    );

    Ok(())
}

/// The commits of three stacks that forked at successively newer upstream commits.
struct Diverged {
    current_target: gix::ObjectId,
    upstream_target: gix::ObjectId,
    /// `stack_a`, `stack_b` and `stack_c`.
    stacks: Vec<gix::ObjectId>,
}

/// `shared.txt` as the stacks inherit it:
///
///   section A:  stack_a = ALPHA (v1)    stack_b = a1 (v2)     stack_c = a1 (v3)
///   section B:  stack_a = b1 (v1)       stack_b = BRAVO (v2)  stack_c = b1 (v3)
fn diverged_stacks(repo: &gix::Repository) -> Result<Diverged> {
    let shared = |a: &str, b: &str| -> (&'static str, String) {
        let gap = "one\ntwo\nthree\nfour\nfive\n";
        ("shared.txt", format!("{a}\n{gap}{b}\n"))
    };
    let v1_shared = shared("ALPHA ONE", "line b1");
    let v2_shared = shared("line a1", "BRAVO ONE");
    let v3_shared = shared("line a1", "line b1");
    let v1 = commit(repo, &[v1_shared.clone()], &[])?;
    let v2 = commit(repo, &[v2_shared.clone()], &[v1])?;
    let v3 = commit(repo, &[v3_shared.clone()], &[v2])?;
    let new_upstream = ("new_upstream.txt", "upstream\n".to_string());
    let v4 = commit(repo, &[v3_shared.clone(), new_upstream], &[v3])?;
    let stack_a = commit(repo, &[v1_shared, ("file_a.txt", "a\n".into())], &[v1])?;
    let stack_b = commit(repo, &[v2_shared, ("file_b.txt", "b\n".into())], &[v2])?;
    let stack_c = commit(repo, &[v3_shared, ("file_c.txt", "c\n".into())], &[v3])?;
    Ok(Diverged {
        current_target: v3,
        upstream_target: v4,
        stacks: vec![stack_a, stack_b, stack_c],
    })
}

/// The workspace tree is a faithful merge of the stack heads: the target is never a merge input.
/// Content that is in some head survives, and content that is in no head does not appear.
#[test]
fn merge_workspace_merges_stack_heads_only() -> Result<()> {
    let (repo, _temp_dir) = empty_repository()?;
    let diverged = diverged_stacks(&repo)?;

    let workspace = workspace(&diverged.stacks, diverged.current_target);
    let merged_tree_id =
        merged_tree(&repo, &workspace)?.expect("stack heads should octopus-merge cleanly");

    let merged_tree = repo.find_tree(merged_tree_id)?;
    assert_stack_heads_merged(&merged_tree)?;

    Ok(())
}

/// All heads merge against one base, so the result is the same in whatever order they come.
#[test]
fn merge_workspace_does_not_depend_on_the_order_of_the_heads() -> Result<()> {
    let (repo, _temp_dir) = empty_repository()?;
    let diverged = diverged_stacks(&repo)?;
    let target = diverged.current_target;
    let (a, b, c) = (diverged.stacks[0], diverged.stacks[1], diverged.stacks[2]);

    let expected = merged_tree(&repo, &workspace(&[a, b, c], target))?;
    assert!(expected.is_ok());
    for heads in [[a, c, b], [b, a, c], [b, c, a], [c, a, b], [c, b, a]] {
        assert_eq!(merged_tree(&repo, &workspace(&heads, target))?, expected);
    }

    Ok(())
}

/// A file that is only in the target, which is ahead of every stack, must not leak into the
/// workspace tree.
#[test]
fn merge_workspace_excludes_target_only_content() -> Result<()> {
    let (repo, _temp_dir) = empty_repository()?;
    let diverged = diverged_stacks(&repo)?;

    let workspace = workspace(&diverged.stacks, diverged.upstream_target);
    let merged_tree_id =
        merged_tree(&repo, &workspace)?.expect("stack heads should octopus-merge cleanly");

    let merged_tree = repo.find_tree(merged_tree_id)?;
    for path in ["file_a.txt", "file_b.txt", "file_c.txt"] {
        assert!(
            merged_tree.lookup_entry_by_path(path)?.is_some(),
            "{path} should be in merged workspace tree"
        );
    }
    assert!(
        merged_tree
            .lookup_entry_by_path("new_upstream.txt")?
            .is_none(),
        "target-only file must not leak into a workspace tree built from stack heads"
    );

    Ok(())
}

/// Without stacks, the workspace is just the target.
#[test]
fn merge_workspace_without_heads_is_the_target() -> Result<()> {
    let (repo, _temp_dir) = empty_repository()?;
    let diverged = diverged_stacks(&repo)?;
    let merged = merged_tree(&repo, &workspace(&[], diverged.upstream_target))?;
    let target_tree = repo.find_commit(diverged.upstream_target)?.tree_id()?;
    assert_eq!(merged, Ok(target_tree.detach()));

    Ok(())
}

/// Heads that conflict fail the merge of a workspace.
#[test]
fn merge_workspace_fails_on_conflicting_heads() -> Result<()> {
    let (repo, _temp_dir) = empty_repository()?;
    let base = commit(&repo, &[("file.txt", "base\n".into())], &[])?;
    let ours = commit(&repo, &[("file.txt", "ours\n".into())], &[base])?;
    let theirs = commit(&repo, &[("file.txt", "theirs\n".into())], &[base])?;
    assert_eq!(
        merged_tree(&repo, &workspace(&[ours, theirs], base))?,
        Err("merge conflict when computing workspace tree")
    );

    Ok(())
}

/// Same invariants as `merge_workspace_merges_stack_heads_only`, but end-to-end through the
/// workspace commit.
#[test]
fn update_workspace_commit_merges_stack_heads_only() -> Result<()> {
    let (repo, _temp_dir) = empty_repository()?;
    let diverged = diverged_stacks(&repo)?;
    let mut project = project(&diverged.stacks, diverged.current_target);

    let ws_commit = update_workspace_commit(&repo, &mut project)?;
    assert_stack_heads_merged(&repo.find_commit(ws_commit)?.tree()?)?;

    Ok(())
}

/// The order in which the stacks are listed makes no difference to the workspace tree.
#[test]
fn update_workspace_commit_does_not_depend_on_the_order_of_the_stacks() -> Result<()> {
    let (repo, _temp_dir) = empty_repository()?;
    let diverged = diverged_stacks(&repo)?;
    let (a, b, c) = (diverged.stacks[0], diverged.stacks[1], diverged.stacks[2]);
    let mut trees = Vec::new();
    for heads in [[a, b, c], [b, c, a], [c, b, a]] {
        let mut project = project(&heads, diverged.current_target);
        let ws_commit = update_workspace_commit(&repo, &mut project)?;
        assert_eq!(stacks_in_workspace(&project).len(), 3);
        trees.push(repo.find_commit(ws_commit)?.tree_id()?.detach());
    }
    assert_eq!(trees[0], trees[1]);
    assert_eq!(trees[0], trees[2]);

    Ok(())
}

fn content(tree: &gix::Tree<'_>, path: &str) -> Result<String> {
    let blob = tree
        .clone()
        .lookup_entry_by_path(path)?
        .expect("the file should exist")
        .object()?;
    Ok(std::str::from_utf8(&blob.data)?.to_string())
}

/// Assert the merged tree is the octopus of the three stack heads against their shared base v1:
/// every stack's file present, section A advanced to `a1` (old stack_a's `ALPHA` did not win),
/// section B is stack_b's `BRAVO` (the only head that changed it relative to the base).
fn assert_stack_heads_merged(tree: &gix::Tree<'_>) -> Result<()> {
    for path in ["file_a.txt", "file_b.txt", "file_c.txt"] {
        assert!(
            tree.clone().lookup_entry_by_path(path)?.is_some(),
            "{path} should be in merged workspace tree"
        );
    }

    let contents = content(tree, "shared.txt")?;
    assert!(
        contents.contains("line a1") && !contents.contains("ALPHA"),
        "section A should advance to a1 (old stack must not revert it), got:\n{contents}"
    );
    assert!(
        contents.contains("BRAVO ONE"),
        "section B should deterministically be stack_b's BRAVO (single octopus base), got:\n{contents}"
    );

    Ok(())
}
