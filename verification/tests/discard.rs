use anyhow::Result;
use gitbutler_workspace::action::{Action, Event};
use gitbutler_workspace::branch_trees::{update_uncommitted_changes_with_tree, WorkspaceState};
use gitbutler_workspace::object_id::ObjectId;
use tempfile::TempDir;

/// The library's name for an object of the repository.
fn named(id: git2::Oid) -> ObjectId {
    let bytes = id.as_bytes();
    let mut leading = [0u8; 16];
    let mut trailing = [0u8; 4];
    leading.copy_from_slice(&bytes[..16]);
    trailing.copy_from_slice(&bytes[16..]);
    ObjectId {
        leading: u128::from_be_bytes(leading),
        trailing: u32::from_be_bytes(trailing),
    }
}

/// The object that goes by a name.
fn object(id: ObjectId) -> Result<git2::Oid> {
    let mut bytes = [0u8; 20];
    bytes[..16].copy_from_slice(&id.leading.to_be_bytes());
    bytes[16..].copy_from_slice(&id.trailing.to_be_bytes());
    Ok(git2::Oid::from_bytes(&bytes)?)
}

/// A repository with one stack.
struct OneStack {
    repo: git2::Repository,
    dir: TempDir,
    target: git2::Oid,
    stack: git2::Oid,
}

impl OneStack {
    fn new(file_path: &str, content: &str) -> Result<Self> {
        let dir = TempDir::new()?;
        let repo = git2::Repository::init(dir.path())?;
        let target = commit(&repo, "README.md", "readme\n", None)?;
        let stack = commit(&repo, file_path, content, Some(target))?;
        let project = OneStack {
            repo,
            dir,
            target,
            stack,
        };
        let tree = project.repo.find_commit(stack)?.tree_id();
        project.check_out(tree)?;
        Ok(project)
    }

    fn check_out(&self, tree: git2::Oid) -> Result<()> {
        let tree = self.repo.find_object(tree, None)?;
        let mut options = git2::build::CheckoutBuilder::new();
        options.force().remove_untracked(true);
        self.repo.checkout_tree(&tree, Some(&mut options))?;
        Ok(())
    }

    /// Change a file in the worktree.
    fn file(&self, file_path: &str, content: &str) -> Result<()> {
        let head = self.repo.find_commit(self.stack)?.tree()?;
        let edited = with_file(&self.repo, Some(&head), file_path, content)?;
        self.check_out(edited)
    }

    fn read_file(&self, file_path: &str) -> Result<String> {
        let blob = self.repo.blob_path(&self.dir.path().join(file_path))?;
        let blob = self.repo.find_blob(blob)?;
        Ok(std::str::from_utf8(blob.content())?.to_string())
    }

    fn workspace(&self) -> WorkspaceState {
        WorkspaceState::from_heads_and_target(&[named(self.stack)], named(self.target))
    }

    /// Move the worktree to where it holds `uncommitted` on top of the workspace.
    fn update(&self, uncommitted: git2::Oid, always_checkout: Option<bool>) -> Result<u32> {
        let mut run = update_uncommitted_changes_with_tree(
            self.workspace(),
            self.workspace(),
            Some(named(uncommitted)),
            always_checkout,
        );
        let mut index: Option<git2::Index> = None;
        let mut checkouts = 0;
        while let Some(action) = run.action() {
            let event = match action {
                Action::OpenForMerging | Action::OpenForCheckout | Action::MergeOptions => {
                    Event::Done
                }
                Action::RealTree { commit } => Event::Id(named(
                    self.repo.find_commit(object(commit)?)?.tree_id(),
                )),
                Action::MergeIndex {
                    ancestor,
                    ours,
                    theirs,
                    favor_ours,
                } => {
                    assert!(favor_ours, "uncommitted changes are favored");
                    let mut options = git2::MergeOptions::new();
                    options.file_favor(git2::FileFavor::Ours);
                    let merged = self.repo.merge_trees(
                        &self.repo.find_tree(object(ancestor)?)?,
                        &self.repo.find_tree(object(ours)?)?,
                        &self.repo.find_tree(object(theirs)?)?,
                        Some(&options),
                    )?;
                    let conflicts = merged.has_conflicts();
                    index = Some(merged);
                    Event::Flag(conflicts)
                }
                Action::WriteIndex { .. } => {
                    let index = index.as_mut().expect("an index was made");
                    Event::Id(named(index.write_tree_to(&self.repo)?))
                }
                Action::CheckoutIndex {
                    force,
                    remove_untracked,
                    conflict_style_diff3,
                } => {
                    assert!(force, "what the worktree holds is replaced");
                    let mut options = git2::build::CheckoutBuilder::new();
                    options
                        .force()
                        .remove_untracked(remove_untracked)
                        .conflict_style_diff3(conflict_style_diff3);
                    self.repo.checkout_index(index.as_mut(), Some(&mut options))?;
                    checkouts += 1;
                    Event::Done
                }
                other => panic!("unexpected action: {other:?}"),
            };
            run = run.answer(event);
        }
        assert_eq!(run.outcome(), Some(Ok(())));
        Ok(checkouts)
    }

    /// Discard all uncommitted changes: the worktree is left with what the workspace holds.
    fn discard(&self) -> Result<()> {
        let nothing_uncommitted = self.repo.find_commit(self.stack)?.tree_id();
        let checkouts = self.update(nothing_uncommitted, Some(true))?;
        assert_eq!(checkouts, 1);
        Ok(())
    }
}

fn with_file(
    repo: &git2::Repository,
    tree: Option<&git2::Tree<'_>>,
    file_path: &str,
    content: &str,
) -> Result<git2::Oid> {
    let blob = repo.blob(content.as_bytes())?;
    let mut update = git2::build::TreeUpdateBuilder::new();
    update.upsert(file_path, blob, git2::FileMode::Blob);
    let empty = repo.find_tree(repo.treebuilder(None)?.write()?)?;
    Ok(update.create_updated(repo, tree.unwrap_or(&empty))?)
}

fn commit(
    repo: &git2::Repository,
    file_path: &str,
    content: &str,
    parent: Option<git2::Oid>,
) -> Result<git2::Oid> {
    let parent = match parent {
        Some(parent) => Some(repo.find_commit(parent)?),
        None => None,
    };
    let before = match &parent {
        Some(parent) => Some(parent.tree()?),
        None => None,
    };
    let tree = repo.find_tree(with_file(repo, before.as_ref(), file_path, content)?)?;
    let signature = git2::Signature::new("author", "author@example.com", &git2::Time::new(0, 0))?;
    let parents: Vec<&git2::Commit<'_>> = parent.iter().collect();
    Ok(repo.commit(
        None,
        &signature,
        &signature,
        "commit",
        &tree,
        &parents,
    )?)
}

/// What is discarded here is everything that is uncommitted, by way of the update run: it is
/// handed the tree of the workspace as all that is left of the worktree, and told to check out.
#[test]
fn discarding_multiple_hunks_in_a_file_works() -> Result<()> {
    let content = "1\n2\n3\n4\n5\n6\n7";
    let file_path = "src/some_file.txt";

    let env = OneStack::new(file_path, content)?;
    assert_eq!(env.read_file(file_path)?, content);

    env.file(file_path, "a\nb\nc\n1\n2\n3\n4\n5\n6\n7\nd\ne\nf")?;
    assert_eq!(
        env.read_file(file_path)?,
        "a\nb\nc\n1\n2\n3\n4\n5\n6\n7\nd\ne\nf"
    );
    env.discard()?;

    assert!(
        env.dir.path().join("src/some_file.txt").exists(),
        "discarding multiple hunks should keep the tracked file present"
    );

    let content_after_discard = env.read_file(file_path)?;
    assert_eq!(content_after_discard, content);

    Ok(())
}

/// Between equal workspaces, uncommitted changes stay as they are, and nothing is checked out.
#[test]
fn uncommitted_changes_stay_between_equal_workspaces() -> Result<()> {
    let file_path = "src/some_file.txt";
    let env = OneStack::new(file_path, "1\n2\n3\n")?;
    env.file(file_path, "1\n2\n3\n4\n")?;
    let stack = env.repo.find_commit(env.stack)?.tree()?;
    let uncommitted = with_file(&env.repo, Some(&stack), file_path, "1\n2\n3\n4\n")?;

    assert_eq!(env.update(uncommitted, None)?, 0);
    assert_eq!(env.read_file(file_path)?, "1\n2\n3\n4\n");
    assert_eq!(env.update(uncommitted, Some(true))?, 1);
    assert_eq!(env.read_file(file_path)?, "1\n2\n3\n4\n");

    Ok(())
}
