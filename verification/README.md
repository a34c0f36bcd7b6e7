# gitbutler-workspace

Builds the tree and the commit of a workspace out of its stacks, and moves uncommitted changes
along when the workspace changes. The decisions are a library verified with Verus; the work on
repositories is done by an application around it.

## Runs

The library does not touch a repository. An operation is a *run*: `action()` says what is to be
done next, and `answer()` goes on with what came of it. An event that does not answer the action
changes nothing, and every answer brings a run closer to its end.

| Operation | Begun by |
| --- | --- |
| take a snapshot of the workspace | `WorkspaceState::create`, `WorkspaceState::create_from_heads` |
| merge the stack heads of a snapshot | `branch_trees::merge_workspace` |
| move uncommitted changes to another snapshot | `branch_trees::update_uncommitted_changes`, `branch_trees::update_uncommitted_changes_with_tree` |
| see whether a tree moves without conflict | `branch_trees::move_tree_has_conflicts` |
| merge the stored stacks | `head::remerged_workspace_tree_v2` |
| write the workspace commit | `head::remerged_workspace_commit_v2` |
| merge the worktree with the workspace | `head::merge_worktree_with_workspace` |

`fd_limit::raise_soft_limit` raises the limit on open files at startup.

## Layout

- `src/action.rs`: actions, events, and what a run is.
- `src/octopus.rs`: the merge of any number of heads against one base.
- `src/branch_trees.rs`, `src/head.rs`: the operations.
- `src/repository.rs`: a mathematical model of a repository, and complete runs on it.
- `src/laws.rs`, `src/runs.rs`, `src/head_runs.rs`: what holds of the merge, and of complete runs.
- `src/places.rs`: what holds where trees merge file by file.
- `src/repositories.rs`: what holds of runs on two repositories, or of two runs in a row.
- `src/moves.rs`: what holds of moving a tree from one workspace to another.
- `src/fd_limit.rs`: the limit on open files.
- `src/conflict.rs`, `src/limit_attempt.rs`: the calls into other crates, each with the contract
  that is taken on trust.
- `tests/`: the runs on real repositories, and on scripted answers.
- `app/`: performs the actions with `gix` and `git2`, and starts the command line.

## Dependencies

`kstring` is not used directly. `gix` depends on it, and `Cargo.toml` holds it at 2.0.2 because
2.0.5 needs a newer compiler than the rest of the crate.
