//! How the stacks of a workspace are merged into one tree, how that tree becomes the workspace
//! commit, and how uncommitted changes follow when the workspace changes.
//!
//! Nothing here touches a repository. An operation is a run: it asks for one [`action::Action`]
//! after the other, and goes on with the [`action::Event`] that came of it. What a run does as a
//! whole, on any repository, is stated by the laws in [`laws`], [`places`], [`traces`], [`runs`],
//! [`moves`], [`head_runs`] and [`repositories`].

pub mod action;
pub mod branch_trees;
pub mod conflict;
pub mod fd_limit;
pub mod head;
pub mod head_runs;
pub mod laws;
pub mod limit_attempt;
pub mod moves;
pub mod object_id;
pub mod octopus;
pub mod places;
pub mod repositories;
pub mod repository;
pub mod runs;
pub mod traces;
