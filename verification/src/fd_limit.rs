//! Raise the process's open-file-descriptor soft limit at startup.
//!
//! Some systems ship a soft limit of a few hundred open files. A large rebase across many stacks
//! can exhaust it: every open repository maps a potentially large number of pack files into
//! memory, and several repositories can be open at once. Running into the limit in the middle of
//! a rebase can leave the workspace in an inconsistent state, so the soft limit is raised toward
//! the hard limit up front.

use crate::limit_attempt::{increase_nofile_limit, LimitAttempt};
use vstd::prelude::*;

verus! {

/// The soft limit that is asked for. It is capped rather than unbounded so that no enormous
/// descriptor table is requested on hosts with a very high hard limit.
pub const TARGET_NOFILE: u64 = 65536;

/// Raises the open-file soft limit toward the hard limit, up to [`TARGET_NOFILE`].
///
/// Best-effort: the limit is not lowered, and a failure is not fatal, but recorded in what is
/// returned. Elsewhere than on Unix nothing is raised.
///
/// The contract fixes the limit that is asked for; which one is reached, and that it is not below
/// the one before, rests on the limits of the process and is left unsaid.
pub fn raise_soft_limit() -> (attempt: LimitAttempt)
    ensures
        attempt.requested() == TARGET_NOFILE,
        attempt.requested() == 65536,
{
    increase_nofile_limit(TARGET_NOFILE)
}

} // verus!
