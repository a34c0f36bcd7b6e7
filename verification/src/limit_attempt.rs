use vstd::prelude::*;

verus! {

#[verifier::external_type_specification]
#[verifier::external_body]
pub struct ExIoError(std::io::Error);

/// An attempt to raise the open-file soft limit.
///
/// There is no other way to come by one than to make the attempt.
#[derive(Debug)]
pub struct LimitAttempt {
    requested: u64,
    reached: Result<u64, std::io::Error>,
}

impl LimitAttempt {
    /// The soft limit that was asked for.
    pub closed spec fn requested(self) -> u64 {
        self.requested
    }

    /// The soft limit that the call reports, or why there was no telling it or changing it. Where
    /// there is no such limit, the call reports what was asked for.
    pub closed spec fn reached(self) -> Result<u64, std::io::Error> {
        self.reached
    }

    /// The soft limit that was asked for.
    pub fn limit_requested(&self) -> (limit: u64)
        ensures
            limit == self.requested(),
    {
        self.requested
    }

    /// The soft limit that the call reports, or why there was no telling it or changing it. Where
    /// there is no such limit, the call reports what was asked for.
    pub fn limit_reached(&self) -> (limit: &Result<u64, std::io::Error>)
        ensures
            *limit == self.reached(),
    {
        &self.reached
    }
}

/// Calls `rlimit::increase_nofile_limit`, and records the limit it was called with.
///
/// Claimed of it: nothing but that the attempt is one for `lim`. The limit that is reached rests
/// on the limits that the process has, which no argument shows: it can be above `lim`, where the
/// process had more already, and below, where the hard limit or a cap of the system is.
#[verifier::external_body]
pub(crate) fn increase_nofile_limit(lim: u64) -> (attempt: LimitAttempt)
    ensures
        attempt.requested() == lim,
{
    LimitAttempt { requested: lim, reached: rlimit::increase_nofile_limit(lim) }
}

} // verus!
