use gitbutler_workspace::fd_limit::{raise_soft_limit, TARGET_NOFILE};
use rlimit::Resource;

// Only the safety invariant is asserted (never lowers), not that the target is reached: the
// maximum that the system permits is platform-specific and can be below the hard limit.
#[test]
fn raise_soft_limit_runs_and_never_lowers() {
    let (soft_before, _hard) = Resource::NOFILE.get().expect("read NOFILE limit");

    // The public helper is best-effort and must not panic.
    raise_soft_limit();

    let (soft_after, _hard) = Resource::NOFILE.get().expect("read NOFILE limit");
    assert!(
        soft_after >= soft_before,
        "raise_soft_limit must never lower the limit: {soft_after} < {soft_before}"
    );

    // Asking for less than the current soft limit is a no-op - we only ever
    // grow the descriptor table, never shrink it.
    if soft_before > 1 {
        let requested_lower =
            rlimit::increase_nofile_limit(soft_before - 1).expect("increase_nofile_limit");
        assert!(
            requested_lower >= soft_before,
            "requesting a lower target must not shrink the limit: {requested_lower} < {soft_before}"
        );
    }
}

#[test]
fn raise_soft_limit_reports_the_limit_it_left() {
    let (soft_before, hard_before) = Resource::NOFILE.get().expect("read NOFILE limit");
    let attempt = raise_soft_limit();
    assert_eq!(attempt.limit_requested(), 65536);
    assert_eq!(TARGET_NOFILE, 65536);

    let (soft, hard) = Resource::NOFILE.get().expect("read NOFILE limit");
    assert_eq!(hard, hard_before);
    assert!(soft >= soft_before);
    assert!(soft <= soft_before.max(hard.min(65536)));
    if let Ok(reached) = attempt.limit_reached() {
        assert_eq!(*reached, soft);
    }
}
