use std::sync::atomic::{AtomicUsize, Ordering};

use bitplane::error::EngineError;
use bitplane::git::{describe_exit, minimum_git_version, GitPrerequisite, GitProbe, GitVersion, ProbeFailure};

#[test]
fn a_version_line_is_read_in_every_shape_git_prints_it() {
    let cases = [
        ("git version 2.36.0", GitVersion::new(2, 36, 0)),
        ("git version 2.50.1 (Apple Git-155)", GitVersion::new(2, 50, 1)),
        ("git version 2.44.0.windows.1", GitVersion::new(2, 44, 0)),
        ("git version 2.39\n", GitVersion::new(2, 39, 0)),
        ("git version 2.45.GIT", GitVersion::new(2, 45, 0)),
        ("git version 2.51.0.rc1", GitVersion::new(2, 51, 0)),
        ("  git version 2.36.0  \n", GitVersion::new(2, 36, 0)),
    ];

    for (line, expected) in cases {
        assert_eq!(GitVersion::from_version_line(line), Some(expected), "for {line:?}");
    }
}

#[test]
fn a_line_that_is_not_a_version_is_refused() {
    let cases = ["", "not a version at all", "git version", "git version x.y.z", "git version 2.x.y", "git version GIT", "2.36.0"];

    for line in cases {
        assert_eq!(GitVersion::from_version_line(line), None, "for {line:?}");
    }
}

#[test]
fn the_floor_is_2_36_and_it_is_inclusive() {
    assert!(!GitVersion::new(2, 35, 9).is_supported());
    assert!(!GitVersion::new(1, 99, 0).is_supported());
    assert!(GitVersion::new(2, 36, 0).is_supported());
    assert!(GitVersion::new(2, 36, 1).is_supported());
    assert!(GitVersion::new(3, 0, 0).is_supported());
}

#[test]
fn versions_order_by_major_then_minor_then_patch() {
    assert!(GitVersion::new(2, 9, 0) < GitVersion::new(2, 36, 0));
    assert!(GitVersion::new(2, 36, 0) < GitVersion::new(10, 0, 0));
}

struct CountingProbe {
    reported: String,
    calls: AtomicUsize,
}

impl CountingProbe {
    fn reporting(reported: &str) -> CountingProbe {
        CountingProbe { reported: reported.to_owned(), calls: AtomicUsize::new(0) }
    }
}

impl GitProbe for CountingProbe {
    fn report_version(&self) -> Result<String, ProbeFailure> {
        self.calls.fetch_add(1, Ordering::SeqCst);
        Ok(self.reported.clone())
    }
}

#[test]
fn the_probe_runs_once_however_many_times_the_check_is_asked() {
    let mut prerequisite = GitPrerequisite::new(CountingProbe::reporting("git version 2.40.0"));

    for _ in 0..5 {
        assert_eq!(prerequisite.ensure_supported().unwrap(), GitVersion::new(2, 40, 0));
    }

    assert_eq!(prerequisite.probe().calls.load(Ordering::SeqCst), 1);
}

#[test]
fn a_failing_check_is_remembered_too() {
    let mut prerequisite = GitPrerequisite::new(CountingProbe::reporting("git version 2.35.0"));

    for _ in 0..3 {
        assert_eq!(
            prerequisite.ensure_supported().unwrap_err(),
            EngineError::GitTooOld { found: GitVersion::new(2, 35, 0), required: minimum_git_version() }
        );
    }

    assert_eq!(prerequisite.probe().calls.load(Ordering::SeqCst), 1);
}

#[test]
fn the_floor_is_spoken_in_all_three_components() {
    assert_eq!(minimum_git_version(), GitVersion::new(2, 36, 0));
    assert_eq!(GitVersion::new(2, 36, 0).to_text(), "2.36.0");
}

#[test]
fn a_version_probe_that_failed_says_how_and_what_git_said() {
    assert_eq!(describe_exit(Some(1), "  \n"), "`git --version` exited 1");
    assert_eq!(describe_exit(Some(128), "fatal: bad config\n"), "`git --version` exited 128: fatal: bad config");
    assert_eq!(describe_exit(None, ""), "`git --version` was killed by a signal");
    assert_eq!(describe_exit(None, "oops"), "`git --version` was killed by a signal: oops");
}
