use bitplane::error::{EngineError, ErrorEnvelope, Problem, Teardown};
use bitplane::exit::ExitCode;
use bitplane::git::{minimum_git_version, GitVersion};
use bitplane::member::MemberRef;
use bitplane::refusal::{Reason, Refusal};
use bitplane::wire::PlaneRef;

fn a_refusal() -> Refusal {
    Refusal::new(MemberRef::Repo("/repos/api".to_owned()), Reason::Uncommitted, "feat-login has uncommitted changes")
}

fn every_failure() -> Vec<EngineError> {
    vec![
        EngineError::GitMissing,
        EngineError::GitUnusable { message: "exited 1".to_owned() },
        EngineError::GitVersionUnreadable { reported: "not a version at all".to_owned() },
        EngineError::GitTooOld { found: GitVersion::new(2, 35, 9), required: minimum_git_version() },
        EngineError::InvalidRequest { message: "nope".to_owned() },
        EngineError::LockTimeout { object: "/planes/bp-a3f9c2e1/.bitplane/lock".to_owned() },
        EngineError::Io { path: "/planes/bp-a3f9c2e1/plane.toml".to_owned(), message: "permission denied".to_owned() },
        EngineError::Refused {
            plane: "bp-a3f9c2e1".to_owned(),
            operation: Teardown::Destroy,
            blocking: 1,
            considered: 2,
            refusals: vec![a_refusal()],
        },
        EngineError::PlaneIncomplete { id: "bp-a3f9c2e1".to_owned() },
        EngineError::PlaneNotFound { sought: PlaneRef::Id { id: "auth-work".to_owned() } },
        EngineError::ProjectNotInPlane { member: "@web".to_owned(), plane: "bp-a3f9c2e1".to_owned() },
        EngineError::RemovalFailed { plane: "bp-a3f9c2e1".to_owned(), operation: Teardown::Remove, members: Vec::new() },
    ]
}

#[test]
fn every_exit_code_but_ok_and_drift_is_reachable_from_a_typed_failure() {
    let cases = [
        (EngineError::GitMissing, ExitCode::PrerequisiteMissing),
        (EngineError::InvalidRequest { message: "nope".to_owned() }, ExitCode::Usage),
        (EngineError::LockTimeout { object: "/planes/bp-a3f9c2e1/.bitplane/lock".to_owned() }, ExitCode::Busy),
        (
            EngineError::Io { path: "/planes/bp-a3f9c2e1/plane.toml".to_owned(), message: "permission denied".to_owned() },
            ExitCode::Failure,
        ),
    ];

    for (error, expected) in cases {
        assert_eq!(error.exit_code(), expected, "for {error:?}");
        assert_eq!(error.envelope().code, expected, "for {error:?}");
    }
}

#[test]
fn every_failure_renders_a_message_and_a_code() {
    for error in every_failure() {
        let envelope = error.envelope();

        assert!(!envelope.message.is_empty(), "for {error:?}");
        assert_ne!(envelope.code, ExitCode::Success, "for {error:?}");
        assert_ne!(envelope.code, ExitCode::Drift, "for {error:?}");
        assert_eq!(envelope.error, error.tag(), "for {error:?}");
    }
}

#[test]
fn a_refusal_prints_one_problem_per_reason_and_a_remedy_that_can_be_pasted() {
    let error = EngineError::Refused {
        plane: "bp-a3f9c2e1".to_owned(),
        operation: Teardown::Destroy,
        blocking: 2,
        considered: 3,
        refusals: vec![
            a_refusal(),
            Refusal::new(MemberRef::Repo("/repos/web".to_owned()), Reason::Untracked, "feat-login has untracked files"),
        ],
    };

    let envelope = error.envelope();

    assert_eq!(envelope.message, "refusing to destroy bp-a3f9c2e1: 2 of 3 members have work that would be lost");
    assert_eq!(envelope.problems.len(), 2);
    assert_eq!(envelope.problems[0].subject.as_deref(), Some("/repos/api"));
    assert_eq!(
        envelope.remedy.as_deref(),
        Some("Inspect the members listed. Re-run with --waive uncommitted --waive untracked to accept losing that work.")
    );
}

#[test]
fn the_two_teardown_verbs_refuse_in_their_own_words() {
    let removing = EngineError::Refused {
        plane: "bp-a3f9c2e1".to_owned(),
        operation: Teardown::Remove,
        blocking: 2,
        considered: 2,
        refusals: vec![a_refusal()],
    };

    assert_eq!(
        removing.message(),
        "refusing to remove 2 of 2 members from bp-a3f9c2e1: they have work that would be lost"
    );
}

#[test]
fn a_plane_that_is_not_there_says_which_way_it_was_looked_for() {
    let by_id = EngineError::PlaneNotFound { sought: PlaneRef::Id { id: "auth-work".to_owned() } };
    let from_here = EngineError::PlaneNotFound { sought: PlaneRef::ContainingPath { path: "/Users/alfonz/src".to_owned() } };

    assert_eq!(by_id.message(), "there is no plane called auth-work");
    assert_eq!(from_here.message(), "no plane contains /Users/alfonz/src");
    assert!(by_id.envelope().remedy != from_here.envelope().remedy, "one way out is a listing, the other is naming a plane");
}

#[test]
fn a_usage_envelope_carries_the_usage_code() {
    let envelope = ErrorEnvelope::usage("no_command", "no command given").with_remedy("Run `bp --help` to see what bp can do.");

    assert_eq!(envelope.code, ExitCode::Usage);
    assert!(envelope.problems.is_empty());
    assert_eq!(envelope.remedy.as_deref(), Some("Run `bp --help` to see what bp can do."));
}

#[test]
fn a_lock_timeout_names_the_object_as_its_one_problem() {
    let envelope = EngineError::LockTimeout { object: "/planes/bp-a3f9c2e1/.bitplane/lock".to_owned() }.envelope();

    assert_eq!(envelope.error, "lock_timeout");
    assert_eq!(envelope.code, ExitCode::Busy);
    assert_eq!(envelope.problems.len(), 1);
    assert_eq!(envelope.problems[0].subject.as_deref(), Some("/planes/bp-a3f9c2e1/.bitplane/lock"));
    assert!(envelope.remedy.is_some());
}

#[test]
fn a_problem_is_about_a_subject_or_about_the_whole() {
    let whole = Problem::new("and the plane is locked");
    let about = Problem::about("@api", "is occupied");

    assert_eq!(whole.subject, None);
    assert_eq!(about.subject.as_deref(), Some("@api"));
    assert_eq!(about.message, "is occupied");
}

#[test]
fn a_filesystem_refusal_names_the_path_it_refused() {
    let err = std::io::Error::new(std::io::ErrorKind::PermissionDenied, "permission denied");
    let error = EngineError::io("/planes/x", err);

    assert!(matches!(&error, EngineError::Io { path, .. } if path == "/planes/x"), "got {error:?}");
    assert_eq!(error.message(), "/planes/x: permission denied");
}

#[test]
fn the_envelope_tag_is_the_tag_the_wire_uses() {
    for error in every_failure() {
        assert_eq!(error.envelope().error, error.tag(), "for {error:?}");
    }
}
