use bitplane::create::{
    create_next, is_under_dir, must_unwind, take_back_rows, unwound_create, worktrees_inside, CreateAt, CreateEvent,
    CreateProgress, CreateStep, PlaneCreated,
};
use bitplane::error::EngineError;
use bitplane::member::{MemberRef, WorktreePath};
use bitplane::outcome::{Outcome, PerMember, SkipReason};
use bitplane::plane_id::PlaneId;
use bitplane::read::RecordedWorktree;
use bitplane::wire::CreatedMember;

fn made(member: &str, path: &str) -> PerMember<CreatedMember> {
    PerMember::ok(
        MemberRef::parse(member).unwrap(),
        CreatedMember {
            branch: "feat-login".to_owned(),
            created_branch: true,
            path: WorktreePath::parse(path).unwrap(),
            unwound: false,
        },
    )
}

#[test]
fn a_path_is_under_a_directory_only_on_a_separator() {
    assert!(is_under_dir("/tmp/planes/p/api", "/tmp/planes/p"));
    assert!(is_under_dir("/tmp/planes/p", "/tmp/planes/p"));
    assert!(!is_under_dir("/tmp/planes/p2/api", "/tmp/planes/p"));
    assert!(is_under_dir("/tmp/planes/p/api", "/tmp/planes/p/"));
}

#[test]
fn only_the_worktrees_inside_the_plane_are_taken_back() {
    let entries = vec![
        RecordedWorktree { path: "/repos/api".to_owned(), prunable: false },
        RecordedWorktree { path: "/tmp/planes/p/api".to_owned(), prunable: false },
        RecordedWorktree { path: "/tmp/planes/p2/api".to_owned(), prunable: true },
    ];

    assert_eq!(worktrees_inside(&entries, "/tmp/planes/p"), vec![1]);
}

#[test]
fn an_unwind_marks_what_it_took_back_and_rows_what_it_touched() {
    let members = vec![
        made("/repos/api", "repos/api"),
        PerMember::skipped(MemberRef::parse("/repos/web").unwrap(), SkipReason::AbortedAfterEarlierFailure),
        PerMember::failed(MemberRef::parse("/repos/db").unwrap(), EngineError::GitFailed { message: "boom".to_owned() }),
    ];
    let taken = vec![Ok(true), Ok(false), Err(EngineError::GitFailed { message: "locked".to_owned() })];

    let (rows, rollback, clean) = take_back_rows(members, taken);

    assert!(matches!(&rows[0].outcome, Outcome::Completed(c) if c.unwound));
    assert_eq!(rows[1].outcome, Outcome::Skipped(SkipReason::AbortedAfterEarlierFailure));
    assert_eq!(rollback.len(), 2);
    assert_eq!(rollback[0], PerMember::ok(MemberRef::parse("/repos/api").unwrap(), ()));
    assert!(rollback[1].is_failure());
    assert!(!clean, "a take-back that failed leaves the directory where it is");
}

#[test]
fn an_interrupted_create_answers_its_rows_and_a_failed_one_the_failure() {
    let id = || PlaneId::parse("bp-7c1e0d44").unwrap();
    let members = || vec![made("/repos/api", "repos/api")];

    assert!(must_unwind(&members(), true));
    assert!(!must_unwind(&members(), false));

    assert_eq!(
        unwound_create(id(), "/planes/bp-7c1e0d44".to_owned(), members(), Vec::new(), true, false),
        Ok(PlaneCreated {
            id: id(),
            directory: "/planes/bp-7c1e0d44".to_owned(),
            members: members(),
            interrupted: true,
            remnant: true,
        })
    );
    assert_eq!(
        unwound_create(id(), "/planes/bp-7c1e0d44".to_owned(), members(), Vec::new(), false, true),
        Err(EngineError::CreateAborted {
            id: "bp-7c1e0d44".to_owned(),
            members: members(),
            rollback: Vec::new(),
            remnant: false,
        })
    );
}

fn a_create() -> CreateProgress {
    CreateProgress::new(PlaneId::parse("auth-work").unwrap(), "/tmp/planes/auth-work".to_owned())
}

/// Answers each step with success up to the build, and says which were asked.
fn up_to_the_build(progress: &mut CreateProgress) -> Vec<CreateAt> {
    let mut asked = Vec::new();
    let mut event = CreateEvent::Done;
    loop {
        let step = create_next(progress, event);
        let CreateStep::Take(at) = step else { panic!("the create stopped early: {step:?}") };
        asked.push(at);
        if at == CreateAt::Building {
            return asked;
        }
        event = CreateEvent::Done;
    }
}

#[test]
fn the_latch_goes_down_before_the_plane_file_and_both_before_any_worktree() {
    let mut progress = a_create();
    assert_eq!(
        up_to_the_build(&mut progress),
        vec![CreateAt::Locking, CreateAt::Latching, CreateAt::WritingPlaneFile, CreateAt::Building]
    );
}

#[test]
fn the_latch_is_unlinked_only_when_every_member_was_made() {
    let mut progress = a_create();
    up_to_the_build(&mut progress);
    let step = create_next(
        &mut progress,
        CreateEvent::Built { members: vec![made("/repos/api", "repos/api")], interrupted: false },
    );
    assert!(matches!(step, CreateStep::Take(CreateAt::Unlatching)));
    let CreateStep::Finish(Ok(created)) = create_next(&mut progress, CreateEvent::Done) else {
        panic!("a create that unlatched is made")
    };
    assert_eq!(created.id.as_str(), "auth-work");
    assert_eq!(created.directory, "/tmp/planes/auth-work");
    assert_eq!(created.members, vec![made("/repos/api", "repos/api")]);
    assert!(!created.interrupted && !created.remnant);
}

#[test]
fn a_failed_member_unwinds_then_discards_the_directory() {
    let mut progress = a_create();
    up_to_the_build(&mut progress);
    let failed = PerMember::failed(MemberRef::parse("/repos/db").unwrap(), EngineError::GitFailed { message: "boom".to_owned() });
    let step = create_next(
        &mut progress,
        CreateEvent::Built { members: vec![made("/repos/api", "repos/api"), failed], interrupted: false },
    );
    let CreateStep::Unwind(members) = step else { panic!("a failed member unwinds, got {step:?}") };
    let (members, rollback, clean) = take_back_rows(members, vec![Ok(true), Ok(false)]);
    assert!(clean);
    let step = create_next(&mut progress, CreateEvent::TakenBack { members, rollback, clean });
    assert!(matches!(step, CreateStep::Take(CreateAt::Discarding)));
    let CreateStep::Finish(Err(EngineError::CreateAborted { id, remnant, .. })) = create_next(&mut progress, CreateEvent::Done)
    else {
        panic!("a failed create answers the failure")
    };
    assert_eq!(id, "auth-work");
    assert!(!remnant);
}

#[test]
fn an_interrupt_unwinds_even_when_every_member_was_made() {
    let mut progress = a_create();
    up_to_the_build(&mut progress);
    let step = create_next(
        &mut progress,
        CreateEvent::Built { members: vec![made("/repos/api", "repos/api")], interrupted: true },
    );
    let CreateStep::Unwind(members) = step else { panic!("an interrupt unwinds, got {step:?}") };
    let (members, rollback, _) = take_back_rows(members, vec![Err(EngineError::GitFailed { message: "locked".to_owned() })]);
    let step = create_next(&mut progress, CreateEvent::TakenBack { members, rollback, clean: false });
    let CreateStep::Finish(Ok(created)) = step else { panic!("an interrupted create answers its rows, got {step:?}") };
    assert!(created.interrupted && created.remnant);
}

#[test]
fn a_latch_that_cannot_be_written_ends_the_create_with_that_failure() {
    let mut progress = a_create();
    assert!(matches!(create_next(&mut progress, CreateEvent::Done), CreateStep::Take(CreateAt::Locking)));
    assert!(matches!(create_next(&mut progress, CreateEvent::Done), CreateStep::Take(CreateAt::Latching)));
    let step = create_next(&mut progress, CreateEvent::Failed(EngineError::GitFailed { message: "disk full".to_owned() }));
    assert!(matches!(step, CreateStep::Finish(Err(EngineError::GitFailed { .. }))));
}
