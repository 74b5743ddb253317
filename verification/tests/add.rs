use bitplane::add::{entries, plane_add_next, refuse_collisions, PlaneAddAt, PlaneAddProgress, PlaneAddStep};
use bitplane::create::{take_back_rows, CreateEvent};
use bitplane::outcome::PerMember;
use bitplane::wire::CreatedMember;
use bitplane::error::EngineError;
use bitplane::member::{MemberRef, WorktreePath};
use bitplane::plan::PlannedMember;
use bitplane::plane_file::Member;

fn planned(reference: &str, path: &str, repository: &str) -> PlannedMember {
    PlannedMember {
        reference: MemberRef::parse(reference).unwrap(),
        source: repository.to_owned(),
        branch: "feat-login".to_owned(),
        path: WorktreePath::parse(path).unwrap(),
        base: None,
        repository: repository.to_owned(),
        owned: false,
    }
}

fn held(path: &str, source: &str) -> Member {
    Member { path: WorktreePath::parse(path).unwrap(), source: MemberRef::parse(source).unwrap() }
}

#[test]
fn a_member_the_plane_already_holds_is_a_typed_duplicate() {
    let existing = vec![held("api", "/repos/api")];
    let adding = vec![planned("/repos/web", "web", "/repos/web/.git"), planned("/repos/api", "api-2", "/repos/api/.git")];

    assert_eq!(
        refuse_collisions(&adding, &existing, &vec![None], "auth-work"),
        Err(EngineError::DuplicateMember { member: "/repos/api".to_owned(), plane: Some("auth-work".to_owned()) })
    );
}

#[test]
fn a_member_whose_worktree_would_land_on_a_held_one_names_both() {
    let existing = vec![held("api", "/repos/api")];
    let adding = vec![planned("/elsewhere/api", "api", "/elsewhere/api/.git")];

    assert_eq!(
        refuse_collisions(&adding, &existing, &vec![Some("/repos/api/.git".to_owned())], "auth-work"),
        Err(EngineError::MemberPathCollision {
            first: "/repos/api".to_owned(),
            second: "/elsewhere/api".to_owned(),
            path: "api".to_owned(),
        })
    );
}

#[test]
fn a_second_worktree_of_a_held_repository_is_refused() {
    let existing = vec![held("web", "/repos/web"), held("api", "/repos/api")];
    let adding = vec![planned("/links/api", "links-api", "/repos/api/.git")];

    assert_eq!(
        refuse_collisions(
            &adding,
            &existing,
            &vec![Some("/repos/web/.git".to_owned()), Some("/repos/api/.git".to_owned())],
            "auth-work"
        ),
        Err(EngineError::SameRepository { first: "/repos/api".to_owned(), second: "/links/api".to_owned() })
    );
}

#[test]
fn a_held_repository_git_would_not_answer_for_is_not_compared() {
    let existing = vec![held("api", "/repos/api")];
    let adding = vec![planned("/links/api", "links-api", "/repos/api/.git")];

    assert_eq!(refuse_collisions(&adding, &existing, &vec![None], "auth-work"), Ok(()));
}

#[test]
fn the_new_entries_keep_the_order_they_were_named_in() {
    let adding = vec![planned("@web", "web", "/projects/web/repo.git"), planned("/repos/api", "api", "/repos/api/.git")];

    assert_eq!(entries(&adding), vec![held("web", "@web"), held("api", "/repos/api")]);
}

fn made(member: &str, path: &str) -> PerMember<CreatedMember> {
    PerMember::ok(
        MemberRef::parse(member).unwrap(),
        CreatedMember {
            branch: "feat-login".to_owned(),
            created_branch: true,
            path: WorktreePath::parse(path).unwrap(),
            unwound: false,
        },
    )
}

/// Answers each step with success up to the build, and says which were asked.
fn add_up_to_the_build(progress: &mut PlaneAddProgress) -> Vec<PlaneAddAt> {
    let mut asked = Vec::new();
    loop {
        let step = plane_add_next(progress, CreateEvent::Done);
        let PlaneAddStep::Take(at) = step else { panic!("the add stopped early: {step:?}") };
        asked.push(at);
        if at == PlaneAddAt::Building {
            return asked;
        }
    }
}

#[test]
fn an_add_rechecks_under_the_lock_and_writes_the_plane_file_before_any_worktree() {
    let mut progress = PlaneAddProgress::new("auth-work", "/planes/auth-work".to_owned());
    assert_eq!(
        add_up_to_the_build(&mut progress),
        vec![PlaneAddAt::Locking, PlaneAddAt::Rechecking, PlaneAddAt::WritingPlaneFile, PlaneAddAt::Building]
    );
    let step = plane_add_next(
        &mut progress,
        CreateEvent::Built { members: vec![made("/repos/docs", "repos/docs")], interrupted: false },
    );
    let PlaneAddStep::Finish(Ok(added)) = step else { panic!("every member made is an add done, got {step:?}") };
    assert_eq!(added.id, "auth-work");
    assert_eq!(added.members, vec![made("/repos/docs", "repos/docs")]);
    assert!(!added.interrupted && !added.remnant);
}

#[test]
fn a_failed_add_takes_back_its_members_and_restores_the_plane_file() {
    let mut progress = PlaneAddProgress::new("auth-work", "/planes/auth-work".to_owned());
    add_up_to_the_build(&mut progress);
    let failed = PerMember::failed(MemberRef::parse("/repos/db").unwrap(), EngineError::GitFailed { message: "boom".to_owned() });
    let step = plane_add_next(&mut progress, CreateEvent::Built { members: vec![failed], interrupted: false });
    let PlaneAddStep::Unwind(rows) = step else { panic!("a failed member unwinds, got {step:?}") };
    let (members, rollback, clean) = take_back_rows(rows, vec![Ok(false)]);
    let step = plane_add_next(&mut progress, CreateEvent::TakenBack { members, rollback, clean });
    assert!(matches!(step, PlaneAddStep::Take(PlaneAddAt::Restoring)));
    let step = plane_add_next(&mut progress, CreateEvent::Done);
    let PlaneAddStep::Finish(Err(EngineError::AddAborted { plane, remnant, .. })) = step else {
        panic!("a failed add answers the failure, got {step:?}")
    };
    assert_eq!(plane, "auth-work");
    assert!(!remnant);
}
