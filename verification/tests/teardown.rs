use bitplane::outcome::PerMember;
use bitplane::teardown::{
    after_prune, after_refusal, destroy_next, remove_next, DestroyAt, DestroyEvent, DestroyProgress, DestroyStep,
    RefusalStep, RemoveAt, RemoveProgress, RemoveStep,
};
use bitplane::wire::RemovedMember;
use bitplane::error::{EngineError, Teardown};
use bitplane::member::{MemberRef, WorktreePath};
use bitplane::plane_file::{Member, PlaneFile};
use bitplane::plane_id::PlaneId;
use bitplane::refusal::{Reason, Waivers};
use bitplane::teardown::{
    check_every, insistence, named_member, reasons, removal, step_for, Checked, Insistence, Inspection, Removal, Step,
    WorkingTree, WorktreeLock,
};

fn member(path: &str, source: &str) -> Member {
    Member { path: WorktreePath::parse(path).unwrap(), source: MemberRef::Repo(source.to_owned()) }
}

fn seen(branch: Option<&str>, uncommitted: bool, untracked: bool, contained: Option<bool>) -> Inspection {
    Inspection::Seen {
        registered: true,
        branch: branch.map(str::to_owned),
        locked: None,
        state: Some(WorkingTree { uncommitted, untracked }),
        contained,
    }
}

fn checked(path: &str, source: &str, seen: Inspection) -> Checked {
    Checked { member: member(path, source), at: format!("/planes/p/{path}"), source: Some(source.to_owned()), seen }
}

#[test]
fn git_is_pushed_no_harder_than_the_waivers_allow() {
    assert_eq!(insistence(&[], false), Insistence::Polite);
    assert_eq!(insistence(&[Reason::Uncommitted], false), Insistence::Forced);
    assert_eq!(
        insistence(&[Reason::LockedWorktree], false),
        Insistence::ForcedThroughLock,
        "git wants --force twice for a worktree it has locked"
    );
}

#[test]
fn a_latched_plane_is_forced_through_without_a_waiver_being_granted() {
    assert_eq!(insistence(&[], true), Insistence::ForcedThroughLock);
}

#[test]
fn every_reason_a_member_has_is_raised_in_its_own_words() {
    let one = Checked {
        member: member("acme/api", "/repos/api"),
        at: "/planes/p/acme/api".to_owned(),
        source: Some("/repos/api".to_owned()),
        seen: Inspection::Seen {
            registered: true,
            branch: Some("feat-login".to_owned()),
            locked: Some(WorktreeLock { reason: Some("migration".to_owned()) }),
            state: Some(WorkingTree { uncommitted: true, untracked: true }),
            contained: Some(false),
        },
    };

    let raised: Vec<(Reason, String)> = reasons(&one).into_iter().map(|r| (r.reason, r.detail)).collect();

    assert_eq!(
        raised,
        vec![
            (Reason::LockedWorktree, "the worktree is locked: migration".to_owned()),
            (Reason::Uncommitted, "feat-login has uncommitted changes".to_owned()),
            (Reason::Untracked, "feat-login has untracked files".to_owned()),
            (Reason::Unpushed, "feat-login has commits that are not on origin".to_owned()),
        ]
    );
}

#[test]
fn a_member_git_will_not_answer_for_is_its_own_reason_and_nothing_else() {
    let one = checked("acme/api", "/repos/api", Inspection::Unreachable("the source repo is missing from /repos/api".to_owned()));

    let raised = reasons(&one);

    assert_eq!(raised.len(), 1);
    assert_eq!(raised[0].reason, Reason::SourceRepoMissing);
    assert_eq!(removal(&one, &[Reason::SourceRepoMissing], false), Removal::DirectoryThenPrune);
}

#[test]
fn a_member_already_gone_raises_nothing_and_is_already_done() {
    let one = checked("acme/api", "/repos/api", Inspection::Gone);

    assert!(reasons(&one).is_empty());
    assert_eq!(step_for(&one, false), Step::AlreadyDone);
    assert_eq!(step_for(&one, true), Step::Interrupted);
}

#[test]
fn a_refusal_names_every_surviving_reason_across_every_member() {
    let looked = vec![
        checked("acme/api", "/repos/api", seen(Some("feat"), true, false, Some(true))),
        checked("acme/web", "/repos/web", seen(Some("feat"), false, true, Some(false))),
        checked("acme/doc", "/repos/doc", seen(None, false, false, Some(true))),
    ];

    let error = check_every(&looked, &Waivers::new(vec![Reason::Untracked]), "bp-a3f9c2e1", Teardown::Destroy).unwrap_err();

    match error {
        EngineError::Refused { plane, operation, blocking, considered, refusals } => {
            assert_eq!(plane, "bp-a3f9c2e1");
            assert_eq!(operation, Teardown::Destroy);
            assert_eq!(blocking, 2);
            assert_eq!(considered, 3);
            let kinds: Vec<Reason> = refusals.iter().map(|r| r.reason).collect();
            assert_eq!(kinds, vec![Reason::Uncommitted, Reason::Unpushed]);
        },
        other => panic!("got {other:?}"),
    }
}

#[test]
fn waivers_that_cover_everything_let_the_teardown_through_echoing_what_was_waived() {
    let looked = vec![
        checked("acme/api", "/repos/api", seen(Some("feat"), true, false, Some(true))),
        checked("acme/web", "/repos/web", seen(Some("feat"), false, false, Some(true))),
    ];

    let waived = check_every(&looked, &Waivers::new(vec![Reason::Uncommitted]), "bp-a3f9c2e1", Teardown::Remove).unwrap();

    assert_eq!(waived, vec![vec![Reason::Uncommitted], vec![]]);
    assert_eq!(removal(&looked[0], &waived[0], false), Removal::Git(Insistence::Forced));
    assert_eq!(removal(&looked[1], &waived[1], false), Removal::Git(Insistence::Polite));
}

#[test]
fn rm_takes_only_members_of_the_plane_and_each_once() {
    let file = PlaneFile::new(
        PlaneId::parse("bp-a3f9c2e1").unwrap(),
        vec![member("acme/api", "/repos/api"), member("acme/web", "/repos/web")],
    );
    let api = MemberRef::Repo("/repos/api".to_owned());

    let first = named_member(&Vec::new(), &api, &file, "bp-a3f9c2e1").unwrap();
    assert_eq!(first.path.to_text(), "acme/api");

    assert!(matches!(
        named_member(&vec![first], &api, &file, "bp-a3f9c2e1"),
        Err(EngineError::DuplicateMember { .. })
    ));
    assert!(matches!(
        named_member(&Vec::new(), &MemberRef::Repo("/repos/doc".to_owned()), &file, "bp-a3f9c2e1"),
        Err(EngineError::ProjectNotInPlane { .. })
    ));
}

#[test]
fn a_refused_remove_is_retried_only_through_a_prune_of_what_git_calls_prunable() {
    assert_eq!(after_refusal(false, None), RefusalStep::Refuse);
    assert_eq!(after_refusal(true, None), RefusalStep::Prune);
    assert_eq!(after_refusal(true, Some(true)), RefusalStep::Refuse);
    assert_eq!(after_refusal(true, Some(false)), RefusalStep::RemoveDirectory);

    assert_eq!(after_prune(true, false, "/planes/p/api"), Ok(()));
    assert_eq!(after_prune(false, true, "/planes/p/api"), Ok(()));
    assert_eq!(
        after_prune(true, true, "/planes/p/api"),
        Err(EngineError::GitFailed {
            message: "git still records a worktree at /planes/p/api; unlock it and try again".to_owned()
        })
    );
}

fn out(path: &str) -> PerMember<RemovedMember> {
    PerMember::ok(
        MemberRef::parse(&format!("/repos/{path}")).unwrap(),
        RemovedMember { branch: None, path: WorktreePath::parse(path).unwrap(), branch_deleted: false, waived: Vec::new() },
    )
}

fn destroy_up_to_taking_out(progress: &mut DestroyProgress) {
    for expected in [DestroyAt::Locking, DestroyAt::Checking, DestroyAt::TakingOut] {
        let step = destroy_next(progress, DestroyEvent::Done);
        assert!(matches!(step, DestroyStep::Take(at) if at == expected), "expected {expected:?}, got {step:?}");
    }
}

#[test]
fn a_destroy_removes_the_plane_file_and_then_the_directory_once_every_member_is_out() {
    let mut progress = DestroyProgress::new("auth-work");
    destroy_up_to_taking_out(&mut progress);
    let step = destroy_next(&mut progress, DestroyEvent::TakenOut { rows: vec![out("api")], interrupted: false });
    assert!(matches!(step, DestroyStep::Take(DestroyAt::RemovingPlaneFile)));
    let step = destroy_next(&mut progress, DestroyEvent::Done);
    assert!(matches!(step, DestroyStep::Take(DestroyAt::RemovingDirectory)));
    let step = destroy_next(&mut progress, DestroyEvent::Done);
    assert!(matches!(step, DestroyStep::Finish { ref rows, interrupted: false } if rows == &vec![out("api")]));
}

#[test]
fn an_interrupted_destroy_leaves_the_plane_standing() {
    let mut progress = DestroyProgress::new("auth-work");
    destroy_up_to_taking_out(&mut progress);
    let step = destroy_next(&mut progress, DestroyEvent::TakenOut { rows: vec![out("api")], interrupted: true });
    assert!(matches!(step, DestroyStep::Finish { interrupted: true, .. }));
}

#[test]
fn a_member_that_would_not_come_out_fails_the_destroy_before_the_plane_file_goes() {
    let mut progress = DestroyProgress::new("auth-work");
    destroy_up_to_taking_out(&mut progress);
    let failed = PerMember::failed(MemberRef::parse("/repos/db").unwrap(), EngineError::GitFailed { message: "locked".to_owned() });
    let step = destroy_next(&mut progress, DestroyEvent::TakenOut { rows: vec![out("api"), failed], interrupted: false });
    assert!(matches!(
        step,
        DestroyStep::Fail(EngineError::RemovalFailed { ref plane, operation: Teardown::Destroy, .. }) if plane == "auth-work"
    ));
}

#[test]
fn an_rm_rewrites_the_plane_file_only_after_its_members_came_out() {
    let mut progress = RemoveProgress::new("auth-work");
    for expected in [RemoveAt::Locking, RemoveAt::Checking, RemoveAt::TakingOut] {
        let step = remove_next(&mut progress, DestroyEvent::Done);
        assert!(matches!(step, RemoveStep::Take(at) if at == expected), "expected {expected:?}, got {step:?}");
    }
    let step = remove_next(&mut progress, DestroyEvent::TakenOut { rows: vec![out("api")], interrupted: false });
    assert!(matches!(step, RemoveStep::Take(RemoveAt::Rewriting)));
    assert_eq!(progress.taken_out(), &vec![out("api")]);
    let step = remove_next(&mut progress, DestroyEvent::Done);
    assert!(matches!(step, RemoveStep::Finish { interrupted: false, .. }));
}
