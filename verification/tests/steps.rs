use bitplane::create::{cut_by_this_run, rollback_insistence};
use bitplane::directories::Directories;
use bitplane::error::EngineError;
use bitplane::member::{MemberRef, ProjectName, WorktreePath};
use bitplane::outcome::Outcome;
use bitplane::plan::{planned_member, MemberFound};
use bitplane::plane_dir::{innermost_plane, plane_named, standing};
use bitplane::plane_file::{without_paths, Member, PlaneFile};
use bitplane::plane_id::PlaneId;
use bitplane::porcelain::WorktreeEntry;
use bitplane::project_dir::ProjectDirectory;
use bitplane::project_fetch::{fetched, Fetched};
use bitplane::project_file::{script_finished, script_named, ProjectFile};
use bitplane::scripts::{Script, ScriptCommand, ScriptName};
use bitplane::source::ProjectSource;
use bitplane::teardown::{inspection, looked_at, weighs, Insistence, Inspection, WorkingTree, WorktreeLock};
use bitplane::wire::PlaneRef;

fn directories() -> Directories {
    Directories::new("/home/alfonz/planes", "/data/projects")
}

fn owned_project(name: &str, url: &str) -> (ProjectDirectory, ProjectFile) {
    let name = ProjectName::parse(name).unwrap();
    let project = ProjectDirectory::of(&directories(), name.clone());
    let file = ProjectFile::new(name, ProjectSource::Owned { url: url.to_owned() });
    (project, file)
}

#[test]
fn a_project_member_is_planned_from_its_project_file() {
    let (project, file) = owned_project("acme/api", "git@gitlab.com:acme/api.git");
    let planned = planned_member(
        MemberFound::Project { project, file },
        Some("feat-login".to_owned()),
        None,
        Ok("/data/projects/acme/api/repo.git".to_owned()),
    )
    .unwrap();

    assert_eq!(planned.reference, MemberRef::parse("@acme/api").unwrap());
    assert_eq!(planned.source, "/data/projects/acme/api/repo.git");
    assert_eq!(planned.branch, "feat-login");
    assert_eq!(planned.path.as_path(), "acme/api");
    assert!(planned.owned);
    assert!(planned.base.is_none());
}

#[test]
fn a_path_member_is_planned_under_its_canonical_path() {
    let planned = planned_member(
        MemberFound::Path { source: "/home/alfonz/code/api".to_owned() },
        None,
        Some("feat-login"),
        Ok("/home/alfonz/code/api/.git".to_owned()),
    )
    .unwrap();

    assert_eq!(planned.reference, MemberRef::Repo("/home/alfonz/code/api".to_owned()));
    assert_eq!(planned.path.as_path(), "code/api");
    assert_eq!(planned.repository, "/home/alfonz/code/api/.git");
    assert!(!planned.owned);
}

#[test]
fn a_member_fails_first_on_its_path_then_its_branch_then_its_repository() {
    let no_repo = || Err(EngineError::GitFailed { message: "not a repository".to_owned() });
    let error = planned_member(MemberFound::Path { source: "/home/alfonz/code/api".to_owned() }, None, None, no_repo())
        .unwrap_err();
    assert_eq!(error, EngineError::BranchUnspecified { member: "/home/alfonz/code/api".to_owned() });

    let error = planned_member(MemberFound::Path { source: "/".to_owned() }, None, None, no_repo()).unwrap_err();
    assert!(matches!(error, EngineError::InvalidRequest { .. }), "got {error:?}");

    let error = planned_member(
        MemberFound::Path { source: "/home/alfonz/code/api".to_owned() },
        Some("x".to_owned()),
        None,
        no_repo(),
    )
    .unwrap_err();
    assert_eq!(error, EngineError::GitFailed { message: "not a repository".to_owned() });
}

#[test]
fn a_plane_is_found_by_id_only_where_its_plane_file_is() {
    let plane = plane_named("auth-work", "/home/alfonz/planes/auth-work", true).unwrap();
    assert_eq!(plane.id(), "auth-work");
    assert_eq!(
        plane_named("auth-work", "/home/alfonz/planes/auth-work", false).unwrap_err(),
        EngineError::PlaneNotFound { sought: PlaneRef::Id { id: "auth-work".to_owned() } }
    );
}

#[test]
fn the_innermost_plane_holding_a_path_is_the_one_it_is_in() {
    let ancestors: Vec<String> =
        ["/planes/p/api/src", "/planes/p/api", "/planes/p", "/planes", "/"].iter().map(|s| s.to_string()).collect();
    let plane = innermost_plane("/planes/p/api/src", &ancestors, &vec![false, false, true, false, false]).unwrap();
    assert_eq!(plane.path(), "/planes/p");
    assert_eq!(
        innermost_plane("/tmp", &vec!["/tmp".to_owned(), "/".to_owned()], &vec![false, false]).unwrap_err(),
        EngineError::PlaneNotFound { sought: PlaneRef::ContainingPath { path: "/tmp".to_owned() } }
    );
}

#[test]
fn only_a_standing_plane_answers_with_its_membership() {
    let file = PlaneFile::new(PlaneId::parse("auth-work").unwrap(), Vec::new());
    assert_eq!(standing("auth-work", false, Some(file.clone())), Ok(file.clone()));
    let incomplete = Err(EngineError::PlaneIncomplete { id: "auth-work".to_owned() });
    assert_eq!(standing("auth-work", true, Some(file)), incomplete);
    assert_eq!(standing("auth-work", false, None), Err(EngineError::PlaneIncomplete { id: "auth-work".to_owned() }));
}

#[test]
fn a_fetch_that_changed_nothing_was_already_done() {
    assert_eq!(fetched(0), Outcome::AlreadyDone);
    assert_eq!(fetched(3), Outcome::Completed(Fetched { updated: 3 }));
}

#[test]
fn a_rollback_forces_and_deletes_only_a_branch_it_cut() {
    assert_eq!(rollback_insistence(), Insistence::Forced);
    let (project, file) = owned_project("acme/api", "git@gitlab.com:acme/api.git");
    let planned =
        planned_member(MemberFound::Project { project, file }, Some("feat".to_owned()), None, Ok("/r".to_owned()))
            .unwrap();
    assert!(!cut_by_this_run(&planned));
}

#[test]
fn what_git_says_of_a_member_is_read_as_an_inspection() {
    assert!(weighs(true, true) && !weighs(true, false) && !weighs(false, true));
    assert_eq!(inspection(None, false, None), Inspection::Gone);

    let entry = WorktreeEntry {
        path: "/planes/p/api".to_owned(),
        branch: Some("feat".to_owned()),
        locked: Some(WorktreeLock { reason: None }),
        prunable: false,
    };
    let clean = WorkingTree { uncommitted: false, untracked: false };
    assert_eq!(
        inspection(Some(entry), true, Some((clean, None))),
        Inspection::Seen {
            registered: true,
            branch: Some("feat".to_owned()),
            locked: Some(WorktreeLock { reason: None }),
            state: Some(clean),
            contained: Some(false),
        }
    );
    assert_eq!(
        inspection(None, true, None),
        Inspection::Seen { registered: false, branch: None, locked: None, state: None, contained: None }
    );
}

#[test]
fn a_member_git_cannot_be_asked_about_is_unreachable_rather_than_a_failure() {
    let member = MemberRef::parse("@acme/api").unwrap();
    assert_eq!(
        looked_at(&member, None),
        Ok(Inspection::Unreachable("the source repo is missing from @acme/api".to_owned()))
    );
    assert_eq!(
        looked_at(&member, Some(Err(EngineError::GitFailed { message: "no".to_owned() }))),
        Ok(Inspection::Unreachable("no".to_owned()))
    );
    let lock = || EngineError::LockTimeout { object: "/planes/p/.bitplane/lock".to_owned() };
    assert_eq!(looked_at(&member, Some(Err(lock()))), Err(lock()));
}

#[test]
fn a_rewrite_keeps_exactly_the_members_not_taken_out() {
    let member = |path: &str| Member {
        path: WorktreePath::parse(path).unwrap(),
        source: MemberRef::Repo(format!("/repos/{path}")),
    };
    let kept = without_paths(vec![member("api"), member("web"), member("docs")], &[WorktreePath::parse("web").unwrap()]);
    assert_eq!(kept, vec![member("api"), member("docs")]);
}

#[test]
fn a_script_is_run_by_a_valid_name_it_defines_and_fails_on_any_other_status() {
    let mut file = owned_project("acme/api", "git@gitlab.com:acme/api.git").1;
    file.scripts.push(Script {
        name: ScriptName::parse("setup").unwrap(),
        command: ScriptCommand::Shell("make".to_owned()),
        points: Vec::new(),
    });
    let member = MemberRef::parse("@acme/api").unwrap();

    assert_eq!(script_named(&file, &member, "setup").unwrap().name.as_str(), "setup");
    assert_eq!(
        script_named(&file, &member, "Set Up").unwrap_err(),
        EngineError::InvalidRequest { message: "Set Up is not a valid script name".to_owned() }
    );
    assert_eq!(
        script_named(&file, &member, "build").unwrap_err(),
        EngineError::InvalidRequest { message: "@acme/api has no script called build".to_owned() }
    );

    assert_eq!(script_finished("/planes/p/api", "setup", 0), Ok(()));
    assert_eq!(
        script_finished("/planes/p/api", "setup", 2),
        Err(EngineError::Io { path: "/planes/p/api".to_owned(), message: "script setup exited 2".to_owned() })
    );
}
