use bitplane::error::EngineError;
use bitplane::health::{Finding, HealthCheck};
use bitplane::member::{MemberRef, WorktreePath};
use bitplane::plane_file::{Member, PlaneFile};
use bitplane::plane_id::PlaneId;
use bitplane::read::{examine, is_prunable, named, unreadable, Latch, MemberFacts, RecordedWorktree};

fn member(path: &str, source: &str) -> Member {
    Member { path: WorktreePath::parse(path).unwrap(), source: MemberRef::parse(source).unwrap() }
}

fn plane(id: &str, members: Vec<Member>) -> PlaneFile {
    PlaneFile::new(PlaneId::parse(id).unwrap(), members)
}

fn facts(worktree: bool, source: &str, source_present: bool, prunable: bool) -> MemberFacts {
    MemberFacts { worktree_present: worktree, source: source.to_owned(), source_present, prunable }
}

fn healthy(source: &str) -> MemberFacts {
    facts(true, source, true, false)
}

#[test]
fn an_id_names_one_directory_under_the_planes_directory() {
    assert_eq!(named("/planes", "auth-work"), Ok("/planes/auth-work".to_owned()));
    assert_eq!(named("/planes/", "Made_By_Hand"), Ok("/planes/Made_By_Hand".to_owned()));
    assert_eq!(named("/planes", "auth-work/"), Ok("/planes/auth-work".to_owned()));
}

#[test]
fn an_id_that_is_not_one_path_segment_is_refused() {
    for id in ["", ".", "..", "../elsewhere", "a/b", "/etc", "./a"] {
        assert_eq!(
            named("/planes", id),
            Err(EngineError::InvalidPlaneId { id: id.to_owned() }),
            "for {id:?}"
        );
    }
}

#[test]
fn the_lowest_tier_looks_at_nothing() {
    let file = plane("auth-work", vec![member("api", "/repos/api")]);
    let health = examine(&file, "elsewhere", HealthCheck::Nothing, None, &vec![facts(false, "/repos/api", false, true)]);

    assert_eq!(health.checked, HealthCheck::Nothing);
    assert!(health.findings.is_empty());
}

#[test]
fn a_sound_plane_has_no_findings() {
    let file = plane("auth-work", vec![member("api", "/repos/api"), member("web", "@web")]);
    let health =
        examine(&file, "auth-work", HealthCheck::Full, None, &vec![healthy("/repos/api"), healthy("/projects/web/repo.git")]);

    assert_eq!(health.checked, HealthCheck::Full);
    assert!(!health.has_findings());
}

#[test]
fn the_plane_s_own_findings_come_first_then_the_members_in_file_order() {
    let file = plane("auth-work", vec![member("api", "/repos/api"), member("web", "@web")]);
    let latch = Latch { started: "2024-05-01T10:00:00Z".to_owned(), ago: Some("3 days".to_owned()) };
    let health = examine(
        &file,
        "renamed",
        HealthCheck::Cheap,
        Some(latch),
        &vec![facts(false, "/repos/api", true, true), facts(true, "/projects/web/repo.git", false, false)],
    );

    assert_eq!(
        health.findings,
        vec![
            Finding::IdMismatch { recorded: PlaneId::parse("auth-work").unwrap(), directory: "renamed".to_owned() },
            Finding::CreateNeverCompleted {
                plane: "renamed".to_owned(),
                started: Some("2024-05-01T10:00:00Z".to_owned()),
                ago: Some("3 days".to_owned()),
            },
            Finding::MemberWorktreeMissing {
                member: MemberRef::parse("/repos/api").unwrap(),
                path: WorktreePath::parse("api").unwrap(),
            },
            Finding::SourceRepoMissing {
                member: MemberRef::parse("@web").unwrap(),
                source: "/projects/web/repo.git".to_owned(),
            },
        ],
        "prunable is the full tier's alone"
    );
}

#[test]
fn prunable_is_reported_only_at_the_full_tier_and_only_where_the_repo_is_there() {
    let file = plane("auth-work", vec![member("api", "/repos/api"), member("web", "/repos/web")]);
    let gathered = vec![facts(false, "/repos/api", true, true), facts(false, "/repos/web", false, true)];

    let health = examine(&file, "auth-work", HealthCheck::Full, None, &gathered);

    assert_eq!(
        health.findings,
        vec![
            Finding::MemberWorktreeMissing {
                member: MemberRef::parse("/repos/api").unwrap(),
                path: WorktreePath::parse("api").unwrap(),
            },
            Finding::Prunable { member: MemberRef::parse("/repos/api").unwrap(), path: WorktreePath::parse("api").unwrap() },
            Finding::MemberWorktreeMissing {
                member: MemberRef::parse("/repos/web").unwrap(),
                path: WorktreePath::parse("web").unwrap(),
            },
            Finding::SourceRepoMissing { member: MemberRef::parse("/repos/web").unwrap(), source: "/repos/web".to_owned() },
        ]
    );
}

#[test]
fn a_plane_file_that_will_not_parse_is_a_finding_at_every_tier() {
    let error = || EngineError::ParseError {
        path: "/planes/x/plane.toml".to_owned(),
        message: "expected a table".to_owned(),
        legal_keys: Vec::new(),
    };
    let health = unreadable(HealthCheck::Nothing, error());

    assert_eq!(health.checked, HealthCheck::Nothing);
    assert_eq!(health.findings, vec![Finding::Unreadable { error: error() }]);
}

#[test]
fn prunable_compares_git_s_record_against_the_resolved_plane_directory() {
    let path = WorktreePath::parse("api").unwrap();
    let entries = vec![
        RecordedWorktree { path: "/private/tmp/planes/p/web".to_owned(), prunable: true },
        RecordedWorktree { path: "/private/tmp/planes/p/api".to_owned(), prunable: false },
    ];

    assert!(!is_prunable("/private/tmp/planes/p", &path, &entries));

    let entries = vec![RecordedWorktree { path: "/private/tmp/planes/p/api".to_owned(), prunable: true }];
    assert!(is_prunable("/private/tmp/planes/p", &path, &entries));
    assert!(!is_prunable("/tmp/planes/p", &path, &entries));
}
