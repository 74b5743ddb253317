use bitplane::error::EngineError;
use bitplane::health::{Finding, HealthCheck, PlaneHealth};
use bitplane::member::{MemberRef, WorktreePath};
use bitplane::plane_id::PlaneId;

fn parse_error() -> EngineError {
    EngineError::ParseError {
        path: "/planes/broken/plane.toml".to_owned(),
        message: "unknown key \"status\"".to_owned(),
        legal_keys: ["version", "id", "members"].map(str::to_owned).to_vec(),
    }
}

fn every_finding() -> Vec<Finding> {
    let member = MemberRef::parse("@api").unwrap();
    let path = WorktreePath::parse("acme/api").unwrap();

    vec![
        Finding::MemberWorktreeMissing { member: member.clone(), path: path.clone() },
        Finding::CreateNeverCompleted {
            plane: "auth-work".to_owned(),
            started: Some("2026-09-18T09:41:00Z".to_owned()),
            ago: Some("3 days".to_owned()),
        },
        Finding::SourceRepoMissing { member: member.clone(), source: "/Users/alfonz/projects/api".to_owned() },
        Finding::IdMismatch { recorded: PlaneId::parse("bp-a3f9c2e1").unwrap(), directory: "auth-work".to_owned() },
        Finding::Prunable { member, path },
        Finding::Unreadable { error: parse_error() },
    ]
}

#[test]
fn the_cheap_tier_is_the_default_because_list_runs_constantly() {
    assert_eq!(HealthCheck::default(), HealthCheck::Cheap);
}

#[test]
fn every_finding_says_what_is_wrong_and_what_fixes_it() {
    for finding in every_finding() {
        assert!(!finding.to_text().is_empty(), "{} says nothing", finding.tag());
        assert!(finding.remedy().is_some(), "{} names no way out", finding.tag());
        assert!(!finding.label().is_empty());
    }
}

#[test]
fn a_finding_about_a_member_is_told_from_one_about_the_plane() {
    let member = MemberRef::parse("@api").unwrap();
    let health = PlaneHealth {
        checked: HealthCheck::Cheap,
        findings: vec![
            Finding::IdMismatch { recorded: PlaneId::parse("bp-a3f9c2e1").unwrap(), directory: "auth-work".to_owned() },
            Finding::MemberWorktreeMissing { member: member.clone(), path: WorktreePath::parse("acme/api").unwrap() },
        ],
    };

    assert!(health.has_findings());
    assert_eq!(health.about(&member).len(), 1);
    assert_eq!(health.about_the_plane().len(), 1);
}

#[test]
fn an_unreadable_plane_file_carries_the_parse_failures_own_words() {
    let error = parse_error();

    let finding = Finding::Unreadable { error: parse_error() };

    assert_eq!(finding.to_text(), error.message());
    assert_eq!(finding.remedy(), error.envelope().remedy);
}

#[test]
fn a_sound_plane_reports_nothing_at_the_tier_it_was_checked_at() {
    let health = PlaneHealth::sound(HealthCheck::Full);

    assert!(!health.has_findings());
    assert_eq!(health.checked, HealthCheck::Full);
    assert!(health.about_the_plane().is_empty());
}

#[test]
fn a_missing_worktree_names_the_two_commands_that_fix_it() {
    let finding = Finding::MemberWorktreeMissing {
        member: MemberRef::parse("@api").unwrap(),
        path: WorktreePath::parse("acme/api").unwrap(),
    };

    assert_eq!(finding.to_text(), "the worktree at acme/api is not there");
    assert_eq!(finding.remedy().as_deref(), Some("bp rm @api drops it; bp add @api:<branch> puts it back"));
    assert_eq!(finding.tag(), "member_worktree_missing");
}
