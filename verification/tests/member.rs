use bitplane::error::EngineError;
use bitplane::member::{MalformedWorktreePath, MemberRef, ProjectName, WorktreePath, MAX_PROJECT_NAME_LENGTH, PROJECT_SIGIL};

#[test]
fn a_member_ref_round_trips_through_the_string_the_file_stores() {
    let cases = ["@codestyle", "@api", "/Users/alfonz/projects/bitplane", "/tmp/repo"];

    for value in cases {
        let member = MemberRef::parse(value).unwrap();
        assert_eq!(member.to_text(), value);
    }
}

#[test]
fn the_sigil_is_stripped_once_and_never_carried() {
    let MemberRef::Project(name) = MemberRef::parse("@codestyle").unwrap() else {
        panic!("expected a project");
    };

    assert_eq!(name.as_str(), "codestyle");
    assert!(!name.as_str().contains(PROJECT_SIGIL));
}

#[test]
fn a_sigil_on_something_that_is_not_a_project_name_is_refused() {
    for value in ["@", "@Codestyle", "@acme//codestyle", "@-api"] {
        assert!(
            matches!(MemberRef::parse(value), Err(EngineError::InvalidProjectName { .. })),
            "{value} should not be a project"
        );
    }
}

#[test]
fn the_sigil_and_not_the_charset_is_what_keeps_the_two_arms_apart() {
    let MemberRef::Project(name) = MemberRef::parse("@acme/codestyle").unwrap() else {
        panic!("a sigil makes it a project however many slashes follow");
    };
    assert_eq!(name.as_str(), "acme/codestyle");

    assert_eq!(
        MemberRef::parse("acme/codestyle").unwrap(),
        MemberRef::Repo("acme/codestyle".to_owned()),
        "bare, the same text is still a relative path"
    );
}

#[test]
fn a_name_is_a_path_of_segments_each_on_the_charset() {
    for name in ["codestyle", "acme/codestyle", "acme/platform/tooling/codestyle", "a.b/c_d-e/9"] {
        assert_eq!(ProjectName::parse(name).unwrap().as_str(), name);
    }
}

#[test]
fn every_way_a_path_could_escape_is_refused_by_the_charset() {
    for name in [
        "", "/acme", "acme/", "acme//api", ".", "..", "acme/../api", "acme/./api", "Acme/api", "acme/-api",
        "acme/.hidden",
    ] {
        assert!(
            matches!(ProjectName::parse(name), Err(EngineError::InvalidProjectName { .. })),
            "{name:?} should not be a project name"
        );
    }
}

#[test]
fn depth_is_uncapped_and_length_is_bounded_at_128() {
    let deep: String = std::iter::repeat_n("a", 60).collect::<Vec<&str>>().join("/");
    assert_eq!(deep.len(), 119);
    assert!(ProjectName::parse(&deep).is_ok(), "depth is not the bound");

    let long = "a".repeat(MAX_PROJECT_NAME_LENGTH);
    assert!(ProjectName::parse(&long).is_ok());
    assert!(ProjectName::parse(&format!("{long}a")).is_err());
}

#[test]
fn the_two_directories_bitplane_puts_inside_a_project_are_reserved_as_segments() {
    for (name, segment) in [("repo.git", "repo.git"), ("bin", "bin"), ("acme/bin", "bin"), ("acme/repo.git/api", "repo.git")] {
        assert_eq!(
            ProjectName::parse(name),
            Err(EngineError::ReservedNameSegment { name: name.to_owned(), segment: segment.to_owned() }),
            "for {name}"
        );
    }

    assert!(ProjectName::parse("acme/binary").is_ok(), "the reservation is a whole segment, not a prefix");
}

#[test]
fn nesting_is_a_segment_boundary_in_either_direction_and_never_equality() {
    let parent = ProjectName::parse("acme").unwrap();
    let child = ProjectName::parse("acme/codestyle").unwrap();

    assert!(parent.nests_with(&child));
    assert!(child.nests_with(&parent), "and the other way round");
    assert!(!parent.nests_with(&parent), "equal is taken, not nesting");
    assert!(
        !ProjectName::parse("acme/api").unwrap().nests_with(&ProjectName::parse("acme/apiary").unwrap()),
        "a shared prefix that is not a whole segment is not nesting"
    );
}

#[test]
fn the_ladder_suffixes_the_last_segment_and_never_the_whole_name() {
    assert_eq!(
        ProjectName::parse("acme/api").unwrap().with_last_segment("api-2").unwrap().as_str(),
        "acme/api-2"
    );
    assert_eq!(ProjectName::parse("api").unwrap().with_last_segment("api-2").unwrap().as_str(), "api-2");
}

#[test]
fn the_worktree_path_is_the_last_two_segments_of_the_source() {
    let cases = [
        ("/Users/alfonz/projects/bitplane", "projects/bitplane"),
        ("/srv/acme/codestyle", "acme/codestyle"),
        ("/repo", "repo"),
    ];

    for (source, expected) in cases {
        let member = MemberRef::Repo(source.to_owned());
        assert_eq!(member.worktree_path(source).unwrap().to_text(), expected, "for {source}");
    }
}

#[test]
fn member_a_source_landing_in_the_reserved_segment_is_refused() {
    let source = "/Users/alfonz/.bitplane/api";
    let member = MemberRef::Repo(source.to_owned());

    let error = member.worktree_path(source).unwrap_err();

    assert!(matches!(error, EngineError::ReservedPathSegment { .. }), "got {error:?}");
}

#[test]
fn a_well_formed_member_key_parses() {
    for key in ["acme/codestyle", "projects/bitplane", "api", "a.b/c_d-e"] {
        assert_eq!(WorktreePath::parse(key).unwrap().to_text(), key, "for {key}");
    }
}

#[test]
fn every_dangerous_member_key_is_refused_by_name() {
    let cases = [
        ("", MalformedWorktreePath::Empty),
        ("/acme/codestyle", MalformedWorktreePath::Absolute),
        ("./acme", MalformedWorktreePath::DotSlash),
        ("../outside", MalformedWorktreePath::ParentDir),
        ("acme/../../outside", MalformedWorktreePath::ParentDir),
        (".bitplane/api", MalformedWorktreePath::ReservedSegment),
        (".bitplane", MalformedWorktreePath::ReservedSegment),
    ];

    for (key, expected) in cases {
        assert_eq!(WorktreePath::parse(key), Err(expected), "for {key:?}");
    }
}

#[test]
fn a_member_key_resolves_under_the_plane_directory_it_belongs_to() {
    let key = WorktreePath::parse("acme/codestyle").unwrap();

    assert_eq!(key.under("/planes/bp-a3f9c2e1"), "/planes/bp-a3f9c2e1/acme/codestyle");
}

#[test]
fn two_refs_are_the_same_member_only_on_the_same_arm() {
    let project = MemberRef::parse("@api").unwrap();
    let path = MemberRef::Repo("@api".to_owned());

    assert!(project.is_same(&MemberRef::parse("@api").unwrap()));
    assert!(!project.is_same(&path), "a path spelled like a project is still a path");
    assert!(project.same_as(&path), "though the two print alike");
}
