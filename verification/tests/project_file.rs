use bitplane::error::EngineError;
use bitplane::member::ProjectName;
use bitplane::project_file::ProjectFile;
use bitplane::scripts::{Script, ScriptCommand, ScriptName, ScriptPoint};
use bitplane::source::ProjectSource;

const PATH: &str = "/projects/codestyle/project.toml";

fn owned() -> ProjectFile {
    ProjectFile::new(
        ProjectName::parse("codestyle").unwrap(),
        ProjectSource::Owned { url: "git@gitlab.com:acme/codestyle.git".to_owned() },
    )
}

fn adopted() -> ProjectFile {
    ProjectFile::new(
        ProjectName::parse("bitplane").unwrap(),
        ProjectSource::Adopted { path: "/Users/alfonz/projects/bitplane".to_owned() },
    )
}

fn header() -> String {
    ["version = 1\nname = \"codestyle\"\n\n", "[source]\ntype = \"owned\"\nurl = \"git@host:acme/codestyle.git\"\n",].concat()
        .to_owned()
}

fn with_scripts() -> String {
    format!(
        "{}\n{}",
        header(),
        [
            "[scripts.link-alfonz]\n",
            "argv = [\"ln\", \"-s\", \"../../.alfonz\", \".alfonz\"]\n",
            "post_worktree_create = true\n\n",
            "[scripts.install]\n",
            "shell = \"pnpm i && pnpm build\"\n",
            "post_worktree_create = true\n\n",
            "[scripts.stop-stack]\n",
            "shell = \"docker compose down --remove-orphans\"\n",
            "pre_worktree_remove = true\n\n",
            "[scripts.reset-db]\n",
            "shell = \"pnpm db:reset && seed-fixtures\"\n",
        ].concat()
    )
}

fn named(scripts: Vec<&Script>) -> Vec<String> {
    scripts.iter().map(|script| script.name.to_text()).collect()
}

#[test]
fn an_owned_project_is_a_version_a_name_and_a_url() {
    let file = owned();

    assert_eq!(
        file.render(),
        [
            "version = 1\n",
            "name = \"codestyle\"\n",
            "\n",
            "[source]\n",
            "type = \"owned\"\n",
            "url = \"git@gitlab.com:acme/codestyle.git\"\n",
        ].concat()
    );
}

#[test]
fn project_file_what_is_rendered_parses_back_to_what_was_rendered() {
    for file in [owned(), adopted()] {
        assert_eq!(ProjectFile::parse(PATH, &file.render()).unwrap(), file);
    }
}

#[test]
fn project_file_an_unrecognised_top_level_key_is_a_parse_error_naming_it() {
    let text = [
        "version = 1\nname = \"codestyle\"\ndefault_branch = \"main\"\n\n",
        "[source]\ntype = \"owned\"\nurl = \"git@host:acme/codestyle.git\"\n",
    ].concat();

    let error = ProjectFile::parse(PATH, &text).unwrap_err();

    let envelope = error.envelope();
    assert_eq!(envelope.error, "parse_error");
    assert!(envelope.message.contains("default_branch"), "got {}", envelope.message);
    assert_eq!(envelope.remedy.as_deref(), Some("Legal keys are version, name, source and scripts."));
}

#[test]
fn a_type_that_disagrees_with_its_payload_is_a_parse_error() {
    let cases = [("owned", "path = \"/Users/alfonz/projects/codestyle\""), ("adopted", "url = \"git@host:acme/codestyle.git\"")];

    for (kind, payload) in cases {
        let text = format!("version = 1\nname = \"codestyle\"\n\n[source]\ntype = {kind:?}\n{payload}\n");

        let error = ProjectFile::parse(PATH, &text).unwrap_err();
        assert!(error.envelope().message.contains("always a"), "for {kind}: {}", error.envelope().message);
    }
}

#[test]
fn a_kind_bitplane_does_not_know_is_a_parse_error_naming_it() {
    let text = ["version = 1\nname = \"codestyle\"\n\n", "[source]\ntype = \"cloned\"\nurl = \"git@host:acme/codestyle.git\"\n",].concat();

    let error = ProjectFile::parse(PATH, &text).unwrap_err();

    assert!(error.envelope().message.contains("cloned"), "got {}", error.envelope().message);
}

#[test]
fn scripts_are_read_in_declaration_order_with_their_points_and_their_commands() {
    let file = ProjectFile::parse(PATH, &with_scripts()).unwrap();

    assert_eq!(
        file.scripts.iter().map(|script| script.name.to_text()).collect::<Vec<String>>(),
        ["link-alfonz", "install", "stop-stack", "reset-db"],
        "declaration order is execution order, so it is what the file is read in"
    );
    assert_eq!(
        file.scripts[0].command,
        ScriptCommand::Argv(vec!["ln".to_owned(), "-s".to_owned(), "../../.alfonz".to_owned(), ".alfonz".to_owned(),])
    );
    assert_eq!(file.scripts[1].command, ScriptCommand::Shell("pnpm i && pnpm build".to_owned()));
    assert_eq!(file.scripts[3].points, Vec::new(), "a script bound to no point is legal");
}

#[test]
fn the_resolved_per_point_sequence_is_declaration_order_within_each_point() {
    let file = ProjectFile::parse(PATH, &with_scripts()).unwrap();

    assert_eq!(named(file.at(ScriptPoint::PostWorktreeCreate)), ["link-alfonz", "install"]);
    assert_eq!(named(file.at(ScriptPoint::PreWorktreeRemove)), ["stop-stack"]);
}

#[test]
fn an_unknown_key_in_a_script_table_is_a_parse_error_listing_what_was_legal() {
    let text = format!("{}\n[scripts.install]\nshell = \"pnpm i\"\npost_worktree_created = true\n", header());

    let envelope = ProjectFile::parse(PATH, &text).unwrap_err().envelope();

    assert_eq!(envelope.error, "parse_error");
    assert_eq!(envelope.message, format!("{PATH}: unknown key \"post_worktree_created\" in [scripts.install]"));
    assert_eq!(
        envelope.remedy.as_deref(),
        Some("Legal keys are argv, shell, post_worktree_create and pre_worktree_remove.")
    );
}

#[test]
fn a_script_with_neither_command_form_or_with_both_is_a_parse_error() {
    let cases = [
        ("[scripts.install]\npost_worktree_create = true\n", "neither"),
        ("[scripts.install]\nargv = [\"ln\"]\nshell = \"pnpm i\"\n", "both"),
    ];

    for (table, expected) in cases {
        let error = ProjectFile::parse(PATH, &format!("{}\n{table}", header())).unwrap_err();

        assert!(error.envelope().message.contains(expected), "for {table:?}: {}", error.envelope().message);
    }
}

#[test]
fn a_point_toggle_that_is_not_a_boolean_is_a_parse_error_naming_it() {
    let text = format!("{}\n[scripts.install]\nshell = \"pnpm i\"\npost_worktree_create = \"yes\"\n", header());

    let error = ProjectFile::parse(PATH, &text).unwrap_err();

    assert!(
        error.envelope().message.contains("post_worktree_create must be true or false"),
        "got {}",
        error.envelope().message
    );
}

#[test]
fn a_script_name_a_path_could_swallow_is_refused_before_it_reaches_one() {
    let text = format!("{}\n[scripts.\"../../etc/passwd\"]\nshell = \"true\"\n", header());

    let error = ProjectFile::parse(PATH, &text).unwrap_err();

    assert!(error.envelope().message.contains("is not a valid script name"), "got {}", error.envelope().message);
}

#[test]
fn rendering_is_for_a_new_file_only_and_drops_a_scripts_table() {
    let file = ProjectFile::parse(PATH, &with_scripts()).unwrap();

    assert_eq!(file.scripts.len(), 4);
    assert!(!file.render().contains("scripts"), "got {}", file.render());
}

#[test]
fn a_toggle_switched_off_binds_nothing() {
    let text = format!("{}\n[scripts.install]\nshell = \"pnpm i\"\npost_worktree_create = false\n", header());

    let file = ProjectFile::parse(PATH, &text).unwrap();

    assert!(file.at(ScriptPoint::PostWorktreeCreate).is_empty());
}

#[test]
fn project_file_a_version_bitplane_does_not_understand_is_refused_rather_than_guessed_at() {
    let text = ["version = 2\nname = \"codestyle\"\n\n", "[source]\ntype = \"owned\"\nurl = \"git@host:acme/codestyle.git\"\n",].concat();

    let error = ProjectFile::parse(PATH, &text).unwrap_err();

    assert!(error.envelope().message.contains("version 2"), "got {}", error.envelope().message);
}

#[test]
fn the_worktree_path_is_the_last_two_segments_whatever_transport_spelled_it() {
    let cases = [
        ("git@gitlab.com:acme/codestyle.git", "acme/codestyle"),
        ("https://gitlab.com/acme/codestyle.git", "acme/codestyle"),
        ("https://gitlab.com/acme/codestyle", "acme/codestyle"),
        ("ssh://git@gitlab.com/acme/codestyle.git", "acme/codestyle"),
        ("ssh://git@gitlab.com:2222/acme/codestyle", "acme/codestyle"),
        ("file:///srv/git/acme/codestyle.git", "acme/codestyle"),
        ("/srv/git/acme/codestyle.git", "acme/codestyle"),
        ("git@gitlab.com:codestyle.git", "codestyle"),
        ("https://gitlab.com/acme/team/codestyle.git", "team/codestyle"),
        ("git@gitlab.com:acme/codestyle.git/", "acme/codestyle"),
    ];

    for (url, expected) in cases {
        let source = ProjectSource::Owned { url: url.to_owned() };
        assert_eq!(source.worktree_path().unwrap().to_text(), expected, "for {url}");
    }
}

#[test]
fn an_adopted_source_derives_its_path_from_the_checkout() {
    let source = ProjectSource::Adopted { path: "/Users/alfonz/projects/bitplane".to_owned() };

    assert_eq!(source.worktree_path().unwrap().to_text(), "projects/bitplane");
}

#[test]
fn project_file_a_source_landing_in_the_reserved_segment_is_refused() {
    let source = ProjectSource::Owned { url: "git@gitlab.com:.bitplane/tools.git".to_owned() };

    let error = source.worktree_path().unwrap_err();

    assert!(matches!(error, EngineError::ReservedPathSegment { .. }), "got {error:?}");
    assert_eq!(error.message(), "a worktree of this repo would land at .bitplane/tools, which is reserved");
}

#[test]
fn a_source_that_names_a_host_takes_the_whole_path_after_it() {
    let cases = [
        ("git@gitlab.com:acme/codestyle.git", "acme/codestyle"),
        ("git@gitlab.com:acme/platform/tooling/codestyle.git", "acme/platform/tooling/codestyle"),
        ("https://github.com/acme/codestyle.git", "acme/codestyle"),
        ("ssh://git@gitlab.com/acme/api/", "acme/api"),
        ("git@gitlab.com:codestyle.git", "codestyle"),
    ];

    for (url, expected) in cases {
        let source = ProjectSource::Owned { url: url.to_owned() };

        assert_eq!(source.default_name().unwrap().as_str(), expected, "for {url}");
    }
}

#[test]
fn a_source_that_names_no_host_keeps_its_last_segment() {
    let cases: [(ProjectSource, &str); 3] = [
        (ProjectSource::Adopted { path: "/Users/alfonz/projects/bitplane".to_owned() }, "bitplane"),
        (ProjectSource::Owned { url: "/srv/git/acme/codestyle.git".to_owned() }, "codestyle"),
        (ProjectSource::Owned { url: "file:///srv/git/acme/codestyle.git".to_owned() }, "codestyle"),
    ];

    for (source, expected) in cases {
        assert_eq!(source.default_name().unwrap().as_str(), expected, "for {}", source.to_text());
    }
}

#[test]
fn a_derived_name_is_lowercased_and_nothing_else_is_guessed_at() {
    let source = ProjectSource::Owned { url: "git@gitlab.com:Acme/MyProject.git".to_owned() };

    assert_eq!(source.default_name().unwrap().as_str(), "acme/myproject");
}

#[test]
fn a_name_a_path_cannot_hold_is_rendered_as_toml_rather_than_as_rust_debug() {
    let file = ProjectFile::new(
        ProjectName::parse("eclair").unwrap(),
        ProjectSource::Adopted { path: "/Users/alfonz/projects/e\u{301}clair".to_owned() },
    );

    assert_eq!(ProjectFile::parse(PATH, &file.render()).unwrap(), file, "rendered as: {}", file.render());
}

#[test]
fn a_derivation_that_fails_names_the_part_at_fault_and_offers_nothing() {
    let cases = [
        ("git@gitlab.com:acme/My Project.git", "My Project"),
        ("git@gitlab.com:acme/code+style.git", "code+style"),
        ("git@gitlab.com:-acme/codestyle.git", "-acme"),
        ("git@gitlab.com:acme/.hidden.git", ".hidden"),
        ("git@gitlab.com:acme/bin.git", "bin"),
        ("git@gitlab.com:acme/Bin/api.git", "Bin"),
        ("git@gitlab.com:acme/repo.git/api.git", "repo.git"),
    ];

    for (url, at_fault) in cases {
        let source = ProjectSource::Owned { url: url.to_owned() };

        assert_eq!(
            source.default_name(),
            Err(EngineError::DerivedNameInvalid { derived: at_fault.to_owned() }),
            "for {url}, named as the URL spelled it"
        );
    }
}

#[test]
fn a_derived_name_that_is_only_too_long_names_the_whole_name() {
    let deep: Vec<String> = (0..40).map(|ordinal| format!("group{ordinal}")).collect();
    let source = ProjectSource::Owned { url: format!("git@gitlab.com:{}.git", deep.join("/")) };

    assert_eq!(
        source.default_name(),
        Err(EngineError::DerivedNameInvalid { derived: deep.join("/") }),
        "no one segment is the thing to look at, so none is blamed"
    );
}

#[test]
fn a_url_and_the_same_url_without_its_git_suffix_are_one_repository() {
    let plain = ProjectSource::Owned { url: "git@gitlab.com:acme/codestyle".to_owned() };

    assert!(plain.same_repo_as(&ProjectSource::Owned { url: "git@gitlab.com:acme/codestyle.git".to_owned() }));
    assert!(plain.same_repo_as(&ProjectSource::Owned { url: "git@gitlab.com:acme/codestyle/".to_owned() }));
    assert!(
        !plain.same_repo_as(&ProjectSource::Owned { url: "git@github.com:acme/codestyle.git".to_owned() }),
        "the host is not part of the name, and is part of the repository"
    );
    assert!(!plain.same_repo_as(&ProjectSource::Adopted { path: "/Users/alfonz/projects/codestyle".to_owned() }));
}

#[test]
fn a_script_is_found_by_its_name() {
    let file = ProjectFile::parse(PATH, &with_scripts()).unwrap();

    let install = ScriptName::parse("install").unwrap();
    assert_eq!(file.script(&install).unwrap().command, ScriptCommand::Shell("pnpm i && pnpm build".to_owned()));
    assert!(file.script(&ScriptName::parse("deploy").unwrap()).is_none());
}

#[test]
fn a_source_reports_its_kind_in_the_word_it_is_stored_as() {
    assert_eq!(owned().source.kind(), "owned");
    assert_eq!(adopted().source.kind(), "adopted");
    assert!(owned().source.is_owned());
    assert!(!adopted().source.is_owned());
}
