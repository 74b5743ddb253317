use bitplane::member::{MemberRef, WorktreePath};
use bitplane::plane_file::{Member, PlaneFile};
use bitplane::plane_id::PlaneId;

const PATH: &str = "/planes/bp-a3f9c2e1/plane.toml";

fn plane_file() -> PlaneFile {
    PlaneFile::new(
        PlaneId::parse("bp-a3f9c2e1").unwrap(),
        vec![
            Member { path: WorktreePath::parse("acme/codestyle").unwrap(), source: MemberRef::parse("@codestyle").unwrap() },
            Member {
                path: WorktreePath::parse("projects/bitplane").unwrap(),
                source: MemberRef::Repo("/Users/alfonz/projects/bitplane".to_owned()),
            },
        ],
    )
}

#[test]
fn the_file_is_exactly_three_keys_and_a_path_keyed_table() {
    let file = plane_file();

    assert_eq!(
        file.render(),
        [
            "version = 1\n",
            "id = \"bp-a3f9c2e1\"\n",
            "\n",
            "[members]\n",
            "\"acme/codestyle\"    = \"@codestyle\"\n",
            "\"projects/bitplane\" = \"/Users/alfonz/projects/bitplane\"\n",
        ].concat()
    );
}

#[test]
fn plane_file_what_is_rendered_parses_back_to_what_was_rendered() {
    let file = plane_file();

    assert_eq!(PlaneFile::parse(PATH, &file.render()).unwrap(), file);
}

#[test]
fn a_member_path_a_filesystem_allows_is_rendered_as_toml_rather_than_rust_debug() {
    let file = PlaneFile::new(
        PlaneId::parse("bp-a3f9c2e1").unwrap(),
        vec![Member {
            path: WorktreePath::parse("projects/e\u{301}clair").unwrap(),
            source: MemberRef::Repo("/Users/alfonz/projects/e\u{301}clair".to_owned()),
        }],
    );

    assert_eq!(PlaneFile::parse(PATH, &file.render()).unwrap(), file, "rendered as: {}", file.render());
}

#[test]
fn membership_keeps_the_order_it_was_written_in() {
    let text = [
        "version = 1\nid = \"bp-a3f9c2e1\"\n\n[members]\n",
        "\"z/last\" = \"/repos/last\"\n",
        "\"a/first\" = \"/repos/first\"\n",
    ].concat();

    let file = PlaneFile::parse(PATH, &text).unwrap();

    let keys: Vec<String> = file.members.iter().map(|member| member.path.to_text()).collect();
    assert_eq!(keys, ["z/last", "a/first"], "order is what a fan-out prints");
}

#[test]
fn plane_file_an_unrecognised_top_level_key_is_a_parse_error_naming_it() {
    let text = "version = 1\nid = \"bp-a3f9c2e1\"\nhost = \"local\"\n\n[members]\n";

    let error = PlaneFile::parse(PATH, &text).unwrap_err();

    let envelope = error.envelope();
    assert_eq!(envelope.error, "parse_error");
    assert!(envelope.message.contains("host"), "got {}", envelope.message);
    assert!(envelope.message.contains(PATH), "got {}", envelope.message);
    assert_eq!(envelope.remedy.as_deref(), Some("Legal keys are version, id and members."));
}

#[test]
fn every_dangerous_member_key_is_a_parse_error_naming_the_key() {
    let cases = [
        ("/acme/codestyle", "is absolute"),
        ("../outside", "contains .."),
        ("./acme", "starts with ./"),
        (".bitplane/api", "begins with .bitplane"),
    ];

    for (key, reason) in cases {
        let text = format!("version = 1\nid = \"bp-a3f9c2e1\"\n\n[members]\n{key:?} = \"/repos/api\"\n");

        let error = PlaneFile::parse(PATH, &text).unwrap_err();
        let message = error.envelope().message;

        assert!(message.contains(key), "{key:?} unnamed in: {message}");
        assert!(message.contains(reason), "{key:?} unexplained in: {message}");
    }
}

#[test]
fn membership_spelled_inline_is_still_membership() {
    let text = ["version = 1\nid = \"bp-a3f9c2e1\"\n", "members = { \"acme/codestyle\" = \"@codestyle\" }\n",].concat();

    let file = PlaneFile::parse(PATH, &text).unwrap();

    assert_eq!(file.members.len(), 1);
    assert_eq!(file.members[0].source.to_text(), "@codestyle");
}

#[test]
fn a_nested_table_under_members_is_a_parse_error() {
    let text = [
        "version = 1\nid = \"bp-a3f9c2e1\"\n\n",
        "[members]\n[members.\"acme/codestyle\"]\nproject = \"codestyle\"\n"
    ].concat();

    let error = PlaneFile::parse(PATH, &text).unwrap_err();

    assert!(error.envelope().message.contains("acme/codestyle"), "got {}", error.envelope().message);
}

#[test]
fn a_dotted_key_is_caught_as_the_nested_table_it_silently_becomes() {
    let text = "version = 1\nid = \"bp-a3f9c2e1\"\n\n[members]\nfoo.bar = \"/repos/api\"\n";

    assert!(PlaneFile::parse(PATH, &text).is_err());
}

#[test]
fn two_members_of_the_same_source_are_a_parse_error_naming_both_keys() {
    let text = [
        "version = 1\nid = \"bp-a3f9c2e1\"\n\n[members]\n",
        "\"acme/codestyle\" = \"@codestyle\"\n",
        "\"other/codestyle\" = \"@codestyle\"\n",
    ].concat();

    let error = PlaneFile::parse(PATH, &text).unwrap_err();
    let message = error.envelope().message;

    assert!(message.contains("acme/codestyle"), "got {message}");
    assert!(message.contains("other/codestyle"), "got {message}");
}

#[test]
fn plane_file_a_version_bitplane_does_not_understand_is_refused_rather_than_guessed_at() {
    let text = "version = 2\nid = \"bp-a3f9c2e1\"\n\n[members]\n";

    let error = PlaneFile::parse(PATH, &text).unwrap_err();

    assert!(error.envelope().message.contains("version 2"), "got {}", error.envelope().message);
}

#[test]
fn a_comment_a_user_wrote_survives_being_read() {
    let text = [
        "# do not reap, long-running migration\n",
        "version = 1\nid = \"bp-a3f9c2e1\"\n\n[members]\n",
        "\"acme/codestyle\" = \"@codestyle\"\n",
    ].concat();

    let file = PlaneFile::parse(PATH, &text).unwrap();

    assert_eq!(file.members.len(), 1);
}

#[test]
fn a_file_that_is_not_toml_carries_the_readers_own_words() {
    let error = PlaneFile::parse(PATH, "version = = 1\n").unwrap_err();
    let envelope = error.envelope();

    assert_eq!(envelope.error, "parse_error");
    assert!(envelope.message.starts_with(PATH), "got {}", envelope.message);
}

#[test]
fn a_negative_version_is_named_as_written() {
    let error = PlaneFile::parse(PATH, "version = -3\nid = \"bp-a3f9c2e1\"\n\n[members]\n").unwrap_err();

    assert_eq!(error.message(), format!("{PATH}: version -3 is not a version bitplane understands"));
}

#[test]
fn a_missing_membership_table_is_named() {
    let error = PlaneFile::parse(PATH, "version = 1\nid = \"bp-a3f9c2e1\"\n").unwrap_err();

    assert_eq!(error.message(), format!("{PATH}: members is missing"));
}
