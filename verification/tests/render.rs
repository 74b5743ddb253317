use bitplane::error::{EngineError, ErrorEnvelope, Problem};
use bitplane::member::{MemberRef, WorktreePath};
use bitplane::outcome::{PerMember, SkipReason};
use bitplane::create::PlaneCreated;
use bitplane::plane_id::PlaneId;
use bitplane::render::{columns, created_plane, envelope, member_row, Rendering};
use bitplane::wire::CreatedMember;

#[test]
fn every_line_of_the_human_envelope_maps_to_one_field() {
    let failure = ErrorEnvelope::usage("refused", "refusing to destroy bp-a3f9c2e1")
        .with_problems(vec![
            Problem::about("@api", "feat-login has uncommitted changes"),
            Problem::about("@web", "feat-login has untracked files"),
        ])
        .with_remedy("Inspect the members listed.");

    assert_eq!(
        envelope(&failure, Rendering::Human, ""),
        [
            "error[refused]: refusing to destroy bp-a3f9c2e1\n",
            "\n",
            "  @api  feat-login has uncommitted changes\n",
            "  @web  feat-login has untracked files\n",
            "\n",
            "remedy: Inspect the members listed.\n",
        ].concat()
    );
}

#[test]
fn an_envelope_with_no_problems_and_no_remedy_is_one_line() {
    let failure = ErrorEnvelope::usage("io", "/planes/x: permission denied");

    assert_eq!(envelope(&failure, Rendering::Human, ""), "error[io]: /planes/x: permission denied\n");
}

#[test]
fn a_problem_with_no_subject_leaves_the_column_blank() {
    let failure = ErrorEnvelope::usage("refused", "two things were wrong")
        .with_problems(vec![Problem::about("@api", "is occupied"), Problem::new("and the plane is locked")]);

    assert_eq!(
        envelope(&failure, Rendering::Human, ""),
        ["error[refused]: two things were wrong\n", "\n", "  @api  is occupied\n", "        and the plane is locked\n",].concat()
    );
}

#[test]
fn the_json_rendering_is_the_line_it_was_given() {
    let failure = ErrorEnvelope::usage("io", "nope");

    assert_eq!(envelope(&failure, Rendering::Json, "{\"error\":\"io\"}"), "{\"error\":\"io\"}\n");
}

#[test]
fn rows_are_padded_to_the_widest_cell_of_each_column_but_the_last() {
    let created = |branch: &str, created_branch: bool, path: &str| CreatedMember {
        branch: branch.to_owned(),
        created_branch,
        path: WorktreePath::parse(path).unwrap(),
        unwound: false,
    };
    let rows = vec![
        member_row(&PerMember::ok(MemberRef::parse("@api").unwrap(), created("feat-login", false, "acme/api"))),
        member_row(&PerMember::ok(
            MemberRef::Repo("/Users/alfonz/projects/bitplane".to_owned()),
            created("feat-login", true, "projects/bitplane"),
        )),
    ];

    assert_eq!(
        columns(&rows, "  ", 4),
        [
            "  @api                             feat-login  created               acme/api\n",
            "  /Users/alfonz/projects/bitplane  feat-login  created (new branch)  projects/bitplane\n",
        ].concat()
    );
}

#[test]
fn a_skipped_or_failed_member_has_no_branch_to_report() {
    let skipped: PerMember<CreatedMember> = PerMember::skipped(MemberRef::parse("@api").unwrap(), SkipReason::Interrupted);
    let failed: PerMember<CreatedMember> = PerMember::failed(MemberRef::parse("@web").unwrap(), EngineError::GitMissing);

    assert_eq!(member_row(&skipped), vec!["@api", "-", "skipped: interrupted", "-"]);
    assert_eq!(member_row(&failed)[1], "-");
    assert!(member_row(&failed)[2].starts_with("failed: "));
}

fn created() -> PlaneCreated {
    PlaneCreated {
        id: PlaneId::parse("bp-7c1e0d44").unwrap(),
        directory: "/Users/alfonz/planes/bp-7c1e0d44".to_owned(),
        members: vec![
            PerMember::ok(
                MemberRef::parse("@api").unwrap(),
                CreatedMember {
                    branch: "feat-login".to_owned(),
                    created_branch: false,
                    path: WorktreePath::parse("acme/api").unwrap(),
                    unwound: false,
                },
            ),
            PerMember::ok(
                MemberRef::Repo("/Users/alfonz/projects/bitplane".to_owned()),
                CreatedMember {
                    branch: "feat-login".to_owned(),
                    created_branch: true,
                    path: WorktreePath::parse("projects/bitplane").unwrap(),
                    unwound: false,
                },
            ),
        ],
        interrupted: false,
        remnant: false,
    }
}

#[test]
fn a_created_plane_prints_a_header_and_one_row_per_member() {
    let rendered = created_plane(&created());

    assert_eq!(
        rendered,
        [
            "bp-7c1e0d44  /Users/alfonz/planes/bp-7c1e0d44\n",
            "\n",
            "  @api                             feat-login  created               acme/api\n",
            "  /Users/alfonz/projects/bitplane  feat-login  created (new branch)  projects/bitplane\n",
        ]
        .concat()
    );
}

#[test]
fn a_skipped_member_says_why_and_has_no_branch_to_report() {
    let mut plane = created();
    plane.members[1] =
        PerMember::skipped(MemberRef::Repo("/Users/alfonz/projects/bitplane".to_owned()), SkipReason::Interrupted);

    let rendered = created_plane(&plane);

    assert!(rendered.contains("-           skipped: interrupted"), "got:\n{rendered}");
}

#[test]
fn an_interrupt_that_left_a_remnant_says_so_and_names_the_way_out() {
    let mut plane = created();
    plane.interrupted = true;
    plane.remnant = true;

    let rendered = created_plane(&plane);

    assert!(
        rendered.ends_with("bp-7c1e0d44 could not be fully removed; run bp destroy -p bp-7c1e0d44 to clear the remnant.\n"),
        "got:\n{rendered}"
    );
}
