use bitplane::plan::{expand_home, split_branch_suffix};

fn split(spec: &str) -> (String, Option<String>) {
    split_branch_suffix(spec)
}

fn expected(subject: &str, branch: Option<&str>) -> (String, Option<String>) {
    (subject.to_owned(), branch.map(str::to_owned))
}

#[test]
fn plan_a_branch_suffix_is_everything_after_the_last_colon() {
    let cases = [
        ("@api", ("@api", None)),
        ("@api:feat-login", ("@api", Some("feat-login"))),
        ("~/projects/bitplane:feat-x", ("~/projects/bitplane", Some("feat-x"))),
        ("~/projects/bitplane:feat/x", ("~/projects/bitplane", Some("feat/x"))),
        ("/repos/api", ("/repos/api", None)),
        ("/repos/api:", ("/repos/api:", None)),
    ];

    for (spec, (subject, branch)) in cases {
        assert_eq!(split(spec), expected(subject, branch), "for {spec}");
    }
}

#[test]
fn create_a_branch_suffix_is_everything_after_the_last_colon() {
    let cases = [
        ("@api", ("@api", None)),
        ("@api:feat-login", ("@api", Some("feat-login"))),
        ("~/projects/bitplane:feat-x", ("~/projects/bitplane", Some("feat-x"))),
        ("/repos/api", ("/repos/api", None)),
        ("/repos/api:", ("/repos/api:", None)),
        (":feat", (":feat", None)),
        ("a:b:c", ("a:b", Some("c"))),
    ];

    for (spec, (subject, branch)) in cases {
        assert_eq!(split(spec), expected(subject, branch), "for {spec}");
    }
}

#[test]
fn a_leading_tilde_is_the_home_the_engine_was_built_with() {
    assert_eq!(expand_home("~/projects/api", Some("/home/alfonz")), "/home/alfonz/projects/api");
    assert_eq!(expand_home("~/projects/api", None), "~/projects/api", "a host with no home has a directory called ~");
}

#[test]
fn the_subject_a_colon_and_the_branch_spell_the_spec_again() {
    for spec in ["@api:feat-login", "~/projects/bitplane:feat/x", "a:b:c", "http://host/repo:main"] {
        let (subject, branch) = split(spec);
        let branch = branch.unwrap();
        assert_eq!(format!("{subject}:{branch}"), spec);
        assert!(!branch.contains(':'));
    }
}
