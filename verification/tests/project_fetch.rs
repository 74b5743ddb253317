use bitplane::member::ProjectName;
use bitplane::error::EngineError;
use bitplane::project_fetch::{already_chosen, changed, chosen, named};

fn refs(pairs: &[(&str, &str)]) -> Vec<(String, String)> {
    pairs.iter().map(|(key, value)| ((*key).to_owned(), (*value).to_owned())).collect()
}

#[test]
fn a_project_may_be_named_with_or_without_the_sigil() {
    assert_eq!(named("@codestyle").unwrap().as_str(), "codestyle");
    assert_eq!(named("codestyle").unwrap().as_str(), "codestyle");
}

#[test]
fn something_that_is_not_a_project_name_is_refused_in_that_slot() {
    for spec in ["@Codestyle", "/Users/alfonz/projects/bitplane", ""] {
        assert!(named(spec).is_err(), "{spec} should not be a project name");
    }
}

#[test]
fn a_ref_added_moved_or_pruned_each_count_as_one_update() {
    let before = refs(&[("origin/main", "aaa"), ("origin/gone", "bbb")]);
    let after = refs(&[("origin/main", "ccc"), ("origin/feat", "ddd")]);

    assert_eq!(changed(&before, &after), 3, "one moved, one added, one pruned");
    assert_eq!(changed(&before, &before), 0, "up to date");
}

#[test]
fn a_project_named_twice_is_chosen_once() {
    let chosen = vec![ProjectName::parse("api").unwrap()];

    assert!(already_chosen(&chosen, &named("@api").unwrap()));
    assert!(!already_chosen(&chosen, &named("codestyle").unwrap()));
}

fn names(v: &[&str]) -> Vec<ProjectName> {
    v.iter().map(|n| ProjectName::parse(n).unwrap()).collect()
}

fn specs(v: &[&str]) -> Vec<String> {
    v.iter().map(|s| s.to_string()).collect()
}

#[test]
fn a_project_named_twice_is_fetched_once() {
    let registered = names(&["api", "codestyle"]);

    let chosen = chosen(&specs(&["@api", "api", "codestyle", "@api"]), &registered).unwrap();

    assert_eq!(
        chosen.iter().map(|project| project.as_str().to_owned()).collect::<Vec<String>>(),
        ["api", "codestyle"],
        "a second turn would lock again, print a second row and inflate the denominator the failure count is reported against"
    );
}

#[test]
fn naming_nothing_fetches_every_registered_project() {
    let registered = names(&["api", "codestyle", "web"]);

    assert_eq!(chosen(&Vec::new(), &registered).unwrap(), registered);
}

#[test]
fn a_name_that_is_not_a_project_stops_the_run_before_anything_is_fetched() {
    let registered = names(&["api"]);

    assert_eq!(
        chosen(&specs(&["api", "@nope", "Bad Name"]), &registered),
        Err(EngineError::ProjectNotFound { name: "nope".to_owned() })
    );
    assert!(matches!(
        chosen(&specs(&["api", "Bad Name", "@nope"]), &registered),
        Err(EngineError::InvalidProjectName { .. })
    ));
}
