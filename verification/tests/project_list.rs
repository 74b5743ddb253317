use bitplane::error::EngineError;
use bitplane::member::ProjectName;
use bitplane::order::{in_name_order, is_before};
use bitplane::project_file::ProjectFile;
use bitplane::project_list::{project_list, registered, Entry, ProjectSummary};
use bitplane::source::ProjectSource;

fn name(name: &str) -> ProjectName {
    ProjectName::parse(name).unwrap()
}

fn owned(of: &str) -> ProjectFile {
    ProjectFile::new(name(of), ProjectSource::Owned { url: format!("git@gitlab.com:acme/{of}.git") })
}

fn entry(name: &str, has_project_file: bool) -> Entry {
    Entry { name: name.to_owned(), has_project_file }
}

#[test]
fn an_empty_registry_is_an_empty_listing_and_not_a_failure() {
    let names = registered(&Vec::new());
    assert!(names.is_empty());
    assert!(project_list(Vec::new()).projects.is_empty());
}

#[test]
fn every_registered_project_is_a_row_and_a_leftover_is_not() {
    let names = registered(&vec![
        entry("codestyle", true),
        entry("half-added", false),
        entry("Not A Name", true),
        entry("api", true),
    ]);

    assert_eq!(names.iter().map(|n| n.as_str().to_owned()).collect::<Vec<String>>(), ["api", "codestyle"]);
}

#[test]
fn whether_the_source_repo_is_here_is_answered_by_a_stat() {
    let listing = project_list(vec![(name("api"), Ok((owned("api"), false))), (name("codestyle"), Ok((owned("codestyle"), true)))]);

    assert!(!listing.projects[0].value().unwrap().source_repo_present);
    assert!(listing.projects[1].value().unwrap().source_repo_present);
}

#[test]
fn an_adopted_project_reports_its_checkout_as_the_source_repo() {
    let checkout = "/home/me/projects-of-mine/bitplane".to_owned();
    let file = ProjectFile::new(name("bitplane"), ProjectSource::Adopted { path: checkout.clone() });

    let listing = project_list(vec![(name("bitplane"), Ok((file, true)))]);

    assert_eq!(
        listing.projects[0].value(),
        Some(&ProjectSummary { source: ProjectSource::Adopted { path: checkout }, source_repo_present: true })
    );
}

#[test]
fn a_file_that_will_not_parse_is_a_row_and_the_scan_carries_on() {
    let broken = ProjectFile::parse(
        "/projects/codestyle/project.toml",
        "version = 1\nname = \"codestyle\"\ndefault_branch = \"main\"\n",
    );
    assert!(broken.is_err());
    let broken: Result<(ProjectFile, bool), EngineError> = broken.map(|file| (file, false));

    let listing = project_list(vec![
        (name("api"), Ok((owned("api"), true))),
        (name("codestyle"), broken),
        (name("web"), Ok((owned("web"), true))),
    ]);

    assert_eq!(listing.projects.len(), 3, "the scan continues");
    assert!(listing.projects[1].is_failure());
    assert!(listing.has_unreadable(), "an unreadable file is drift");
}

#[test]
fn name_order_is_character_order_with_a_prefix_first() {
    assert!(is_before("acme", "acme/api"));
    assert!(is_before("acme/api", "acme/api-2"));
    assert!(is_before("Zeta", "alpha"));
    assert!(!is_before("api", "api"));

    let sorted = in_name_order(vec!["web".to_owned(), "api".to_owned(), "acme/api".to_owned(), "api".to_owned()]);
    assert_eq!(sorted, ["acme/api", "api", "api", "web"]);
}
