use bitplane::error::EngineError;
use bitplane::exit::ExitCode;
use bitplane::member::ProjectName;
use bitplane::error::Problem;
use bitplane::project_add::{
    aborted, first_free, owned_source, project_add_next, refuse_taken, resolve_name, step_problem, AddAt, AddEvent,
    AddProgress, AddStep, GitStep, Registered,
};
use bitplane::source::ProjectSource;

/// A source url with a host, so the whole path after it is the default name.
fn forge(path: &str) -> ProjectSource {
    ProjectSource::Owned { url: format!("git@gitlab.com:{path}.git") }
}

/// A registry of `(name, the forge path it was registered from)`.
fn registry(projects: &[(&str, &str)]) -> Vec<Registered> {
    projects
        .iter()
        .map(|(name, from)| Registered {
            name: ProjectName::parse(name).expect("a fixture name is a name"),
            source: Some(forge(from)),
        })
        .collect()
}

fn name_of(r: Result<ProjectName, EngineError>) -> String {
    r.unwrap().as_str().to_owned()
}

#[test]
fn an_owned_project_takes_the_whole_forge_path_after_the_host() {
    let directories = registry(&[]);

    assert_eq!(
        name_of(resolve_name(None, &forge("acme/platform/tooling/codestyle"), &directories)),
        "acme/platform/tooling/codestyle"
    );
}

#[test]
fn a_name_the_user_chose_is_taken_as_typed_and_never_lowercased() {
    let directories = registry(&[]);

    assert_eq!(name_of(resolve_name(Some("style"), &forge("acme/codestyle"), &directories)), "style");
    assert!(
        matches!(
            resolve_name(Some("Style"), &forge("acme/codestyle"), &directories),
            Err(EngineError::InvalidProjectName { .. })
        ),
        "--name is the user's stated intent, so it is checked rather than fixed"
    );
}

#[test]
fn a_derived_name_is_lowercased_silently() {
    let directories = registry(&[]);

    assert_eq!(name_of(resolve_name(None, &forge("Acme/MyProject"), &directories)), "acme/myproject");
}

#[test]
fn a_derived_name_still_invalid_after_lowercasing_names_the_segment_and_stops() {
    let directories = registry(&[]);

    let error = resolve_name(None, &forge("acme/code+style"), &directories).unwrap_err();

    assert_eq!(error, EngineError::DerivedNameInvalid { derived: "code+style".to_owned() });
    assert_eq!(error.exit_code(), ExitCode::Usage);
    assert_eq!(
        error.envelope().remedy.as_deref(),
        Some("Re-run with --name <name>, using lowercase letters, digits and . _ - in each / -separated segment."),
        "no suggestion: a URL that cannot produce a name is one worth looking at"
    );
}

#[test]
fn a_taken_name_from_the_same_url_is_reported_as_already_registered() {
    let directories = registry(&[("acme/codestyle", "acme/codestyle")]);

    let error = resolve_name(None, &forge("acme/codestyle"), &directories).unwrap_err();

    assert_eq!(
        error,
        EngineError::ProjectNameTaken { name: "acme/codestyle".to_owned(), same_source: true, suggestion: None }
    );
    assert_eq!(error.message(), "acme/codestyle is already registered from that url");
    assert_eq!(error.envelope().remedy, None, "there is nothing to fix, so there is nothing to say");
}

#[test]
fn a_taken_name_from_a_different_url_climbs_the_ladder_on_the_last_segment() {
    let directories = registry(&[("acme/codestyle", "other/codestyle")]);

    let error = resolve_name(None, &forge("acme/codestyle"), &directories).unwrap_err();

    assert_eq!(
        error,
        EngineError::ProjectNameTaken {
            name: "acme/codestyle".to_owned(),
            same_source: false,
            suggestion: Some("acme/codestyle-2".to_owned()),
        }
    );
    assert_eq!(
        error.envelope().remedy.as_deref(),
        Some("acme/codestyle-2 is free; re-run with --name acme/codestyle-2.")
    );
}

#[test]
fn a_taken_chosen_name_is_refused_with_nothing_to_suggest() {
    let directories = registry(&[("codestyle", "acme/codestyle")]);

    let error = resolve_name(Some("codestyle"), &forge("acme/other"), &directories).unwrap_err();

    assert_eq!(
        error,
        EngineError::ProjectNameTaken { name: "codestyle".to_owned(), same_source: false, suggestion: None }
    );
    assert_eq!(error.exit_code(), ExitCode::Usage);
}

#[test]
fn the_ladder_skips_a_candidate_that_would_nest_as_well_as_one_that_is_taken() {
    let directories =
        registry(&[("acme/api", "one/api"), ("acme/api-2", "two/api"), ("acme/api-3/inner", "three/api")]);

    let error = resolve_name(None, &forge("acme/api"), &directories).unwrap_err();

    assert_eq!(
        error,
        EngineError::ProjectNameTaken {
            name: "acme/api".to_owned(),
            same_source: false,
            suggestion: Some("acme/api-4".to_owned()),
        },
        "acme/api-3 would contain a project, so the remedy would not run"
    );
}

#[test]
fn a_name_that_would_nest_is_refused_in_both_directions() {
    let directories = registry(&[("acme", "acme/root")]);

    let error = resolve_name(Some("acme/codestyle"), &forge("x/y"), &directories).unwrap_err();

    assert_eq!(
        error,
        EngineError::ProjectNameNests { name: "acme/codestyle".to_owned(), blocker: "acme".to_owned() }
    );
    assert_eq!(error.message(), "acme/codestyle would sit inside the project acme");
    assert_eq!(error.envelope().remedy.as_deref(), Some("Choose a name outside acme, or rename acme first."));

    let outward = registry(&[("acme/codestyle", "acme/codestyle")]);
    let error = resolve_name(Some("acme"), &forge("x/y"), &outward).unwrap_err();

    assert_eq!(
        error,
        EngineError::ProjectNameNests { name: "acme".to_owned(), blocker: "acme/codestyle".to_owned() }
    );
    assert_eq!(error.message(), "acme would contain the project acme/codestyle");
}

#[test]
fn the_ladder_gives_up_after_the_ninth_rung() {
    let taken: Vec<(String, String)> = (2..=9).map(|k| (format!("acme/api-{k}"), format!("x{k}/api"))).collect();
    let mut pairs: Vec<(&str, &str)> = vec![("acme/api", "one/api")];
    pairs.extend(taken.iter().map(|(a, b)| (a.as_str(), b.as_str())));
    let directories = registry(&pairs);

    let name = ProjectName::parse("acme/api").unwrap();
    assert!(first_free(&name, &directories).is_none());
    assert_eq!(
        refuse_taken(false, &name, &forge("acme/api"), &directories),
        EngineError::ProjectNameTaken { name: "acme/api".to_owned(), same_source: false, suggestion: None }
    );
}

#[test]
fn a_registration_whose_file_could_not_be_read_matches_no_url() {
    let directories = vec![Registered { name: ProjectName::parse("acme/codestyle").unwrap(), source: None }];

    let error = resolve_name(None, &forge("acme/codestyle"), &directories).unwrap_err();

    assert_eq!(
        error,
        EngineError::ProjectNameTaken {
            name: "acme/codestyle".to_owned(),
            same_source: false,
            suggestion: Some("acme/codestyle-2".to_owned()),
        }
    );
}

#[test]
fn an_empty_url_is_refused_before_anything_is_made() {
    assert_eq!(
        owned_source("   "),
        Err(EngineError::InvalidRequest { message: "a project needs a url to fetch from".to_owned() })
    );
    assert_eq!(
        owned_source("  git@gitlab.com:acme/api.git \n"),
        Ok(ProjectSource::Owned { url: "git@gitlab.com:acme/api.git".to_owned() })
    );
}

fn an_add() -> AddProgress {
    AddProgress::new(ProjectName::parse("acme/api").unwrap(), "/projects/acme/api/repo.git".to_owned())
}

/// Answers every step with success until the add asks for `stop`.
fn run_to(progress: &mut AddProgress, stop: AddAt) {
    let mut event = AddEvent::Done;
    loop {
        let step = project_add_next(progress, event);
        let AddStep::Take(at) = step else { panic!("the add gave up early: {step:?}") };
        if at == stop {
            return;
        }
        event = match at {
            AddAt::CheckingRegistration => AddEvent::Registered(false),
            AddAt::ReadingDefaultBranch => AddEvent::DefaultBranch(Some("main".to_owned())),
            AddAt::CheckingNesting => AddEvent::Blocker(None),
            _ => AddEvent::Done,
        };
    }
}

#[test]
fn an_add_takes_its_steps_in_order_and_registers_last() {
    let mut progress = an_add();
    let mut event = AddEvent::Done;
    let mut taken = Vec::new();
    let finished = loop {
        match project_add_next(&mut progress, event) {
            AddStep::Take(at) => {
                taken.push(at);
                event = match at {
                    AddAt::CheckingRegistration => AddEvent::Registered(false),
                    AddAt::ReadingDefaultBranch => AddEvent::DefaultBranch(Some("main".to_owned())),
                    AddAt::CheckingNesting => AddEvent::Blocker(None),
                    _ => AddEvent::Done,
                };
            }
            other => break other,
        }
    };
    assert_eq!(
        taken,
        vec![
            AddAt::MakingDirectory,
            AddAt::Locking,
            AddAt::CheckingRegistration,
            AddAt::Building(GitStep::InitBare),
            AddAt::Building(GitStep::SetOrigin),
            AddAt::Building(GitStep::SetRefspec),
            AddAt::Building(GitStep::Fetch),
            AddAt::Building(GitStep::SetOriginHead),
            AddAt::Building(GitStep::SetPushDefault),
            AddAt::ReadingDefaultBranch,
            AddAt::CheckingNesting,
            AddAt::Writing,
        ]
    );
    assert!(matches!(finished, AddStep::Finish(Some(branch)) if branch == "main"));
}

#[test]
fn a_failed_fetch_gives_up_keeping_the_object_store_and_never_registers() {
    let mut progress = an_add();
    run_to(&mut progress, AddAt::Building(GitStep::Fetch));
    let step = project_add_next(&mut progress, AddEvent::GitFailed { message: "exited 128".to_owned(), kept: true });
    let AddStep::Fail(error) = step else { panic!("expected a failure, got {step:?}") };
    assert_eq!(
        error,
        EngineError::ProjectAddAborted {
            name: "acme/api".to_owned(),
            kept: Some("/projects/acme/api/repo.git".to_owned()),
            problem: Problem::about("origin", "could not be fetched: exited 128"),
        }
    );
    assert_eq!(progress.current(), AddAt::Over);
}

#[test]
fn a_failed_init_keeps_nothing() {
    let problem = step_problem(GitStep::InitBare, "permission denied");
    assert_eq!(problem, Problem::about("repo.git", "could not be created: permission denied"));
    let error = aborted(&ProjectName::parse("acme").unwrap(), "/projects/acme/repo.git", false, problem.clone());
    assert_eq!(error, EngineError::ProjectAddAborted { name: "acme".to_owned(), kept: None, problem });
}

#[test]
fn an_origin_head_that_cannot_be_set_is_passed_over() {
    let mut progress = an_add();
    run_to(&mut progress, AddAt::Building(GitStep::SetOriginHead));
    let step = project_add_next(&mut progress, AddEvent::GitFailed { message: "no HEAD".to_owned(), kept: true });
    assert!(matches!(step, AddStep::Take(AddAt::Building(GitStep::SetPushDefault))));
}

#[test]
fn a_default_branch_that_cannot_be_read_aborts_the_add() {
    let mut progress = an_add();
    run_to(&mut progress, AddAt::ReadingDefaultBranch);
    let step = project_add_next(&mut progress, AddEvent::GitFailed { message: "broken".to_owned(), kept: true });
    let AddStep::Fail(error) = step else { panic!("expected a failure, got {step:?}") };
    assert!(matches!(
        error,
        EngineError::ProjectAddAborted { problem, .. } if problem == Problem::about("origin", "could not be read: broken")
    ));
}

#[test]
fn a_name_taken_or_nested_meanwhile_is_refused_before_anything_is_registered() {
    let mut progress = an_add();
    run_to(&mut progress, AddAt::CheckingRegistration);
    assert!(matches!(project_add_next(&mut progress, AddEvent::Registered(true)), AddStep::RefuseTaken));

    let mut progress = an_add();
    run_to(&mut progress, AddAt::CheckingNesting);
    let step = project_add_next(&mut progress, AddEvent::Blocker(Some("acme".to_owned())));
    let AddStep::Fail(error) = step else { panic!("expected a refusal, got {step:?}") };
    assert_eq!(error, EngineError::ProjectNameNests { name: "acme/api".to_owned(), blocker: "acme".to_owned() });
}
