use bitplane::directories::Directories;
use bitplane::error::{EngineError, Occupant};
use bitplane::exit::ExitCode;
use bitplane::plane_dir::{classify, ClaimAttempt, ClaimedPlane, OpenPlane};
use bitplane::plane_id::PlaneId;

#[test]
fn an_opened_plane_takes_its_id_from_the_directorys_own_name() {
    let plane = OpenPlane::at("/home/alfonz/planes/auth-work");

    assert_eq!(plane.id(), "auth-work");
    assert_eq!(plane.path(), "/home/alfonz/planes/auth-work");
    assert_eq!(plane.plane_file_path(), "/home/alfonz/planes/auth-work/plane.toml");
    assert_eq!(plane.latch_path(), "/home/alfonz/planes/auth-work/.bitplane/incomplete");
}

#[test]
fn a_claim_creates_the_directory_the_id_names() {
    let directories = Directories::new("/home/alfonz/planes", "/data/projects");
    let id = PlaneId::parse("auth-work").unwrap();

    let claimed = ClaimedPlane::claim(&directories, id, ClaimAttempt::Made).unwrap();

    assert_eq!(claimed.path(), "/home/alfonz/planes/auth-work");
    assert_eq!(claimed.id().as_str(), "auth-work");
}

#[test]
fn a_second_claim_on_the_same_id_fails_immediately_saying_what_is_there() {
    let directories = Directories::new("/home/alfonz/planes", "/data/projects");
    let id = PlaneId::parse("auth-work").unwrap();

    let error = ClaimedPlane::claim(&directories, id, ClaimAttempt::Taken(classify(true, true))).unwrap_err();

    assert_eq!(error, EngineError::PlaneIdInUse { id: "auth-work".to_owned(), found: Occupant::LatchedRemnant });
    assert_eq!(error.exit_code(), ExitCode::Usage);
}

#[test]
fn a_generated_claim_lands_under_a_generated_id() {
    let directories = Directories::new("/home/alfonz/planes", "/data/projects");
    let id = PlaneId::generate(Ok([0xa3, 0xf9, 0xc2, 0xe1])).unwrap();

    let claimed = ClaimedPlane::claim_generated_by(&directories, vec![(id, ClaimAttempt::Made)]).unwrap();

    assert!(claimed.id().is_generated(), "got {}", claimed.id().as_str());
    assert_eq!(claimed.path(), format!("/home/alfonz/planes/{}", claimed.id().as_str()));
}

#[test]
fn each_thing_that_can_be_at_a_claimed_path_is_classified_apart() {
    assert_eq!(classify(false, false), Occupant::ClaimWithoutPlaneFile);
    assert_eq!(classify(false, true), Occupant::Plane);
    assert_eq!(classify(true, true), Occupant::LatchedRemnant, "a latch outranks a plane file: the plane never worked");
}

#[test]
fn a_generated_claim_keeps_the_id_that_landed_and_gives_up_after_collisions() {
    let directories = Directories::new("/home/alfonz/planes", "/data/projects");
    let id = |s: &str| PlaneId::parse(s).unwrap();

    let claimed = ClaimedPlane::claim_generated_by(
        &directories,
        vec![(id("bp-00000000"), ClaimAttempt::Taken(Occupant::Plane)), (id("bp-11111111"), ClaimAttempt::Made)],
    )
    .unwrap();
    assert_eq!(claimed.id().as_str(), "bp-11111111");

    let tries = (0..5).map(|_| (id("bp-deadbeef"), ClaimAttempt::Taken(Occupant::Plane))).collect();
    assert_eq!(
        ClaimedPlane::claim_generated_by(&directories, tries).unwrap_err(),
        EngineError::PlaneIdInUse { id: "bp-deadbeef".to_owned(), found: Occupant::Plane }
    );
    assert!(ClaimedPlane::may_retry(4));
    assert!(!ClaimedPlane::may_retry(5));
}
