use std::hash::BuildHasher;
use bitplane::error::EngineError;
use bitplane::plane_id::{PlaneId, GENERATED_ID_PREFIX};

#[test]
fn a_well_formed_id_is_accepted() {
    for id in ["auth-work", "a", "0", "work.2", "a_b", "x".repeat(64).as_str()] {
        assert!(PlaneId::chosen(id).is_ok(), "{id} should be a valid id");
    }
}

#[test]
fn a_malformed_id_is_rejected_by_name() {
    for id in [
        "", "Auth_Work", "-leading-dash", ".leading-dot", "_leading-underscore", "has space", "has/slash",
        "has@sigil", "x".repeat(65).as_str(),
    ] {
        let error = PlaneId::chosen(id).unwrap_err();
        assert!(matches!(error, EngineError::InvalidPlaneId { .. }), "{id} should be invalid, got {error:?}");
    }
}

#[test]
fn the_generated_prefix_is_reserved_from_a_user() {
    for id in ["bp-a3f9c2e1", "bp-", "bp-mine"] {
        assert_eq!(PlaneId::chosen(id).unwrap_err(), EngineError::ReservedPlaneId, "for {id}");
    }
}

#[test]
fn the_reserved_prefix_is_still_readable_from_a_file() {
    let id = PlaneId::parse("bp-a3f9c2e1").unwrap();

    assert!(id.is_generated());
}

/// Four bytes of the process's randomness, as an entropy source would hand
/// them over.
fn drawn() -> Result<[u8; 4], EngineError> {
    let word = std::collections::hash_map::RandomState::new().hash_one(0u8);
    let bytes = word.to_le_bytes();
    Ok([bytes[0], bytes[1], bytes[2], bytes[3]])
}

#[test]
fn a_generated_id_is_the_prefix_and_eight_hex_digits() {
    let id = PlaneId::generate(drawn()).unwrap();

    assert!(id.is_generated(), "got {}", id.as_str());
    assert_eq!(id.as_str().len(), GENERATED_ID_PREFIX.len() + 8, "got {}", id.as_str());
    assert!(
        id.as_str()[GENERATED_ID_PREFIX.len()..].chars().all(|c| c.is_ascii_hexdigit() && !c.is_ascii_uppercase()),
        "got {}",
        id.as_str()
    );
    assert!(PlaneId::parse(id.as_str()).is_ok(), "got {}", id.as_str());
}

#[test]
fn two_generated_ids_differ() {
    let ids: Vec<String> = (0..16).map(|_| PlaneId::generate(drawn()).unwrap().to_text()).collect();

    let mut unique = ids.clone();
    unique.sort();
    unique.dedup();

    assert_eq!(unique.len(), ids.len(), "generated ids repeated: {ids:?}");
}

#[test]
fn drawn_bytes_become_the_id_high_nibble_first() {
    assert_eq!(PlaneId::from_bytes([0xa3, 0xf9, 0xc2, 0xe1]).as_str(), "bp-a3f9c2e1");
    assert_eq!(PlaneId::from_bytes([0, 0x0f, 0xf0, 0xff]).as_str(), "bp-000ff0ff");
    let id = PlaneId::generate(Ok([1, 2, 3, 4])).unwrap();
    assert!(id.is_generated());
    assert_eq!(PlaneId::parse(id.as_str()).unwrap(), id);
}

#[test]
fn entropy_that_cannot_be_read_is_the_failure_to_read_it() {
    let failure = || EngineError::InvalidRequest { message: "no entropy".to_owned() };
    assert_eq!(PlaneId::generate(Err(failure())).unwrap_err(), failure());
}
