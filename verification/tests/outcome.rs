use bitplane::error::EngineError;
use bitplane::member::MemberRef;
use bitplane::outcome::{PerMember, SkipReason};

#[test]
fn every_skip_reason_says_why_in_the_words_a_row_prints() {
    for reason in [SkipReason::AbortedAfterEarlierFailure, SkipReason::Interrupted, SkipReason::NothingToFetch] {
        assert!(!reason.reason().is_empty(), "for {reason:?}");
    }
}

#[test]
fn a_failed_row_carries_no_value() {
    let row: PerMember<String> = PerMember::failed(MemberRef::Repo("/repos/api".to_owned()), EngineError::GitMissing);

    assert!(row.is_failure());
    assert_eq!(row.value(), None);
}
