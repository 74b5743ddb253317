use bitplane::exit::ExitCode;
use bitplane::member::MemberRef;
use bitplane::refusal::{waive_flags, Reason, Refusal, Waivers};

fn refusal(reason: Reason) -> Refusal {
    Refusal::new(MemberRef::Repo("/repos/api".to_owned()), reason, "feat-login has something")
}

#[test]
fn a_reason_is_spelled_with_underscores_the_way_it_is_printed() {
    assert_eq!(Reason::LockedWorktree.tag(), "locked_worktree");
    assert!(Reason::parse("locked-worktree").is_err());
}

#[test]
fn a_tag_that_is_not_a_reason_is_a_usage_failure_rather_than_a_silent_pass() {
    let error = Reason::parse("everything").unwrap_err();

    assert_eq!(error.exit_code(), ExitCode::Usage);
    assert!(error.message().contains("everything"));
}

#[test]
fn a_waiver_covers_one_reason_and_says_nothing_about_the_others() {
    let waivers = Waivers::new(vec![Reason::Uncommitted]);

    assert!(waivers.covers(Reason::Uncommitted));
    for reason in Reason::all().into_iter().filter(|r| *r != Reason::Uncommitted) {
        assert!(!waivers.covers(reason), "there is no blanket force: {reason:?}");
    }
}

#[test]
fn waiving_a_reason_that_was_not_raised_is_not_an_error() {
    let refusals = vec![refusal(Reason::Uncommitted)];
    let waivers = Waivers::new(vec![Reason::Uncommitted, Reason::SourceRepoMissing]);

    assert!(waivers.unwaived(&refusals).is_empty());
}

#[test]
fn the_remedy_names_exactly_the_reasons_that_were_raised_in_table_order() {
    let refusals = vec![refusal(Reason::Unpushed), refusal(Reason::Uncommitted), refusal(Reason::Uncommitted)];
    let raised = Waivers::default().unwaived(&refusals);

    assert_eq!(waive_flags(&raised), "--waive uncommitted --waive unpushed");
}

#[test]
fn nothing_raised_names_nothing() {
    assert_eq!(waive_flags(&[]), "");
}

#[test]
fn every_reason_reads_back_from_its_own_tag() {
    for reason in Reason::all() {
        assert_eq!(Reason::parse(reason.tag()).unwrap(), reason);
    }
}
