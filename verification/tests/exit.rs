use bitplane::exit::ExitCode;

#[test]
fn every_code_is_defined_and_round_trips() {
    let all = [
        (ExitCode::Success, 0),
        (ExitCode::Failure, 1),
        (ExitCode::Usage, 2),
        (ExitCode::Drift, 3),
        (ExitCode::PrerequisiteMissing, 4),
        (ExitCode::Busy, 5),
    ];

    for (code, number) in all {
        assert_eq!(code.as_u8(), number);
        assert_eq!(ExitCode::from_u8(number), Some(code));
    }
}

#[test]
fn a_number_outside_the_set_is_not_an_exit_code() {
    assert_eq!(ExitCode::from_u8(6), None);
}
