//! The six exit codes.

use vstd::prelude::*;

verus! {

/// Every code `bp` can exit with. `Busy` is a lock timeout: neither a usage
/// error nor a failure of the operation, but "try again".
#[derive(Debug, Clone, Copy, PartialEq, Eq, Structural)]
pub enum ExitCode {
    /// The command did what was asked.
    Success,
    /// A typed failure: the operation ran and did not succeed.
    Failure,
    /// The request was malformed, or what it asked to create already exists.
    Usage,
    /// The command succeeded and reported drift.
    Drift,
    /// A prerequisite is missing: git is absent or too old.
    PrerequisiteMissing,
    /// A lock could not be taken in time.
    Busy,
}

/// The number each code exits with.
pub open spec fn exit_number(code: ExitCode) -> u8 {
    match code {
        ExitCode::Success => 0,
        ExitCode::Failure => 1,
        ExitCode::Usage => 2,
        ExitCode::Drift => 3,
        ExitCode::PrerequisiteMissing => 4,
        ExitCode::Busy => 5,
    }
}

impl ExitCode {
    /// The number the process exits with.
    pub fn as_u8(self) -> (n: u8)
        ensures
            n == exit_number(self),
    {
        match self {
            ExitCode::Success => 0,
            ExitCode::Failure => 1,
            ExitCode::Usage => 2,
            ExitCode::Drift => 3,
            ExitCode::PrerequisiteMissing => 4,
            ExitCode::Busy => 5,
        }
    }

    /// The code a number names, where it names one.
    pub fn from_u8(code: u8) -> (r: Option<ExitCode>)
        ensures
            r matches Some(c) ==> exit_number(c) == code,
            r is None <==> code > 5,
    {
        match code {
            0 => Some(ExitCode::Success),
            1 => Some(ExitCode::Failure),
            2 => Some(ExitCode::Usage),
            3 => Some(ExitCode::Drift),
            4 => Some(ExitCode::PrerequisiteMissing),
            5 => Some(ExitCode::Busy),
            _ => None,
        }
    }
}

/// The number a code exits with names that code back: the wire form and the
/// process status never disagree.
pub proof fn exit_number_round_trips(code: ExitCode, other: ExitCode)
    ensures
        exit_number(code) <= 5,
        exit_number(code) == exit_number(other) ==> code == other,
{
}

} // verus!
