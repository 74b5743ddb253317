//! What a fan-out answers with: a row per member, never a scalar count.

use vstd::prelude::*;
use crate::error::EngineError;
use crate::member::{MemberRef, ProjectName};

verus! {

/// One member's row.
#[derive(Debug, PartialEq, Eq)]
pub struct PerMember<T> {
    pub member: MemberRef,
    pub outcome: Outcome<T>,
}

/// One project's row: the same shape as [`PerMember`] under a different key.
#[derive(Debug, PartialEq, Eq)]
pub struct PerProject<T> {
    pub project: ProjectName,
    pub outcome: Outcome<T>,
}

/// What happened to one member.
#[derive(Debug, PartialEq, Eq)]
pub enum Outcome<T> {
    /// It was done by this run.
    Completed(T),
    /// It was already in the state asked for.
    AlreadyDone,
    /// It was not attempted.
    Skipped(SkipReason),
    /// It was attempted and did not work: data, not an error.
    Failed(EngineError),
}

/// Why a member was not attempted.
#[derive(Debug, Clone, Copy, PartialEq, Eq, Structural)]
pub enum SkipReason {
    /// Scheduling stopped because an earlier member failed.
    AbortedAfterEarlierFailure,
    /// Scheduling stopped because the run was interrupted.
    Interrupted,
    /// An adopted project, on a fetch: there is no forge to fetch from.
    NothingToFetch,
}

impl<T> PerMember<T> {
    pub fn new(member: MemberRef, outcome: Outcome<T>) -> (r: PerMember<T>)
        ensures
            r.member == member,
            r.outcome == outcome,
    {
        PerMember { member, outcome }
    }

    pub fn ok(member: MemberRef, value: T) -> (r: PerMember<T>)
        ensures
            r.member == member,
            r.outcome == Outcome::Completed(value),
    {
        PerMember::new(member, Outcome::Completed(value))
    }

    pub fn skipped(member: MemberRef, reason: SkipReason) -> (r: PerMember<T>)
        ensures
            r.member == member,
            r.outcome == Outcome::<T>::Skipped(reason),
    {
        PerMember::new(member, Outcome::Skipped(reason))
    }

    pub fn failed(member: MemberRef, error: EngineError) -> (r: PerMember<T>)
        ensures
            r.member == member,
            r.outcome == Outcome::<T>::Failed(error),
    {
        PerMember::new(member, Outcome::Failed(error))
    }

    /// Whether this row is the one that stopped the run.
    pub fn is_failure(&self) -> (r: bool)
        ensures
            r == (self.outcome is Failed),
    {
        match &self.outcome {
            Outcome::Failed(_) => true,
            _ => false,
        }
    }

    /// What this row produced, where it produced anything.
    pub fn value(&self) -> (r: Option<&T>)
        ensures
            match self.outcome {
                Outcome::Completed(v) => r == Some(&v),
                _ => r is None,
            },
    {
        match &self.outcome {
            Outcome::Completed(value) => Some(value),
            _ => None,
        }
    }
}

impl<T> PerProject<T> {
    pub fn new(project: ProjectName, outcome: Outcome<T>) -> (r: PerProject<T>)
        ensures
            r.project == project,
            r.outcome == outcome,
    {
        PerProject { project, outcome }
    }

    pub fn ok(project: ProjectName, value: T) -> (r: PerProject<T>)
        ensures
            r.project == project,
            r.outcome == Outcome::Completed(value),
    {
        PerProject::new(project, Outcome::Completed(value))
    }

    pub fn skipped(project: ProjectName, reason: SkipReason) -> (r: PerProject<T>)
        ensures
            r.project == project,
            r.outcome == Outcome::<T>::Skipped(reason),
    {
        PerProject::new(project, Outcome::Skipped(reason))
    }

    pub fn failed(project: ProjectName, error: EngineError) -> (r: PerProject<T>)
        ensures
            r.project == project,
            r.outcome == Outcome::<T>::Failed(error),
    {
        PerProject::new(project, Outcome::Failed(error))
    }

    /// Whether this row is one that did not work.
    pub fn is_failure(&self) -> (r: bool)
        ensures
            r == (self.outcome is Failed),
    {
        match &self.outcome {
            Outcome::Failed(_) => true,
            _ => false,
        }
    }

    /// What this row produced, where it produced anything.
    pub fn value(&self) -> (r: Option<&T>)
        ensures
            match self.outcome {
                Outcome::Completed(v) => r == Some(&v),
                _ => r is None,
            },
    {
        match &self.outcome {
            Outcome::Completed(value) => Some(value),
            _ => None,
        }
    }
}

/// The clause a fan-out row prints after `skipped:`.
pub open spec fn skip_reason_text(reason: SkipReason) -> Seq<char> {
    match reason {
        SkipReason::AbortedAfterEarlierFailure => "aborted after an earlier failure"@,
        SkipReason::Interrupted => "interrupted"@,
        SkipReason::NothingToFetch => "nothing to fetch (adopted)"@,
    }
}

impl SkipReason {
    /// The clause a fan-out row prints after `skipped:`.
    pub fn reason(self) -> (s: &'static str)
        ensures
            s@ == skip_reason_text(self),
    {
        proof {
            reveal_strlit("aborted after an earlier failure");
            reveal_strlit("interrupted");
            reveal_strlit("nothing to fetch (adopted)");
        }
        match self {
            SkipReason::AbortedAfterEarlierFailure => "aborted after an earlier failure",
            SkipReason::Interrupted => "interrupted",
            SkipReason::NothingToFetch => "nothing to fetch (adopted)",
        }
    }
}

} // verus!
