//! The error envelope, and the typed failures that produce it.
//!
//! The envelope is built here so the text written to stderr is identical on
//! every surface that renders it. Paths are carried as their text.

use vstd::prelude::*;
use crate::exit::ExitCode;
use crate::git::GitVersion;
use crate::outcome::PerMember;
use crate::refusal::Refusal;
use crate::wire::{CreatedMember, PlaneRef, RemovedMember};
use crate::git::{version_text, minimum, minimum_git_version};
use crate::member::{inside, is_inside, member_text};
use crate::outcome::{Outcome, skip_reason_text};
use crate::plane_id::GENERATED_ID_PREFIX;
use crate::refusal::{waive_flags, waive_line, reasons_of};
use crate::text::{chars_of, push_char, push_decimal, push_str, decimal, joined, owned};

verus! {

/// What every bitplane failure looks like on the wire.
#[derive(Debug, Clone, PartialEq, Eq)]
pub struct ErrorEnvelope {
    /// A stable machine tag.
    pub error: String,
    /// The code the process exits with.
    pub code: ExitCode,
    /// One human sentence saying what went wrong.
    pub message: String,
    /// The individual things that were wrong.
    pub problems: Vec<Problem>,
    /// What to do about it, where bitplane knows.
    pub remedy: Option<String>,
}

/// One of the things that was wrong.
#[derive(Debug, Clone, PartialEq, Eq)]
pub struct Problem {
    /// What the problem is about, rendered for display; `None` where it is
    /// about the operation as a whole.
    pub subject: Option<String>,
    /// One human sentence about this subject.
    pub message: String,
}

/// Everything that can go wrong inside the engine.
#[derive(Debug, PartialEq, Eq)]
pub enum EngineError {
    /// No `git` on `PATH`.
    GitMissing,
    /// `git` is on `PATH` but would not run.
    GitUnusable { message: String },
    /// `git --version` printed something that is not a version.
    GitVersionUnreadable { reported: String },
    /// `git` is older than bitplane's floor.
    GitTooOld { found: GitVersion, required: GitVersion },
    /// The request could not be acted on as given.
    InvalidRequest { message: String },
    /// A user-chosen plane id starting with the reserved generated-id prefix.
    ReservedPlaneId,
    /// A plane id outside `[a-z0-9][a-z0-9._-]*`, 64 characters at most.
    InvalidPlaneId { id: String },
    /// The id names something that is already there, classified.
    PlaneIdInUse { id: String, found: Occupant },
    /// A string that is not a project name, where one was required.
    InvalidProjectName { name: String },
    /// A project name using a segment bitplane keeps for itself.
    ReservedNameSegment { name: String, segment: String },
    /// A member's derived worktree path would start with `.bitplane`.
    ReservedPathSegment { path: String },
    /// Two members of one plane resolving to the same thing.
    DuplicateMember { member: String, plane: Option<String> },
    /// Two members that are different paths but one repository.
    SameRepository { first: String, second: String },
    /// Two different members whose worktrees would land at the same place.
    MemberPathCollision { first: String, second: String, path: String },
    /// A name that is not a project on this host.
    ProjectNotFound { name: String },
    /// Nothing at the ref given is a plane.
    PlaneNotFound { sought: PlaneRef },
    /// The name a new project would take is already a project. `same_source`
    /// where the project holding it was registered from the same repository,
    /// so there is nothing to do; `suggestion` is the first free alternative,
    /// offered only for a name that was derived rather than chosen.
    ProjectNameTaken { name: String, same_source: bool, suggestion: Option<String> },
    /// The name a new project would take sits inside a project, or would
    /// contain one: the two cannot coexist at all.
    ProjectNameNests { name: String, blocker: String },
    /// The name derived from a source is not a project name; `derived` is
    /// the part at fault, as the source spelled it.
    DerivedNameInvalid { derived: String },
    /// A `project_add` that did not finish.
    ProjectAddAborted { name: String, kept: Option<String>, problem: Problem },
    /// At least one project could not be fetched.
    FetchFailed { failed: usize, fetchable: usize, problems: Vec<Problem> },
    /// A member with no branch, from a suffix or from `-b`.
    BranchUnspecified { member: String },
    /// A member written so that the branch suffix cannot be told from the path.
    MemberPathAmbiguous { spec: String },
    /// An ad-hoc member pointing at something that is not a git repository.
    MemberNotARepository { path: String, reason: String },
    /// `--new-branch` on a branch that exists, or `--existing-branch` on one
    /// that does not.
    BranchIntentUnmet { member: String, branch: String, wanted: BranchWanted },
    /// A new branch was asked for and there is nothing to cut it from.
    BaseBranchUnresolved { member: String, branch: String },
    /// The branch is checked out in some worktree of the member's own repo.
    BranchOccupied { branch: String, repo: String, worktree: String, stale: bool },
    /// A file bitplane needs did not parse.
    ParseError { path: String, message: String, legal_keys: Vec<String> },
    /// A git command bitplane ran did not succeed.
    GitFailed { message: String },
    /// `create` produced no plane; the rows ride inside.
    CreateAborted {
        id: String,
        members: Vec<PerMember<CreatedMember>>,
        rollback: Vec<PerMember<()>>,
        remnant: bool,
    },
    /// `add` put nothing into the plane; the rows ride inside, and
    /// `remnant` says whether taking this run's worktrees and entries back
    /// left something behind.
    AddAborted {
        plane: String,
        members: Vec<PerMember<CreatedMember>>,
        rollback: Vec<PerMember<()>>,
        remnant: bool,
    },
    /// Work that would be lost: every reason across every member.
    Refused {
        plane: String,
        operation: Teardown,
        blocking: usize,
        considered: usize,
        refusals: Vec<Refusal>,
    },
    /// A plane `create` claimed and never finished.
    PlaneIncomplete { id: String },
    /// A member that is not in this plane.
    ProjectNotInPlane { member: String, plane: String },
    /// Worktrees this run could not remove.
    RemovalFailed { plane: String, operation: Teardown, members: Vec<PerMember<RemovedMember>> },
    /// A lock could not be taken in time.
    LockTimeout { object: String },
    /// The filesystem refused.
    Io { path: String, message: String },
}

/// What `create` found at a plane directory it could not claim.
#[derive(Debug, Clone, Copy, PartialEq, Eq, Structural)]
pub enum Occupant {
    /// A plane, complete.
    Plane,
    /// A plane directory whose `create` never finished.
    LatchedRemnant,
    /// A claimed directory with no plane file.
    ClaimWithoutPlaneFile,
}

/// Which of the two teardown verbs is speaking.
#[derive(Debug, Clone, Copy, PartialEq, Eq, Structural)]
pub enum Teardown {
    /// `bp destroy`: the whole plane.
    Destroy,
    /// `bp rm`: the members named.
    Remove,
}

/// Which way a branch intent was not met.
#[derive(Debug, Clone, Copy, PartialEq, Eq, Structural)]
pub enum BranchWanted {
    /// `--new-branch`, and the branch is already there.
    New,
    /// `--existing-branch`, and it is not.
    Existing,
}

/// The stable machine tag of each failure.
pub open spec fn tag_of(e: EngineError) -> Seq<char> {
    match e {
        EngineError::GitMissing => "git_missing"@,
        EngineError::GitUnusable { .. } => "git_unusable"@,
        EngineError::GitVersionUnreadable { .. } => "git_version_unreadable"@,
        EngineError::GitTooOld { .. } => "git_too_old"@,
        EngineError::InvalidRequest { .. } => "invalid_request"@,
        EngineError::ReservedPlaneId => "reserved_plane_id"@,
        EngineError::InvalidPlaneId { .. } => "invalid_plane_id"@,
        EngineError::PlaneIdInUse { .. } => "plane_id_in_use"@,
        EngineError::InvalidProjectName { .. } => "invalid_project_name"@,
        EngineError::ReservedNameSegment { .. } => "reserved_name_segment"@,
        EngineError::ReservedPathSegment { .. } => "reserved_path_segment"@,
        EngineError::DuplicateMember { .. } => "duplicate_member"@,
        EngineError::SameRepository { .. } => "same_repository"@,
        EngineError::MemberPathCollision { .. } => "member_path_collision"@,
        EngineError::ProjectNotFound { .. } => "project_not_found"@,
        EngineError::PlaneNotFound { .. } => "plane_not_found"@,
        EngineError::ProjectNameTaken { .. } => "project_name_taken"@,
        EngineError::ProjectNameNests { .. } => "project_name_nests"@,
        EngineError::DerivedNameInvalid { .. } => "derived_name_invalid"@,
        EngineError::ProjectAddAborted { .. } => "project_add_aborted"@,
        EngineError::FetchFailed { .. } => "fetch_failed"@,
        EngineError::BranchUnspecified { .. } => "branch_unspecified"@,
        EngineError::MemberPathAmbiguous { .. } => "member_path_ambiguous"@,
        EngineError::MemberNotARepository { .. } => "member_not_a_repository"@,
        EngineError::BranchIntentUnmet { .. } => "branch_intent_unmet"@,
        EngineError::BaseBranchUnresolved { .. } => "base_branch_unresolved"@,
        EngineError::BranchOccupied { .. } => "branch_occupied"@,
        EngineError::ParseError { .. } => "parse_error"@,
        EngineError::GitFailed { .. } => "git_failed"@,
        EngineError::CreateAborted { .. } => "create_aborted"@,
        EngineError::AddAborted { .. } => "add_aborted"@,
        EngineError::Refused { .. } => "refused"@,
        EngineError::PlaneIncomplete { .. } => "plane_incomplete"@,
        EngineError::ProjectNotInPlane { .. } => "project_not_in_plane"@,
        EngineError::RemovalFailed { .. } => "removal_failed"@,
        EngineError::LockTimeout { .. } => "lock_timeout"@,
        EngineError::Io { .. } => "io"@,
    }
}

/// The code the process exits with when this failure is what stopped it.
pub open spec fn code_of(e: EngineError) -> ExitCode {
    match e {
        EngineError::GitMissing
        | EngineError::GitUnusable { .. }
        | EngineError::GitVersionUnreadable { .. }
        | EngineError::GitTooOld { .. } => ExitCode::PrerequisiteMissing,
        EngineError::InvalidRequest { .. }
        | EngineError::ReservedPlaneId
        | EngineError::InvalidPlaneId { .. }
        | EngineError::PlaneIdInUse { .. }
        | EngineError::InvalidProjectName { .. }
        | EngineError::ReservedNameSegment { .. }
        | EngineError::ReservedPathSegment { .. }
        | EngineError::DuplicateMember { .. }
        | EngineError::SameRepository { .. }
        | EngineError::MemberPathCollision { .. }
        | EngineError::ProjectNotFound { .. }
        | EngineError::PlaneNotFound { .. }
        | EngineError::ProjectNameTaken { .. }
        | EngineError::ProjectNameNests { .. }
        | EngineError::DerivedNameInvalid { .. }
        | EngineError::BranchUnspecified { .. }
        | EngineError::MemberPathAmbiguous { .. }
        | EngineError::MemberNotARepository { .. }
        | EngineError::BranchIntentUnmet { .. }
        | EngineError::BaseBranchUnresolved { .. }
        | EngineError::ProjectNotInPlane { .. } => ExitCode::Usage,
        EngineError::LockTimeout { .. } => ExitCode::Busy,
        EngineError::BranchOccupied { .. }
        | EngineError::ParseError { .. }
        | EngineError::GitFailed { .. }
        | EngineError::CreateAborted { .. }
        | EngineError::AddAborted { .. }
        | EngineError::ProjectAddAborted { .. }
        | EngineError::FetchFailed { .. }
        | EngineError::Refused { .. }
        | EngineError::PlaneIncomplete { .. }
        | EngineError::RemovalFailed { .. }
        | EngineError::Io { .. } => ExitCode::Failure,
    }
}

impl EngineError {
    /// The stable machine tag for this failure.
    pub fn tag(&self) -> (t: &'static str)
        ensures
            t@ == tag_of(*self),
    {
        proof {
            reveal_strlit("git_missing");
            reveal_strlit("git_unusable");
            reveal_strlit("git_version_unreadable");
            reveal_strlit("git_too_old");
            reveal_strlit("invalid_request");
            reveal_strlit("reserved_plane_id");
            reveal_strlit("invalid_plane_id");
            reveal_strlit("plane_id_in_use");
            reveal_strlit("invalid_project_name");
            reveal_strlit("reserved_name_segment");
            reveal_strlit("reserved_path_segment");
            reveal_strlit("duplicate_member");
            reveal_strlit("same_repository");
            reveal_strlit("member_path_collision");
            reveal_strlit("project_not_found");
            reveal_strlit("plane_not_found");
            reveal_strlit("project_name_taken");
            reveal_strlit("derived_name_invalid");
            reveal_strlit("project_add_aborted");
            reveal_strlit("fetch_failed");
            reveal_strlit("branch_unspecified");
            reveal_strlit("member_path_ambiguous");
            reveal_strlit("member_not_a_repository");
            reveal_strlit("branch_intent_unmet");
            reveal_strlit("base_branch_unresolved");
            reveal_strlit("branch_occupied");
            reveal_strlit("parse_error");
            reveal_strlit("git_failed");
            reveal_strlit("create_aborted");
            reveal_strlit("refused");
            reveal_strlit("plane_incomplete");
            reveal_strlit("project_not_in_plane");
            reveal_strlit("removal_failed");
            reveal_strlit("lock_timeout");
            reveal_strlit("io");
        }
        match self {
            EngineError::GitMissing => "git_missing",
            EngineError::GitUnusable { .. } => "git_unusable",
            EngineError::GitVersionUnreadable { .. } => "git_version_unreadable",
            EngineError::GitTooOld { .. } => "git_too_old",
            EngineError::InvalidRequest { .. } => "invalid_request",
            EngineError::ReservedPlaneId => "reserved_plane_id",
            EngineError::InvalidPlaneId { .. } => "invalid_plane_id",
            EngineError::PlaneIdInUse { .. } => "plane_id_in_use",
            EngineError::InvalidProjectName { .. } => "invalid_project_name",
            EngineError::ReservedNameSegment { .. } => "reserved_name_segment",
            EngineError::ReservedPathSegment { .. } => "reserved_path_segment",
            EngineError::DuplicateMember { .. } => "duplicate_member",
            EngineError::SameRepository { .. } => "same_repository",
            EngineError::MemberPathCollision { .. } => "member_path_collision",
            EngineError::ProjectNotFound { .. } => "project_not_found",
            EngineError::PlaneNotFound { .. } => "plane_not_found",
            EngineError::ProjectNameTaken { .. } => "project_name_taken",
            EngineError::ProjectNameNests { .. } => "project_name_nests",
            EngineError::DerivedNameInvalid { .. } => "derived_name_invalid",
            EngineError::ProjectAddAborted { .. } => "project_add_aborted",
            EngineError::FetchFailed { .. } => "fetch_failed",
            EngineError::BranchUnspecified { .. } => "branch_unspecified",
            EngineError::MemberPathAmbiguous { .. } => "member_path_ambiguous",
            EngineError::MemberNotARepository { .. } => "member_not_a_repository",
            EngineError::BranchIntentUnmet { .. } => "branch_intent_unmet",
            EngineError::BaseBranchUnresolved { .. } => "base_branch_unresolved",
            EngineError::BranchOccupied { .. } => "branch_occupied",
            EngineError::ParseError { .. } => "parse_error",
            EngineError::GitFailed { .. } => "git_failed",
            EngineError::CreateAborted { .. } => "create_aborted",
            EngineError::AddAborted { .. } => "add_aborted",
            EngineError::Refused { .. } => "refused",
            EngineError::PlaneIncomplete { .. } => "plane_incomplete",
            EngineError::ProjectNotInPlane { .. } => "project_not_in_plane",
            EngineError::RemovalFailed { .. } => "removal_failed",
            EngineError::LockTimeout { .. } => "lock_timeout",
            EngineError::Io { .. } => "io",
        }
    }

    /// The code the process exits with when this failure is what stopped it.
    pub fn exit_code(&self) -> (c: ExitCode)
        ensures
            c == code_of(*self),
    {
        match self {
            EngineError::GitMissing
            | EngineError::GitUnusable { .. }
            | EngineError::GitVersionUnreadable { .. }
            | EngineError::GitTooOld { .. } => ExitCode::PrerequisiteMissing,
            EngineError::InvalidRequest { .. }
            | EngineError::ReservedPlaneId
            | EngineError::InvalidPlaneId { .. }
            | EngineError::PlaneIdInUse { .. }
            | EngineError::InvalidProjectName { .. }
            | EngineError::ReservedNameSegment { .. }
            | EngineError::ReservedPathSegment { .. }
            | EngineError::DuplicateMember { .. }
            | EngineError::SameRepository { .. }
            | EngineError::MemberPathCollision { .. }
            | EngineError::ProjectNotFound { .. }
            | EngineError::PlaneNotFound { .. }
            | EngineError::ProjectNameTaken { .. }
            | EngineError::ProjectNameNests { .. }
        | EngineError::ProjectNameNests { .. }
            | EngineError::DerivedNameInvalid { .. }
            | EngineError::BranchUnspecified { .. }
            | EngineError::MemberPathAmbiguous { .. }
            | EngineError::MemberNotARepository { .. }
            | EngineError::BranchIntentUnmet { .. }
            | EngineError::BaseBranchUnresolved { .. }
            | EngineError::ProjectNotInPlane { .. } => ExitCode::Usage,
            EngineError::LockTimeout { .. } => ExitCode::Busy,
            EngineError::BranchOccupied { .. }
            | EngineError::ParseError { .. }
            | EngineError::GitFailed { .. }
            | EngineError::CreateAborted { .. }
            | EngineError::AddAborted { .. }
            | EngineError::ProjectAddAborted { .. }
            | EngineError::FetchFailed { .. }
            | EngineError::Refused { .. }
            | EngineError::PlaneIncomplete { .. }
            | EngineError::RemovalFailed { .. }
            | EngineError::Io { .. } => ExitCode::Failure,
        }
    }
}

/// No typed failure exits `0` or `3`: success and drift are never errors.
pub proof fn no_failure_exits_success_or_drift(e: EngineError)
    ensures
        code_of(e) != ExitCode::Success,
        code_of(e) != ExitCode::Drift,
{
}


/// How Rust's `Debug` writes a string: quoted, with escapes.
pub uninterp spec fn debug_text(s: Seq<char>) -> Seq<char>;

/// `format!("{:?}", s)`: the string quoted and escaped as Rust's `Debug`
/// writes it. The escaping is std's, named by [`debug_text`].
#[verifier::external_body]
pub(crate) fn debug_quoted(s: &str) -> (r: String)
    ensures
        r@ == debug_text(s@),
{
    format!("{:?}", s)
}

/// The floor as a message names it: all three components.
pub open spec fn floor_text() -> Seq<char> {
    version_text(minimum())
}

/// How a plane ref is named in a message.
pub open spec fn plane_ref_text(p: PlaneRef) -> Seq<char> {
    match p {
        PlaneRef::Id { id } => id@,
        PlaneRef::ContainingPath { path } => path@,
    }
}

/// How many rows of a removal failed.
pub open spec fn failures_in(rows: Seq<PerMember<RemovedMember>>) -> nat
    decreases rows.len(),
{
    if rows.len() == 0 {
        0
    } else {
        failures_in(rows.drop_last()) + if rows.last().outcome is Failed { 1nat } else { 0nat }
    }
}

/// The one human sentence each failure renders as.
pub open spec fn message_of(e: EngineError) -> Seq<char> {
    match e {
        EngineError::GitMissing => "git was not found on PATH; bitplane requires git "@ + floor_text() + " or newer"@,
        EngineError::GitUnusable { message } => "git could not be run ("@ + message@ + "); bitplane requires git "@
            + floor_text() + " or newer"@,
        EngineError::GitVersionUnreadable { reported } => "git's version could not be read from "@ + debug_text(
            reported@,
        ) + "; bitplane requires git "@ + floor_text() + " or newer"@,
        EngineError::GitTooOld { found, required } => "git "@ + version_text(found) + " is too old; bitplane requires git "@
            + version_text(required) + " or newer"@,
        EngineError::InvalidRequest { message } => message@,
        EngineError::ReservedPlaneId => "bp- is reserved for generated plane ids"@,
        EngineError::InvalidPlaneId { id } => id@ + " is not a valid plane id"@,
        EngineError::PlaneIdInUse { id, found } => match found {
            Occupant::Plane => id@ + " is already a plane"@,
            Occupant::LatchedRemnant => id@ + " exists but was never completed"@,
            Occupant::ClaimWithoutPlaneFile => id@ + " is a claimed directory with no plane file"@,
        },
        EngineError::InvalidProjectName { name } => name@ + " is not a valid project name"@,
        EngineError::ReservedNameSegment { name, segment } => name@ + " is not a valid project name: "@ + segment@
            + " is reserved"@,
        EngineError::ReservedPathSegment { path } => "a worktree of this repo would land at "@ + path@
            + ", which is reserved"@,
        EngineError::DuplicateMember { member, plane } => match plane {
            Some(plane) => member@ + " is already a member of "@ + plane@,
            None => member@ + " is named twice"@,
        },
        EngineError::SameRepository { first, second } => second@ + " is a worktree of the same repository as "@
            + first@,
        EngineError::MemberPathCollision { first, second, path } => first@ + " and "@ + second@
            + " would both land at "@ + path@,
        EngineError::ProjectNotFound { name } => "there is no project called "@ + name@,
        EngineError::PlaneNotFound { sought } => match sought {
            PlaneRef::Id { id } => "there is no plane called "@ + id@,
            PlaneRef::ContainingPath { path } => "no plane contains "@ + path@,
        },
        EngineError::ProjectNameTaken { name, same_source, .. } => if same_source {
            name@ + " is already registered from that url"@
        } else {
            name@ + " is already a project"@
        },
        EngineError::ProjectNameNests { name, blocker } => if inside(name@, blocker@) {
            name@ + " would sit inside the project "@ + blocker@
        } else {
            name@ + " would contain the project "@ + blocker@
        },
        EngineError::DerivedNameInvalid { derived } => derived@ + " is not a name bitplane can derive a project from"@,
        EngineError::ProjectAddAborted { name, .. } => seq!['@'] + name@ + " was not registered"@,
        EngineError::FetchFailed { failed, fetchable, .. } => decimal(failed as nat) + " of "@ + decimal(
            fetchable as nat,
        ) + " fetchable projects could not be fetched"@,
        EngineError::BranchUnspecified { member } => "no branch given for "@ + member@,
        EngineError::MemberPathAmbiguous { spec } => spec@ + " could be a path or a member with a branch suffix"@,
        EngineError::MemberNotARepository { path, reason } => path@ + " "@ + reason@,
        EngineError::BranchIntentUnmet { member, branch, wanted } => match wanted {
            BranchWanted::New => branch@ + " already exists in "@ + member@,
            BranchWanted::Existing => branch@ + " does not exist in "@ + member@,
        },
        EngineError::BaseBranchUnresolved { member, branch } => member@ + " has no default branch to cut "@ + branch@
            + " from"@,
        EngineError::BranchOccupied { branch, worktree, .. } => branch@ + " is already checked out in "@ + worktree@,
        EngineError::ParseError { path, message, .. } => path@ + ": "@ + message@,
        EngineError::GitFailed { message } => message@,
        EngineError::CreateAborted { id, remnant, .. } => if remnant {
            "create did not finish and "@ + id@ + " could not be fully removed"@
        } else {
            "create did not finish; "@ + id@ + " was removed"@
        },
        EngineError::AddAborted { plane, remnant, .. } => if remnant {
            "add did not finish and "@ + plane@ + " could not be fully restored"@
        } else {
            "add did not finish; "@ + plane@ + " was left as it was"@
        },
        EngineError::Refused { plane, operation, blocking, considered, .. } => match operation {
            Teardown::Destroy => "refusing to destroy "@ + plane@ + ": "@ + decimal(blocking as nat) + " of "@
                + decimal(considered as nat) + " members have work that would be lost"@,
            Teardown::Remove => "refusing to remove "@ + decimal(blocking as nat) + " of "@ + decimal(
                considered as nat,
            ) + " members from "@ + plane@ + ": they have work that would be lost"@,
        },
        EngineError::PlaneIncomplete { id } => id@ + " was never finished being created"@,
        EngineError::ProjectNotInPlane { member, plane } => member@ + " is not a member of "@ + plane@,
        EngineError::RemovalFailed { plane, members, .. } => decimal(failures_in(members@)) + " of "@ + decimal(
            members@.len(),
        ) + " worktrees could not be removed from "@ + plane@,
        EngineError::LockTimeout { object } => "timed out waiting for the lock on "@ + object@,
        EngineError::Io { path, message } => path@ + ": "@ + message@,
    }
}

/// The verb a user types for each teardown.
pub open spec fn verb_text(t: Teardown) -> Seq<char> {
    match t {
        Teardown::Destroy => "destroy"@,
        Teardown::Remove => "rm"@,
    }
}

/// `a`, `a and b`, `a, b and c`.
pub open spec fn listed_text(items: Seq<Seq<char>>) -> Seq<char> {
    if items.len() == 0 {
        Seq::empty()
    } else if items.len() == 1 {
        items[0]
    } else {
        joined(items.drop_last(), ", "@) + " and "@ + items.last()
    }
}

/// The text of each of a list of strings.
pub open spec fn texts(items: Seq<String>) -> Seq<Seq<char>> {
    Seq::new(items.len(), |i: int| items[i]@)
}

/// What to do about each failure, where bitplane knows.
pub open spec fn remedy_of(e: EngineError) -> Option<Seq<char>> {
    match e {
        EngineError::GitMissing => Some("Install git "@ + floor_text() + " or newer and put it on PATH."@),
        EngineError::GitUnusable { .. } | EngineError::GitVersionUnreadable { .. } => Some(
            "Check that `git --version` reports git "@ + floor_text() + " or newer."@,
        ),
        EngineError::GitTooOld { required, .. } => Some("Upgrade git to "@ + version_text(required) + " or newer."@),
        EngineError::LockTimeout { .. } => Some("Another bitplane process holds it; retry once that one finishes."@),
        EngineError::ReservedPlaneId => Some("Choose an id that does not start with bp-."@),
        EngineError::InvalidPlaneId { .. } => Some(
            "Use lowercase letters, digits and . _ - ; start with a letter or digit; 64 characters at most."@,
        ),
        EngineError::PlaneIdInUse { id, found } => Some(
            match found {
                Occupant::Plane => "Choose another id, or destroy the existing plane first."@,
                Occupant::LatchedRemnant => "Nothing in it is yours; run bp destroy -p "@ + id@ + " to clear it."@,
                Occupant::ClaimWithoutPlaneFile => "Run bp doctor to see what is in it, then remove the directory by hand."@,
            },
        ),
        EngineError::InvalidProjectName { .. } => Some(
            "Use lowercase letters, digits and . _ - ; start with a letter or digit."@,
        ),
        EngineError::ReservedNameSegment { .. } => Some(
            "Choose a name none of whose segments is repo.git or bin."@,
        ),
        EngineError::ReservedPathSegment { .. } => Some("Move the repository out of a directory called .bitplane."@),
        EngineError::DuplicateMember { member, plane } => Some(
            match plane {
                Some(_) => "Run bp rm "@ + member@ + ", then bp add "@ + member@ + ":<branch>."@,
                None => "A plane holds at most one worktree per repository; name it once."@,
            },
        ),
        EngineError::SameRepository { .. } => Some(
            "A plane holds at most one worktree per repository; name one of them."@,
        ),
        EngineError::MemberPathCollision { .. } => Some(
            "A plane holds one worktree per derived path; put one of them in another plane."@,
        ),
        EngineError::ProjectNotFound { .. } => Some("Run bp project list to see what projects exist."@),
        EngineError::PlaneNotFound { sought } => Some(
            match sought {
                PlaneRef::Id { .. } => "Run bp list to see what planes exist."@,
                PlaneRef::ContainingPath { .. } => "cd into a plane, or name one with --plane."@,
            },
        ),
        EngineError::ProjectNameTaken { same_source, suggestion, .. } => if same_source {
            None
        } else {
            Some(
                match suggestion {
                    Some(free) => free@ + " is free; re-run with --name "@ + free@ + "."@,
                    None => "Choose another name, or remove the project holding it."@,
                },
            )
        },
        EngineError::ProjectNameNests { blocker, .. } => Some(
            "Choose a name outside "@ + blocker@ + ", or rename "@ + blocker@ + " first."@,
        ),
        EngineError::DerivedNameInvalid { .. } => Some(
            "Re-run with --name <name>, using lowercase letters, digits and . _ - in each / -separated segment."@,
        ),
        EngineError::ProjectAddAborted { kept, .. } => Some(
            match kept {
                Some(kept) => "The objects fetched so far were kept at "@ + kept@
                    + "; re-running bp project add will reuse them."@,
                None => "Nothing was kept. Fix what the row reports, then run bp project add again."@,
            },
        ),
        EngineError::FetchFailed { .. } => None,
        EngineError::BranchUnspecified { member } => Some(
            "Pass -b <branch>, or write the member as "@ + member@ + ":<branch>."@,
        ),
        EngineError::MemberPathAmbiguous { .. } => Some(
            "Register it with bp project adopt and use its @name instead."@,
        ),
        EngineError::MemberNotARepository { .. } => Some(
            "Point at a directory that is a git repository, or create one with git init."@,
        ),
        EngineError::BranchIntentUnmet { wanted, .. } => Some(
            match wanted {
                BranchWanted::New => "Drop --new-branch, or choose a name no branch has taken."@,
                BranchWanted::Existing => "Drop --existing-branch, or create the branch first."@,
            },
        ),
        EngineError::BaseBranchUnresolved { .. } => Some(
            "Set one with git remote set-head origin <branch>, or pass --existing-branch to use a branch that is already there."@,
        ),
        EngineError::BranchOccupied { repo, stale, .. } => Some(
            if stale {
                "Run git worktree prune in "@ + repo@ + " to clear the stale record, then try again."@
            } else {
                "Check out a different branch there, or give this member a branch no worktree holds."@
            },
        ),
        EngineError::ParseError { legal_keys, .. } => if legal_keys@.len() == 0 {
            None
        } else {
            Some("Legal keys are "@ + listed_text(texts(legal_keys@)) + "."@)
        },
        EngineError::CreateAborted { id, remnant, .. } => Some(
            if remnant {
                "Run bp destroy -p "@ + id@ + " to clear the remnant."@
            } else {
                "Nothing was left behind. Fix what the rows report, then run bp create again."@
            },
        ),
        EngineError::AddAborted { plane, remnant, .. } => Some(
            if remnant {
                "Run bp show -p "@ + plane@ + " to see what is left, and bp rm what should not be there."@
            } else {
                "Nothing was left behind. Fix what the rows report, then run bp add again."@
            },
        ),
        EngineError::Refused { refusals, .. } => Some(
            "Inspect the members listed. Re-run with "@ + waive_line(reasons_of(refusals@))
                + " to accept losing that work."@,
        ),
        EngineError::PlaneIncomplete { id } => Some(
            "Nothing in it is yours; run bp destroy -p "@ + id@ + " to clear it."@,
        ),
        EngineError::ProjectNotInPlane { .. } => Some("Run bp show to see the members of this plane."@),
        EngineError::RemovalFailed { operation, .. } => Some(
            "Fix what the rows report, then run bp "@ + verb_text(operation)
                + " again; it converges, so re-running only finishes what is left."@,
        ),
        EngineError::InvalidRequest { .. } | EngineError::GitFailed { .. } | EngineError::Io { .. } => None,
    }
}

/// A problem as data: its subject, where it has one, and its sentence.
pub open spec fn problem_view(p: Problem) -> (Option<Seq<char>>, Seq<char>) {
    (
        match p.subject {
            Some(s) => Some(s@),
            None => None,
        },
        p.message@,
    )
}

/// The views of a list of problems.
pub open spec fn problem_views(ps: Seq<Problem>) -> Seq<(Option<Seq<char>>, Seq<char>)> {
    Seq::new(ps.len(), |i: int| problem_view(ps[i]))
}

/// One failed or skipped member of an aborted `create`, as a problem.
pub open spec fn created_row_problems(rows: Seq<PerMember<CreatedMember>>) -> Seq<(Option<Seq<char>>, Seq<char>)>
    decreases rows.len(),
{
    if rows.len() == 0 {
        Seq::empty()
    } else {
        let r = created_row_problems(rows.drop_last());
        let row = rows.last();
        match row.outcome {
            Outcome::Failed(e) => r.push((Some(member_text(row.member)), "failed: "@ + message_of(e))),
            Outcome::Skipped(reason) => r.push(
                (Some(member_text(row.member)), "skipped: "@ + skip_reason_text(reason)),
            ),
            _ => r,
        }
    }
}

/// Members whose worktree would not go, as problems.
pub open spec fn removal_problems<T>(rows: Seq<PerMember<T>>) -> Seq<(Option<Seq<char>>, Seq<char>)>
    decreases rows.len(),
{
    if rows.len() == 0 {
        Seq::empty()
    } else {
        let r = removal_problems(rows.drop_last());
        let row = rows.last();
        match row.outcome {
            Outcome::Failed(e) => r.push((Some(member_text(row.member)), "could not be removed: "@ + message_of(e))),
            _ => r,
        }
    }
}

/// Each refusal as its own problem.
pub open spec fn refusal_problems(refusals: Seq<Refusal>) -> Seq<(Option<Seq<char>>, Seq<char>)> {
    Seq::new(refusals.len(), |i: int| (Some(member_text(refusals[i].member)), refusals[i].detail@))
}

/// The individual things that were wrong, for the failures that have more
/// than one.
pub open spec fn problems_of(e: EngineError) -> Seq<(Option<Seq<char>>, Seq<char>)> {
    match e {
        EngineError::LockTimeout { object } => seq![(Some(object@), "is locked by another process"@)],
        EngineError::Io { path, message } => seq![(Some(path@), message@)],
        EngineError::BranchOccupied { branch, worktree, stale, .. } => seq![
            (
                Some(worktree@),
                if stale {
                    "is gone, but git still records it as holding the branch"@
                } else {
                    "its working tree is on "@ + branch@
                },
            ),
        ],
        EngineError::CreateAborted { members, rollback, .. } | EngineError::AddAborted { members, rollback, .. } => created_row_problems(members@) + removal_problems(
            rollback@,
        ),
        EngineError::ProjectAddAborted { problem, .. } => seq![problem_view(problem)],
        EngineError::FetchFailed { problems, .. } => problem_views(problems@),
        EngineError::Refused { refusals, .. } => refusal_problems(refusals@),
        EngineError::RemovalFailed { members, .. } => removal_problems(members@),
        _ => Seq::empty(),
    }
}

/// The envelope a failure renders as, field by field.
pub open spec fn is_envelope_of(env: ErrorEnvelope, e: EngineError) -> bool {
    &&& env.error@ == tag_of(e)
    &&& env.code == code_of(e)
    &&& env.message@ == message_of(e)
    &&& problem_views(env.problems@) == problems_of(e)
    &&& match env.remedy {
        Some(r) => remedy_of(e) == Some(r@),
        None => remedy_of(e) is None,
    }
}

fn push_floor(s: &mut String)
    ensures
        final(s)@ == old(s)@ + floor_text(),
{
    let floor = minimum_git_version().to_text();
    push_str(s, floor.as_str());
}

impl PlaneRef {
    /// How this ref is named in a message.
    pub fn to_text(&self) -> (s: String)
        ensures
            s@ == plane_ref_text(*self),
    {
        match self {
            PlaneRef::Id { id } => id.clone(),
            PlaneRef::ContainingPath { path } => path.clone(),
        }
    }
}

fn count_failures(rows: &Vec<PerMember<RemovedMember>>) -> (n: usize)
    ensures
        n == failures_in(rows@),
{
    let mut n: usize = 0;
    let mut i: usize = 0;
    while i < rows.len()
        invariant
            i <= rows@.len(),
            n == failures_in(rows@.subrange(0, i as int)),
            n <= i,
        decreases rows.len() - i,
    {
        let ghost upto = rows@.subrange(0, i as int + 1);
        assert(upto.drop_last() =~= rows@.subrange(0, i as int));
        if rows[i].is_failure() {
            n = n + 1;
        }
        i = i + 1;
    }
    assert(rows@.subrange(0, rows@.len() as int) =~= rows@);
    n
}

impl EngineError {
    /// The one human sentence this failure renders as.
    pub fn message(&self) -> (s: String)
        ensures
            s@ == message_of(*self),
    {
        let mut s = String::new();
        match self {
            EngineError::GitMissing => {
                push_str(&mut s, "git was not found on PATH; bitplane requires git ");
                push_floor(&mut s);
                push_str(&mut s, " or newer");
            },
            EngineError::GitUnusable { message } => {
                push_str(&mut s, "git could not be run (");
                push_str(&mut s, message.as_str());
                push_str(&mut s, "); bitplane requires git ");
                push_floor(&mut s);
                push_str(&mut s, " or newer");
            },
            EngineError::GitVersionUnreadable { reported } => {
                push_str(&mut s, "git's version could not be read from ");
                let quoted = debug_quoted(reported.as_str());
                push_str(&mut s, quoted.as_str());
                push_str(&mut s, "; bitplane requires git ");
                push_floor(&mut s);
                push_str(&mut s, " or newer");
            },
            EngineError::GitTooOld { found, required } => {
                push_str(&mut s, "git ");
                push_str(&mut s, found.to_text().as_str());
                push_str(&mut s, " is too old; bitplane requires git ");
                push_str(&mut s, required.to_text().as_str());
                push_str(&mut s, " or newer");
            },
            EngineError::InvalidRequest { message } => {
                push_str(&mut s, message.as_str());
            },
            EngineError::ReservedPlaneId => {
                push_str(&mut s, "bp- is reserved for generated plane ids");
            },
            EngineError::InvalidPlaneId { id } => {
                push_str(&mut s, id.as_str());
                push_str(&mut s, " is not a valid plane id");
            },
            EngineError::PlaneIdInUse { id, found } => {
                push_str(&mut s, id.as_str());
                match found {
                    Occupant::Plane => push_str(&mut s, " is already a plane"),
                    Occupant::LatchedRemnant => push_str(&mut s, " exists but was never completed"),
                    Occupant::ClaimWithoutPlaneFile => push_str(&mut s, " is a claimed directory with no plane file"),
                }
            },
            EngineError::InvalidProjectName { name } => {
                push_str(&mut s, name.as_str());
                push_str(&mut s, " is not a valid project name");
            },
            EngineError::ReservedNameSegment { name, segment } => {
                push_str(&mut s, name.as_str());
                push_str(&mut s, " is not a valid project name: ");
                push_str(&mut s, segment.as_str());
                push_str(&mut s, " is reserved");
            },
            EngineError::ReservedPathSegment { path } => {
                push_str(&mut s, "a worktree of this repo would land at ");
                push_str(&mut s, path.as_str());
                push_str(&mut s, ", which is reserved");
            },
            EngineError::DuplicateMember { member, plane } => {
                push_str(&mut s, member.as_str());
                match plane {
                    Some(plane) => {
                        push_str(&mut s, " is already a member of ");
                        push_str(&mut s, plane.as_str());
                    },
                    None => push_str(&mut s, " is named twice"),
                }
            },
            EngineError::SameRepository { first, second } => {
                push_str(&mut s, second.as_str());
                push_str(&mut s, " is a worktree of the same repository as ");
                push_str(&mut s, first.as_str());
            },
            EngineError::MemberPathCollision { first, second, path } => {
                push_str(&mut s, first.as_str());
                push_str(&mut s, " and ");
                push_str(&mut s, second.as_str());
                push_str(&mut s, " would both land at ");
                push_str(&mut s, path.as_str());
            },
            EngineError::ProjectNotFound { name } => {
                push_str(&mut s, "there is no project called ");
                push_str(&mut s, name.as_str());
            },
            EngineError::PlaneNotFound { sought } => match sought {
                PlaneRef::Id { id } => {
                    push_str(&mut s, "there is no plane called ");
                    push_str(&mut s, id.as_str());
                },
                PlaneRef::ContainingPath { path } => {
                    push_str(&mut s, "no plane contains ");
                    push_str(&mut s, path.as_str());
                },
            },
            EngineError::ProjectNameTaken { name, same_source, .. } => {
                push_str(&mut s, name.as_str());
                if *same_source {
                    push_str(&mut s, " is already registered from that url");
                } else {
                    push_str(&mut s, " is already a project");
                }
            },
            EngineError::ProjectNameNests { name, blocker } => {
                push_str(&mut s, name.as_str());
                let a = chars_of(name.as_str());
                let b = chars_of(blocker.as_str());
                if is_inside(&a, &b) {
                    push_str(&mut s, " would sit inside the project ");
                } else {
                    push_str(&mut s, " would contain the project ");
                }
                push_str(&mut s, blocker.as_str());
            },
            EngineError::DerivedNameInvalid { derived } => {
                push_str(&mut s, derived.as_str());
                push_str(&mut s, " is not a name bitplane can derive a project from");
            },
            EngineError::ProjectAddAborted { name, .. } => {
                push_char(&mut s, '@');
                push_str(&mut s, name.as_str());
                push_str(&mut s, " was not registered");
            },
            EngineError::FetchFailed { failed, fetchable, .. } => {
                push_decimal(&mut s, *failed as u64);
                push_str(&mut s, " of ");
                push_decimal(&mut s, *fetchable as u64);
                push_str(&mut s, " fetchable projects could not be fetched");
            },
            EngineError::BranchUnspecified { member } => {
                push_str(&mut s, "no branch given for ");
                push_str(&mut s, member.as_str());
            },
            EngineError::MemberPathAmbiguous { spec } => {
                push_str(&mut s, spec.as_str());
                push_str(&mut s, " could be a path or a member with a branch suffix");
            },
            EngineError::MemberNotARepository { path, reason } => {
                push_str(&mut s, path.as_str());
                push_str(&mut s, " ");
                push_str(&mut s, reason.as_str());
            },
            EngineError::BranchIntentUnmet { member, branch, wanted } => {
                push_str(&mut s, branch.as_str());
                match wanted {
                    BranchWanted::New => push_str(&mut s, " already exists in "),
                    BranchWanted::Existing => push_str(&mut s, " does not exist in "),
                }
                push_str(&mut s, member.as_str());
            },
            EngineError::BaseBranchUnresolved { member, branch } => {
                push_str(&mut s, member.as_str());
                push_str(&mut s, " has no default branch to cut ");
                push_str(&mut s, branch.as_str());
                push_str(&mut s, " from");
            },
            EngineError::BranchOccupied { branch, worktree, .. } => {
                push_str(&mut s, branch.as_str());
                push_str(&mut s, " is already checked out in ");
                push_str(&mut s, worktree.as_str());
            },
            EngineError::ParseError { path, message, .. } => {
                push_str(&mut s, path.as_str());
                push_str(&mut s, ": ");
                push_str(&mut s, message.as_str());
            },
            EngineError::GitFailed { message } => {
                push_str(&mut s, message.as_str());
            },
            EngineError::CreateAborted { id, remnant, .. } => {
                if *remnant {
                    push_str(&mut s, "create did not finish and ");
                    push_str(&mut s, id.as_str());
                    push_str(&mut s, " could not be fully removed");
                } else {
                    push_str(&mut s, "create did not finish; ");
                    push_str(&mut s, id.as_str());
                    push_str(&mut s, " was removed");
                }
            },
            EngineError::AddAborted { plane, remnant, .. } => {
                if *remnant {
                    push_str(&mut s, "add did not finish and ");
                    push_str(&mut s, plane.as_str());
                    push_str(&mut s, " could not be fully restored");
                } else {
                    push_str(&mut s, "add did not finish; ");
                    push_str(&mut s, plane.as_str());
                    push_str(&mut s, " was left as it was");
                }
            },
            EngineError::Refused { plane, operation, blocking, considered, .. } => match operation {
                Teardown::Destroy => {
                    push_str(&mut s, "refusing to destroy ");
                    push_str(&mut s, plane.as_str());
                    push_str(&mut s, ": ");
                    push_decimal(&mut s, *blocking as u64);
                    push_str(&mut s, " of ");
                    push_decimal(&mut s, *considered as u64);
                    push_str(&mut s, " members have work that would be lost");
                },
                Teardown::Remove => {
                    push_str(&mut s, "refusing to remove ");
                    push_decimal(&mut s, *blocking as u64);
                    push_str(&mut s, " of ");
                    push_decimal(&mut s, *considered as u64);
                    push_str(&mut s, " members from ");
                    push_str(&mut s, plane.as_str());
                    push_str(&mut s, ": they have work that would be lost");
                },
            },
            EngineError::PlaneIncomplete { id } => {
                push_str(&mut s, id.as_str());
                push_str(&mut s, " was never finished being created");
            },
            EngineError::ProjectNotInPlane { member, plane } => {
                push_str(&mut s, member.as_str());
                push_str(&mut s, " is not a member of ");
                push_str(&mut s, plane.as_str());
            },
            EngineError::RemovalFailed { plane, members, .. } => {
                let failed = count_failures(members);
                push_decimal(&mut s, failed as u64);
                push_str(&mut s, " of ");
                push_decimal(&mut s, members.len() as u64);
                push_str(&mut s, " worktrees could not be removed from ");
                push_str(&mut s, plane.as_str());
            },
            EngineError::LockTimeout { object } => {
                push_str(&mut s, "timed out waiting for the lock on ");
                push_str(&mut s, object.as_str());
            },
            EngineError::Io { path, message } => {
                push_str(&mut s, path.as_str());
                push_str(&mut s, ": ");
                push_str(&mut s, message.as_str());
            },
        }
        assert(s@ =~= message_of(*self));
        s
    }
}


/// `a`, `a and b`, `a, b and c`: the form the remedies are written in.
pub fn listed(items: &[String]) -> (s: String)
    ensures
        s@ == listed_text(texts(items@)),
{
    let mut s = String::new();
    let n = items.len();
    if n == 0 {
        return s;
    }
    if n == 1 {
        return items[0].clone();
    }
    let mut i: usize = 0;
    while i < n - 1
        invariant
            n == items@.len(),
            n >= 2,
            i <= n - 1,
            s@ == joined(texts(items@).subrange(0, i as int), ", "@),
        decreases n - 1 - i,
    {
        let ghost before = s@;
        if i > 0 {
            push_str(&mut s, ", ");
        }
        push_str(&mut s, items[i].as_str());
        proof {
            let upto = texts(items@).subrange(0, i as int + 1);
            assert(upto.drop_last() =~= texts(items@).subrange(0, i as int));
            assert(upto.last() == items@[i as int]@);
        }
        i = i + 1;
    }
    assert(texts(items@).drop_last() =~= texts(items@).subrange(0, n - 1));
    push_str(&mut s, " and ");
    push_str(&mut s, items[n - 1].as_str());
    assert(texts(items@).last() == items@[n - 1]@);
    s
}

impl Teardown {
    /// The verb a user types, for a remedy that can be pasted.
    pub fn verb(self) -> (s: &'static str)
        ensures
            s@ == verb_text(self),
    {
        match self {
            Teardown::Destroy => "destroy",
            Teardown::Remove => "rm",
        }
    }
}

impl EngineError {
    /// What to do about this failure, where bitplane knows.
    pub fn remedy(&self) -> (r: Option<String>)
        ensures
            match r {
                Some(s) => remedy_of(*self) == Some(s@),
                None => remedy_of(*self) is None,
            },
    {
        let mut s = String::new();
        match self {
            EngineError::GitMissing => {
                push_str(&mut s, "Install git ");
                push_floor(&mut s);
                push_str(&mut s, " or newer and put it on PATH.");
            },
            EngineError::GitUnusable { .. } | EngineError::GitVersionUnreadable { .. } => {
                push_str(&mut s, "Check that `git --version` reports git ");
                push_floor(&mut s);
                push_str(&mut s, " or newer.");
            },
            EngineError::GitTooOld { required, .. } => {
                push_str(&mut s, "Upgrade git to ");
                push_str(&mut s, required.to_text().as_str());
                push_str(&mut s, " or newer.");
            },
            EngineError::LockTimeout { .. } => {
                push_str(&mut s, "Another bitplane process holds it; retry once that one finishes.");
            },
            EngineError::ReservedPlaneId => {
                push_str(&mut s, "Choose an id that does not start with bp-.");
            },
            EngineError::InvalidPlaneId { .. } => {
                push_str(
                    &mut s,
                    "Use lowercase letters, digits and . _ - ; start with a letter or digit; 64 characters at most.",
                );
            },
            EngineError::PlaneIdInUse { id, found } => match found {
                Occupant::Plane => push_str(&mut s, "Choose another id, or destroy the existing plane first."),
                Occupant::LatchedRemnant => {
                    push_str(&mut s, "Nothing in it is yours; run bp destroy -p ");
                    push_str(&mut s, id.as_str());
                    push_str(&mut s, " to clear it.");
                },
                Occupant::ClaimWithoutPlaneFile => push_str(
                    &mut s,
                    "Run bp doctor to see what is in it, then remove the directory by hand.",
                ),
            },
            EngineError::InvalidProjectName { .. } => {
                push_str(&mut s, "Use lowercase letters, digits and . _ - ; start with a letter or digit.");
            },
            EngineError::ReservedNameSegment { .. } => {
                push_str(&mut s, "Choose a name none of whose segments is repo.git or bin.");
            },
            EngineError::ReservedPathSegment { .. } => {
                push_str(&mut s, "Move the repository out of a directory called .bitplane.");
            },
            EngineError::DuplicateMember { member, plane } => match plane {
                Some(_) => {
                    push_str(&mut s, "Run bp rm ");
                    push_str(&mut s, member.as_str());
                    push_str(&mut s, ", then bp add ");
                    push_str(&mut s, member.as_str());
                    push_str(&mut s, ":<branch>.");
                },
                None => push_str(&mut s, "A plane holds at most one worktree per repository; name it once."),
            },
            EngineError::SameRepository { .. } => {
                push_str(&mut s, "A plane holds at most one worktree per repository; name one of them.");
            },
            EngineError::MemberPathCollision { .. } => {
                push_str(&mut s, "A plane holds one worktree per derived path; put one of them in another plane.");
            },
            EngineError::ProjectNotFound { .. } => {
                push_str(&mut s, "Run bp project list to see what projects exist.");
            },
            EngineError::PlaneNotFound { sought } => match sought {
                PlaneRef::Id { .. } => push_str(&mut s, "Run bp list to see what planes exist."),
                PlaneRef::ContainingPath { .. } => push_str(&mut s, "cd into a plane, or name one with --plane."),
            },
            EngineError::ProjectNameTaken { same_source: true, .. } => {
                return None;
            },
            EngineError::ProjectNameNests { blocker, .. } => {
                push_str(&mut s, "Choose a name outside ");
                push_str(&mut s, blocker.as_str());
                push_str(&mut s, ", or rename ");
                push_str(&mut s, blocker.as_str());
                push_str(&mut s, " first.");
            },
            EngineError::ProjectNameTaken { suggestion, .. } => match suggestion {
                Some(free) => {
                    push_str(&mut s, free.as_str());
                    push_str(&mut s, " is free; re-run with --name ");
                    push_str(&mut s, free.as_str());
                    push_str(&mut s, ".");
                },
                None => push_str(&mut s, "Choose another name, or remove the project holding it."),
            },
            EngineError::DerivedNameInvalid { .. } => {
                push_str(
                    &mut s,
                    "Re-run with --name <name>, using lowercase letters, digits and . _ - in each / -separated segment.",
                );
            },
            EngineError::ProjectAddAborted { kept, .. } => match kept {
                Some(kept) => {
                    push_str(&mut s, "The objects fetched so far were kept at ");
                    push_str(&mut s, kept.as_str());
                    push_str(&mut s, "; re-running bp project add will reuse them.");
                },
                None => push_str(
                    &mut s,
                    "Nothing was kept. Fix what the row reports, then run bp project add again.",
                ),
            },
            EngineError::FetchFailed { .. } => {
                return None;
            },
            EngineError::BranchUnspecified { member } => {
                push_str(&mut s, "Pass -b <branch>, or write the member as ");
                push_str(&mut s, member.as_str());
                push_str(&mut s, ":<branch>.");
            },
            EngineError::MemberPathAmbiguous { .. } => {
                push_str(&mut s, "Register it with bp project adopt and use its @name instead.");
            },
            EngineError::MemberNotARepository { .. } => {
                push_str(&mut s, "Point at a directory that is a git repository, or create one with git init.");
            },
            EngineError::BranchIntentUnmet { wanted, .. } => match wanted {
                BranchWanted::New => push_str(&mut s, "Drop --new-branch, or choose a name no branch has taken."),
                BranchWanted::Existing => push_str(&mut s, "Drop --existing-branch, or create the branch first."),
            },
            EngineError::BaseBranchUnresolved { .. } => {
                push_str(
                    &mut s,
                    "Set one with git remote set-head origin <branch>, or pass --existing-branch to use a branch that is already there.",
                );
            },
            EngineError::BranchOccupied { repo, stale, .. } => {
                if *stale {
                    push_str(&mut s, "Run git worktree prune in ");
                    push_str(&mut s, repo.as_str());
                    push_str(&mut s, " to clear the stale record, then try again.");
                } else {
                    push_str(
                        &mut s,
                        "Check out a different branch there, or give this member a branch no worktree holds.",
                    );
                }
            },
            EngineError::ParseError { legal_keys, .. } => {
                if legal_keys.len() == 0 {
                    return None;
                }
                push_str(&mut s, "Legal keys are ");
                push_str(&mut s, listed(legal_keys.as_slice()).as_str());
                push_str(&mut s, ".");
            },
            EngineError::CreateAborted { id, remnant, .. } => {
                if *remnant {
                    push_str(&mut s, "Run bp destroy -p ");
                    push_str(&mut s, id.as_str());
                    push_str(&mut s, " to clear the remnant.");
                } else {
                    push_str(
                        &mut s,
                        "Nothing was left behind. Fix what the rows report, then run bp create again.",
                    );
                }
            },
            EngineError::AddAborted { plane, remnant, .. } => {
                if *remnant {
                    push_str(&mut s, "Run bp show -p ");
                    push_str(&mut s, plane.as_str());
                    push_str(&mut s, " to see what is left, and bp rm what should not be there.");
                } else {
                    push_str(&mut s, "Nothing was left behind. Fix what the rows report, then run bp add again.");
                }
            },
            EngineError::Refused { refusals, .. } => {
                let mut all: Vec<&Refusal> = Vec::new();
                let mut i: usize = 0;
                while i < refusals.len()
                    invariant
                        i <= refusals@.len(),
                        all@.len() == i,
                        forall|j: int| 0 <= j < i ==> *all@[j] == refusals@[j],
                    decreases refusals.len() - i,
                {
                    all.push(&refusals[i]);
                    i = i + 1;
                }
                proof {
                    assert(reasons_of(crate::refusal::derefs(all@)) =~= reasons_of(refusals@));
                }
                push_str(&mut s, "Inspect the members listed. Re-run with ");
                push_str(&mut s, waive_flags(all.as_slice()).as_str());
                push_str(&mut s, " to accept losing that work.");
            },
            EngineError::PlaneIncomplete { id } => {
                push_str(&mut s, "Nothing in it is yours; run bp destroy -p ");
                push_str(&mut s, id.as_str());
                push_str(&mut s, " to clear it.");
            },
            EngineError::ProjectNotInPlane { .. } => {
                push_str(&mut s, "Run bp show to see the members of this plane.");
            },
            EngineError::RemovalFailed { operation, .. } => {
                push_str(&mut s, "Fix what the rows report, then run bp ");
                push_str(&mut s, operation.verb());
                push_str(&mut s, " again; it converges, so re-running only finishes what is left.");
            },
            EngineError::InvalidRequest { .. } | EngineError::GitFailed { .. } | EngineError::Io { .. } => {
                return None;
            },
        }
        assert(remedy_of(*self) == Some(s@));
        Some(s)
    }
}


impl Problem {
    /// A problem with the operation as a whole.
    pub fn new(message: &str) -> (p: Problem)
        ensures
            problem_view(p) == (None::<Seq<char>>, message@),
    {
        Problem { subject: None, message: owned(message) }
    }

    /// A problem with one named thing.
    pub fn about(subject: &str, message: &str) -> (p: Problem)
        ensures
            problem_view(p) == (Some(subject@), message@),
    {
        Problem { subject: Some(owned(subject)), message: owned(message) }
    }

    /// A problem with one path, rendered as its text.
    pub fn about_path(path: &str, message: &str) -> (p: Problem)
        ensures
            problem_view(p) == (Some(path@), message@),
    {
        Problem::about(path, message)
    }

    /// An identical copy.
    pub fn duplicate(&self) -> (p: Problem)
        ensures
            problem_view(p) == problem_view(*self),
    {
        Problem {
            subject: match &self.subject {
                Some(s) => Some(s.clone()),
                None => None,
            },
            message: self.message.clone(),
        }
    }
}

impl ErrorEnvelope {
    /// A usage failure: a malformed command line, or a name already taken.
    pub fn usage(error: &str, message: &str) -> (e: ErrorEnvelope)
        ensures
            e.error@ == error@,
            e.code == ExitCode::Usage,
            e.message@ == message@,
            e.problems@.len() == 0,
            e.remedy is None,
    {
        ErrorEnvelope {
            error: owned(error),
            code: ExitCode::Usage,
            message: owned(message),
            problems: Vec::new(),
            remedy: None,
        }
    }

    /// Attaches the individual things that were wrong.
    pub fn with_problems(self, problems: Vec<Problem>) -> (e: ErrorEnvelope)
        ensures
            e.error == self.error,
            e.code == self.code,
            e.message == self.message,
            e.problems == problems,
            e.remedy == self.remedy,
    {
        ErrorEnvelope { problems, ..self }
    }

    /// Attaches what to do about it.
    pub fn with_remedy(self, remedy: &str) -> (e: ErrorEnvelope)
        ensures
            e.error == self.error,
            e.code == self.code,
            e.message == self.message,
            e.problems == self.problems,
            e.remedy matches Some(r) && r@ == remedy@,
    {
        ErrorEnvelope { remedy: Some(owned(remedy)), ..self }
    }
}

fn problem_of_row(row: &PerMember<CreatedMember>, into: &mut Vec<Problem>)
    ensures
        problem_views(final(into)@) == problem_views(old(into)@) + (created_row_problems(seq![*row])),
{
    let ghost before = problem_views(into@);
    assert(seq![*row].drop_last() =~= Seq::<PerMember<CreatedMember>>::empty());
    assert(created_row_problems(Seq::<PerMember<CreatedMember>>::empty()) =~= Seq::empty());
    assert(seq![*row].last() == *row);
    match &row.outcome {
        Outcome::Failed(error) => {
            let mut message = owned("failed: ");
            push_str(&mut message, error.message().as_str());
            let p = Problem { subject: Some(row.member.to_text()), message };
            into.push(p);
            assert(problem_views(into@) =~= before.push(problem_view(p)));
        },
        Outcome::Skipped(reason) => {
            let mut message = owned("skipped: ");
            push_str(&mut message, reason.reason());
            let p = Problem { subject: Some(row.member.to_text()), message };
            into.push(p);
            assert(problem_views(into@) =~= before.push(problem_view(p)));
        },
        _ => {
            assert(problem_views(into@) =~= before);
        },
    }
    assert(problem_views(into@) =~= before + created_row_problems(seq![*row]));
}

fn problem_of_removal<T>(row: &PerMember<T>, into: &mut Vec<Problem>)
    ensures
        problem_views(final(into)@) == problem_views(old(into)@) + removal_problems(seq![*row]),
{
    let ghost before = problem_views(into@);
    assert(seq![*row].drop_last() =~= Seq::<PerMember<T>>::empty());
    assert(removal_problems(Seq::<PerMember<T>>::empty()) =~= Seq::empty());
    assert(seq![*row].last() == *row);
    match &row.outcome {
        Outcome::Failed(error) => {
            let mut message = owned("could not be removed: ");
            push_str(&mut message, error.message().as_str());
            let p = Problem { subject: Some(row.member.to_text()), message };
            into.push(p);
            assert(problem_views(into@) =~= before.push(problem_view(p)));
        },
        _ => {
            assert(problem_views(into@) =~= before);
        },
    }
    assert(problem_views(into@) =~= before + removal_problems(seq![*row]));
}

proof fn lemma_created_rows_append(rows: Seq<PerMember<CreatedMember>>, i: int)
    requires
        0 <= i < rows.len(),
    ensures
        created_row_problems(rows.subrange(0, i + 1)) == created_row_problems(rows.subrange(0, i))
            + created_row_problems(seq![rows[i]]),
{
    let upto = rows.subrange(0, i + 1);
    assert(upto.drop_last() =~= rows.subrange(0, i));
    assert(seq![rows[i]].drop_last() =~= Seq::<PerMember<CreatedMember>>::empty());
    assert(created_row_problems(Seq::<PerMember<CreatedMember>>::empty()) =~= Seq::empty());
    let r = created_row_problems(rows.subrange(0, i));
    match rows[i].outcome {
        Outcome::Failed(_) => assert(r + created_row_problems(seq![rows[i]]) =~= created_row_problems(upto)),
        Outcome::Skipped(_) => assert(r + created_row_problems(seq![rows[i]]) =~= created_row_problems(upto)),
        _ => assert(r + created_row_problems(seq![rows[i]]) =~= created_row_problems(upto)),
    }
}

proof fn lemma_removal_rows_append<T>(rows: Seq<PerMember<T>>, i: int)
    requires
        0 <= i < rows.len(),
    ensures
        removal_problems(rows.subrange(0, i + 1)) == removal_problems(rows.subrange(0, i)) + removal_problems(
            seq![rows[i]],
        ),
{
    let upto = rows.subrange(0, i + 1);
    assert(upto.drop_last() =~= rows.subrange(0, i));
    assert(seq![rows[i]].drop_last() =~= Seq::<PerMember<T>>::empty());
    assert(removal_problems(Seq::<PerMember<T>>::empty()) =~= Seq::empty());
    let r = removal_problems(rows.subrange(0, i));
    match rows[i].outcome {
        Outcome::Failed(_) => assert(r + removal_problems(seq![rows[i]]) =~= removal_problems(upto)),
        _ => assert(r + removal_problems(seq![rows[i]]) =~= removal_problems(upto)),
    }
}

impl EngineError {
    /// The individual things that were wrong.
    pub fn problems(&self) -> (ps: Vec<Problem>)
        ensures
            problem_views(ps@) == problems_of(*self),
    {
        let mut ps: Vec<Problem> = Vec::new();
        match self {
            EngineError::LockTimeout { object } => {
                ps.push(Problem::about_path(object.as_str(), "is locked by another process"));
            },
            EngineError::Io { path, message } => {
                ps.push(Problem::about_path(path.as_str(), message.as_str()));
            },
            EngineError::BranchOccupied { branch, worktree, stale, .. } => {
                if *stale {
                    ps.push(
                        Problem::about_path(
                            worktree.as_str(),
                            "is gone, but git still records it as holding the branch",
                        ),
                    );
                } else {
                    let mut message = owned("its working tree is on ");
                    push_str(&mut message, branch.as_str());
                    ps.push(Problem::about_path(worktree.as_str(), message.as_str()));
                }
            },
            EngineError::CreateAborted { members, rollback, .. } | EngineError::AddAborted { members, rollback, .. } => {
                let mut i: usize = 0;
                while i < members.len()
                    invariant
                        i <= members@.len(),
                        problem_views(ps@) == created_row_problems(members@.subrange(0, i as int)),
                    decreases members.len() - i,
                {
                    problem_of_row(&members[i], &mut ps);
                    proof {
                        lemma_created_rows_append(members@, i as int);
                    }
                    i = i + 1;
                }
                assert(members@.subrange(0, members@.len() as int) =~= members@);
                let ghost first = problem_views(ps@);
                let mut k: usize = 0;
                assert(removal_problems(rollback@.subrange(0, 0)) =~= Seq::empty());
                while k < rollback.len()
                    invariant
                        k <= rollback@.len(),
                        problem_views(ps@) == first + removal_problems(rollback@.subrange(0, k as int)),
                    decreases rollback.len() - k,
                {
                    problem_of_removal(&rollback[k], &mut ps);
                    proof {
                        lemma_removal_rows_append(rollback@, k as int);
                    }
                    k = k + 1;
                }
                assert(rollback@.subrange(0, rollback@.len() as int) =~= rollback@);
            },
            EngineError::ProjectAddAborted { problem, .. } => {
                ps.push(problem.duplicate());
            },
            EngineError::FetchFailed { problems, .. } => {
                let mut i: usize = 0;
                while i < problems.len()
                    invariant
                        i <= problems@.len(),
                        ps@.len() == i,
                        forall|j: int| 0 <= j < i ==> problem_view(#[trigger] ps@[j]) == problem_view(problems@[j]),
                    decreases problems.len() - i,
                {
                    ps.push(problems[i].duplicate());
                    i = i + 1;
                }
                assert(problem_views(ps@) =~= problem_views(problems@));
            },
            EngineError::Refused { refusals, .. } => {
                let mut i: usize = 0;
                while i < refusals.len()
                    invariant
                        i <= refusals@.len(),
                        ps@.len() == i,
                        forall|j: int|
                            0 <= j < i ==> problem_view(#[trigger] ps@[j]) == (
                                Some(member_text(refusals@[j].member)),
                                refusals@[j].detail@,
                            ),
                    decreases refusals.len() - i,
                {
                    let subject = refusals[i].member.to_text();
                    ps.push(Problem::about(subject.as_str(), refusals[i].detail.as_str()));
                    i = i + 1;
                }
                assert(problem_views(ps@) =~= refusal_problems(refusals@));
            },
            EngineError::RemovalFailed { members, .. } => {
                let mut i: usize = 0;
                assert(removal_problems(members@.subrange(0, 0)) =~= Seq::empty());
                while i < members.len()
                    invariant
                        i <= members@.len(),
                        problem_views(ps@) == removal_problems(members@.subrange(0, i as int)),
                    decreases members.len() - i,
                {
                    problem_of_removal(&members[i], &mut ps);
                    proof {
                        lemma_removal_rows_append(members@, i as int);
                    }
                    i = i + 1;
                }
                assert(members@.subrange(0, members@.len() as int) =~= members@);
            },
            _ => {},
        }
        assert(problem_views(ps@) =~= problems_of(*self));
        ps
    }

    /// Renders this failure as the envelope written to stderr.
    pub fn envelope(&self) -> (env: ErrorEnvelope)
        ensures
            is_envelope_of(env, *self),
    {
        ErrorEnvelope {
            error: owned(self.tag()),
            code: self.exit_code(),
            message: self.message(),
            problems: self.problems(),
            remedy: self.remedy(),
        }
    }
}

/// The text of a filesystem refusal, as std renders it. What it says rests on
/// the operating system, so nothing is promised of it.
#[verifier::external_body]
fn io_error_text(err: &std::io::Error) -> String {
    err.to_string()
}

#[verifier::external_type_specification]
#[verifier::external_body]
pub struct ExIoError(std::io::Error);

impl EngineError {
    /// The filesystem refusing, named by the path it refused.
    pub fn io(path: &str, err: std::io::Error) -> (e: EngineError)
        ensures
            e matches EngineError::Io { path: p, .. } && p@ == path@,
    {
        EngineError::Io { path: owned(path), message: io_error_text(&err) }
    }
}

} // verus!
