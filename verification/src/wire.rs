//! The shapes a request names a plane by, and the rows a fan-out returns.

use vstd::prelude::*;
use crate::member::WorktreePath;
use crate::refusal::Reason;

verus! {

/// How a request names a plane.
#[derive(Debug, Clone, PartialEq, Eq)]
pub enum PlaneRef {
    /// By its id.
    Id { id: String },
    /// As the plane containing a path, usually the current directory.
    ContainingPath { path: String },
}

/// What `create` or `add` did for one member.
#[derive(Debug, Clone, PartialEq, Eq)]
pub struct CreatedMember {
    /// The branch the worktree is on.
    pub branch: String,
    /// Whether this run cut that branch rather than checking one out.
    pub created_branch: bool,
    /// Where the worktree landed, relative to the plane directory.
    pub path: WorktreePath,
    /// Whether the worktree was taken back by an unwind.
    pub unwound: bool,
}

/// What a teardown did for one member.
#[derive(Debug, Clone, PartialEq, Eq)]
pub struct RemovedMember {
    /// The branch the worktree was on, where git could say.
    pub branch: Option<String>,
    /// Where the worktree was, relative to the plane directory.
    pub path: WorktreePath,
    /// Whether the member's branch was deleted too.
    pub branch_deleted: bool,
    /// The reasons raised for it and waived.
    pub waived: Vec<Reason>,
}

/// What a member's branch is asked to be.
#[derive(Debug, Clone, Copy, PartialEq, Eq, Structural)]
pub enum BranchIntent {
    /// Use the branch if it exists, cut it if it does not.
    Either,
    /// `--new-branch`: it must not exist yet.
    RequireNew,
    /// `--existing-branch`: it must exist already.
    RequireExisting,
}

} // verus!
