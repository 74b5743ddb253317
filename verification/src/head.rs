//! A worktree's live branch, read without starting git.
//!
//! A linked worktree's `.git` file points at `<source-repo>/worktrees/<name>/`,
//! and the `HEAD` in there is one line: a symbolic ref, or a raw object id.
//! Reading the files is the caller's; what they say is read here.

use vstd::prelude::*;
use crate::text::{chars_of, has_prefix, join_path, path_join, push_str, slice_of, starts_with, string_of, trim, trimmed, owned};

verus! {

/// How much of an object id a detached `HEAD` is reported by.
pub const ABBREVIATED_COMMIT: usize = 7;

/// What a worktree's `HEAD` names.
#[derive(Debug, Clone, PartialEq, Eq)]
pub enum Head {
    /// The ordinary case: a branch.
    Branch { branch: String },
    /// A detached `HEAD`, which is ordinary use and never drift.
    Detached { commit: String },
}

/// `ref:`.
pub open spec fn ref_marker() -> Seq<char> {
    seq!['r', 'e', 'f', ':']
}

/// `refs/heads/`.
pub open spec fn heads_prefix() -> Seq<char> {
    seq!['r', 'e', 'f', 's', '/', 'h', 'e', 'a', 'd', 's', '/']
}

/// `gitdir:`.
pub open spec fn gitdir_marker() -> Seq<char> {
    seq!['g', 'i', 't', 'd', 'i', 'r', ':']
}

/// What a `HEAD` file's text names: a branch (`true` and its name), a
/// detached commit (`false` and the id), or nothing readable. A symbolic ref
/// outside `refs/heads/` is not a branch, and nothing is guessed from it.
pub open spec fn head_reading(text: Seq<char>) -> Option<(bool, Seq<char>)> {
    let t = trim(text);
    if starts_with(t, ref_marker()) {
        let reference = trim(t.subrange(4, t.len() as int));
        if starts_with(reference, heads_prefix()) && reference.len() > 11 {
            Some((true, reference.subrange(11, reference.len() as int)))
        } else {
            None
        }
    } else if t.len() > 0 {
        Some((false, t))
    } else {
        None
    }
}

/// Whether `h` is what `reading` says.
pub open spec fn is_head(h: Head, reading: (bool, Seq<char>)) -> bool {
    match h {
        Head::Branch { branch } => reading.0 && branch@ == reading.1,
        Head::Detached { commit } => !reading.0 && commit@ == reading.1,
    }
}

/// How a branch column prints a `HEAD`.
pub open spec fn head_text(h: Head) -> Seq<char> {
    match h {
        Head::Branch { branch } => branch@,
        Head::Detached { commit } => "(detached at "@ + (if commit@.len() <= 7 {
            commit@
        } else {
            commit@.subrange(0, 7)
        }) + ")"@,
    }
}

/// Where a `.git` file's text points, for the worktree it sits in: the path
/// after `gitdir:`, resolved against the worktree where git wrote it
/// relative.
pub open spec fn gitdir_reading(worktree: Seq<char>, text: Seq<char>) -> Option<Seq<char>> {
    let t = trim(text);
    if starts_with(t, gitdir_marker()) {
        Some(path_join(worktree, trim(t.subrange(7, t.len() as int))))
    } else {
        None
    }
}

impl Head {
    /// Reads the contents of a `HEAD` file.
    pub fn parse(text: &str) -> (r: Option<Head>)
        ensures
            match head_reading(text@) {
                None => r is None,
                Some(reading) => r matches Some(h) && is_head(h, reading),
            },
    {
        let v = chars_of(text);
        let t = trimmed(v.as_slice());
        let marker: Vec<char> = vec!['r', 'e', 'f', ':'];
        assert(marker@ =~= ref_marker());
        if has_prefix(t.as_slice(), marker.as_slice()) {
            let rest = slice_of(t.as_slice(), 4, t.len());
            let reference = trimmed(rest.as_slice());
            let heads: Vec<char> = vec!['r', 'e', 'f', 's', '/', 'h', 'e', 'a', 'd', 's', '/'];
            assert(heads@ =~= heads_prefix());
            if has_prefix(reference.as_slice(), heads.as_slice()) && reference.len() > 11 {
                let branch = slice_of(reference.as_slice(), 11, reference.len());
                return Some(Head::Branch { branch: string_of(branch.as_slice()) });
            }
            return None;
        }
        if t.len() > 0 {
            Some(Head::Detached { commit: string_of(t.as_slice()) })
        } else {
            None
        }
    }

    /// The branch, where this `HEAD` is on one.
    pub fn branch(&self) -> (r: Option<&str>)
        ensures
            match *self {
                Head::Branch { branch } => r matches Some(b) && b@ == branch@,
                Head::Detached { .. } => r is None,
            },
    {
        match self {
            Head::Branch { branch } => Some(branch.as_str()),
            Head::Detached { .. } => None,
        }
    }

    /// Rendered identically wherever a branch column is printed: the branch,
    /// or `(detached at <seven characters of the id>)`.
    pub fn to_text(&self) -> (s: String)
        ensures
            s@ == head_text(*self),
    {
        match self {
            Head::Branch { branch } => branch.clone(),
            Head::Detached { commit } => {
                let v = chars_of(commit.as_str());
                let n = if v.len() <= ABBREVIATED_COMMIT {
                    v.len()
                } else {
                    ABBREVIATED_COMMIT
                };
                let short = slice_of(v.as_slice(), 0, n);
                let mut s = owned("(detached at ");
                crate::text::push_seq(&mut s, short.as_slice());
                push_str(&mut s, ")");
                proof {
                    if v@.len() <= 7 {
                        assert(v@.subrange(0, v@.len() as int) =~= v@);
                    }
                }
                s
            },
        }
    }
}

/// The directory a linked worktree's `.git` file points at, given the
/// worktree and the file's text.
pub fn gitdir_named_in(worktree: &str, text: &str) -> (r: Option<String>)
    ensures
        match gitdir_reading(worktree@, text@) {
            None => r is None,
            Some(p) => r matches Some(s) && s@ == p,
        },
{
    let v = chars_of(text);
    let t = trimmed(v.as_slice());
    let marker: Vec<char> = vec!['g', 'i', 't', 'd', 'i', 'r', ':'];
    assert(marker@ =~= gitdir_marker());
    if has_prefix(t.as_slice(), marker.as_slice()) {
        let rest = slice_of(t.as_slice(), 7, t.len());
        let named = trimmed(rest.as_slice());
        let named_text = string_of(named.as_slice());
        Some(join_path(worktree, named_text.as_str()))
    } else {
        None
    }
}

} // verus!
