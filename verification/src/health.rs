//! What a read found wrong, and how hard it looked.
//!
//! Health is recomputed on every read and never stored. [`HealthCheck`] keeps
//! that affordable: the default tier is filesystem-only, and the one finding
//! that needs a git process, git's own `prunable`, is opted into.
//!
//! A [`Finding`] is a typed value with a tag, a sentence and a remedy, built
//! here so every surface reports the same finding in the same sentence. Drift
//! is never the user's work: every finding is about something bitplane owns,
//! or about a file bitplane needs and could not read.

use vstd::prelude::*;
use crate::directories::opt;
use crate::error::{message_of, remedy_of, tag_of, EngineError};
use crate::member::{member_text, ref_view, same_ref, MemberRef, WorktreePath};
use crate::plane_id::PlaneId;
use crate::text::{owned, push_str};

verus! {

/// How hard a read looks.
#[derive(Debug, Clone, Copy, PartialEq, Eq, Structural)]
pub enum HealthCheck {
    /// Membership and nothing else.
    Nothing,
    /// Filesystem only: no git process is started.
    Cheap,
    /// The cheap findings, plus git's own `prunable`.
    Full,
}

impl Default for HealthCheck {
    /// The cheap tier, because `bp list` runs constantly.
    fn default() -> (h: HealthCheck)
        ensures
            h == HealthCheck::Cheap,
    {
        HealthCheck::Cheap
    }
}

/// What a read found about one plane.
#[derive(Debug, PartialEq, Eq)]
pub struct PlaneHealth {
    /// The tier this was computed at, so "nothing found" is told from
    /// "nothing looked for".
    pub checked: HealthCheck,
    /// The plane's own findings first, then one per member in plane file
    /// order.
    pub findings: Vec<Finding>,
}

/// One thing a read found wrong.
#[derive(Debug, PartialEq, Eq)]
pub enum Finding {
    /// The plane file names a member whose worktree directory is not there.
    MemberWorktreeMissing { member: MemberRef, path: WorktreePath },
    /// The incomplete latch is still set: this plane was claimed and never
    /// finished being built, so it never worked and is safe to discard.
    CreateNeverCompleted {
        plane: String,
        /// When the claim was made, where the filesystem can say.
        started: Option<String>,
        /// How long ago that was, worded at the moment of the scan.
        ago: Option<String>,
    },
    /// The repository a member is a worktree of is gone.
    SourceRepoMissing { member: MemberRef, source: String },
    /// `plane.toml`'s `id` disagrees with the directory name.
    IdMismatch { recorded: PlaneId, directory: String },
    /// git records the worktree at a path that is no longer there.
    Prunable { member: MemberRef, path: WorktreePath },
    /// A file bitplane needs did not parse. Nothing was repaired.
    Unreadable { error: EngineError },
}

/// A finding as data: each field by its view.
pub enum FindingView {
    WorktreeMissing { member: (bool, Seq<char>), path: Seq<char> },
    NeverCompleted { plane: Seq<char>, started: Option<Seq<char>>, ago: Option<Seq<char>> },
    SourceMissing { member: (bool, Seq<char>), source: Seq<char> },
    IdMismatch { recorded: Seq<char>, directory: Seq<char> },
    Prunable { member: (bool, Seq<char>), path: Seq<char> },
    Unreadable { tag: Seq<char>, message: Seq<char> },
}

/// What `f` says, field by field.
pub open spec fn finding_view(f: Finding) -> FindingView {
    match f {
        Finding::MemberWorktreeMissing { member, path } => FindingView::WorktreeMissing {
            member: ref_view(member),
            path: path@,
        },
        Finding::CreateNeverCompleted { plane, started, ago } => FindingView::NeverCompleted {
            plane: plane@,
            started: opt(started),
            ago: opt(ago),
        },
        Finding::SourceRepoMissing { member, source } => FindingView::SourceMissing {
            member: ref_view(member),
            source: source@,
        },
        Finding::IdMismatch { recorded, directory } => FindingView::IdMismatch {
            recorded: recorded@,
            directory: directory@,
        },
        Finding::Prunable { member, path } => FindingView::Prunable { member: ref_view(member), path: path@ },
        Finding::Unreadable { error } => FindingView::Unreadable { tag: tag_of(error), message: message_of(error) },
    }
}

/// The findings, each as data, in order.
pub open spec fn finding_views(fs: Seq<Finding>) -> Seq<FindingView> {
    Seq::new(fs.len(), |i: int| finding_view(fs[i]))
}

/// The stable machine tag of each finding.
pub open spec fn finding_tag(f: Finding) -> Seq<char> {
    match f {
        Finding::MemberWorktreeMissing { .. } => "member_worktree_missing"@,
        Finding::CreateNeverCompleted { .. } => "create_never_completed"@,
        Finding::SourceRepoMissing { .. } => "source_repo_missing"@,
        Finding::IdMismatch { .. } => "id_mismatch"@,
        Finding::Prunable { .. } => "prunable"@,
        Finding::Unreadable { .. } => "unreadable"@,
    }
}

/// The few words a row's note column prints.
pub open spec fn finding_label(f: Finding) -> Seq<char> {
    match f {
        Finding::MemberWorktreeMissing { .. } => "worktree missing"@,
        Finding::CreateNeverCompleted { .. } => "create never completed"@,
        Finding::SourceRepoMissing { .. } => "source repo missing"@,
        Finding::IdMismatch { .. } => "id mismatch"@,
        Finding::Prunable { .. } => "prunable"@,
        Finding::Unreadable { .. } => "unreadable"@,
    }
}

/// The member a finding is about, where it is about one.
pub open spec fn finding_member(f: Finding) -> Option<MemberRef> {
    match f {
        Finding::MemberWorktreeMissing { member, .. } => Some(member),
        Finding::SourceRepoMissing { member, .. } => Some(member),
        Finding::Prunable { member, .. } => Some(member),
        _ => None,
    }
}

/// One sentence saying what was found.
pub open spec fn finding_text(f: Finding) -> Seq<char> {
    match f {
        Finding::MemberWorktreeMissing { path, .. } => "the worktree at "@ + path@ + " is not there"@,
        Finding::CreateNeverCompleted { ago, .. } => match ago {
            Some(a) => "create never completed, started "@ + a@ + " ago"@,
            None => "create never completed"@,
        },
        Finding::SourceRepoMissing { source, .. } => "the repository at "@ + source@ + " is not there"@,
        Finding::IdMismatch { recorded, directory } => "plane.toml says "@ + recorded@ + "; this directory is "@
            + directory@,
        Finding::Prunable { path, .. } => "git records the worktree at "@ + path@
            + " at a path that is no longer there"@,
        Finding::Unreadable { error } => message_of(error),
    }
}

/// What to do about a finding. Every finding a scan makes names the command
/// that fixes it; an unreadable file says what its parse failure says.
pub open spec fn finding_remedy(f: Finding) -> Option<Seq<char>> {
    match f {
        Finding::MemberWorktreeMissing { member, .. } => Some(
            "bp rm "@ + member_text(member) + " drops it; bp add "@ + member_text(member)
                + ":<branch> puts it back"@,
        ),
        Finding::CreateNeverCompleted { plane, .. } => Some(
            "nothing in it is yours; bp destroy -p "@ + plane@ + " clears it"@,
        ),
        Finding::SourceRepoMissing { member, .. } => Some(
            "bp rm "@ + member_text(member) + " drops it; restoring the repository also fixes it"@,
        ),
        Finding::IdMismatch { .. } => Some(
            "the plane was moved outside bp, or a rename was interrupted; bp repair reconnects the worktrees and settles the id"@,
        ),
        Finding::Prunable { .. } => Some("bp repair rewrites git's record of where it is"@),
        Finding::Unreadable { error } => remedy_of(error),
    }
}

/// The findings about `m`, in order.
pub open spec fn findings_about(fs: Seq<Finding>, m: MemberRef) -> Seq<Finding>
    decreases fs.len(),
{
    if fs.len() == 0 {
        Seq::empty()
    } else {
        let r = findings_about(fs.drop_last(), m);
        match finding_member(fs.last()) {
            Some(x) => if same_ref(x, m) {
                r.push(fs.last())
            } else {
                r
            },
            None => r,
        }
    }
}

/// The findings about the plane as a whole, in order.
pub open spec fn findings_of_plane(fs: Seq<Finding>) -> Seq<Finding>
    decreases fs.len(),
{
    if fs.len() == 0 {
        Seq::empty()
    } else {
        let r = findings_of_plane(fs.drop_last());
        if finding_member(fs.last()) is None {
            r.push(fs.last())
        } else {
            r
        }
    }
}

impl PlaneHealth {
    /// A plane nothing was found wrong with.
    pub fn sound(checked: HealthCheck) -> (h: PlaneHealth)
        ensures
            h.checked == checked,
            h.findings@.len() == 0,
    {
        PlaneHealth { checked, findings: Vec::new() }
    }

    /// Whether this plane reported anything: what makes the command exit 3.
    pub fn has_findings(&self) -> (r: bool)
        ensures
            r == (self.findings@.len() > 0),
    {
        self.findings.len() > 0
    }

    /// The findings about one member, in order.
    pub fn about(&self, member: &MemberRef) -> (r: Vec<&Finding>)
        ensures
            r@.len() == findings_about(self.findings@, *member).len(),
            forall|i: int| 0 <= i < r@.len() ==> *r@[i] == findings_about(self.findings@, *member)[i],
    {
        let mut r: Vec<&Finding> = Vec::new();
        let mut i: usize = 0;
        assert(self.findings@.subrange(0, 0) =~= Seq::<Finding>::empty());
        while i < self.findings.len()
            invariant
                i <= self.findings@.len(),
                r@.len() == findings_about(self.findings@.subrange(0, i as int), *member).len(),
                forall|j: int|
                    0 <= j < r@.len() ==> *r@[j] == findings_about(self.findings@.subrange(0, i as int), *member)[j],
            decreases self.findings.len() - i,
        {
            let ghost upto = self.findings@.subrange(0, i as int + 1);
            assert(upto.drop_last() =~= self.findings@.subrange(0, i as int));
            assert(upto.last() == self.findings@[i as int]);
            let finding = &self.findings[i];
            match finding.member() {
                Some(m) => {
                    if m.is_same(member) {
                        r.push(finding);
                    }
                },
                None => {},
            }
            i = i + 1;
        }
        assert(self.findings@.subrange(0, self.findings@.len() as int) =~= self.findings@);
        r
    }

    /// The findings about the plane as a whole rather than about one member.
    pub fn about_the_plane(&self) -> (r: Vec<&Finding>)
        ensures
            r@.len() == findings_of_plane(self.findings@).len(),
            forall|i: int| 0 <= i < r@.len() ==> *r@[i] == findings_of_plane(self.findings@)[i],
    {
        let mut r: Vec<&Finding> = Vec::new();
        let mut i: usize = 0;
        assert(self.findings@.subrange(0, 0) =~= Seq::<Finding>::empty());
        while i < self.findings.len()
            invariant
                i <= self.findings@.len(),
                r@.len() == findings_of_plane(self.findings@.subrange(0, i as int)).len(),
                forall|j: int|
                    0 <= j < r@.len() ==> *r@[j] == findings_of_plane(self.findings@.subrange(0, i as int))[j],
            decreases self.findings.len() - i,
        {
            let ghost upto = self.findings@.subrange(0, i as int + 1);
            assert(upto.drop_last() =~= self.findings@.subrange(0, i as int));
            assert(upto.last() == self.findings@[i as int]);
            let finding = &self.findings[i];
            if finding.member().is_none() {
                r.push(finding);
            }
            i = i + 1;
        }
        assert(self.findings@.subrange(0, self.findings@.len() as int) =~= self.findings@);
        r
    }
}

impl Finding {
    /// The stable machine tag.
    pub fn tag(&self) -> (s: &'static str)
        ensures
            s@ == finding_tag(*self),
    {
        match self {
            Finding::MemberWorktreeMissing { .. } => "member_worktree_missing",
            Finding::CreateNeverCompleted { .. } => "create_never_completed",
            Finding::SourceRepoMissing { .. } => "source_repo_missing",
            Finding::IdMismatch { .. } => "id_mismatch",
            Finding::Prunable { .. } => "prunable",
            Finding::Unreadable { .. } => "unreadable",
        }
    }

    /// The member this is about, where it is about one. `None` means the
    /// plane itself.
    pub fn member(&self) -> (r: Option<&MemberRef>)
        ensures
            match finding_member(*self) {
                Some(m) => r matches Some(x) && *x == m,
                None => r is None,
            },
    {
        match self {
            Finding::MemberWorktreeMissing { member, .. } => Some(member),
            Finding::SourceRepoMissing { member, .. } => Some(member),
            Finding::Prunable { member, .. } => Some(member),
            Finding::CreateNeverCompleted { .. } | Finding::IdMismatch { .. } | Finding::Unreadable { .. } => None,
        }
    }

    /// The few words a fan-out row prints in its note column.
    pub fn label(&self) -> (s: &'static str)
        ensures
            s@ == finding_label(*self),
    {
        match self {
            Finding::MemberWorktreeMissing { .. } => "worktree missing",
            Finding::CreateNeverCompleted { .. } => "create never completed",
            Finding::SourceRepoMissing { .. } => "source repo missing",
            Finding::IdMismatch { .. } => "id mismatch",
            Finding::Prunable { .. } => "prunable",
            Finding::Unreadable { .. } => "unreadable",
        }
    }

    /// What to do about it. A read reports and never repairs.
    pub fn remedy(&self) -> (r: Option<String>)
        ensures
            match finding_remedy(*self) {
                Some(t) => r matches Some(s) && s@ == t,
                None => r is None,
            },
            !(*self is Unreadable) ==> r is Some,
    {
        match self {
            Finding::MemberWorktreeMissing { member, .. } => {
                let who = member.to_text();
                let mut s = owned("bp rm ");
                push_str(&mut s, who.as_str());
                push_str(&mut s, " drops it; bp add ");
                push_str(&mut s, who.as_str());
                push_str(&mut s, ":<branch> puts it back");
                Some(s)
            },
            Finding::CreateNeverCompleted { plane, .. } => {
                let mut s = owned("nothing in it is yours; bp destroy -p ");
                push_str(&mut s, plane.as_str());
                push_str(&mut s, " clears it");
                Some(s)
            },
            Finding::SourceRepoMissing { member, .. } => {
                let who = member.to_text();
                let mut s = owned("bp rm ");
                push_str(&mut s, who.as_str());
                push_str(&mut s, " drops it; restoring the repository also fixes it");
                Some(s)
            },
            Finding::IdMismatch { .. } => Some(
                owned(
                    "the plane was moved outside bp, or a rename was interrupted; bp repair reconnects the worktrees and settles the id",
                ),
            ),
            Finding::Prunable { .. } => Some(owned("bp repair rewrites git's record of where it is")),
            Finding::Unreadable { error } => error.remedy(),
        }
    }

    /// One sentence saying what was found; the subject is rendered beside
    /// it rather than inside it.
    pub fn to_text(&self) -> (s: String)
        ensures
            s@ == finding_text(*self),
    {
        match self {
            Finding::MemberWorktreeMissing { path, .. } => {
                let mut s = owned("the worktree at ");
                push_str(&mut s, path.as_path());
                push_str(&mut s, " is not there");
                s
            },
            Finding::CreateNeverCompleted { ago, .. } => match ago {
                Some(a) => {
                    let mut s = owned("create never completed, started ");
                    push_str(&mut s, a.as_str());
                    push_str(&mut s, " ago");
                    s
                },
                None => owned("create never completed"),
            },
            Finding::SourceRepoMissing { source, .. } => {
                let mut s = owned("the repository at ");
                push_str(&mut s, source.as_str());
                push_str(&mut s, " is not there");
                s
            },
            Finding::IdMismatch { recorded, directory } => {
                let mut s = owned("plane.toml says ");
                push_str(&mut s, recorded.as_str());
                push_str(&mut s, "; this directory is ");
                push_str(&mut s, directory.as_str());
                s
            },
            Finding::Prunable { path, .. } => {
                let mut s = owned("git records the worktree at ");
                push_str(&mut s, path.as_path());
                push_str(&mut s, " at a path that is no longer there");
                s
            },
            Finding::Unreadable { error } => error.message(),
        }
    }
}

} // verus!
