//! Reading the members a `create` or an `add` was asked for, before anything
//! is created.
//!
//! `@name` is a registered project, anything else is a path to an ad-hoc
//! member, and the branch is everything after the last colon. The pass is in
//! two halves: what the members are (filesystem and registry), then whether
//! each branch can be honoured (refs, asked after the fetch). Everything
//! either half refuses is collected before the claim, so the common mistake
//! fails with nothing created at all.
//!
//! Asking git and the filesystem is the caller's; the decisions are here.

use vstd::prelude::*;
use vstd::string::*;
use crate::error::{BranchWanted, EngineError};
use crate::member::{member_text, ref_view, same_ref, MemberRef, WorktreePath};
use crate::outcome::SkipReason;
use crate::plane_file::{member_view, Member, PlaneFile};
use crate::plane_id::PlaneId;
use crate::text::{chars_of, copy_string, join_path, owned, path_join, slice_of, starts_with, string_of};
use crate::project_dir::{source_repo_at, source_repo_of, ProjectDirectory};
use crate::project_file::ProjectFile;
use crate::source::{source_worktree, ProjectSource};
use crate::member::worktree_derived;
use crate::wire::BranchIntent;

verus! {

/// What a branch this run has to create is cut from: the difference between
/// joining a colleague's work and starting your own.
#[derive(Debug, Clone, PartialEq, Eq)]
pub enum Base {
    /// The forge has this branch and this repo does not yet: cut from the
    /// remote-tracking ref, and track it. Joining.
    Forge(String),
    /// Nothing anywhere has this branch: cut from the base branch. Starting.
    Fresh(String),
}

/// Where a member's worktree comes from, as far as the filesystem can say.
#[derive(Debug, Clone, PartialEq, Eq)]
pub struct MemberSource {
    /// Where the repo is, or would be.
    pub at: String,
    /// Whether it is actually there.
    pub present: bool,
    /// Whether bitplane built it, and so owns its refs.
    pub owned: bool,
}

/// One member, resolved and checked, before anything is created.
#[derive(Debug, Clone, PartialEq, Eq)]
pub struct PlannedMember {
    pub reference: MemberRef,
    /// The repo the worktree comes from.
    pub source: String,
    pub branch: String,
    /// Where the worktree goes, relative to the plane directory.
    pub path: WorktreePath,
    /// What a branch that has to be cut is cut from; `None` where the branch
    /// is already in this repo.
    pub base: Option<Base>,
    /// What repository the source belongs to.
    pub repository: String,
    /// Whether bitplane built this source repo and so owns its refs.
    pub owned: bool,
}

/// The worktree git says holds a branch.
#[derive(Debug, Clone, PartialEq, Eq)]
pub struct Holder {
    /// Where it is.
    pub path: String,
    /// Whether git itself calls it prunable: gone, but still recorded.
    pub prunable: bool,
}

/// What the branch half has to ask next about one member.
#[derive(Debug, Clone, PartialEq, Eq)]
pub enum BranchNext {
    /// The branch is in this repo: ask which worktree holds it.
    AskHolder,
    /// The forge has it: cut from the forge's branch.
    Cut(Base),
    /// Nothing has it: ask for the base branch to cut from.
    AskBase,
}

impl Base {
    /// The ref `git worktree add -b` is given.
    pub fn as_ref_name(&self) -> (s: &str)
        ensures
            match *self {
                Base::Forge(r) => s@ == r@,
                Base::Fresh(r) => s@ == r@,
            },
    {
        match self {
            Base::Forge(reference) => reference.as_str(),
            Base::Fresh(reference) => reference.as_str(),
        }
    }

    /// Whether cutting from here starts a branch of the user's own.
    pub fn is_fresh(&self) -> (r: bool)
        ensures
            r == (*self is Fresh),
    {
        match self {
            Base::Fresh(_) => true,
            Base::Forge(_) => false,
        }
    }
}

impl MemberSource {
    /// The repo, where there is one to act on.
    pub fn found(&self) -> (r: Option<&str>)
        ensures
            self.present ==> (r matches Some(s) && s@ == self.at@),
            !self.present ==> r is None,
    {
        if self.present {
            Some(self.at.as_str())
        } else {
            None
        }
    }
}

/// Where the last colon of `s` is.
pub open spec fn last_colon(s: Seq<char>) -> Option<int>
    decreases s.len(),
{
    if s.len() == 0 {
        None
    } else if s.last() == ':' {
        Some(s.len() - 1)
    } else {
        last_colon(s.drop_last())
    }
}

/// A member spec split into its subject and its branch: everything after
/// the last colon, where there is something on both sides of it.
pub open spec fn branch_split(spec: Seq<char>) -> (Seq<char>, Option<Seq<char>>) {
    match last_colon(spec) {
        Some(i) => if i > 0 && i + 1 < spec.len() {
            (spec.subrange(0, i), Some(spec.subrange(i + 1, spec.len() as int)))
        } else {
            (spec, None)
        },
        None => (spec, None),
    }
}

/// A leading `~` component replaced by the home directory, where there is
/// one.
pub open spec fn home_expanded(path: Seq<char>, home: Option<Seq<char>>) -> Seq<char> {
    match home {
        Some(h) => if path == seq!['~'] {
            path_join(h, Seq::empty())
        } else if starts_with(path, seq!['~', '/']) {
            path_join(h, path.subrange(2, path.len() as int))
        } else {
            path
        },
        None => path,
    }
}

/// The owned projects among the members, by name, in order.
pub open spec fn fetchable_names(planned: Seq<PlannedMember>) -> Seq<Seq<char>>
    decreases planned.len(),
{
    if planned.len() == 0 {
        Seq::empty()
    } else {
        let r = fetchable_names(planned.drop_last());
        let last = planned.last();
        match last.reference {
            MemberRef::Project(n) => if last.owned {
                r.push(n@)
            } else {
                r
            },
            MemberRef::Repo(_) => r,
        }
    }
}

/// What two members of one batch can share.
pub enum Clash {
    Member,
    Repository,
    Path,
}

/// The refusal one more member meets against those already admitted: the
/// same member twice, two members of one repository, or two worktrees at
/// one path, in that order of precedence.
pub open spec fn admission(planned: Seq<PlannedMember>, member: PlannedMember) -> Option<(int, Clash)> {
    if exists|i: int| 0 <= i < planned.len() && same_ref(#[trigger] planned[i].reference, member.reference) {
        Some((choose|i: int| 0 <= i < planned.len() && same_ref(#[trigger] planned[i].reference, member.reference)
            && forall|j: int| 0 <= j < i ==> !same_ref(#[trigger] planned[j].reference, member.reference), Clash::Member))
    } else if exists|i: int| 0 <= i < planned.len() && #[trigger] planned[i].repository@ == member.repository@ {
        Some((choose|i: int| 0 <= i < planned.len() && #[trigger] planned[i].repository@ == member.repository@
            && forall|j: int| 0 <= j < i ==> #[trigger] planned[j].repository@ != member.repository@, Clash::Repository))
    } else if exists|i: int| 0 <= i < planned.len() && #[trigger] planned[i].path@ == member.path@ {
        Some((choose|i: int| 0 <= i < planned.len() && #[trigger] planned[i].path@ == member.path@
            && forall|j: int| 0 <= j < i ==> #[trigger] planned[j].path@ != member.path@, Clash::Path))
    } else {
        None
    }
}

/// What the branch half decides once it knows whether the branch is in this
/// repo and what the forge has.
pub open spec fn branch_decision(member: PlannedMember, intent: BranchIntent, here: bool, on_the_forge: Option<Seq<char>>) -> Option<BranchWanted> {
    let exists = here || on_the_forge is Some;
    if intent == BranchIntent::RequireNew && exists {
        Some(BranchWanted::New)
    } else if intent == BranchIntent::RequireExisting && !exists {
        Some(BranchWanted::Existing)
    } else {
        None
    }
}

/// Splits a member spec into what it names and its branch: everything after
/// the last colon, where there is something on both sides of it. Git forbids
/// a colon in a ref name, so what follows one is unambiguously a branch.
pub fn split_branch_suffix(spec: &str) -> (r: (String, Option<String>))
    ensures
        r.0@ == branch_split(spec@).0,
        match branch_split(spec@).1 {
            Some(b) => r.1 matches Some(x) && x@ == b,
            None => r.1 is None,
        },
{
    let v = chars_of(spec);
    let mut i: usize = v.len();
    assert(v@.subrange(0, v@.len() as int) =~= v@);
    while i > 0 && v[i - 1] != ':'
        invariant
            i <= v@.len(),
            v@ == spec@,
            last_colon(spec@) == last_colon(v@.subrange(0, i as int)),
        decreases i,
    {
        assert(v@.subrange(0, i as int).drop_last() =~= v@.subrange(0, i as int - 1));
        i = i - 1;
    }
    if i == 0 {
        return (owned(spec), None);
    }
    let colon = i - 1;
    assert(last_colon(spec@) == Some(colon as int));
    if colon > 0 && colon + 1 < v.len() {
        let subject = slice_of(v.as_slice(), 0, colon);
        let branch = slice_of(v.as_slice(), colon + 1, v.len());
        (string_of(subject.as_slice()), Some(string_of(branch.as_slice())))
    } else {
        (owned(spec), None)
    }
}

/// A leading `~` replaced by the home directory the engine was built with;
/// where there is none, `~` is a directory called `~`.
pub fn expand_home(path: &str, home: Option<&str>) -> (r: String)
    ensures
        r@ == home_expanded(
            path@,
            match home {
                Some(h) => Some(h@),
                None => None,
            },
        ),
{
    let h = match home {
        Some(h) => h,
        None => {
            return owned(path);
        },
    };
    let v = chars_of(path);
    if v.len() == 1 && v[0] == '~' {
        assert(v@ =~= seq!['~']);
        proof {
            reveal_strlit("");
        }
        assert(""@ =~= Seq::<char>::empty());
        return join_path(h, "");
    }
    proof {
        if v@ == seq!['~'] {
            assert(v@[0] == '~');
        }
    }
    if v.len() >= 2 && v[0] == '~' && v[1] == '/' {
        assert(v@.subrange(0, 2) =~= seq!['~', '/']);
        let rest = slice_of(v.as_slice(), 2, v.len());
        let rest_text = string_of(rest.as_slice());
        return join_path(h, rest_text.as_str());
    }
    proof {
        if starts_with(v@, seq!['~', '/']) {
            assert(v@.subrange(0, 2)[0] == '~');
            assert(v@.subrange(0, 2)[1] == '/');
        }
    }
    owned(path)
}

/// The projects among `planned` there is something to fetch for: owned
/// ones only, since neither an adopted project nor an ad-hoc member has a
/// forge of bitplane's to be brought up to date with.
pub fn fetchable(planned: &[PlannedMember]) -> (r: Vec<String>)
    ensures
        r@.len() == fetchable_names(planned@).len(),
        forall|i: int| 0 <= i < r@.len() ==> #[trigger] r@[i]@ == fetchable_names(planned@)[i],
{
    let mut r: Vec<String> = Vec::new();
    let mut i: usize = 0;
    assert(planned@.subrange(0, 0) =~= Seq::<PlannedMember>::empty());
    while i < planned.len()
        invariant
            i <= planned@.len(),
            r@.len() == fetchable_names(planned@.subrange(0, i as int)).len(),
            forall|k: int| 0 <= k < r@.len() ==> #[trigger] r@[k]@ == fetchable_names(planned@.subrange(0, i as int))[k],
        decreases planned.len() - i,
    {
        let ghost upto = planned@.subrange(0, i as int + 1);
        assert(upto.drop_last() =~= planned@.subrange(0, i as int));
        assert(upto.last() == planned@[i as int]);
        let member = &planned[i];
        if member.owned {
            if let MemberRef::Project(name) = &member.reference {
                r.push(name.to_text());
            }
        }
        i = i + 1;
    }
    assert(planned@.subrange(0, planned@.len() as int) =~= planned@);
    r
}

/// Refuses a member that names again what an earlier one named: the same
/// member, the same repository, or the same worktree path.
pub fn refuse_repeats(planned: &Vec<PlannedMember>, member: &PlannedMember) -> (r: Result<(), EngineError>)
    ensures
        match admission(planned@, *member) {
            None => r is Ok,
            Some((i, Clash::Member)) => r matches Err(EngineError::DuplicateMember { member: m, plane: None })
                && m@ == member_text(planned@[i].reference),
            Some((i, Clash::Repository)) => r matches Err(EngineError::SameRepository { first, second }) && first@ == member_text(
                planned@[i].reference,
            ) && second@ == member_text(member.reference),
            Some((i, Clash::Path)) => r matches Err(EngineError::MemberPathCollision { first, second, path })
                && first@ == member_text(planned@[i].reference) && second@ == member_text(member.reference)
                && path@ == member.path@,
        },
{
    let mut i: usize = 0;
    while i < planned.len()
        invariant
            i <= planned@.len(),
            forall|j: int| 0 <= j < i ==> !same_ref(#[trigger] planned@[j].reference, member.reference),
        decreases planned.len() - i,
    {
        if planned[i].reference.is_same(&member.reference) {
            let ghost k = choose|k: int|
                0 <= k < planned@.len() && same_ref(#[trigger] planned@[k].reference, member.reference) && forall|
                    j: int,
                | 0 <= j < k ==> !same_ref(#[trigger] planned@[j].reference, member.reference);
            assert(k == i) by {
                if k < i {
                } else if k > i {
                    assert(!same_ref(planned@[i as int].reference, member.reference));
                }
            }
            return Err(EngineError::DuplicateMember { member: planned[i].reference.to_text(), plane: None });
        }
        i = i + 1;
    }
    let mut i: usize = 0;
    while i < planned.len()
        invariant
            i <= planned@.len(),
            forall|j: int| 0 <= j < planned@.len() ==> !same_ref(#[trigger] planned@[j].reference, member.reference),
            forall|j: int| 0 <= j < i ==> #[trigger] planned@[j].repository@ != member.repository@,
        decreases planned.len() - i,
    {
        let a = chars_of(planned[i].repository.as_str());
        let b = chars_of(member.repository.as_str());
        if crate::text::same_chars(a.as_slice(), b.as_slice()) {
            let ghost k = choose|k: int|
                0 <= k < planned@.len() && #[trigger] planned@[k].repository@ == member.repository@ && forall|j: int|
                    0 <= j < k ==> #[trigger] planned@[j].repository@ != member.repository@;
            assert(k == i) by {
                if k > i {
                    assert(planned@[i as int].repository@ != member.repository@);
                }
            }
            return Err(
                EngineError::SameRepository {
                    first: planned[i].reference.to_text(),
                    second: member.reference.to_text(),
                },
            );
        }
        i = i + 1;
    }
    let mut i: usize = 0;
    while i < planned.len()
        invariant
            i <= planned@.len(),
            forall|j: int| 0 <= j < planned@.len() ==> !same_ref(#[trigger] planned@[j].reference, member.reference),
            forall|j: int| 0 <= j < planned@.len() ==> #[trigger] planned@[j].repository@ != member.repository@,
            forall|j: int| 0 <= j < i ==> #[trigger] planned@[j].path@ != member.path@,
        decreases planned.len() - i,
    {
        let a = chars_of(planned[i].path.as_path());
        let b = chars_of(member.path.as_path());
        if crate::text::same_chars(a.as_slice(), b.as_slice()) {
            let ghost k = choose|k: int|
                0 <= k < planned@.len() && #[trigger] planned@[k].path@ == member.path@ && forall|j: int|
                    0 <= j < k ==> #[trigger] planned@[j].path@ != member.path@;
            assert(k == i) by {
                if k > i {
                    assert(planned@[i as int].path@ != member.path@);
                }
            }
            return Err(
                EngineError::MemberPathCollision {
                    first: planned[i].reference.to_text(),
                    second: member.reference.to_text(),
                    path: member.path.to_text(),
                },
            );
        }
        i = i + 1;
    }
    Ok(())
}

/// Holds the branch to the intent, once it is known whether this repo has
/// it and what the forge has; then says what to ask next. Exists means
/// resolves, from either namespace.
pub fn preflight(member: &PlannedMember, intent: BranchIntent, here: bool, on_the_forge: Option<String>) -> (r: Result<BranchNext, EngineError>)
    ensures
        match branch_decision(
            *member,
            intent,
            here,
            match on_the_forge {
                Some(f) => Some(f@),
                None => None,
            },
        ) {
            Some(wanted) => r matches Err(EngineError::BranchIntentUnmet { member: m, branch, wanted: w })
                && m@ == member_text(member.reference) && branch@ == member.branch@ && w == wanted,
            None => if here {
                r == Ok::<BranchNext, EngineError>(BranchNext::AskHolder)
            } else {
                match on_the_forge {
                    Some(f) => r matches Ok(BranchNext::Cut(Base::Forge(g))) && g@ == f@,
                    None => r == Ok::<BranchNext, EngineError>(BranchNext::AskBase),
                }
            },
        },
{
    let exists = here || on_the_forge.is_some();
    if intent == BranchIntent::RequireNew && exists {
        return Err(
            EngineError::BranchIntentUnmet {
                member: member.reference.to_text(),
                branch: member.branch.clone(),
                wanted: BranchWanted::New,
            },
        );
    }
    if intent == BranchIntent::RequireExisting && !exists {
        return Err(
            EngineError::BranchIntentUnmet {
                member: member.reference.to_text(),
                branch: member.branch.clone(),
                wanted: BranchWanted::Existing,
            },
        );
    }
    if here {
        return Ok(BranchNext::AskHolder);
    }
    match on_the_forge {
        Some(reference) => Ok(BranchNext::Cut(Base::Forge(reference))),
        None => Ok(BranchNext::AskBase),
    }
}

/// A branch in this repo that some worktree already holds is refused in
/// bitplane's own words, rather than passing git's refusal through.
pub fn holder_verdict(member: &PlannedMember, holder: Option<Holder>) -> (r: Result<(), EngineError>)
    ensures
        match holder {
            None => r is Ok,
            Some(h) => r matches Err(EngineError::BranchOccupied { branch, repo, worktree, stale })
                && branch@ == member.branch@ && repo@ == member.source@ && worktree@ == h.path@ && stale
                == h.prunable,
        },
{
    match holder {
        None => Ok(()),
        Some(h) => Err(
            EngineError::BranchOccupied {
                branch: member.branch.clone(),
                repo: member.source.clone(),
                worktree: h.path,
                stale: h.prunable,
            },
        ),
    }
}

/// What a branch nothing has is cut from: the base branch, where there is
/// one to cut from.
pub fn fresh_base(member: &PlannedMember, base: Option<String>) -> (r: Result<Base, EngineError>)
    ensures
        match base {
            Some(b) => r matches Ok(Base::Fresh(x)) && x@ == b@,
            None => r matches Err(EngineError::BaseBranchUnresolved { member: m, branch })
                && m@ == member_text(member.reference) && branch@ == member.branch@,
        },
{
    match base {
        Some(b) => Ok(Base::Fresh(b)),
        None => Err(
            EngineError::BaseBranchUnresolved { member: member.reference.to_text(), branch: member.branch.clone() },
        ),
    }
}

/// Why the build does not start one more member: the run was interrupted,
/// or an earlier member failed. `None` means build it.
pub fn build_step(interrupted: bool, stopped: bool) -> (r: Option<SkipReason>)
    ensures
        interrupted ==> r == Some(SkipReason::Interrupted),
        !interrupted && stopped ==> r == Some(SkipReason::AbortedAfterEarlierFailure),
        !interrupted && !stopped ==> r is None,
{
    if interrupted {
        Some(SkipReason::Interrupted)
    } else if stopped {
        Some(SkipReason::AbortedAfterEarlierFailure)
    } else {
        None
    }
}

/// The membership a new plane records: one member per planned member, in
/// the order they were named.
pub fn membership(id: PlaneId, planned: &[PlannedMember]) -> (f: PlaneFile)
    ensures
        f.version == 1,
        f.id@ == id@,
        f.members@.len() == planned@.len(),
        forall|i: int|
            0 <= i < planned@.len() ==> #[trigger] f.members@[i].path@ == planned@[i].path@ && ref_view(
                f.members@[i].source,
            ) == ref_view(planned@[i].reference),
{
    let mut members: Vec<Member> = Vec::new();
    let mut i: usize = 0;
    while i < planned.len()
        invariant
            i <= planned@.len(),
            members@.len() == i,
            forall|k: int|
                0 <= k < i ==> #[trigger] members@[k].path@ == planned@[k].path@ && ref_view(members@[k].source)
                    == ref_view(planned@[k].reference),
        decreases planned.len() - i,
    {
        members.push(Member { path: planned[i].path.duplicate(), source: planned[i].reference.duplicate() });
        i = i + 1;
    }
    PlaneFile::new(id, members)
}

/// Where `last_colon` points, there is a colon, and none after it.
proof fn lemma_last_colon(s: Seq<char>)
    ensures
        last_colon(s) matches Some(i) ==> 0 <= i < s.len() && s[i] == ':' && forall|k: int|
            i < k < s.len() ==> #[trigger] s[k] != ':',
        last_colon(s) is None ==> forall|k: int| 0 <= k < s.len() ==> #[trigger] s[k] != ':',
    decreases s.len(),
{
    if s.len() > 0 && s.last() != ':' {
        let t = s.drop_last();
        lemma_last_colon(t);
        match last_colon(t) {
            Some(i) => {
                assert forall|k: int| i < k < s.len() implies #[trigger] s[k] != ':' by {
                    if k < s.len() - 1 {
                        assert(s[k] == t[k]);
                    }
                }
            },
            None => {
                assert forall|k: int| 0 <= k < s.len() implies #[trigger] s[k] != ':' by {
                    if k < s.len() - 1 {
                        assert(s[k] == t[k]);
                    }
                }
            },
        }
    }
}

/// A branch suffix is everything after the last colon: the subject, a
/// colon and the branch spell the spec again, and the branch holds no
/// colon, which git forbids in a ref name anyway. Where there is no branch,
/// the subject is the spec as written.
pub proof fn a_branch_suffix_is_everything_after_the_last_colon(spec: Seq<char>)
    ensures
        match branch_split(spec) {
            (subject, Some(branch)) => subject + seq![':'] + branch == spec && subject.len() > 0 && branch.len()
                > 0 && forall|k: int| 0 <= k < branch.len() ==> #[trigger] branch[k] != ':',
            (subject, None) => subject == spec,
        },
{
    lemma_last_colon(spec);
    match last_colon(spec) {
        Some(i) => {
            if i > 0 && i + 1 < spec.len() {
                let subject = spec.subrange(0, i);
                let branch = spec.subrange(i + 1, spec.len() as int);
                assert(subject + seq![':'] + branch =~= spec);
                assert forall|k: int| 0 <= k < branch.len() implies #[trigger] branch[k] != ':' by {
                    assert(branch[k] == spec[i + 1 + k]);
                }
            }
        },
        None => {},
    }
}

/// The branch a member is built on: its own suffix, else the one every
/// member without a suffix takes, else refused naming the member.
pub fn branch_for(reference: &MemberRef, suffix: Option<String>, fallback: Option<&str>) -> (r: Result<
    String,
    EngineError,
>)
    ensures
        match suffix {
            Some(b) => r matches Ok(x) && x@ == b@,
            None => match fallback {
                Some(f) => r matches Ok(x) && x@ == f@,
                None => r matches Err(EngineError::BranchUnspecified { member }) && member@ == member_text(
                    *reference,
                ),
            },
        },
{
    match suffix {
        Some(b) => Ok(b),
        None => match fallback {
            Some(f) => Ok(owned(f)),
            None => Err(EngineError::BranchUnspecified { member: reference.to_text() }),
        },
    }
}

/// A path whose last segment holds a colon cannot carry a branch suffix:
/// where the whole spec is itself a directory and a suffix was split off,
/// the split cannot tell the two apart, so it is refused rather than
/// guessed at.
pub fn refuse_ambiguous(spec: &str, has_suffix: bool, spec_is_a_directory: bool) -> (r: Result<(), EngineError>)
    ensures
        has_suffix && spec_is_a_directory ==> (r matches Err(EngineError::MemberPathAmbiguous { spec: s })
            && s@ == spec@),
        !(has_suffix && spec_is_a_directory) ==> r is Ok,
{
    if has_suffix && spec_is_a_directory {
        Err(EngineError::MemberPathAmbiguous { spec: owned(spec) })
    } else {
        Ok(())
    }
}


/// What was found for one member as the user wrote it: a registered project
/// and its project file, or the canonical path of a directory.
pub enum MemberFound {
    Project { project: ProjectDirectory, file: ProjectFile },
    Path { source: String },
}

/// The reference a found member is planned under: the project by its name,
/// or the directory by its canonical path.
pub open spec fn found_reference(found: MemberFound) -> (bool, Seq<char>) {
    match found {
        MemberFound::Project { project, .. } => (true, project@.0),
        MemberFound::Path { source } => (false, source@),
    }
}

/// The repo its worktree comes from: a project's source repo, or the
/// directory itself.
pub open spec fn found_source(found: MemberFound) -> Seq<char> {
    match found {
        MemberFound::Project { project, file } => source_repo_at(project@.1, file.source),
        MemberFound::Path { source } => source@,
    }
}

/// Whether bitplane owns its source repo: only a project it built does.
pub open spec fn found_owned(found: MemberFound) -> bool {
    match found {
        MemberFound::Project { file, .. } => file.source is Owned,
        MemberFound::Path { .. } => false,
    }
}

/// Where its worktree goes: derived from a project's source, or from the
/// directory's path.
pub open spec fn found_path(found: MemberFound, r: Result<WorktreePath, EngineError>) -> bool {
    match found {
        MemberFound::Project { file, .. } => source_worktree(file.source, r),
        MemberFound::Path { source } => worktree_derived(source@, r),
    }
}

/// What a member is planned as, given what was found for it, the branch
/// suffix it was written with, the branch given for all, and what git
/// said its repository is: the worktree path first, then the branch, then
/// the repository, the first that fails deciding the failure.
pub open spec fn planned_as(
    found: MemberFound,
    suffix: Option<String>,
    fallback: Option<&str>,
    repository: Result<String, EngineError>,
    r: Result<PlannedMember, EngineError>,
) -> bool {
    let branched = suffix is Some || fallback is Some;
    &&& r matches Ok(m) ==> {
        &&& found_path(found, Ok(m.path))
        &&& ref_view(m.reference) == found_reference(found)
        &&& m.source@ == found_source(found)
        &&& m.owned == found_owned(found)
        &&& m.base is None
        &&& (match suffix {
            Some(b) => m.branch@ == b@,
            None => fallback matches Some(f) && m.branch@ == f@,
        })
        &&& repository == Ok::<String, EngineError>(m.repository)
    }
    &&& r matches Err(e) ==> {
        ||| found_path(found, Err(e))
        ||| (exists|w: WorktreePath| found_path(found, Ok(w))) && !branched && (e matches EngineError::BranchUnspecified {
            member,
        } && member@ == (if found_reference(found).0 {
            seq!['@'] + found_reference(found).1
        } else {
            found_reference(found).1
        }))
        ||| (exists|w: WorktreePath| found_path(found, Ok(w))) && branched && repository == Err::<String, EngineError>(e)
    }
    &&& ((exists|w: WorktreePath| found_path(found, Ok(w))) && branched && repository is Ok) ==> r is Ok
}

/// One member, planned from what was found for it. Nothing is cut or
/// looked up here: the base is settled by the preflight.
pub fn planned_member(
    found: MemberFound,
    suffix: Option<String>,
    fallback: Option<&str>,
    repository: Result<String, EngineError>,
) -> (r: Result<PlannedMember, EngineError>)
    ensures
        planned_as(found, suffix, fallback, repository, r),
{
    let ghost f = found;
    let (reference, source, path, owned) = match found {
        MemberFound::Project { project, file } => {
            let path = match file.source.worktree_path() {
                Ok(p) => p,
                Err(e) => return Err(e),
            };
            let source = source_repo_of(&project, &file);
            (MemberRef::Project(project.name().clone()), source, path, file.source.is_owned())
        },
        MemberFound::Path { source } => {
            let reference = MemberRef::Repo(copy_string(&source));
            let path = match reference.worktree_path(source.as_str()) {
                Ok(p) => p,
                Err(e) => return Err(e),
            };
            (reference, source, path, false)
        },
    };
    assert(found_path(f, Ok(path)));
    let branch = match branch_for(&reference, suffix, fallback) {
        Ok(b) => b,
        Err(e) => return Err(e),
    };
    let repository = match repository {
        Ok(id) => id,
        Err(e) => return Err(e),
    };
    Ok(PlannedMember { reference, source, branch, path, base: None, repository, owned })
}


/// A branch exists where it resolves from either namespace: here, or on
/// the forge. `--existing-branch` is refused exactly when it is in neither,
/// `--new-branch` exactly when it is in either, and neither intent given
/// refuses nothing; a refusal says which intent went unmet.
pub proof fn a_branch_on_the_forge_exists(member: PlannedMember, intent: BranchIntent, here: bool, on_the_forge: Option<Seq<char>>)
    ensures
        intent == BranchIntent::Either ==> branch_decision(member, intent, here, on_the_forge) is None,
        intent == BranchIntent::RequireExisting ==> (branch_decision(member, intent, here, on_the_forge) is None
            <==> (here || on_the_forge is Some)),
        intent == BranchIntent::RequireExisting && !here && on_the_forge is None ==> branch_decision(
            member,
            intent,
            here,
            on_the_forge,
        ) == Some(BranchWanted::Existing),
        intent == BranchIntent::RequireNew ==> (branch_decision(member, intent, here, on_the_forge) is None
            <==> (!here && on_the_forge is None)),
        intent == BranchIntent::RequireNew && (here || on_the_forge is Some) ==> branch_decision(
            member,
            intent,
            here,
            on_the_forge,
        ) == Some(BranchWanted::New),
{
}

} // verus!
