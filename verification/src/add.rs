//! The decisions behind `plane_add`: putting members into a plane that
//! already holds others.
//!
//! Adding a member the plane already has is a typed duplicate, not an
//! adoption: `add` will not quietly take over a listed member whose worktree
//! has gone missing. The plane's one-worktree-per-repository rule is checked
//! against what the plane already holds, before the lock and again under it.

use vstd::prelude::*;
use crate::create::{must_unwind, needs_unwind, CreateEvent};
use crate::error::EngineError;
use crate::member::{member_text, same_ref, MemberRef};
use crate::plan::PlannedMember;
use crate::plane_file::{member_view, Member};
use crate::outcome::PerMember;
use crate::text::{chars_of, owned, same_chars};
use crate::wire::CreatedMember;

verus! {

/// The first index of `s` whose item satisfies `p`.
pub open spec fn first_index<T>(s: Seq<T>, p: spec_fn(T) -> bool) -> Option<int>
    decreases s.len(),
{
    if s.len() == 0 {
        None
    } else {
        match first_index(s.drop_last(), p) {
            Some(i) => Some(i),
            None => if p(s.last()) {
                Some(s.len() - 1)
            } else {
                None
            },
        }
    }
}

/// What `first_index` finds is in range and satisfies `p`.
pub proof fn lemma_first_index_found<T>(s: Seq<T>, p: spec_fn(T) -> bool)
    ensures
        first_index(s, p) matches Some(i) ==> 0 <= i < s.len() && p(s[i]),
    decreases s.len(),
{
    if s.len() > 0 {
        lemma_first_index_found(s.drop_last(), p);
    }
}

/// Once found in a prefix, the first index stays the first index.
pub proof fn lemma_first_index_prefix<T>(s: Seq<T>, p: spec_fn(T) -> bool, n: int)
    requires
        0 <= n <= s.len(),
        first_index(s.subrange(0, n), p) is Some,
    ensures
        first_index(s, p) == first_index(s.subrange(0, n), p),
    decreases s.len() - n,
{
    if n < s.len() {
        assert(s.subrange(0, n + 1).drop_last() =~= s.subrange(0, n));
        lemma_first_index_prefix(s, p, n + 1);
    } else {
        assert(s.subrange(0, n) =~= s);
    }
}

/// One step of a scan: the prefix one longer.
proof fn lemma_first_index_step<T>(s: Seq<T>, p: spec_fn(T) -> bool, i: int)
    requires
        0 <= i < s.len(),
        first_index(s.subrange(0, i), p) is None,
    ensures
        p(s[i]) ==> first_index(s, p) == Some(i),
        !p(s[i]) ==> first_index(s.subrange(0, i + 1), p) is None,
{
    let next = s.subrange(0, i + 1);
    assert(next.drop_last() =~= s.subrange(0, i));
    assert(next.last() == s[i]);
    if p(s[i]) {
        lemma_first_index_prefix(s, p, i + 1);
    }
}

/// The held member that is the same member as `m`.
pub open spec fn is_same_member(m: MemberRef) -> spec_fn(Member) -> bool {
    |h: Member| same_ref(h.source, m)
}

/// The held member whose worktree is where `m`'s would land.
pub open spec fn lands_at(path: Seq<char>) -> spec_fn(Member) -> bool {
    |h: Member| h.path@ == path
}

/// The planned member that is a worktree of `repository`.
pub open spec fn of_repository(repository: Seq<char>) -> spec_fn(PlannedMember) -> bool {
    |m: PlannedMember| m.repository@ == repository
}

/// Whether one planned member breaks the rule against what is held.
pub open spec fn collides(existing: Seq<Member>) -> spec_fn(PlannedMember) -> bool {
    |m: PlannedMember|
        first_index(existing, is_same_member(m.reference)) is Some || first_index(
            existing,
            lands_at(m.path@),
        ) is Some
}

/// Whether a held member's repository is one a planned member comes from.
pub open spec fn shared_by(planned: Seq<PlannedMember>) -> spec_fn(Option<String>) -> bool {
    |held: Option<String>|
        match held {
            Some(r) => first_index(planned, of_repository(r@)) is Some,
            None => false,
        }
}

/// What `refuse_collisions` answers. In order: the first planned member that
/// is already held, or whose worktree would land on a held one; then the
/// first held member whose repository a planned member comes from.
pub open spec fn collision_verdict(
    planned: Seq<PlannedMember>,
    existing: Seq<Member>,
    held: Seq<Option<String>>,
    plane: Seq<char>,
    r: Result<(), EngineError>,
) -> bool {
    match first_index(planned, collides(existing)) {
        Some(k) => {
            let m = planned[k];
            match first_index(existing, is_same_member(m.reference)) {
                Some(_) => r matches Err(EngineError::DuplicateMember { member, plane: Some(p) })
                    && member@ == member_text(m.reference) && p@ == plane,
                None => match first_index(existing, lands_at(m.path@)) {
                    Some(i) => r matches Err(EngineError::MemberPathCollision { first, second, path })
                        && first@ == member_text(existing[i].source) && second@ == member_text(m.reference)
                        && path@ == m.path@,
                    None => false,
                },
            }
        },
        None => match first_index(held, shared_by(planned)) {
            Some(h) => match held[h] {
                Some(repo) => match first_index(planned, of_repository(repo@)) {
                    Some(j) => r matches Err(EngineError::SameRepository { first, second })
                        && first@ == member_text(existing[h].source) && second@ == member_text(
                        planned[j].reference,
                    ),
                    None => false,
                },
                None => false,
            },
            None => r is Ok,
        },
    }
}

fn same_text(a: &str, b: &str) -> (r: bool)
    ensures
        r == (a@ == b@),
{
    let x = chars_of(a);
    let y = chars_of(b);
    same_chars(x.as_slice(), y.as_slice())
}

/// The first held member that is `reference`.
fn held_as(existing: &Vec<Member>, reference: &MemberRef) -> (r: Option<usize>)
    ensures
        match first_index(existing@, is_same_member(*reference)) {
            Some(i) => r matches Some(k) && k == i,
            None => r is None,
        },
{
    let ghost p = is_same_member(*reference);
    let mut i: usize = 0;
    assert(existing@.subrange(0, 0) =~= Seq::<Member>::empty());
    while i < existing.len()
        invariant
            i <= existing@.len(),
            p == is_same_member(*reference),
            first_index(existing@.subrange(0, i as int), p) is None,
        decreases existing.len() - i,
    {
        proof {
            lemma_first_index_step(existing@, p, i as int);
        }
        if existing[i].source.is_same(reference) {
            return Some(i);
        }
        i = i + 1;
    }
    assert(existing@.subrange(0, existing@.len() as int) =~= existing@);
    None
}

/// The first held member whose worktree is at `path`.
fn held_at(existing: &Vec<Member>, path: &str) -> (r: Option<usize>)
    ensures
        match first_index(existing@, lands_at(path@)) {
            Some(i) => r matches Some(k) && k == i,
            None => r is None,
        },
{
    let ghost p = lands_at(path@);
    let mut i: usize = 0;
    assert(existing@.subrange(0, 0) =~= Seq::<Member>::empty());
    while i < existing.len()
        invariant
            i <= existing@.len(),
            p == lands_at(path@),
            first_index(existing@.subrange(0, i as int), p) is None,
        decreases existing.len() - i,
    {
        proof {
            lemma_first_index_step(existing@, p, i as int);
        }
        if same_text(existing[i].path.as_path(), path) {
            return Some(i);
        }
        i = i + 1;
    }
    assert(existing@.subrange(0, existing@.len() as int) =~= existing@);
    None
}

/// The first planned member that is a worktree of `repository`.
fn planned_from(planned: &Vec<PlannedMember>, repository: &str) -> (r: Option<usize>)
    ensures
        match first_index(planned@, of_repository(repository@)) {
            Some(i) => r matches Some(k) && k == i,
            None => r is None,
        },
{
    let ghost p = of_repository(repository@);
    let mut i: usize = 0;
    assert(planned@.subrange(0, 0) =~= Seq::<PlannedMember>::empty());
    while i < planned.len()
        invariant
            i <= planned@.len(),
            p == of_repository(repository@),
            first_index(planned@.subrange(0, i as int), p) is None,
        decreases planned.len() - i,
    {
        proof {
            lemma_first_index_step(planned@, p, i as int);
        }
        if same_text(planned[i].repository.as_str(), repository) {
            return Some(i);
        }
        i = i + 1;
    }
    assert(planned@.subrange(0, planned@.len() as int) =~= planned@);
    None
}

/// Every way the members being added would break the plane's
/// one-worktree-per-repository rule, checked against what it already holds.
///
/// `held` is, for each member the plane holds, the identity of its
/// repository where git could say (`None` where the repository is gone or
/// would not answer). Two members that are different paths but one
/// repository derive the same worktree path only by luck, so the path check
/// cannot stand in for this one.
pub fn refuse_collisions(
    planned: &Vec<PlannedMember>,
    existing: &Vec<Member>,
    held: &Vec<Option<String>>,
    plane: &str,
) -> (r: Result<(), EngineError>)
    requires
        held@.len() == existing@.len(),
    ensures
        collision_verdict(planned@, existing@, held@, plane@, r),
{
    let ghost c = collides(existing@);
    let mut k: usize = 0;
    assert(planned@.subrange(0, 0) =~= Seq::<PlannedMember>::empty());
    while k < planned.len()
        invariant
            k <= planned@.len(),
            c == collides(existing@),
            first_index(planned@.subrange(0, k as int), c) is None,
        decreases planned.len() - k,
    {
        proof {
            lemma_first_index_step(planned@, c, k as int);
        }
        let member = &planned[k];
        match held_as(existing, &member.reference) {
            Some(_) => {
                return Err(
                    EngineError::DuplicateMember { member: member.reference.to_text(), plane: Some(owned(plane)) },
                );
            },
            None => {},
        }
        match held_at(existing, member.path.as_path()) {
            Some(i) => {
                proof {
                    lemma_first_index_found(existing@, lands_at(member.path@));
                }
                return Err(
                    EngineError::MemberPathCollision {
                        first: existing[i].source.to_text(),
                        second: member.reference.to_text(),
                        path: member.path.to_text(),
                    },
                );
            },
            None => {},
        }
        k = k + 1;
    }
    assert(planned@.subrange(0, planned@.len() as int) =~= planned@);
    let ghost s = shared_by(planned@);
    let mut h: usize = 0;
    assert(held@.subrange(0, 0) =~= Seq::<Option<String>>::empty());
    while h < held.len()
        invariant
            h <= held@.len(),
            held@.len() == existing@.len(),
            s == shared_by(planned@),
            first_index(planned@, c) is None,
            c == collides(existing@),
            first_index(held@.subrange(0, h as int), s) is None,
        decreases held.len() - h,
    {
        proof {
            lemma_first_index_step(held@, s, h as int);
        }
        match &held[h] {
            Some(repo) => match planned_from(planned, repo.as_str()) {
                Some(j) => {
                    proof {
                        lemma_first_index_found(planned@, of_repository(repo@));
                    }
                    return Err(
                        EngineError::SameRepository {
                            first: existing[h].source.to_text(),
                            second: planned[j].reference.to_text(),
                        },
                    );
                },
                None => {},
            },
            None => {},
        }
        h = h + 1;
    }
    assert(held@.subrange(0, held@.len() as int) =~= held@);
    Ok(())
}

/// The entries the members being added write into `plane.toml`, in order.
pub fn entries(planned: &Vec<PlannedMember>) -> (r: Vec<Member>)
    ensures
        r@.len() == planned@.len(),
        forall|i: int|
            0 <= i < r@.len() ==> #[trigger] member_view(r@[i]) == (planned@[i].path@, member_text(
                planned@[i].reference,
            )),
{
    let mut r: Vec<Member> = Vec::new();
    let mut i: usize = 0;
    while i < planned.len()
        invariant
            i <= planned@.len(),
            r@.len() == i,
            forall|j: int|
                0 <= j < i ==> #[trigger] member_view(r@[j]) == (planned@[j].path@, member_text(
                    planned@[j].reference,
                )),
        decreases planned.len() - i,
    {
        let m = &planned[i];
        r.push(Member { path: m.path.duplicate(), source: m.reference.duplicate() });
        i = i + 1;
    }
    r
}

/// What `plane_add` answers when it put its members in, or was
/// interrupted.
#[derive(Debug, PartialEq, Eq)]
pub struct PlaneAdded {
    pub id: String,
    pub directory: String,
    pub members: Vec<PerMember<CreatedMember>>,
    /// Whether the run was interrupted and unwound.
    pub interrupted: bool,
    /// Whether the unwind left something behind.
    pub remnant: bool,
}

/// What an unwound add answers. `add` cannot abort-and-remove the way
/// `create` does: it takes back only what this run made and leaves the
/// plane as it found it. An interrupted run still answers with its rows; a
/// failed one answers the failure, with `remnant` where something could
/// not be restored.
pub fn unwound_add(
    plane: &str,
    directory: String,
    members: Vec<PerMember<CreatedMember>>,
    rollback: Vec<PerMember<()>>,
    interrupted: bool,
    restored: bool,
) -> (r: Result<PlaneAdded, EngineError>)
    ensures
        interrupted ==> (r matches Ok(a) && a.id@ == plane@ && a.directory == directory && a.members == members
            && a.interrupted && a.remnant == !restored),
        !interrupted ==> (r matches Err(EngineError::AddAborted { plane: p, members: m, rollback: b, remnant })
            && p@ == plane@ && m == members && b == rollback && remnant == !restored),
{
    if interrupted {
        Ok(PlaneAdded { id: owned(plane), directory, members, interrupted: true, remnant: !restored })
    } else {
        Err(EngineError::AddAborted { plane: owned(plane), members, rollback, remnant: !restored })
    }
}


/// Where an add to a standing plane stands once its members are planned:
/// the step the caller was last asked to take.
///
/// The plane's lock comes first; under it the collisions and the preflight
/// are looked at again, then the plane file takes the new members, and only
/// then are worktrees added. A run that fails or is interrupted takes back
/// what it made and, where that worked, puts the plane file back as it was.
#[derive(Debug, Clone, Copy, PartialEq, Eq, Structural)]
pub enum PlaneAddAt {
    /// Nothing asked yet.
    Start,
    /// Taking the plane's lock.
    Locking,
    /// Looking again, under the lock, at collisions and the preflight.
    Rechecking,
    /// Writing the plane file with the new members in it.
    WritingPlaneFile,
    /// Adding a worktree for each new member.
    Building,
    /// Taking back what this run made.
    Unwinding,
    /// Writing the plane file back without this run's members.
    Restoring,
    /// Finished.
    Over,
}

/// What to do next.
#[derive(Debug)]
pub enum PlaneAddStep {
    /// Take this step and report what came of it.
    Take(PlaneAddAt),
    /// Take back what was built for these rows, and report with
    /// [`take_back_rows`](crate::create::take_back_rows).
    Unwind(Vec<PerMember<CreatedMember>>),
    /// The add is over, and answers this.
    Finish(Result<PlaneAdded, EngineError>),
}

/// An add of members to the plane `plane`, standing at `directory`.
pub struct PlaneAddProgress {
    plane: String,
    directory: String,
    at: PlaneAddAt,
    written: bool,
    interrupted: bool,
    members: Vec<PerMember<CreatedMember>>,
    rollback: Vec<PerMember<()>>,
}

/// Whether `event` is an answer to the step at `at`.
pub open spec fn answers_add(at: PlaneAddAt, event: CreateEvent) -> bool {
    match at {
        PlaneAddAt::Start => event is Done,
        PlaneAddAt::Locking | PlaneAddAt::Rechecking | PlaneAddAt::WritingPlaneFile | PlaneAddAt::Restoring => event is Done
            || event is Failed,
        PlaneAddAt::Building => event is Built,
        PlaneAddAt::Unwinding => event is TakenBack,
        PlaneAddAt::Over => false,
    }
}

/// Whether `r` is what an unwound add to `plane` at `directory` answers.
pub open spec fn add_unwound(
    r: Result<PlaneAdded, EngineError>,
    plane: Seq<char>,
    directory: Seq<char>,
    members: Seq<PerMember<CreatedMember>>,
    rollback: Seq<PerMember<()>>,
    interrupted: bool,
    restored: bool,
) -> bool {
    &&& interrupted ==> (r matches Ok(a) && a.id@ == plane && a.directory@ == directory && a.members@ == members
        && a.interrupted && a.remnant == !restored)
    &&& !interrupted ==> (r matches Err(EngineError::AddAborted { plane: p, members: m, rollback: b, remnant })
        && p@ == plane && m@ == members && b@ == rollback && remnant == !restored)
}

impl PlaneAddProgress {
    /// Worktrees are added only once the plane file holds the new members.
    #[verifier::type_invariant]
    spec fn membership_first(self) -> bool {
        (self.at is Building || self.at is Unwinding || self.at is Restoring) ==> self.written
    }

    /// The step last asked for.
    pub closed spec fn at(&self) -> PlaneAddAt {
        self.at
    }

    /// Whether the plane file holds the new members.
    pub closed spec fn written(&self) -> bool {
        self.written
    }

    /// The plane's id.
    pub closed spec fn plane(&self) -> Seq<char> {
        self.plane@
    }

    /// Its directory.
    pub closed spec fn directory(&self) -> Seq<char> {
        self.directory@
    }

    /// Whether the build was interrupted.
    pub closed spec fn interrupted(&self) -> bool {
        self.interrupted
    }

    /// The rows kept for the answer.
    pub closed spec fn members(&self) -> Seq<PerMember<CreatedMember>> {
        self.members@
    }

    /// The rollback rows kept for the answer.
    pub closed spec fn rollback(&self) -> Seq<PerMember<()>> {
        self.rollback@
    }

    /// An add to the plane `plane` at `directory`, about to start.
    pub fn new(plane: &str, directory: String) -> (p: PlaneAddProgress)
        ensures
            p.at() == PlaneAddAt::Start,
            p.plane() == plane@,
            p.directory() == directory@,
            !p.written(),
    {
        PlaneAddProgress {
            plane: owned(plane),
            directory,
            at: PlaneAddAt::Start,
            written: false,
            interrupted: false,
            members: Vec::new(),
            rollback: Vec::new(),
        }
    }

    /// The step last asked for.
    pub fn current(&self) -> (at: PlaneAddAt)
        ensures
            at == self.at(),
    {
        self.at
    }
}

/// The answer of an add that unwound after a clean take-back.
fn finish_unwound_add(progress: &mut PlaneAddProgress, restored: bool) -> (r: Result<PlaneAdded, EngineError>)
    ensures
        add_unwound(
            r,
            old(progress).plane(),
            old(progress).directory(),
            old(progress).members(),
            old(progress).rollback(),
            old(progress).interrupted(),
            restored,
        ),
        final(progress).at() == old(progress).at(),
        final(progress).plane() == old(progress).plane(),
        final(progress).directory() == old(progress).directory(),
        final(progress).written() == old(progress).written(),
{
    proof {
        use_type_invariant(&*progress);
    }
    let mut members = Vec::new();
    std::mem::swap(&mut members, &mut progress.members);
    let mut rollback = Vec::new();
    std::mem::swap(&mut rollback, &mut progress.rollback);
    unwound_add(progress.plane.as_str(), progress.directory.clone(), members, rollback, progress.interrupted, restored)
}

/// What an add to a standing plane does next, given what came of the step
/// last asked for.
pub fn plane_add_next(progress: &mut PlaneAddProgress, event: CreateEvent) -> (step: PlaneAddStep)
    requires
        answers_add(old(progress).at(), event),
    ensures
        final(progress).plane() == old(progress).plane(),
        final(progress).directory() == old(progress).directory(),
        old(progress).written() ==> final(progress).written(),
        match step {
            PlaneAddStep::Take(at) => final(progress).at() == at,
            PlaneAddStep::Unwind(_) => final(progress).at() == PlaneAddAt::Unwinding,
            PlaneAddStep::Finish(_) => final(progress).at() == PlaneAddAt::Over,
        },
        match (old(progress).at(), event) {
            (PlaneAddAt::Start, _) => step == PlaneAddStep::Take(PlaneAddAt::Locking),
            (PlaneAddAt::Locking, CreateEvent::Done) => step == PlaneAddStep::Take(PlaneAddAt::Rechecking),
            (PlaneAddAt::Rechecking, CreateEvent::Done) => step == PlaneAddStep::Take(PlaneAddAt::WritingPlaneFile),
            (PlaneAddAt::WritingPlaneFile, CreateEvent::Done) => step == PlaneAddStep::Take(PlaneAddAt::Building)
                && final(progress).written(),
            (PlaneAddAt::Building, CreateEvent::Built { members, interrupted }) => if needs_unwind(
                members@,
                interrupted,
            ) {
                step == PlaneAddStep::Unwind(members) && final(progress).interrupted() == interrupted
            } else {
                step matches PlaneAddStep::Finish(Ok(a)) && a.id@ == old(progress).plane() && a.directory@ == old(
                    progress,
                ).directory() && a.members == members && !a.interrupted && !a.remnant
            },
            (PlaneAddAt::Unwinding, CreateEvent::TakenBack { members, rollback, clean }) => if clean {
                step == PlaneAddStep::Take(PlaneAddAt::Restoring) && final(progress).members() == members@
                    && final(progress).rollback() == rollback@ && final(progress).interrupted()
                    == old(progress).interrupted()
            } else {
                step matches PlaneAddStep::Finish(r) && add_unwound(
                    r,
                    old(progress).plane(),
                    old(progress).directory(),
                    members@,
                    rollback@,
                    old(progress).interrupted(),
                    false,
                )
            },
            (PlaneAddAt::Restoring, e) => step matches PlaneAddStep::Finish(r) && add_unwound(
                r,
                old(progress).plane(),
                old(progress).directory(),
                old(progress).members(),
                old(progress).rollback(),
                old(progress).interrupted(),
                e is Done,
            ),
            (_, CreateEvent::Failed(e)) => step == PlaneAddStep::Finish(Err(e)),
            _ => false,
        },
        step == PlaneAddStep::Take(PlaneAddAt::Building) ==> old(progress).at() == PlaneAddAt::WritingPlaneFile
            && final(progress).written(),
        step is Unwind ==> old(progress).at() == PlaneAddAt::Building,
        step == PlaneAddStep::Take(PlaneAddAt::Restoring) ==> old(progress).at() == PlaneAddAt::Unwinding,
{
    proof {
        use_type_invariant(&*progress);
    }
    let at = progress.at;
    match event {
        CreateEvent::Done => {
            if at == PlaneAddAt::Start {
                progress.at = PlaneAddAt::Locking;
                PlaneAddStep::Take(PlaneAddAt::Locking)
            } else if at == PlaneAddAt::Locking {
                progress.at = PlaneAddAt::Rechecking;
                PlaneAddStep::Take(PlaneAddAt::Rechecking)
            } else if at == PlaneAddAt::Rechecking {
                progress.at = PlaneAddAt::WritingPlaneFile;
                PlaneAddStep::Take(PlaneAddAt::WritingPlaneFile)
            } else if at == PlaneAddAt::WritingPlaneFile {
                progress.written = true;
                progress.at = PlaneAddAt::Building;
                PlaneAddStep::Take(PlaneAddAt::Building)
            } else {
                progress.at = PlaneAddAt::Over;
                PlaneAddStep::Finish(finish_unwound_add(progress, true))
            }
        },
        CreateEvent::Failed(e) => {
            if at == PlaneAddAt::Restoring {
                progress.at = PlaneAddAt::Over;
                PlaneAddStep::Finish(finish_unwound_add(progress, false))
            } else {
                progress.at = PlaneAddAt::Over;
                PlaneAddStep::Finish(Err(e))
            }
        },
        CreateEvent::Built { members, interrupted } => {
            if must_unwind(&members, interrupted) {
                progress.interrupted = interrupted;
                progress.at = PlaneAddAt::Unwinding;
                PlaneAddStep::Unwind(members)
            } else {
                progress.at = PlaneAddAt::Over;
                PlaneAddStep::Finish(
                    Ok(
                        PlaneAdded {
                            id: owned(progress.plane.as_str()),
                            directory: progress.directory.clone(),
                            members,
                            interrupted: false,
                            remnant: false,
                        },
                    ),
                )
            }
        },
        CreateEvent::TakenBack { members, rollback, clean } => {
            if clean {
                progress.members = members;
                progress.rollback = rollback;
                progress.at = PlaneAddAt::Restoring;
                PlaneAddStep::Take(PlaneAddAt::Restoring)
            } else {
                progress.at = PlaneAddAt::Over;
                PlaneAddStep::Finish(
                    unwound_add(progress.plane.as_str(), progress.directory.clone(), members, rollback, progress.interrupted, false),
                )
            }
        },
    }
}

} // verus!
