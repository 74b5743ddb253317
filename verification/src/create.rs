//! The decisions behind `plane_create`: the order its steps run in, and its
//! abort path.
//!
//! A create that fails, or is interrupted, takes back everything it put in a
//! source repo and then the plane directory. What it takes back is driven by
//! what the source repos say rather than by the rows: a `git worktree add`
//! killed after registering its entry still left that entry behind. Running
//! git, and discarding the directory, are the caller's; which rows say what,
//! and what the run answers, are decided here.

use vstd::prelude::*;
use crate::error::EngineError;
use crate::member::{ref_view, MemberRef};
use crate::outcome::{Outcome, PerMember};
use crate::plane_id::PlaneId;
use crate::plan::PlannedMember;
use crate::teardown::Insistence;
use crate::read::RecordedWorktree;
use crate::text::{chars_of, has_prefix, starts_with};
use crate::wire::CreatedMember;

verus! {

/// What `plane_create` answers when it produced a plane, or was interrupted.
#[derive(Debug, PartialEq, Eq)]
pub struct PlaneCreated {
    pub id: PlaneId,
    pub directory: String,
    pub members: Vec<PerMember<CreatedMember>>,
    /// Whether the run was interrupted and unwound.
    pub interrupted: bool,
    /// Whether an unwind left something behind.
    pub remnant: bool,
}

/// `p` is `dir` or lies below it, on a separator: `/a/bc` is not under
/// `/a/b`.
pub open spec fn is_under(p: Seq<char>, dir: Seq<char>) -> bool {
    p == dir || (starts_with(p, dir) && p.len() > dir.len() && (dir.len() > 0 && dir.last() == '/'
        || p[dir.len() as int] == '/'))
}

/// Whether `p` is `dir` or lies below it.
pub fn is_under_dir(p: &str, dir: &str) -> (r: bool)
    ensures
        r == is_under(p@, dir@),
{
    let a = chars_of(p);
    let b = chars_of(dir);
    if a.len() == b.len() {
        if crate::text::same_chars(a.as_slice(), b.as_slice()) {
            return true;
        }
    }
    has_prefix(a.as_slice(), b.as_slice()) && a.len() > b.len() && (b.len() > 0 && b[b.len() - 1] == '/'
        || a[b.len()] == '/')
}

/// The worktrees of a source repo that lie inside the plane: the ones this
/// run may have put there. `plane` and each entry's path are resolved, since
/// git resolves a worktree's path when it adds it.
pub fn worktrees_inside(entries: &Vec<RecordedWorktree>, plane: &str) -> (r: Vec<usize>)
    ensures
        forall|k: int| 0 <= k < r@.len() ==> #[trigger] r@[k] < entries@.len() && is_under(entries@[r@[k] as int].path@, plane@),
        forall|k: int, l: int| 0 <= k < l < r@.len() ==> #[trigger] r@[k] < #[trigger] r@[l],
        forall|i: int|
            0 <= i < entries@.len() && is_under(#[trigger] entries@[i].path@, plane@) ==> r@.contains(i as usize),
{
    let mut r: Vec<usize> = Vec::new();
    let mut i: usize = 0;
    while i < entries.len()
        invariant
            i <= entries@.len(),
            forall|k: int| 0 <= k < r@.len() ==> #[trigger] r@[k] < i && is_under(entries@[r@[k] as int].path@, plane@),
            forall|k: int, l: int| 0 <= k < l < r@.len() ==> #[trigger] r@[k] < #[trigger] r@[l],
            forall|j: int| 0 <= j < i && is_under(#[trigger] entries@[j].path@, plane@) ==> r@.contains(j as usize),
        decreases entries.len() - i,
    {
        if is_under_dir(entries[i].path.as_str(), plane) {
            let ghost before = r@;
            r.push(i);
            assert forall|j: int| 0 <= j < i + 1 && is_under(#[trigger] entries@[j].path@, plane@) implies r@.contains(
                j as usize,
            ) by {
                if j < i {
                    let k = choose|k: int| 0 <= k < before.len() && before[k] == j as usize;
                    assert(r@[k] == j as usize);
                } else {
                    assert(r@[r@.len() - 1] == j as usize);
                }
            }
        }
        i = i + 1;
    }
    r
}

/// What taking one member back found: `Ok(true)` where something was taken
/// out of its repo, `Ok(false)` where nothing of it ever reached the repo,
/// the failure where taking it back did not work.
pub type TakenBack = Result<bool, EngineError>;

/// The row a member's created outcome becomes once its worktree is taken
/// back.
pub open spec fn unwound_outcome(o: Outcome<CreatedMember>, taken: TakenBack) -> Outcome<CreatedMember> {
    match (o, taken) {
        (Outcome::Completed(c), Ok(true)) => Outcome::Completed(
            CreatedMember { branch: c.branch, created_branch: c.created_branch, path: c.path, unwound: true },
        ),
        (o, _) => o,
    }
}

/// The rollback rows, as data: one for each member something was taken back
/// from, or that could not be taken back, in member order.
pub open spec fn rollback_rows(members: Seq<PerMember<CreatedMember>>, taken: Seq<TakenBack>) -> Seq<
    ((bool, Seq<char>), Outcome<()>),
>
    decreases members.len(),
{
    if members.len() == 0 || taken.len() < members.len() {
        Seq::empty()
    } else {
        let n = members.len() - 1;
        let r = rollback_rows(members.drop_last(), taken.subrange(0, n));
        match taken[n] {
            Ok(true) => r.push((ref_view(members[n].member), Outcome::Completed(()))),
            Ok(false) => r,
            Err(e) => r.push((ref_view(members[n].member), Outcome::Failed(e))),
        }
    }
}

/// The rollback rows of a `Vec`, as data.
pub open spec fn row_views(rows: Seq<PerMember<()>>) -> Seq<((bool, Seq<char>), Outcome<()>)> {
    Seq::new(rows.len(), |i: int| (ref_view(rows[i].member), rows[i].outcome))
}

/// Whether every rollback row worked.
pub open spec fn all_rolled_back(rows: Seq<((bool, Seq<char>), Outcome<()>)>) -> bool {
    forall|i: int| 0 <= i < rows.len() ==> !(#[trigger] rows[i].1 is Failed)
}

/// Marks each member whose worktree was taken back as unwound, and makes a
/// rollback row for each member something was taken from, or could not be.
/// The third answer says whether every take-back worked: only then is the
/// plane directory discarded.
pub fn take_back_rows(
    members: Vec<PerMember<CreatedMember>>,
    taken: Vec<TakenBack>,
) -> (r: (Vec<PerMember<CreatedMember>>, Vec<PerMember<()>>, bool))
    requires
        taken@.len() == members@.len(),
    ensures
        r.0@.len() == members@.len(),
        forall|i: int|
            0 <= i < members@.len() ==> (#[trigger] r.0@[i]).member == members@[i].member && r.0@[i].outcome
                == unwound_outcome(members@[i].outcome, taken@[i]),
        row_views(r.1@) == rollback_rows(members@, taken@),
        r.2 == all_rolled_back(rollback_rows(members@, taken@)),
{
    let ghost ms = members@;
    let ghost ts = taken@;
    let n = members.len();
    let mut rest = members;
    let mut outcomes = taken;
    let mut rows: Vec<PerMember<CreatedMember>> = Vec::new();
    let mut rollback: Vec<PerMember<()>> = Vec::new();
    let mut clean = true;
    let mut i: usize = 0;
    assert(ms.subrange(0, n as int) =~= ms);
    assert(ts.subrange(0, n as int) =~= ts);
    assert(row_views(rollback@) =~= rollback_rows(ms.subrange(0, 0), ts.subrange(0, 0)));
    while i < n
        invariant
            n == ms.len(),
            ts.len() == n,
            i <= n,
            rest@ == ms.subrange(i as int, n as int),
            outcomes@ == ts.subrange(i as int, n as int),
            rows@.len() == i,
            forall|j: int|
                0 <= j < i ==> (#[trigger] rows@[j]).member == ms[j].member && rows@[j].outcome == unwound_outcome(
                    ms[j].outcome,
                    ts[j],
                ),
            row_views(rollback@) == rollback_rows(ms.subrange(0, i as int), ts.subrange(0, i as int)),
            clean == all_rolled_back(row_views(rollback@)),
        decreases n - i,
    {
        let row = rest.remove(0);
        let result = outcomes.remove(0);
        assert(rest@ =~= ms.subrange(i as int + 1, n as int));
        assert(outcomes@ =~= ts.subrange(i as int + 1, n as int));
        let ghost before = row_views(rollback@);
        let ghost mp = ms.subrange(0, i as int + 1);
        let ghost tp = ts.subrange(0, i as int + 1);
        assert(mp.drop_last() =~= ms.subrange(0, i as int));
        assert(tp.subrange(0, i as int) =~= ts.subrange(0, i as int));
        assert(mp[i as int] == ms[i as int]);
        assert(tp[i as int] == ts[i as int]);
        let PerMember { member, outcome } = row;
        match result {
            Ok(true) => {
                rollback.push(PerMember::ok(member.duplicate(), ()));
                assert(row_views(rollback@) =~= before.push((ref_view(member), Outcome::Completed(()))));
                assert(all_rolled_back(row_views(rollback@)) == all_rolled_back(before)) by {
                    let after = row_views(rollback@);
                    if all_rolled_back(before) {
                        assert forall|k: int| 0 <= k < after.len() implies !(#[trigger] after[k].1 is Failed) by {
                            if k < before.len() {
                                assert(after[k] == before[k]);
                            }
                        }
                    }
                    if all_rolled_back(after) {
                        assert forall|k: int| 0 <= k < before.len() implies !(#[trigger] before[k].1 is Failed) by {
                            assert(after[k] == before[k]);
                        }
                    }
                }
                let outcome = match outcome {
                    Outcome::Completed(c) => Outcome::Completed(
                        CreatedMember { branch: c.branch, created_branch: c.created_branch, path: c.path, unwound: true },
                    ),
                    other => other,
                };
                rows.push(PerMember { member, outcome });
            },
            Ok(false) => {
                rows.push(PerMember { member, outcome });
            },
            Err(e) => {
                rollback.push(PerMember::failed(member.duplicate(), e));
                assert(row_views(rollback@) =~= before.push((ref_view(member), Outcome::Failed(e))));
                assert(row_views(rollback@)[before.len() as int].1 is Failed);
                clean = false;
                rows.push(PerMember { member, outcome });
            },
        }
        i = i + 1;
    }
    (rows, rollback, clean)
}

/// What an unwound create answers. An interrupted run still answers with
/// its rows, since the exit code says it was interrupted; a failed one
/// answers the failure, because the failure is for a run that produced no
/// durable state. Either way `remnant` says whether the unwind left
/// something behind.
pub fn unwound_create(
    id: PlaneId,
    directory: String,
    members: Vec<PerMember<CreatedMember>>,
    rollback: Vec<PerMember<()>>,
    interrupted: bool,
    discarded: bool,
) -> (r: Result<PlaneCreated, EngineError>)
    ensures
        interrupted ==> (r matches Ok(c) && c.id == id && c.directory == directory && c.members == members
            && c.interrupted && c.remnant == !discarded),
        !interrupted ==> (r matches Err(EngineError::CreateAborted { id: i, members: m, rollback: b, remnant })
            && i@ == id@ && m == members && b == rollback && remnant == !discarded),
{
    if interrupted {
        Ok(PlaneCreated { id, directory, members, interrupted: true, remnant: !discarded })
    } else {
        Err(EngineError::CreateAborted { id: id.to_text(), members, rollback, remnant: !discarded })
    }
}

/// What a completed create answers.
pub fn created(id: PlaneId, directory: String, members: Vec<PerMember<CreatedMember>>) -> (c: PlaneCreated)
    ensures
        c.id == id && c.directory == directory && c.members == members && !c.interrupted && !c.remnant,
{
    PlaneCreated { id, directory, members, interrupted: false, remnant: false }
}

/// Whether a create has to unwind: it was interrupted, or some member
/// failed.
pub fn must_unwind(members: &Vec<PerMember<CreatedMember>>, interrupted: bool) -> (r: bool)
    ensures
        r == (interrupted || exists|i: int| 0 <= i < members@.len() && #[trigger] members@[i].outcome is Failed),
{
    if interrupted {
        return true;
    }
    let mut i: usize = 0;
    while i < members.len()
        invariant
            i <= members@.len(),
            forall|j: int| 0 <= j < i ==> !(#[trigger] members@[j].outcome is Failed),
        decreases members.len() - i,
    {
        if members[i].is_failure() {
            return true;
        }
        i = i + 1;
    }
    false
}


/// Whether a create with these rows has to unwind: it was interrupted, or
/// some member failed.
pub open spec fn needs_unwind(members: Seq<PerMember<CreatedMember>>, interrupted: bool) -> bool {
    interrupted || exists|i: int| 0 <= i < members.len() && #[trigger] members[i].outcome is Failed
}

/// Where a create stands once its plane directory is claimed: the step the
/// caller was last asked to take.
///
/// The order is the load-bearing part: the latch is written before the
/// plane file, worktrees are added only once both are down, and the latch is
/// unlinked, the point of no return, only when every member was made and no
/// interrupt came. Anything else unwinds and then discards the directory.
#[derive(Debug, Clone, Copy, PartialEq, Eq, Structural)]
pub enum CreateAt {
    /// The directory is claimed; nothing else asked yet.
    Start,
    /// Taking the plane's lock.
    Locking,
    /// Writing `.bitplane/incomplete`, the latch.
    Latching,
    /// Writing `plane.toml`, the membership.
    WritingPlaneFile,
    /// Adding a worktree for each member: the abort window.
    Building,
    /// Taking back what the build put in each source repo.
    Unwinding,
    /// Removing the plane directory after a clean take-back.
    Discarding,
    /// Unlinking the latch.
    Unlatching,
    /// Finished.
    Over,
}

/// What came of the step last asked for.
#[derive(Debug)]
pub enum CreateEvent {
    /// It was done.
    Done,
    /// It could not be done.
    Failed(EngineError),
    /// The members were built, with these rows, and whether an interrupt came.
    Built { members: Vec<PerMember<CreatedMember>>, interrupted: bool },
    /// What the take-back came to, as [`take_back_rows`] answers it.
    TakenBack { members: Vec<PerMember<CreatedMember>>, rollback: Vec<PerMember<()>>, clean: bool },
}

/// What to do next.
#[derive(Debug)]
pub enum CreateStep {
    /// Take this step and report what came of it.
    Take(CreateAt),
    /// Take back what was built for these rows, and report with
    /// [`take_back_rows`].
    Unwind(Vec<PerMember<CreatedMember>>),
    /// The create is over, and answers this.
    Finish(Result<PlaneCreated, EngineError>),
}

/// A create in progress, of the plane `id` claimed at `directory`.
pub struct CreateProgress {
    id: PlaneId,
    directory: String,
    at: CreateAt,
    latched: bool,
    written: bool,
    interrupted: bool,
    members: Vec<PerMember<CreatedMember>>,
    rollback: Vec<PerMember<()>>,
}

/// Whether `event` is an answer to the step at `at`.
pub open spec fn answers(at: CreateAt, event: CreateEvent) -> bool {
    match at {
        CreateAt::Start => event is Done,
        CreateAt::Locking | CreateAt::Latching | CreateAt::WritingPlaneFile | CreateAt::Discarding
        | CreateAt::Unlatching => event is Done || event is Failed,
        CreateAt::Building => event is Built,
        CreateAt::Unwinding => event is TakenBack,
        CreateAt::Over => false,
    }
}

impl CreateProgress {
    /// Nothing is added before the latch and the plane file are both down,
    /// and the plane file is written only once the latch is.
    #[verifier::type_invariant]
    spec fn latch_then_membership(self) -> bool {
        &&& self.written ==> self.latched
        &&& (self.at is WritingPlaneFile) ==> self.latched
        &&& (self.at is Building || self.at is Unwinding || self.at is Discarding || self.at is Unlatching)
            ==> self.written
    }

    /// The step last asked for.
    pub closed spec fn at(&self) -> CreateAt {
        self.at
    }

    /// Whether the latch has been written.
    pub closed spec fn latched(&self) -> bool {
        self.latched
    }

    /// Whether the plane file has been written.
    pub closed spec fn written(&self) -> bool {
        self.written
    }

    /// The plane's id.
    pub closed spec fn id(&self) -> Seq<char> {
        self.id@
    }

    /// Its directory.
    pub closed spec fn directory(&self) -> Seq<char> {
        self.directory@
    }

    /// Whether the build was interrupted.
    pub closed spec fn interrupted(&self) -> bool {
        self.interrupted
    }

    /// The rows kept for the answer.
    pub closed spec fn members(&self) -> Seq<PerMember<CreatedMember>> {
        self.members@
    }

    /// The rollback rows kept for the answer.
    pub closed spec fn rollback(&self) -> Seq<PerMember<()>> {
        self.rollback@
    }

    /// A create of the plane just claimed as `id` at `directory`.
    pub fn new(id: PlaneId, directory: String) -> (p: CreateProgress)
        ensures
            p.at() == CreateAt::Start,
            p.id() == id@,
            p.directory() == directory@,
            !p.latched(),
            !p.written(),
    {
        CreateProgress {
            id,
            directory,
            at: CreateAt::Start,
            latched: false,
            written: false,
            interrupted: false,
            members: Vec::new(),
            rollback: Vec::new(),
        }
    }

    /// The step last asked for.
    pub fn current(&self) -> (at: CreateAt)
        ensures
            at == self.at(),
    {
        self.at
    }
}

/// What a create does next, given what came of the step last asked for.
pub fn create_next(progress: &mut CreateProgress, event: CreateEvent) -> (step: CreateStep)
    requires
        answers(old(progress).at(), event),
    ensures
        final(progress).id() == old(progress).id(),
        final(progress).directory() == old(progress).directory(),
        old(progress).latched() ==> final(progress).latched(),
        old(progress).written() ==> final(progress).written(),
        match step {
            CreateStep::Take(at) => final(progress).at() == at,
            CreateStep::Unwind(_) => final(progress).at() == CreateAt::Unwinding,
            CreateStep::Finish(_) => final(progress).at() == CreateAt::Over,
        },
        match (old(progress).at(), event) {
            (CreateAt::Start, _) => step == CreateStep::Take(CreateAt::Locking),
            (CreateAt::Locking, CreateEvent::Done) => step == CreateStep::Take(CreateAt::Latching),
            (CreateAt::Latching, CreateEvent::Done) => step == CreateStep::Take(CreateAt::WritingPlaneFile)
                && final(progress).latched(),
            (CreateAt::WritingPlaneFile, CreateEvent::Done) => step == CreateStep::Take(CreateAt::Building)
                && final(progress).written(),
            (CreateAt::Building, CreateEvent::Built { members, interrupted }) => if needs_unwind(
                members@,
                interrupted,
            ) {
                step == CreateStep::Unwind(members) && final(progress).interrupted() == interrupted
            } else {
                step == CreateStep::Take(CreateAt::Unlatching) && final(progress).members() == members@
            },
            (CreateAt::Unwinding, CreateEvent::TakenBack { members, rollback, clean }) => if clean {
                step == CreateStep::Take(CreateAt::Discarding) && final(progress).members() == members@
                    && final(progress).rollback() == rollback@ && final(progress).interrupted()
                    == old(progress).interrupted()
            } else {
                step matches CreateStep::Finish(r) && unwound(
                    r,
                    old(progress).id(),
                    old(progress).directory(),
                    members@,
                    rollback@,
                    old(progress).interrupted(),
                    false,
                )
            },
            (CreateAt::Discarding, e) => step matches CreateStep::Finish(r) && unwound(
                r,
                old(progress).id(),
                old(progress).directory(),
                old(progress).members(),
                old(progress).rollback(),
                old(progress).interrupted(),
                e is Done,
            ),
            (CreateAt::Unlatching, CreateEvent::Done) => step matches CreateStep::Finish(Ok(c)) && c.id@ == old(
                progress,
            ).id() && c.directory@ == old(progress).directory() && c.members@ == old(progress).members()
                && !c.interrupted && !c.remnant,
            (_, CreateEvent::Failed(e)) => step == CreateStep::Finish(Err(e)),
            _ => false,
        },
        step == CreateStep::Take(CreateAt::Building) ==> final(progress).latched() && final(progress).written(),
        step == CreateStep::Take(CreateAt::Unlatching) ==> old(progress).at() == CreateAt::Building
            && (event matches CreateEvent::Built { members, interrupted } && !needs_unwind(members@, interrupted)),
        step is Unwind ==> old(progress).at() == CreateAt::Building,
        step == CreateStep::Take(CreateAt::Discarding) ==> old(progress).at() == CreateAt::Unwinding,
{
    proof {
        use_type_invariant(&*progress);
    }
    let at = progress.at;
    match event {
        CreateEvent::Done => {
            if at == CreateAt::Start {
                progress.at = CreateAt::Locking;
                CreateStep::Take(CreateAt::Locking)
            } else if at == CreateAt::Locking {
                progress.at = CreateAt::Latching;
                CreateStep::Take(CreateAt::Latching)
            } else if at == CreateAt::Latching {
                progress.latched = true;
                progress.at = CreateAt::WritingPlaneFile;
                CreateStep::Take(CreateAt::WritingPlaneFile)
            } else if at == CreateAt::WritingPlaneFile {
                progress.written = true;
                progress.at = CreateAt::Building;
                CreateStep::Take(CreateAt::Building)
            } else if at == CreateAt::Discarding {
                progress.at = CreateAt::Over;
                CreateStep::Finish(finish_unwound(progress, true))
            } else {
                progress.at = CreateAt::Over;
                let mut members = Vec::new();
                std::mem::swap(&mut members, &mut progress.members);
                CreateStep::Finish(Ok(created(progress.id.clone(), progress.directory.clone(), members)))
            }
        },
        CreateEvent::Failed(e) => {
            if at == CreateAt::Discarding {
                progress.at = CreateAt::Over;
                CreateStep::Finish(finish_unwound(progress, false))
            } else {
                progress.at = CreateAt::Over;
                CreateStep::Finish(Err(e))
            }
        },
        CreateEvent::Built { members, interrupted } => {
            if must_unwind(&members, interrupted) {
                progress.interrupted = interrupted;
                progress.at = CreateAt::Unwinding;
                CreateStep::Unwind(members)
            } else {
                progress.members = members;
                progress.at = CreateAt::Unlatching;
                CreateStep::Take(CreateAt::Unlatching)
            }
        },
        CreateEvent::TakenBack { members, rollback, clean } => {
            if clean {
                progress.members = members;
                progress.rollback = rollback;
                progress.at = CreateAt::Discarding;
                CreateStep::Take(CreateAt::Discarding)
            } else {
                progress.at = CreateAt::Over;
                CreateStep::Finish(
                    unwound_create(progress.id.clone(), progress.directory.clone(), members, rollback, progress.interrupted, false),
                )
            }
        },
    }
}

/// Whether `r` is what an unwound create of `id` at `directory` answers.
pub open spec fn unwound(
    r: Result<PlaneCreated, EngineError>,
    id: Seq<char>,
    directory: Seq<char>,
    members: Seq<PerMember<CreatedMember>>,
    rollback: Seq<PerMember<()>>,
    interrupted: bool,
    discarded: bool,
) -> bool {
    &&& interrupted ==> (r matches Ok(c) && c.id@ == id && c.directory@ == directory && c.members@ == members
        && c.interrupted && c.remnant == !discarded)
    &&& !interrupted ==> (r matches Err(EngineError::CreateAborted { id: i, members: m, rollback: b, remnant })
        && i@ == id && m@ == members && b@ == rollback && remnant == !discarded)
}

/// The answer of a create that unwound after a clean take-back, from the
/// rows it kept, which are handed on.
fn finish_unwound(progress: &mut CreateProgress, discarded: bool) -> (r: Result<PlaneCreated, EngineError>)
    ensures
        unwound(
            r,
            old(progress).id(),
            old(progress).directory(),
            old(progress).members(),
            old(progress).rollback(),
            old(progress).interrupted(),
            discarded,
        ),
        final(progress).at() == old(progress).at(),
        final(progress).id() == old(progress).id(),
        final(progress).directory() == old(progress).directory(),
        final(progress).latched() == old(progress).latched(),
        final(progress).written() == old(progress).written(),
{
    proof {
        use_type_invariant(&*progress);
    }
    let mut members = Vec::new();
    std::mem::swap(&mut members, &mut progress.members);
    let mut rollback = Vec::new();
    std::mem::swap(&mut rollback, &mut progress.rollback);
    unwound_create(progress.id.clone(), progress.directory.clone(), members, rollback, progress.interrupted, discarded)
}


/// How hard a rollback pushes `git worktree remove`: always with force.
/// What it removes is only what this run put there, so nothing of the
/// user's can be lost; this force must never reach `destroy`, where it would
/// step over the uncommitted-work veto.
pub fn rollback_insistence() -> (i: Insistence)
    ensures
        i == Insistence::Forced,
{
    Insistence::Forced
}

/// Whether this run cut the member's branch, which is the only kind of
/// branch a rollback deletes: a base was settled for it because it was not
/// there before.
pub fn cut_by_this_run(member: &PlannedMember) -> (r: bool)
    ensures
        r == (member.base is Some),
{
    member.base.is_some()
}

} // verus!
