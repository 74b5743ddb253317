//! The decisions of `destroy` and `rm`, the converging teardown.
//!
//! ```text
//! 1. open the plane, take its lock
//! 2. check every member, collect every refusal   <- nothing is touched yet
//! 3. git worktree remove, per member
//! 4. unlink plane.toml (destroy) | rewrite plane.toml (rm, last)
//! 5. rm -r the plane directory (destroy)
//! ```
//!
//! Step 2 finishes before step 3 begins: every reason across every member
//! comes back in one error, so one re-run with the right waivers finishes the
//! job. It converges rather than rolling back: a member already gone is
//! reported `AlreadyDone`. Nothing passes git's force flag unless a waiver the
//! user granted for this very member, or the incomplete latch, licenses it.
//!
//! Asking git and the filesystem is the caller's; what the answers mean is
//! decided here.

use vstd::prelude::*;
use crate::error::{EngineError, Teardown};
use crate::member::{member_text, ref_view, same_ref, MemberRef, WorktreePath};
use crate::outcome::{Outcome, PerMember};
use crate::plane_file::{member_view, Member, PlaneFile};
use crate::refusal::{derefs, refusal_view, unwaived_of, Reason, Refusal, Waivers};
use crate::text::{owned, push_str};
use crate::wire::RemovedMember;
use crate::porcelain::WorktreeEntry;

verus! {

/// How hard `git worktree remove` may push.
#[derive(Debug, Clone, Copy, PartialEq, Eq, Structural)]
pub enum Insistence {
    /// No force at all.
    Polite,
    /// `--force`: contents the user accepted losing.
    Forced,
    /// `--force --force`: a locked worktree too.
    ForcedThroughLock,
}

/// Git's own lock on a worktree.
#[derive(Debug, Clone, PartialEq, Eq)]
pub struct WorktreeLock {
    /// Why, where whoever locked it said.
    pub reason: Option<String>,
}

/// What a worktree's contents are.
#[derive(Debug, Clone, Copy, PartialEq, Eq, Structural)]
pub struct WorkingTree {
    /// Tracked files differ from `HEAD`.
    pub uncommitted: bool,
    /// Files git does not track and no ignore rule covers.
    pub untracked: bool,
}

/// What asking git about one member produced. "git would not answer" is a
/// third answer, not an error: one broken member must not make a plane
/// nothing can take apart.
#[derive(Debug, Clone, PartialEq, Eq)]
pub enum Inspection {
    /// Nothing registered and nothing on disk: an earlier run took it out.
    Gone,
    /// Git answered.
    Seen {
        /// Whether git records a worktree of this source at that path.
        registered: bool,
        /// The branch it is on, where it is on one.
        branch: Option<String>,
        /// Git's own lock on it, where someone took one.
        locked: Option<WorktreeLock>,
        /// Its contents, absent where the directory is no longer there.
        state: Option<WorkingTree>,
        /// Whether its tip is on the forge, absent for the same reason.
        contained: Option<bool>,
    },
    /// Git could not be asked at all, and why.
    Unreachable(String),
}

/// One member, looked at but not yet touched.
#[derive(Debug, Clone, PartialEq, Eq)]
pub struct Checked {
    pub member: Member,
    /// Where its worktree is, absolutely.
    pub at: String,
    /// The repo it came from, where that is still there.
    pub source: Option<String>,
    /// What git said about it.
    pub seen: Inspection,
}

/// What taking one member out comes to, before anything is done.
#[derive(Debug, Clone, Copy, PartialEq, Eq, Structural)]
pub enum Step {
    /// The run was interrupted: work a re-run still has to do.
    Interrupted,
    /// An earlier run already took it out.
    AlreadyDone,
    /// Take it out.
    Remove,
}

/// How one member's worktree is taken out.
#[derive(Debug, Clone, Copy, PartialEq, Eq, Structural)]
pub enum Removal {
    /// Git would not answer: the directory goes, then the source repo (where
    /// there is one) is pruned and the entry confirmed gone.
    DirectoryThenPrune,
    /// Nothing for git to unregister: the directory goes.
    Directory,
    /// `git worktree remove`, pushing this hard; then whatever is left.
    Git(Insistence),
}

/// How hard git may push: as the user's waivers allow, or through anything
/// where the plane is latched, since nothing in a latched plane was ever the
/// user's and `destroy` is the only way out of a latch.
pub open spec fn insistence_for(waived: Seq<Reason>, latched: bool) -> Insistence {
    if latched || waived.contains(Reason::LockedWorktree) {
        Insistence::ForcedThroughLock
    } else if waived.len() == 0 {
        Insistence::Polite
    } else {
        Insistence::Forced
    }
}

/// The sentence for a lock.
pub open spec fn lock_detail(lock: WorktreeLock) -> Seq<char> {
    match lock.reason {
        Some(r) => "the worktree is locked: "@ + r@,
        None => "the worktree is locked"@,
    }
}

/// Everything one member would lose, in bitplane's own words, in the order
/// the reasons are raised.
pub open spec fn raised(seen: Inspection) -> Seq<(Reason, Seq<char>)> {
    match seen {
        Inspection::Gone => Seq::empty(),
        Inspection::Unreachable(why) => seq![(Reason::SourceRepoMissing, why@)],
        Inspection::Seen { branch, locked, state, contained, .. } => {
            let subject = match branch {
                Some(b) => b@,
                None => "the worktree"@,
            };
            let lock = match locked {
                Some(l) => seq![(Reason::LockedWorktree, lock_detail(l))],
                None => Seq::empty(),
            };
            let contents = match state {
                Some(s) => (if s.uncommitted {
                    seq![(Reason::Uncommitted, subject + " has uncommitted changes"@)]
                } else {
                    Seq::empty()
                }) + (if s.untracked {
                    seq![(Reason::Untracked, subject + " has untracked files"@)]
                } else {
                    Seq::empty()
                }),
                None => Seq::empty(),
            };
            let unpushed = if contained == Some(false) {
                seq![(Reason::Unpushed, subject + " has commits that are not on origin"@)]
            } else {
                Seq::empty()
            };
            lock + contents + unpushed
        },
    }
}

/// Every refusal across every member, as data, in member order.
pub open spec fn refusals_of(checked: Seq<Checked>) -> Seq<((bool, Seq<char>), Reason, Seq<char>)>
    decreases checked.len(),
{
    if checked.len() == 0 {
        Seq::empty()
    } else {
        let last = checked.last();
        refusals_of(checked.drop_last()) + raised(last.seen).map_values(
            |x: (Reason, Seq<char>)| (ref_view(last.member.source), x.0, x.1),
        )
    }
}

/// The reasons among `rs` the waivers cover, in order.
pub open spec fn covered(rs: Seq<(Reason, Seq<char>)>, granted: Seq<Reason>) -> Seq<Reason>
    decreases rs.len(),
{
    if rs.len() == 0 {
        Seq::empty()
    } else {
        let r = covered(rs.drop_last(), granted);
        if granted.contains(rs.last().0) {
            r.push(rs.last().0)
        } else {
            r
        }
    }
}

/// The refusals no waiver covers, in order.
pub open spec fn surviving(all: Seq<((bool, Seq<char>), Reason, Seq<char>)>, granted: Seq<Reason>) -> Seq<((bool, Seq<char>), Reason, Seq<char>)>
    decreases all.len(),
{
    if all.len() == 0 {
        Seq::empty()
    } else {
        let r = surviving(all.drop_last(), granted);
        if granted.contains(all.last().1) {
            r
        } else {
            r.push(all.last())
        }
    }
}

/// How many members a surviving refusal names.
pub open spec fn blocking_count(checked: Seq<Checked>, survivors: Seq<((bool, Seq<char>), Reason, Seq<char>)>) -> nat
    decreases checked.len(),
{
    if checked.len() == 0 {
        0
    } else {
        blocking_count(checked.drop_last(), survivors) + if exists|j: int|
            0 <= j < survivors.len() && #[trigger] survivors[j].0 == ref_view(checked.last().member.source) {
            1nat
        } else {
            0nat
        }
    }
}

/// The refusals of a `Vec`, as data.
pub open spec fn refusal_views(rs: Seq<Refusal>) -> Seq<((bool, Seq<char>), Reason, Seq<char>)> {
    Seq::new(rs.len(), |i: int| refusal_view(rs[i]))
}

/// What `check_every` answers for `checked`.
pub open spec fn checked_every(checked: Seq<Checked>, granted: Seq<Reason>, plane: Seq<char>, operation: Teardown, r: Result<Vec<Vec<Reason>>, EngineError>) -> bool {
    let survivors = surviving(refusals_of(checked), granted);
    if survivors.len() == 0 {
        r matches Ok(waived) && waived@.len() == checked.len() && forall|i: int|
            0 <= i < checked.len() ==> #[trigger] waived@[i]@ == covered(raised(checked[i].seen), granted)
    } else {
        r matches Err(EngineError::Refused { plane: p, operation: o, blocking, considered, refusals })
            && p@ == plane && o == operation && blocking == blocking_count(checked, survivors) && considered
            == checked.len() && refusal_views(refusals@) == survivors
    }
}

/// How hard git may push for one member.
pub fn insistence(waived: &[Reason], latched: bool) -> (i: Insistence)
    ensures
        i == insistence_for(waived@, latched),
{
    let mut lock = false;
    let mut k: usize = 0;
    while k < waived.len()
        invariant
            k <= waived@.len(),
            lock == exists|j: int| 0 <= j < k && waived@[j] == Reason::LockedWorktree,
        decreases waived.len() - k,
    {
        if waived[k] == Reason::LockedWorktree {
            lock = true;
        }
        k = k + 1;
    }
    assert(lock == waived@.contains(Reason::LockedWorktree));
    if latched || lock {
        Insistence::ForcedThroughLock
    } else if waived.len() == 0 {
        Insistence::Polite
    } else {
        Insistence::Forced
    }
}

fn raise(refusals: &mut Vec<Refusal>, member: &MemberRef, reason: Reason, detail: &str)
    ensures
        final(refusals)@.len() == old(refusals)@.len() + 1,
        forall|i: int| 0 <= i < old(refusals)@.len() ==> #[trigger] final(refusals)@[i] == old(refusals)@[i],
        refusal_view(final(refusals)@.last()) == (ref_view(*member), reason, detail@),
{
    refusals.push(Refusal::new(member.duplicate(), reason, detail));
}

/// Everything one member would lose, in bitplane's own words.
pub fn reasons(one: &Checked) -> (r: Vec<Refusal>)
    ensures
        r@.len() == raised(one.seen).len(),
        forall|i: int|
            0 <= i < r@.len() ==> #[trigger] refusal_view(r@[i]) == (
                ref_view(one.member.source),
                raised(one.seen)[i].0,
                raised(one.seen)[i].1,
            ),
{
    let mut refusals: Vec<Refusal> = Vec::new();
    let who = &one.member.source;
    match &one.seen {
        Inspection::Gone => {
            return refusals;
        },
        Inspection::Unreachable(why) => {
            raise(&mut refusals, who, Reason::SourceRepoMissing, why.as_str());
            return refusals;
        },
        Inspection::Seen { branch, locked, state, contained, .. } => {
            let ghost want = raised(one.seen);
            let ghost subject = match branch {
                Some(b) => b@,
                None => "the worktree"@,
            };
            let ghost lock_part: Seq<(Reason, Seq<char>)> = match locked {
                Some(l) => seq![(Reason::LockedWorktree, lock_detail(*l))],
                None => Seq::empty(),
            };
            if let Some(lock) = locked {
                let detail = match &lock.reason {
                    Some(reason) => {
                        let mut d = owned("the worktree is locked: ");
                        push_str(&mut d, reason.as_str());
                        d
                    },
                    None => owned("the worktree is locked"),
                };
                raise(&mut refusals, who, Reason::LockedWorktree, detail.as_str());
            }
            assert(forall|i: int| 0 <= i < refusals@.len() ==> #[trigger] refusal_view(refusals@[i]) == (
                ref_view(*who),
                lock_part[i].0,
                lock_part[i].1,
            ));
            let subject_text = match branch {
                Some(b) => b.clone(),
                None => owned("the worktree"),
            };
            assert(subject_text@ == subject);
            let ghost state_part: Seq<(Reason, Seq<char>)> = match state {
                Some(s) => (if s.uncommitted {
                    seq![(Reason::Uncommitted, subject + " has uncommitted changes"@)]
                } else {
                    Seq::empty()
                }) + (if s.untracked {
                    seq![(Reason::Untracked, subject + " has untracked files"@)]
                } else {
                    Seq::empty()
                }),
                None => Seq::empty(),
            };
            let ghost first = refusals@;
            if let Some(s) = state {
                if s.uncommitted {
                    let mut d = subject_text.clone();
                    push_str(&mut d, " has uncommitted changes");
                    raise(&mut refusals, who, Reason::Uncommitted, d.as_str());
                }
                if s.untracked {
                    let mut d = subject_text.clone();
                    push_str(&mut d, " has untracked files");
                    raise(&mut refusals, who, Reason::Untracked, d.as_str());
                }
            }
            assert(refusals@.len() == lock_part.len() + state_part.len());
            assert(forall|i: int|
                lock_part.len() <= i < refusals@.len() ==> #[trigger] refusal_view(refusals@[i]) == (
                    ref_view(*who),
                    state_part[i - lock_part.len()].0,
                    state_part[i - lock_part.len()].1,
                ));
            let ghost second = refusals@;
            if *contained == Some(false) {
                let mut d = subject_text.clone();
                push_str(&mut d, " has commits that are not on origin");
                raise(&mut refusals, who, Reason::Unpushed, d.as_str());
            }
            let ghost unpushed_part: Seq<(Reason, Seq<char>)> = if *contained == Some(false) {
                seq![(Reason::Unpushed, subject + " has commits that are not on origin"@)]
            } else {
                Seq::empty()
            };
            assert(want =~= lock_part + state_part + unpushed_part);
            assert forall|i: int| 0 <= i < refusals@.len() implies #[trigger] refusal_view(refusals@[i]) == (
                ref_view(one.member.source),
                want[i].0,
                want[i].1,
            ) by {
                if i < lock_part.len() {
                    assert(refusals@[i] == first[i]);
                    assert(first[i] == second[i]);
                } else if i < lock_part.len() + state_part.len() {
                    assert(refusals@[i] == second[i]);
                }
            }
            refusals
        },
    }
}

proof fn lemma_surviving_views(granted: Seq<Reason>, rs: Seq<Refusal>)
    ensures
        refusal_views(unwaived_of(granted, rs)) == surviving(refusal_views(rs), granted),
    decreases rs.len(),
{
    if rs.len() > 0 {
        lemma_surviving_views(granted, rs.drop_last());
        assert(refusal_views(rs).drop_last() =~= refusal_views(rs.drop_last()));
        assert(refusal_views(rs).last() == refusal_view(rs.last()));
        let u = unwaived_of(granted, rs.drop_last());
        if !granted.contains(rs.last().reason) {
            assert(refusal_views(u.push(rs.last())) =~= refusal_views(u).push(refusal_view(rs.last())));
        }
    } else {
        assert(refusal_views(unwaived_of(granted, rs)) =~= Seq::empty());
        assert(surviving(refusal_views(rs), granted) =~= Seq::empty());
    }
}

fn covered_reasons(raised: &Vec<Refusal>, waivers: &Waivers) -> (r: Vec<Reason>)
    ensures
        r@ == covered(
            Seq::new(raised@.len(), |i: int| (raised@[i].reason, raised@[i].detail@)),
            waivers.granted(),
        ),
{
    let ghost rs = Seq::new(raised@.len(), |i: int| (raised@[i].reason, raised@[i].detail@));
    let mut r: Vec<Reason> = Vec::new();
    let mut j: usize = 0;
    while j < raised.len()
        invariant
            j <= raised@.len(),
            rs == Seq::new(raised@.len(), |i: int| (raised@[i].reason, raised@[i].detail@)),
            r@ == covered(rs.subrange(0, j as int), waivers.granted()),
        decreases raised.len() - j,
    {
        assert(rs.subrange(0, j as int + 1).drop_last() =~= rs.subrange(0, j as int));
        if waivers.covers(raised[j].reason) {
            r.push(raised[j].reason);
        }
        j = j + 1;
    }
    assert(rs.subrange(0, rs.len() as int) =~= rs);
    r
}

/// Looks at what every member would lose and collects every reason before
/// anything is touched: the reasons each member's waivers cover, where none
/// survives; the refusal naming every surviving reason otherwise.
pub fn check_every(looked: &Vec<Checked>, waivers: &Waivers, plane: &str, operation: Teardown) -> (r: Result<Vec<Vec<Reason>>, EngineError>)
    ensures
        checked_every(looked@, waivers.granted(), plane@, operation, r),
{
    let mut waived_all: Vec<Vec<Reason>> = Vec::new();
    let mut refusals: Vec<Refusal> = Vec::new();
    let mut i: usize = 0;
    assert(looked@.subrange(0, 0) =~= Seq::<Checked>::empty());
    assert(refusal_views(refusals@) =~= Seq::empty());
    while i < looked.len()
        invariant
            i <= looked@.len(),
            waived_all@.len() == i,
            forall|k: int|
                0 <= k < i ==> #[trigger] waived_all@[k]@ == covered(raised(looked@[k].seen), waivers.granted()),
            refusal_views(refusals@) == refusals_of(looked@.subrange(0, i as int)),
        decreases looked.len() - i,
    {
        let one = &looked[i];
        let raised_here = reasons(one);
        let ghost rs = Seq::new(raised_here@.len(), |k: int| (raised_here@[k].reason, raised_here@[k].detail@));
        assert forall|k: int| 0 <= k < rs.len() implies rs[k] == raised(one.seen)[k] by {
            assert(refusal_view(raised_here@[k]) == (
                ref_view(one.member.source),
                raised(one.seen)[k].0,
                raised(one.seen)[k].1,
            ));
        }
        assert(rs =~= raised(one.seen));
        let waived = covered_reasons(&raised_here, waivers);
        waived_all.push(waived);
        let ghost before = refusals@;
        let mut j: usize = 0;
        while j < raised_here.len()
            invariant
                j <= raised_here@.len(),
                refusals@.len() == before.len() + j,
                forall|k: int| 0 <= k < before.len() ==> #[trigger] refusals@[k] == before[k],
                forall|k: int|
                    0 <= k < j ==> #[trigger] refusal_view(refusals@[before.len() + k]) == refusal_view(raised_here@[k]),
            decreases raised_here.len() - j,
        {
            refusals.push(raised_here[j].duplicate());
            j = j + 1;
        }
        let ghost upto = looked@.subrange(0, i as int + 1);
        assert(upto.drop_last() =~= looked@.subrange(0, i as int));
        assert(upto.last() == *one);
        let ghost tail = raised(one.seen).map_values(
            |x: (Reason, Seq<char>)| (ref_view(one.member.source), x.0, x.1),
        );
        assert forall|k: int| 0 <= k < refusals@.len() implies #[trigger] refusal_views(refusals@)[k] == (
            refusal_views(before) + tail)[k] by {
            if k >= before.len() {
                let t = k - before.len();
                assert(refusal_view(refusals@[before.len() + t]) == refusal_view(raised_here@[t]));
                assert(refusal_view(raised_here@[t]) == (
                    ref_view(one.member.source),
                    raised(one.seen)[t].0,
                    raised(one.seen)[t].1,
                ));
            } else {
                assert(refusals@[k] == before[k]);
            }
        }
        assert(refusal_views(refusals@) =~= refusal_views(before) + tail);
        i = i + 1;
    }
    assert(looked@.subrange(0, looked@.len() as int) =~= looked@);
    let survivors = waivers.unwaived(refusals.as_slice());
    proof {
        lemma_surviving_views(waivers.granted(), refusals@);
        assert(refusal_views(derefs(survivors@)) == surviving(refusals_of(looked@), waivers.granted()));
    }
    if survivors.len() == 0 {
        assert(derefs(survivors@) =~= Seq::<Refusal>::empty());
        return Ok(waived_all);
    }
    let ghost all_survivors = surviving(refusals_of(looked@), waivers.granted());
    let mut blocking: usize = 0;
    let mut m: usize = 0;
    assert(looked@.subrange(0, 0) =~= Seq::<Checked>::empty());
    while m < looked.len()
        invariant
            m <= looked@.len(),
            refusal_views(derefs(survivors@)) == all_survivors,
            blocking == blocking_count(looked@.subrange(0, m as int), all_survivors),
            blocking <= m,
        decreases looked.len() - m,
    {
        let mut hit = false;
        let mut j: usize = 0;
        while j < survivors.len()
            invariant
                j <= survivors@.len(),
                m < looked@.len(),
                refusal_views(derefs(survivors@)) == all_survivors,
                hit == exists|k: int| 0 <= k < j && #[trigger] all_survivors[k].0 == ref_view(looked@[m as int].member.source),
            decreases survivors.len() - j,
        {
            assert(all_survivors[j as int] == refusal_view(*survivors@[j as int]));
            let same = survivors[j].member.is_same(&looked[m].member.source);
            assert(same == (all_survivors[j as int].0 == ref_view(looked@[m as int].member.source)));
            if same {
                hit = true;
            }
            j = j + 1;
        }
        let ghost upto = looked@.subrange(0, m as int + 1);
        assert(upto.drop_last() =~= looked@.subrange(0, m as int));
        assert(upto.last() == looked@[m as int]);
        if hit {
            blocking = blocking + 1;
        }
        m = m + 1;
    }
    assert(looked@.subrange(0, looked@.len() as int) =~= looked@);
    let mut kept: Vec<Refusal> = Vec::new();
    let mut j: usize = 0;
    while j < survivors.len()
        invariant
            j <= survivors@.len(),
            kept@.len() == j,
            forall|k: int| 0 <= k < j ==> #[trigger] refusal_view(kept@[k]) == refusal_view(*survivors@[k]),
        decreases survivors.len() - j,
    {
        kept.push(survivors[j].duplicate());
        j = j + 1;
    }
    assert(refusal_views(kept@) =~= refusal_views(derefs(survivors@)));
    Err(
        EngineError::Refused {
            plane: owned(plane),
            operation,
            blocking,
            considered: looked.len(),
            refusals: kept,
        },
    )
}

/// The branch a member's worktree was on, where git could say.
pub open spec fn seen_branch(seen: Inspection) -> Option<Seq<char>> {
    match seen {
        Inspection::Seen { branch, .. } => match branch {
            Some(b) => Some(b@),
            None => None,
        },
        _ => None,
    }
}

/// What taking a member out comes to: nothing more where the run was
/// interrupted, nothing where it is already gone.
pub open spec fn step_of(seen: Inspection, interrupted: bool) -> Step {
    if interrupted {
        Step::Interrupted
    } else if seen is Gone {
        Step::AlreadyDone
    } else {
        Step::Remove
    }
}

/// How a member's worktree is taken out.
pub open spec fn removal_of(one: Checked, waived: Seq<Reason>, latched: bool) -> Removal {
    match one.seen {
        Inspection::Unreachable(_) => Removal::DirectoryThenPrune,
        Inspection::Seen { registered, .. } => if one.source is None || !registered {
            Removal::Directory
        } else {
            Removal::Git(insistence_for(waived, latched))
        },
        Inspection::Gone => if one.source is None {
            Removal::Directory
        } else {
            Removal::Git(insistence_for(waived, latched))
        },
    }
}

/// Whether a row took its member out, in this run or an earlier one.
pub open spec fn took_out(row: PerMember<RemovedMember>) -> bool {
    row.outcome is Completed || row.outcome is AlreadyDone
}

/// The worktree paths the first `n` rows took out, rows and members paired
/// in order.
pub open spec fn paths_gone_upto(rows: Seq<PerMember<RemovedMember>>, checked: Seq<Checked>, n: int) -> Seq<Seq<char>>
    decreases n,
{
    if n <= 0 {
        Seq::empty()
    } else {
        let r = paths_gone_upto(rows, checked, n - 1);
        if took_out(rows[n - 1]) {
            r.push(checked[n - 1].member.path@)
        } else {
            r
        }
    }
}

/// The worktree paths the rows took out, rows and members paired in order.
pub open spec fn paths_gone(rows: Seq<PerMember<RemovedMember>>, checked: Seq<Checked>) -> Seq<Seq<char>> {
    paths_gone_upto(rows, checked, if rows.len() < checked.len() { rows.len() as int } else { checked.len() as int })
}

/// The member of `members` a ref names, first match.
pub open spec fn first_named(members: Seq<Member>, reference: MemberRef) -> Option<int>
    decreases members.len(),
{
    if members.len() == 0 {
        None
    } else if same_ref(members[0].source, reference) {
        Some(0)
    } else {
        match first_named(members.drop_first(), reference) {
            Some(i) => Some(i + 1),
            None => None,
        }
    }
}

impl Checked {
    /// The branch the worktree was on, where git could say.
    pub fn branch(&self) -> (r: Option<String>)
        ensures
            match r {
                Some(b) => seen_branch(self.seen) == Some(b@),
                None => seen_branch(self.seen) is None,
            },
    {
        match &self.seen {
            Inspection::Seen { branch, .. } => match branch {
                Some(b) => Some(b.clone()),
                None => None,
            },
            _ => None,
        }
    }
}

/// What taking one member out comes to, before anything is done.
pub fn step_for(one: &Checked, interrupted: bool) -> (s: Step)
    ensures
        s == step_of(one.seen, interrupted),
{
    if interrupted {
        Step::Interrupted
    } else if let Inspection::Gone = one.seen {
        Step::AlreadyDone
    } else {
        Step::Remove
    }
}

/// How one member's worktree is taken out, pushing exactly as hard as the
/// waivers allow. A member git would not answer for goes directly; one git
/// has no record of, or whose source repo is gone, goes as a directory.
pub fn removal(one: &Checked, waived: &[Reason], latched: bool) -> (r: Removal)
    ensures
        r == removal_of(*one, waived@, latched),
{
    if let Inspection::Unreachable(_) = one.seen {
        return Removal::DirectoryThenPrune;
    }
    if one.source.is_none() {
        return Removal::Directory;
    }
    if let Inspection::Seen { registered: false, .. } = one.seen {
        return Removal::Directory;
    }
    Removal::Git(insistence(waived, latched))
}

/// The row of a member taken out: where it was, what it was on, and what
/// was waived for it. A branch is never deleted: bitplane owns no ref in a
/// repo it merely points at.
pub fn removed_member(one: &Checked, waived: &Vec<Reason>) -> (m: RemovedMember)
    ensures
        match m.branch {
            Some(b) => seen_branch(one.seen) == Some(b@),
            None => seen_branch(one.seen) is None,
        },
        m.path@ == one.member.path@,
        !m.branch_deleted,
        m.waived@ == waived@,
{
    let mut copy: Vec<Reason> = Vec::new();
    let mut i: usize = 0;
    while i < waived.len()
        invariant
            i <= waived@.len(),
            copy@ == waived@.subrange(0, i as int),
        decreases waived.len() - i,
    {
        copy.push(waived[i]);
        i = i + 1;
        assert(copy@ =~= waived@.subrange(0, i as int));
    }
    assert(waived@.subrange(0, waived@.len() as int) =~= waived@);
    RemovedMember { branch: one.branch(), path: one.member.path.duplicate(), branch_deleted: false, waived: copy }
}

/// The worktree paths this run took out, so the rewrite of `plane.toml`
/// drops exactly those and leaves a member a re-run still has to reach.
pub fn gone(rows: &[PerMember<RemovedMember>], checked: &[Checked]) -> (r: Vec<WorktreePath>)
    ensures
        r@.len() == paths_gone(rows@, checked@).len(),
        forall|i: int| 0 <= i < r@.len() ==> #[trigger] r@[i]@ == paths_gone(rows@, checked@)[i],
{
    let n = if rows.len() < checked.len() {
        rows.len()
    } else {
        checked.len()
    };

    let mut r: Vec<WorktreePath> = Vec::new();
    let mut i: usize = 0;
    while i < n
        invariant
            i <= n,
            n <= rows@.len(),
            n <= checked@.len(),
            r@.len() == paths_gone_upto(rows@, checked@, i as int).len(),
            forall|k: int| 0 <= k < r@.len() ==> #[trigger] r@[k]@ == paths_gone_upto(rows@, checked@, i as int)[k],
        decreases n - i,
    {
        let took = match &rows[i].outcome {
            Outcome::Completed(_) => true,
            Outcome::AlreadyDone => true,
            _ => false,
        };
        if took {
            r.push(checked[i].member.path.duplicate());
        }
        i = i + 1;
    }
    r
}

/// The member `bp rm` was asked about, checked against the plane and
/// against the members named before it.
#[verifier::loop_isolation(false)]
pub fn named_member(named: &Vec<Member>, reference: &MemberRef, file: &PlaneFile, plane: &str) -> (r: Result<Member, EngineError>)
    ensures
        match first_named(file.members@, *reference) {
            None => r matches Err(EngineError::ProjectNotInPlane { member, plane: p }) && member@ == member_text(
                *reference,
            ) && p@ == plane@,
            Some(i) => if exists|j: int|
                0 <= j < named@.len() && same_ref(#[trigger] named@[j].source, file.members@[i].source) {
                r matches Err(EngineError::DuplicateMember { member, plane: None }) && member@ == member_text(
                    *reference,
                )
            } else {
                r matches Ok(m) && member_view(m) == member_view(file.members@[i]) && ref_view(m.source)
                    == ref_view(file.members@[i].source)
            },
        },
{
    let mut i: usize = 0;
    let ghost members = file.members@;
    assert(members.subrange(0, members.len() as int) =~= members);
    while i < file.members.len()
        invariant
            i <= members.len(),
            members == file.members@,
            first_named(members, *reference) == match first_named(
                members.subrange(i as int, members.len() as int),
                *reference,
            ) {
                Some(k) => Some(k + i),
                None => None,
            },
        decreases file.members.len() - i,
    {
        let ghost rest = members.subrange(i as int, members.len() as int);
        assert(rest[0] == members[i as int]);
        assert(rest.drop_first() =~= members.subrange(i as int + 1, members.len() as int));
        if file.members[i].source.is_same(reference) {
            let found = &file.members[i];
            let mut j: usize = 0;
            while j < named.len()
                invariant
                    j <= named@.len(),
                    forall|k: int| 0 <= k < j ==> !same_ref(#[trigger] named@[k].source, found.source),
                decreases named.len() - j,
            {
                if named[j].source.is_same(&found.source) {
                    assert(same_ref(named@[j as int].source, file.members@[i as int].source));
                    assert(first_named(members, *reference) == Some(i as int));
                    return Err(EngineError::DuplicateMember { member: reference.to_text(), plane: None });
                }
                j = j + 1;
            }
            assert(first_named(members, *reference) == Some(i as int));
            return Ok(found.duplicate());
        }
        i = i + 1;
    }
    assert(members.subrange(members.len() as int, members.len() as int) =~= Seq::<Member>::empty());
    Err(EngineError::ProjectNotInPlane { member: reference.to_text(), plane: owned(plane) })
}

/// A waiver covers its own reason and says nothing about the others: a
/// refusal survives exactly when its reason was not waived, so a teardown is
/// refused exactly when some raised reason was not waived, and waiving a
/// reason nothing raised changes nothing.
pub proof fn a_waiver_covers_only_its_own_reason(
    all: Seq<((bool, Seq<char>), Reason, Seq<char>)>,
    granted: Seq<Reason>,
)
    ensures
        forall|x: ((bool, Seq<char>), Reason, Seq<char>)|
            #[trigger] surviving(all, granted).contains(x) <==> (all.contains(x) && !granted.contains(x.1)),
        surviving(all, granted).len() == 0 <==> forall|i: int|
            0 <= i < all.len() ==> granted.contains(#[trigger] all[i].1),
    decreases all.len(),
{
    if all.len() > 0 {
        let rest = all.drop_last();
        a_waiver_covers_only_its_own_reason(rest, granted);
        assert(all =~= rest.push(all.last()));
        assert forall|x: ((bool, Seq<char>), Reason, Seq<char>)|
            #[trigger] surviving(all, granted).contains(x) <==> (all.contains(x) && !granted.contains(x.1)) by {
            if all.contains(x) && !granted.contains(x.1) {
                if x != all.last() {
                    let i = choose|i: int| 0 <= i < all.len() && all[i] == x;
                    assert(rest[i] == x);
                    assert(rest.contains(x));
                    assert(surviving(rest, granted).contains(x));
                    if !granted.contains(all.last().1) {
                        let j = choose|j: int| 0 <= j < surviving(rest, granted).len() && surviving(rest, granted)[j] == x;
                        assert(surviving(all, granted)[j] == x);
                    }
                } else {
                    assert(surviving(all, granted).last() == x);
                }
            }
            if surviving(all, granted).contains(x) {
                if !granted.contains(all.last().1) && surviving(all, granted).last() == x {
                    assert(all[all.len() - 1] == x);
                } else {
                    let j = choose|j: int| 0 <= j < surviving(all, granted).len() && surviving(all, granted)[j] == x;
                    if !granted.contains(all.last().1) && j == surviving(all, granted).len() - 1 {
                        assert(all[all.len() - 1] == x);
                    } else {
                        assert(surviving(rest, granted)[j] == x);
                        assert(surviving(rest, granted).contains(x));
                        let i = choose|i: int| 0 <= i < rest.len() && rest[i] == x;
                        assert(all[i] == x);
                    }
                }
            }
        }
        if surviving(all, granted).len() == 0 {
            assert forall|i: int| 0 <= i < all.len() implies granted.contains(#[trigger] all[i].1) by {
                if i < all.len() - 1 {
                    assert(rest[i] == all[i]);
                }
            }
        }
        if forall|i: int| 0 <= i < all.len() ==> granted.contains(#[trigger] all[i].1) {
            assert(granted.contains(all[all.len() - 1].1));
            assert forall|i: int| 0 <= i < rest.len() implies granted.contains(#[trigger] rest[i].1) by {
                assert(rest[i] == all[i]);
            }
        }
    }
}

/// git is pushed no harder than the waivers allow: politely where nothing
/// was waived on a plane that was completed, through a lock only where the
/// lock was waived or the plane was never completed, and a latched plane is
/// forced through without a waiver being granted.
pub proof fn git_is_pushed_no_harder_than_the_waivers_allow(waived: Seq<Reason>, latched: bool)
    ensures
        (insistence_for(waived, latched) == Insistence::Polite) <==> (waived.len() == 0 && !latched),
        (insistence_for(waived, latched) == Insistence::ForcedThroughLock) <==> (latched || waived.contains(
            Reason::LockedWorktree,
        )),
        latched ==> insistence_for(Seq::empty(), latched) == Insistence::ForcedThroughLock,
{
    if waived.len() == 0 {
        assert(!waived.contains(Reason::LockedWorktree));
    }
    if waived.contains(Reason::LockedWorktree) {
        assert(waived.len() > 0);
    }
    assert(!Seq::<Reason>::empty().contains(Reason::LockedWorktree));
}

/// The rows of a teardown, or the failure that carries them: a member that
/// could not be taken out makes the whole run a failure, with every row
/// riding inside so nothing that did happen goes unsaid.
pub fn settled(plane: &str, operation: Teardown, rows: Vec<PerMember<RemovedMember>>) -> (r: Result<
    Vec<PerMember<RemovedMember>>,
    EngineError,
>)
    ensures
        (exists|i: int| 0 <= i < rows@.len() && #[trigger] rows@[i].outcome is Failed) ==> (r matches Err(
            EngineError::RemovalFailed { plane: p, operation: o, members },
        ) && p@ == plane@ && o == operation && members == rows),
        !(exists|i: int| 0 <= i < rows@.len() && #[trigger] rows@[i].outcome is Failed) ==> r == Ok::<
            Vec<PerMember<RemovedMember>>,
            EngineError,
        >(rows),
{
    let mut i: usize = 0;
    while i < rows.len()
        invariant
            i <= rows@.len(),
            forall|j: int| 0 <= j < i ==> !(#[trigger] rows@[j].outcome is Failed),
        decreases rows.len() - i,
    {
        if rows[i].is_failure() {
            return Err(EngineError::RemovalFailed { plane: owned(plane), operation, members: rows });
        }
        i = i + 1;
    }
    Ok(rows)
}

/// Every reason raised for a member is among the refusals of a pass that
/// looked at it.
proof fn lemma_raised_is_refused(checked: Seq<Checked>, i: int, k: int)
    requires
        0 <= i < checked.len(),
        0 <= k < raised(checked[i].seen).len(),
    ensures
        refusals_of(checked).contains(
            (ref_view(checked[i].member.source), raised(checked[i].seen)[k].0, raised(checked[i].seen)[k].1),
        ),
    decreases checked.len(),
{
    let last = checked.last();
    let rest = refusals_of(checked.drop_last());
    let mine = raised(last.seen).map_values(
        |x: (Reason, Seq<char>)| (ref_view(last.member.source), x.0, x.1),
    );
    assert(refusals_of(checked) == rest + mine);
    if i == checked.len() - 1 {
        assert((rest + mine)[rest.len() + k] == mine[k]);
    } else {
        assert(checked.drop_last()[i] == checked[i]);
        lemma_raised_is_refused(checked.drop_last(), i, k);
        let j = choose|j: int| 0 <= j < rest.len() && rest[j] == (
            ref_view(checked[i].member.source),
            raised(checked[i].seen)[k].0,
            raised(checked[i].seen)[k].1,
        );
        assert((rest + mine)[j] == rest[j]);
    }
}

/// A teardown refuses, member by member, while any member still holds
/// uncommitted or unpushed work that was not waived: such a member raises
/// the reason, and a raised reason no waiver covers survives the pass.
pub proof fn work_not_waived_is_refused(checked: Seq<Checked>, granted: Seq<Reason>, i: int)
    requires
        0 <= i < checked.len(),
        checked[i].seen matches Inspection::Seen { state, contained, .. } && ((state matches Some(s)
            && s.uncommitted && !granted.contains(Reason::Uncommitted)) || (contained == Some(false)
            && !granted.contains(Reason::Unpushed))),
    ensures
        surviving(refusals_of(checked), granted).len() > 0,
{
    let seen = checked[i].seen;
    let rs = raised(seen);
    match seen {
        Inspection::Seen { branch, locked, state, contained, .. } => {
            let subject = match branch {
                Some(b) => b@,
                None => "the worktree"@,
            };
            let lock = match locked {
                Some(l) => seq![(Reason::LockedWorktree, lock_detail(l))],
                None => Seq::empty(),
            };
            let contents = match state {
                Some(s) => (if s.uncommitted {
                    seq![(Reason::Uncommitted, subject + " has uncommitted changes"@)]
                } else {
                    Seq::empty()
                }) + (if s.untracked {
                    seq![(Reason::Untracked, subject + " has untracked files"@)]
                } else {
                    Seq::empty()
                }),
                None => Seq::empty(),
            };
            let unpushed = if contained == Some(false) {
                seq![(Reason::Unpushed, subject + " has commits that are not on origin"@)]
            } else {
                Seq::empty()
            };
            assert(rs == lock + contents + unpushed);
            let k: int = if state matches Some(s) && s.uncommitted && !granted.contains(Reason::Uncommitted) {
                lock.len() as int
            } else {
                (lock.len() + contents.len()) as int
            };
            assert((lock + contents + unpushed)[k].0 == Reason::Uncommitted || (lock + contents + unpushed)[k].0
                == Reason::Unpushed);
            assert(!granted.contains(rs[k].0));
            lemma_raised_is_refused(checked, i, k);
            let x = (ref_view(checked[i].member.source), rs[k].0, rs[k].1);
            a_waiver_covers_only_its_own_reason(refusals_of(checked), granted);
            assert(surviving(refusals_of(checked), granted).contains(x));
        },
        _ => {},
    }
}


/// What a teardown does after git refused to remove a worktree.
#[derive(Debug, Clone, Copy, PartialEq, Eq, Structural)]
pub enum RefusalStep {
    /// Stand by git's refusal.
    Refuse,
    /// The entry is one git itself calls prunable: prune, then look again.
    Prune,
    /// The entry is gone: remove the directory.
    RemoveDirectory,
}

/// After git refused a remove: an entry git calls prunable is pruned and
/// looked at again, and the directory goes only once git no longer records
/// it; otherwise git's refusal stands. `prunable` is what git said of the
/// entry after the refusal (false where it records none), and
/// `still_recorded` whether it records one after the prune, once that ran.
pub fn after_refusal(prunable: bool, still_recorded: Option<bool>) -> (s: RefusalStep)
    ensures
        s == (if !prunable {
            RefusalStep::Refuse
        } else {
            match still_recorded {
                None => RefusalStep::Prune,
                Some(true) => RefusalStep::Refuse,
                Some(false) => RefusalStep::RemoveDirectory,
            }
        }),
{
    if !prunable {
        return RefusalStep::Refuse;
    }
    match still_recorded {
        None => RefusalStep::Prune,
        Some(true) => RefusalStep::Refuse,
        Some(false) => RefusalStep::RemoveDirectory,
    }
}

/// The message for a worktree git still records after its directory went
/// and its source repo was pruned: it is locked.
pub open spec fn still_recorded_message(at: Seq<char>) -> Seq<char> {
    "git still records a worktree at "@ + at + "; unlock it and try again"@
}

/// After a directory was removed and its source repo pruned: where the
/// prune ran and git still records a worktree at `at`, the entry is locked
/// and the removal fails saying so; otherwise it is done.
pub fn after_prune(cleared: bool, still_recorded: bool, at: &str) -> (r: Result<(), EngineError>)
    ensures
        (cleared && still_recorded) ==> (r matches Err(EngineError::GitFailed { message }) && message@
            == still_recorded_message(at@)),
        !(cleared && still_recorded) ==> r is Ok,
{
    if cleared && still_recorded {
        let mut message = owned("git still records a worktree at ");
        push_str(&mut message, at);
        push_str(&mut message, "; unlock it and try again");
        proof {
            reveal_strlit("git still records a worktree at ");
            reveal_strlit("; unlock it and try again");
        }
        return Err(EngineError::GitFailed { message });
    }
    Ok(())
}


/// Whether some row failed.
pub open spec fn some_failed<T>(rows: Seq<PerMember<T>>) -> bool {
    exists|i: int| 0 <= i < rows.len() && #[trigger] rows[i].outcome is Failed
}

/// Where a destroy stands once its plane is found: the step the caller was
/// last asked to take.
///
/// Every member is looked at and vetoed under the lock before any is taken
/// out; the plane file goes only once every member came out and no
/// interrupt came, and the directory only after the plane file.
#[derive(Debug, Clone, Copy, PartialEq, Eq, Structural)]
pub enum DestroyAt {
    /// Nothing asked yet.
    Start,
    /// Taking the plane's lock.
    Locking,
    /// Looking at every member and refusing the teardown where work would
    /// be lost.
    Checking,
    /// Taking each member's worktree out.
    TakingOut,
    /// Removing `plane.toml`.
    RemovingPlaneFile,
    /// Removing the plane directory.
    RemovingDirectory,
    /// Finished.
    Over,
}

/// What came of the step last asked for.
#[derive(Debug)]
pub enum DestroyEvent {
    /// It was done.
    Done,
    /// It could not be done.
    Failed(EngineError),
    /// Each member's row, and whether an interrupt came.
    TakenOut { rows: Vec<PerMember<RemovedMember>>, interrupted: bool },
}

/// What to do next.
#[derive(Debug)]
pub enum DestroyStep {
    /// Take this step and report what came of it.
    Take(DestroyAt),
    /// Give up with this error.
    Fail(EngineError),
    /// The destroy is over: these rows, and whether it was interrupted
    /// (in which case the plane still stands).
    Finish { rows: Vec<PerMember<RemovedMember>>, interrupted: bool },
}

/// A destroy in progress of the plane `plane`.
pub struct DestroyProgress {
    plane: String,
    at: DestroyAt,
    emptied: bool,
    rows: Vec<PerMember<RemovedMember>>,
}

/// Whether `event` is an answer to the step at `at`.
pub open spec fn answers_destroy(at: DestroyAt, event: DestroyEvent) -> bool {
    match at {
        DestroyAt::Start => event is Done,
        DestroyAt::Locking | DestroyAt::Checking | DestroyAt::RemovingPlaneFile | DestroyAt::RemovingDirectory => event
            is Done || event is Failed,
        DestroyAt::TakingOut => event is TakenOut,
        DestroyAt::Over => false,
    }
}

impl DestroyProgress {
    /// The plane file and the directory are removed only once every member
    /// came out.
    #[verifier::type_invariant]
    spec fn members_out_first(self) -> bool {
        (self.at is RemovingPlaneFile || self.at is RemovingDirectory) ==> self.emptied && !some_failed(self.rows@)
    }

    /// The step last asked for.
    pub closed spec fn at(&self) -> DestroyAt {
        self.at
    }

    /// The plane's id.
    pub closed spec fn plane(&self) -> Seq<char> {
        self.plane@
    }

    /// Whether every member came out, with no interrupt.
    pub closed spec fn emptied(&self) -> bool {
        self.emptied
    }

    /// The rows kept for the answer.
    pub closed spec fn rows(&self) -> Seq<PerMember<RemovedMember>> {
        self.rows@
    }

    /// A destroy of the plane `plane`, about to start.
    pub fn new(plane: &str) -> (p: DestroyProgress)
        ensures
            p.at() == DestroyAt::Start,
            p.plane() == plane@,
            !p.emptied(),
    {
        DestroyProgress { plane: owned(plane), at: DestroyAt::Start, emptied: false, rows: Vec::new() }
    }

    /// The step last asked for.
    pub fn current(&self) -> (at: DestroyAt)
        ensures
            at == self.at(),
    {
        self.at
    }
}

/// What a destroy does next, given what came of the step last asked for.
pub fn destroy_next(progress: &mut DestroyProgress, event: DestroyEvent) -> (step: DestroyStep)
    requires
        answers_destroy(old(progress).at(), event),
    ensures
        final(progress).plane() == old(progress).plane(),
        match step {
            DestroyStep::Take(at) => final(progress).at() == at,
            _ => final(progress).at() == DestroyAt::Over,
        },
        match (old(progress).at(), event) {
            (DestroyAt::Start, _) => step == DestroyStep::Take(DestroyAt::Locking),
            (DestroyAt::Locking, DestroyEvent::Done) => step == DestroyStep::Take(DestroyAt::Checking),
            (DestroyAt::Checking, DestroyEvent::Done) => step == DestroyStep::Take(DestroyAt::TakingOut),
            (DestroyAt::TakingOut, DestroyEvent::TakenOut { rows, interrupted }) => if some_failed(rows@) {
                step matches DestroyStep::Fail(EngineError::RemovalFailed { plane: p, operation: o, members })
                    && p@ == old(progress).plane() && o == Teardown::Destroy && members == rows
            } else if interrupted {
                step == (DestroyStep::Finish { rows, interrupted: true })
            } else {
                step == DestroyStep::Take(DestroyAt::RemovingPlaneFile) && final(progress).rows() == rows@
                    && final(progress).emptied()
            },
            (DestroyAt::RemovingPlaneFile, DestroyEvent::Done) => step == DestroyStep::Take(DestroyAt::RemovingDirectory)
                && final(progress).rows() == old(progress).rows(),
            (DestroyAt::RemovingDirectory, DestroyEvent::Done) => step matches DestroyStep::Finish { rows, interrupted }
                && rows@ == old(progress).rows() && !interrupted,
            (_, DestroyEvent::Failed(e)) => step == DestroyStep::Fail(e),
            _ => false,
        },
        step == DestroyStep::Take(DestroyAt::RemovingPlaneFile) ==> old(progress).at() == DestroyAt::TakingOut
            && (event matches DestroyEvent::TakenOut { rows, interrupted } && !interrupted && !some_failed(rows@)),
        step == DestroyStep::Take(DestroyAt::RemovingDirectory) ==> old(progress).at() == DestroyAt::RemovingPlaneFile,
{
    proof {
        use_type_invariant(&*progress);
    }
    let at = progress.at;
    match event {
        DestroyEvent::Done => {
            if at == DestroyAt::Start {
                progress.at = DestroyAt::Locking;
                DestroyStep::Take(DestroyAt::Locking)
            } else if at == DestroyAt::Locking {
                progress.at = DestroyAt::Checking;
                DestroyStep::Take(DestroyAt::Checking)
            } else if at == DestroyAt::Checking {
                progress.at = DestroyAt::TakingOut;
                DestroyStep::Take(DestroyAt::TakingOut)
            } else if at == DestroyAt::RemovingPlaneFile {
                progress.at = DestroyAt::RemovingDirectory;
                DestroyStep::Take(DestroyAt::RemovingDirectory)
            } else {
                progress.at = DestroyAt::Over;
                let mut rows = Vec::new();
                std::mem::swap(&mut rows, &mut progress.rows);
                DestroyStep::Finish { rows, interrupted: false }
            }
        },
        DestroyEvent::Failed(e) => {
            progress.at = DestroyAt::Over;
            DestroyStep::Fail(e)
        },
        DestroyEvent::TakenOut { rows, interrupted } => {
            match settled(progress.plane.as_str(), Teardown::Destroy, rows) {
                Err(e) => {
                    progress.at = DestroyAt::Over;
                    DestroyStep::Fail(e)
                },
                Ok(rows) => {
                    if interrupted {
                        progress.at = DestroyAt::Over;
                        DestroyStep::Finish { rows, interrupted: true }
                    } else {
                        progress.rows = rows;
                        progress.emptied = true;
                        progress.at = DestroyAt::RemovingPlaneFile;
                        DestroyStep::Take(DestroyAt::RemovingPlaneFile)
                    }
                },
            }
        },
    }
}


/// Where an `rm` stands once its plane is found: the step the caller was
/// last asked to take.
///
/// The members named are looked at and vetoed under the lock before any is
/// taken out, and the plane file is rewritten, without exactly the members
/// that came out, only once none failed to.
#[derive(Debug, Clone, Copy, PartialEq, Eq, Structural)]
pub enum RemoveAt {
    /// Nothing asked yet.
    Start,
    /// Taking the plane's lock.
    Locking,
    /// Finding the members named and refusing where work would be lost.
    Checking,
    /// Taking each named member's worktree out.
    TakingOut,
    /// Rewriting `plane.toml` without the members that came out.
    Rewriting,
    /// Finished.
    Over,
}

/// What to do next.
#[derive(Debug)]
pub enum RemoveStep {
    /// Take this step and report what came of it.
    Take(RemoveAt),
    /// Give up with this error.
    Fail(EngineError),
    /// The `rm` is over: these rows, and whether it was interrupted.
    Finish { rows: Vec<PerMember<RemovedMember>>, interrupted: bool },
}

/// An `rm` in progress on the plane `plane`.
pub struct RemoveProgress {
    plane: String,
    at: RemoveAt,
    interrupted: bool,
    rows: Vec<PerMember<RemovedMember>>,
}

/// Whether `event` is an answer to the step at `at`.
pub open spec fn answers_remove(at: RemoveAt, event: DestroyEvent) -> bool {
    match at {
        RemoveAt::Start => event is Done,
        RemoveAt::Locking | RemoveAt::Checking | RemoveAt::Rewriting => event is Done || event is Failed,
        RemoveAt::TakingOut => event is TakenOut,
        RemoveAt::Over => false,
    }
}

impl RemoveProgress {
    /// The plane file is rewritten only once no member failed to come out.
    #[verifier::type_invariant]
    spec fn rewrite_after_every_member(self) -> bool {
        self.at is Rewriting ==> !some_failed(self.rows@)
    }

    /// The step last asked for.
    pub closed spec fn at(&self) -> RemoveAt {
        self.at
    }

    /// The plane's id.
    pub closed spec fn plane(&self) -> Seq<char> {
        self.plane@
    }

    /// The rows kept for the answer.
    pub closed spec fn rows(&self) -> Seq<PerMember<RemovedMember>> {
        self.rows@
    }

    /// Whether the run was interrupted.
    pub closed spec fn interrupted(&self) -> bool {
        self.interrupted
    }

    /// An `rm` on the plane `plane`, about to start.
    pub fn new(plane: &str) -> (p: RemoveProgress)
        ensures
            p.at() == RemoveAt::Start,
            p.plane() == plane@,
    {
        RemoveProgress { plane: owned(plane), at: RemoveAt::Start, interrupted: false, rows: Vec::new() }
    }

    /// The rows of the members taken out, for the rewrite to go by.
    pub fn taken_out(&self) -> (rows: &Vec<PerMember<RemovedMember>>)
        ensures
            rows@ == self.rows(),
    {
        &self.rows
    }

    /// The step last asked for.
    pub fn current(&self) -> (at: RemoveAt)
        ensures
            at == self.at(),
    {
        self.at
    }
}

/// What an `rm` does next, given what came of the step last asked for.
pub fn remove_next(progress: &mut RemoveProgress, event: DestroyEvent) -> (step: RemoveStep)
    requires
        answers_remove(old(progress).at(), event),
    ensures
        final(progress).plane() == old(progress).plane(),
        match step {
            RemoveStep::Take(at) => final(progress).at() == at,
            _ => final(progress).at() == RemoveAt::Over,
        },
        match (old(progress).at(), event) {
            (RemoveAt::Start, _) => step == RemoveStep::Take(RemoveAt::Locking),
            (RemoveAt::Locking, DestroyEvent::Done) => step == RemoveStep::Take(RemoveAt::Checking),
            (RemoveAt::Checking, DestroyEvent::Done) => step == RemoveStep::Take(RemoveAt::TakingOut),
            (RemoveAt::TakingOut, DestroyEvent::TakenOut { rows, interrupted }) => if some_failed(rows@) {
                step matches RemoveStep::Fail(EngineError::RemovalFailed { plane: p, operation: o, members })
                    && p@ == old(progress).plane() && o == Teardown::Remove && members == rows
            } else {
                step == RemoveStep::Take(RemoveAt::Rewriting) && final(progress).rows() == rows@
                    && final(progress).interrupted() == interrupted
            },
            (RemoveAt::Rewriting, DestroyEvent::Done) => step matches RemoveStep::Finish { rows, interrupted }
                && rows@ == old(progress).rows() && interrupted == old(progress).interrupted(),
            (_, DestroyEvent::Failed(e)) => step == RemoveStep::Fail(e),
            _ => false,
        },
        step == RemoveStep::Take(RemoveAt::Rewriting) ==> old(progress).at() == RemoveAt::TakingOut
            && (event matches DestroyEvent::TakenOut { rows, interrupted } && !some_failed(rows@)),
{
    proof {
        use_type_invariant(&*progress);
    }
    let at = progress.at;
    match event {
        DestroyEvent::Done => {
            if at == RemoveAt::Start {
                progress.at = RemoveAt::Locking;
                RemoveStep::Take(RemoveAt::Locking)
            } else if at == RemoveAt::Locking {
                progress.at = RemoveAt::Checking;
                RemoveStep::Take(RemoveAt::Checking)
            } else if at == RemoveAt::Checking {
                progress.at = RemoveAt::TakingOut;
                RemoveStep::Take(RemoveAt::TakingOut)
            } else {
                progress.at = RemoveAt::Over;
                let mut rows = Vec::new();
                std::mem::swap(&mut rows, &mut progress.rows);
                RemoveStep::Finish { rows, interrupted: progress.interrupted }
            }
        },
        DestroyEvent::Failed(e) => {
            progress.at = RemoveAt::Over;
            RemoveStep::Fail(e)
        },
        DestroyEvent::TakenOut { rows, interrupted } => {
            match settled(progress.plane.as_str(), Teardown::Remove, rows) {
                Err(e) => {
                    progress.at = RemoveAt::Over;
                    RemoveStep::Fail(e)
                },
                Ok(rows) => {
                    progress.rows = rows;
                    progress.interrupted = interrupted;
                    progress.at = RemoveAt::Rewriting;
                    RemoveStep::Take(RemoveAt::Rewriting)
                },
            }
        },
    }
}


/// Whether a member's contents are weighed: only where the teardown asks
/// for it and its directory is there to weigh.
pub fn weighs(asked: bool, directory: bool) -> (r: bool)
    ensures
        r == (asked && directory),
{
    asked && directory
}

/// What git and the filesystem said of one member, as an inspection.
/// `entry` is git's record of a worktree at its path, `on_disk` whether
/// anything is there, and `weighed` its contents and, where its branch has
/// a tip at all, whether that tip is on the forge. Nothing recorded and
/// nothing on disk is a member an earlier run took out; an unborn branch
/// has nothing on the forge.
pub fn inspection(entry: Option<WorktreeEntry>, on_disk: bool, weighed: Option<(WorkingTree, Option<bool>)>) -> (r:
    Inspection)
    ensures
        (entry is None && !on_disk) ==> r == Inspection::Gone,
        !(entry is None && !on_disk) ==> r == (Inspection::Seen {
            registered: entry is Some,
            branch: match entry {
                Some(e) => e.branch,
                None => None,
            },
            locked: match entry {
                Some(e) => e.locked,
                None => None,
            },
            state: match weighed {
                Some(w) => Some(w.0),
                None => None,
            },
            contained: match weighed {
                Some(w) => Some(w.1 == Some(true)),
                None => None,
            },
        }),
{
    if entry.is_none() && !on_disk {
        return Inspection::Gone;
    }
    let registered = entry.is_some();
    let (branch, locked) = match entry {
        Some(e) => (e.branch, e.locked),
        None => (None, None),
    };
    let (state, contained) = match weighed {
        Some((tree, on_origin)) => (Some(tree), Some(
            match on_origin {
                Some(true) => true,
                _ => false,
            },
        )),
        None => (None, None),
    };
    Inspection::Seen { registered, branch, locked, state, contained }
}

/// What a teardown makes of asking about one member: a source repo that is
/// gone, or a git that would not answer, is a third answer rather than a
/// failure, so one broken member cannot make a plane nothing takes apart.
/// `asked` is what asking gave, none where the source repo was not there
/// to ask.
pub fn looked_at(member: &MemberRef, asked: Option<Result<Inspection, EngineError>>) -> (r: Result<Inspection, EngineError>)
    ensures
        match asked {
            None => r matches Ok(Inspection::Unreachable(why)) && why@ == "the source repo is missing from "@
                + member_text(*member),
            Some(Err(EngineError::GitFailed { message })) => r == Ok::<Inspection, EngineError>(
                Inspection::Unreachable(message),
            ),
            Some(other) => r == other,
        },
{
    match asked {
        None => {
            let mut why = owned("the source repo is missing from ");
            let text = member.to_text();
            push_str(&mut why, text.as_str());
            proof {
                reveal_strlit("the source repo is missing from ");
            }
            Ok(Inspection::Unreachable(why))
        },
        Some(Err(EngineError::GitFailed { message })) => Ok(Inspection::Unreachable(message)),
        Some(other) => other,
    }
}


/// The words a member's work is named by: its branch, or "the worktree"
/// where it is on none.
pub open spec fn subject_words(branch: Option<String>) -> Seq<char> {
    match branch {
        Some(b) => b@,
        None => "the worktree"@,
    }
}

/// Every kind of work a member holds is raised, each whatever the others
/// are: uncommitted changes, untracked files, commits not on origin, git's
/// own lock, and a source repo that could not be asked; a member an earlier
/// run took out raises nothing.
pub proof fn every_kind_of_work_is_raised(seen: Inspection)
    ensures
        seen is Gone ==> raised(seen).len() == 0,
        seen matches Inspection::Unreachable(why) ==> raised(seen).contains((Reason::SourceRepoMissing, why@)),
        seen matches Inspection::Seen { branch, state: Some(s), .. } ==> (s.uncommitted ==> raised(seen).contains(
            (Reason::Uncommitted, subject_words(branch) + " has uncommitted changes"@),
        )),
        seen matches Inspection::Seen { branch, state: Some(s), .. } ==> (s.untracked ==> raised(seen).contains(
            (Reason::Untracked, subject_words(branch) + " has untracked files"@),
        )),
        seen matches Inspection::Seen { branch, contained: Some(false), .. } ==> raised(seen).contains(
            (Reason::Unpushed, subject_words(branch) + " has commits that are not on origin"@),
        ),
        seen matches Inspection::Seen { locked: Some(l), .. } ==> raised(seen).contains(
            (Reason::LockedWorktree, lock_detail(l)),
        ),
{
    match seen {
        Inspection::Unreachable(why) => {
            assert(raised(seen)[0] == (Reason::SourceRepoMissing, why@));
        },
        Inspection::Seen { branch, locked, state, contained, .. } => {
            let subject = subject_words(branch);
            let lock = match locked {
                Some(l) => seq![(Reason::LockedWorktree, lock_detail(l))],
                None => Seq::<(Reason, Seq<char>)>::empty(),
            };
            let first = match state {
                Some(s) => if s.uncommitted {
                    seq![(Reason::Uncommitted, subject + " has uncommitted changes"@)]
                } else {
                    Seq::empty()
                },
                None => Seq::empty(),
            };
            let second = match state {
                Some(s) => if s.untracked {
                    seq![(Reason::Untracked, subject + " has untracked files"@)]
                } else {
                    Seq::empty()
                },
                None => Seq::empty(),
            };
            let contents = match state {
                Some(s) => first + second,
                None => Seq::empty(),
            };
            let unpushed = if contained == Some(false) {
                seq![(Reason::Unpushed, subject + " has commits that are not on origin"@)]
            } else {
                Seq::<(Reason, Seq<char>)>::empty()
            };
            let all = raised(seen);
            assert(all =~= lock + contents + unpushed);
            if locked is Some {
                assert(all[0] == lock[0]);
            }
            if state matches Some(s) && s.uncommitted {
                assert(all[lock.len() as int] == first[0]);
            }
            if state matches Some(s) && s.untracked {
                assert(all[(lock.len() + first.len()) as int] == second[0]);
            }
            if contained == Some(false) {
                assert(all[(lock.len() + contents.len()) as int] == unpushed[0]);
            }
        },
        Inspection::Gone => {},
    }
}

/// A teardown is refused while any member holds work of any kind that no
/// waiver covers: uncommitted changes, untracked files, commits not on
/// origin, or a lock, whatever else the member holds.
pub proof fn unwaived_work_of_any_kind_is_refused(checked: Seq<Checked>, granted: Seq<Reason>, i: int)
    requires
        0 <= i < checked.len(),
        checked[i].seen matches Inspection::Seen { state, contained, locked, .. } && (
        (state matches Some(s) && s.uncommitted && !granted.contains(Reason::Uncommitted))
            || (state matches Some(s) && s.untracked && !granted.contains(Reason::Untracked))
            || (contained == Some(false) && !granted.contains(Reason::Unpushed))
            || (locked is Some && !granted.contains(Reason::LockedWorktree))),
    ensures
        surviving(refusals_of(checked), granted).len() > 0,
{
    let seen = checked[i].seen;
    every_kind_of_work_is_raised(seen);
    let rs = raised(seen);
    let wanted: (Reason, Seq<char>) = match seen {
        Inspection::Seen { branch, state, contained, locked, .. } => {
            if state matches Some(s) && s.uncommitted && !granted.contains(Reason::Uncommitted) {
                (Reason::Uncommitted, subject_words(branch) + " has uncommitted changes"@)
            } else if state matches Some(s) && s.untracked && !granted.contains(Reason::Untracked) {
                (Reason::Untracked, subject_words(branch) + " has untracked files"@)
            } else if contained == Some(false) && !granted.contains(Reason::Unpushed) {
                (Reason::Unpushed, subject_words(branch) + " has commits that are not on origin"@)
            } else {
                (Reason::LockedWorktree, lock_detail(locked->0))
            }
        },
        _ => (Reason::Uncommitted, Seq::empty()),
    };
    assert(rs.contains(wanted));
    let k = choose|k: int| 0 <= k < rs.len() && rs[k] == wanted;
    lemma_raised_is_refused(checked, i, k);
    let x = (ref_view(checked[i].member.source), rs[k].0, rs[k].1);
    a_waiver_covers_only_its_own_reason(refusals_of(checked), granted);
    assert(surviving(refusals_of(checked), granted).contains(x));
}

/// Whether `path` is the path of a member whose row says it came out, in
/// this run or an earlier one.
pub open spec fn came_out(rows: Seq<PerMember<RemovedMember>>, checked: Seq<Checked>, path: Seq<char>) -> bool {
    came_out_before(rows, checked, rows.len() as int, path)
}

/// The same, among the first `n` rows.
pub open spec fn came_out_before(rows: Seq<PerMember<RemovedMember>>, checked: Seq<Checked>, n: int, path: Seq<char>) -> bool {
    exists|i: int|
        0 <= i < n && (rows[i].outcome is Completed || rows[i].outcome is AlreadyDone) && checked[i].member.path@
            == path
}

/// `rm` drops from the plane file exactly the members that came out, in
/// this run or an earlier one: every member whose row is completed or
/// already done is among the paths gone, and every path gone is the path
/// of such a member.
pub proof fn a_member_already_out_is_dropped_too(rows: Seq<PerMember<RemovedMember>>, checked: Seq<Checked>)
    requires
        rows.len() == checked.len(),
    ensures
        forall|i: int|
            0 <= i < rows.len() && (rows[i].outcome is Completed || rows[i].outcome is AlreadyDone)
                ==> #[trigger] paths_gone(rows, checked).contains(checked[i].member.path@),
        forall|k: int|
            0 <= k < paths_gone(rows, checked).len() ==> #[trigger] came_out(rows, checked, paths_gone(rows, checked)[k]),
{
    lemma_paths_gone_upto(rows, checked, rows.len() as int);
    assert(paths_gone(rows, checked) == paths_gone_upto(rows, checked, rows.len() as int));
}

proof fn lemma_paths_gone_upto(rows: Seq<PerMember<RemovedMember>>, checked: Seq<Checked>, n: int)
    requires
        rows.len() == checked.len(),
        0 <= n <= rows.len(),
    ensures
        forall|i: int|
            0 <= i < n && (rows[i].outcome is Completed || rows[i].outcome is AlreadyDone)
                ==> #[trigger] paths_gone_upto(rows, checked, n).contains(checked[i].member.path@),
        forall|k: int|
            0 <= k < paths_gone_upto(rows, checked, n).len() ==> #[trigger] came_out_before(
                rows,
                checked,
                n,
                paths_gone_upto(rows, checked, n)[k],
            ),
    decreases n,
{
    if n > 0 {
        lemma_paths_gone_upto(rows, checked, n - 1);
        let before = paths_gone_upto(rows, checked, n - 1);
        let after = paths_gone_upto(rows, checked, n);
        assert(after == if took_out(rows[n - 1]) {
            before.push(checked[n - 1].member.path@)
        } else {
            before
        });
        assert forall|i: int|
            0 <= i < n && (rows[i].outcome is Completed || rows[i].outcome is AlreadyDone)
                implies #[trigger] after.contains(checked[i].member.path@) by {
            if i < n - 1 {
                assert(before.contains(checked[i].member.path@));
                let j = choose|j: int| 0 <= j < before.len() && before[j] == checked[i].member.path@;
                if took_out(rows[n - 1]) {
                    assert(after[j] == before[j]);
                }
            } else {
                assert(after.last() == checked[i].member.path@);
            }
        }
        assert forall|k: int| 0 <= k < after.len() implies #[trigger] came_out_before(rows, checked, n, after[k]) by {
            if k < before.len() {
                if took_out(rows[n - 1]) {
                    assert(after[k] == before[k]);
                }
                assert(came_out_before(rows, checked, n - 1, before[k]));
                let i = choose|i: int|
                    0 <= i < n - 1 && (rows[i].outcome is Completed || rows[i].outcome is AlreadyDone)
                        && checked[i].member.path@ == before[k];
                assert(checked[i].member.path@ == after[k]);
                assert(0 <= i < n && (rows[i].outcome is Completed || rows[i].outcome is AlreadyDone)
                    && checked[i].member.path@ == after[k]);
            } else {
                assert(took_out(rows[n - 1]));
                assert(after[k] == checked[n - 1].member.path@);
                assert(0 <= n - 1 < n && (rows[n - 1].outcome is Completed || rows[n - 1].outcome is AlreadyDone)
                    && checked[n - 1].member.path@ == after[k]);
            }
        }
    }
}


/// Nothing is raised without the work it names: uncommitted changes only
/// where tracked files differ, untracked files only where there are some,
/// commits not on origin only where the tip is known not to be there, a
/// lock only where git holds one, and a missing source repo only where git
/// could not be asked.
pub proof fn nothing_is_raised_without_its_work(seen: Inspection, k: int)
    requires
        0 <= k < raised(seen).len(),
    ensures
        raised(seen)[k].0 == Reason::Uncommitted ==> (seen matches Inspection::Seen { state: Some(s), .. } && s.uncommitted),
        raised(seen)[k].0 == Reason::Untracked ==> (seen matches Inspection::Seen { state: Some(s), .. } && s.untracked),
        raised(seen)[k].0 == Reason::Unpushed ==> seen matches Inspection::Seen { contained: Some(false), .. },
        raised(seen)[k].0 == Reason::LockedWorktree ==> seen matches Inspection::Seen { locked: Some(_), .. },
        raised(seen)[k].0 == Reason::SourceRepoMissing ==> seen is Unreachable,
{
    match seen {
        Inspection::Seen { branch, locked, state, contained, .. } => {
            let subject = subject_words(branch);
            let lock = match locked {
                Some(l) => seq![(Reason::LockedWorktree, lock_detail(l))],
                None => Seq::<(Reason, Seq<char>)>::empty(),
            };
            let first = match state {
                Some(s) => if s.uncommitted {
                    seq![(Reason::Uncommitted, subject + " has uncommitted changes"@)]
                } else {
                    Seq::empty()
                },
                None => Seq::empty(),
            };
            let second = match state {
                Some(s) => if s.untracked {
                    seq![(Reason::Untracked, subject + " has untracked files"@)]
                } else {
                    Seq::empty()
                },
                None => Seq::empty(),
            };
            let contents = match state {
                Some(s) => first + second,
                None => Seq::empty(),
            };
            let unpushed = if contained == Some(false) {
                seq![(Reason::Unpushed, subject + " has commits that are not on origin"@)]
            } else {
                Seq::<(Reason, Seq<char>)>::empty()
            };
            assert(raised(seen) =~= lock + contents + unpushed);
            if k < lock.len() {
                assert(raised(seen)[k] == lock[k]);
            } else if k < lock.len() + first.len() {
                assert(raised(seen)[k] == first[k - lock.len()]);
            } else if k < lock.len() + contents.len() {
                assert(raised(seen)[k] == second[k - lock.len() - first.len()]);
            } else {
                assert(raised(seen)[k] == unpushed[k - lock.len() - contents.len()]);
            }
        },
        _ => {},
    }
}

} // verus!
