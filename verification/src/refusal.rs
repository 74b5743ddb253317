//! What `destroy` and `remove` decline to do, and the five things a user may
//! say they accept losing.
//!
//! Waivers are granted per reason and per invocation: there is no blanket
//! `--force`, nothing is stored, and nothing is inherited by a later command.

use vstd::prelude::*;
use crate::error::EngineError;
use crate::member::{ref_view, MemberRef};
use crate::text::{chars_of, join_pieces, joined, owned, push_str, same_chars, string_of, views};

verus! {

/// One reason bitplane declines to destroy something, and the waiver that
/// answers it. Declaration order is the order a remedy lists them in.
#[derive(Debug, Clone, Copy, PartialEq, Eq, PartialOrd, Ord, Hash, Structural)]
pub enum Reason {
    /// Tracked files differ from `HEAD`.
    Uncommitted,
    /// Files git does not track and no ignore rule covers.
    Untracked,
    /// The branch tip is not contained in any `refs/remotes/origin/*`.
    Unpushed,
    /// `git worktree lock`: someone said "do not remove this".
    LockedWorktree,
    /// The repo the worktree came from is not there, so nothing can be checked.
    SourceRepoMissing,
}

/// One member's reason, with the sentence it prints.
#[derive(Debug, Clone, PartialEq, Eq)]
pub struct Refusal {
    pub member: MemberRef,
    pub reason: Reason,
    /// The sentence this refusal prints, in bitplane's own words.
    pub detail: String,
}

/// The reasons this invocation accepts losing work over.
#[derive(Debug, Clone, PartialEq, Eq)]
pub struct Waivers {
    granted: Vec<Reason>,
}

/// Every reason, in the order a remedy lists them.
pub open spec fn all_reasons() -> Seq<Reason> {
    seq![
        Reason::Uncommitted,
        Reason::Untracked,
        Reason::Unpushed,
        Reason::LockedWorktree,
        Reason::SourceRepoMissing,
    ]
}

/// The tag, spelled exactly as `--waive` takes it and a refusal prints it.
pub open spec fn reason_tag(r: Reason) -> Seq<char> {
    match r {
        Reason::Uncommitted => "uncommitted"@,
        Reason::Untracked => "untracked"@,
        Reason::Unpushed => "unpushed"@,
        Reason::LockedWorktree => "locked_worktree"@,
        Reason::SourceRepoMissing => "source_repo_missing"@,
    }
}

/// The refusals that survive `granted`, in the order they were found.
pub open spec fn unwaived_of(granted: Seq<Reason>, refusals: Seq<Refusal>) -> Seq<Refusal>
    decreases refusals.len(),
{
    if refusals.len() == 0 {
        Seq::empty()
    } else {
        let r = unwaived_of(granted, refusals.drop_last());
        if granted.contains(refusals.last().reason) {
            r
        } else {
            r.push(refusals.last())
        }
    }
}

/// The `--waive <tag>` words for the reasons among `candidates` that some
/// refusal raised, in candidate order.
pub open spec fn flag_words(candidates: Seq<Reason>, raised: Seq<Reason>) -> Seq<Seq<char>>
    decreases candidates.len(),
{
    if candidates.len() == 0 {
        Seq::empty()
    } else {
        let r = flag_words(candidates.drop_last(), raised);
        if raised.contains(candidates.last()) {
            r.push("--waive "@ + reason_tag(candidates.last()))
        } else {
            r
        }
    }
}

/// The reasons a list of refusals raised.
pub open spec fn reasons_of(refusals: Seq<Refusal>) -> Seq<Reason> {
    Seq::new(refusals.len(), |i: int| refusals[i].reason)
}

/// `--waive a --waive b` for exactly the reasons raised, in table order.
pub open spec fn waive_line(raised: Seq<Reason>) -> Seq<char> {
    joined(flag_words(all_reasons(), raised), seq![' '])
}

/// What the refusals behind references are.
pub open spec fn derefs(v: Seq<&Refusal>) -> Seq<Refusal> {
    Seq::new(v.len(), |i: int| *v[i])
}

/// Whether `tag` names a reason.
pub open spec fn waivable(tag: Seq<char>) -> bool {
    tag == "uncommitted"@ || tag == "untracked"@ || tag == "unpushed"@ || tag == "locked_worktree"@
        || tag == "source_repo_missing"@
}

/// The message a `--waive` value that is not a reason is refused with.
pub open spec fn not_a_reason(tag: Seq<char>) -> Seq<char> {
    tag + " is not a reason that can be waived"@
}

impl Reason {
    /// The tag, spelled exactly as `--waive` takes it.
    pub fn tag(self) -> (s: &'static str)
        ensures
            s@ == reason_tag(self),
    {
        proof {
            reveal_strlit("uncommitted");
            reveal_strlit("untracked");
            reveal_strlit("unpushed");
            reveal_strlit("locked_worktree");
            reveal_strlit("source_repo_missing");
        }
        match self {
            Reason::Uncommitted => "uncommitted",
            Reason::Untracked => "untracked",
            Reason::Unpushed => "unpushed",
            Reason::LockedWorktree => "locked_worktree",
            Reason::SourceRepoMissing => "source_repo_missing",
        }
    }

    /// Every reason, in the order a remedy lists them.
    pub fn all() -> (v: Vec<Reason>)
        ensures
            v@ == all_reasons(),
    {
        let v = vec![
            Reason::Uncommitted,
            Reason::Untracked,
            Reason::Unpushed,
            Reason::LockedWorktree,
            Reason::SourceRepoMissing,
        ];
        assert(v@ =~= all_reasons());
        v
    }

    /// Reads a `--waive` value.
    pub fn parse(tag: &str) -> (r: Result<Reason, EngineError>)
        ensures
            r matches Ok(reason) ==> reason_tag(reason) == tag@,
            r is Err <==> !waivable(tag@),
            r matches Err(e) ==> (e matches EngineError::InvalidRequest { message: m } && m@ == not_a_reason(tag@)),
    {
        let wanted = chars_of(tag);
        let all = Reason::all();
        let mut i: usize = 0;
        while i < all.len()
            invariant
                all@ == all_reasons(),
                i <= all@.len(),
                wanted@ == tag@,
                forall|j: int| 0 <= j < i ==> reason_tag(all_reasons()[j]) != tag@,
            decreases all.len() - i,
        {
            let reason = all[i];
            let spelled = chars_of(reason.tag());
            if same_chars(spelled.as_slice(), wanted.as_slice()) {
                return Ok(reason);
            }
            i = i + 1;
        }
        proof {
            assert(reason_tag(all_reasons()[0]) != tag@);
            assert(reason_tag(all_reasons()[1]) != tag@);
            assert(reason_tag(all_reasons()[2]) != tag@);
            assert(reason_tag(all_reasons()[3]) != tag@);
            assert(reason_tag(all_reasons()[4]) != tag@);
        }
        let mut message = owned(tag);
        push_str(&mut message, " is not a reason that can be waived");
        Err(EngineError::InvalidRequest { message })
    }
}

impl Refusal {
    pub fn new(member: MemberRef, reason: Reason, detail: &str) -> (r: Refusal)
        ensures
            r.member == member,
            r.reason == reason,
            r.detail@ == detail@,
    {
        Refusal { member, reason, detail: owned(detail) }
    }

    /// A copy of this refusal.
    pub fn duplicate(&self) -> (r: Refusal)
        ensures
            refusal_view(r) == refusal_view(*self),
    {
        Refusal { member: self.member.duplicate(), reason: self.reason, detail: self.detail.clone() }
    }
}

/// A refusal as data: whose, why, and the sentence.
pub open spec fn refusal_view(r: Refusal) -> ((bool, Seq<char>), Reason, Seq<char>) {
    (ref_view(r.member), r.reason, r.detail@)
}

impl Waivers {
    /// The reasons granted, in the order they were written.
    pub closed spec fn granted(&self) -> Seq<Reason> {
        self.granted@
    }

    /// Reads the `--waive` values as written; the first that is not a reason
    /// refuses the lot.
    pub fn parse(tags: &[String]) -> (r: Result<Waivers, EngineError>)
        ensures
            r matches Ok(w) ==> w.granted().len() == tags@.len() && forall|i: int|
                0 <= i < tags@.len() ==> reason_tag(#[trigger] w.granted()[i]) == tags@[i]@,
            r is Err <==> exists|i: int| 0 <= i < tags@.len() && !waivable(#[trigger] tags@[i]@),
            r matches Err(e) ==> exists|i: int|
                0 <= i < tags@.len() && !waivable(#[trigger] tags@[i]@) && (forall|j: int|
                    0 <= j < i ==> waivable(#[trigger] tags@[j]@)) && (e matches EngineError::InvalidRequest {
                    message: m,
                } && m@ == not_a_reason(tags@[i]@)),
    {
        let mut granted: Vec<Reason> = Vec::new();
        let mut i: usize = 0;
        while i < tags.len()
            invariant
                i <= tags@.len(),
                granted@.len() == i,
                forall|j: int| 0 <= j < i ==> reason_tag(#[trigger] granted@[j]) == tags@[j]@,
                forall|j: int| 0 <= j < i ==> waivable(#[trigger] tags@[j]@),
            decreases tags.len() - i,
        {
            match Reason::parse(tags[i].as_str()) {
                Ok(reason) => {
                    proof {
                        match reason {
                            Reason::Uncommitted => {},
                            Reason::Untracked => {},
                            Reason::Unpushed => {},
                            Reason::LockedWorktree => {},
                            Reason::SourceRepoMissing => {},
                        }
                    }
                    granted.push(reason);
                },
                Err(e) => {
                    assert(!waivable(tags@[i as int]@));
                    return Err(e);
                },
            }
            i = i + 1;
        }
        Ok(Waivers { granted })
    }

    pub fn new(granted: Vec<Reason>) -> (w: Waivers)
        ensures
            w.granted() == granted@,
    {
        Waivers { granted }
    }

    /// Whether this reason was waived. Waiving one that was never raised is
    /// not an error.
    pub fn covers(&self, reason: Reason) -> (r: bool)
        ensures
            r == self.granted().contains(reason),
    {
        let mut i: usize = 0;
        while i < self.granted.len()
            invariant
                i <= self.granted@.len(),
                forall|j: int| 0 <= j < i ==> self.granted@[j] != reason,
            decreases self.granted.len() - i,
        {
            if self.granted[i] == reason {
                assert(self.granted@[i as int] == reason);
                return true;
            }
            i = i + 1;
        }
        false
    }

    /// The refusals that survive these waivers, in the order they were found.
    pub fn unwaived<'a>(&self, refusals: &'a [Refusal]) -> (r: Vec<&'a Refusal>)
        ensures
            derefs(r@) == unwaived_of(self.granted(), refusals@),
    {
        let mut r: Vec<&'a Refusal> = Vec::new();
        let mut i: usize = 0;
        while i < refusals.len()
            invariant
                i <= refusals@.len(),
                derefs(r@) == unwaived_of(self.granted@, refusals@.subrange(0, i as int)),
            decreases refusals.len() - i,
        {
            let ghost upto = refusals@.subrange(0, i as int + 1);
            assert(upto.drop_last() =~= refusals@.subrange(0, i as int));
            if !self.covers(refusals[i].reason) {
                r.push(&refusals[i]);
            }
            assert(derefs(r@) =~= unwaived_of(self.granted@, upto));
            i = i + 1;
        }
        assert(refusals@.subrange(0, refusals@.len() as int) =~= refusals@);
        r
    }
}

impl Waivers {
    /// No reason waived.
    pub fn none() -> (w: Waivers)
        ensures
            w.granted() == Seq::<Reason>::empty(),
    {
        Waivers { granted: Vec::new() }
    }
}

impl Default for Waivers {
    fn default() -> (w: Waivers)
        ensures
            w.granted() == Seq::<Reason>::empty(),
    {
        Waivers::none()
    }
}

/// `--waive a --waive b`, for a remedy the user can paste: exactly the
/// reasons that were raised, in table order, and never one that did not come
/// up.
pub fn waive_flags(refusals: &[&Refusal]) -> (s: String)
    ensures
        s@ == waive_line(reasons_of(derefs(refusals@))),
{
    let ghost raised = reasons_of(derefs(refusals@));
    let all = Reason::all();
    let mut words: Vec<Vec<char>> = Vec::new();
    let mut i: usize = 0;
    while i < all.len()
        invariant
            all@ == all_reasons(),
            i <= all@.len(),
            raised == reasons_of(derefs(refusals@)),
            views(words@) == flag_words(all_reasons().subrange(0, i as int), raised),
        decreases all.len() - i,
    {
        let reason = all[i];
        let mut found = false;
        let mut k: usize = 0;
        while k < refusals.len()
            invariant
                k <= refusals@.len(),
                raised == reasons_of(derefs(refusals@)),
                found == raised.subrange(0, k as int).contains(reason),
            decreases refusals.len() - k,
        {
            if refusals[k].reason == reason {
                found = true;
            }
            proof {
                let s = raised.subrange(0, k as int + 1);
                assert(s.drop_last() =~= raised.subrange(0, k as int));
                if s.contains(reason) && !raised.subrange(0, k as int).contains(reason) {
                    let w = choose|w: int| 0 <= w < s.len() && s[w] == reason;
                    assert(w == k);
                }
                if raised.subrange(0, k as int).contains(reason) {
                    let w = choose|w: int| 0 <= w < k && raised.subrange(0, k as int)[w] == reason;
                    assert(s[w] == reason);
                }
                if refusals@[k as int].reason == reason {
                    assert(s[k as int] == reason);
                }
            }
            k = k + 1;
        }
        assert(raised.subrange(0, refusals@.len() as int) =~= raised);
        let ghost upto = all_reasons().subrange(0, i as int + 1);
        assert(upto.drop_last() =~= all_reasons().subrange(0, i as int));
        if found {
            let mut word: Vec<char> = chars_of("--waive ");
            let tag = chars_of(reason.tag());
            proof {
                reveal_strlit("--waive ");
            }
            let mut t: usize = 0;
            let ghost start = word@;
            while t < tag.len()
                invariant
                    t <= tag@.len(),
                    word@ == start + tag@.subrange(0, t as int),
                decreases tag.len() - t,
            {
                word.push(tag[t]);
                t = t + 1;
                assert(word@ =~= start + tag@.subrange(0, t as int));
            }
            assert(tag@.subrange(0, tag@.len() as int) =~= tag@);
            words.push(word);
        }
        assert(views(words@) =~= flag_words(upto, raised));
        i = i + 1;
    }
    assert(all_reasons().subrange(0, 5) =~= all_reasons());
    let space: Vec<char> = vec![' '];
    assert(space@ =~= seq![' ']);
    let line = join_pieces(words.as_slice(), space.as_slice());
    string_of(line.as_slice())
}

/// Waiving a reason that was not raised is not an error and changes
/// nothing: the same refusals survive.
pub proof fn waiving_what_was_not_raised_changes_nothing(granted: Seq<Reason>, extra: Reason, refusals: Seq<Refusal>)
    requires
        forall|i: int| 0 <= i < refusals.len() ==> #[trigger] refusals[i].reason != extra,
    ensures
        unwaived_of(granted.push(extra), refusals) == unwaived_of(granted, refusals),
    decreases refusals.len(),
{
    if refusals.len() > 0 {
        let rest = refusals.drop_last();
        assert forall|i: int| 0 <= i < rest.len() implies #[trigger] rest[i].reason != extra by {
            assert(rest[i] == refusals[i]);
        }
        waiving_what_was_not_raised_changes_nothing(granted, extra, rest);
        let r = refusals.last().reason;
        assert(refusals[refusals.len() - 1].reason != extra);
        if granted.push(extra).contains(r) {
            let k = choose|k: int| 0 <= k < granted.push(extra).len() && granted.push(extra)[k] == r;
            assert(k < granted.len());
            assert(granted[k] == r);
        }
        if granted.contains(r) {
            let k = choose|k: int| 0 <= k < granted.len() && granted[k] == r;
            assert(granted.push(extra)[k] == r);
        }
    }
}

} // verus!
