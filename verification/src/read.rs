//! The decisions behind `plane_list`, `plane_show` and `plane_status`.
//!
//! None of the reads takes a lock, writes a file or repairs anything. What
//! they look at (which directories exist, when a latch was made, what git
//! records) is gathered by the caller; what they conclude from it is here:
//! which directory an id names, and which findings a health scan reports.

use vstd::prelude::*;
use crate::error::EngineError;
use crate::health::{finding_view, finding_views, Finding, FindingView, HealthCheck, PlaneHealth};
use crate::member::ref_view;
use crate::member::WorktreePath;
use crate::plane_file::{Member, PlaneFile};
use crate::source::{kept, kept_segments};
use crate::text::{chars_of, copy_string, join_path, path_join, same_chars, split, split_on, string_of, views};

verus! {

/// The single path segment `id` is, where it is exactly one: not empty, not
/// absolute, not `.` or `..`, and no separator between two names. `.`
/// segments after the first and trailing separators do not count, as
/// `Path::components` has it.
pub open spec fn single_component(id: Seq<char>) -> Option<Seq<char>> {
    let pieces = split(id, '/');
    let names = kept_segments(pieces);
    if id.len() == 0 || id[0] == '/' || pieces[0] == seq!['.'] || names.len() != 1 || names[0]
        == seq!['.', '.'] {
        None
    } else {
        Some(names[0])
    }
}

/// The directory a plane id names, under the (resolved) planes directory.
///
/// The id is not held to the plane id grammar: a directory made by hand is
/// still reachable by its name. What is refused is an id that is not a
/// single path segment, which would aim every later command outside the
/// planes directory.
pub fn named(planes: &str, id: &str) -> (r: Result<String, EngineError>)
    ensures
        match single_component(id@) {
            Some(name) => r matches Ok(d) && d@ == path_join(planes@, name),
            None => r matches Err(EngineError::InvalidPlaneId { id: x }) && x@ == id@,
        },
{
    let v = chars_of(id);
    let pieces = split_on(v.as_slice(), '/');
    proof {
        crate::text::lemma_split_nonempty(v@, '/');
    }
    let names = kept(&pieces);
    let dot: Vec<char> = vec!['.'];
    let dots: Vec<char> = vec!['.', '.'];
    assert(dot@ =~= seq!['.']);
    assert(dots@ =~= seq!['.', '.']);
    assert(pieces@[0]@ == views(pieces@)[0]);
    let refused = v.len() == 0 || v[0] == '/' || same_chars(pieces[0].as_slice(), dot.as_slice())
        || names.len() != 1 || same_chars(names[0].as_slice(), dots.as_slice());
    if refused {
        return Err(EngineError::InvalidPlaneId { id: string_of(v.as_slice()) });
    }
    assert(names@[0]@ == views(names@)[0]);
    let name = string_of(names[0].as_slice());
    Ok(join_path(planes, name.as_str()))
}

/// The incomplete latch, dated as the filesystem dates it.
pub struct Latch {
    /// When the claim was made.
    pub started: String,
    /// How long ago that was, where the clock could say.
    pub ago: Option<String>,
}

/// What the filesystem, and for the full tier git, say about one member.
pub struct MemberFacts {
    /// Whether the member's worktree directory is there.
    pub worktree_present: bool,
    /// The repository the member is a worktree of.
    pub source: String,
    /// Whether that repository is there.
    pub source_present: bool,
    /// Whether git records the worktree as prunable. Only read at the full
    /// tier, and only where the repository is there.
    pub prunable: bool,
}

/// One worktree as `git worktree list` records it.
pub struct RecordedWorktree {
    /// Where git says it is, resolved.
    pub path: String,
    /// Whether git calls it prunable.
    pub prunable: bool,
}

/// The latch, as data.
pub open spec fn latch_view(l: Option<Latch>) -> Option<(Seq<char>, Option<Seq<char>>)> {
    match l {
        Some(x) => Some(
            (
                x.started@,
                match x.ago {
                    Some(a) => Some(a@),
                    None => None,
                },
            ),
        ),
        None => None,
    }
}

/// The findings about the plane itself: the recorded id against the
/// directory's name, then the latch.
pub open spec fn plane_findings(
    recorded: Seq<char>,
    name: Seq<char>,
    latch: Option<(Seq<char>, Option<Seq<char>>)>,
) -> Seq<FindingView> {
    let first = if recorded != name {
        seq![FindingView::IdMismatch { recorded, directory: name }]
    } else {
        Seq::empty()
    };
    match latch {
        Some((started, ago)) => first.push(
            FindingView::NeverCompleted { plane: name, started: Some(started), ago },
        ),
        None => first,
    }
}

/// The findings about one member: its worktree, then its repository, then,
/// at the full tier and only where the repository is there, git's record.
pub open spec fn member_findings(m: Member, f: MemberFacts, full: bool) -> Seq<FindingView> {
    let first = if !f.worktree_present {
        seq![FindingView::WorktreeMissing { member: ref_view(m.source), path: m.path@ }]
    } else {
        Seq::empty()
    };
    if !f.source_present {
        first.push(FindingView::SourceMissing { member: ref_view(m.source), source: f.source@ })
    } else if full && f.prunable {
        first.push(FindingView::Prunable { member: ref_view(m.source), path: m.path@ })
    } else {
        first
    }
}

/// The findings about every member, in plane file order.
pub open spec fn members_findings(ms: Seq<Member>, fs: Seq<MemberFacts>, full: bool) -> Seq<FindingView>
    decreases ms.len(),
{
    if ms.len() == 0 {
        Seq::empty()
    } else {
        members_findings(ms.drop_last(), fs.subrange(0, ms.len() - 1), full) + member_findings(
            ms.last(),
            fs[ms.len() - 1],
            full,
        )
    }
}

/// What a scan at tier `check` finds: nothing looked for at the lowest tier;
/// otherwise the plane's own findings, then the members' in order.
pub open spec fn examined(
    file: PlaneFile,
    name: Seq<char>,
    check: HealthCheck,
    latch: Option<Latch>,
    facts: Seq<MemberFacts>,
) -> Seq<FindingView> {
    if check is Nothing {
        Seq::empty()
    } else {
        plane_findings(file.id@, name, latch_view(latch)) + members_findings(
            file.members@,
            facts,
            check is Full,
        )
    }
}

proof fn lemma_members_step(ms: Seq<Member>, fs: Seq<MemberFacts>, full: bool, i: int)
    requires
        0 <= i < ms.len(),
        ms.len() == fs.len(),
    ensures
        members_findings(ms.subrange(0, i + 1), fs.subrange(0, i + 1), full) == members_findings(
            ms.subrange(0, i),
            fs.subrange(0, i),
            full,
        ) + member_findings(ms[i], fs[i], full),
{
    let a = ms.subrange(0, i + 1);
    assert(a.drop_last() =~= ms.subrange(0, i));
    assert(fs.subrange(0, i + 1).subrange(0, i) =~= fs.subrange(0, i));
}

/// `v` with `f` pushed, as data.
proof fn lemma_push_view(v: Seq<Finding>, f: Finding)
    ensures
        finding_views(v.push(f)) == finding_views(v).push(finding_view(f)),
{
    assert(finding_views(v.push(f)) =~= finding_views(v).push(finding_view(f)));
}

/// Whether two texts are the same.
fn same_text(a: &str, b: &str) -> (r: bool)
    ensures
        r == (a@ == b@),
{
    let x = chars_of(a);
    let y = chars_of(b);
    same_chars(x.as_slice(), y.as_slice())
}

/// The health scan of one plane, from what was gathered about it.
///
/// `name` is the plane directory's name, which is the plane's identity;
/// `facts` holds one entry per member, in plane file order. Findings about
/// the plane come first, then one pass over the members; a member whose
/// repository is gone is not asked about further.
pub fn examine(
    file: &PlaneFile,
    name: &str,
    check: HealthCheck,
    latch: Option<Latch>,
    facts: &Vec<MemberFacts>,
) -> (h: PlaneHealth)
    requires
        facts@.len() == file.members@.len(),
    ensures
        h.checked == check,
        finding_views(h.findings@) == examined(*file, name@, check, latch, facts@),
{
    if check == HealthCheck::Nothing {
        let h = PlaneHealth::sound(check);
        assert(finding_views(h.findings@) =~= Seq::<FindingView>::empty());
        return h;
    }
    let ghost lv = latch_view(latch);
    let mut findings: Vec<Finding> = Vec::new();
    assert(finding_views(findings@) =~= Seq::<FindingView>::empty());
    if !same_text(file.id.as_str(), name) {
        let f = Finding::IdMismatch { recorded: file.id.clone(), directory: crate::text::owned(name) };
        proof {
            lemma_push_view(findings@, f);
        }
        findings.push(f);
    }
    match latch {
        Some(l) => {
            let f = Finding::CreateNeverCompleted {
                plane: crate::text::owned(name),
                started: Some(l.started),
                ago: l.ago,
            };
            proof {
                lemma_push_view(findings@, f);
            }
            findings.push(f);
        },
        None => {},
    }
    let ghost front = finding_views(findings@);
    assert(front == plane_findings(file.id@, name@, lv));
    let full = check == HealthCheck::Full;
    let n = file.members.len();
    let mut i: usize = 0;
    assert(file.members@.subrange(0, 0) =~= Seq::<Member>::empty());
    assert(front + Seq::<FindingView>::empty() =~= front);
    while i < n
        invariant
            i <= n,
            n == file.members@.len(),
            facts@.len() == n,
            full == (check is Full),
            finding_views(findings@) == front + members_findings(
                file.members@.subrange(0, i as int),
                facts@.subrange(0, i as int),
                full,
            ),
        decreases n - i,
    {
        let ghost before = finding_views(findings@);
        let m = &file.members[i];
        let fact = &facts[i];
        if !fact.worktree_present {
            let f = Finding::MemberWorktreeMissing { member: m.source.duplicate(), path: m.path.duplicate() };
            proof {
                lemma_push_view(findings@, f);
            }
            findings.push(f);
        }
        if !fact.source_present {
            let f = Finding::SourceRepoMissing { member: m.source.duplicate(), source: copy_string(&fact.source) };
            proof {
                lemma_push_view(findings@, f);
            }
            findings.push(f);
        } else if full && fact.prunable {
            let f = Finding::Prunable { member: m.source.duplicate(), path: m.path.duplicate() };
            proof {
                lemma_push_view(findings@, f);
            }
            findings.push(f);
        }
        proof {
            lemma_members_step(file.members@, facts@, full, i as int);
            let one = member_findings(file.members@[i as int], facts@[i as int], full);
            assert(finding_views(findings@) =~= before + one);
            assert(front + members_findings(
                file.members@.subrange(0, i as int + 1),
                facts@.subrange(0, i as int + 1),
                full,
            ) =~= before + one);
        }
        i = i + 1;
    }
    assert(file.members@.subrange(0, n as int) =~= file.members@);
    assert(facts@.subrange(0, n as int) =~= facts@);
    PlaneHealth { checked: check, findings }
}

/// What a plane whose file will not parse reports: one finding at every
/// tier, the lowest included, because it is the read's own answer rather
/// than a health check.
pub fn unreadable(checked: HealthCheck, error: EngineError) -> (h: PlaneHealth)
    ensures
        h.checked == checked,
        h.findings@.len() == 1,
        h.findings@[0] == (Finding::Unreadable { error }),
{
    PlaneHealth { checked, findings: vec![Finding::Unreadable { error }] }
}

/// Whether git records the worktree at `path` under the plane as prunable.
///
/// `plane` is the plane directory resolved, and each entry's path is too: git
/// resolves a worktree's path when it adds it, and the worktree asked about
/// may be gone, so it is the plane directory that is resolved, never the
/// worktree path.
pub fn is_prunable(plane: &str, path: &WorktreePath, entries: &Vec<RecordedWorktree>) -> (r: bool)
    ensures
        r == exists|i: int|
            0 <= i < entries@.len() && #[trigger] entries@[i].prunable && entries@[i].path@ == path_join(
                plane@,
                path@,
            ),
{
    let wanted = path.under(plane);
    let mut i: usize = 0;
    while i < entries.len()
        invariant
            i <= entries@.len(),
            wanted@ == path_join(plane@, path@),
            forall|j: int|
                0 <= j < i ==> !(#[trigger] entries@[j].prunable && entries@[j].path@ == wanted@),
        decreases entries.len() - i,
    {
        let e = &entries[i];
        if e.prunable && same_text(e.path.as_str(), wanted.as_str()) {
            return true;
        }
        i = i + 1;
    }
    false
}

/// Whether a finding is git's `prunable`.
pub open spec fn is_prunable_finding(f: FindingView) -> bool {
    f is Prunable
}

proof fn lemma_no_prunable_below_full(ms: Seq<Member>, fs: Seq<MemberFacts>)
    ensures
        forall|i: int|
            0 <= i < members_findings(ms, fs, false).len() ==> !is_prunable_finding(
                #[trigger] members_findings(ms, fs, false)[i],
            ),
    decreases ms.len(),
{
    if ms.len() > 0 {
        let a = members_findings(ms.drop_last(), fs.subrange(0, ms.len() - 1), false);
        let b = member_findings(ms.last(), fs[ms.len() - 1], false);
        lemma_no_prunable_below_full(ms.drop_last(), fs.subrange(0, ms.len() - 1));
        assert forall|i: int|
            0 <= i < members_findings(ms, fs, false).len() implies !is_prunable_finding(
                #[trigger] members_findings(ms, fs, false)[i],
            ) by {
            if i < a.len() {
                assert(members_findings(ms, fs, false)[i] == a[i]);
            } else {
                assert(members_findings(ms, fs, false)[i] == b[i - a.len()]);
            }
        }
    }
}

/// Health costs what its tier says: the lowest tier looks at nothing, and
/// the one finding that needs a git process, git's own `prunable`, is made
/// only at the full tier.
pub proof fn prunable_is_opted_into(
    file: PlaneFile,
    name: Seq<char>,
    check: HealthCheck,
    latch: Option<Latch>,
    facts: Seq<MemberFacts>,
)
    ensures
        check is Nothing ==> examined(file, name, check, latch, facts).len() == 0,
        !(check is Full) ==> forall|i: int|
            0 <= i < examined(file, name, check, latch, facts).len() ==> !is_prunable_finding(
                #[trigger] examined(file, name, check, latch, facts)[i],
            ),
{
    if check is Cheap {
        let p = plane_findings(file.id@, name, latch_view(latch));
        let m = members_findings(file.members@, facts, false);
        lemma_no_prunable_below_full(file.members@, facts);
        assert forall|i: int|
            0 <= i < examined(file, name, check, latch, facts).len() implies !is_prunable_finding(
                #[trigger] examined(file, name, check, latch, facts)[i],
            ) by {
            if i < p.len() {
                assert(examined(file, name, check, latch, facts)[i] == p[i]);
            } else {
                assert(examined(file, name, check, latch, facts)[i] == m[i - p.len()]);
            }
        }
    }
}

} // verus!
