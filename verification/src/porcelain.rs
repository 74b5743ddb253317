//! What git's porcelain output says, read line by line.
//!
//! Running git is the caller's; the text it printed is handed in here and
//! read as the few answers bitplane needs: how many files changed, whether a
//! commit is on origin, how many commits are not, which branch a symbolic ref
//! names, and which worktrees a repository records.

use vstd::prelude::*;
use crate::error::EngineError;
use crate::git::{read_u32, u32_reading};
use crate::teardown::WorktreeLock;
use crate::text::{
    chars_of, has_prefix, owned, push_seq, push_str, same_chars, slice_of, split, split_on, starts_with, string_of,
    trim, trimmed, views,
};

verus! {

/// A line as `str::lines` gives it: without the carriage return of a
/// `\r\n` ending.
pub open spec fn without_cr(l: Seq<char>) -> Seq<char> {
    if l.len() > 0 && l.last() == '\r' {
        l.drop_last()
    } else {
        l
    }
}

/// `str::lines`: the text between line endings, a final line ending
/// optional; only a line that a `\n` ends loses a carriage return.
pub open spec fn text_lines(s: Seq<char>) -> Seq<Seq<char>> {
    let pieces = split(s, '\n');
    let n = pieces.len();
    let ended = Seq::new((n - 1) as nat, |i: int| without_cr(pieces[i]));
    if pieces.last().len() == 0 {
        ended
    } else {
        ended.push(pieces.last())
    }
}

/// The lines of `s`, as `str::lines` gives them.
pub fn lines_of(s: &str) -> (r: Vec<Vec<char>>)
    ensures
        views(r@) == text_lines(s@),
{
    let chars = chars_of(s);
    let pieces = split_on(chars.as_slice(), '\n');
    proof {
        crate::text::lemma_split_nonempty(s@, '\n');
    }
    let n = pieces.len();
    let mut lines: Vec<Vec<char>> = Vec::new();
    let mut i: usize = 0;
    while i + 1 < n
        invariant
            1 <= n,
            n == pieces@.len(),
            views(pieces@) == split(s@, '\n'),
            i + 1 <= n,
            views(lines@) == Seq::new(i as nat, |k: int| without_cr(split(s@, '\n')[k])),
        decreases n - i,
    {
        let piece = &pieces[i];
        assert(piece@ == split(s@, '\n')[i as int]);
        let line = if piece.len() > 0 && piece[piece.len() - 1] == '\r' {
            let l = slice_of(piece.as_slice(), 0, piece.len() - 1);
            assert(l@ =~= piece@.drop_last());
            l
        } else {
            let l = slice_of(piece.as_slice(), 0, piece.len());
            assert(l@ =~= piece@);
            l
        };
        assert(line@ == without_cr(split(s@, '\n')[i as int]));
        let ghost before = views(lines@);
        lines.push(line);
        assert(views(lines@) =~= before.push(line@));
        i = i + 1;
        assert(views(lines@) =~= Seq::new(i as nat, |k: int| without_cr(split(s@, '\n')[k])));
    }
    let last = &pieces[n - 1];
    assert(last@ == split(s@, '\n').last());
    if last.len() > 0 {
        lines.push(slice_of(last.as_slice(), 0, last.len()));
        assert(last@.subrange(0, last@.len() as int) =~= last@);
    }
    assert(views(lines@) =~= text_lines(s@));
    lines
}

/// How many of `lines` are the status line of a changed tracked file.
pub open spec fn changed_lines(lines: Seq<Seq<char>>) -> nat
    decreases lines.len(),
{
    if lines.len() == 0 {
        0
    } else {
        changed_lines(lines.drop_last()) + if is_changed_line(lines.last()) { 1nat } else { 0nat }
    }
}

/// How many of `lines` are the status line of an untracked file.
pub open spec fn untracked_lines(lines: Seq<Seq<char>>) -> nat
    decreases lines.len(),
{
    if lines.len() == 0 {
        0
    } else {
        untracked_lines(lines.drop_last()) + if is_untracked_line(lines.last()) { 1nat } else { 0nat }
    }
}

/// `??`: a file git does not track and nothing ignores.
pub open spec fn is_untracked_line(l: Seq<char>) -> bool {
    starts_with(l, seq!['?', '?'])
}

/// Any other status line: a tracked file that differs from `HEAD`.
pub open spec fn is_changed_line(l: Seq<char>) -> bool {
    l.len() > 0 && !is_untracked_line(l)
}

/// From `git status --porcelain=v1`: how many tracked files changed, and
/// how many files are untracked.
pub fn status_counts(status: &str) -> (r: (usize, usize))
    ensures
        r.0 == changed_lines(text_lines(status@)),
        r.1 == untracked_lines(text_lines(status@)),
{
    let lines = lines_of(status);
    let marker: Vec<char> = vec!['?', '?'];
    let mut changed: usize = 0;
    let mut untracked: usize = 0;
    let mut i: usize = 0;
    let ghost all = text_lines(status@);
    assert(all.take(0) =~= Seq::<Seq<char>>::empty());
    while i < lines.len()
        invariant
            i <= lines@.len(),
            views(lines@) == all,
            marker@ == seq!['?', '?'],
            changed == changed_lines(all.take(i as int)),
            untracked == untracked_lines(all.take(i as int)),
            changed <= i,
            untracked <= i,
        decreases lines.len() - i,
    {
        proof {
            reveal_strlit("worktree ");
            reveal_strlit("branch ");
            reveal_strlit("locked");
            reveal_strlit("locked ");
            reveal_strlit("prunable");
            reveal_strlit("prunable ");
            reveal_strlit("refs/heads/");
        }
        let line = &lines[i];
        assert(line@ == all[i as int]);
        assert(all.take(i + 1).drop_last() =~= all.take(i as int));
        if has_prefix(line.as_slice(), marker.as_slice()) {
            untracked = untracked + 1;
        } else if line.len() > 0 {
            changed = changed + 1;
        }
        i = i + 1;
    }
    assert(all.take(lines@.len() as int) =~= all);
    (changed, untracked)
}

/// Whether some line, trimmed, names a branch of origin.
pub open spec fn names_an_origin_branch(lines: Seq<Seq<char>>) -> bool {
    exists|i: int| 0 <= i < lines.len() && starts_with(trim(#[trigger] lines[i]), "origin/"@)
}

/// From `git branch -r --contains`: whether a branch of origin holds the
/// commit.
pub fn on_origin(listing: &str) -> (r: bool)
    ensures
        r == names_an_origin_branch(text_lines(listing@)),
{
    let lines = lines_of(listing);
    let origin = chars_of("origin/");
    proof {
        reveal_strlit("origin/");
    }
    let ghost all = text_lines(listing@);
    let mut i: usize = 0;
    while i < lines.len()
        invariant
            i <= lines@.len(),
            views(lines@) == all,
            origin@ == "origin/"@,
            all == text_lines(listing@),
            forall|k: int| 0 <= k < i ==> !starts_with(trim(#[trigger] all[k]), "origin/"@),
        decreases lines.len() - i,
    {
        let line = trimmed(lines[i].as_slice());
        assert(lines@[i as int]@ == all[i as int]);
        if has_prefix(line.as_slice(), origin.as_slice()) {
            assert(views(lines@).len() == lines@.len());
            assert(0 <= i < all.len() && starts_with(trim(all[i as int]), "origin/"@));
            assert(names_an_origin_branch(all));
            return true;
        }
        i = i + 1;
    }
    false
}

/// What `git rev-list --count` answered, as a count: its trimmed text read
/// as a `u32`.
pub fn commit_count(answer: &str) -> (r: Result<usize, EngineError>)
    ensures
        match u32_reading(trim(answer@)) {
            Some(n) => r == Ok::<usize, EngineError>(n as usize),
            None => r matches Err(EngineError::GitFailed { message }) && message@ == "git rev-list answered "@
                + trim(answer@),
        },
{
    let text = trimmed(chars_of(answer).as_slice());
    match read_u32(text.as_slice()) {
        Some(n) => Ok(n as usize),
        None => {
            let mut message = owned("git rev-list answered ");
            push_seq(&mut message, text.as_slice());
            proof {
                reveal_strlit("git rev-list answered ");
            }
            Err(EngineError::GitFailed { message })
        },
    }
}

/// `s` without `prefix`, where it starts with it.
pub open spec fn after_prefix(s: Seq<char>, prefix: Seq<char>) -> Seq<char> {
    if starts_with(s, prefix) {
        s.subrange(prefix.len() as int, s.len() as int)
    } else {
        s
    }
}

/// `s` without one leading `prefix`, where it has one.
pub fn strip_prefix(s: &[char], prefix: &str) -> (r: String)
    ensures
        r@ == after_prefix(s@, prefix@),
{
    let p = chars_of(prefix);
    if has_prefix(s, p.as_slice()) {
        string_of(slice_of(s, p.len(), s.len()).as_slice())
    } else {
        assert(s@.subrange(0, s@.len() as int) =~= s@);
        string_of(slice_of(s, 0, s.len()).as_slice())
    }
}

/// The branch a symbolic ref of origin names: `refs/remotes/origin/main`
/// names `main`.
pub fn origin_branch(reference: &str) -> (r: String)
    ensures
        r@ == after_prefix(reference@, "refs/remotes/origin/"@),
{
    let v = chars_of(reference);
    strip_prefix(v.as_slice(), "refs/remotes/origin/")
}


/// One worktree as `git worktree list --porcelain` records it.
#[derive(Debug, Clone, PartialEq, Eq)]
pub struct WorktreeEntry {
    pub path: String,
    /// The branch checked out there, without `refs/heads/`.
    pub branch: Option<String>,
    /// Git's own lock on it, where there is one.
    pub locked: Option<WorktreeLock>,
    /// Whether git itself calls it prunable.
    pub prunable: bool,
}

/// An entry as its path, branch, lock (with the lock's reason) and whether
/// it is prunable.
pub type EntryView = (Seq<char>, Option<Seq<char>>, Option<Option<Seq<char>>>, bool);

/// The view of an optional text.
pub open spec fn text_opt(o: Option<String>) -> Option<Seq<char>> {
    match o {
        Some(t) => Some(t@),
        None => None,
    }
}

/// What an entry records.
pub open spec fn entry_view(e: WorktreeEntry) -> EntryView {
    (
        e.path@,
        text_opt(e.branch),
        match e.locked {
            Some(l) => Some(text_opt(l.reason)),
            None => None,
        },
        e.prunable,
    )
}

/// The views of some entries.
pub open spec fn entry_views(es: Seq<WorktreeEntry>) -> Seq<EntryView> {
    Seq::new(es.len(), |i: int| entry_view(es[i]))
}

/// What one line of the listing does to the entry being read: `worktree`
/// starts a new one; `branch`, `locked` and `prunable` describe the current
/// one; anything else, or anything before the first `worktree`, is passed
/// over.
pub open spec fn read_line(done: Seq<EntryView>, current: Option<EntryView>, line: Seq<char>) -> (Seq<EntryView>, Option<EntryView>) {
    if starts_with(line, "worktree "@) {
        (
            match current {
                Some(e) => done.push(e),
                None => done,
            },
            Some((line.subrange(9, line.len() as int), None, None, false)),
        )
    } else {
        match current {
            None => (done, None),
            Some(e) => if starts_with(line, "branch "@) {
                (done, Some((e.0, Some(after_prefix(line.subrange(7, line.len() as int), "refs/heads/"@)), e.2, e.3)))
            } else if line == "locked"@ {
                (done, Some((e.0, e.1, Some(None), e.3)))
            } else if starts_with(line, "locked "@) {
                (done, Some((e.0, e.1, Some(Some(line.subrange(7, line.len() as int))), e.3)))
            } else if line == "prunable"@ || starts_with(line, "prunable "@) {
                (done, Some((e.0, e.1, e.2, true)))
            } else {
                (done, current)
            },
        }
    }
}

/// The entries finished, and the one being read, after `lines`.
pub open spec fn read_lines(lines: Seq<Seq<char>>) -> (Seq<EntryView>, Option<EntryView>)
    decreases lines.len(),
{
    if lines.len() == 0 {
        (Seq::empty(), None)
    } else {
        let (done, current) = read_lines(lines.drop_last());
        read_line(done, current, lines.last())
    }
}

/// Every worktree a `git worktree list --porcelain` listing records, in its
/// order.
pub open spec fn worktree_listing(text: Seq<char>) -> Seq<EntryView> {
    let (done, current) = read_lines(text_lines(text));
    match current {
        Some(e) => done.push(e),
        None => done,
    }
}

/// The text of `v`.
fn text_of(v: &[char]) -> (s: String)
    ensures
        s@ == v@,
{
    string_of(v)
}

/// Reads a `git worktree list --porcelain` listing.
pub fn worktree_entries(listing: &str) -> (r: Vec<WorktreeEntry>)
    ensures
        entry_views(r@) == worktree_listing(listing@),
{
    let lines = lines_of(listing);
    let worktree = chars_of("worktree ");
    let branch = chars_of("branch ");
    let locked = chars_of("locked");
    let locked_for = chars_of("locked ");
    let prunable = chars_of("prunable");
    let prunable_for = chars_of("prunable ");
    proof {
        reveal_strlit("worktree ");
        reveal_strlit("branch ");
        reveal_strlit("locked");
        reveal_strlit("locked ");
        reveal_strlit("prunable");
        reveal_strlit("prunable ");
    }
    let ghost all = text_lines(listing@);
    let mut done: Vec<WorktreeEntry> = Vec::new();
    let mut current: Option<WorktreeEntry> = None;
    let mut i: usize = 0;
    assert(all.take(0) =~= Seq::<Seq<char>>::empty());
    while i < lines.len()
        invariant
            i <= lines@.len(),
            views(lines@) == all,
            all == text_lines(listing@),
            worktree@ == "worktree "@,
            branch@ == "branch "@,
            locked@ == "locked"@,
            locked_for@ == "locked "@,
            prunable@ == "prunable"@,
            prunable_for@ == "prunable "@,
            read_lines(all.take(i as int)) == (entry_views(done@), match current {
                Some(e) => Some(entry_view(e)),
                None => None,
            }),
        decreases lines.len() - i,
    {
        proof {
            reveal_strlit("worktree ");
            reveal_strlit("branch ");
            reveal_strlit("locked");
            reveal_strlit("locked ");
            reveal_strlit("prunable");
            reveal_strlit("prunable ");
            reveal_strlit("refs/heads/");
        }
        let line = &lines[i];
        assert(line@ == all[i as int]);
        assert(all.take(i + 1).drop_last() =~= all.take(i as int));
        assert(all.take(i + 1).last() == line@);
        let ghost before = entry_views(done@);
        if has_prefix(line.as_slice(), worktree.as_slice()) {
            let path = text_of(slice_of(line.as_slice(), 9, line.len()).as_slice());
            match current {
                Some(e) => {
                    done.push(e);
                    assert(entry_views(done@) =~= before.push(entry_view(e)));
                },
                None => {},
            }
            current = Some(WorktreeEntry { path, branch: None, locked: None, prunable: false });
        } else {
            match current {
                None => {},
                Some(mut e) => {
                    if has_prefix(line.as_slice(), branch.as_slice()) {
                        let named = slice_of(line.as_slice(), 7, line.len());
                        e.branch = Some(strip_prefix(named.as_slice(), "refs/heads/"));
                    } else if same_chars(line.as_slice(), locked.as_slice()) {
                        e.locked = Some(WorktreeLock { reason: None });
                    } else if has_prefix(line.as_slice(), locked_for.as_slice()) {
                        let reason = text_of(slice_of(line.as_slice(), 7, line.len()).as_slice());
                        e.locked = Some(WorktreeLock { reason: Some(reason) });
                    } else if same_chars(line.as_slice(), prunable.as_slice()) || has_prefix(
                        line.as_slice(),
                        prunable_for.as_slice(),
                    ) {
                        e.prunable = true;
                    }
                    current = Some(e);
                },
            }
        }
        i = i + 1;
    }
    assert(all.take(lines@.len() as int) =~= all);
    match current {
        Some(e) => {
            let ghost before = entry_views(done@);
            done.push(e);
            assert(entry_views(done@) =~= before.push(entry_view(e)));
        },
        None => {},
    }
    done
}


/// `reference` without one leading `prefix`, where it has one.
pub fn without_prefix(reference: &str, prefix: &str) -> (r: String)
    ensures
        r@ == after_prefix(reference@, prefix@),
{
    let v = chars_of(reference);
    strip_prefix(v.as_slice(), prefix)
}

/// The first space of `line`, where it has one.
pub open spec fn first_space(line: Seq<char>) -> Option<int> {
    if exists|k: int| 0 <= k < line.len() && line[k] == ' ' {
        Some(choose|k: int| 0 <= k < line.len() && line[k] == ' ' && forall|j: int| 0 <= j < k ==> line[j] != ' ')
    } else {
        None
    }
}

/// The refs and objects a `for-each-ref --format='%(refname) %(objectname)'`
/// listing names: each line split at its first space; a line with none is
/// passed over.
pub open spec fn ref_pairs(lines: Seq<Seq<char>>) -> Seq<(Seq<char>, Seq<char>)>
    decreases lines.len(),
{
    if lines.len() == 0 {
        Seq::empty()
    } else {
        let l = lines.last();
        let before = ref_pairs(lines.drop_last());
        match first_space(l) {
            Some(k) => before.push((l.subrange(0, k), l.subrange(k + 1, l.len() as int))),
            None => before,
        }
    }
}

/// The views of some pairs of texts.
pub open spec fn pair_views(v: Seq<(String, String)>) -> Seq<(Seq<char>, Seq<char>)> {
    Seq::new(v.len(), |i: int| (v[i].0@, v[i].1@))
}

/// Reads a listing of refs and the objects they point at.
pub fn ref_listing(listing: &str) -> (r: Vec<(String, String)>)
    ensures
        pair_views(r@) == ref_pairs(text_lines(listing@)),
{
    let lines = lines_of(listing);
    let ghost all = text_lines(listing@);
    let mut pairs: Vec<(String, String)> = Vec::new();
    let mut i: usize = 0;
    assert(all.take(0) =~= Seq::<Seq<char>>::empty());
    while i < lines.len()
        invariant
            i <= lines@.len(),
            views(lines@) == all,
            pair_views(pairs@) == ref_pairs(all.take(i as int)),
        decreases lines.len() - i,
    {
        let line = &lines[i];
        assert(line@ == all[i as int]);
        assert(all.take(i + 1).drop_last() =~= all.take(i as int));
        assert(all.take(i + 1).last() == line@);
        let mut k: usize = 0;
        while k < line.len() && line[k] != ' '
            invariant
                k <= line@.len(),
                forall|j: int| 0 <= j < k ==> line@[j] != ' ',
            decreases line.len() - k,
        {
            k = k + 1;
        }
        let ghost before = pair_views(pairs@);
        if k < line.len() {
            assert(line@[k as int] == ' ');
            let ghost witness = k as int;
            assert(exists|m: int| 0 <= m < line@.len() && line@[m] == ' ');
            let ghost chosen = first_space(line@)->0;
            assert(chosen == k as int) by {
                if chosen < k as int {
                    assert(line@[chosen] != ' ');
                } else if chosen > k as int {
                    assert(line@[k as int] != ' ');
                }
            }
            let name = string_of(slice_of(line.as_slice(), 0, k).as_slice());
            let object = string_of(slice_of(line.as_slice(), k + 1, line.len()).as_slice());
            pairs.push((name, object));
            assert(pair_views(pairs@) =~= before.push((line@.subrange(0, k as int), line@.subrange(k + 1, line@.len() as int))));
        } else {
            assert(!exists|m: int| 0 <= m < line@.len() && line@[m] == ' ');
        }
        i = i + 1;
    }
    assert(all.take(lines@.len() as int) =~= all);
    pairs
}


/// How many of `lines` are not empty.
pub open spec fn nonempty_lines(lines: Seq<Seq<char>>) -> nat
    decreases lines.len(),
{
    if lines.len() == 0 {
        0
    } else {
        nonempty_lines(lines.drop_last()) + if lines.last().len() > 0 { 1nat } else { 0nat }
    }
}

/// How many of `lines` start with `prefix`.
pub open spec fn lines_starting(lines: Seq<Seq<char>>, prefix: Seq<char>) -> nat
    decreases lines.len(),
{
    if lines.len() == 0 {
        0
    } else {
        lines_starting(lines.drop_last(), prefix) + if starts_with(lines.last(), prefix) { 1nat } else { 0nat }
    }
}

/// Every status line counts exactly once: a line starting `??` is an
/// untracked file, and every other line that is not empty is one tracked
/// file that changed, whatever its two status letters say (modified,
/// deleted, added, renamed, in the index or in the worktree).
pub proof fn every_status_line_counts_once(lines: Seq<Seq<char>>)
    ensures
        untracked_lines(lines) == lines_starting(lines, seq!['?', '?']),
        changed_lines(lines) + untracked_lines(lines) == nonempty_lines(lines),
        forall|l: Seq<char>|
            l.len() > 0 && !starts_with(l, seq!['?', '?']) ==> #[trigger] changed_lines(lines.push(l)) == changed_lines(
                lines,
            ) + 1,
    decreases lines.len(),
{
    if lines.len() > 0 {
        every_status_line_counts_once(lines.drop_last());
    }
    assert forall|l: Seq<char>| l.len() > 0 && !starts_with(l, seq!['?', '?']) implies #[trigger] changed_lines(
        lines.push(l),
    ) == changed_lines(lines) + 1 by {
        assert(lines.push(l).drop_last() =~= lines);
    }
}

} // verus!
