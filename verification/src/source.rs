//! Where a project's repo comes from, and what follows from its spelling:
//! where its worktrees land and what it is called when nobody names it.

use vstd::prelude::*;
use crate::error::EngineError;
use crate::member::{is_name_error, key_verdict, last_two, name_verdict, NameVerdict, MalformedWorktreePath, ProjectName, WorktreePath};
use crate::text::{chars_of, join_pieces, joined, on_charset, owned, push_str, same_chars, slice_of, split, split_on, string_of, views, lemma_split_nonempty};

verus! {

/// Where a project's repo comes from — and, because the two are in 1:1
/// correspondence, which kind of project it is.
#[derive(Debug, Clone, PartialEq, Eq)]
pub enum ProjectSource {
    /// bitplane built the source repo and owns its refs and its config.
    Owned { url: String },
    /// The user's own checkout, pointed at in place.
    Adopted { path: String },
}

/// Where `pat` first occurs in `s` at or after `i`.
pub open spec fn first_from(s: Seq<char>, pat: Seq<char>, i: int) -> Option<int>
    decreases s.len() - i,
{
    if i < 0 || i + pat.len() > s.len() {
        None
    } else if s.subrange(i, i + pat.len()) =~= pat {
        Some(i)
    } else {
        first_from(s, pat, i + 1)
    }
}

/// Where `pat` first occurs in `s`, as `str::find` answers.
pub open spec fn find_text(s: Seq<char>, pat: Seq<char>) -> Option<int> {
    first_from(s, pat, 0)
}

/// `://`, which separates a URL's scheme from its host.
pub open spec fn scheme_separator() -> Seq<char> {
    seq![':', '/', '/']
}

/// `.git`, the suffix a bare repo's name usually carries.
pub open spec fn git_suffix() -> Seq<char> {
    seq!['.', 'g', 'i', 't']
}

/// The path part of a git URL, whatever transport spells it: after the
/// host of `scheme://host/path`, after the colon of the scp-like
/// `user@host:path` (a colon before any slash), and a bare path as it is.
pub open spec fn url_path(url: Seq<char>) -> Seq<char> {
    match find_text(url, scheme_separator()) {
        Some(i) => {
            let after = url.subrange(i + 3, url.len() as int);
            match find_text(after, seq!['/']) {
                Some(j) => after.subrange(j + 1, after.len() as int),
                None => Seq::empty(),
            }
        },
        None => match (find_text(url, seq![':']), find_text(url, seq!['/'])) {
            (Some(c), None) => url.subrange(c + 1, url.len() as int),
            (Some(c), Some(s)) => if c < s {
                url.subrange(c + 1, url.len() as int)
            } else {
                url
            },
            _ => url,
        },
    }
}

/// `s` without its trailing slashes.
pub open spec fn trim_slashes(s: Seq<char>) -> Seq<char>
    decreases s.len(),
{
    if s.len() > 0 && s.last() == '/' {
        trim_slashes(s.drop_last())
    } else {
        s
    }
}

/// `s` without a trailing `.git`, where it has one.
pub open spec fn without_git_suffix(s: Seq<char>) -> Seq<char> {
    if s.len() >= 4 && s.subrange(s.len() - 4, s.len() as int) == git_suffix() {
        s.subrange(0, s.len() - 4)
    } else {
        s
    }
}

/// The segments worth keeping: not empty, not `.`.
pub open spec fn kept_segments(segments: Seq<Seq<char>>) -> Seq<Seq<char>>
    decreases segments.len(),
{
    if segments.len() == 0 {
        Seq::empty()
    } else {
        let r = kept_segments(segments.drop_last());
        let last = segments.last();
        if last.len() > 0 && last != seq!['.'] {
            r.push(last)
        } else {
            r
        }
    }
}

/// The segments of a source path, with any trailing slashes and `.git` gone.
pub open spec fn path_segments(path: Seq<char>) -> Seq<Seq<char>> {
    kept_segments(split(without_git_suffix(trim_slashes(path)), '/'))
}

/// How a source is written: the URL, or the path.
pub open spec fn source_text(s: ProjectSource) -> Seq<char> {
    match s {
        ProjectSource::Owned { url } => url@,
        ProjectSource::Adopted { path } => path@,
    }
}

/// The segments of a source's path part.
pub open spec fn source_segments(s: ProjectSource) -> Seq<Seq<char>> {
    match s {
        ProjectSource::Owned { url } => path_segments(url_path(url@)),
        ProjectSource::Adopted { path } => path_segments(path@),
    }
}

/// Whether a source spells a host: `scheme://host/...`, or the scp-like
/// `user@host:path` with something before the colon. An adopted source
/// never does.
pub open spec fn names_a_host(s: ProjectSource) -> bool {
    match s {
        ProjectSource::Owned { url } => match find_text(url@, scheme_separator()) {
            Some(i) => !(i + 3 < url@.len() && url@[i + 3] == '/'),
            None => match (find_text(url@, seq![':']), find_text(url@, seq!['/'])) {
                (Some(c), None) => c > 0,
                (Some(c), Some(s)) => c < s && c > 0,
                _ => false,
            },
        },
        ProjectSource::Adopted { .. } => false,
    }
}

/// The segments a default name is built from: all of them behind a host,
/// the last one where there is none.
pub open spec fn name_segments(s: ProjectSource) -> Seq<Seq<char>> {
    let segments = source_segments(s);
    if names_a_host(s) {
        segments
    } else if segments.len() == 0 {
        segments
    } else {
        seq![segments.last()]
    }
}

/// ASCII lowercase of one character.
pub open spec fn lower(c: char) -> char {
    if 'A' <= c && c <= 'Z' {
        ((c as u32) + 32) as char
    } else {
        c
    }
}

/// ASCII lowercase of a string.
pub open spec fn lowered(s: Seq<char>) -> Seq<char> {
    s.map_values(|c: char| lower(c))
}

/// The derived name: the name segments, lowercased, joined by `/`.
pub open spec fn derived_name(s: ProjectSource) -> Seq<char> {
    joined(name_segments(s).map_values(|seg: Seq<char>| lowered(seg)), seq!['/'])
}

/// The first segment whose lowercase is `wanted`.
pub open spec fn first_lowering_to(segments: Seq<Seq<char>>, wanted: Seq<char>) -> Option<Seq<char>>
    decreases segments.len(),
{
    if segments.len() == 0 {
        None
    } else if lowered(segments[0]) == wanted {
        Some(segments[0])
    } else {
        first_lowering_to(segments.drop_first(), wanted)
    }
}

/// The first segment whose lowercase is off the charset.
pub open spec fn first_off_charset(segments: Seq<Seq<char>>) -> Option<Seq<char>>
    decreases segments.len(),
{
    if segments.len() == 0 {
        None
    } else if !on_charset(lowered(segments[0])) {
        Some(segments[0])
    } else {
        first_off_charset(segments.drop_first())
    }
}

/// What a failed derivation names back: the segment at fault as the source
/// spelled it, or the whole derived name where no one segment is.
pub open spec fn at_fault(segments: Seq<Seq<char>>, verdict: NameVerdict) -> Seq<char> {
    let named = match verdict {
        NameVerdict::Reserved(segment) => first_lowering_to(segments, segment),
        _ => first_off_charset(segments),
    };
    match named {
        Some(s) => s,
        None => joined(segments, seq!['/']),
    }
}

/// What `ProjectSource::default_name` answers.
pub open spec fn default_name_of(s: ProjectSource, r: Result<ProjectName, EngineError>) -> bool {
    let name = derived_name(s);
    match name_verdict(name) {
        NameVerdict::Fine => r matches Ok(n) && n@ == name,
        verdict => r matches Err(EngineError::DerivedNameInvalid { derived }) && derived@ == at_fault(
            name_segments(s),
            verdict,
        ),
    }
}

/// What `ProjectSource::worktree_path` answers: the last two segments, unless
/// they land in the reserved segment or there is nothing to land.
pub open spec fn source_worktree(s: ProjectSource, r: Result<WorktreePath, EngineError>) -> bool {
    let path = joined(last_two(source_segments(s)), seq!['/']);
    match key_verdict(path) {
        None => r matches Ok(w) && w@ == path,
        Some(MalformedWorktreePath::ReservedSegment) => r matches Err(EngineError::ReservedPathSegment { path: p })
            && p@ == path,
        Some(_) => r matches Err(EngineError::InvalidRequest { message })
            && message@ == source_text(s) + " has no name to derive a worktree path from"@,
    }
}

/// A URL reduced to what git would fetch from.
pub open spec fn fetched_alike(url: Seq<char>) -> Seq<char> {
    without_git_suffix(trim_slashes(url))
}

/// Whether two sources are one repository.
pub open spec fn same_repo(a: ProjectSource, b: ProjectSource) -> bool {
    match (a, b) {
        (ProjectSource::Owned { url: x }, ProjectSource::Owned { url: y }) => fetched_alike(x@) == fetched_alike(y@),
        (ProjectSource::Adopted { path: x }, ProjectSource::Adopted { path: y }) => x@ == y@,
        _ => false,
    }
}

/// The word bitplane prints for a kind, and stores as the `type`.
pub open spec fn kind_of(s: ProjectSource) -> Seq<char> {
    match s {
        ProjectSource::Owned { .. } => "owned"@,
        ProjectSource::Adopted { .. } => "adopted"@,
    }
}

/// Where `pat` first occurs in `s`.
pub fn find_in(s: &[char], pat: &[char]) -> (r: Option<usize>)
    ensures
        match r {
            Some(i) => find_text(s@, pat@) == Some(i as int),
            None => find_text(s@, pat@) is None,
        },
{
    if pat.len() > s.len() {
        return None;
    }
    if pat.len() == 0 {
        return Some(0);
    }
    let limit = s.len() - pat.len();
    let mut i: usize = 0;
    while i <= limit
        invariant
            limit + pat@.len() == s@.len(),
            s@.len() <= usize::MAX,
            pat@.len() > 0,
            find_text(s@, pat@) == first_from(s@, pat@, i as int),
        decreases limit + 1 - i,
    {
        let mut k: usize = 0;
        let mut same = true;
        while k < pat.len()
            invariant
                k <= pat@.len(),
                i <= limit,
                limit + pat@.len() == s@.len(),
                s@.len() <= usize::MAX,
                same == forall|j: int| 0 <= j < k ==> s@[i + j] == pat@[j],
            decreases pat.len() - k,
        {
            if s[i + k] != pat[k] {
                same = false;
            }
            k = k + 1;
        }
        if same {
            assert(s@.subrange(i as int, i + pat@.len()) =~= pat@);
            return Some(i);
        }
        let ghost witness = choose|j: int| 0 <= j < pat@.len() && s@[i + j] != pat@[j];
        assert(s@.subrange(i as int, i + pat@.len())[witness] != pat@[witness]);
        assert(!(s@.subrange(i as int, i + pat@.len()) =~= pat@));
        if i == limit {
            assert(first_from(s@, pat@, i as int + 1) is None);
            return None;
        }
        i = i + 1;
    }
    None
}

fn url_path_of(url: &Vec<char>) -> (r: Vec<char>)
    ensures
        r@ == url_path(url@),
{
    let n = url.len();
    let separator: Vec<char> = vec![':', '/', '/'];
    assert(separator@ =~= scheme_separator());
    let slash: Vec<char> = vec!['/'];
    let colon: Vec<char> = vec![':'];
    assert(slash@ =~= seq!['/']);
    assert(colon@ =~= seq![':']);
    match find_in(url.as_slice(), separator.as_slice()) {
        Some(i) => {
            proof {
                lemma_first_from_fits(url@, scheme_separator(), 0);
            }
            assert(i + 3 <= url@.len());
            let after = slice_of(url.as_slice(), i + 3, url.len());
            match find_in(after.as_slice(), slash.as_slice()) {
                Some(j) => {
                    proof {
                        lemma_first_from_fits(after@, seq!['/'], 0);
                    }
                    assert(j + 1 <= after@.len());
                    slice_of(after.as_slice(), j + 1, after.len())
                },
                None => Vec::new(),
            }
        },
        None => {
            let c = find_in(url.as_slice(), colon.as_slice());
            let s = find_in(url.as_slice(), slash.as_slice());
            proof {
                lemma_first_from_fits(url@, seq![':'], 0);
            }
            assert(c matches Some(x) ==> x + 1 <= url@.len());
            match (c, s) {
                (Some(c), None) => slice_of(url.as_slice(), c + 1, url.len()),
                (Some(c), Some(s)) => if c < s {
                    slice_of(url.as_slice(), c + 1, url.len())
                } else {
                    url.clone()
                },
                _ => url.clone(),
            }
        },
    }
}

/// Where a match is found, it fits.
pub proof fn lemma_first_from_fits(s: Seq<char>, pat: Seq<char>, i: int)
    ensures
        first_from(s, pat, i) matches Some(j) ==> i <= j && j + pat.len() <= s.len(),
    decreases s.len() - i,
{
    if !(i < 0 || i + pat.len() > s.len()) && !(s.subrange(i, i + pat.len()) =~= pat) {
        lemma_first_from_fits(s, pat, i + 1);
    }
}

fn trimmed_slashes(s: &Vec<char>) -> (r: Vec<char>)
    ensures
        r@ == trim_slashes(s@),
{
    let mut n: usize = s.len();
    assert(s@.subrange(0, s@.len() as int) =~= s@);
    while n > 0 && s[n - 1] == '/'
        invariant
            n <= s@.len(),
            trim_slashes(s@) == trim_slashes(s@.subrange(0, n as int)),
        decreases n,
    {
        assert(s@.subrange(0, n as int).drop_last() =~= s@.subrange(0, n as int - 1));
        n = n - 1;
    }
    slice_of(s.as_slice(), 0, n)
}

fn without_git(s: &Vec<char>) -> (r: Vec<char>)
    ensures
        r@ == without_git_suffix(s@),
{
    let n = s.len();
    if n >= 4 && s[n - 4] == '.' && s[n - 3] == 'g' && s[n - 2] == 'i' && s[n - 1] == 't' {
        assert(s@.subrange(n - 4, n as int) =~= git_suffix());
        slice_of(s.as_slice(), 0, n - 4)
    } else {
        proof {
            if n >= 4 && s@.subrange(n - 4, n as int) == git_suffix() {
                assert(s@.subrange(n - 4, n as int)[0] == '.');
                assert(s@.subrange(n - 4, n as int)[1] == 'g');
                assert(s@.subrange(n - 4, n as int)[2] == 'i');
                assert(s@.subrange(n - 4, n as int)[3] == 't');
            }
        }
        s.clone()
    }
}

fn segments_of(path: &Vec<char>) -> (r: Vec<Vec<char>>)
    ensures
        views(r@) == path_segments(path@),
{
    let t = trimmed_slashes(path);
    let base = without_git(&t);
    let pieces = split_on(base.as_slice(), '/');
    kept(&pieces)
}

/// The pieces that are neither empty nor `.`, in order.
pub fn kept(pieces: &Vec<Vec<char>>) -> (r: Vec<Vec<char>>)
    ensures
        views(r@) == kept_segments(views(pieces@)),
{
    let mut r: Vec<Vec<char>> = Vec::new();
    let mut i: usize = 0;
    while i < pieces.len()
        invariant
            i <= pieces@.len(),
            views(r@) == kept_segments(views(pieces@.subrange(0, i as int))),
        decreases pieces.len() - i,
    {
        let ghost upto = views(pieces@.subrange(0, i as int + 1));
        assert(upto.drop_last() =~= views(pieces@.subrange(0, i as int)));
        assert(upto.last() == pieces@[i as int]@);
        let piece = &pieces[i];
        let keep = piece.len() > 0 && !(piece.len() == 1 && piece[0] == '.');
        proof {
            if piece@ == seq!['.'] {
                assert(piece@[0] == '.');
            }
            if piece@.len() == 1 && piece@[0] == '.' {
                assert(piece@ =~= seq!['.']);
            }
        }
        if keep {
            r.push(piece.clone());
        }
        assert(views(r@) =~= kept_segments(upto));
        i = i + 1;
    }
    assert(pieces@.subrange(0, pieces@.len() as int) =~= pieces@);
    r
}

fn lowered_chars(s: &Vec<char>) -> (r: Vec<char>)
    ensures
        r@ == lowered(s@),
{
    let mut r: Vec<char> = Vec::new();
    let mut i: usize = 0;
    while i < s.len()
        invariant
            i <= s@.len(),
            r@ == lowered(s@.subrange(0, i as int)),
        decreases s.len() - i,
    {
        let c = s[i];
        let l: char = if 'A' <= c && c <= 'Z' {
            ((c as u8) + 32) as char
        } else {
            c
        };
        assert(l == lower(c));
        r.push(l);
        i = i + 1;
        assert(r@ =~= lowered(s@.subrange(0, i as int)));
    }
    assert(s@.subrange(0, s@.len() as int) =~= s@);
    r
}

impl ProjectSource {
    /// How the source is written: the URL, or the path.
    pub fn to_text(&self) -> (s: String)
        ensures
            s@ == source_text(*self),
    {
        match self {
            ProjectSource::Owned { url } => url.clone(),
            ProjectSource::Adopted { path } => path.clone(),
        }
    }

    /// The path part of the source, split into segments, with the transport
    /// and any trailing `.git` gone.
    fn segments(&self) -> (r: Vec<Vec<char>>)
        ensures
            views(r@) == source_segments(*self),
    {
        match self {
            ProjectSource::Owned { url } => {
                let v = chars_of(url.as_str());
                let p = url_path_of(&v);
                segments_of(&p)
            },
            ProjectSource::Adopted { path } => {
                let v = chars_of(path.as_str());
                segments_of(&v)
            },
        }
    }

    /// Whether the source spells a host.
    fn names_a_host(&self) -> (r: bool)
        ensures
            r == names_a_host(*self),
    {
        match self {
            ProjectSource::Owned { url } => {
                let v = chars_of(url.as_str());
                let n = v.len();
                let separator: Vec<char> = vec![':', '/', '/'];
                assert(separator@ =~= scheme_separator());
                let slash: Vec<char> = vec!['/'];
                let colon: Vec<char> = vec![':'];
                assert(slash@ =~= seq!['/']);
                assert(colon@ =~= seq![':']);
                let found = find_in(v.as_slice(), separator.as_slice());
                proof {
                    lemma_first_from_fits(v@, scheme_separator(), 0);
                }
                match found {
                    Some(i) => {
                        assert(i + 3 <= v@.len());
                        !(i + 3 < v.len() && v[i + 3] == '/')
                    },
                    None => match (find_in(v.as_slice(), colon.as_slice()), find_in(v.as_slice(), slash.as_slice())) {
                        (Some(c), None) => c > 0,
                        (Some(c), Some(s)) => c < s && c > 0,
                        _ => false,
                    },
                }
            },
            ProjectSource::Adopted { .. } => false,
        }
    }

    /// The segments a default name is built from.
    fn name_segments(&self) -> (r: Vec<Vec<char>>)
        ensures
            views(r@) == name_segments(*self),
    {
        let segments = self.segments();
        if self.names_a_host() || segments.len() == 0 {
            segments
        } else {
            let mut r: Vec<Vec<char>> = Vec::new();
            r.push(segments[segments.len() - 1].clone());
            assert(views(r@) =~= seq![views(segments@).last()]);
            r
        }
    }

    /// Where a worktree of this source lands, relative to the plane directory
    /// root: the last two segments of the source's path.
    pub fn worktree_path(&self) -> (r: Result<WorktreePath, EngineError>)
        ensures
            source_worktree(*self, r),
    {
        let segments = self.segments();
        let tail = if segments.len() <= 2 {
            segments
        } else {
            let mut t: Vec<Vec<char>> = Vec::new();
            t.push(segments[segments.len() - 2].clone());
            t.push(segments[segments.len() - 1].clone());
            proof {
                let k = views(segments@);
                assert(views(t@) =~= k.subrange(k.len() - 2, k.len() as int));
            }
            t
        };
        let slash: Vec<char> = vec!['/'];
        assert(slash@ =~= seq!['/']);
        let joined_path = join_pieces(tail.as_slice(), slash.as_slice());
        let path = string_of(joined_path.as_slice());
        match WorktreePath::parse(path.as_str()) {
            Ok(w) => Ok(w),
            Err(MalformedWorktreePath::ReservedSegment) => Err(EngineError::ReservedPathSegment { path }),
            Err(_) => {
                let mut message = self.to_text();
                push_str(&mut message, " has no name to derive a worktree path from");
                Err(EngineError::InvalidRequest { message })
            },
        }
    }

    /// The name this source would take if the user named none: the whole
    /// path behind a host, the last segment otherwise, lowercased; and where
    /// that is no name, the part at fault as the source spelled it.
    pub fn default_name(&self) -> (r: Result<ProjectName, EngineError>)
        ensures
            default_name_of(*self, r),
    {
        let segments = self.name_segments();
        let mut lowered_segments: Vec<Vec<char>> = Vec::new();
        let mut i: usize = 0;
        while i < segments.len()
            invariant
                i <= segments@.len(),
                lowered_segments@.len() == i,
                forall|j: int| 0 <= j < i ==> #[trigger] lowered_segments@[j]@ == lowered(segments@[j]@),
            decreases segments.len() - i,
        {
            let l = lowered_chars(&segments[i]);
            lowered_segments.push(l);
            i = i + 1;
        }
        assert(views(lowered_segments@) =~= views(segments@).map_values(|seg: Seq<char>| lowered(seg)));
        let slash: Vec<char> = vec!['/'];
        assert(slash@ =~= seq!['/']);
        let name_chars = join_pieces(lowered_segments.as_slice(), slash.as_slice());
        let name = string_of(name_chars.as_slice());
        match ProjectName::parse(name.as_str()) {
            Ok(n) => Ok(n),
            Err(why) => {
                let derived = fault_in(&segments, &why, &name);
                Err(EngineError::DerivedNameInvalid { derived })
            },
        }
    }

    /// Whether two sources are the same repository: a URL compared as git
    /// would fetch it, a path as it is.
    pub fn same_repo_as(&self, other: &ProjectSource) -> (r: bool)
        ensures
            r == same_repo(*self, *other),
    {
        match (self, other) {
            (ProjectSource::Owned { url: ours }, ProjectSource::Owned { url: theirs }) => {
                let a = fetched(ours);
                let b = fetched(theirs);
                same_chars(a.as_slice(), b.as_slice())
            },
            (ProjectSource::Adopted { path: ours }, ProjectSource::Adopted { path: theirs }) => {
                let a = chars_of(ours.as_str());
                let b = chars_of(theirs.as_str());
                same_chars(a.as_slice(), b.as_slice())
            },
            _ => false,
        }
    }

    /// Whether bitplane built this source repo.
    pub fn is_owned(&self) -> (r: bool)
        ensures
            r == (*self is Owned),
    {
        match self {
            ProjectSource::Owned { .. } => true,
            ProjectSource::Adopted { .. } => false,
        }
    }

    /// The word bitplane prints for this kind, and stores as the `type`.
    pub fn kind(&self) -> (s: &'static str)
        ensures
            s@ == kind_of(*self),
    {
        match self {
            ProjectSource::Owned { .. } => "owned",
            ProjectSource::Adopted { .. } => "adopted",
        }
    }
}

fn fetched(url: &String) -> (r: Vec<char>)
    ensures
        r@ == fetched_alike(url@),
{
    let v = chars_of(url.as_str());
    let t = trimmed_slashes(&v);
    without_git(&t)
}

/// The part of a derivation at fault.
fn fault_in(segments: &Vec<Vec<char>>, why: &EngineError, name: &String) -> (r: String)
    requires
        is_name_error(name@, *why),
        name@ == joined(views(segments@).map_values(|seg: Seq<char>| lowered(seg)), seq!['/']),
    ensures
        r@ == at_fault(views(segments@), name_verdict(name@)),
{
    let ghost segs = views(segments@);
    let mut i: usize = 0;
    assert(segs.subrange(0, segs.len() as int) =~= segs);
    match why {
        EngineError::ReservedNameSegment { segment, .. } => {
            assert(name_verdict(name@) == NameVerdict::Reserved(segment@));
            let wanted = chars_of(segment.as_str());
            while i < segments.len()
                invariant
                    i <= segments@.len(),
                    segs == views(segments@),
                    wanted@ == segment@,
                    name_verdict(name@) == NameVerdict::Reserved(segment@),
                    first_lowering_to(segs, wanted@) == first_lowering_to(segs.subrange(i as int, segs.len() as int), wanted@),
                decreases segments.len() - i,
            {
                let ghost rest = segs.subrange(i as int, segs.len() as int);
                assert(rest[0] == segments@[i as int]@);
                assert(rest.drop_first() =~= segs.subrange(i as int + 1, segs.len() as int));
                let l = lowered_chars(&segments[i]);
                if same_chars(l.as_slice(), wanted.as_slice()) {
                    return string_of(segments[i].as_slice());
                }
                i = i + 1;
            }
        },
        _ => {
            assert(name_verdict(name@) is OffCharset);
            while i < segments.len()
                invariant
                    i <= segments@.len(),
                    segs == views(segments@),
                    name_verdict(name@) is OffCharset,
                    first_off_charset(segs) == first_off_charset(segs.subrange(i as int, segs.len() as int)),
                decreases segments.len() - i,
            {
                let ghost rest = segs.subrange(i as int, segs.len() as int);
                assert(rest[0] == segments@[i as int]@);
                assert(rest.drop_first() =~= segs.subrange(i as int + 1, segs.len() as int));
                let l = lowered_chars(&segments[i]);
                if !crate::text::is_on_charset(&l) {
                    return string_of(segments[i].as_slice());
                }
                i = i + 1;
            }
        },
    }
    let slash: Vec<char> = vec!['/'];
    assert(slash@ =~= seq!['/']);
    let whole = join_pieces(segments.as_slice(), slash.as_slice());
    string_of(whole.as_slice())
}

} // verus!
