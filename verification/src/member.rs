//! What a member is, how it is written, and where its worktree lands.
//!
//! A member's ref is a registered project (`@codestyle`) or an absolute path
//! to a repo that is not registered. The sigil, not the charset, keeps the two
//! arms apart: `@acme/codestyle` is a project and bare `acme/codestyle` a path.
//! Paths are held as their text.

use vstd::prelude::*;
use crate::error::EngineError;
use crate::text::{push_char, chars_of, has_prefix, is_on_charset, join_path, join_pieces, joined, lemma_split_nonempty, on_charset, owned, path_join, push_str, same_chars, slice_of, split, split_on, starts_with, string_of, views};

verus! {

/// The path segment at a plane directory's root that belongs to bitplane.
pub const RESERVED_SEGMENT: &'static str = ".bitplane";

/// The sigil that marks the project arm of a [`MemberRef`].
pub const PROJECT_SIGIL: char = '@';

/// The longest a project name may be, in characters. Depth is uncapped.
pub const MAX_PROJECT_NAME_LENGTH: usize = 128;

/// The bare source repo of an owned project, inside its project directory.
pub const REPO_DIR_NAME: &'static str = "repo.git";

/// The directory a project ships its own executables in.
pub const BIN_DIR_NAME: &'static str = "bin";

/// What a member is a worktree of.
#[derive(Debug, Clone, PartialEq, Eq, PartialOrd, Ord, Hash)]
pub enum MemberRef {
    /// A registered project, written `@codestyle`.
    Project(ProjectName),
    /// An ad-hoc member: a path to an unregistered repo.
    Repo(String),
}

/// A project's host-unique name: a `/`-separated path of segments, each on
/// the charset. Never carries the sigil.
#[derive(Debug, PartialEq, Eq, PartialOrd, Ord, Hash)]
pub struct ProjectName {
    name: String,
}

/// Where a member's worktree lives, relative to the plane directory root.
#[derive(Debug, Clone, PartialEq, Eq, PartialOrd, Ord, Hash)]
pub struct WorktreePath {
    path: String,
}

/// Why a `plane.toml` member key is not a worktree path.
#[derive(Debug, Clone, Copy, PartialEq, Eq, Structural)]
pub enum MalformedWorktreePath {
    Empty,
    Absolute,
    DotSlash,
    ParentDir,
    ReservedSegment,
}

/// What the name rules say about a candidate project name.
pub enum NameVerdict {
    /// It is a name.
    Fine,
    /// Empty, too long, or a segment off the charset.
    OffCharset,
    /// A segment bitplane keeps for itself.
    Reserved(Seq<char>),
}

/// `repo.git` and `bin`: both name a directory bitplane puts inside a project
/// directory, so neither may be a segment of a name.
pub open spec fn is_reserved_segment(s: Seq<char>) -> bool {
    s == "repo.git"@ || s == "bin"@
}

/// The verdict on a name's segments, the first offending one deciding.
pub open spec fn segments_verdict(segments: Seq<Seq<char>>) -> NameVerdict
    decreases segments.len(),
{
    if segments.len() == 0 {
        NameVerdict::Fine
    } else if !on_charset(segments[0]) {
        NameVerdict::OffCharset
    } else if is_reserved_segment(segments[0]) {
        NameVerdict::Reserved(segments[0])
    } else {
        segments_verdict(segments.drop_first())
    }
}

/// The verdict on a whole candidate name.
pub open spec fn name_verdict(name: Seq<char>) -> NameVerdict {
    if name.len() == 0 || name.len() > 128 {
        NameVerdict::OffCharset
    } else {
        segments_verdict(split(name, '/'))
    }
}

/// Whether `name` is a project name.
pub open spec fn is_project_name(name: Seq<char>) -> bool {
    name_verdict(name) is Fine
}

/// The failure `ProjectName::parse` gives for `name`.
pub open spec fn is_name_error(name: Seq<char>, e: EngineError) -> bool {
    match name_verdict(name) {
        NameVerdict::Fine => false,
        NameVerdict::OffCharset => e matches EngineError::InvalidProjectName { name: n } && n@ == name,
        NameVerdict::Reserved(segment) => e matches EngineError::ReservedNameSegment {
            name: n,
            segment: s,
        } && n@ == name && s@ == segment,
    }
}

/// A member ref as it is written: `@name` for a project, the path otherwise.
pub open spec fn member_text(m: MemberRef) -> Seq<char> {
    match m {
        MemberRef::Project(n) => seq!['@'] + n@,
        MemberRef::Repo(p) => p@,
    }
}

/// What `MemberRef::parse` answers for `value`.
pub open spec fn member_parsed(value: Seq<char>, r: Result<MemberRef, EngineError>) -> bool {
    if value.len() > 0 && value[0] == '@' {
        let name = value.drop_first();
        &&& r is Ok <==> is_project_name(name)
        &&& r matches Ok(m) ==> (m matches MemberRef::Project(n) && n@ == name)
        &&& r matches Err(e) ==> is_name_error(name, e)
    } else {
        r matches Ok(MemberRef::Repo(p)) && p@ == value
    }
}

/// A ref as data: whether it is a project, and its name or path.
pub open spec fn ref_view(m: MemberRef) -> (bool, Seq<char>) {
    match m {
        MemberRef::Project(n) => (true, n@),
        MemberRef::Repo(p) => (false, p@),
    }
}

/// Whether two refs are the same member: the same arm, the same text.
pub open spec fn same_ref(a: MemberRef, b: MemberRef) -> bool {
    match (a, b) {
        (MemberRef::Project(x), MemberRef::Project(y)) => x@ == y@,
        (MemberRef::Repo(x), MemberRef::Repo(y)) => x@ == y@,
        _ => false,
    }
}

/// A path segment that is a name: not empty, not `.`, not `..`.
pub open spec fn is_normal_segment(s: Seq<char>) -> bool {
    s.len() > 0 && s != seq!['.'] && s != seq!['.', '.']
}

/// The normal segments of a path, in order.
pub open spec fn normal_segments(segments: Seq<Seq<char>>) -> Seq<Seq<char>>
    decreases segments.len(),
{
    if segments.len() == 0 {
        Seq::empty()
    } else {
        let r = normal_segments(segments.drop_last());
        if is_normal_segment(segments.last()) {
            r.push(segments.last())
        } else {
            r
        }
    }
}

/// At most the last two of `segments`.
pub open spec fn last_two(segments: Seq<Seq<char>>) -> Seq<Seq<char>> {
    if segments.len() <= 2 {
        segments
    } else {
        segments.subrange(segments.len() - 2, segments.len() as int)
    }
}

/// The last two named segments of a source path: the whole layout rule.
pub open spec fn derived_tail(source: Seq<char>) -> Seq<Seq<char>> {
    last_two(normal_segments(split(source, '/')))
}

/// What `MemberRef::worktree_path` answers for a source path.
pub open spec fn worktree_derived(source: Seq<char>, r: Result<WorktreePath, EngineError>) -> bool {
    let tail = derived_tail(source);
    let path = joined(tail, seq!['/']);
    if tail.len() == 0 {
        r matches Err(EngineError::InvalidRequest { message: m })
            && m@ == source + " has no name to derive a worktree path from"@
    } else if tail[0] == ".bitplane"@ {
        r matches Err(EngineError::ReservedPathSegment { path: p }) && p@ == path
    } else {
        r matches Ok(w) && w@ == path
    }
}

/// Why a member key is not a worktree path, or `None` where it is one.
pub open spec fn key_verdict(key: Seq<char>) -> Option<MalformedWorktreePath> {
    if key.len() == 0 {
        Some(MalformedWorktreePath::Empty)
    } else if key[0] == '/' {
        Some(MalformedWorktreePath::Absolute)
    } else if starts_with(key, seq!['.', '/']) || key == seq!['.'] {
        Some(MalformedWorktreePath::DotSlash)
    } else if split(key, '/').contains(seq!['.', '.']) {
        Some(MalformedWorktreePath::ParentDir)
    } else if split(key, '/')[0] == ".bitplane"@ {
        Some(MalformedWorktreePath::ReservedSegment)
    } else {
        None
    }
}

/// Whether `inner` sits below `outer`, on a segment boundary.
pub open spec fn inside(inner: Seq<char>, outer: Seq<char>) -> bool {
    starts_with(inner, outer) && inner.len() > outer.len() && inner[outer.len() as int] == '/'
}

/// The deepest segment of a name: everything after its last `/`.
pub open spec fn last_segment_of(name: Seq<char>) -> Seq<char> {
    split(name, '/').last()
}

/// Everything up to and including a name's last `/`, or nothing.
pub open spec fn head_of(name: Seq<char>) -> Seq<char> {
    name.subrange(0, name.len() - last_segment_of(name).len())
}

impl View for ProjectName {
    type V = Seq<char>;

    closed spec fn view(&self) -> Seq<char> {
        self.name@
    }
}

impl View for WorktreePath {
    type V = Seq<char>;

    closed spec fn view(&self) -> Seq<char> {
        self.path@
    }
}

/// Whether `s` is `repo.git` or `bin`.
fn reserved_segment(s: &Vec<char>) -> (r: bool)
    ensures
        r == is_reserved_segment(s@),
{
    let repo = chars_of(REPO_DIR_NAME);
    let bin = chars_of(BIN_DIR_NAME);
    proof {
        reveal_strlit("repo.git");
        reveal_strlit("bin");
    }
    same_chars(s.as_slice(), repo.as_slice()) || same_chars(s.as_slice(), bin.as_slice())
}

/// The verdict on a name's characters.
fn verdict_of(name: &Vec<char>) -> (r: Result<(), Option<Vec<char>>>)
    ensures
        match name_verdict(name@) {
            NameVerdict::Fine => r is Ok,
            NameVerdict::OffCharset => r matches Err(None),
            NameVerdict::Reserved(s) => r matches Err(Some(v)) && v@ == s,
        },
{
    if name.len() == 0 || name.len() > MAX_PROJECT_NAME_LENGTH {
        return Err(None);
    }
    let pieces = split_on(name.as_slice(), '/');
    let ghost segments = split(name@, '/');
    assert(name_verdict(name@) == segments_verdict(segments));
    let mut k: usize = 0;
    assert(segments.subrange(0, segments.len() as int) =~= segments);
    while k < pieces.len()
        invariant
            views(pieces@) == segments,
            segments == split(name@, '/'),
            name_verdict(name@) == segments_verdict(segments),
            k <= pieces@.len(),
            segments_verdict(segments) == segments_verdict(segments.subrange(k as int, segments.len() as int)),
        decreases pieces.len() - k,
    {
        let piece = &pieces[k];
        let ghost rest = segments.subrange(k as int, segments.len() as int);
        assert(rest[0] == piece@);
        assert(rest.drop_first() =~= segments.subrange(k as int + 1, segments.len() as int));
        if !is_on_charset(piece) {
            assert(segments_verdict(rest) == NameVerdict::OffCharset);
            return Err(None);
        }
        if reserved_segment(piece) {
            assert(segments_verdict(rest) == NameVerdict::Reserved(piece@));
            let copy = piece.clone();
            assert(copy@ == piece@);
            return Err(Some(copy));
        }
        assert(segments_verdict(rest) == segments_verdict(rest.drop_first()));
        k = k + 1;
    }
    assert(segments.subrange(segments.len() as int, segments.len() as int) =~= Seq::<Seq<char>>::empty());
    Ok(())
}

impl Clone for ProjectName {
    fn clone(&self) -> (r: ProjectName)
        ensures
            r@ == self@,
    {
        proof {
            use_type_invariant(self);
        }
        ProjectName { name: self.name.clone() }
    }
}

impl ProjectName {
    /// A name held here is a name.
    #[verifier::type_invariant]
    spec fn holds_a_name(self) -> bool {
        is_project_name(self.name@)
    }

    /// Checks the charset, segment by segment. A leading or trailing `/`, an
    /// empty segment and a `.` or `..` segment all fall out of the charset.
    pub fn parse(name: &str) -> (r: Result<ProjectName, EngineError>)
        ensures
            r is Ok <==> is_project_name(name@),
            r matches Ok(p) ==> p@ == name@,
            r matches Err(e) ==> is_name_error(name@, e),
    {
        let v = chars_of(name);
        match verdict_of(&v) {
            Ok(()) => Ok(ProjectName { name: owned(name) }),
            Err(None) => Err(EngineError::InvalidProjectName { name: owned(name) }),
            Err(Some(segment)) => Err(
                EngineError::ReservedNameSegment {
                    name: owned(name),
                    segment: string_of(segment.as_slice()),
                },
            ),
        }
    }

    /// Whether one path segment is on the charset.
    pub fn is_segment(segment: &str) -> (r: bool)
        ensures
            r == on_charset(segment@),
    {
        let v = chars_of(segment);
        is_on_charset(&v)
    }

    pub fn as_str(&self) -> (s: &str)
        ensures
            s@ == self@,
            is_project_name(self@),
    {
        proof {
            use_type_invariant(self);
        }
        self.name.as_str()
    }

    /// The owned text of this name.
    pub fn to_text(&self) -> (s: String)
        ensures
            s@ == self@,
    {
        self.name.clone()
    }

    /// The deepest segment, which the alternatives ladder suffixes.
    pub fn last_segment(&self) -> (s: String)
        ensures
            s@ == last_segment_of(self@),
    {
        let v = chars_of(self.name.as_str());
        let pieces = split_on(v.as_slice(), '/');
        proof {
            lemma_split_nonempty(v@, '/');
        }
        let last = &pieces[pieces.len() - 1];
        string_of(last.as_slice())
    }

    /// This name with its last segment replaced, where the result is still a
    /// name.
    pub fn with_last_segment(&self, replacement: &str) -> (r: Option<ProjectName>)
        ensures
            is_project_name(head_of(self@) + replacement@) ==> (r matches Some(p) && p@ == head_of(self@) + replacement@),
            !is_project_name(head_of(self@) + replacement@) ==> r is None,
    {
        let v = chars_of(self.name.as_str());
        let pieces = split_on(v.as_slice(), '/');
        proof {
            lemma_split_nonempty(v@, '/');
        }
        let last_len = pieces[pieces.len() - 1].len();
        proof {
            lemma_last_piece_fits(v@, '/');
        }
        let head = slice_of(v.as_slice(), 0, v.len() - last_len);
        let mut candidate = string_of(head.as_slice());
        push_str(&mut candidate, replacement);
        match ProjectName::parse(candidate.as_str()) {
            Ok(p) => Some(p),
            Err(_) => None,
        }
    }

    /// Whether one of these two names would live inside the other's project
    /// directory, in either direction. Equal names are not nesting.
    pub fn nests_with(&self, other: &ProjectName) -> (r: bool)
        ensures
            r == (inside(self@, other@) || inside(other@, self@)),
    {
        let a = chars_of(self.name.as_str());
        let b = chars_of(other.name.as_str());
        is_inside(&a, &b) || is_inside(&b, &a)
    }
}

/// The last piece of a split is no longer than what was split.
pub proof fn lemma_last_piece_fits(s: Seq<char>, sep: char)
    ensures
        split(s, sep).len() >= 1,
        split(s, sep).last().len() <= s.len(),
    decreases s.len(),
{
    lemma_split_nonempty(s, sep);
    if s.len() > 0 {
        lemma_last_piece_fits(s.drop_last(), sep);
    }
}

pub fn is_inside(inner: &Vec<char>, outer: &Vec<char>) -> (r: bool)
    ensures
        r == inside(inner@, outer@),
{
    has_prefix(inner.as_slice(), outer.as_slice()) && inner.len() > outer.len() && inner[outer.len()] == '/'
}

impl MemberRef {
    /// Reads the string form: `@name` is a project, anything else a path.
    pub fn parse(value: &str) -> (r: Result<MemberRef, EngineError>)
        ensures
            member_parsed(value@, r),
    {
        let v = chars_of(value);
        if v.len() > 0 && v[0] == PROJECT_SIGIL {
            let rest = slice_of(v.as_slice(), 1, v.len());
            assert(rest@ =~= value@.drop_first());
            let name = string_of(rest.as_slice());
            match ProjectName::parse(name.as_str()) {
                Ok(n) => Ok(MemberRef::Project(n)),
                Err(e) => Err(e),
            }
        } else {
            Ok(MemberRef::Repo(owned(value)))
        }
    }

    /// How this member is written: `@name` or the path.
    pub fn to_text(&self) -> (s: String)
        ensures
            s@ == member_text(*self),
    {
        match self {
            MemberRef::Project(n) => {
                let mut s = String::new();
                push_char(&mut s, PROJECT_SIGIL);
                push_str(&mut s, n.as_str());
                assert(s@ =~= seq!['@'] + n@);
                s
            },
            MemberRef::Repo(p) => p.clone(),
        }
    }

    /// Whether two refs name the same member.
    pub fn same_as(&self, other: &MemberRef) -> (r: bool)
        ensures
            r == (member_text(*self) == member_text(*other)),
    {
        let a = self.to_text();
        let b = other.to_text();
        let x = chars_of(a.as_str());
        let y = chars_of(b.as_str());
        same_chars(x.as_slice(), y.as_slice())
    }

    /// A copy of this ref.
    pub fn duplicate(&self) -> (r: MemberRef)
        ensures
            ref_view(r) == ref_view(*self),
            same_ref(r, *self),
            member_text(r) == member_text(*self),
    {
        match self {
            MemberRef::Project(n) => MemberRef::Project(n.clone()),
            MemberRef::Repo(p) => MemberRef::Repo(p.clone()),
        }
    }

    /// Whether two refs are the same member: the same arm, the same text.
    pub fn is_same(&self, other: &MemberRef) -> (r: bool)
        ensures
            r == same_ref(*self, *other),
    {
        match (self, other) {
            (MemberRef::Project(x), MemberRef::Project(y)) => {
                let a = chars_of(x.as_str());
                let b = chars_of(y.as_str());
                same_chars(a.as_slice(), b.as_slice())
            },
            (MemberRef::Repo(x), MemberRef::Repo(y)) => {
                let a = chars_of(x.as_str());
                let b = chars_of(y.as_str());
                same_chars(a.as_slice(), b.as_slice())
            },
            _ => false,
        }
    }

    /// Where this member's worktree goes, relative to the plane directory:
    /// the last two segments of the source.
    pub fn worktree_path(&self, source: &str) -> (r: Result<WorktreePath, EngineError>)
        ensures
            worktree_derived(source@, r),
    {
        let v = chars_of(source);
        let pieces = split_on(v.as_slice(), '/');
        let kept = keep_normal(&pieces);
        let tail = if kept.len() <= 2 {
            kept
        } else {
            let mut t: Vec<Vec<char>> = Vec::new();
            t.push(kept[kept.len() - 2].clone());
            t.push(kept[kept.len() - 1].clone());
            proof {
                let k = views(kept@);
                assert(views(t@) =~= k.subrange(k.len() - 2, k.len() as int));
            }
            t
        };
        let slash: Vec<char> = vec!['/'];
        let joined_path = join_pieces(tail.as_slice(), slash.as_slice());
        assert(slash@ =~= seq!['/']);
        if tail.len() == 0 {
            let mut message = owned(source);
            push_str(&mut message, " has no name to derive a worktree path from");
            return Err(EngineError::InvalidRequest { message });
        }
        let reserved = chars_of(RESERVED_SEGMENT);
        proof {
            reveal_strlit(".bitplane");
        }
        if same_chars(tail[0].as_slice(), reserved.as_slice()) {
            return Err(EngineError::ReservedPathSegment { path: string_of(joined_path.as_slice()) });
        }
        Ok(WorktreePath { path: string_of(joined_path.as_slice()) })
    }
}

/// The normal segments of `pieces`, in order.
fn keep_normal(pieces: &Vec<Vec<char>>) -> (r: Vec<Vec<char>>)
    ensures
        views(r@) == normal_segments(views(pieces@)),
{
    let mut r: Vec<Vec<char>> = Vec::new();
    let mut i: usize = 0;
    while i < pieces.len()
        invariant
            i <= pieces@.len(),
            views(r@) == normal_segments(views(pieces@.subrange(0, i as int))),
        decreases pieces.len() - i,
    {
        let piece = &pieces[i];
        let ghost upto = views(pieces@.subrange(0, i as int + 1));
        assert(upto.drop_last() =~= views(pieces@.subrange(0, i as int)));
        assert(upto.last() == piece@);
        let normal = piece.len() > 0 && !(piece.len() == 1 && piece[0] == '.') && !(piece.len() == 2
            && piece[0] == '.' && piece[1] == '.');
        proof {
            if piece@ == seq!['.'] {
                assert(piece@[0] == '.');
            }
            if piece@ == seq!['.', '.'] {
                assert(piece@[0] == '.' && piece@[1] == '.');
            }
            if piece@.len() == 1 && piece@[0] == '.' {
                assert(piece@ =~= seq!['.']);
            }
            if piece@.len() == 2 && piece@[0] == '.' && piece@[1] == '.' {
                assert(piece@ =~= seq!['.', '.']);
            }
        }
        assert(normal == is_normal_segment(piece@));
        if normal {
            r.push(piece.clone());
            assert(views(r@) =~= normal_segments(upto));
        } else {
            assert(views(r@) =~= normal_segments(upto));
        }
        i = i + 1;
    }
    assert(pieces@.subrange(0, pieces@.len() as int) =~= pieces@);
    r
}

impl WorktreePath {
    /// Reads a `plane.toml` member key, refusing everything that would let a
    /// hand-edited file aim a later `destroy` outside the plane directory.
    pub fn parse(key: &str) -> (r: Result<WorktreePath, MalformedWorktreePath>)
        ensures
            match key_verdict(key@) {
                Some(why) => r == Err::<WorktreePath, MalformedWorktreePath>(why),
                None => r matches Ok(w) && w@ == key@,
            },
    {
        let v = chars_of(key);
        if v.len() == 0 {
            return Err(MalformedWorktreePath::Empty);
        }
        if v[0] == '/' {
            return Err(MalformedWorktreePath::Absolute);
        }
        let dot_slash: Vec<char> = vec!['.', '/'];
        assert(dot_slash@ =~= seq!['.', '/']);
        if has_prefix(v.as_slice(), dot_slash.as_slice()) || (v.len() == 1 && v[0] == '.') {
            proof {
                if v@.len() == 1 && v@[0] == '.' {
                    assert(v@ =~= seq!['.']);
                }
            }
            return Err(MalformedWorktreePath::DotSlash);
        }
        proof {
            if v@ == seq!['.'] {
                assert(v@[0] == '.');
            }
        }
        let pieces = split_on(v.as_slice(), '/');
        assert(views(pieces@) == split(key@, '/'));
        let mut i: usize = 0;
        let parent: Vec<char> = vec!['.', '.'];
        assert(parent@ =~= seq!['.', '.']);
        while i < pieces.len()
            invariant
                i <= pieces@.len(),
                views(pieces@) == split(key@, '/'),
                key@.len() > 0,
                key@[0] != '/',
                !starts_with(key@, seq!['.', '/']),
                key@ != seq!['.'],
                parent@ == seq!['.', '.'],
                forall|j: int| 0 <= j < i ==> views(pieces@)[j] != seq!['.', '.'],
            decreases pieces.len() - i,
        {
            if same_chars(pieces[i].as_slice(), parent.as_slice()) {
                assert(views(pieces@)[i as int] == pieces@[i as int]@);
                assert(views(pieces@)[i as int] == seq!['.', '.']);
                assert(split(key@, '/')[i as int] == seq!['.', '.']);
                assert(split(key@, '/').contains(seq!['.', '.']));
                return Err(MalformedWorktreePath::ParentDir);
            }
            i = i + 1;
        }
        assert(!split(key@, '/').contains(seq!['.', '.']));
        let reserved = chars_of(RESERVED_SEGMENT);
        proof {
            reveal_strlit(".bitplane");
            lemma_split_nonempty(v@, '/');
        }
        if same_chars(pieces[0].as_slice(), reserved.as_slice()) {
            return Err(MalformedWorktreePath::ReservedSegment);
        }
        Ok(WorktreePath { path: owned(key) })
    }

    /// This path under `plane_directory`.
    pub fn under(&self, plane_directory: &str) -> (r: String)
        ensures
            r@ == path_join(plane_directory@, self@),
    {
        join_path(plane_directory, self.path.as_str())
    }

    /// A copy of this path.
    pub fn duplicate(&self) -> (r: WorktreePath)
        ensures
            r@ == self@,
    {
        WorktreePath { path: self.path.clone() }
    }

    pub fn as_path(&self) -> (s: &str)
        ensures
            s@ == self@,
    {
        self.path.as_str()
    }

    /// The owned text of this path.
    pub fn to_text(&self) -> (s: String)
        ensures
            s@ == self@,
    {
        self.path.clone()
    }
}

/// The clause that follows a malformed key in a parse error.
pub open spec fn malformed_reason(why: MalformedWorktreePath) -> Seq<char> {
    match why {
        MalformedWorktreePath::Empty => "is empty"@,
        MalformedWorktreePath::Absolute => "is absolute"@,
        MalformedWorktreePath::DotSlash => "starts with ./"@,
        MalformedWorktreePath::ParentDir => "contains .."@,
        MalformedWorktreePath::ReservedSegment => "begins with .bitplane, which is reserved"@,
    }
}

impl MalformedWorktreePath {
    /// The clause that follows the key in a parse error.
    pub fn reason(self) -> (s: &'static str)
        ensures
            s@ == malformed_reason(self),
    {
        proof {
            reveal_strlit("is empty");
            reveal_strlit("is absolute");
            reveal_strlit("starts with ./");
            reveal_strlit("contains ..");
            reveal_strlit("begins with .bitplane, which is reserved");
        }
        match self {
            MalformedWorktreePath::Empty => "is empty",
            MalformedWorktreePath::Absolute => "is absolute",
            MalformedWorktreePath::DotSlash => "starts with ./",
            MalformedWorktreePath::ParentDir => "contains ..",
            MalformedWorktreePath::ReservedSegment => "begins with .bitplane, which is reserved",
        }
    }
}

/// Reading a member back gives the member that was written: a project's
/// `@name` parses to that project, and a path that does not start with the
/// sigil parses to itself.
pub proof fn member_round_trips(m: MemberRef)
    requires
        m matches MemberRef::Project(n) ==> is_project_name(n@),
        m matches MemberRef::Repo(p) ==> !(p@.len() > 0 && p@[0] == '@'),
    ensures
        forall|r: Result<MemberRef, EngineError>|
            member_parsed(member_text(m), r) ==> (r matches Ok(back) && member_text(back) == member_text(m)),
{
    match m {
        MemberRef::Project(n) => {
            assert((seq!['@'] + n@).drop_first() =~= n@);
        },
        MemberRef::Repo(p) => {},
    }
}

/// Nesting runs in either direction and is never equality: one name sits
/// inside the other's project directory exactly when the other contains it,
/// and no name nests with itself.
pub proof fn nesting_is_symmetric_and_never_equality(a: Seq<char>, b: Seq<char>)
    ensures
        (inside(a, b) || inside(b, a)) == (inside(b, a) || inside(a, b)),
        !inside(a, a),
        inside(a, b) ==> a != b && !inside(b, a),
{
}

/// A member key that reads as a worktree path stays under the plane
/// directory: it is relative, it does not start at `.`, no segment of it
/// climbs out, and it does not land in bitplane's own directory.
pub proof fn a_worktree_path_never_escapes_its_plane(key: Seq<char>)
    requires
        key_verdict(key) is None,
    ensures
        key.len() > 0,
        key[0] != '/',
        key != seq!['.'],
        !starts_with(key, seq!['.', '/']),
        !split(key, '/').contains(seq!['.', '.']),
        split(key, '/')[0] != ".bitplane"@,
{
}

} // verus!
