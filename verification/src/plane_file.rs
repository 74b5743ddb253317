//! `plane.toml`: three keys, and a path-keyed membership table.
//!
//! ```toml
//! version = 1
//! id = "bp-a3f9c2e1"
//!
//! [members]
//! "acme/codestyle"    = "@codestyle"
//! "projects/bitplane" = "/Users/alfonz/projects/bitplane"
//! ```
//!
//! It is the membership list: which worktrees are in this plane, and what each
//! is a worktree of. The key is the worktree's path relative to the plane
//! directory root; the value names the source. Keys are refused if absolute,
//! containing `..`, starting with `./`, or beginning with `.bitplane`, because
//! a `..` in a hand-edited file would turn a later removal into a write
//! outside the plane directory.

use vstd::prelude::*;
use vstd::string::*;
use crate::error::{debug_quoted, debug_text, EngineError};
use crate::member::{ref_view, is_project_name, key_verdict, malformed_reason, member_parsed, member_text, MemberRef, WorktreePath};
use crate::plane_id::{is_well_formed_id, PlaneId};
use crate::text::{chars_of, same_chars, byte_len, byte_length, push_signed_decimal, push_spaces, push_str, signed_decimal};
use crate::toml::{entry, first_stranger, is_one_of, is_parse_failure, key_names, lookup, parse_failure, quoted, read_toml, stranger, text_of, toml_quoted, toml_reading, TomlValue};

verus! {

/// The schema version every plane file carries.
pub const CURRENT_VERSION: i64 = 1;

/// The name of the file, at the root of the plane directory.
pub const PLANE_FILE_NAME: &'static str = "plane.toml";

/// A plane's membership, as the file holds it.
#[derive(Debug, Clone, PartialEq, Eq)]
pub struct PlaneFile {
    pub version: i64,
    pub id: PlaneId,
    /// In declaration order, which is the order every fan-out prints.
    pub members: Vec<Member>,
}

/// One worktree, and what it is a worktree of.
#[derive(Debug, Clone, PartialEq, Eq)]
pub struct Member {
    pub path: WorktreePath,
    pub source: MemberRef,
}

impl Member {
    /// A copy of this member.
    pub fn duplicate(&self) -> (m: Member)
        ensures
            m.path@ == self.path@,
            ref_view(m.source) == ref_view(self.source),
            member_view(m) == member_view(*self),
    {
        Member { path: self.path.duplicate(), source: self.source.duplicate() }
    }
}

/// A member as data: its key and its source, as the file spells them.
pub open spec fn member_view(m: Member) -> (Seq<char>, Seq<char>) {
    (m.path@, member_text(m.source))
}

/// The membership as data, in order.
pub open spec fn member_views(ms: Seq<Member>) -> Seq<(Seq<char>, Seq<char>)> {
    Seq::new(ms.len(), |i: int| member_view(ms[i]))
}

/// The three keys, and nothing else.
pub open spec fn plane_keys() -> Seq<Seq<char>> {
    seq!["version"@, "id"@, "members"@]
}

/// Whether a member's value reads as a member ref: a sigil only in front of
/// a project name.
pub open spec fn source_parses(value: Seq<char>) -> bool {
    !(value.len() > 0 && value[0] == '@') || is_project_name(value.drop_first())
}

/// The key of the first member already read whose source is `source`.
pub open spec fn earlier_key(read: Seq<(Seq<char>, Seq<char>)>, source: Seq<char>) -> Option<Seq<char>>
    decreases read.len(),
{
    if read.len() == 0 {
        None
    } else if read[0].1 == source {
        Some(read[0].0)
    } else {
        earlier_key(read.drop_first(), source)
    }
}

/// What is wrong with one more member, given the members read before it.
pub open spec fn member_failure(read: Seq<(Seq<char>, Seq<char>)>, key: Seq<char>, value: TomlValue) -> Option<Seq<char>> {
    match value {
        TomlValue::Text(source) => match key_verdict(key) {
            Some(why) => Some("member key "@ + debug_text(key) + " "@ + malformed_reason(why)),
            None => if !source_parses(source@) {
                Some(
                    "member "@ + debug_text(key) + " names "@ + debug_text(source@)
                        + ", which is neither a project nor a path"@,
                )
            } else {
                match earlier_key(read, source@) {
                    Some(earlier) => Some(
                        "members "@ + debug_text(earlier) + " and "@ + debug_text(key) + " are both worktrees of "@
                            + source@,
                    ),
                    None => None,
                }
            },
        },
        _ => Some("member "@ + debug_text(key) + " must be a string naming what it is a worktree of"@),
    }
}

/// The membership table read in order; the first member that fails stops it.
pub open spec fn members_reading(entries: Seq<(String, TomlValue)>) -> Result<Seq<(Seq<char>, Seq<char>)>, Seq<char>>
    decreases entries.len(),
{
    if entries.len() == 0 {
        Ok(Seq::empty())
    } else {
        match members_reading(entries.drop_last()) {
            Err(m) => Err(m),
            Ok(read) => match member_failure(read, entries.last().0@, entries.last().1) {
                Some(m) => Err(m),
                None => Ok(read.push((entries.last().0@, text_of(entries.last().1)))),
            },
        }
    }
}

/// `version`: an integer, and the one this reads.
pub open spec fn version_reading(top: Seq<(String, TomlValue)>) -> Result<i64, Seq<char>> {
    match entry(top, "version"@) {
        Some(TomlValue::Integer(n)) => if n == 1 {
            Ok(n)
        } else {
            Err("version "@ + signed_decimal(n as int) + " is not a version bitplane understands"@)
        },
        _ => Err("version must be an integer"@),
    }
}

/// `id`: a string holding a well-formed plane id.
pub open spec fn id_reading(top: Seq<(String, TomlValue)>) -> Result<Seq<char>, Seq<char>> {
    match entry(top, "id"@) {
        Some(TomlValue::Text(s)) => if is_well_formed_id(s@) {
            Ok(s@)
        } else {
            Err(debug_text(s@) + " is not a valid plane id"@)
        },
        _ => Err("id must be a string"@),
    }
}

/// `members`: a table, header or inline, of members.
pub open spec fn membership_reading(top: Seq<(String, TomlValue)>) -> Result<Seq<(Seq<char>, Seq<char>)>, Seq<char>> {
    match entry(top, "members"@) {
        None => Err("members is missing"@),
        Some(TomlValue::Table(entries)) => members_reading(entries@),
        Some(_) => Err("members must be a table"@),
    }
}

/// What a parsed document says a plane file holds: its version, its id and
/// its members, or why it holds none.
pub open spec fn plane_reading(doc: TomlValue) -> Result<(i64, Seq<char>, Seq<(Seq<char>, Seq<char>)>), Seq<char>> {
    match doc {
        TomlValue::Table(top) => match first_stranger(top@, plane_keys()) {
            Some(key) => Err("unknown key "@ + debug_text(key)),
            None => match version_reading(top@) {
                Err(m) => Err(m),
                Ok(version) => match id_reading(top@) {
                    Err(m) => Err(m),
                    Ok(id) => match membership_reading(top@) {
                        Err(m) => Err(m),
                        Ok(members) => Ok((version, id, members)),
                    },
                },
            },
        },
        _ => Err("the document is not a table"@),
    }
}

/// Whether `f` holds what `reading` says, every source read back from the
/// text that spells it.
pub open spec fn holds_reading(f: PlaneFile, reading: (i64, Seq<char>, Seq<(Seq<char>, Seq<char>)>)) -> bool {
    &&& f.version == reading.0
    &&& f.id@ == reading.1
    &&& member_views(f.members@) == reading.2
    &&& forall|i: int| 0 <= i < f.members@.len() ==> member_parsed(#[trigger] reading.2[i].1, Ok(f.members@[i].source))
}

/// What `PlaneFile::from_toml` answers for `doc`.
pub open spec fn plane_file_from(path: Seq<char>, doc: TomlValue, r: Result<PlaneFile, EngineError>) -> bool {
    match plane_reading(doc) {
        Ok(reading) => r matches Ok(f) && holds_reading(f, reading),
        Err(message) => r matches Err(e) && is_parse_failure(e, path, message, plane_keys()),
    }
}

/// The text a rendering gives for each member's line, keys padded to `width`.
pub open spec fn member_lines(members: Seq<Member>, width: usize) -> Seq<char>
    decreases members.len(),
{
    if members.len() == 0 {
        Seq::empty()
    } else {
        let key = toml_quoted(members.last().path@);
        member_lines(members.drop_last(), width) + key + Seq::new(
            (width - byte_length(key)) as nat,
            |i: int| ' ',
        ) + " = "@ + toml_quoted(member_text(members.last().source)) + "\n"@
    }
}

/// The widest quoted key, in bytes: what every key is padded to.
pub open spec fn key_width(members: Seq<Member>) -> usize
    decreases members.len(),
{
    if members.len() == 0 {
        0
    } else {
        let w = byte_length(toml_quoted(members.last().path@));
        let rest = key_width(members.drop_last());
        if w > rest {
            w
        } else {
            rest
        }
    }
}

/// The whole text of a new plane file.
pub open spec fn plane_text(f: PlaneFile) -> Seq<char> {
    "version = "@ + signed_decimal(f.version as int) + "\nid = "@ + toml_quoted(f.id@) + "\n\n[members]\n"@
        + member_lines(f.members@, key_width(f.members@))
}

proof fn lemma_key_width_covers(members: Seq<Member>, i: int)
    requires
        0 <= i < members.len(),
    ensures
        byte_length(toml_quoted(members[i].path@)) <= key_width(members),
    decreases members.len(),
{
    if i < members.len() - 1 {
        lemma_key_width_covers(members.drop_last(), i);
    }
}

fn plane_failure(path: &str, message: String) -> (e: EngineError)
    ensures
        is_parse_failure(e, path@, message@, plane_keys()),
{
    let legal: [&str; 3] = ["version", "id", "members"];
    let e = parse_failure(path, message, &legal);
    assert(key_names(legal@) =~= plane_keys());
    e
}

fn read_version(top: &Vec<(String, TomlValue)>) -> (r: Result<i64, String>)
    ensures
        match (r, version_reading(top@)) {
            (Ok(a), Ok(b)) => a == b,
            (Err(a), Err(b)) => a@ == b,
            _ => false,
        },
{
    match lookup(top, "version") {
        Some(TomlValue::Integer(n)) => {
            if *n == CURRENT_VERSION {
                Ok(*n)
            } else {
                let mut message = String::new();
                push_str(&mut message, "version ");
                push_signed_decimal(&mut message, *n);
                push_str(&mut message, " is not a version bitplane understands");
                Err(message)
            }
        },
        _ => Err(crate::text::owned("version must be an integer")),
    }
}

fn read_id(top: &Vec<(String, TomlValue)>) -> (r: Result<PlaneId, String>)
    ensures
        match (r, id_reading(top@)) {
            (Ok(a), Ok(b)) => a@ == b,
            (Err(a), Err(b)) => a@ == b,
            _ => false,
        },
{
    match lookup(top, "id") {
        Some(TomlValue::Text(id)) => match PlaneId::parse(id.as_str()) {
            Ok(p) => Ok(p),
            Err(_) => {
                let mut message = debug_quoted(id.as_str());
                push_str(&mut message, " is not a valid plane id");
                Err(message)
            },
        },
        _ => Err(crate::text::owned("id must be a string")),
    }
}

proof fn lemma_parsed_text(value: Seq<char>, m: MemberRef)
    requires
        member_parsed(value, Ok(m)),
    ensures
        member_text(m) == value,
{
    if value.len() > 0 && value[0] == '@' {
        assert(seq!['@'] + value.drop_first() =~= value);
    }
}

proof fn lemma_earlier_key_absent(read: Seq<(Seq<char>, Seq<char>)>, source: Seq<char>)
    requires
        forall|j: int| 0 <= j < read.len() ==> #[trigger] read[j].1 != source,
    ensures
        earlier_key(read, source) is None,
    decreases read.len(),
{
    if read.len() > 0 {
        assert forall|j: int| 0 <= j < read.drop_first().len() implies #[trigger] read.drop_first()[j].1 != source by {
            assert(read.drop_first()[j] == read[j + 1]);
        }
        lemma_earlier_key_absent(read.drop_first(), source);
    }
}

proof fn lemma_earlier_key_found(read: Seq<(Seq<char>, Seq<char>)>, source: Seq<char>, j: int)
    requires
        0 <= j < read.len(),
        read[j].1 == source,
        forall|k: int| 0 <= k < j ==> #[trigger] read[k].1 != source,
    ensures
        earlier_key(read, source) == Some(read[j].0),
    decreases j,
{
    if j > 0 {
        assert forall|k: int| 0 <= k < j - 1 implies #[trigger] read.drop_first()[k].1 != source by {
            assert(read.drop_first()[k] == read[k + 1]);
        }
        lemma_earlier_key_found(read.drop_first(), source, j - 1);
    }
}

/// The member whose source spells `source`, where one was read already.
fn find_earlier(members: &Vec<Member>, source: &MemberRef) -> (r: Option<usize>)
    ensures
        match r {
            Some(j) => j < members@.len() && earlier_key(member_views(members@), member_text(*source)) == Some(
                members@[j as int].path@,
            ),
            None => earlier_key(member_views(members@), member_text(*source)) is None,
        },
{
    let ghost views = member_views(members@);
    let mut j: usize = 0;
    while j < members.len()
        invariant
            j <= members@.len(),
            views == member_views(members@),
            forall|k: int| 0 <= k < j ==> #[trigger] views[k].1 != member_text(*source),
        decreases members.len() - j,
    {
        if members[j].source.same_as(source) {
            proof {
                lemma_earlier_key_found(views, member_text(*source), j as int);
            }
            return Some(j);
        }
        j = j + 1;
    }
    proof {
        lemma_earlier_key_absent(views, member_text(*source));
    }
    None
}

/// One member more, or why it is not one.
fn read_member(members: &Vec<Member>, key: &String, value: &TomlValue) -> (r: Result<Member, String>)
    requires
        forall|i: int| 0 <= i < members@.len() ==> member_parsed(
            #[trigger] member_views(members@)[i].1,
            Ok(members@[i].source),
        ),
    ensures
        match member_failure(member_views(members@), key@, *value) {
            Some(m) => r matches Err(e) && e@ == m,
            None => r matches Ok(member) && member.path@ == key@ && member_text(member.source) == text_of(*value)
                && member_parsed(text_of(*value), Ok(member.source)),
        },
{
    match value {
        TomlValue::Text(source) => {
            let worktree = match WorktreePath::parse(key.as_str()) {
                Ok(w) => w,
                Err(why) => {
                    let mut message = crate::text::owned("member key ");
                    let quoted_key = debug_quoted(key.as_str());
                    push_str(&mut message, quoted_key.as_str());
                    push_str(&mut message, " ");
                    push_str(&mut message, why.reason());
                    return Err(message);
                },
            };
            let parsed = match MemberRef::parse(source.as_str()) {
                Ok(m) => m,
                Err(_) => {
                    let mut message = crate::text::owned("member ");
                    let quoted_key = debug_quoted(key.as_str());
                    push_str(&mut message, quoted_key.as_str());
                    push_str(&mut message, " names ");
                    let quoted_source = debug_quoted(source.as_str());
                    push_str(&mut message, quoted_source.as_str());
                    push_str(&mut message, ", which is neither a project nor a path");
                    return Err(message);
                },
            };
            proof {
                lemma_parsed_text(source@, parsed);
            }
            match find_earlier(members, &parsed) {
                Some(j) => {
                    let mut message = crate::text::owned("members ");
                    let earlier = members[j].path.to_text();
                    let quoted_earlier = debug_quoted(earlier.as_str());
                    push_str(&mut message, quoted_earlier.as_str());
                    push_str(&mut message, " and ");
                    let quoted_key = debug_quoted(key.as_str());
                    push_str(&mut message, quoted_key.as_str());
                    push_str(&mut message, " are both worktrees of ");
                    push_str(&mut message, source.as_str());
                    Err(message)
                },
                None => Ok(Member { path: worktree, source: parsed }),
            }
        },
        _ => {
            let mut message = crate::text::owned("member ");
            let quoted_key = debug_quoted(key.as_str());
            push_str(&mut message, quoted_key.as_str());
            push_str(&mut message, " must be a string naming what it is a worktree of");
            Err(message)
        },
    }
}

fn read_members(entries: &Vec<(String, TomlValue)>) -> (r: Result<Vec<Member>, String>)
    ensures
        match (r, members_reading(entries@)) {
            (Ok(ms), Ok(read)) => member_views(ms@) == read && forall|i: int|
                0 <= i < ms@.len() ==> member_parsed(#[trigger] read[i].1, Ok(ms@[i].source)),
            (Err(a), Err(b)) => a@ == b,
            _ => false,
        },
{
    let mut members: Vec<Member> = Vec::new();
    let mut i: usize = 0;
    assert(entries@.subrange(0, 0) =~= Seq::<(String, TomlValue)>::empty());
    assert(member_views(members@) =~= Seq::empty());
    while i < entries.len()
        invariant
            i <= entries@.len(),
            members_reading(entries@.subrange(0, i as int)) == Ok::<_, Seq<char>>(member_views(members@)),
            forall|k: int| 0 <= k < members@.len() ==> member_parsed(
                #[trigger] member_views(members@)[k].1,
                Ok(members@[k].source),
            ),
        decreases entries.len() - i,
    {
        let ghost upto = entries@.subrange(0, i as int + 1);
        assert(upto.drop_last() =~= entries@.subrange(0, i as int));
        assert(upto.last() == entries@[i as int]);
        let (key, value) = (&entries[i].0, &entries[i].1);
        match read_member(&members, key, value) {
            Ok(member) => {
                let ghost before = members@;
                members.push(member);
                assert(member_views(members@) =~= member_views(before).push((key@, text_of(*value))));
                assert forall|k: int| 0 <= k < members@.len() implies member_parsed(
                    #[trigger] member_views(members@)[k].1,
                    Ok(members@[k].source),
                ) by {
                    if k < before.len() {
                        assert(members@[k] == before[k]);
                        assert(member_views(members@)[k] == member_views(before)[k]);
                    }
                }
            },
            Err(message) => {
                proof {
                    lemma_members_reading_stops(entries@, i as int);
                }
                return Err(message);
            },
        }
        i = i + 1;
    }
    assert(entries@.subrange(0, entries@.len() as int) =~= entries@);
    Ok(members)
}

/// Once a member fails, the whole table fails with its message.
proof fn lemma_members_reading_stops(entries: Seq<(String, TomlValue)>, i: int)
    requires
        0 <= i < entries.len(),
        members_reading(entries.subrange(0, i + 1)) is Err,
    ensures
        members_reading(entries) == members_reading(entries.subrange(0, i + 1)),
    decreases entries.len() - i,
{
    if i + 1 == entries.len() {
        assert(entries.subrange(0, i + 1) =~= entries);
    } else {
        assert(entries.drop_last().subrange(0, i + 1) =~= entries.subrange(0, i + 1));
        lemma_members_reading_stops(entries.drop_last(), i);
    }
}


/// Whether `doc` is the document a rendering of `f` spells: the three keys in
/// order, and one string per member under its path.
pub open spec fn spells_plane(doc: TomlValue, f: PlaneFile) -> bool {
    &&& doc matches TomlValue::Table(top) && top@.len() == 3 && top@[0].0@ == "version"@ && top@[0].1
        == TomlValue::Integer(f.version) && top@[1].0@ == "id"@ && (top@[1].1 matches TomlValue::Text(id)
        && id@ == f.id@) && top@[2].0@ == "members"@ && (top@[2].1 matches TomlValue::Table(es)
        && es@.len() == f.members@.len() && forall|i: int|
        0 <= i < es@.len() ==> #[trigger] es@[i].0@ == f.members@[i].path@ && (es@[i].1 matches TomlValue::Text(
        v) && v@ == member_text(f.members@[i].source)))
}

/// Whether a plane file is one bitplane could have read: the current version,
/// every key a safe path, every source readable, and no source twice.
pub open spec fn readable_plane(f: PlaneFile) -> bool {
    &&& f.version == 1
    &&& is_well_formed_id(f.id@)
    &&& forall|i: int| 0 <= i < f.members@.len() ==> key_verdict(#[trigger] f.members@[i].path@) is None
    &&& forall|i: int| 0 <= i < f.members@.len() ==> source_reads_as(#[trigger] f.members@[i].source)
    &&& forall|i: int, j: int|
        0 <= i < j < f.members@.len() ==> member_text(#[trigger] f.members@[i].source) != member_text(
            #[trigger] f.members@[j].source,
        )
}

/// Whether a source's text reads back as that same source.
pub open spec fn source_reads_as(m: MemberRef) -> bool {
    match m {
        MemberRef::Project(n) => is_project_name(n@),
        MemberRef::Repo(p) => !(p@.len() > 0 && p@[0] == '@'),
    }
}

proof fn lemma_members_read_back(es: Seq<(String, TomlValue)>, ms: Seq<Member>, n: int)
    requires
        0 <= n <= es.len(),
        es.len() == ms.len(),
        forall|i: int|
            0 <= i < es.len() ==> #[trigger] es[i].0@ == ms[i].path@ && (es[i].1 matches TomlValue::Text(v)
                && v@ == member_text(ms[i].source)),
        forall|i: int| 0 <= i < ms.len() ==> key_verdict(#[trigger] ms[i].path@) is None,
        forall|i: int| 0 <= i < ms.len() ==> source_reads_as(#[trigger] ms[i].source),
        forall|i: int, j: int|
            0 <= i < j < ms.len() ==> member_text(#[trigger] ms[i].source) != member_text(#[trigger] ms[j].source),
    ensures
        members_reading(es.subrange(0, n)) == Ok::<_, Seq<char>>(member_views(ms.subrange(0, n))),
    decreases n,
{
    if n == 0 {
        assert(member_views(ms.subrange(0, 0)) =~= Seq::empty());
    } else {
        lemma_members_read_back(es, ms, n - 1);
        let prefix = es.subrange(0, n);
        assert(prefix.drop_last() =~= es.subrange(0, n - 1));
        assert(prefix.last() == es[n - 1]);
        let read = member_views(ms.subrange(0, n - 1));
        let m = ms[n - 1];
        let text = member_text(m.source);
        assert(es[n - 1].0@ == m.path@);
        assert(key_verdict(m.path@) is None);
        assert(source_reads_as(m.source));
        match m.source {
            MemberRef::Project(name) => {
                assert((seq!['@'] + name@).drop_first() =~= name@);
            },
            MemberRef::Repo(p) => {},
        }
        assert(source_parses(text));
        assert forall|j: int| 0 <= j < read.len() implies #[trigger] read[j].1 != text by {
            assert(read[j].1 == member_text(ms[j].source));
        }
        lemma_earlier_key_absent(read, text);
        assert(member_views(ms.subrange(0, n)) =~= read.push((m.path@, text)));
    }
}

/// A plane file bitplane could have read, written and read back, is the
/// plane file that was written: the document its rendering spells reads as
/// the same version, id and members, each source as itself.
pub proof fn plane_file_reads_back(f: PlaneFile, doc: TomlValue)
    requires
        readable_plane(f),
        spells_plane(doc, f),
    ensures
        plane_reading(doc) == Ok::<_, Seq<char>>((f.version, f.id@, member_views(f.members@))),
        holds_reading(f, (f.version, f.id@, member_views(f.members@))),
{
    let top = match doc {
        TomlValue::Table(top) => top@,
        _ => Seq::empty(),
    };
    let legal = plane_keys();
    assert(top.drop_first().drop_first().drop_first() =~= Seq::<(String, TomlValue)>::empty());
    assert(legal[0] == top[0].0@);
    assert(legal[1] == top[1].0@);
    assert(legal[2] == top[2].0@);
    assert(top.drop_first()[0] == top[1]);
    assert(top.drop_first().drop_first()[0] == top[2]);
    assert(is_one_of(top[0].0@, legal));
    assert(is_one_of(top[1].0@, legal));
    assert(is_one_of(top[2].0@, legal));
    assert(first_stranger(top.drop_first().drop_first().drop_first(), legal) is None);
    assert(first_stranger(top.drop_first().drop_first(), legal) is None);
    assert(first_stranger(top.drop_first(), legal) is None);
    assert(first_stranger(top, legal) is None);
    assert(entry(top, "version"@) == Some(top[0].1));
    assert("id"@ != "version"@) by {
        assert("id"@.len() != "version"@.len()) by {
            reveal_strlit("id");
            reveal_strlit("version");
        }
    }
    assert("members"@ != "version"@) by {
        reveal_strlit("version");
        reveal_strlit("members");
        assert("members"@[0] != "version"@[0]);
    }
    assert("members"@ != "id"@) by {
        reveal_strlit("id");
        reveal_strlit("members");
        assert("members"@.len() != "id"@.len());
    }
    assert(entry(top.drop_first(), "id"@) == Some(top[1].1));
    assert(entry(top, "id"@) == Some(top[1].1));
    assert(entry(top.drop_first().drop_first(), "members"@) == Some(top[2].1));
    assert(entry(top.drop_first(), "members"@) == Some(top[2].1));
    assert(entry(top, "members"@) == Some(top[2].1));
    match top[2].1 {
        TomlValue::Table(es) => {
            lemma_members_read_back(es@, f.members@, es@.len() as int);
            assert(es@.subrange(0, es@.len() as int) =~= es@);
            assert(f.members@.subrange(0, f.members@.len() as int) =~= f.members@);
        },
        _ => {},
    }
    assert forall|i: int| 0 <= i < f.members@.len() implies member_parsed(
        #[trigger] member_views(f.members@)[i].1,
        Ok(f.members@[i].source),
    ) by {
        let m = f.members@[i];
        assert(source_reads_as(m.source));
        match m.source {
            MemberRef::Project(name) => {
                assert((seq!['@'] + name@).drop_first() =~= name@);
            },
            MemberRef::Repo(p) => {},
        }
    }
}

impl PlaneFile {
    /// A new plane's membership, at the current version.
    pub fn new(id: PlaneId, members: Vec<Member>) -> (f: PlaneFile)
        ensures
            f.version == 1,
            f.id@ == id@,
            f.members == members,
    {
        PlaneFile { version: CURRENT_VERSION, id, members }
    }

    /// Reads a parsed document, which came from `path`. `path` only names
    /// the file in a failure.
    pub fn from_toml(path: &str, doc: &TomlValue) -> (r: Result<PlaneFile, EngineError>)
        ensures
            plane_file_from(path@, *doc, r),
    {
        let top = match doc {
            TomlValue::Table(top) => top,
            _ => {
                return Err(plane_failure(path, crate::text::owned("the document is not a table")));
            },
        };
        let legal: [&str; 3] = ["version", "id", "members"];
        assert(key_names(legal@) =~= plane_keys());
        if let Some(key) = stranger(top, &legal) {
            let mut message = crate::text::owned("unknown key ");
            let quoted_key = debug_quoted(key.as_str());
            push_str(&mut message, quoted_key.as_str());
            return Err(plane_failure(path, message));
        }
        let version = match read_version(top) {
            Ok(v) => v,
            Err(message) => {
                return Err(plane_failure(path, message));
            },
        };
        let id = match read_id(top) {
            Ok(id) => id,
            Err(message) => {
                return Err(plane_failure(path, message));
            },
        };
        let members = match lookup(top, "members") {
            None => {
                return Err(plane_failure(path, crate::text::owned("members is missing")));
            },
            Some(TomlValue::Table(entries)) => match read_members(entries) {
                Ok(ms) => ms,
                Err(message) => {
                    return Err(plane_failure(path, message));
                },
            },
            Some(_) => {
                return Err(plane_failure(path, crate::text::owned("members must be a table")));
            },
        };
        Ok(PlaneFile { version, id, members })
    }

    /// Reads `text`, which came from `path`. What the text holds is what
    /// `toml_edit` reads from it; a failure of that read is a parse error
    /// carrying `toml_edit`'s own words.
    pub fn parse(path: &str, text: &str) -> (r: Result<PlaneFile, EngineError>)
        ensures
            match toml_reading(text@) {
                Ok(doc) => plane_file_from(path@, doc, r),
                Err(complaint) => r matches Err(e) && is_parse_failure(e, path@, complaint, plane_keys()),
            },
    {
        match read_toml(text) {
            Ok(doc) => PlaneFile::from_toml(path, &doc),
            Err(message) => Err(plane_failure(path, message)),
        }
    }

    /// The whole text of a new plane file: the keys aligned on the `=`, so
    /// the file stays worth reading by hand, measured on the quoted key
    /// because that is what lands in the file.
    pub fn render(&self) -> (text: String)
        ensures
            text@ == plane_text(*self),
    {
        let mut keys: Vec<String> = Vec::new();
        let mut width: usize = 0;
        let mut i: usize = 0;
        while i < self.members.len()
            invariant
                i <= self.members@.len(),
                keys@.len() == i,
                forall|j: int| 0 <= j < i ==> #[trigger] keys@[j]@ == toml_quoted(self.members@[j].path@),
                width == key_width(self.members@.subrange(0, i as int)),
            decreases self.members.len() - i,
        {
            let key = quoted(self.members[i].path.as_path());
            let n = byte_len(key.as_str());
            let ghost upto = self.members@.subrange(0, i as int + 1);
            assert(upto.drop_last() =~= self.members@.subrange(0, i as int));
            if n > width {
                width = n;
            }
            keys.push(key);
            i = i + 1;
        }
        assert(self.members@.subrange(0, self.members@.len() as int) =~= self.members@);
        let mut text = crate::text::owned("version = ");
        push_signed_decimal(&mut text, self.version);
        push_str(&mut text, "\nid = ");
        let id = quoted(self.id.as_str());
        push_str(&mut text, id.as_str());
        push_str(&mut text, "\n\n[members]\n");
        let ghost head = text@;
        let mut k: usize = 0;
        assert(self.members@.subrange(0, 0) =~= Seq::<Member>::empty());
        while k < self.members.len()
            invariant
                k <= self.members@.len(),
                keys@.len() == self.members@.len(),
                forall|j: int| 0 <= j < self.members@.len() ==> #[trigger] keys@[j]@ == toml_quoted(self.members@[j].path@),
                width == key_width(self.members@),
                text@ == head + member_lines(self.members@.subrange(0, k as int), width),
            decreases self.members.len() - k,
        {
            proof {
                lemma_key_width_covers(self.members@, k as int);
            }
            let key = &keys[k];
            let n = byte_len(key.as_str());
            push_str(&mut text, key.as_str());
            push_spaces(&mut text, width - n);
            push_str(&mut text, " = ");
            let source = self.members[k].source.to_text();
            let value = quoted(source.as_str());
            push_str(&mut text, value.as_str());
            push_str(&mut text, "\n");
            let ghost upto = self.members@.subrange(0, k as int + 1);
            assert(upto.drop_last() =~= self.members@.subrange(0, k as int));
            assert(upto.last() == self.members@[k as int]);
            k = k + 1;
            assert(text@ =~= head + member_lines(self.members@.subrange(0, k as int), width));
        }
        assert(self.members@.subrange(0, self.members@.len() as int) =~= self.members@);
        text
    }
}


/// Whether two texts are the same.
fn same_text(a: &str, b: &str) -> (r: bool)
    ensures
        r == (a@ == b@),
{
    let x = chars_of(a);
    let y = chars_of(b);
    same_chars(x.as_slice(), y.as_slice())
}

/// Whether `path` is one of `paths`.
pub open spec fn listed(paths: Seq<WorktreePath>, path: Seq<char>) -> bool {
    exists|k: int| 0 <= k < paths.len() && #[trigger] paths[k]@ == path
}

/// The members not at any of `paths`, in their order.
pub open spec fn kept_members(members: Seq<Member>, paths: Seq<WorktreePath>) -> Seq<Member>
    decreases members.len(),
{
    if members.len() == 0 {
        Seq::empty()
    } else {
        let rest = kept_members(members.drop_last(), paths);
        if listed(paths, members.last().path@) {
            rest
        } else {
            rest.push(members.last())
        }
    }
}

/// The membership without the members at `paths`: what `rm` writes back,
/// and what an add that unwound writes back without its own members.
pub fn without_paths(members: Vec<Member>, paths: &[WorktreePath]) -> (r: Vec<Member>)
    ensures
        r@ == kept_members(members@, paths@),
{
    let ghost all = members@;
    let mut kept: Vec<Member> = Vec::new();
    let mut rest = members;
    let mut i: usize = 0;
    let n = rest.len();
    assert(all.take(0) =~= Seq::<Member>::empty());
    while i < n
        invariant
            n == all.len(),
            i <= n,
            rest@ == all.subrange(i as int, n as int),
            kept@ == kept_members(all.take(i as int), paths@),
        decreases n - i,
    {
        let member = rest.remove(0);
        assert(member == all[i as int]);
        assert(rest@ =~= all.subrange(i as int + 1, n as int));
        assert(all.take(i + 1).drop_last() =~= all.take(i as int));
        assert(all.take(i + 1).last() == member);
        let mut found = false;
        let mut k: usize = 0;
        while k < paths.len()
            invariant
                k <= paths@.len(),
                found == (exists|j: int| 0 <= j < k && #[trigger] paths@[j]@ == member.path@),
            decreases paths.len() - k,
        {
            if same_text(paths[k].as_path(), member.path.as_path()) {
                found = true;
            }
            k = k + 1;
        }
        if !found {
            kept.push(member);
        }
        i = i + 1;
    }
    assert(all.take(n as int) =~= all);
    kept
}

} // verus!
