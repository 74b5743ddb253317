//! `project.toml`: a version, a name, a source, and the scripts.
//!
//! ```toml
//! version = 1
//! name = "codestyle"
//!
//! [source]
//! type = "owned"
//! url = "git@gitlab.com:acme/codestyle.git"
//! ```
//!
//! `name` is an integrity check only: the directory name is the name. The
//! kind is named after ownership, and an owned source is always a `url`, an
//! adopted one always a `path`, so a `type` that disagrees with its payload is
//! a parse error.

use vstd::prelude::*;
use crate::error::{debug_quoted, debug_text, texts, EngineError};
use crate::member::{is_project_name, member_text, MemberRef, ProjectName};
use crate::plane_file::{version_reading, CURRENT_VERSION};
use crate::scripts::{point_key, Script, ScriptCommand, ScriptName, ScriptPoint};
use crate::source::{kind_of, source_text, ProjectSource};
use crate::text::{on_charset, owned, push_signed_decimal, push_str, signed_decimal};
use crate::toml::{entry, first_stranger, is_one_of, is_parse_failure, key_names, lookup, parse_failure, quoted, read_toml, stranger, toml_quoted, toml_reading, TomlValue};

verus! {

/// The name of the file, at the root of the project directory. A project is
/// exactly a directory containing one.
pub const PROJECT_FILE_NAME: &'static str = "project.toml";

/// A project, as the file holds it.
#[derive(Debug, Clone, PartialEq, Eq)]
pub struct ProjectFile {
    pub version: i64,
    /// The integrity check. The directory name is the authority.
    pub name: ProjectName,
    pub source: ProjectSource,
    /// In declaration order, which is execution order.
    pub scripts: Vec<Script>,
}

/// A command as data.
pub enum CommandView {
    Argv(Seq<Seq<char>>),
    Shell(Seq<char>),
}

/// A command as data.
pub open spec fn command_view(c: ScriptCommand) -> CommandView {
    match c {
        ScriptCommand::Argv(words) => CommandView::Argv(texts(words@)),
        ScriptCommand::Shell(line) => CommandView::Shell(line@),
    }
}

/// A script as data: its name, its command and its points.
pub open spec fn script_view(s: Script) -> (Seq<char>, CommandView, Seq<ScriptPoint>) {
    (s.name@, command_view(s.command), s.points@)
}

/// The scripts as data, in order.
pub open spec fn script_views(ss: Seq<Script>) -> Seq<(Seq<char>, CommandView, Seq<ScriptPoint>)> {
    Seq::new(ss.len(), |i: int| script_view(ss[i]))
}

/// The four keys, and nothing else.
pub open spec fn project_keys() -> Seq<Seq<char>> {
    seq!["version"@, "name"@, "source"@, "scripts"@]
}

/// What a `[source]` table may hold.
pub open spec fn source_keys() -> Seq<Seq<char>> {
    seq!["type"@, "url"@, "path"@]
}

/// What a `[scripts.<name>]` table may hold.
pub open spec fn script_keys() -> Seq<Seq<char>> {
    seq!["argv"@, "shell"@, "post_worktree_create"@, "pre_worktree_remove"@]
}

/// The text of a value that is a string.
pub open spec fn text_in(v: Option<TomlValue>) -> Option<Seq<char>> {
    match v {
        Some(TomlValue::Text(s)) => Some(s@),
        _ => None,
    }
}

/// `name`: a string holding a project name.
pub open spec fn name_reading(top: Seq<(String, TomlValue)>) -> Result<Seq<char>, Seq<char>> {
    match entry(top, "name"@) {
        Some(TomlValue::Text(s)) => if is_project_name(s@) {
            Ok(s@)
        } else {
            Err(debug_text(s@) + " is not a valid project name"@)
        },
        _ => Err("name must be a string"@),
    }
}

/// `[source]`: whether it is owned, and the url or path it holds; or the
/// failure and the keys its remedy lists.
pub open spec fn source_reading(top: Seq<(String, TomlValue)>) -> Result<(bool, Seq<char>), (Seq<char>, Seq<Seq<char>>)> {
    match entry(top, "source"@) {
        Some(TomlValue::Table(es)) => match first_stranger(es@, source_keys()) {
            Some(key) => Err(("unknown key "@ + debug_text(key) + " in [source]"@, source_keys())),
            None => match entry(es@, "type"@) {
                Some(TomlValue::Text(kind)) => {
                    let url = text_in(entry(es@, "url"@));
                    let local = text_in(entry(es@, "path"@));
                    if kind@ == "owned"@ {
                        match (url, local) {
                            (Some(u), None) => Ok((true, u)),
                            _ => Err(("an owned source is always a url"@, source_keys())),
                        }
                    } else if kind@ == "adopted"@ {
                        match (url, local) {
                            (None, Some(p)) => Ok((false, p)),
                            _ => Err(("an adopted source is always a path"@, source_keys())),
                        }
                    } else {
                        Err((debug_text(kind@) + " is not a project kind"@, source_keys()))
                    }
                },
                _ => Err(("source type must be a string"@, source_keys())),
            },
        },
        _ => Err(("source must be a table"@, project_keys())),
    }
}

/// Whether every value is a string.
pub open spec fn all_text(words: Seq<TomlValue>) -> bool {
    forall|i: int| 0 <= i < words.len() ==> #[trigger] words[i] is Text
}

/// The texts of values that are all strings.
pub open spec fn word_texts(words: Seq<TomlValue>) -> Seq<Seq<char>> {
    Seq::new(words.len(), |i: int| crate::toml::text_of(words[i]))
}

/// `[scripts.<name>]`, as a message names it.
pub open spec fn table_name(name: Seq<char>) -> Seq<char> {
    "[scripts."@ + name + "]"@
}

/// `argv = [...]` or `shell = "..."`, never both or neither.
pub open spec fn command_reading(name: Seq<char>, es: Seq<(String, TomlValue)>) -> Result<CommandView, Seq<char>> {
    match (entry(es, "argv"@), entry(es, "shell"@)) {
        (Some(_), Some(_)) => Err(table_name(name) + " has both argv and shell"@),
        (None, None) => Err(table_name(name) + " has neither argv nor shell"@),
        (Some(argv), None) => match argv {
            TomlValue::Array(words) => if !all_text(words@) {
                Err(table_name(name) + " argv must be an array of strings"@)
            } else if words@.len() == 0 {
                Err(table_name(name) + " argv names no command"@)
            } else {
                Ok(CommandView::Argv(word_texts(words@)))
            },
            _ => Err(table_name(name) + " argv must be an array"@),
        },
        (None, Some(shell)) => match shell {
            TomlValue::Text(line) => Ok(CommandView::Shell(line@)),
            _ => Err(table_name(name) + " shell must be a string"@),
        },
    }
}

/// One point's toggle: absent, on, off, or not a boolean.
pub open spec fn toggle_reading(name: Seq<char>, es: Seq<(String, TomlValue)>, p: ScriptPoint) -> Result<Seq<ScriptPoint>, Seq<char>> {
    match entry(es, point_key(p)) {
        None => Ok(Seq::empty()),
        Some(TomlValue::Boolean(on)) => Ok(
            if on {
                seq![p]
            } else {
                Seq::empty()
            },
        ),
        Some(_) => Err(table_name(name) + " "@ + point_key(p) + " must be true or false"@),
    }
}

/// The points whose toggle is on, in the order the points are listed.
pub open spec fn points_reading(name: Seq<char>, es: Seq<(String, TomlValue)>) -> Result<Seq<ScriptPoint>, Seq<char>> {
    match toggle_reading(name, es, ScriptPoint::PostWorktreeCreate) {
        Err(m) => Err(m),
        Ok(first) => match toggle_reading(name, es, ScriptPoint::PreWorktreeRemove) {
            Err(m) => Err(m),
            Ok(second) => Ok(first + second),
        },
    }
}

/// One `[scripts.<name>]` entry.
pub open spec fn script_reading(name: Seq<char>, v: TomlValue) -> Result<(Seq<char>, CommandView, Seq<ScriptPoint>), (Seq<char>, Seq<Seq<char>>)> {
    if !on_charset(name) {
        Err(
            (
                debug_text(name) + " is not a valid script name; use lowercase letters, digits and . _ -"@,
                Seq::empty(),
            ),
        )
    } else {
        match v {
            TomlValue::Table(es) => match first_stranger(es@, script_keys()) {
                Some(key) => Err(("unknown key "@ + debug_text(key) + " in "@ + table_name(name), script_keys())),
                None => match command_reading(name, es@) {
                    Err(m) => Err((m, script_keys())),
                    Ok(command) => match points_reading(name, es@) {
                        Err(m) => Err((m, script_keys())),
                        Ok(points) => Ok((name, command, points)),
                    },
                },
            },
            _ => Err((table_name(name) + " must be a table"@, Seq::empty())),
        }
    }
}

/// The scripts table read in order; the first script that fails stops it.
pub open spec fn scripts_reading(entries: Seq<(String, TomlValue)>) -> Result<Seq<(Seq<char>, CommandView, Seq<ScriptPoint>)>, (Seq<char>, Seq<Seq<char>>)>
    decreases entries.len(),
{
    if entries.len() == 0 {
        Ok(Seq::empty())
    } else {
        match scripts_reading(entries.drop_last()) {
            Err(f) => Err(f),
            Ok(read) => match script_reading(entries.last().0@, entries.last().1) {
                Err(f) => Err(f),
                Ok(s) => Ok(read.push(s)),
            },
        }
    }
}

/// `[scripts]`: absent is none.
pub open spec fn all_scripts_reading(top: Seq<(String, TomlValue)>) -> Result<Seq<(Seq<char>, CommandView, Seq<ScriptPoint>)>, (Seq<char>, Seq<Seq<char>>)> {
    match entry(top, "scripts"@) {
        None => Ok(Seq::empty()),
        Some(TomlValue::Table(es)) => scripts_reading(es@),
        Some(_) => Err(("scripts must be a table"@, Seq::empty())),
    }
}

/// What a project file holds, read field by field in order.
pub struct ProjectReading {
    pub version: i64,
    pub name: Seq<char>,
    pub owned: bool,
    pub location: Seq<char>,
    pub scripts: Seq<(Seq<char>, CommandView, Seq<ScriptPoint>)>,
}

/// What a parsed document says a project file holds, or why it holds none.
pub open spec fn project_reading(doc: TomlValue) -> Result<ProjectReading, (Seq<char>, Seq<Seq<char>>)> {
    match doc {
        TomlValue::Table(top) => match first_stranger(top@, project_keys()) {
            Some(key) => Err(("unknown key "@ + debug_text(key), project_keys())),
            None => match version_reading(top@) {
                Err(m) => Err((m, project_keys())),
                Ok(version) => match name_reading(top@) {
                    Err(m) => Err((m, project_keys())),
                    Ok(name) => match source_reading(top@) {
                        Err(f) => Err(f),
                        Ok(source) => match all_scripts_reading(top@) {
                            Err(f) => Err(f),
                            Ok(scripts) => Ok(
                                ProjectReading { version, name, owned: source.0, location: source.1, scripts },
                            ),
                        },
                    },
                },
            },
        },
        _ => Err(("the document is not a table"@, project_keys())),
    }
}

/// Whether `f` holds what `reading` says.
pub open spec fn holds_project(f: ProjectFile, reading: ProjectReading) -> bool {
    &&& f.version == reading.version
    &&& f.name@ == reading.name
    &&& (f.source is Owned) == reading.owned
    &&& source_text(f.source) == reading.location
    &&& script_views(f.scripts@) == reading.scripts
}

/// What `ProjectFile::from_toml` answers for `doc`.
pub open spec fn project_file_from(path: Seq<char>, doc: TomlValue, r: Result<ProjectFile, EngineError>) -> bool {
    match project_reading(doc) {
        Ok(reading) => r matches Ok(f) && holds_project(f, reading),
        Err(failure) => r matches Err(e) && is_parse_failure(e, path, failure.0, failure.1),
    }
}

/// The scripts bound to `p`, in declaration order.
pub open spec fn scripts_at(scripts: Seq<Script>, p: ScriptPoint) -> Seq<Script>
    decreases scripts.len(),
{
    if scripts.len() == 0 {
        Seq::empty()
    } else {
        let r = scripts_at(scripts.drop_last(), p);
        if scripts.last().points@.contains(p) {
            r.push(scripts.last())
        } else {
            r
        }
    }
}

/// The payload key that goes with a kind.
pub open spec fn payload_key(s: ProjectSource) -> Seq<char> {
    match s {
        ProjectSource::Owned { .. } => "url"@,
        ProjectSource::Adopted { .. } => "path"@,
    }
}

/// The whole text of a new project file.
pub open spec fn project_text(f: ProjectFile) -> Seq<char> {
    "version = "@ + signed_decimal(f.version as int) + "\nname = "@ + toml_quoted(f.name@) + "\n\n[source]\ntype = "@
        + toml_quoted(kind_of(f.source)) + "\n"@ + payload_key(f.source) + " = "@ + toml_quoted(
        source_text(f.source),
    ) + "\n"@
}

fn file_failure(path: &str, message: String) -> (e: EngineError)
    ensures
        is_parse_failure(e, path@, message@, project_keys()),
{
    let legal: [&str; 4] = ["version", "name", "source", "scripts"];
    assert(key_names(legal@) =~= project_keys());
    parse_failure(path, message, &legal)
}

fn source_failure(path: &str, message: String) -> (e: EngineError)
    ensures
        is_parse_failure(e, path@, message@, source_keys()),
{
    let legal: [&str; 3] = ["type", "url", "path"];
    assert(key_names(legal@) =~= source_keys());
    parse_failure(path, message, &legal)
}

fn script_failure(path: &str, message: String) -> (e: EngineError)
    ensures
        is_parse_failure(e, path@, message@, script_keys()),
{
    let legal: [&str; 4] = ["argv", "shell", "post_worktree_create", "pre_worktree_remove"];
    assert(key_names(legal@) =~= script_keys());
    parse_failure(path, message, &legal)
}

fn shaped_wrong(path: &str, message: String) -> (e: EngineError)
    ensures
        is_parse_failure(e, path@, message@, Seq::empty()),
{
    let legal: [&str; 0] = [];
    assert(key_names(legal@) =~= Seq::<Seq<char>>::empty());
    parse_failure(path, message, &legal)
}

fn read_name(top: &Vec<(String, TomlValue)>) -> (r: Result<ProjectName, String>)
    ensures
        match (r, name_reading(top@)) {
            (Ok(a), Ok(b)) => a@ == b,
            (Err(a), Err(b)) => a@ == b,
            _ => false,
        },
{
    match lookup(top, "name") {
        Some(TomlValue::Text(name)) => match ProjectName::parse(name.as_str()) {
            Ok(n) => Ok(n),
            Err(_) => {
                let mut message = debug_quoted(name.as_str());
                push_str(&mut message, " is not a valid project name");
                Err(message)
            },
        },
        _ => Err(owned("name must be a string")),
    }
}

fn read_source(path: &str, top: &Vec<(String, TomlValue)>) -> (r: Result<ProjectSource, EngineError>)
    ensures
        match source_reading(top@) {
            Ok(s) => r matches Ok(src) && (src is Owned) == s.0 && source_text(src) == s.1,
            Err(f) => r matches Err(e) && is_parse_failure(e, path@, f.0, f.1),
        },
{
    let es = match lookup(top, "source") {
        Some(TomlValue::Table(es)) => es,
        _ => {
            return Err(file_failure(path, owned("source must be a table")));
        },
    };
    let legal: [&str; 3] = ["type", "url", "path"];
    assert(key_names(legal@) =~= source_keys());
    if let Some(key) = stranger(es, &legal) {
        let mut message = owned("unknown key ");
        let quoted_key = debug_quoted(key.as_str());
        push_str(&mut message, quoted_key.as_str());
        push_str(&mut message, " in [source]");
        return Err(source_failure(path, message));
    }
    let kind = match lookup(es, "type") {
        Some(TomlValue::Text(kind)) => kind,
        _ => {
            return Err(source_failure(path, owned("source type must be a string")));
        },
    };
    let url: Option<&String> = match lookup(es, "url") {
        Some(TomlValue::Text(u)) => Some(u),
        _ => None,
    };
    let local: Option<&String> = match lookup(es, "path") {
        Some(TomlValue::Text(p)) => Some(p),
        _ => None,
    };
    let k = crate::text::chars_of(kind.as_str());
    let owned_word = crate::text::chars_of("owned");
    let adopted_word = crate::text::chars_of("adopted");
    if crate::text::same_chars(k.as_slice(), owned_word.as_slice()) {
        match (url, local) {
            (Some(u), None) => Ok(ProjectSource::Owned { url: u.clone() }),
            _ => Err(source_failure(path, owned("an owned source is always a url"))),
        }
    } else if crate::text::same_chars(k.as_slice(), adopted_word.as_slice()) {
        match (url, local) {
            (None, Some(p)) => Ok(ProjectSource::Adopted { path: p.clone() }),
            _ => Err(source_failure(path, owned("an adopted source is always a path"))),
        }
    } else {
        let mut message = debug_quoted(kind.as_str());
        push_str(&mut message, " is not a project kind");
        Err(source_failure(path, message))
    }
}

fn push_table_name(message: &mut String, name: &str)
    ensures
        final(message)@ == old(message)@ + table_name(name@),
{
    push_str(message, "[scripts.");
    push_str(message, name);
    push_str(message, "]");
}

fn command_failure(name: &str, tail: &str) -> (m: String)
    ensures
        m@ == table_name(name@) + tail@,
{
    let mut m = String::new();
    push_table_name(&mut m, name);
    push_str(&mut m, tail);
    m
}

#[verifier::loop_isolation(false)]
fn read_command(name: &str, es: &Vec<(String, TomlValue)>) -> (r: Result<ScriptCommand, String>)
    ensures
        match (r, command_reading(name@, es@)) {
            (Ok(a), Ok(b)) => command_view(a) == b,
            (Err(a), Err(b)) => a@ == b,
            _ => false,
        },
{
    let argv = lookup(es, "argv");
    let shell = lookup(es, "shell");
    match (argv, shell) {
        (Some(_), Some(_)) => Err(command_failure(name, " has both argv and shell")),
        (None, None) => Err(command_failure(name, " has neither argv nor shell")),
        (Some(argv), None) => match argv {
            TomlValue::Array(words) => {
                let mut argv_words: Vec<String> = Vec::new();
                let mut i: usize = 0;
                while i < words.len()
                    invariant
                        i <= words@.len(),
                        argv_words@.len() == i,
                        forall|j: int| 0 <= j < i ==> #[trigger] words@[j] is Text,
                        forall|j: int| 0 <= j < i ==> #[trigger] argv_words@[j]@ == crate::toml::text_of(words@[j]),
                    decreases words.len() - i,
                {
                    match &words[i] {
                        TomlValue::Text(word) => {
                            argv_words.push(word.clone());
                        },
                        _ => {
                            assert(!(words@[i as int] is Text));
                            assert(!all_text(words@));
                            return Err(command_failure(name, " argv must be an array of strings"));
                        },
                    }
                    i = i + 1;
                }
                if argv_words.len() == 0 {
                    return Err(command_failure(name, " argv names no command"));
                }
                assert(texts(argv_words@) =~= word_texts(words@));
                Ok(ScriptCommand::Argv(argv_words))
            },
            _ => Err(command_failure(name, " argv must be an array")),
        },
        (None, Some(shell)) => match shell {
            TomlValue::Text(line) => Ok(ScriptCommand::Shell(line.clone())),
            _ => Err(command_failure(name, " shell must be a string")),
        },
    }
}

fn read_toggle(name: &str, es: &Vec<(String, TomlValue)>, p: ScriptPoint, points: &mut Vec<ScriptPoint>) -> (r: Result<(), String>)
    ensures
        match toggle_reading(name@, es@, p) {
            Ok(ps) => r is Ok && final(points)@ == old(points)@ + ps,
            Err(m) => r matches Err(e) && e@ == m,
        },
{
    match lookup(es, p.key()) {
        None => {
            assert(old(points)@ + Seq::<ScriptPoint>::empty() =~= old(points)@);
            Ok(())
        },
        Some(TomlValue::Boolean(on)) => {
            if *on {
                points.push(p);
                assert(points@ =~= old(points)@ + seq![p]);
            } else {
                assert(old(points)@ + Seq::<ScriptPoint>::empty() =~= old(points)@);
            }
            Ok(())
        },
        Some(_) => {
            let mut m = String::new();
            push_table_name(&mut m, name);
            push_str(&mut m, " ");
            push_str(&mut m, p.key());
            push_str(&mut m, " must be true or false");
            Err(m)
        },
    }
}

fn read_points(name: &str, es: &Vec<(String, TomlValue)>) -> (r: Result<Vec<ScriptPoint>, String>)
    ensures
        match (r, points_reading(name@, es@)) {
            (Ok(a), Ok(b)) => a@ == b,
            (Err(a), Err(b)) => a@ == b,
            _ => false,
        },
{
    let mut points: Vec<ScriptPoint> = Vec::new();
    read_toggle(name, es, ScriptPoint::PostWorktreeCreate, &mut points)?;
    read_toggle(name, es, ScriptPoint::PreWorktreeRemove, &mut points)?;
    assert(points@ =~= Seq::<ScriptPoint>::empty() + (points@));
    Ok(points)
}

fn read_script(path: &str, key: &String, v: &TomlValue) -> (r: Result<Script, EngineError>)
    ensures
        match script_reading(key@, *v) {
            Ok(s) => r matches Ok(script) && script_view(script) == s,
            Err(f) => r matches Err(e) && is_parse_failure(e, path@, f.0, f.1),
        },
{
    let name = match ScriptName::parse(key.as_str()) {
        Ok(n) => n,
        Err(_) => {
            let mut message = debug_quoted(key.as_str());
            push_str(&mut message, " is not a valid script name; use lowercase letters, digits and . _ -");
            return Err(shaped_wrong(path, message));
        },
    };
    let es = match v {
        TomlValue::Table(es) => es,
        _ => {
            let mut message = String::new();
            push_table_name(&mut message, key.as_str());
            push_str(&mut message, " must be a table");
            return Err(shaped_wrong(path, message));
        },
    };
    let legal: [&str; 4] = ["argv", "shell", "post_worktree_create", "pre_worktree_remove"];
    assert(key_names(legal@) =~= script_keys());
    if let Some(stray) = stranger(es, &legal) {
        let mut message = owned("unknown key ");
        let quoted_key = debug_quoted(stray.as_str());
        push_str(&mut message, quoted_key.as_str());
        push_str(&mut message, " in ");
        push_table_name(&mut message, key.as_str());
        return Err(script_failure(path, message));
    }
    let command = match read_command(key.as_str(), es) {
        Ok(c) => c,
        Err(message) => {
            return Err(script_failure(path, message));
        },
    };
    let points = match read_points(key.as_str(), es) {
        Ok(p) => p,
        Err(message) => {
            return Err(script_failure(path, message));
        },
    };
    Ok(Script { name, command, points })
}

/// Once a script fails, the whole table fails with its failure.
proof fn lemma_scripts_reading_stops(entries: Seq<(String, TomlValue)>, i: int)
    requires
        0 <= i < entries.len(),
        scripts_reading(entries.subrange(0, i + 1)) is Err,
    ensures
        scripts_reading(entries) == scripts_reading(entries.subrange(0, i + 1)),
    decreases entries.len() - i,
{
    if i + 1 == entries.len() {
        assert(entries.subrange(0, i + 1) =~= entries);
    } else {
        assert(entries.drop_last().subrange(0, i + 1) =~= entries.subrange(0, i + 1));
        lemma_scripts_reading_stops(entries.drop_last(), i);
    }
}

#[verifier::loop_isolation(false)]
fn read_scripts(path: &str, top: &Vec<(String, TomlValue)>) -> (r: Result<Vec<Script>, EngineError>)
    ensures
        match all_scripts_reading(top@) {
            Ok(ss) => r matches Ok(scripts) && script_views(scripts@) == ss,
            Err(f) => r matches Err(e) && is_parse_failure(e, path@, f.0, f.1),
        },
{
    let es = match lookup(top, "scripts") {
        None => {
            let none: Vec<Script> = Vec::new();
            assert(script_views(none@) =~= Seq::empty());
            return Ok(none);
        },
        Some(TomlValue::Table(es)) => es,
        Some(_) => {
            return Err(shaped_wrong(path, owned("scripts must be a table")));
        },
    };
    let mut scripts: Vec<Script> = Vec::new();
    let mut i: usize = 0;
    assert(es@.subrange(0, 0) =~= Seq::<(String, TomlValue)>::empty());
    assert(script_views(scripts@) =~= Seq::empty());
    while i < es.len()
        invariant
            i <= es@.len(),
            scripts_reading(es@.subrange(0, i as int)) == Ok::<_, (Seq<char>, Seq<Seq<char>>)>(
                script_views(scripts@),
            ),
        decreases es.len() - i,
    {
        let ghost upto = es@.subrange(0, i as int + 1);
        assert(upto.drop_last() =~= es@.subrange(0, i as int));
        assert(upto.last() == es@[i as int]);
        match read_script(path, &es[i].0, &es[i].1) {
            Ok(script) => {
                let ghost before = scripts@;
                scripts.push(script);
                assert(script_views(scripts@) =~= script_views(before).push(script_view(script)));
            },
            Err(e) => {
                assert(scripts_reading(upto) is Err);
                proof {
                    lemma_scripts_reading_stops(es@, i as int);
                }
                assert(scripts_reading(es@) == scripts_reading(upto));
                return Err(e);
            },
        }
        i = i + 1;
    }
    assert(es@.subrange(0, es@.len() as int) =~= es@);
    Ok(scripts)
}

fn read_version(top: &Vec<(String, TomlValue)>) -> (r: Result<i64, String>)
    ensures
        match (r, version_reading(top@)) {
            (Ok(a), Ok(b)) => a == b,
            (Err(a), Err(b)) => a@ == b,
            _ => false,
        },
{
    match lookup(top, "version") {
        Some(TomlValue::Integer(n)) => {
            if *n == CURRENT_VERSION {
                Ok(*n)
            } else {
                let mut message = owned("version ");
                push_signed_decimal(&mut message, *n);
                push_str(&mut message, " is not a version bitplane understands");
                Err(message)
            }
        },
        _ => Err(owned("version must be an integer")),
    }
}

impl ProjectFile {
    /// A new project's file, at the current version, with no scripts:
    /// bitplane never declares one on the user's behalf.
    pub fn new(name: ProjectName, source: ProjectSource) -> (f: ProjectFile)
        ensures
            f.version == 1,
            f.name@ == name@,
            f.source == source,
            f.scripts@.len() == 0,
    {
        ProjectFile { version: CURRENT_VERSION, name, source, scripts: Vec::new() }
    }

    /// Reads a parsed document, which came from `path`. `path` only names
    /// the file in a failure.
    pub fn from_toml(path: &str, doc: &TomlValue) -> (r: Result<ProjectFile, EngineError>)
        ensures
            project_file_from(path@, *doc, r),
    {
        let top = match doc {
            TomlValue::Table(top) => top,
            _ => {
                return Err(file_failure(path, owned("the document is not a table")));
            },
        };
        let legal: [&str; 4] = ["version", "name", "source", "scripts"];
        assert(key_names(legal@) =~= project_keys());
        if let Some(key) = stranger(top, &legal) {
            let mut message = owned("unknown key ");
            let quoted_key = debug_quoted(key.as_str());
            push_str(&mut message, quoted_key.as_str());
            return Err(file_failure(path, message));
        }
        let version = match read_version(top) {
            Ok(v) => v,
            Err(message) => {
                return Err(file_failure(path, message));
            },
        };
        let name = match read_name(top) {
            Ok(n) => n,
            Err(message) => {
                return Err(file_failure(path, message));
            },
        };
        let source = read_source(path, top)?;
        let scripts = read_scripts(path, top)?;
        Ok(ProjectFile { version, name, source, scripts })
    }

    /// Reads `text`, which came from `path`. What the text holds is what
    /// `toml_edit` reads from it; a failure of that read is a parse error
    /// carrying `toml_edit`'s own words.
    pub fn parse(path: &str, text: &str) -> (r: Result<ProjectFile, EngineError>)
        ensures
            match toml_reading(text@) {
                Ok(doc) => project_file_from(path@, doc, r),
                Err(complaint) => r matches Err(e) && is_parse_failure(e, path@, complaint, project_keys()),
            },
    {
        match read_toml(text) {
            Ok(doc) => ProjectFile::from_toml(path, &doc),
            Err(message) => Err(file_failure(path, message)),
        }
    }

    /// The scripts bound to `point`, in declaration order: what runs there,
    /// and in what order.
    pub fn at(&self, point: ScriptPoint) -> (r: Vec<&Script>)
        ensures
            r@.len() == scripts_at(self.scripts@, point).len(),
            forall|i: int| 0 <= i < r@.len() ==> *r@[i] == scripts_at(self.scripts@, point)[i],
    {
        let mut r: Vec<&Script> = Vec::new();
        let mut i: usize = 0;
        assert(self.scripts@.subrange(0, 0) =~= Seq::<Script>::empty());
        while i < self.scripts.len()
            invariant
                i <= self.scripts@.len(),
                r@.len() == scripts_at(self.scripts@.subrange(0, i as int), point).len(),
                forall|j: int| 0 <= j < r@.len() ==> *r@[j] == scripts_at(self.scripts@.subrange(0, i as int), point)[j],
            decreases self.scripts.len() - i,
        {
            let ghost upto = self.scripts@.subrange(0, i as int + 1);
            assert(upto.drop_last() =~= self.scripts@.subrange(0, i as int));
            assert(upto.last() == self.scripts@[i as int]);
            let script = &self.scripts[i];
            let mut bound = false;
            let mut k: usize = 0;
            while k < script.points.len()
                invariant
                    k <= script.points@.len(),
                    bound == exists|j: int| 0 <= j < k && script.points@[j] == point,
                decreases script.points.len() - k,
            {
                if script.points[k] == point {
                    bound = true;
                }
                k = k + 1;
            }
            assert(bound == script.points@.contains(point));
            if bound {
                r.push(script);
            }
            i = i + 1;
        }
        assert(self.scripts@.subrange(0, self.scripts@.len() as int) =~= self.scripts@);
        r
    }

    /// The script called `name`, where this project declares one.
    pub fn script(&self, name: &ScriptName) -> (r: Option<&Script>)
        ensures
            match r {
                Some(s) => exists|i: int|
                    0 <= i < self.scripts@.len() && self.scripts@[i] == *s && s.name@ == name@ && forall|j: int|
                        0 <= j < i ==> #[trigger] self.scripts@[j].name@ != name@,
                None => forall|i: int| 0 <= i < self.scripts@.len() ==> #[trigger] self.scripts@[i].name@ != name@,
            },
    {
        let wanted = crate::text::chars_of(name.as_str());
        let mut i: usize = 0;
        while i < self.scripts.len()
            invariant
                i <= self.scripts@.len(),
                wanted@ == name@,
                forall|j: int| 0 <= j < i ==> #[trigger] self.scripts@[j].name@ != name@,
            decreases self.scripts.len() - i,
        {
            let candidate = crate::text::chars_of(self.scripts[i].name.as_str());
            if crate::text::same_chars(candidate.as_slice(), wanted.as_slice()) {
                return Some(&self.scripts[i]);
            }
            i = i + 1;
        }
        None
    }

    /// The whole text of a new project file. `[scripts]` is never rendered:
    /// a file this writes is a new one, and the user has declared none in it.
    pub fn render(&self) -> (text: String)
        ensures
            text@ == project_text(*self),
    {
        let mut text = owned("version = ");
        push_signed_decimal(&mut text, self.version);
        push_str(&mut text, "\nname = ");
        let name = quoted(self.name.as_str());
        push_str(&mut text, name.as_str());
        push_str(&mut text, "\n\n[source]\ntype = ");
        let kind = quoted(self.source.kind());
        push_str(&mut text, kind.as_str());
        push_str(&mut text, "\n");
        match &self.source {
            ProjectSource::Owned { .. } => push_str(&mut text, "url"),
            ProjectSource::Adopted { .. } => push_str(&mut text, "path"),
        }
        push_str(&mut text, " = ");
        let payload = self.source.to_text();
        let value = quoted(payload.as_str());
        push_str(&mut text, value.as_str());
        push_str(&mut text, "\n");
        text
    }
}

/// Whether `doc` is the document a new project file's rendering spells:
/// the version, the name, and a `[source]` table of the kind and its one
/// payload, in that order.
pub open spec fn spells_project(doc: TomlValue, f: ProjectFile) -> bool {
    &&& doc matches TomlValue::Table(top) && top@.len() == 3 && top@[0].0@ == "version"@ && top@[0].1
        == TomlValue::Integer(f.version) && top@[1].0@ == "name"@ && (top@[1].1 matches TomlValue::Text(n)
        && n@ == f.name@) && top@[2].0@ == "source"@ && (top@[2].1 matches TomlValue::Table(es) && es@.len()
        == 2 && es@[0].0@ == "type"@ && (es@[0].1 matches TomlValue::Text(k) && k@ == kind_of(f.source))
        && es@[1].0@ == payload_key(f.source) && (es@[1].1 matches TomlValue::Text(p) && p@ == source_text(
        f.source,
    )))
}

/// A new project file, written and read back, is the project file that was
/// written: the same version, name and source. Rendering is for a new file
/// only, so a file with scripts is not one rendering round-trips.
pub proof fn project_file_reads_back(f: ProjectFile, doc: TomlValue)
    requires
        f.version == 1,
        is_project_name(f.name@),
        f.scripts@.len() == 0,
        spells_project(doc, f),
    ensures
        project_reading(doc) matches Ok(reading) && holds_project(f, reading),
{
    let top = match doc {
        TomlValue::Table(top) => top@,
        _ => Seq::empty(),
    };
    let legal = project_keys();
    reveal_strlit("version");
    reveal_strlit("name");
    reveal_strlit("source");
    reveal_strlit("scripts");
    reveal_strlit("type");
    reveal_strlit("url");
    reveal_strlit("path");
    reveal_strlit("owned");
    reveal_strlit("adopted");
    assert(top.drop_first().drop_first().drop_first() =~= Seq::<(String, TomlValue)>::empty());
    assert(legal[0] == top[0].0@);
    assert(legal[1] == top[1].0@);
    assert(legal[2] == top[2].0@);
    assert(top.drop_first()[0] == top[1]);
    assert(top.drop_first().drop_first()[0] == top[2]);
    assert(is_one_of(top[0].0@, legal));
    assert(is_one_of(top[1].0@, legal));
    assert(is_one_of(top[2].0@, legal));
    assert(first_stranger(top.drop_first().drop_first().drop_first(), legal) is None);
    assert(first_stranger(top.drop_first().drop_first(), legal) is None);
    assert(first_stranger(top.drop_first(), legal) is None);
    assert(first_stranger(top, legal) is None);
    assert("name"@.len() != "version"@.len());
    assert("source"@.len() != "version"@.len() && "source"@.len() != "name"@.len());
    assert("scripts"@[0] != "version"@[0] && "scripts"@.len() != "name"@.len() && "scripts"@.len()
        != "source"@.len());
    assert(entry(top, "version"@) == Some(top[0].1));
    assert(entry(top.drop_first(), "name"@) == Some(top[1].1));
    assert(entry(top, "name"@) == Some(top[1].1));
    assert(entry(top.drop_first().drop_first(), "source"@) == Some(top[2].1));
    assert(entry(top.drop_first(), "source"@) == Some(top[2].1));
    assert(entry(top, "source"@) == Some(top[2].1));
    assert(entry(top.drop_first().drop_first().drop_first(), "scripts"@) is None);
    assert(entry(top.drop_first().drop_first(), "scripts"@) is None);
    assert(entry(top.drop_first(), "scripts"@) is None);
    assert(entry(top, "scripts"@) is None);
    match top[2].1 {
        TomlValue::Table(es) => {
            let s = es@;
            let sk = source_keys();
            assert(s.drop_first().drop_first() =~= Seq::<(String, TomlValue)>::empty());
            assert(s.drop_first()[0] == s[1]);
            assert(sk[0] == s[0].0@);
            assert(is_one_of(s[0].0@, sk));
            match f.source {
                ProjectSource::Owned { .. } => {
                    assert(sk[1] == s[1].0@);
                },
                ProjectSource::Adopted { .. } => {
                    assert(sk[2] == s[1].0@);
                },
            }
            assert(is_one_of(s[1].0@, sk));
            assert(is_one_of(s.drop_first()[0].0@, sk));
            assert(first_stranger(s.drop_first().drop_first(), sk) is None);
            assert(first_stranger(s.drop_first(), sk) is None);
            assert(first_stranger(s, sk) is None);
            assert(entry(s, "type"@) == Some(s[0].1));
            assert("url"@.len() != "type"@.len() && "path"@[0] != "type"@[0] && "url"@.len() != "path"@.len());
            assert("owned"@.len() != "adopted"@.len());
            match f.source {
                ProjectSource::Owned { .. } => {
                    assert(entry(s.drop_first(), "url"@) == Some(s[1].1));
                    assert(entry(s, "url"@) == Some(s[1].1));
                    assert(entry(s.drop_first().drop_first(), "path"@) is None);
                    assert(entry(s.drop_first(), "path"@) is None);
                    assert(entry(s, "path"@) is None);
                },
                ProjectSource::Adopted { .. } => {
                    assert(entry(s.drop_first(), "path"@) == Some(s[1].1));
                    assert(entry(s, "path"@) == Some(s[1].1));
                    assert(entry(s.drop_first().drop_first(), "url"@) is None);
                    assert(entry(s.drop_first(), "url"@) is None);
                    assert(entry(s, "url"@) is None);
                },
            }
        },
        _ => {},
    }
    assert(script_views(f.scripts@) =~= Seq::empty());
}


/// The script of `file` a run names, for the member `member`: a name off
/// the charset, or one the file does not define, is a request that cannot
/// be met.
pub fn script_named<'a>(file: &'a ProjectFile, member: &MemberRef, name: &str) -> (r: Result<&'a Script, EngineError>)
    ensures
        !on_charset(name@) ==> (r matches Err(EngineError::InvalidRequest { message }) && message@ == name@
            + " is not a valid script name"@),
        on_charset(name@) ==> match r {
            Ok(s) => exists|i: int|
                0 <= i < file.scripts@.len() && file.scripts@[i] == *s && s.name@ == name@ && forall|j: int|
                    0 <= j < i ==> #[trigger] file.scripts@[j].name@ != name@,
            Err(e) => (forall|i: int| 0 <= i < file.scripts@.len() ==> #[trigger] file.scripts@[i].name@ != name@)
                && (e matches EngineError::InvalidRequest { message } && message@ == member_text(*member)
                + " has no script called "@ + name@),
        },
{
    let wanted = match ScriptName::parse(name) {
        Ok(n) => n,
        Err(invalid) => {
            let mut message = owned(name);
            push_str(&mut message, " ");
            push_str(&mut message, invalid.reason());
            proof {
                reveal_strlit(" ");
                reveal_strlit("is not a valid script name");
                reveal_strlit(" is not a valid script name");
            }
            assert(message@ =~= name@ + " is not a valid script name"@);
            return Err(EngineError::InvalidRequest { message });
        },
    };
    match file.script(&wanted) {
        Some(s) => Ok(s),
        None => {
            let mut message = member.to_text();
            push_str(&mut message, " has no script called ");
            push_str(&mut message, name);
            Err(EngineError::InvalidRequest { message })
        },
    }
}

/// How a script run ended: any exit status but zero fails the run, naming
/// the script and the status.
pub fn script_finished(at: &str, name: &str, status: i32) -> (r: Result<(), EngineError>)
    ensures
        status == 0 ==> r is Ok,
        status != 0 ==> (r matches Err(EngineError::Io { path, message }) && path@ == at@ && message@ == "script "@
            + name@ + " exited "@ + signed_decimal(status as int)),
{
    if status == 0 {
        return Ok(());
    }
    let mut message = owned("script ");
    push_str(&mut message, name);
    push_str(&mut message, " exited ");
    push_signed_decimal(&mut message, status as i64);
    proof {
        reveal_strlit("script ");
        reveal_strlit(" exited ");
    }
    Err(EngineError::Io { path: owned(at), message })
}

} // verus!
