//! Where a host keeps its planes and its projects.
//!
//! Exactly one planes directory and one projects directory per host, each
//! resolved by flag > environment > config > default:
//!
//! | directory | flag | environment | config key | default |
//! | --- | --- | --- | --- | --- |
//! | planes | `--planes-dir` | `BITPLANE_PLANES_DIR` | `planes_dir` | `~/planes` |
//! | projects | `--projects-dir` | `BITPLANE_PROJECTS_DIR` | `projects_dir` | `$XDG_DATA_HOME/bitplane/projects` |
//!
//! XDG is honoured on macOS too. The planes directory is deliberately not
//! under XDG: it holds the user's working trees and is typed daily.
//!
//! The environment is a trait, so resolution can be driven without touching
//! ambient process state. Reading the config file is the caller's: it asks
//! [`Directories::config_path`] where the file is, and hands its text over.

use vstd::prelude::*;
use crate::error::{debug_quoted, debug_text, EngineError};
use crate::plane_id::PlaneId;
use crate::text::{chars_of, has_prefix, join_path, owned, path_join, push_str, slice_of, starts_with, string_of};
use crate::toml::{entry, first_stranger, is_parse_failure, key_names, lookup, parse_failure, read_toml, stranger, toml_reading, TomlValue};

verus! {

/// A host's two directories, resolved.
#[derive(Debug, Clone, PartialEq, Eq)]
pub struct Directories {
    planes: String,
    projects: String,
}

impl View for Directories {
    /// The planes directory and the projects directory.
    type V = (Seq<char>, Seq<char>);

    closed spec fn view(&self) -> (Seq<char>, Seq<char>) {
        (self.planes@, self.projects@)
    }
}

/// What the command line said, where it said anything.
#[derive(Debug, Clone, Default, PartialEq, Eq)]
pub struct DirectoryOverrides {
    pub planes_dir: Option<String>,
    pub projects_dir: Option<String>,
    pub config: Option<String>,
}

/// The ambient values resolution reads.
pub trait Environment {
    /// An environment variable, absent where it is unset or empty: an empty
    /// `BITPLANE_PLANES_DIR` is someone unsetting it.
    fn var(&self, key: &str) -> Option<String>;

    /// The user's home directory, where there is one.
    fn home(&self) -> Option<String>;
}

/// What the environment answered, each question asked once.
#[derive(Debug, Clone, PartialEq, Eq)]
pub struct Ambient {
    /// `BITPLANE_PLANES_DIR`.
    pub planes_dir: Option<String>,
    /// `BITPLANE_PROJECTS_DIR`.
    pub projects_dir: Option<String>,
    /// `BITPLANE_CONFIG`.
    pub config: Option<String>,
    /// `XDG_DATA_HOME`.
    pub data_home: Option<String>,
    /// `XDG_CONFIG_HOME`.
    pub config_home: Option<String>,
    /// The home directory.
    pub home: Option<String>,
}

/// The text of an optional string.
pub open spec fn opt(s: Option<String>) -> Option<Seq<char>> {
    match s {
        Some(x) => Some(x@),
        None => None,
    }
}

/// The first of the candidates that is there.
pub open spec fn first_of(candidates: Seq<Option<Seq<char>>>, fallback: Seq<char>) -> Seq<char>
    decreases candidates.len(),
{
    if candidates.len() == 0 {
        fallback
    } else {
        match candidates[0] {
            Some(c) => c,
            None => first_of(candidates.drop_first(), fallback),
        }
    }
}

/// A config file's text, where there is one.
pub open spec fn config_text(config: Option<&str>) -> Option<Seq<char>> {
    match config {
        Some(t) => Some(t@),
        None => None,
    }
}

/// Why resolution failed.
pub enum DirectoryFailure {
    /// There is no home directory to resolve against.
    NoHome,
    /// The config file did not read, with this message.
    Config(Seq<char>),
}

/// The sentence for a missing home.
pub open spec fn no_home_message() -> Seq<char> {
    "there is no home directory to resolve bitplane's directories against"@
}

/// Whether `e` is `f`, for the config file at `path`.
pub open spec fn is_directory_failure(e: EngineError, path: Seq<char>, f: DirectoryFailure) -> bool {
    match f {
        DirectoryFailure::NoHome => e matches EngineError::InvalidRequest { message } && message@ == no_home_message(),
        DirectoryFailure::Config(m) => is_parse_failure(e, path, m, config_keys()),
    }
}

/// The three keys a config file may hold.
pub open spec fn config_keys() -> Seq<Seq<char>> {
    seq!["version"@, "planes_dir"@, "projects_dir"@]
}

/// An XDG base directory: the variable where it is set, the fallback under
/// the home directory otherwise.
pub open spec fn xdg(variable: Option<Seq<char>>, home: Option<Seq<char>>, fallback: Seq<Seq<char>>) -> Result<Seq<char>, DirectoryFailure>
    decreases fallback.len(),
{
    match variable {
        Some(v) => Ok(v),
        None => match home {
            None => Err(DirectoryFailure::NoHome),
            Some(h) => if fallback.len() == 0 {
                Ok(h)
            } else {
                match xdg(None, home, fallback.drop_last()) {
                    Ok(p) => Ok(path_join(p, fallback.last())),
                    Err(f) => Err(f),
                }
            },
        },
    }
}

/// Where the config file is: the flag, `BITPLANE_CONFIG`, or
/// `$XDG_CONFIG_HOME/bitplane/config.toml`.
pub open spec fn config_location(overrides: DirectoryOverrides, ambient: Ambient) -> Result<Seq<char>, DirectoryFailure> {
    match overrides.config {
        Some(p) => Ok(p@),
        None => match ambient.config {
            Some(p) => Ok(p@),
            None => match xdg(opt(ambient.config_home), opt(ambient.home), seq![".config"@]) {
                Ok(base) => Ok(path_join(path_join(base, "bitplane"@), "config.toml"@)),
                Err(f) => Err(f),
            },
        },
    }
}

/// A config value with a leading `~/` or a bare `~` expanded.
pub open spec fn expanded(value: Seq<char>, home: Option<Seq<char>>) -> Result<Seq<char>, DirectoryFailure> {
    if starts_with(value, seq!['~', '/']) {
        match home {
            Some(h) => Ok(path_join(h, value.subrange(2, value.len() as int))),
            None => Err(DirectoryFailure::NoHome),
        }
    } else if value == seq!['~'] {
        match home {
            Some(h) => Ok(h),
            None => Err(DirectoryFailure::NoHome),
        }
    } else {
        Ok(value)
    }
}

/// One directory key of the config file.
pub open spec fn config_directory(top: Seq<(String, TomlValue)>, key: Seq<char>, home: Option<Seq<char>>) -> Result<Option<Seq<char>>, DirectoryFailure> {
    match entry(top, key) {
        None => Ok(None),
        Some(TomlValue::Text(v)) => match expanded(v@, home) {
            Ok(p) => Ok(Some(p)),
            Err(f) => Err(f),
        },
        Some(_) => Err(DirectoryFailure::Config(key + " must be a string"@)),
    }
}

/// What the config file says, as the two directories it may name.
pub open spec fn config_reading(text: Option<Seq<char>>, home: Option<Seq<char>>) -> Result<(Option<Seq<char>>, Option<Seq<char>>), DirectoryFailure> {
    match text {
        None => Ok((None, None)),
        Some(t) => match toml_reading(t) {
            Err(complaint) => Err(DirectoryFailure::Config(complaint)),
            Ok(TomlValue::Table(top)) => match first_stranger(top@, config_keys()) {
                Some(key) => Err(DirectoryFailure::Config("unknown key "@ + debug_text(key))),
                None => match config_directory(top@, "planes_dir"@, home) {
                    Err(f) => Err(f),
                    Ok(planes) => match config_directory(top@, "projects_dir"@, home) {
                        Err(f) => Err(f),
                        Ok(projects) => Ok((planes, projects)),
                    },
                },
            },
            Ok(_) => Err(DirectoryFailure::Config("the document is not a table"@)),
        },
    }
}

/// Both directories, by flag > environment > config > default, given the
/// config file's text (none where there is no file).
pub open spec fn resolution(overrides: DirectoryOverrides, ambient: Ambient, config: Option<Seq<char>>) -> Result<(Seq<char>, Seq<char>), DirectoryFailure> {
    match config_reading(config, opt(ambient.home)) {
        Err(f) => Err(f),
        Ok((config_planes, config_projects)) => match opt(ambient.home) {
            None => Err(DirectoryFailure::NoHome),
            Some(home) => match xdg(opt(ambient.data_home), Some(home), seq![".local"@, "share"@]) {
                Err(f) => Err(f),
                Ok(data) => Ok(
                    (
                        first_of(
                            seq![opt(overrides.planes_dir), opt(ambient.planes_dir), config_planes],
                            path_join(home, "planes"@),
                        ),
                        first_of(
                            seq![opt(overrides.projects_dir), opt(ambient.projects_dir), config_projects],
                            path_join(path_join(data, "bitplane"@), "projects"@),
                        ),
                    ),
                ),
            },
        },
    }
}

/// What resolving gives for one set of answers from the environment: a
/// config file that cannot be located is a missing home; otherwise the two
/// directories, or why they did not resolve, for the config file there.
pub open spec fn resolved_from(
    overrides: DirectoryOverrides,
    ambient: Ambient,
    config: Option<Seq<char>>,
    r: Result<Directories, EngineError>,
) -> bool {
    match config_location(overrides, ambient) {
        Err(f) => r matches Err(e) && is_directory_failure(e, Seq::empty(), f),
        Ok(path) => match resolution(overrides, ambient, config) {
            Ok(dirs) => r matches Ok(d) && d@ == dirs,
            Err(f) => r matches Err(e) && is_directory_failure(e, path, f),
        },
    }
}


fn no_home() -> (e: EngineError)
    ensures
        e matches EngineError::InvalidRequest { message } && message@ == no_home_message(),
{
    EngineError::InvalidRequest {
        message: owned("there is no home directory to resolve bitplane's directories against"),
    }
}

fn config_failure(path: &str, message: String) -> (e: EngineError)
    ensures
        is_parse_failure(e, path@, message@, config_keys()),
{
    let legal: [&str; 3] = ["version", "planes_dir", "projects_dir"];
    assert(key_names(legal@) =~= config_keys());
    parse_failure(path, message, &legal)
}

fn copy_opt(s: &Option<String>) -> (r: Option<String>)
    ensures
        opt(r) == opt(*s),
{
    match s {
        Some(x) => Some(x.clone()),
        None => None,
    }
}

fn xdg_base(variable: &Option<String>, home: &Option<String>, fallback: &[&str]) -> (r: Result<String, EngineError>)
    ensures
        match xdg(opt(*variable), opt(*home), fallback@.map_values(|s: &str| s@)) {
            Ok(p) => r matches Ok(s) && s@ == p,
            Err(f) => r matches Err(e) && is_directory_failure(e, Seq::empty(), f),
        },
{
    let ghost names = fallback@.map_values(|s: &str| s@);
    if let Some(v) = variable {
        return Ok(v.clone());
    }
    let mut path = match home {
        Some(h) => h.clone(),
        None => {
            proof {
                lemma_xdg_needs_home(names, opt(*home));
            }
            return Err(no_home());
        },
    };
    let mut i: usize = 0;
    while i < fallback.len()
        invariant
            i <= fallback@.len(),
            names == fallback@.map_values(|s: &str| s@),
            *variable is None,
            opt(*home) is Some,
            xdg(None, opt(*home), names.subrange(0, i as int)) == Ok::<_, DirectoryFailure>(path@),
        decreases fallback.len() - i,
    {
        assert(names.subrange(0, i as int + 1).drop_last() =~= names.subrange(0, i as int));
        path = join_path(path.as_str(), fallback[i]);
        i = i + 1;
    }
    assert(names.subrange(0, names.len() as int) =~= names);
    Ok(path)
}

proof fn lemma_xdg_with_home(variable: Option<Seq<char>>, home: Option<Seq<char>>, fallback: Seq<Seq<char>>)
    requires
        home is Some,
    ensures
        xdg(variable, home, fallback) is Ok,
    decreases fallback.len(),
{
    if variable is None && fallback.len() > 0 {
        lemma_xdg_with_home(None, home, fallback.drop_last());
    }
}

proof fn lemma_xdg_needs_home(fallback: Seq<Seq<char>>, home: Option<Seq<char>>)
    requires
        home is None,
    ensures
        xdg(None, home, fallback) == Err::<Seq<char>, DirectoryFailure>(DirectoryFailure::NoHome),
{
}

fn expand_value(value: &str, home: &Option<String>) -> (r: Result<String, EngineError>)
    ensures
        match expanded(value@, opt(*home)) {
            Ok(p) => r matches Ok(s) && s@ == p,
            Err(f) => r matches Err(e) && is_directory_failure(e, Seq::empty(), f),
        },
{
    let v = chars_of(value);
    let tilde_slash: Vec<char> = vec!['~', '/'];
    assert(tilde_slash@ =~= seq!['~', '/']);
    if has_prefix(v.as_slice(), tilde_slash.as_slice()) {
        match home {
            Some(h) => {
                let rest = slice_of(v.as_slice(), 2, v.len());
                let rest_text = string_of(rest.as_slice());
                Ok(join_path(h.as_str(), rest_text.as_str()))
            },
            None => Err(no_home()),
        }
    } else if v.len() == 1 && v[0] == '~' {
        assert(v@ =~= seq!['~']);
        match home {
            Some(h) => Ok(h.clone()),
            None => Err(no_home()),
        }
    } else {
        proof {
            if v@ == seq!['~'] {
                assert(v@[0] == '~');
            }
        }
        Ok(owned(value))
    }
}

fn read_directory(path: &str, top: &Vec<(String, TomlValue)>, key: &str, home: &Option<String>) -> (r: Result<Option<String>, EngineError>)
    ensures
        match config_directory(top@, key@, opt(*home)) {
            Ok(p) => r matches Ok(s) && opt(s) == p,
            Err(f) => r matches Err(e) && is_directory_failure(e, path@, f),
        },
{
    match lookup(top, key) {
        None => Ok(None),
        Some(TomlValue::Text(v)) => match expand_value(v.as_str(), home) {
            Ok(p) => Ok(Some(p)),
            Err(_) => Err(no_home()),
        },
        Some(_) => {
            let mut message = owned(key);
            push_str(&mut message, " must be a string");
            Err(config_failure(path, message))
        },
    }
}

fn read_config(path: &str, text: Option<&str>, home: &Option<String>) -> (r: Result<(Option<String>, Option<String>), EngineError>)
    ensures
        match config_reading(
            match text {
                Some(t) => Some(t@),
                None => None,
            },
            opt(*home),
        ) {
            Ok((a, b)) => r matches Ok((x, y)) && opt(x) == a && opt(y) == b,
            Err(f) => r matches Err(e) && is_directory_failure(e, path@, f),
        },
{
    let text = match text {
        None => {
            return Ok((None, None));
        },
        Some(t) => t,
    };
    let doc = match read_toml(text) {
        Ok(doc) => doc,
        Err(message) => {
            return Err(config_failure(path, message));
        },
    };
    let top = match &doc {
        TomlValue::Table(top) => top,
        _ => {
            return Err(config_failure(path, owned("the document is not a table")));
        },
    };
    let legal: [&str; 3] = ["version", "planes_dir", "projects_dir"];
    assert(key_names(legal@) =~= config_keys());
    if let Some(key) = stranger(top, &legal) {
        let mut message = owned("unknown key ");
        let quoted_key = debug_quoted(key.as_str());
        push_str(&mut message, quoted_key.as_str());
        return Err(config_failure(path, message));
    }
    let planes = read_directory(path, top, "planes_dir", home)?;
    let projects = read_directory(path, top, "projects_dir", home)?;
    Ok((planes, projects))
}

fn pick(candidates: [&Option<String>; 3], fallback: String) -> (r: String)
    ensures
        r@ == first_of(seq![opt(*candidates[0]), opt(*candidates[1]), opt(*candidates[2])], fallback@),
{
    let ghost c = seq![opt(*candidates[0]), opt(*candidates[1]), opt(*candidates[2])];
    assert(c.drop_first()[0] == opt(*candidates[1]));
    assert(c.drop_first().drop_first()[0] == opt(*candidates[2]));
    assert(c.drop_first().drop_first().drop_first() =~= Seq::<Option<Seq<char>>>::empty());
    proof {
        reveal_with_fuel(first_of, 4);
    }
    if let Some(x) = candidates[0] {
        return x.clone();
    }
    if let Some(x) = candidates[1] {
        return x.clone();
    }
    if let Some(x) = candidates[2] {
        return x.clone();
    }
    fallback
}

/// Whether `a` holds answers `environment` can give: each variable as `var`
/// returned it for its name, and the home directory as `home` returned it.
pub open spec fn answered<E: Environment>(environment: &E, a: Ambient) -> bool {
    &&& call_ensures(E::var, (environment, "BITPLANE_PLANES_DIR"), a.planes_dir)
    &&& call_ensures(E::var, (environment, "BITPLANE_PROJECTS_DIR"), a.projects_dir)
    &&& call_ensures(E::var, (environment, "BITPLANE_CONFIG"), a.config)
    &&& call_ensures(E::var, (environment, "XDG_DATA_HOME"), a.data_home)
    &&& call_ensures(E::var, (environment, "XDG_CONFIG_HOME"), a.config_home)
    &&& call_ensures(E::home, (environment,), a.home)
}

impl Ambient {
    /// Asks the environment each question once, and keeps each answer as it
    /// came back.
    pub fn of<E: Environment>(environment: &E) -> (a: Ambient)
        ensures
            answered(environment, a),
    {
        Ambient {
            planes_dir: environment.var("BITPLANE_PLANES_DIR"),
            projects_dir: environment.var("BITPLANE_PROJECTS_DIR"),
            config: environment.var("BITPLANE_CONFIG"),
            data_home: environment.var("XDG_DATA_HOME"),
            config_home: environment.var("XDG_CONFIG_HOME"),
            home: environment.home(),
        }
    }
}

impl Directories {
    /// The two directories, spelled out.
    pub fn new(planes: &str, projects: &str) -> (d: Directories)
        ensures
            d@ == (planes@, projects@),
    {
        Directories { planes: owned(planes), projects: owned(projects) }
    }

    /// Where the config file is: the flag, then `BITPLANE_CONFIG`, then
    /// `$XDG_CONFIG_HOME/bitplane/config.toml`.
    pub fn config_path(overrides: &DirectoryOverrides, ambient: &Ambient) -> (r: Result<String, EngineError>)
        ensures
            match config_location(*overrides, *ambient) {
                Ok(p) => r matches Ok(s) && s@ == p,
                Err(f) => r matches Err(e) && is_directory_failure(e, Seq::empty(), f),
            },
    {
        if let Some(p) = &overrides.config {
            return Ok(p.clone());
        }
        if let Some(p) = &ambient.config {
            return Ok(p.clone());
        }
        let fallback: [&str; 1] = [".config"];
        assert(fallback@.map_values(|s: &str| s@) =~= seq![".config"@]);
        let base = xdg_base(&ambient.config_home, &ambient.home, &fallback)?;
        let dir = join_path(base.as_str(), "bitplane");
        Ok(join_path(dir.as_str(), "config.toml"))
    }

    /// Resolves both directories by flag > environment > config > default,
    /// given what the environment answered and the text of the config file
    /// at `config_path` (none where there is no such file).
    pub fn resolve_with(overrides: &DirectoryOverrides, ambient: &Ambient, config_path: &str, config: Option<&str>) -> (r: Result<Directories, EngineError>)
        ensures
            match resolution(
                *overrides,
                *ambient,
                match config {
                    Some(t) => Some(t@),
                    None => None,
                },
            ) {
                Ok(dirs) => r matches Ok(d) && d@ == dirs,
                Err(f) => r matches Err(e) && is_directory_failure(e, config_path@, f),
            },
    {
        let (config_planes, config_projects) = read_config(config_path, config, &ambient.home)?;
        let home = match &ambient.home {
            Some(h) => h,
            None => {
                return Err(no_home());
            },
        };
        let fallback: [&str; 2] = [".local", "share"];
        assert(fallback@.map_values(|s: &str| s@) =~= seq![".local"@, "share"@]);
        proof {
            lemma_xdg_with_home(opt(ambient.data_home), opt(ambient.home), seq![".local"@, "share"@]);
        }
        let data = match xdg_base(&ambient.data_home, &ambient.home, &fallback) {
            Ok(d) => d,
            Err(_) => {
                return Err(no_home());
            },
        };
        let planes = pick(
            [&overrides.planes_dir, &ambient.planes_dir, &config_planes],
            join_path(home.as_str(), "planes"),
        );
        let bitplane = join_path(data.as_str(), "bitplane");
        let projects = pick(
            [&overrides.projects_dir, &ambient.projects_dir, &config_projects],
            join_path(bitplane.as_str(), "projects"),
        );
        Ok(Directories { planes, projects })
    }

    /// Resolves both directories from `environment`, given the text of the
    /// config file the environment places (none where there is no file).
    /// The environment answers each question once, and what comes back is
    /// what [`Directories::resolve_with`] gives for those answers.
    pub fn resolve<E: Environment>(overrides: &DirectoryOverrides, environment: &E, config: Option<&str>) -> (r: Result<Directories, EngineError>)
        ensures
            exists|a: Ambient| answered(environment, a) && #[trigger] resolved_from(*overrides, a, config_text(config), r),
    {
        let ambient = Ambient::of(environment);
        let path = match Directories::config_path(overrides, &ambient) {
            Ok(p) => p,
            Err(_) => {
                let e = no_home();
                proof {
                    if opt(ambient.home) is Some {
                        lemma_xdg_with_home(opt(ambient.config_home), opt(ambient.home), seq![".config"@]);
                    } else {
                        lemma_xdg_needs_home(seq![".config"@], opt(ambient.home));
                    }
                }
                assert(resolved_from(*overrides, ambient, config_text(config), Err::<Directories, EngineError>(e)));
                return Err(e);
            },
        };
        let r = Directories::resolve_with(overrides, &ambient, path.as_str(), config);
        assert(resolved_from(*overrides, ambient, config_text(config), r));
        r
    }

    /// Where plane directories live.
    pub fn planes(&self) -> (s: &str)
        ensures
            s@ == self@.0,
    {
        self.planes.as_str()
    }

    /// Where project directories live.
    pub fn projects(&self) -> (s: &str)
        ensures
            s@ == self@.1,
    {
        self.projects.as_str()
    }

    /// The directory of the plane called `id`: its name is the plane's
    /// identity, so renaming a plane is moving it.
    pub fn plane(&self, id: &PlaneId) -> (s: String)
        ensures
            s@ == path_join(self@.0, id@),
    {
        join_path(self.planes.as_str(), id.as_str())
    }
}

/// Each directory is taken from the first of flag, environment, config
/// file and default that says anything: a flag beats the environment, the
/// environment beats the config file, and the config file beats the
/// default.
pub proof fn directory_precedence(overrides: DirectoryOverrides, ambient: Ambient, config: Option<Seq<char>>)
    ensures
        resolution(overrides, ambient, config) matches Ok((planes, projects)) ==> {
            &&& (overrides.planes_dir matches Some(f) ==> planes == f@)
            &&& (overrides.projects_dir matches Some(f) ==> projects == f@)
            &&& overrides.planes_dir is None ==> (ambient.planes_dir matches Some(e) ==> planes == e@)
            &&& overrides.projects_dir is None ==> (ambient.projects_dir matches Some(e) ==> projects == e@)
            &&& overrides.planes_dir is None ==> (ambient.planes_dir is None ==> (config_reading(
                config,
                opt(ambient.home),
            ) matches Ok((Some(c), _)) ==> planes == c))
            &&& overrides.projects_dir is None ==> (ambient.projects_dir is None ==> (config_reading(
                config,
                opt(ambient.home),
            ) matches Ok((_, Some(c))) ==> projects == c))
        },
{
    reveal_with_fuel(first_of, 4);
    let a = seq![opt(overrides.planes_dir), opt(ambient.planes_dir)];
    let b = seq![opt(overrides.projects_dir), opt(ambient.projects_dir)];
    match config_reading(config, opt(ambient.home)) {
        Ok((cp, cq)) => {
            let s1 = seq![opt(overrides.planes_dir), opt(ambient.planes_dir), cp];
            let s2 = seq![opt(overrides.projects_dir), opt(ambient.projects_dir), cq];
            assert(s1.drop_first() =~= seq![opt(ambient.planes_dir), cp]);
            assert(s1.drop_first().drop_first() =~= seq![cp]);
            assert(s1.drop_first().drop_first().drop_first() =~= Seq::<Option<Seq<char>>>::empty());
            assert(s2.drop_first() =~= seq![opt(ambient.projects_dir), cq]);
            assert(s2.drop_first().drop_first() =~= seq![cq]);
            assert(s2.drop_first().drop_first().drop_first() =~= Seq::<Option<Seq<char>>>::empty());
        },
        Err(_) => {},
    }
}

} // verus!
