//! The decisions behind `project_add`: which name a new project takes, and
//! how a name that is not free is refused.
//!
//! A collision is refused with a suggestion, never silently disambiguated: a
//! default that renames itself behind the user's back is worse than an error
//! naming the conflict. Nesting is refused separately, because it has no
//! remedy of the same shape: `acme` and `acme/codestyle` cannot coexist.
//!
//! What is registered on this host is read by the caller and handed in as a
//! [`Registered`] list; building the source repository is git's work and
//! the caller's.

use vstd::prelude::*;
use crate::directories::opt;
use crate::error::{problem_view, EngineError, Problem};
use crate::member::{head_of, inside, is_name_error, is_project_name, last_segment_of, name_verdict, NameVerdict, ProjectName};
use crate::source::{default_name_of, derived_name, same_repo, ProjectSource};
use crate::text::{chars_of, decimal, owned, push_char, push_decimal, push_str, same_chars, string_of, trim, trimmed};

verus! {

/// The refspec a bitplane-owned source repo is given: `refs/heads/*` then
/// holds exactly the branches plane members were created on, a fetch always
/// succeeds because it writes only where nothing is checked out, and `@{u}`
/// means the forge's view.
pub const CLONE_SHAPED_REFSPEC: &'static str = "+refs/heads/*:refs/remotes/origin/*";

/// A project registered on this host, as a listing of the projects directory
/// found it.
pub struct Registered {
    pub name: ProjectName,
    /// Where it was registered from, where its `project.toml` could be read.
    pub source: Option<ProjectSource>,
}

/// Whether two names would live one inside the other. Equal names do not
/// nest: that is a name taken.
pub open spec fn nests(a: Seq<char>, b: Seq<char>) -> bool {
    inside(a, b) || inside(b, a)
}

/// The first registered project called `name`.
pub open spec fn holder_at(reg: Seq<Registered>, name: Seq<char>) -> Option<int>
    decreases reg.len(),
{
    if reg.len() == 0 {
        None
    } else {
        match holder_at(reg.drop_last(), name) {
            Some(i) => Some(i),
            None => if reg.last().name@ == name {
                Some(reg.len() - 1)
            } else {
                None
            },
        }
    }
}

/// The first registered project whose name nests with `name`.
pub open spec fn blocker_at(reg: Seq<Registered>, name: Seq<char>) -> Option<int>
    decreases reg.len(),
{
    if reg.len() == 0 {
        None
    } else {
        match blocker_at(reg.drop_last(), name) {
            Some(i) => Some(i),
            None => if nests(reg.last().name@, name) {
                Some(reg.len() - 1)
            } else {
                None
            },
        }
    }
}

/// Whether the project holding `name` was registered from the repository
/// `source` names. A registration whose file could not be read matches
/// nothing.
pub open spec fn same_source(reg: Seq<Registered>, name: Seq<char>, source: ProjectSource) -> bool {
    match holder_at(reg, name) {
        Some(i) => match reg[i].source {
            Some(s) => same_repo(s, source),
            None => false,
        },
        None => false,
    }
}

/// The `k`th rung of the ladder: the last segment suffixed, so `acme/api`
/// yields `acme/api-2` rather than a nested `acme/api/2`.
pub open spec fn rung(name: Seq<char>, k: nat) -> Seq<char> {
    head_of(name) + last_segment_of(name) + seq!['-'] + decimal(k)
}

/// Whether a rung can be offered: it is a name, nothing holds it, and it
/// nests with nothing, so the command the remedy prints runs.
pub open spec fn offerable(reg: Seq<Registered>, candidate: Seq<char>) -> bool {
    is_project_name(candidate) && holder_at(reg, candidate) is None && blocker_at(reg, candidate) is None
}

/// The first offerable rung from `k` up to the ninth.
pub open spec fn free_from(reg: Seq<Registered>, name: Seq<char>, k: nat) -> Option<Seq<char>>
    decreases 10 - k,
{
    if k > 9 {
        None
    } else if offerable(reg, rung(name, k)) {
        Some(rung(name, k))
    } else {
        free_from(reg, name, k + 1)
    }
}

/// The first free alternative to `name`, `-2` to `-9`.
pub open spec fn first_free_of(reg: Seq<Registered>, name: Seq<char>) -> Option<Seq<char>> {
    free_from(reg, name, 2)
}

/// The refusal for a name that is already a project: nothing to do where it
/// came from the same repository; otherwise a suggestion for a derived name
/// and none for a chosen one.
pub open spec fn is_taken_refusal(
    reg: Seq<Registered>,
    name: Seq<char>,
    source: ProjectSource,
    chosen: bool,
    e: EngineError,
) -> bool {
    let same = same_source(reg, name, source);
    e matches EngineError::ProjectNameTaken { name: n, same_source: s, suggestion }
        && n@ == name && s == same && if same || chosen {
        suggestion is None
    } else {
        match first_free_of(reg, name) {
            Some(free) => suggestion matches Some(x) && x@ == free,
            None => suggestion is None,
        }
    }
}

/// The name a project would take: the one chosen, as typed, or the one
/// derived from the source.
pub open spec fn proposed(chosen: Option<Seq<char>>, source: ProjectSource) -> Seq<char> {
    match chosen {
        Some(c) => c,
        None => derived_name(source),
    }
}

/// What `resolve_name` answers.
pub open spec fn name_resolution(
    chosen: Option<Seq<char>>,
    source: ProjectSource,
    reg: Seq<Registered>,
    r: Result<ProjectName, EngineError>,
) -> bool {
    let name = proposed(chosen, source);
    if !is_project_name(name) {
        match chosen {
            Some(c) => r matches Err(e) && is_name_error(c, e),
            None => default_name_of(source, r),
        }
    } else if holder_at(reg, name) is Some {
        r matches Err(e) && is_taken_refusal(reg, name, source, chosen is Some, e)
    } else {
        match blocker_at(reg, name) {
            Some(j) => r matches Err(EngineError::ProjectNameNests { name: n, blocker })
                && n@ == name && blocker@ == reg[j].name@,
            None => r matches Ok(p) && p@ == name,
        }
    }
}

fn same_text(a: &str, b: &str) -> (r: bool)
    ensures
        r == (a@ == b@),
{
    let x = chars_of(a);
    let y = chars_of(b);
    same_chars(x.as_slice(), y.as_slice())
}

/// The first project registered under `name`.
pub fn holder(reg: &Vec<Registered>, name: &ProjectName) -> (r: Option<usize>)
    ensures
        match holder_at(reg@, name@) {
            Some(i) => r matches Some(k) && k == i,
            None => r is None,
        },
        r matches Some(i) ==> i < reg@.len() && reg@[i as int].name@ == name@,
{
    let mut i: usize = 0;
    while i < reg.len()
        invariant
            i <= reg@.len(),
            holder_at(reg@.subrange(0, i as int), name@) is None,
        decreases reg.len() - i,
    {
        let ghost upto = reg@.subrange(0, i as int + 1);
        assert(upto.drop_last() =~= reg@.subrange(0, i as int));
        if same_text(reg[i].name.as_str(), name.as_str()) {
            proof {
                lemma_holder_prefix(reg@, name@, i as int + 1);
            }
            return Some(i);
        }
        i = i + 1;
    }
    assert(reg@.subrange(0, reg@.len() as int) =~= reg@);
    None
}

/// Once found in a prefix, the holder stays the holder.
proof fn lemma_holder_prefix(reg: Seq<Registered>, name: Seq<char>, n: int)
    requires
        0 <= n <= reg.len(),
        holder_at(reg.subrange(0, n), name) is Some,
    ensures
        holder_at(reg, name) == holder_at(reg.subrange(0, n), name),
    decreases reg.len() - n,
{
    if n < reg.len() {
        let next = reg.subrange(0, n + 1);
        assert(next.drop_last() =~= reg.subrange(0, n));
        lemma_holder_prefix(reg, name, n + 1);
    } else {
        assert(reg.subrange(0, n) =~= reg);
    }
}

/// Once found in a prefix, the blocker stays the blocker.
proof fn lemma_blocker_prefix(reg: Seq<Registered>, name: Seq<char>, n: int)
    requires
        0 <= n <= reg.len(),
        blocker_at(reg.subrange(0, n), name) is Some,
    ensures
        blocker_at(reg, name) == blocker_at(reg.subrange(0, n), name),
    decreases reg.len() - n,
{
    if n < reg.len() {
        let next = reg.subrange(0, n + 1);
        assert(next.drop_last() =~= reg.subrange(0, n));
        lemma_blocker_prefix(reg, name, n + 1);
    } else {
        assert(reg.subrange(0, n) =~= reg);
    }
}

/// The first registered project whose name nests with `name`.
pub fn blocker(reg: &Vec<Registered>, name: &ProjectName) -> (r: Option<usize>)
    ensures
        match blocker_at(reg@, name@) {
            Some(i) => r matches Some(k) && k == i,
            None => r is None,
        },
        r matches Some(i) ==> i < reg@.len(),
{
    let mut i: usize = 0;
    while i < reg.len()
        invariant
            i <= reg@.len(),
            blocker_at(reg@.subrange(0, i as int), name@) is None,
        decreases reg.len() - i,
    {
        let ghost upto = reg@.subrange(0, i as int + 1);
        assert(upto.drop_last() =~= reg@.subrange(0, i as int));
        if reg[i].name.nests_with(name) {
            proof {
                lemma_blocker_prefix(reg@, name@, i as int + 1);
            }
            return Some(i);
        }
        i = i + 1;
    }
    assert(reg@.subrange(0, reg@.len() as int) =~= reg@);
    None
}

/// The first free alternative to `name`, `<name>-2` up to `<name>-9`, on
/// the last segment. A rung that is taken, or that would nest, is skipped:
/// a remedy whose command would not run is worse than none. `None` where
/// every rung is spoken for.
pub fn first_free(name: &ProjectName, reg: &Vec<Registered>) -> (r: Option<ProjectName>)
    ensures
        match first_free_of(reg@, name@) {
            Some(free) => r matches Some(p) && p@ == free,
            None => r is None,
        },
{
    let last = name.last_segment();
    let mut k: u64 = 2;
    while k <= 9
        invariant
            2 <= k <= 10,
            last@ == last_segment_of(name@),
            first_free_of(reg@, name@) == free_from(reg@, name@, k as nat),
        decreases 10 - k,
    {
        let mut replacement = owned(last.as_str());
        push_char(&mut replacement, '-');
        push_decimal(&mut replacement, k);
        assert(head_of(name@) + replacement@ =~= rung(name@, k as nat));
        match name.with_last_segment(replacement.as_str()) {
            Some(candidate) => {
                if holder(reg, &candidate).is_none() && blocker(reg, &candidate).is_none() {
                    return Some(candidate);
                }
            },
            None => {},
        }
        k = k + 1;
    }
    None
}

/// The refusal for a name that is already a project.
///
/// Three things wear one error code, because the name is taken in all three
/// and what to do about it is not: the same repository is already
/// registered, so there is nothing to do; the name was derived, so the
/// ladder offers the next free one; the user chose it, so there is nothing
/// to suggest.
pub fn refuse_taken(
    chosen: bool,
    name: &ProjectName,
    source: &ProjectSource,
    reg: &Vec<Registered>,
) -> (e: EngineError)
    ensures
        is_taken_refusal(reg@, name@, *source, chosen, e),
{
    let same = match holder(reg, name) {
        Some(i) => match &reg[i].source {
            Some(registered) => registered.same_repo_as(source),
            None => false,
        },
        None => false,
    };
    let suggestion = if same || chosen {
        None
    } else {
        match first_free(name, reg) {
            Some(free) => Some(free.to_text()),
            None => None,
        }
    };
    EngineError::ProjectNameTaken { name: name.to_text(), same_source: same, suggestion }
}

/// The name a new project takes: the one chosen, taken as typed and never
/// lowercased, or the one derived from the source. Refused if it is not a
/// name, if a project holds it, or if it would nest with one.
pub fn resolve_name(chosen: Option<&str>, source: &ProjectSource, reg: &Vec<Registered>) -> (r: Result<
    ProjectName,
    EngineError,
>)
    ensures
        name_resolution(
            match chosen {
                Some(c) => Some(c@),
                None => None,
            },
            *source,
            reg@,
            r,
        ),
{
    let name = match chosen {
        Some(c) => match ProjectName::parse(c) {
            Ok(n) => n,
            Err(e) => return Err(e),
        },
        None => match source.default_name() {
            Ok(n) => n,
            Err(e) => return Err(e),
        },
    };
    if holder(reg, &name).is_some() {
        return Err(refuse_taken(chosen.is_some(), &name, source, reg));
    }
    match blocker(reg, &name) {
        Some(j) => Err(EngineError::ProjectNameNests { name: name.to_text(), blocker: reg[j].name.to_text() }),
        None => Ok(name),
    }
}

/// The source a `project add` builds: the URL as given, trimmed. An empty
/// URL is refused before anything is created. (Whether the repository's
/// worktrees could land anywhere is `ProjectSource::worktree_path`'s to say,
/// and is asked next.)
pub fn owned_source(url: &str) -> (r: Result<ProjectSource, EngineError>)
    ensures
        trim(url@).len() == 0 ==> (r matches Err(EngineError::InvalidRequest { message })
            && message@ == "a project needs a url to fetch from"@),
        trim(url@).len() > 0 ==> (r matches Ok(ProjectSource::Owned { url: u }) && u@ == trim(url@)),
{
    let v = chars_of(url);
    let t = trimmed(v.as_slice());
    if t.len() == 0 {
        return Err(EngineError::InvalidRequest { message: owned("a project needs a url to fetch from") });
    }
    Ok(ProjectSource::Owned { url: string_of(t.as_slice()) })
}

/// The remedy line only ever prints a command that runs: a suggestion is a
/// rung of the ladder on the last segment, a project name, held by no
/// project and nesting with none.
pub proof fn a_suggestion_is_always_free(reg: Seq<Registered>, name: Seq<char>, k: nat)
    requires
        2 <= k,
    ensures
        free_from(reg, name, k) matches Some(free) ==> offerable(reg, free) && exists|j: nat|
            k <= j <= 9 && free == #[trigger] rung(name, j),
    decreases 10 - k,
{
    if k <= 9 && !offerable(reg, rung(name, k)) {
        a_suggestion_is_always_free(reg, name, k + 1);
    }
}

/// A name is never silently disambiguated: where resolution succeeds, the
/// project takes exactly the name proposed (the one chosen, as typed, or
/// the one derived), and that name is free and nests with nothing.
pub proof fn a_resolved_name_is_the_one_proposed_and_free(
    chosen: Option<Seq<char>>,
    source: ProjectSource,
    reg: Seq<Registered>,
    r: Result<ProjectName, EngineError>,
)
    requires
        name_resolution(chosen, source, reg, r),
    ensures
        r matches Ok(p) ==> p@ == proposed(chosen, source) && holder_at(reg, p@) is None && blocker_at(
            reg,
            p@,
        ) is None,
{
    if chosen is None && !is_project_name(proposed(chosen, source)) {
        assert(name_verdict(derived_name(source)) != NameVerdict::Fine);
    }
}


/// The git steps that build an owned source repo by hand, in the order they
/// run: it is built rather than cloned, so the refspec is set before the
/// first fetch writes anything.
#[derive(Debug, Clone, Copy, PartialEq, Eq, Structural)]
pub enum GitStep {
    /// `git init --bare repo.git`.
    InitBare,
    /// `git remote add origin <url>`.
    SetOrigin,
    /// `git config remote.origin.fetch` to the clone-shaped refspec.
    SetRefspec,
    /// `git fetch origin`: the cold fetch, and the expensive step.
    Fetch,
    /// `git remote set-head origin -a`: best effort, as an empty forge has
    /// no HEAD to point at.
    SetOriginHead,
    /// `git config push.default current`.
    SetPushDefault,
}

/// Where an add stands: the step the caller was last asked to take.
#[derive(Debug, Clone, Copy, PartialEq, Eq, Structural)]
pub enum AddAt {
    /// Nothing asked yet: the name is resolved and free.
    Start,
    /// Making the project directory, reused where an earlier attempt left one.
    MakingDirectory,
    /// Taking the project's lock.
    Locking,
    /// Looking, under the lock, for a `project.toml` another add wrote.
    CheckingRegistration,
    /// Running one step of building the source repo.
    Building(GitStep),
    /// Reading origin's default branch.
    ReadingDefaultBranch,
    /// Re-checking nesting, the one check the lock cannot cover.
    CheckingNesting,
    /// Writing `project.toml`: the registration, and the last step.
    Writing,
    /// Finished or given up.
    Over,
}

/// What came of the step last asked for.
#[derive(Debug)]
pub enum AddEvent {
    /// It was done.
    Done,
    /// Whether a `project.toml` is already there.
    Registered(bool),
    /// A git step failed with this message; `kept` is whether the object
    /// store is there now.
    GitFailed { message: String, kept: bool },
    /// Origin's default branch, where the forge has one.
    DefaultBranch(Option<String>),
    /// The registered project the name now nests with, where there is one.
    Blocker(Option<String>),
    /// The step could not be taken: an I/O failure.
    Failed(EngineError),
}

/// What to do next.
#[derive(Debug)]
pub enum AddStep {
    /// Take this step and report what came of it.
    Take(AddAt),
    /// The name was taken while this add waited: refuse it as the first
    /// check would have.
    RefuseTaken,
    /// Give up with this error.
    Fail(EngineError),
    /// Registered: origin's default branch is this, where it has one.
    Finish(Option<String>),
}

/// An add in progress, for the project called `name` whose source repo is
/// at `repo`.
pub struct AddProgress {
    name: ProjectName,
    repo: String,
    at: AddAt,
    read: bool,
    branch: Option<String>,
}

/// The git step after `s`, where there is one.
pub open spec fn after_step(s: GitStep) -> Option<GitStep> {
    match s {
        GitStep::InitBare => Some(GitStep::SetOrigin),
        GitStep::SetOrigin => Some(GitStep::SetRefspec),
        GitStep::SetRefspec => Some(GitStep::Fetch),
        GitStep::Fetch => Some(GitStep::SetOriginHead),
        GitStep::SetOriginHead => Some(GitStep::SetPushDefault),
        GitStep::SetPushDefault => None,
    }
}

/// What a failed git step is about.
pub open spec fn step_subject(s: GitStep) -> Seq<char> {
    match s {
        GitStep::InitBare => "repo.git"@,
        GitStep::SetPushDefault => "push.default"@,
        _ => "origin"@,
    }
}

/// What a failed git step could not do.
pub open spec fn step_failure(s: GitStep) -> Seq<char> {
    match s {
        GitStep::InitBare => "could not be created"@,
        GitStep::SetOrigin => "could not be pointed at the url"@,
        GitStep::SetRefspec => "could not be given bitplane's refspec"@,
        GitStep::Fetch => "could not be fetched"@,
        GitStep::SetOriginHead => "could not be pointed at the forge's HEAD"@,
        GitStep::SetPushDefault => "could not be set to current"@,
    }
}

/// The problem an add that gave up at `at` reports for git's `message`.
pub open spec fn failure_problem(at: AddAt, message: Seq<char>) -> (Option<Seq<char>>, Seq<char>) {
    match at {
        AddAt::Building(s) => (Some(step_subject(s)), step_failure(s) + ": "@ + message),
        _ => (Some("origin"@), "could not be read"@ + ": "@ + message),
    }
}

/// Whether `e` is the failure of an add of `name` that never registered:
/// the object store is named exactly where it is there.
pub open spec fn is_aborted(e: EngineError, name: Seq<char>, repo: Seq<char>, kept: bool, problem: (Option<Seq<char>>, Seq<char>)) -> bool {
    e matches EngineError::ProjectAddAborted { name: n, kept: k, problem: p } && n@ == name && problem_view(p) == problem
        && (if kept { k matches Some(x) && x@ == repo } else { k is None })
}

/// Whether `event` is an answer to the step at `at`.
pub open spec fn expects(at: AddAt, event: AddEvent) -> bool {
    match at {
        AddAt::Start => event is Done,
        AddAt::MakingDirectory | AddAt::Locking | AddAt::Writing => event is Done || event is Failed,
        AddAt::CheckingRegistration => event is Registered,
        AddAt::Building(_) => event is Done || event is GitFailed,
        AddAt::ReadingDefaultBranch => event is DefaultBranch || event is GitFailed,
        AddAt::CheckingNesting => event is Blocker || event is Failed,
        AddAt::Over => false,
    }
}

/// The step that follows `at` when it was done; where `Take` is the
/// answer, the add moves on to that step.
pub open spec fn next_at(at: AddAt) -> AddAt {
    match at {
        AddAt::Start => AddAt::MakingDirectory,
        AddAt::MakingDirectory => AddAt::Locking,
        AddAt::Locking => AddAt::CheckingRegistration,
        AddAt::CheckingRegistration => AddAt::Building(GitStep::InitBare),
        AddAt::Building(s) => match after_step(s) {
            Some(t) => AddAt::Building(t),
            None => AddAt::ReadingDefaultBranch,
        },
        AddAt::ReadingDefaultBranch => AddAt::CheckingNesting,
        AddAt::CheckingNesting => AddAt::Writing,
        _ => AddAt::Over,
    }
}

/// The order an add runs in, as a rank: each step comes after every step
/// of lower rank.
pub open spec fn rank(at: AddAt) -> int {
    match at {
        AddAt::Start => 0,
        AddAt::MakingDirectory => 1,
        AddAt::Locking => 2,
        AddAt::CheckingRegistration => 3,
        AddAt::Building(GitStep::InitBare) => 4,
        AddAt::Building(GitStep::SetOrigin) => 5,
        AddAt::Building(GitStep::SetRefspec) => 6,
        AddAt::Building(GitStep::Fetch) => 7,
        AddAt::Building(GitStep::SetOriginHead) => 8,
        AddAt::Building(GitStep::SetPushDefault) => 9,
        AddAt::ReadingDefaultBranch => 10,
        AddAt::CheckingNesting => 11,
        AddAt::Writing => 12,
        AddAt::Over => 13,
    }
}

impl AddProgress {
    /// Origin's default branch is known from the nesting re-check on.
    #[verifier::type_invariant]
    spec fn branch_read_before_registering(self) -> bool {
        (self.at is CheckingNesting || self.at is Writing) ==> self.read
    }

    /// The step last asked for.
    pub closed spec fn at(&self) -> AddAt {
        self.at
    }

    /// The project's name.
    pub closed spec fn name(&self) -> Seq<char> {
        self.name@
    }

    /// Where its source repo is.
    pub closed spec fn repo(&self) -> Seq<char> {
        self.repo@
    }

    /// Whether origin's default branch has been read.
    pub closed spec fn origin_read(&self) -> bool {
        self.read
    }

    /// Origin's default branch as read, where the forge has one.
    pub closed spec fn branch(&self) -> Option<Seq<char>> {
        opt(self.branch)
    }

    /// An add of `name`, whose source repo will be at `repo`, about to start.
    pub fn new(name: ProjectName, repo: String) -> (p: AddProgress)
        ensures
            p.at() == AddAt::Start,
            p.name() == name@,
            p.repo() == repo@,
            !p.origin_read(),
    {
        AddProgress { name, repo, at: AddAt::Start, read: false, branch: None }
    }

    /// The step last asked for.
    pub fn current(&self) -> (at: AddAt)
        ensures
            at == self.at(),
    {
        self.at
    }
}

/// `what: message`, about `subject`.
fn about(subject: &str, what: &str, message: &str) -> (p: Problem)
    ensures
        problem_view(p) == (Some(subject@), what@ + ": "@ + message@),
{
    let mut text = owned(what);
    push_str(&mut text, ": ");
    push_str(&mut text, message);
    proof {
        reveal_strlit(": ");
    }
    Problem::about(subject, text.as_str())
}

/// The problem a failed git step reports.
pub fn step_problem(step: GitStep, message: &str) -> (p: Problem)
    ensures
        problem_view(p) == failure_problem(AddAt::Building(step), message@),
{
    proof {
        reveal_strlit("repo.git");
        reveal_strlit("origin");
        reveal_strlit("push.default");
        reveal_strlit("could not be created");
        reveal_strlit("could not be pointed at the url");
        reveal_strlit("could not be given bitplane's refspec");
        reveal_strlit("could not be fetched");
        reveal_strlit("could not be pointed at the forge's HEAD");
        reveal_strlit("could not be set to current");
    }
    match step {
        GitStep::InitBare => about("repo.git", "could not be created", message),
        GitStep::SetOrigin => about("origin", "could not be pointed at the url", message),
        GitStep::SetRefspec => about("origin", "could not be given bitplane's refspec", message),
        GitStep::Fetch => about("origin", "could not be fetched", message),
        GitStep::SetOriginHead => about("origin", "could not be pointed at the forge's HEAD", message),
        GitStep::SetPushDefault => about("push.default", "could not be set to current", message),
    }
}

/// The failure of an add of `name` that never got as far as registering.
/// The object store at `repo` is named only where it is there (`kept`): a
/// run that fell over at `git init --bare` kept nothing, and a remedy
/// pointing at a directory that was never created is worse than none.
pub fn aborted(name: &ProjectName, repo: &str, kept: bool, problem: Problem) -> (e: EngineError)
    ensures
        is_aborted(e, name@, repo@, kept, problem_view(problem)),
{
    EngineError::ProjectAddAborted {
        name: name.to_text(),
        kept: if kept { Some(owned(repo)) } else { None },
        problem,
    }
}

/// What an add does next, given what came of the step last asked for.
///
/// The steps run in one order: the directory, the lock, the registration
/// re-check, the source repo step by step, origin's default branch, the
/// nesting re-check, and `project.toml` last. A failed git step gives up
/// with the object store kept where it is there (setting origin's HEAD is
/// best effort and is passed over); nothing after a failure is asked for,
/// so `project.toml` is never written on failure.
pub fn project_add_next(progress: &mut AddProgress, event: AddEvent) -> (step: AddStep)
    requires
        expects(old(progress).at(), event),
    ensures
        final(progress).name() == old(progress).name(),
        final(progress).repo() == old(progress).repo(),
        match step {
            AddStep::Take(at) => final(progress).at() == at && rank(at) == rank(old(progress).at()) + 1,
            _ => final(progress).at() == AddAt::Over,
        },
        match (old(progress).at(), event) {
            (AddAt::CheckingRegistration, AddEvent::Registered(true)) => step is RefuseTaken,
            (AddAt::Building(s), AddEvent::GitFailed { message, kept }) => if s == GitStep::SetOriginHead {
                step == AddStep::Take(AddAt::Building(GitStep::SetPushDefault))
            } else {
                step matches AddStep::Fail(e) && is_aborted(
                    e,
                    old(progress).name(),
                    old(progress).repo(),
                    kept,
                    failure_problem(AddAt::Building(s), message@),
                )
            },
            (AddAt::ReadingDefaultBranch, AddEvent::GitFailed { message, kept }) => step matches AddStep::Fail(e)
                && is_aborted(
                e,
                old(progress).name(),
                old(progress).repo(),
                kept,
                failure_problem(AddAt::ReadingDefaultBranch, message@),
            ),
            (AddAt::ReadingDefaultBranch, AddEvent::DefaultBranch(b)) => step == AddStep::Take(AddAt::CheckingNesting)
                && final(progress).origin_read() && final(progress).branch() == opt(b),
            (AddAt::CheckingNesting, AddEvent::Blocker(Some(b))) => step matches AddStep::Fail(
                EngineError::ProjectNameNests { name: n, blocker: x },
            ) && n@ == old(progress).name() && x@ == b@,
            (AddAt::Writing, AddEvent::Done) => step matches AddStep::Finish(b) && opt(b) == old(progress).branch(),
            (_, AddEvent::Failed(e)) => step == AddStep::Fail(e),
            (at, _) => step == AddStep::Take(next_at(at)),
        },
        step matches AddStep::Take(AddAt::Writing) ==> old(progress).at() == AddAt::CheckingNesting
            && event == AddEvent::Blocker(None) && final(progress).origin_read(),
        step is Finish ==> old(progress).at() == AddAt::Writing,
        old(progress).at() != AddAt::ReadingDefaultBranch ==> final(progress).branch() == old(progress).branch()
            && final(progress).origin_read() == old(progress).origin_read(),
{
    proof {
        use_type_invariant(&*progress);
    }
    let at = progress.at;
    match event {
        AddEvent::Failed(e) => {
            progress.at = AddAt::Over;
            AddStep::Fail(e)
        },
        AddEvent::Registered(true) => {
            progress.at = AddAt::Over;
            AddStep::RefuseTaken
        },
        AddEvent::GitFailed { message, kept } => {
            if at == AddAt::Building(GitStep::SetOriginHead) {
                progress.at = AddAt::Building(GitStep::SetPushDefault);
                return AddStep::Take(AddAt::Building(GitStep::SetPushDefault));
            }
            let problem = match at {
                AddAt::Building(s) => step_problem(s, message.as_str()),
                _ => {
                    proof {
                        reveal_strlit("origin");
                        reveal_strlit("could not be read");
                    }
                    about("origin", "could not be read", message.as_str())
                },
            };
            progress.at = AddAt::Over;
            AddStep::Fail(aborted(&progress.name, progress.repo.as_str(), kept, problem))
        },
        AddEvent::DefaultBranch(b) => {
            progress.branch = b;
            progress.read = true;
            progress.at = AddAt::CheckingNesting;
            AddStep::Take(AddAt::CheckingNesting)
        },
        AddEvent::Blocker(Some(b)) => {
            progress.at = AddAt::Over;
            AddStep::Fail(EngineError::ProjectNameNests { name: progress.name.to_text(), blocker: b })
        },
        _ => {
            if at == AddAt::Writing {
                let branch = match &progress.branch {
                    Some(b) => Some(b.clone()),
                    None => None,
                };
                progress.at = AddAt::Over;
                return AddStep::Finish(branch);
            }
            let next = match at {
                AddAt::Start => AddAt::MakingDirectory,
                AddAt::MakingDirectory => AddAt::Locking,
                AddAt::Locking => AddAt::CheckingRegistration,
                AddAt::CheckingRegistration => AddAt::Building(GitStep::InitBare),
                AddAt::Building(GitStep::InitBare) => AddAt::Building(GitStep::SetOrigin),
                AddAt::Building(GitStep::SetOrigin) => AddAt::Building(GitStep::SetRefspec),
                AddAt::Building(GitStep::SetRefspec) => AddAt::Building(GitStep::Fetch),
                AddAt::Building(GitStep::Fetch) => AddAt::Building(GitStep::SetOriginHead),
                AddAt::Building(GitStep::SetOriginHead) => AddAt::Building(GitStep::SetPushDefault),
                AddAt::Building(GitStep::SetPushDefault) => AddAt::ReadingDefaultBranch,
                AddAt::ReadingDefaultBranch => AddAt::CheckingNesting,
                _ => AddAt::Writing,
            };
            progress.at = next;
            AddStep::Take(next)
        },
    }
}


/// Whether `trace` is the steps of one add as it was asked to take them:
/// from the start, each the one after the last.
pub open spec fn taken_in_order(trace: Seq<AddAt>) -> bool {
    &&& trace.len() > 0
    &&& trace[0] == AddAt::Start
    &&& forall|i: int| 0 <= i < trace.len() - 1 ==> rank(#[trigger] trace[i + 1]) == rank(trace[i]) + 1
}

/// Whether `at` was taken before the `i`th step of `trace`.
pub open spec fn taken_before(trace: Seq<AddAt>, i: int, at: AddAt) -> bool {
    exists|j: int| 0 <= j < i && trace[j] == at
}

proof fn lemma_rank_is_position(trace: Seq<AddAt>, k: int)
    requires
        taken_in_order(trace),
        0 <= k < trace.len(),
    ensures
        rank(trace[k]) == k,
    decreases k,
{
    if k > 0 {
        lemma_rank_is_position(trace, k - 1);
        assert(rank(trace[(k - 1) + 1]) == rank(trace[k - 1]) + 1);
    }
}

proof fn lemma_rank_names_the_step(a: AddAt, b: AddAt)
    requires
        rank(a) == rank(b),
    ensures
        a == b,
{
}

/// `project.toml` is written last: an add is only ever asked for the step
/// after the one it took, so by the time it writes the registration it has
/// built the source repo step by step, read origin's default branch and
/// re-checked nesting, each answered without giving up.
pub proof fn project_file_is_written_last(trace: Seq<AddAt>, i: int)
    requires
        taken_in_order(trace),
        0 <= i < trace.len(),
        trace[i] == AddAt::Writing,
    ensures
        forall|s: GitStep| #[trigger] taken_before(trace, i, AddAt::Building(s)),
        taken_before(trace, i, AddAt::ReadingDefaultBranch),
        taken_before(trace, i, AddAt::CheckingNesting),
{
    lemma_rank_is_position(trace, i);
    assert forall|s: GitStep| #[trigger] taken_before(trace, i, AddAt::Building(s)) by {
        let j = rank(AddAt::Building(s));
        lemma_rank_is_position(trace, j);
        lemma_rank_names_the_step(trace[j], AddAt::Building(s));
    }
    lemma_rank_is_position(trace, 10);
    lemma_rank_names_the_step(trace[10], AddAt::ReadingDefaultBranch);
    lemma_rank_is_position(trace, 11);
    lemma_rank_names_the_step(trace[11], AddAt::CheckingNesting);
}

} // verus!
