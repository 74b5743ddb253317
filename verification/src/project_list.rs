//! `project_list`: every project registered on this host, in name order.
//!
//! The projects directory is the registry: a directory whose name is a
//! project name and which holds a `project.toml` is a project, and anything
//! else (the leftovers of an interrupted `project add` included) is not. A
//! file that will not parse is a row rather than a failure: a listing that
//! dies on one bad file tells the user nothing about the other nine.

use vstd::prelude::*;
use crate::error::EngineError;
use crate::member::{is_project_name, ProjectName};
use crate::order::{in_name_order, in_order, texts};
use crate::outcome::{Outcome, PerProject};
use crate::project_file::ProjectFile;
use crate::source::ProjectSource;

verus! {

/// One directory in the projects directory, as a scan found it.
pub struct Entry {
    /// The directory's name, which is the project's name if it is one.
    pub name: String,
    /// Whether it holds a `project.toml`.
    pub has_project_file: bool,
}

/// What a listing says about one registered project.
#[derive(Debug, PartialEq, Eq)]
pub struct ProjectSummary {
    pub source: ProjectSource,
    /// Whether the repository its worktrees come from is there.
    pub source_repo_present: bool,
}

/// Every project, one row each, in name order.
#[derive(Debug, PartialEq, Eq)]
pub struct ProjectListing {
    pub projects: Vec<PerProject<ProjectSummary>>,
}

/// The names that are projects: a project name, holding a project file.
pub open spec fn project_names(entries: Seq<Entry>) -> Seq<Seq<char>>
    decreases entries.len(),
{
    if entries.len() == 0 {
        Seq::empty()
    } else {
        let r = project_names(entries.drop_last());
        let e = entries.last();
        if e.has_project_file && is_project_name(e.name@) {
            r.push(e.name@)
        } else {
            r
        }
    }
}

/// Every name in `project_names` is a project name.
proof fn lemma_project_names_are_names(entries: Seq<Entry>)
    ensures
        forall|k: int| 0 <= k < project_names(entries).len() ==> is_project_name(#[trigger] project_names(entries)[k]),
    decreases entries.len(),
{
    if entries.len() > 0 {
        let r = project_names(entries.drop_last());
        lemma_project_names_are_names(entries.drop_last());
        assert forall|k: int| 0 <= k < project_names(entries).len() implies is_project_name(
            #[trigger] project_names(entries)[k],
        ) by {
            if k < r.len() {
                assert(project_names(entries)[k] == r[k]);
            }
        }
    }
}

/// The names of a sequence of project names.
pub open spec fn name_texts(s: Seq<ProjectName>) -> Seq<Seq<char>> {
    Seq::new(s.len(), |i: int| s[i]@)
}

/// The registry: every entry that is a project, in name order, each as
/// often as it was found.
pub fn registered(entries: &Vec<Entry>) -> (r: Vec<ProjectName>)
    ensures
        in_order(name_texts(r@)),
        name_texts(r@).to_multiset() == project_names(entries@).to_multiset(),
{
    let mut kept: Vec<String> = Vec::new();
    let mut i: usize = 0;
    while i < entries.len()
        invariant
            i <= entries@.len(),
            texts(kept@) == project_names(entries@.subrange(0, i as int)),
        decreases entries.len() - i,
    {
        let ghost upto = entries@.subrange(0, i as int + 1);
        assert(upto.drop_last() =~= entries@.subrange(0, i as int));
        let e = &entries[i];
        if e.has_project_file {
            match ProjectName::parse(e.name.as_str()) {
                Ok(_) => {
                    kept.push(e.name.clone());
                    assert(texts(kept@) =~= project_names(upto));
                },
                Err(_) => {},
            }
        }
        i = i + 1;
    }
    assert(entries@.subrange(0, entries@.len() as int) =~= entries@);
    let ghost found = texts(kept@);
    let sorted = in_name_order(kept);
    proof {
        lemma_project_names_are_names(entries@);
        assert forall|k: int| 0 <= k < sorted@.len() implies is_project_name(#[trigger] sorted@[k]@) by {
            let t = texts(sorted@);
            assert(t[k] == sorted@[k]@);
            vstd::seq_lib::to_multiset_contains(t, t[k]);
            vstd::seq_lib::to_multiset_contains(found, t[k]);
            assert(t.contains(t[k]));
            let j = choose|j: int| 0 <= j < found.len() && found[j] == t[k];
            assert(is_project_name(found[j]));
        }
    }
    let mut r: Vec<ProjectName> = Vec::new();
    let mut k: usize = 0;
    while k < sorted.len()
        invariant
            k <= sorted@.len(),
            r@.len() == k,
            forall|j: int| 0 <= j < sorted@.len() ==> is_project_name(#[trigger] sorted@[j]@),
            forall|j: int| 0 <= j < k ==> #[trigger] r@[j]@ == sorted@[j]@,
        decreases sorted.len() - k,
    {
        match ProjectName::parse(sorted[k].as_str()) {
            Ok(p) => r.push(p),
            Err(_) => {
                assert(false);
            },
        }
        k = k + 1;
    }
    assert(name_texts(r@) =~= texts(sorted@));
    r
}

/// What the listing says of one project: its summary where its file was
/// read, the failure as data where it was not.
pub open spec fn is_row_of(
    row: PerProject<ProjectSummary>,
    name: ProjectName,
    read: Result<(ProjectFile, bool), EngineError>,
) -> bool {
    row.project == name && match read {
        Ok((file, present)) => row.outcome == Outcome::Completed(
            ProjectSummary { source: file.source, source_repo_present: present },
        ),
        Err(e) => row.outcome == Outcome::<ProjectSummary>::Failed(e),
    }
}

/// The listing: one row per registered project, in the order given, each
/// carrying what its file said, or why it could not be read. Nothing is
/// repaired: a file bitplane cannot read is one it has no business
/// rewriting.
pub fn project_list(read: Vec<(ProjectName, Result<(ProjectFile, bool), EngineError>)>) -> (l: ProjectListing)
    ensures
        l.projects@.len() == read@.len(),
        forall|i: int| 0 <= i < read@.len() ==> is_row_of(#[trigger] l.projects@[i], read@[i].0, read@[i].1),
{
    let ghost given = read@;
    let mut projects: Vec<PerProject<ProjectSummary>> = Vec::new();
    let mut rest = read;
    let n = rest.len();
    let mut i: usize = 0;
    assert(given.subrange(0, n as int) =~= given);
    while i < n
        invariant
            n == given.len(),
            i <= n,
            rest@ == given.subrange(i as int, n as int),
            projects@.len() == i,
            forall|j: int| 0 <= j < i ==> is_row_of(#[trigger] projects@[j], given[j].0, given[j].1),
        decreases n - i,
    {
        let (name, outcome) = rest.remove(0);
        assert(rest@ =~= given.subrange(i as int + 1, n as int));
        let row = match outcome {
            Ok((file, present)) => PerProject::ok(
                name,
                ProjectSummary { source: file.source, source_repo_present: present },
            ),
            Err(e) => PerProject::failed(name, e),
        };
        projects.push(row);
        i = i + 1;
    }
    ProjectListing { projects }
}

impl ProjectListing {
    /// Whether some project's file could not be read: drift, which the
    /// command reports in its exit code.
    pub fn has_unreadable(&self) -> (r: bool)
        ensures
            r == exists|i: int| 0 <= i < self.projects@.len() && #[trigger] self.projects@[i].outcome is Failed,
    {
        let mut i: usize = 0;
        while i < self.projects.len()
            invariant
                i <= self.projects@.len(),
                forall|j: int| 0 <= j < i ==> !(#[trigger] self.projects@[j].outcome is Failed),
            decreases self.projects.len() - i,
        {
            if self.projects[i].is_failure() {
                return true;
            }
            i = i + 1;
        }
        false
    }
}

} // verus!
