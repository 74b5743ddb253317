//! A project directory: `<projects>/<name>/`, holding `project.toml` and, for
//! an owned project, the bare source repo `repo.git`.
//!
//! A project is exactly a directory holding a project file; the name of the
//! directory is the project's name.

use vstd::prelude::*;
use crate::directories::Directories;
use crate::error::EngineError;
use crate::member::{ProjectName, BIN_DIR_NAME, REPO_DIR_NAME, RESERVED_SEGMENT};
use crate::project_file::{ProjectFile, PROJECT_FILE_NAME};
use crate::source::ProjectSource;
use crate::text::{join_path, path_join};

verus! {

/// A project's directory under the projects directory.
#[derive(Debug, PartialEq, Eq)]
pub struct ProjectDirectory {
    name: ProjectName,
    path: String,
}

impl View for ProjectDirectory {
    /// The name and the directory.
    type V = (Seq<char>, Seq<char>);

    closed spec fn view(&self) -> (Seq<char>, Seq<char>) {
        (self.name@, self.path@)
    }
}

/// The repo a project's worktrees come from: `repo.git` inside the project
/// directory for an owned project, the user's own checkout for an adopted
/// one.
pub open spec fn source_repo_at(directory: Seq<char>, source: ProjectSource) -> Seq<char> {
    match source {
        ProjectSource::Owned { .. } => path_join(directory, "repo.git"@),
        ProjectSource::Adopted { path } => path@,
    }
}

impl ProjectDirectory {
    /// The directory of the project called `name`.
    pub fn of(directories: &Directories, name: ProjectName) -> (p: ProjectDirectory)
        ensures
            p@ == (name@, path_join(directories@.1, name@)),
    {
        let path = join_path(directories.projects(), name.as_str());
        ProjectDirectory { name, path }
    }

    pub fn name(&self) -> (n: &ProjectName)
        ensures
            n@ == self@.0,
    {
        &self.name
    }

    pub fn path(&self) -> (p: &str)
        ensures
            p@ == self@.1,
    {
        self.path.as_str()
    }

    /// Where its project file is.
    pub fn project_file(&self) -> (p: String)
        ensures
            p@ == path_join(self@.1, "project.toml"@),
    {
        join_path(self.path.as_str(), PROJECT_FILE_NAME)
    }

    /// Where an owned project's bare source repo is.
    pub fn source_repo(&self) -> (p: String)
        ensures
            p@ == path_join(self@.1, "repo.git"@),
    {
        join_path(self.path.as_str(), REPO_DIR_NAME)
    }

    /// Where the project ships its own executables.
    pub fn bin(&self) -> (p: String)
        ensures
            p@ == path_join(self@.1, "bin"@),
    {
        join_path(self.path.as_str(), BIN_DIR_NAME)
    }

    /// Where the project's lock sentinel directory is.
    pub fn bitplane_dir(&self) -> (p: String)
        ensures
            p@ == path_join(self@.1, ".bitplane"@),
    {
        join_path(self.path.as_str(), RESERVED_SEGMENT)
    }
}

/// The repo a project's worktrees come from.
pub fn source_repo_of(directory: &ProjectDirectory, file: &ProjectFile) -> (p: String)
    ensures
        p@ == source_repo_at(directory@.1, file.source),
{
    match &file.source {
        ProjectSource::Owned { .. } => directory.source_repo(),
        ProjectSource::Adopted { path } => path.clone(),
    }
}

/// The project called `name`, given whether its directory holds a project
/// file: a name that is not registered is not found.
pub fn find(directories: &Directories, name: &ProjectName, registered: bool) -> (r: Result<ProjectDirectory, EngineError>)
    ensures
        registered ==> (r matches Ok(p) && p@ == (name@, path_join(directories@.1, name@))),
        !registered ==> (r matches Err(EngineError::ProjectNotFound { name: n }) && n@ == name@),
{
    if registered {
        Ok(ProjectDirectory::of(directories, name.clone()))
    } else {
        Err(EngineError::ProjectNotFound { name: name.to_text() })
    }
}

} // verus!
