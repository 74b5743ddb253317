# bitplane

A plane is a named set of git worktrees, one per repository, created
together, torn down together, living in one directory. `bp` makes, shows,
grows and removes planes, and keeps a registry of projects whose source
repos it owns.

## Layout

- `src/` is the library, verified with Verus. It holds what the tool
  decides: plane ids, member and project names, the plane and project files
  and how they read back, the error envelope and its exit codes, how
  directories are resolved, what git's porcelain output says, and the step
  order of every verb (`create_next`, `plane_add_next`, `destroy_next`,
  `remove_next`, `project_add_next`) with the refusals each step can answer.
  Each public function states its result in its contract; the laws the
  verbs keep (a teardown refuses member by member while unwaived work
  remains, a file reads back as written, `project.toml` is written last, and
  more) are public proof functions.
- `app/` is the `bp` program: the command line, the filesystem, running git,
  locks and signals. It gathers what the library needs, hands it over as
  plain values, and performs the steps the library asks for.
- `tests/` runs the library on concrete values.

Git 2.36 or newer is required on `PATH`.
