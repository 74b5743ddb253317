use bitplane::error::EngineError;
use bitplane::porcelain::{
    commit_count, lines_of, on_origin, origin_branch, ref_listing, status_counts, without_prefix, worktree_entries,
    WorktreeEntry,
};
use bitplane::teardown::WorktreeLock;

#[test]
fn lines_end_at_a_newline_or_a_crlf_and_a_final_newline_adds_none() {
    let text = |lines: Vec<Vec<char>>| lines.into_iter().map(|l| l.into_iter().collect::<String>()).collect::<Vec<_>>();
    assert_eq!(text(lines_of("a\nb\r\nc")), vec!["a", "b", "c"]);
    assert_eq!(text(lines_of("a\n\nb\n")), vec!["a", "", "b"]);
    assert!(lines_of("").is_empty());
}

#[test]
fn a_status_counts_changed_and_untracked_files_apart() {
    assert_eq!(status_counts(" M src/lib.rs\n?? notes.txt\nA  new.rs\n?? scratch/\n"), (2, 2));
    assert_eq!(status_counts(""), (0, 0));
}

#[test]
fn a_commit_is_on_origin_when_a_branch_of_origin_holds_it() {
    assert!(on_origin("  origin/main\n  origin/feat-login\n"));
    assert!(!on_origin("  upstream/main\n"));
    assert!(!on_origin(""));
}

#[test]
fn a_commit_count_is_read_from_the_trimmed_answer() {
    assert_eq!(commit_count("3\n"), Ok(3));
    assert_eq!(
        commit_count("lots\n"),
        Err(EngineError::GitFailed { message: "git rev-list answered lots".to_owned() })
    );
}

#[test]
fn a_symbolic_ref_of_origin_names_its_branch() {
    assert_eq!(origin_branch("refs/remotes/origin/main"), "main");
    assert_eq!(origin_branch("main"), "main");
    assert_eq!(without_prefix("refs/heads/feat-login", "refs/heads/"), "feat-login");
}

#[test]
fn a_ref_listing_is_split_at_the_first_space() {
    assert_eq!(
        ref_listing("refs/remotes/origin/main abc123\nnospace\nrefs/remotes/origin/x d e\n"),
        vec![
            ("refs/remotes/origin/main".to_owned(), "abc123".to_owned()),
            ("refs/remotes/origin/x".to_owned(), "d e".to_owned()),
        ]
    );
}

#[test]
fn a_worktree_listing_reads_each_entry_with_its_branch_lock_and_prunability() {
    let listing = "worktree /repos/api\nHEAD abc\nbranch refs/heads/main\n\n\
                   worktree /planes/p/api\nHEAD def\nbranch refs/heads/feat-login\nlocked moving it\n\n\
                   worktree /planes/q/api\nHEAD 123\ndetached\nlocked\nprunable gitdir file points to non-existent location\n";
    assert_eq!(
        worktree_entries(listing),
        vec![
            WorktreeEntry { path: "/repos/api".to_owned(), branch: Some("main".to_owned()), locked: None, prunable: false },
            WorktreeEntry {
                path: "/planes/p/api".to_owned(),
                branch: Some("feat-login".to_owned()),
                locked: Some(WorktreeLock { reason: Some("moving it".to_owned()) }),
                prunable: false,
            },
            WorktreeEntry {
                path: "/planes/q/api".to_owned(),
                branch: None,
                locked: Some(WorktreeLock { reason: None }),
                prunable: true,
            },
        ]
    );
    assert!(worktree_entries("").is_empty());
}
