use bitplane::head::{gitdir_named_in, Head};

#[test]
fn a_symbolic_head_is_the_branch_it_names() {
    assert_eq!(Head::parse("ref: refs/heads/feat-login\n"), Some(Head::Branch { branch: "feat-login".to_owned() }));
}

#[test]
fn a_branch_name_containing_slashes_survives() {
    assert_eq!(Head::parse("ref: refs/heads/alfonz/feat/login\n").unwrap().to_text(), "alfonz/feat/login");
}

#[test]
fn a_raw_object_id_is_a_detached_head_reported_abbreviated() {
    let head = Head::parse("9f2c1ab0d4e5f6a7b8c9d0e1f2a3b4c5d6e7f8a9\n").unwrap();

    assert_eq!(head, Head::Detached { commit: "9f2c1ab0d4e5f6a7b8c9d0e1f2a3b4c5d6e7f8a9".to_owned() });
    assert_eq!(head.to_text(), "(detached at 9f2c1ab)");
    assert_eq!(head.branch(), None);
}

#[test]
fn nothing_readable_is_no_head_rather_than_a_guess() {
    for text in ["", "   \n", "ref: refs/tags/v1\n", "ref: \n"] {
        assert_eq!(Head::parse(text), None, "for {text:?}");
    }
}

#[test]
fn a_gitdir_file_names_its_directory_absolutely_or_relative_to_the_worktree() {
    assert_eq!(
        gitdir_named_in("/plane/acme/api", "gitdir: /repo/.git/worktrees/api\n"),
        Some("/repo/.git/worktrees/api".to_owned())
    );
    assert_eq!(gitdir_named_in("/dir/worktree", "gitdir: ../administrative\n"), Some("/dir/worktree/../administrative".to_owned()));
    assert_eq!(gitdir_named_in("/dir/worktree", "not a pointer\n"), None);
}
