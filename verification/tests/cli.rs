use bitplane::cli::{one_line, rendering_asked_for, waiver};
use bitplane::refusal::Reason;
use bitplane::render::Rendering;

fn args(words: &[&str]) -> Vec<String> {
    words.iter().map(|w| w.to_string()).collect()
}

#[test]
fn json_is_asked_for_only_before_a_double_dash() {
    assert_eq!(rendering_asked_for(&args(&["bp", "lsit", "--json"])), Rendering::Json);
    assert_eq!(rendering_asked_for(&args(&["bp", "create", "--", "--json"])), Rendering::Human);
    assert_eq!(rendering_asked_for(&args(&["bp"])), Rendering::Human);
}

#[test]
fn a_usage_message_is_its_first_line_without_the_parser_s_prefix() {
    assert_eq!(
        one_line("error: unexpected argument '--frobnicate' found\n\nUsage: bp [OPTIONS]\n"),
        "unexpected argument '--frobnicate' found"
    );
    assert_eq!(one_line("\n   \n  error: error: twice\n"), "twice");
    assert_eq!(one_line(""), "the command line could not be parsed");
    assert_eq!(one_line("plain words"), "plain words");
}

#[test]
fn a_misspelled_waiver_names_every_reason_that_can_be_waived() {
    assert_eq!(waiver("uncommitted"), Ok(Reason::Uncommitted));
    assert_eq!(
        waiver("uncomitted"),
        Err("expected one of uncommitted, untracked, unpushed, locked_worktree, source_repo_missing".to_owned())
    );
}
