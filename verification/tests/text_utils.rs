//! The text utilities: command normalisation, tag splitting and lookup-path
//! splitting.

use flowlet::util::{clean_command, path_segments, split_tags, truncate_with_ellipsis};

#[test]
fn clean_command_joins_continuation_lines() {
    assert_eq!(clean_command("ls -la \\\n   home"), "ls -la   home");
}

#[test]
fn clean_command_trims_and_collapses() {
    assert_eq!(clean_command("  echo hi  "), "echo hi");
    assert_eq!(clean_command("a\n\nb"), "a b");
    assert_eq!(clean_command("echo    x"), "echo  x");
    assert_eq!(clean_command(""), "");
    assert_eq!(clean_command("\n\n"), "");
}

#[test]
fn clean_command_drops_backslashes_and_trailing_blanks() {
    assert_eq!(clean_command("one \\\ntwo\t\nthree"), "one two three");
    assert_eq!(clean_command("back\\slash"), "backslash");
}

#[test]
fn split_tags_trims_and_drops_empties() {
    assert_eq!(
        split_tags(" a, b ,, c "),
        vec![String::from("a"), String::from("b"), String::from("c")]
    );
    assert_eq!(split_tags(""), Vec::<String>::new());
    assert_eq!(split_tags(" ,  , "), Vec::<String>::new());
    assert_eq!(split_tags("solo"), vec![String::from("solo")]);
}

#[test]
fn truncation_marks_the_cut() {
    assert_eq!(truncate_with_ellipsis("short", 10), "short");
    assert_eq!(truncate_with_ellipsis("exactly-10", 10), "exactly-10");
    assert_eq!(truncate_with_ellipsis("a longer title", 6), "a long...");
}

#[test]
fn path_segments_keeps_every_piece() {
    assert_eq!(
        path_segments("a.b.c"),
        vec![String::from("a"), String::from("b"), String::from("c")]
    );
    assert_eq!(path_segments("x"), vec![String::from("x")]);
    assert_eq!(
        path_segments("a..b"),
        vec![String::from("a"), String::from(""), String::from("b")]
    );
    assert_eq!(path_segments(""), vec![String::from("")]);
}
