use jumper::git::{checkout_report, parse_head, parse_log};
use jumper::text::{is_whitespace, trimmed, trimmed_lines};
use jumper::{Direction, Error, Git};

#[test]
fn empty_log_for_release_is_git_log_empty() {
    let res = Git::new("release".to_string(), "abc\n", true, "");
    assert_eq!(res.err(), Some(Error::GitLogEmpty { branch: "release".to_string() }));
}

#[test]
fn failed_log_is_git_log_empty() {
    let res = Git::new("nope".to_string(), "abc\n", false, "c1\nc2\n");
    assert_eq!(res.err(), Some(Error::GitLogEmpty { branch: "nope".to_string() }));
    assert_eq!(
        parse_log("nope", false, "c1"),
        Err(Error::GitLogEmpty { branch: "nope".to_string() })
    );
}

#[test]
fn log_of_white_space_alone_is_git_log_empty() {
    for raw in ["\n", "  \n\t\n ", "\r\n", "\u{3000}"] {
        assert_eq!(
            parse_log("main", true, raw),
            Err(Error::GitLogEmpty { branch: "main".to_string() })
        );
    }
}

#[test]
fn new_holds_branch_head_and_log() {
    let g = Git::new("main".to_string(), "c2\n", true, "c1\nc2\nc3").unwrap();
    assert_eq!(g.branch, "main");
    assert_eq!(g.head, "c2");
    assert_eq!(g.log, vec!["c1".to_string(), "c2".to_string(), "c3".to_string()]);
    assert_eq!(g.jump_to_commit(Direction::Forward), Ok("c3".to_string()));
    assert_eq!(g.jump_to_commit(Direction::Backward), Ok("c1".to_string()));
}

#[test]
fn log_lines_are_split_after_trimming() {
    assert_eq!(
        parse_log("main", true, "\n  c1\nc2\nc3\n\n"),
        Ok(vec!["c1".to_string(), "c2".to_string(), "c3".to_string()])
    );
    assert_eq!(parse_log("main", true, "c1"), Ok(vec!["c1".to_string()]));
}

#[test]
fn inner_lines_are_kept_as_they_are() {
    assert_eq!(
        trimmed_lines("a\n\n b \r\nc"),
        vec!["a".to_string(), "".to_string(), " b \r".to_string(), "c".to_string()]
    );
}

#[test]
fn lines_agree_with_split_on_newline() {
    for raw in ["a", "a\nb", "a\n\nb", " a\nb\n", "\u{e9}\n\u{4e2d}\u{6587}\n\u{1f600}", "x\ny\nz\n\n\n"] {
        let expected: Vec<String> = raw.trim().split("\n").map(|s| s.to_string()).collect();
        assert_eq!(trimmed_lines(raw), expected);
    }
}

#[test]
fn change_log_of_empty_listing_has_no_commit() {
    let g = Git::new("main".to_string(), "c1", true, "c1\nc2").unwrap();
    assert_eq!(g.change_log(""), Vec::<String>::new());
    assert_eq!(g.change_log(" \n "), Vec::<String>::new());
    assert_eq!(g.change_log("c2\n"), vec!["c2".to_string()]);
    assert_eq!(g.change_log("c1\nc2"), vec!["c1".to_string(), "c2".to_string()]);
}

#[test]
fn change_log_feeds_the_filtered_step() {
    let g = Git::new("main".to_string(), "c2\n", true, "c1\nc2\nc3\nc4\nc5\n").unwrap();
    let changes = g.change_log("c2\nc4\n");
    assert_eq!(g.jump_to_change(Direction::Forward, "foo.txt", &changes), Ok("c4".to_string()));
    let none = g.change_log("");
    assert_eq!(
        g.jump_to_change(Direction::Forward, "foo.txt", &none),
        Err(Error::NoMoreChanges { file: "foo.txt".to_string() })
    );
}

#[test]
fn head_is_the_trimmed_output() {
    assert_eq!(parse_head("0123abcd\n"), "0123abcd");
    assert_eq!(parse_head("  0123abcd  \r\n"), "0123abcd");
    assert_eq!(parse_head(""), "");
}

#[test]
fn trimmed_takes_white_space_off_both_ends_only() {
    assert_eq!(trimmed("  a b \t\n"), "a b");
    assert_eq!(trimmed("abc"), "abc");
    assert_eq!(trimmed(" \n\t "), "");
    assert_eq!(trimmed("\u{a0}\u{2003}x\u{3000}\u{85}"), "x");
    assert_eq!(trimmed("\u{200b}x\u{200b}"), "\u{200b}x\u{200b}");
}

#[test]
fn trimmed_agrees_with_trim() {
    for raw in ["", " ", "a", " a", "a ", " a ", "\n\na\nb\n\n", "\u{2028}\u{e9}t\u{e9}\u{2029}", "\u{1680}\u{205f}\u{202f}"] {
        assert_eq!(trimmed(raw), raw.trim());
    }
}

#[test]
fn white_space_is_what_unicode_marks() {
    let mut n: u32 = 0;
    while n <= 0x10ffff {
        if let Some(c) = char::from_u32(n) {
            assert_eq!(is_whitespace(c), c.is_whitespace());
        }
        n += 1;
    }
}

#[test]
fn checkout_success_gives_the_trimmed_diagnostic() {
    assert_eq!(
        checkout_report(true, "HEAD is now at 0123abc message\n"),
        Ok("HEAD is now at 0123abc message".to_string())
    );
    assert_eq!(checkout_report(true, ""), Ok("".to_string()));
}

#[test]
fn checkout_failure_gives_the_diagnostic_as_printed() {
    assert_eq!(
        checkout_report(false, "error: pathspec 'zz' did not match\n"),
        Err(Error::GitError { message: "error: pathspec 'zz' did not match\n".to_string() })
    );
}
