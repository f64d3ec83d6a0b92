use jumper::Error;

#[test]
fn git_error_message_is_the_diagnostic() {
    let e = Error::GitError { message: "fatal: not a git repository".to_string() };
    assert_eq!(e.message(), "fatal: not a git repository");
}

#[test]
fn git_log_empty_message_names_the_branch() {
    let e = Error::GitLogEmpty { branch: "release".to_string() };
    assert_eq!(
        e.message(),
        "no other commit found in \"release\". try another branch? (eg. jumper --branch main next)"
    );
}

#[test]
fn no_more_changes_message_names_the_file() {
    let e = Error::NoMoreChanges { file: "foo.txt".to_string() };
    assert_eq!(e.message(), "no more changes found for the file: foo.txt");
}

#[test]
fn boundary_messages() {
    assert_eq!(Error::FirstCommit.message(), "already at the first commit");
    assert_eq!(Error::LastCommit.message(), "already at the last commit");
}

#[test]
fn head_not_found_message() {
    assert_eq!(Error::HeadNotFound.message(), "the checked-out commit is not on the branch");
}
