//! The ways in which a navigation request can end without a target commit.

use vstd::prelude::*;
use vstd::string::StringExecFns;

verus! {

/// Why no commit was checked out.
#[derive(Debug, PartialEq, Eq)]
pub enum Error {
    /// The version-control tool failed; `message` is its own diagnostic.
    GitError { message: String },
    /// The history of `branch` could not be listed, or it holds no commit.
    GitLogEmpty { branch: String },
    /// No commit beyond the head, in the requested direction, touched `file`.
    NoMoreChanges { file: String },
    /// The head is the oldest commit of the branch.
    FirstCommit,
    /// The head is the newest commit of the branch.
    LastCommit,
    /// The checked-out commit is not part of the branch's history.
    HeadNotFound,
}

/// The mathematical value of an `Error`: the same cases, over sequences of
/// characters.
pub ghost enum ErrorView {
    GitError { message: Seq<char> },
    GitLogEmpty { branch: Seq<char> },
    NoMoreChanges { file: Seq<char> },
    FirstCommit,
    LastCommit,
    HeadNotFound,
}

impl View for Error {
    type V = ErrorView;

    open spec fn view(&self) -> ErrorView {
        match *self {
            Error::GitError { message } => ErrorView::GitError { message: message@ },
            Error::GitLogEmpty { branch } => ErrorView::GitLogEmpty { branch: branch@ },
            Error::NoMoreChanges { file } => ErrorView::NoMoreChanges { file: file@ },
            Error::FirstCommit => ErrorView::FirstCommit,
            Error::LastCommit => ErrorView::LastCommit,
            Error::HeadNotFound => ErrorView::HeadNotFound,
        }
    }
}

/// The sentence that tells a user of the error `e`.
pub open spec fn message_text(e: ErrorView) -> Seq<char> {
    match e {
        ErrorView::GitError { message } => message,
        ErrorView::GitLogEmpty { branch } => "no other commit found in \""@ + branch
            + "\". try another branch? (eg. jumper --branch main next)"@,
        ErrorView::NoMoreChanges { file } => "no more changes found for the file: "@ + file,
        ErrorView::FirstCommit => "already at the first commit"@,
        ErrorView::LastCommit => "already at the last commit"@,
        ErrorView::HeadNotFound => "the checked-out commit is not on the branch"@,
    }
}

impl Error {
    /// The sentence that tells a user of this error. It names the branch or
    /// the file where the error has one, and gives the tool's own diagnostic
    /// unchanged.
    pub fn message(&self) -> (text: String)
        ensures
            text@ == message_text(self@),
    {
        match self {
            Error::GitError { message } => message.clone(),
            Error::GitLogEmpty { branch } => "no other commit found in \"".to_owned().concat(
                branch.as_str(),
            ).concat("\". try another branch? (eg. jumper --branch main next)"),
            Error::NoMoreChanges { file } => "no more changes found for the file: ".to_owned().concat(
                file.as_str(),
            ),
            Error::FirstCommit => "already at the first commit".to_owned(),
            Error::LastCommit => "already at the last commit".to_owned(),
            Error::HeadNotFound => "the checked-out commit is not on the branch".to_owned(),
        }
    }
}

} // verus!
