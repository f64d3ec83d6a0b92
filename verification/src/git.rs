//! The history of one branch together with the checked-out commit, and the
//! steps that can be taken from there.

use crate::error::{Error, ErrorView};
use crate::history::{
    first_change_from, lemma_change_is_member, next_change, next_commit, oriented, Direction,
};
use crate::sequence::{first_index, lemma_first_index, lemma_first_index_is, views};
use crate::text::{entries, lemma_split_lines_nonempty, trim, trimmed, trimmed_lines};
use vstd::prelude::*;

verus! {

/// A branch, the commit that is checked out, and the branch's commits,
/// oldest first.
#[derive(Debug)]
pub struct Git {
    pub branch: String,
    pub head: String,
    pub log: Vec<String>,
}

/// The mathematical value of a `Git`.
pub ghost struct GitView {
    pub branch: Seq<char>,
    pub head: Seq<char>,
    pub log: Seq<Seq<char>>,
}

impl View for Git {
    type V = GitView;

    open spec fn view(&self) -> GitView {
        GitView { branch: self.branch@, head: self.head@, log: views(self.log@) }
    }
}

/// The mathematical value of what a step returns.
pub open spec fn outcome(res: Result<String, Error>) -> Result<Seq<char>, ErrorView> {
    match res {
        Ok(commit) => Ok(commit@),
        Err(e) => Err(e@),
    }
}

/// The history as it is walked in the given direction: a copy as it stands
/// for `Forward`, a reversed copy for `Backward`.
pub fn orient(log: &Vec<String>, direction: Direction) -> (o: Vec<String>)
    ensures
        views(o@) == oriented(views(log@), direction),
{
    let n: usize = log.len();
    let mut o: Vec<String> = Vec::new();
    let mut i: usize = 0;
    while i < n
        invariant
            i <= n == log.len(),
            o.len() == i,
            forall|j: int|
                0 <= j < i ==> o@[j]@ == oriented(views(log@), direction)[j],
        decreases n - i,
    {
        let commit = match direction {
            Direction::Forward => log[i].clone(),
            Direction::Backward => log[n - 1 - i].clone(),
        };
        o.push(commit);
        i += 1;
    }
    assert(views(o@) =~= oriented(views(log@), direction));
    o
}

/// The least index at which `commit` stands in `log`, or `log.len()` if it
/// stands nowhere.
pub fn position(log: &Vec<String>, commit: &String) -> (i: usize)
    ensures
        i == first_index(views(log@), commit@),
{
    let mut i: usize = 0;
    while i < log.len() && !(log[i] == *commit)
        invariant
            i <= log.len(),
            forall|j: int| 0 <= j < i ==> views(log@)[j] != commit@,
        decreases log.len() - i,
    {
        i += 1;
    }
    proof {
        lemma_first_index_is(views(log@), commit@, i as int);
    }
    i
}

/// Whether `commit` stands in `log`.
pub fn contains(log: &Vec<String>, commit: &String) -> (b: bool)
    ensures
        b == views(log@).contains(commit@),
{
    let i = position(log, commit);
    proof {
        lemma_first_index(views(log@), commit@);
    }
    i < log.len()
}

/// The identifier of the checked-out commit, from what the tool printed
/// when asked for it.
pub fn parse_head(output: &str) -> (head: String)
    ensures
        head@ == trim(output@),
{
    trimmed(output)
}

/// The commits of `branch`, oldest first, from the listing that the tool
/// printed. A listing that failed, or that holds nothing but white space,
/// is the error `GitLogEmpty`; every other listing gives its lines, at least
/// one.
pub fn parse_log(branch: &str, succeeded: bool, output: &str) -> (res: Result<Vec<String>, Error>)
    ensures
        match res {
            Ok(log) => {
                &&& succeeded
                &&& trim(output@).len() > 0
                &&& log@.len() > 0
                &&& views(log@) == entries(output@)
            },
            Err(e) => {
                &&& !succeeded || trim(output@).len() == 0
                &&& e@ == (ErrorView::GitLogEmpty { branch: branch@ })
            },
        },
{
    if !succeeded {
        return Err(Error::GitLogEmpty { branch: branch.to_owned() });
    }
    let log = trimmed_lines(output);
    proof {
        lemma_split_lines_nonempty(trim(output@));
        assert(views(log@).len() == log@.len());
    }
    if log.len() == 0 {
        return Err(Error::GitLogEmpty { branch: branch.to_owned() });
    }
    Ok(log)
}

/// What a checkout came to: on success the tool's diagnostic without the
/// white space around it, on failure the error `GitError` with the
/// diagnostic as it was printed.
pub fn checkout_report(succeeded: bool, diagnostic: &str) -> (res: Result<String, Error>)
    ensures
        match res {
            Ok(text) => succeeded && text@ == trim(diagnostic@),
            Err(e) => !succeeded && e@ == (ErrorView::GitError { message: diagnostic@ }),
        },
{
    if succeeded {
        Ok(trimmed(diagnostic))
    } else {
        Err(Error::GitError { message: diagnostic.to_owned() })
    }
}

impl Git {
    /// A history is well formed when it holds at least one commit.
    pub open spec fn wf(&self) -> bool {
        self.log@.len() > 0
    }

    /// The state of a branch, from what the tool printed when asked for the
    /// checked-out commit and for the branch's commits. Fails with
    /// `GitLogEmpty` exactly when `parse_log` does.
    pub fn new(
        branch: String,
        head_output: &str,
        log_succeeded: bool,
        log_output: &str,
    ) -> (res: Result<Git, Error>)
        ensures
            match res {
                Ok(git) => {
                    &&& log_succeeded
                    &&& trim(log_output@).len() > 0
                    &&& git.wf()
                    &&& git@ == (GitView {
                        branch: branch@,
                        head: trim(head_output@),
                        log: entries(log_output@),
                    })
                },
                Err(e) => {
                    &&& !log_succeeded || trim(log_output@).len() == 0
                    &&& e@ == (ErrorView::GitLogEmpty { branch: branch@ })
                },
            },
    {
        let head = parse_head(head_output);
        match parse_log(branch.as_str(), log_succeeded, log_output) {
            Ok(log) => Ok(Git { branch, head, log }),
            Err(e) => Err(e),
        }
    }

    /// The commits that changed one file, oldest first, from the listing
    /// that the tool printed for that file. An empty listing is no error: it
    /// gives no commit.
    pub fn change_log(&self, output: &str) -> (changes: Vec<String>)
        ensures
            views(changes@) == entries(output@),
    {
        trimmed_lines(output)
    }

    /// The commit one step from the head in the given direction: `Ok` with
    /// that commit, `FirstCommit` or `LastCommit` where the head is the end
    /// of the walk, `HeadNotFound` where the head is no commit of the branch.
    pub fn jump_to_commit(&self, direction: Direction) -> (res: Result<String, Error>)
        ensures
            outcome(res) == next_commit(self@.log, self@.head, direction),
    {
        let log = orient(&self.log, direction);
        let index = position(&log, &self.head);
        if index >= log.len() {
            return Err(Error::HeadNotFound);
        }
        if index == log.len() - 1 {
            return match direction {
                Direction::Backward => Err(Error::FirstCommit),
                Direction::Forward => Err(Error::LastCommit),
            };
        }
        Ok(log[index + 1].clone())
    }

    /// The nearest commit beyond the head, in the given direction, that is a
    /// member of `change_log`: `Ok` with that commit, `NoMoreChanges` with
    /// `file` where there is none, `HeadNotFound` where the head is no
    /// commit of the branch.
    pub fn jump_to_change(
        &self,
        direction: Direction,
        file: &str,
        change_log: &Vec<String>,
    ) -> (res: Result<String, Error>)
        ensures
            outcome(res) == next_change(
                self@.log,
                self@.head,
                direction,
                file@,
                views(change_log@),
            ),
            res matches Ok(commit) ==> views(change_log@).contains(commit@)
                && self@.log.contains(commit@),
            change_log@.len() == 0 && self@.log.contains(self@.head) ==> outcome(res) == Err::<
                Seq<char>,
                ErrorView,
            >(ErrorView::NoMoreChanges { file: file@ }),
    {
        proof {
            lemma_change_is_member(
                self@.log,
                self@.head,
                direction,
                file@,
                views(change_log@),
            );
        }
        let log = orient(&self.log, direction);
        let index = position(&log, &self.head);
        if index >= log.len() {
            return Err(Error::HeadNotFound);
        }
        let ghost o = views(log@);
        let ghost changes = views(change_log@);
        let mut k: usize = index + 1;
        while k < log.len()
            invariant
                index < k <= log.len(),
                o == views(log@),
                o == oriented(self@.log, direction),
                index == first_index(o, self@.head),
                changes == views(change_log@),
                first_change_from(o, changes, index + 1) == first_change_from(o, changes, k as int),
            decreases log.len() - k,
        {
            assert(o[k as int] == log@[k as int]@);
            if contains(change_log, &log[k]) {
                return Ok(log[k].clone());
            }
            k += 1;
        }
        Err(Error::NoMoreChanges { file: file.to_owned() })
    }

    /// The oldest commit of the branch, whatever the head; `GitLogEmpty`
    /// where the history holds no commit.
    pub fn jump_to_first(&self) -> (res: Result<String, Error>)
        ensures
            self.wf() ==> outcome(res) == Ok::<Seq<char>, ErrorView>(self@.log.first()),
            !self.wf() ==> outcome(res) == Err::<Seq<char>, ErrorView>(
                ErrorView::GitLogEmpty { branch: self@.branch },
            ),
    {
        if self.log.len() == 0 {
            return Err(Error::GitLogEmpty { branch: self.branch.clone() });
        }
        Ok(self.log[0].clone())
    }

    /// The newest commit of the branch, whatever the head; `GitLogEmpty`
    /// where the history holds no commit.
    pub fn jump_to_last(&self) -> (res: Result<String, Error>)
        ensures
            self.wf() ==> outcome(res) == Ok::<Seq<char>, ErrorView>(self@.log.last()),
            !self.wf() ==> outcome(res) == Err::<Seq<char>, ErrorView>(
                ErrorView::GitLogEmpty { branch: self@.branch },
            ),
    {
        if self.log.len() == 0 {
            return Err(Error::GitLogEmpty { branch: self.branch.clone() });
        }
        Ok(self.log[self.log.len() - 1].clone())
    }
}

} // verus!
