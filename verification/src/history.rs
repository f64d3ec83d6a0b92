//! The model of a branch's history: a sequence of commit identifiers, oldest
//! first, and the rules that pick the next commit from it.

use crate::error::ErrorView;
use crate::sequence::{first_index, lemma_first_index, lemma_first_index_is};
use vstd::prelude::*;

verus! {

/// The two ways to walk a history.
#[derive(Debug, Clone, Copy, PartialEq, Eq, Structural)]
pub enum Direction {
    /// Toward newer commits.
    Forward,
    /// Toward older commits.
    Backward,
}

impl Direction {
    /// The other direction.
    pub open spec fn opposite(self) -> Direction {
        match self {
            Direction::Forward => Direction::Backward,
            Direction::Backward => Direction::Forward,
        }
    }
}

/// The history as it is walked in direction `d`: as it stands for `Forward`,
/// newest first for `Backward`.
pub open spec fn oriented(log: Seq<Seq<char>>, d: Direction) -> Seq<Seq<char>> {
    match d {
        Direction::Forward => log,
        Direction::Backward => log.reverse(),
    }
}

/// The error that tells that the walk in direction `d` has reached its end.
pub open spec fn boundary(d: Direction) -> ErrorView {
    match d {
        Direction::Forward => ErrorView::LastCommit,
        Direction::Backward => ErrorView::FirstCommit,
    }
}

/// One step from `head` in direction `d`: the commit that follows the first
/// occurrence of `head` in the oriented history.
pub open spec fn next_commit(log: Seq<Seq<char>>, head: Seq<char>, d: Direction) -> Result<
    Seq<char>,
    ErrorView,
> {
    let o = oriented(log, d);
    let i = first_index(o, head);
    if i >= o.len() {
        Err(ErrorView::HeadNotFound)
    } else if i == o.len() - 1 {
        Err(boundary(d))
    } else {
        Ok(o[i + 1])
    }
}

/// The least index from `k` on at which `o` holds a member of `changes`, or
/// `o.len()` if there is none.
pub open spec fn first_change_from(o: Seq<Seq<char>>, changes: Seq<Seq<char>>, k: int) -> int
    decreases o.len() - k,
{
    if k >= o.len() {
        o.len() as int
    } else if changes.contains(o[k]) {
        k
    } else {
        first_change_from(o, changes, k + 1)
    }
}

/// One filtered step from `head` in direction `d`: the nearest commit beyond
/// the first occurrence of `head` in the oriented history that is a member
/// of `changes`.
pub open spec fn next_change(
    log: Seq<Seq<char>>,
    head: Seq<char>,
    d: Direction,
    file: Seq<char>,
    changes: Seq<Seq<char>>,
) -> Result<Seq<char>, ErrorView> {
    let o = oriented(log, d);
    let i = first_index(o, head);
    let k = first_change_from(o, changes, i + 1);
    if i >= o.len() {
        Err(ErrorView::HeadNotFound)
    } else if k >= o.len() {
        Err(ErrorView::NoMoreChanges { file })
    } else {
        Ok(o[k])
    }
}

/// `first_change_from` is in range, finds a member of `changes` where it
/// finds anything, and passes over none.
pub proof fn lemma_first_change_from(o: Seq<Seq<char>>, changes: Seq<Seq<char>>, k: int)
    requires
        0 <= k <= o.len(),
    ensures
        k <= first_change_from(o, changes, k) <= o.len(),
        first_change_from(o, changes, k) < o.len() ==> changes.contains(
            o[first_change_from(o, changes, k)],
        ),
        forall|j: int| k <= j < first_change_from(o, changes, k) ==> !changes.contains(o[j]),
    decreases o.len() - k,
{
    if k < o.len() && !changes.contains(o[k]) {
        lemma_first_change_from(o, changes, k + 1);
    }
}

/// Reversing a history keeps its members.
pub proof fn lemma_oriented_contains(log: Seq<Seq<char>>, d: Direction, x: Seq<char>)
    ensures
        oriented(log, d).len() == log.len(),
        oriented(log, d).contains(x) <==> log.contains(x),
{
    let o = oriented(log, d);
    if d == Direction::Backward {
        if log.contains(x) {
            let k = choose|k: int| 0 <= k < log.len() && log[k] == x;
            assert(o[log.len() - 1 - k] == x);
        }
        if o.contains(x) {
            let k = choose|k: int| 0 <= k < o.len() && o[k] == x;
            assert(log[log.len() - 1 - k] == x);
        }
    }
}

/// The plain step by index. From a head that stands at index `i` of the
/// oriented history, and nowhere before it, the step gives the commit at
/// `i + 1`; where `i` is the last index, it gives the error that marks the
/// end of the walk in that direction.
pub proof fn lemma_step_from_index(log: Seq<Seq<char>>, d: Direction, i: int)
    requires
        0 <= i < oriented(log, d).len(),
        forall|j: int| 0 <= j < i ==> oriented(log, d)[j] != oriented(log, d)[i],
    ensures
        i < oriented(log, d).len() - 1 ==> next_commit(log, oriented(log, d)[i], d) == Ok::<
            Seq<char>,
            ErrorView,
        >(oriented(log, d)[i + 1]),
        i == oriented(log, d).len() - 1 ==> next_commit(log, oriented(log, d)[i], d) == Err::<
            Seq<char>,
            ErrorView,
        >(boundary(d)),
{
    lemma_first_index_is(oriented(log, d), oriented(log, d)[i], i);
}

/// A step and the step back. In a history without duplicates, a step from `x` in
/// one direction that reaches a commit, followed by a step from that commit
/// in the other direction, comes back to `x`.
pub proof fn lemma_step_and_back(log: Seq<Seq<char>>, x: Seq<char>, d: Direction)
    requires
        log.no_duplicates(),
        next_commit(log, x, d) is Ok,
    ensures
        next_commit(log, next_commit(log, x, d)->Ok_0, d.opposite()) == Ok::<Seq<char>, ErrorView>(
            x,
        ),
{
    let n = log.len() as int;
    let o = oriented(log, d);
    let back = oriented(log, d.opposite());
    assert(o.len() == n && back.len() == n);
    assert forall|j: int| 0 <= j < n implies back[j] == o[n - 1 - j] by {}
    assert forall|a: int, b: int| 0 <= a < n && 0 <= b < n && a != b implies o[a] != o[b] by {
        if d == Direction::Backward {
            assert(o[a] == log[n - 1 - a] && o[b] == log[n - 1 - b]);
        }
    }
    lemma_first_index(o, x);
    let i = first_index(o, x);
    let y = o[i + 1];
    let k = n - 2 - i;
    assert(back[k] == y);
    assert forall|j: int| 0 <= j < k implies back[j] != y by {
        assert(back[j] == o[n - 1 - j]);
    }
    lemma_first_index_is(back, y, k);
    assert(back[k + 1] == o[i]);
}

/// What the filtered step picks. The commit that it gives is a member of
/// `changes`, stands in the oriented history strictly beyond the head, and
/// is the nearest such commit. Where `changes` is empty and the head is a
/// commit of the branch, the step gives `NoMoreChanges` with `file`.
pub proof fn lemma_change_is_member(
    log: Seq<Seq<char>>,
    head: Seq<char>,
    d: Direction,
    file: Seq<char>,
    changes: Seq<Seq<char>>,
)
    ensures
        next_change(log, head, d, file, changes) matches Ok(c) ==> {
            &&& changes.contains(c)
            &&& log.contains(c)
            &&& exists|k: int|
                {
                    &&& first_index(oriented(log, d), head) < k < oriented(log, d).len()
                    &&& #[trigger] oriented(log, d)[k] == c
                    &&& forall|j: int|
                        first_index(oriented(log, d), head) < j < k ==> !changes.contains(
                            #[trigger] oriented(log, d)[j],
                        )
                }
        },
        changes.len() == 0 && log.contains(head) ==> next_change(log, head, d, file, changes)
            == Err::<Seq<char>, ErrorView>(ErrorView::NoMoreChanges { file }),
{
    let o = oriented(log, d);
    lemma_first_index(o, head);
    lemma_oriented_contains(log, d, head);
    let i = first_index(o, head);
    let k = first_change_from(o, changes, i + 1);
    if i < o.len() && k < o.len() {
        lemma_first_change_from(o, changes, i + 1);
        assert(o.contains(o[k]));
        lemma_oriented_contains(log, d, o[k]);
        assert(i < k < o.len() && o[k] == o[k]);
    }
}

} // verus!
