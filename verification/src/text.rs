//! Line-oriented text: trimming surrounding white space and splitting on
//! newlines, stated over sequences of characters.

use crate::sequence::{first_index, lemma_first_index_is, views};
use vstd::prelude::*;
use vstd::std_specs::iter::IteratorSpec;

verus! {

/// Trusted, not proved: `String::push` of the standard library. The claim is
/// what its documentation says, that the string afterwards is the string
/// before with `ch` appended at its end.
pub assume_specification[ String::push ](s: &mut String, ch: char)
    ensures
        final(s)@ == old(s)@.push(ch),
;

/// Whether `c` is one of the code points that Unicode marks as white space.
pub open spec fn is_space(c: char) -> bool {
    let n = c as u32;
    ||| 0x09 <= n <= 0x0d
    ||| n == 0x20
    ||| n == 0x85
    ||| n == 0xa0
    ||| n == 0x1680
    ||| 0x2000 <= n <= 0x200a
    ||| n == 0x2028
    ||| n == 0x2029
    ||| n == 0x202f
    ||| n == 0x205f
    ||| n == 0x3000
}

/// `s` without its leading white space.
pub open spec fn trim_start(s: Seq<char>) -> Seq<char>
    decreases s.len(),
{
    if s.len() > 0 && is_space(s[0]) {
        trim_start(s.drop_first())
    } else {
        s
    }
}

/// `s` without its trailing white space.
pub open spec fn trim_end(s: Seq<char>) -> Seq<char>
    decreases s.len(),
{
    if s.len() > 0 && is_space(s.last()) {
        trim_end(s.drop_last())
    } else {
        s
    }
}

/// `s` without the white space that surrounds it.
pub open spec fn trim(s: Seq<char>) -> Seq<char> {
    trim_end(trim_start(s))
}

/// The pieces of `s` between its newlines: one more piece than `s` has
/// newlines, none of them holding a newline.
pub open spec fn split_lines(s: Seq<char>) -> Seq<Seq<char>>
    decreases s.len(),
{
    let i = first_index(s, '\n');
    if 0 <= i < s.len() {
        seq![s.subrange(0, i)] + split_lines(s.subrange(i + 1, s.len() as int))
    } else {
        seq![s]
    }
}

/// The entries of a listing: the lines of the trimmed text, and none at all
/// where nothing but white space was listed.
pub open spec fn entries(s: Seq<char>) -> Seq<Seq<char>> {
    if trim(s).len() == 0 {
        Seq::empty()
    } else {
        split_lines(trim(s))
    }
}

/// Splitting gives at least one piece.
pub proof fn lemma_split_lines_nonempty(s: Seq<char>)
    ensures
        split_lines(s).len() >= 1,
{
}

/// Leading white space ends at `a`.
pub proof fn lemma_trim_start(s: Seq<char>, a: int)
    requires
        0 <= a <= s.len(),
        forall|j: int| 0 <= j < a ==> is_space(s[j]),
        a < s.len() ==> !is_space(s[a]),
    ensures
        trim_start(s) == s.subrange(a, s.len() as int),
    decreases a,
{
    if a == 0 {
        assert(s.subrange(0, s.len() as int) =~= s);
    } else {
        let t = s.drop_first();
        assert forall|j: int| 0 <= j < a - 1 implies is_space(t[j]) by {
            assert(t[j] == s[j + 1]);
        }
        lemma_trim_start(t, a - 1);
        assert(t.subrange(a - 1, t.len() as int) =~= s.subrange(a, s.len() as int));
    }
}

/// Trailing white space begins at `b`.
pub proof fn lemma_trim_end(s: Seq<char>, b: int)
    requires
        0 <= b <= s.len(),
        forall|j: int| b <= j < s.len() ==> is_space(s[j]),
        b > 0 ==> !is_space(s[b - 1]),
    ensures
        trim_end(s) == s.subrange(0, b),
    decreases s.len() - b,
{
    if b == s.len() {
        assert(s.subrange(0, b) =~= s);
    } else {
        let t = s.drop_last();
        lemma_trim_end(t, b);
        assert(t.subrange(0, b) =~= s.subrange(0, b));
    }
}

/// Exec counterpart of `is_space`.
pub fn is_whitespace(c: char) -> (b: bool)
    ensures
        b == is_space(c),
{
    let n: u32 = c as u32;
    (0x09 <= n && n <= 0x0d) || n == 0x20 || n == 0x85 || n == 0xa0 || n == 0x1680 || (0x2000 <= n
        && n <= 0x200a) || n == 0x2028 || n == 0x2029 || n == 0x202f || n == 0x205f || n == 0x3000
}

/// The characters of `s`, in order.
fn chars_of(s: &str) -> (v: Vec<char>)
    ensures
        v@ == s@,
{
    broadcast use vstd::string::group_string_axioms;

    let mut it = s.chars();
    let mut v: Vec<char> = Vec::new();
    loop
        invariant
            v@ + it.remaining() == s@,
            it.decrease() is Some,
        ensures
            v@ == s@,
        decreases it.decrease()->0,
    {
        match it.next() {
            Some(c) => {
                v.push(c);
            },
            None => {
                break ;
            },
        }
    }
    v
}

/// Where the trimmed text begins and ends within `chars`.
fn trim_bounds(chars: &Vec<char>) -> (r: (usize, usize))
    ensures
        r.0 <= r.1 <= chars.len(),
        chars@.subrange(r.0 as int, r.1 as int) == trim(chars@),
{
    let n: usize = chars.len();
    let mut a: usize = 0;
    while a < n && is_whitespace(chars[a])
        invariant
            a <= n == chars.len(),
            forall|j: int| 0 <= j < a ==> is_space(chars@[j]),
        decreases n - a,
    {
        a += 1;
    }
    let mut b: usize = n;
    while b > a && is_whitespace(chars[b - 1])
        invariant
            a <= b <= n == chars.len(),
            forall|j: int| b <= j < n ==> is_space(chars@[j]),
        decreases b,
    {
        b -= 1;
    }
    proof {
        let t = chars@.subrange(a as int, n as int);
        lemma_trim_start(chars@, a as int);
        lemma_trim_end(t, b - a);
        assert(t.subrange(0, b - a) =~= chars@.subrange(a as int, b as int));
    }
    (a, b)
}

/// The characters of `chars` from `a` up to `b`, as a string.
fn string_of(chars: &Vec<char>, a: usize, b: usize) -> (s: String)
    requires
        a <= b <= chars.len(),
    ensures
        s@ == chars@.subrange(a as int, b as int),
{
    let mut s = String::new();
    let mut i: usize = a;
    while i < b
        invariant
            a <= i <= b <= chars.len(),
            s@ == chars@.subrange(a as int, i as int),
        decreases b - i,
    {
        s.push(chars[i]);
        i += 1;
        assert(s@ =~= chars@.subrange(a as int, i as int));
    }
    s
}

/// The lines of `chars` from `a` up to `b`.
fn lines_of(chars: &Vec<char>, a: usize, b: usize) -> (out: Vec<String>)
    requires
        a <= b <= chars.len(),
    ensures
        views(out@) == split_lines(chars@.subrange(a as int, b as int)),
{
    let mut out: Vec<String> = Vec::new();
    let mut start: usize = a;
    let mut i: usize = a;
    while i < b
        invariant
            a <= start <= i <= b <= chars.len(),
            forall|j: int| start <= j < i ==> chars@[j] != '\n',
            views(out@) + split_lines(chars@.subrange(start as int, b as int)) == split_lines(
                chars@.subrange(a as int, b as int),
            ),
        decreases b - i,
    {
        if chars[i] == '\n' {
            let line = string_of(chars, start, i);
            proof {
                let rest = chars@.subrange(start as int, b as int);
                lemma_first_index_is(rest, '\n', i - start);
                assert(rest.subrange(0, i - start) =~= line@);
                assert(rest.subrange(i - start + 1, rest.len() as int) =~= chars@.subrange(
                    i + 1,
                    b as int,
                ));
                assert(views(out@.push(line)) + split_lines(chars@.subrange(i + 1, b as int))
                    =~= views(out@) + split_lines(rest));
            }
            out.push(line);
            start = i + 1;
        }
        i += 1;
    }
    let line = string_of(chars, start, b);
    proof {
        let rest = chars@.subrange(start as int, b as int);
        lemma_first_index_is(rest, '\n', b - start);
        assert(views(out@.push(line)) =~= views(out@) + split_lines(rest));
    }
    out.push(line);
    out
}

/// `s` without the white space that surrounds it.
pub fn trimmed(s: &str) -> (t: String)
    ensures
        t@ == trim(s@),
{
    let chars = chars_of(s);
    let (a, b) = trim_bounds(&chars);
    string_of(&chars, a, b)
}

/// The entries that a listing holds, one to a line, once the white space
/// that surrounds the listing is taken off. A listing of white space alone
/// holds no entry.
pub fn trimmed_lines(s: &str) -> (out: Vec<String>)
    ensures
        views(out@) == entries(s@),
{
    let chars = chars_of(s);
    let (a, b) = trim_bounds(&chars);
    if a == b {
        let out: Vec<String> = Vec::new();
        assert(views(out@) =~= Seq::empty());
        out
    } else {
        lines_of(&chars, a, b)
    }
}

} // verus!
