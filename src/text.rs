//! Character-level helpers shared by the recipe parser, the template resolver
//! and the duration parser.

use vstd::prelude::*;
use vstd::std_specs::iter::IteratorSpec;

verus! {

/// Relies on `String::push`: the character is appended at the end.
pub assume_specification[ String::push ](s: &mut String, ch: char)
    ensures
        final(s)@ == old(s)@.push(ch),
;

/// `c` has the Unicode `White_Space` property, as `char::is_whitespace` tests.
pub open spec fn white_space(c: char) -> bool {
    ('\u{9}' <= c <= '\u{d}') || c == ' ' || c == '\u{85}' || c == '\u{a0}' || c == '\u{1680}'
        || ('\u{2000}' <= c <= '\u{200a}') || c == '\u{2028}' || c == '\u{2029}' || c
        == '\u{202f}' || c == '\u{205f}' || c == '\u{3000}'
}

/// Tests `c` for white space; see [`white_space`].
pub fn is_white_space(c: char) -> (r: bool)
    ensures
        r == white_space(c),
{
    ('\u{9}' <= c && c <= '\u{d}') || c == ' ' || c == '\u{85}' || c == '\u{a0}' || c
        == '\u{1680}' || ('\u{2000}' <= c && c <= '\u{200a}') || c == '\u{2028}' || c
        == '\u{2029}' || c == '\u{202f}' || c == '\u{205f}' || c == '\u{3000}'
}

/// The characters of a string, in order.
pub fn chars_of(s: &str) -> (r: Vec<char>)
    ensures
        r@ == s@,
{
    let mut out: Vec<char> = Vec::new();
    let mut it = s.chars();
    loop
        invariant
            it.remaining() == s@.skip(out@.len() as int),
            out@ == s@.take(out@.len() as int),
            out@.len() <= s@.len(),
        ensures
            out@ == s@,
        decreases s@.len() - out@.len(),
    {
        match it.next() {
            Some(c) => {
                out.push(c);
            },
            None => {
                assert(s@.skip(out@.len() as int).len() == 0);
                assert(s@.take(s@.len() as int) == s@);
                break;
            },
        }
    }
    out
}

/// The string made of the given characters.
pub fn string_of(cs: &[char]) -> (r: String)
    ensures
        r@ == cs@,
{
    let mut out = String::new();
    let mut i: usize = 0;
    while i < cs.len()
        invariant
            i <= cs@.len(),
            out@ == cs@.take(i as int),
        decreases cs@.len() - i,
    {
        out.push(cs[i]);
        i = i + 1;
        assert(cs@.take(i as int) == cs@.take(i - 1 as int).push(cs@[i - 1]));
    }
    assert(cs@.take(i as int) == cs@);
    out
}

/// The sequence without its leading white space.
pub open spec fn trim_front(s: Seq<char>) -> Seq<char>
    decreases s.len(),
{
    if s.len() > 0 && white_space(s[0]) {
        trim_front(s.drop_first())
    } else {
        s
    }
}

/// The sequence without its trailing white space.
pub open spec fn trim_back(s: Seq<char>) -> Seq<char>
    decreases s.len(),
{
    if s.len() > 0 && white_space(s.last()) {
        trim_back(s.drop_last())
    } else {
        s
    }
}

/// The sequence without leading and trailing white space.
pub open spec fn trimmed(s: Seq<char>) -> Seq<char> {
    trim_back(trim_front(s))
}

proof fn lemma_trim_front_skip(s: Seq<char>, i: int)
    requires
        0 <= i < s.len(),
        white_space(s[i]),
    ensures
        trim_front(s.subrange(i, s.len() as int)) == trim_front(s.subrange(i + 1, s.len() as int)),
{
    let t = s.subrange(i, s.len() as int);
    assert(t.drop_first() == s.subrange(i + 1, s.len() as int));
}

proof fn lemma_trim_back_skip(s: Seq<char>, lo: int, hi: int)
    requires
        0 <= lo < hi <= s.len(),
        white_space(s[hi - 1]),
    ensures
        trim_back(s.subrange(lo, hi)) == trim_back(s.subrange(lo, hi - 1)),
{
    let t = s.subrange(lo, hi);
    assert(t.drop_last() == s.subrange(lo, hi - 1));
}

/// The characters of `cs` between `lo` and `hi`.
pub fn copy_range(cs: &[char], lo: usize, hi: usize) -> (r: Vec<char>)
    requires
        lo <= hi <= cs@.len(),
    ensures
        r@ == cs@.subrange(lo as int, hi as int),
{
    let mut out: Vec<char> = Vec::new();
    let mut i: usize = lo;
    while i < hi
        invariant
            lo <= i <= hi <= cs@.len(),
            out@ == cs@.subrange(lo as int, i as int),
        decreases hi - i,
    {
        out.push(cs[i]);
        i = i + 1;
        assert(out@ == cs@.subrange(lo as int, i as int));
    }
    out
}

/// `cs` without leading and trailing white space.
pub fn trim(cs: &[char]) -> (r: Vec<char>)
    ensures
        r@ == trimmed(cs@),
{
    let n = cs.len();
    let mut lo: usize = 0;
    assert(cs@.subrange(0, n as int) == cs@);
    while lo < n && is_white_space(cs[lo])
        invariant
            lo <= n == cs@.len(),
            trim_front(cs@.subrange(lo as int, n as int)) == trim_front(cs@),
        decreases n - lo,
    {
        proof {
            lemma_trim_front_skip(cs@, lo as int);
        }
        lo = lo + 1;
    }
    let mut hi: usize = n;
    assert(trim_front(cs@) == cs@.subrange(lo as int, n as int));
    while hi > lo && is_white_space(cs[hi - 1])
        invariant
            lo <= hi <= n == cs@.len(),
            trim_back(cs@.subrange(lo as int, hi as int)) == trimmed(cs@),
        decreases hi - lo,
    {
        proof {
            lemma_trim_back_skip(cs@, lo as int, hi as int);
        }
        hi = hi - 1;
    }
    copy_range(cs, lo, hi)
}

/// `s` holds two copies of `c` at `i` and `i + 1`.
pub open spec fn pair_at(s: Seq<char>, c: char, i: int) -> bool {
    0 <= i && i + 1 < s.len() && s[i] == c && s[i + 1] == c
}

/// The first position at or after `from` where `s` holds two copies of `c`.
pub open spec fn find_pair(s: Seq<char>, c: char, from: nat) -> Option<nat>
    decreases s.len() - from,
{
    if from + 1 >= s.len() {
        None
    } else if pair_at(s, c, from as int) {
        Some(from)
    } else {
        find_pair(s, c, from + 1)
    }
}

pub proof fn lemma_find_pair_bounds(s: Seq<char>, c: char, from: nat)
    ensures
        find_pair(s, c, from) matches Some(i) ==> from <= i && i + 1 < s.len() && pair_at(
            s,
            c,
            i as int,
        ),
    decreases s.len() - from,
{
    if from + 1 < s.len() && !pair_at(s, c, from as int) {
        lemma_find_pair_bounds(s, c, from + 1);
    }
}

/// Searches `cs` from `from` on for two copies of `c` in a row.
pub fn find_pair_exec(cs: &[char], c: char, from: usize) -> (r: Option<usize>)
    ensures
        r == (match find_pair(cs@, c, from as nat) {
            Some(i) => Some(i as usize),
            None => None::<usize>,
        }),
        r matches Some(i) ==> from <= i && i + 1 < cs@.len(),
{
    proof {
        lemma_find_pair_bounds(cs@, c, from as nat);
    }
    let mut i: usize = from;
    while i < cs.len() && i + 1 < cs.len()
        invariant
            from <= i,
            find_pair(cs@, c, from as nat) == find_pair(cs@, c, i as nat),
        decreases cs@.len() - i,
    {
        if cs[i] == c && cs[i + 1] == c {
            return Some(i);
        }
        i = i + 1;
    }
    None
}

} // verus!
