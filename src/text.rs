//! Characters, substrings and lines, with the spec functions that describe them.

use vstd::prelude::*;
use vstd::std_specs::iter::IteratorSpec;
use vstd::string::StrSliceExecFns;

verus! {

/// True when `needle` occurs in `haystack` as a contiguous run of characters.
pub open spec fn has_substring(haystack: Seq<char>, needle: Seq<char>) -> bool {
    exists|i: int|
        0 <= i && i + needle.len() <= haystack.len() && #[trigger] haystack.subrange(
            i,
            i + needle.len(),
        ) == needle
}

/// True when `needle` occurs in `haystack` starting at position `i`.
pub open spec fn occurs_at(haystack: Seq<char>, needle: Seq<char>, i: int) -> bool {
    0 <= i && i + needle.len() <= haystack.len() && forall|k: int|
        0 <= k < needle.len() ==> #[trigger] haystack[i + k] == needle[k]
}

/// Whether `needle` occurs in `haystack`, by a scan over every start position.
pub(crate) fn find_chars(haystack: &Vec<char>, needle: &Vec<char>) -> (r: bool)
    ensures
        r == has_substring(haystack@, needle@),
{
    let h = haystack.len();
    let n = needle.len();
    if n > h {
        return false;
    }
    let mut i: usize = 0;
    while i <= h - n
        invariant
            n <= h,
            h == haystack@.len(),
            n == needle@.len(),
            forall|j: int| 0 <= j < i ==> !occurs_at(haystack@, needle@, j),
        decreases h - n + 1 - i,
    {
        let mut k: usize = 0;
        while k < n && haystack[i + k] == needle[k]
            invariant
                n <= h,
                i <= h - n,
                h == haystack@.len(),
                n == needle@.len(),
                k <= n,
                forall|m: int| 0 <= m < k ==> haystack@[i + m] == needle@[m],
            decreases n - k,
        {
            k = k + 1;
        }
        if k == n {
            assert(haystack@.subrange(i as int, i + n) =~= needle@);
            return true;
        }
        assert(!occurs_at(haystack@, needle@, i as int));
        i = i + 1;
    }
    assert forall|j: int| 0 <= j && j + needle@.len() <= haystack@.len() implies
        #[trigger] haystack@.subrange(j, j + needle@.len()) != needle@ by {
        assert(!occurs_at(haystack@, needle@, j));
        let k = choose|k: int| 0 <= k < needle@.len() && haystack@[j + k] != needle@[k];
        assert(haystack@.subrange(j, j + needle@.len())[k] != needle@[k]);
    }
    false
}

/// The characters of `s`, in order.
pub(crate) fn chars_of(s: &str) -> (r: Vec<char>)
    ensures
        r@ == s@,
{
    broadcast use vstd::string::group_string_axioms;

    let mut it = s.chars();
    let mut r: Vec<char> = Vec::new();
    loop
        invariant
            r@ + it.remaining() == s@,
            it.obeys_prophetic_iter_laws(),
            it.decrease() is Some,
        ensures
            r@ == s@,
        decreases it.decrease()->0,
    {
        match it.next() {
            Some(c) => {
                r.push(c);
            },
            None => {
                assert(r@ + it.remaining() =~= r@);
                break;
            },
        }
    }
    r
}

/// Whether `needle` occurs in `haystack` as a contiguous run of characters.
/// Every string holds the empty string.
pub fn contains(haystack: &str, needle: &str) -> (r: bool)
    ensures
        r == has_substring(haystack@, needle@),
{
    let h = chars_of(haystack);
    let n = chars_of(needle);
    find_chars(&h, &n)
}

/// Position of the first line feed in `s`, or the length of `s` when it holds none.
pub open spec fn newline_index(s: Seq<char>) -> nat
    decreases s.len(),
{
    if s.len() == 0 || s[0] == '\n' {
        0
    } else {
        1 + newline_index(s.drop_first())
    }
}

/// A line without the carriage return that stood right before its line feed, if any.
pub open spec fn without_cr(line: Seq<char>) -> Seq<char> {
    if line.len() > 0 && line.last() == '\r' {
        line.drop_last()
    } else {
        line
    }
}

/// The lines of `s`: the runs between line feeds, each without a carriage return that
/// ends it before its line feed. A line feed at the very end starts no further line,
/// and a final line without a line feed is kept as it stands.
pub open spec fn lines_of(s: Seq<char>) -> Seq<Seq<char>>
    decreases s.len(),
{
    if s.len() == 0 {
        Seq::empty()
    } else {
        let k = newline_index(s);
        if k < s.len() {
            seq![without_cr(s.subrange(0, k as int))] + lines_of(s.subrange(k + 1 as int, s.len() as int))
        } else {
            seq![s]
        }
    }
}

proof fn lemma_newline_index_of_split(s: Seq<char>, head: Seq<char>, tail: Seq<char>)
    requires
        s == head + seq!['\n'] + tail,
        !head.contains('\n'),
    ensures
        newline_index(s) == head.len(),
    decreases head.len(),
{
    if head.len() > 0 {
        assert(head[0] != '\n');
        assert(s.drop_first() =~= head.drop_first() + seq!['\n'] + tail);
        assert forall|i: int| 0 <= i < head.drop_first().len() implies head.drop_first()[i] != '\n' by {
            assert(head.drop_first()[i] == head[i + 1]);
        }
        lemma_newline_index_of_split(s.drop_first(), head.drop_first(), tail);
    } else {
        assert(s[0] == '\n');
    }
}

proof fn lemma_newline_index_absent(s: Seq<char>)
    requires
        !s.contains('\n'),
    ensures
        newline_index(s) == s.len(),
    decreases s.len(),
{
    if s.len() > 0 {
        assert(s[0] != '\n');
        assert forall|i: int| 0 <= i < s.drop_first().len() implies s.drop_first()[i] != '\n' by {
            assert(s.drop_first()[i] == s[i + 1]);
        }
        lemma_newline_index_absent(s.drop_first());
    }
}

/// Relies on `str::split_once` with a `char` pattern: the text before the first
/// occurrence of the pattern and the text after it, or `None` where it does not occur.
#[verifier::external_body]
fn split_at_line_feed<'a>(s: &'a str) -> (r: Option<(&'a str, &'a str)>)
    ensures
        match r {
            Some((head, tail)) => s@ == head@ + seq!['\n'] + tail@ && !head@.contains('\n'),
            None => !s@.contains('\n'),
        },
{
    s.split_once('\n')
}

/// `line` without the carriage return at its end, if it has one.
fn strip_cr<'a>(line: &'a str) -> (r: &'a str)
    ensures
        r@ == without_cr(line@),
{
    let n = line.unicode_len();
    if n > 0 && line.get_char(n - 1) == '\r' {
        line.substring_char(0, n - 1)
    } else {
        line
    }
}

/// The first line of a non-empty `s`, and the text after it: `None` where the line
/// is the last one.
pub(crate) fn next_line<'a>(s: &'a str) -> (r: (&'a str, Option<&'a str>))
    requires
        s@.len() > 0,
    ensures
        match r.1 {
            Some(rest) => lines_of(s@) == seq![r.0@] + lines_of(rest@) && rest@.len() < s@.len(),
            None => lines_of(s@) == seq![r.0@],
        },
{
    match split_at_line_feed(s) {
        Some((head, tail)) => {
            proof {
                lemma_newline_index_of_split(s@, head@, tail@);
                assert(s@.subrange(0, head@.len() as int) =~= head@);
                assert(s@.subrange(head@.len() + 1 as int, s@.len() as int) =~= tail@);
            }
            (strip_cr(head), Some(tail))
        },
        None => {
            proof {
                lemma_newline_index_absent(s@);
            }
            (s, None)
        },
    }
}

/// The lowercase form of a string, as `str::to_lowercase` gives it.
pub uninterp spec fn lower_of(s: Seq<char>) -> Seq<char>;

/// Relies on `str::to_lowercase`: the lowercase form depends on the characters alone.
#[verifier::external_body]
pub(crate) fn to_lower(s: &str) -> (r: String)
    ensures
        r@ == lower_of(s@),
{
    s.to_lowercase()
}

} // verus!
