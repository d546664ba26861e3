//! Facts about line search that relate several calls or hold of every input.

use vstd::prelude::*;

use crate::search::matching_lines;
use crate::text::{has_substring, lines_of, lower_of};

verus! {

/// True when `sub` is `s` with some of its items left out and the others kept in
/// order: `pos` gives, for each item of `sub`, its place in `s`.
pub open spec fn embeds_at<A>(sub: Seq<A>, s: Seq<A>, pos: Seq<int>) -> bool {
    &&& pos.len() == sub.len()
    &&& forall|i: int| 0 <= i < pos.len() ==> 0 <= #[trigger] pos[i] < s.len() && sub[i] == s[pos[i]]
    &&& forall|i: int, j: int| 0 <= i < j < pos.len() ==> #[trigger] pos[i] < #[trigger] pos[j]
}

/// True when the items of `sub` stand in `s` in the same order.
pub open spec fn is_subsequence<A>(sub: Seq<A>, s: Seq<A>) -> bool {
    exists|pos: Seq<int>| embeds_at(sub, s, pos)
}

proof fn lemma_filter_embeds<A>(s: Seq<A>, p: spec_fn(A) -> bool, q: spec_fn(A) -> bool)
    requires
        forall|i: int| 0 <= i < s.len() && #[trigger] p(s[i]) ==> q(s[i]),
    ensures
        is_subsequence(s.filter(p), s.filter(q)),
    decreases s.len(),
{
    reveal(Seq::filter);
    if s.len() == 0 {
        assert(embeds_at(s.filter(p), s.filter(q), Seq::<int>::empty()));
    } else {
        let d = s.drop_last();
        assert forall|i: int| 0 <= i < d.len() && #[trigger] p(d[i]) implies q(d[i]) by {
            assert(d[i] == s[i]);
        }
        lemma_filter_embeds(d, p, q);
        let pos = choose|pos: Seq<int>| embeds_at(d.filter(p), d.filter(q), pos);
        assert(s.last() == s[s.len() - 1]);
        if p(s.last()) {
            let pos2 = pos.push(d.filter(q).len() as int);
            assert(embeds_at(s.filter(p), s.filter(q), pos2));
        } else if q(s.last()) {
            assert(embeds_at(s.filter(p), s.filter(q), pos));
        } else {
            assert(embeds_at(s.filter(p), s.filter(q), pos));
        }
    }
}

proof fn lemma_filter_all<A>(s: Seq<A>, p: spec_fn(A) -> bool)
    requires
        forall|i: int| 0 <= i < s.len() ==> #[trigger] p(s[i]),
    ensures
        s.filter(p) == s,
    decreases s.len(),
{
    reveal(Seq::filter);
    if s.len() > 0 {
        let d = s.drop_last();
        assert forall|i: int| 0 <= i < d.len() implies #[trigger] p(d[i]) by {
            assert(d[i] == s[i]);
        }
        lemma_filter_all(d, p);
        assert(p(s[s.len() - 1]));
        assert(d.push(s.last()) =~= s);
    }
}

proof fn lemma_empty_substring(s: Seq<char>)
    ensures
        has_substring(s, Seq::<char>::empty()),
{
    let e = Seq::<char>::empty();
    assert(s.subrange(0, 0 + e.len() as int) =~= e);
}

/// Each line that search returns is a line of the contents, and the returned lines
/// keep the order in which they stand in the contents.
pub proof fn search_keeps_lines_in_order(query: Seq<char>, contents: Seq<char>)
    ensures
        is_subsequence(matching_lines(query, contents, false), lines_of(contents)),
        forall|i: int|
            0 <= i < matching_lines(query, contents, false).len() ==> lines_of(contents).contains(
                #[trigger] matching_lines(query, contents, false)[i],
            ),
{
    let lines = lines_of(contents);
    let p = |line: Seq<char>| crate::search::line_matches(line, query, false);
    let all = |line: Seq<char>| true;
    lemma_filter_embeds(lines, p, all);
    lemma_filter_all(lines, all);
    let r = matching_lines(query, contents, false);
    let pos = choose|pos: Seq<int>| embeds_at(r, lines, pos);
    assert forall|i: int| 0 <= i < r.len() implies lines.contains(#[trigger] r[i]) by {
        assert(lines[pos[i]] == r[i]);
    }
}

/// Searching for the empty query returns every line of the contents, in order.
pub proof fn search_empty_query_keeps_all(contents: Seq<char>)
    ensures
        matching_lines(Seq::<char>::empty(), contents, false) == lines_of(contents),
{
    let lines = lines_of(contents);
    let p = |line: Seq<char>| crate::search::line_matches(line, Seq::<char>::empty(), false);
    assert forall|i: int| 0 <= i < lines.len() implies #[trigger] p(lines[i]) by {
        lemma_empty_substring(lines[i]);
    }
    lemma_filter_all(lines, p);
}

/// Case-insensitive search keeps, in order, every line that case-sensitive search
/// keeps, provided that lowercasing keeps the query inside each line that holds it.
/// That proviso can fail: a capital sigma lowercases to a final sigma at the end of
/// a word and to a plain one elsewhere.
pub proof fn search_within_case_insensitive(query: Seq<char>, contents: Seq<char>)
    requires
        forall|i: int|
            0 <= i < lines_of(contents).len() && has_substring(
                #[trigger] lines_of(contents)[i],
                query,
            ) ==> has_substring(lower_of(lines_of(contents)[i]), lower_of(query)),
    ensures
        is_subsequence(matching_lines(query, contents, false), matching_lines(query, contents, true)),
{
    let lines = lines_of(contents);
    let p = |line: Seq<char>| crate::search::line_matches(line, query, false);
    let q = |line: Seq<char>| crate::search::line_matches(line, query, true);
    lemma_filter_embeds(lines, p, q);
}

/// Search depends on its arguments alone: two results for the same query and
/// contents are equal.
pub proof fn search_is_deterministic(
    query: Seq<char>,
    contents: Seq<char>,
    first: Seq<Seq<char>>,
    second: Seq<Seq<char>>,
)
    requires
        first == matching_lines(query, contents, false),
        second == matching_lines(query, contents, false),
    ensures
        first == second,
{
}

} // verus!
