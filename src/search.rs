//! Selecting the lines of a text that contain a query.

use vstd::prelude::*;

use crate::text::{
    chars_of, find_chars, has_substring, lines_of, lower_of, next_line, to_lower,
};

verus! {

/// What a sequence of string slices reads as.
pub open spec fn views<'a>(v: Seq<&'a str>) -> Seq<Seq<char>> {
    v.map_values(|s: &'a str| s@)
}

/// Whether `line` is kept for `query`: it contains the query, or, with `ignore_case`,
/// its lowercase form contains the query's lowercase form.
pub open spec fn line_matches(line: Seq<char>, query: Seq<char>, ignore_case: bool) -> bool {
    if ignore_case {
        has_substring(lower_of(line), lower_of(query))
    } else {
        has_substring(line, query)
    }
}

/// The lines of `contents` that match `query`, in their order in `contents`.
pub open spec fn matching_lines(query: Seq<char>, contents: Seq<char>, ignore_case: bool) -> Seq<
    Seq<char>,
> {
    lines_of(contents).filter(|line: Seq<char>| line_matches(line, query, ignore_case))
}

proof fn lemma_filter_single(x: Seq<char>, pred: spec_fn(Seq<char>) -> bool)
    ensures
        seq![x].filter(pred) == (if pred(x) {
            seq![x]
        } else {
            Seq::<Seq<char>>::empty()
        }),
{
    reveal_with_fuel(Seq::filter, 2);
    assert(seq![x].drop_last() =~= Seq::<Seq<char>>::empty());
}

/// The lines of `contents` that match `query` under `ignore_case`, as slices of `contents`.
fn select_lines<'a>(query: &str, contents: &'a str, ignore_case: bool) -> (r: Vec<&'a str>)
    ensures
        views(r@) == matching_lines(query@, contents@, ignore_case),
{
    let ghost pred = |line: Seq<char>| line_matches(line, query@, ignore_case);
    let wanted = if ignore_case {
        let lowered = to_lower(query);
        chars_of(lowered.as_str())
    } else {
        chars_of(query)
    };
    let mut r: Vec<&'a str> = Vec::new();
    if contents.is_empty() {
        proof {
            reveal(Seq::filter);
        }
        assert(views(r@) =~= matching_lines(query@, contents@, ignore_case));
        return r;
    }
    let mut rest: &'a str = contents;
    loop
        invariant_except_break
            rest@.len() > 0,
            matching_lines(query@, contents@, ignore_case) == views(r@) + lines_of(rest@).filter(
                pred,
            ),
        invariant
            ignore_case ==> wanted@ == lower_of(query@),
            !ignore_case ==> wanted@ == query@,
            pred == (|line: Seq<char>| line_matches(line, query@, ignore_case)),
        ensures
            views(r@) == matching_lines(query@, contents@, ignore_case),
        decreases rest@.len(),
    {
        let (line, next) = next_line(rest);
        let keep = if ignore_case {
            let lowered = to_lower(line);
            find_chars(&chars_of(lowered.as_str()), &wanted)
        } else {
            find_chars(&chars_of(line), &wanted)
        };
        let ghost before = r@;
        if keep {
            r.push(line);
        }
        proof {
            lemma_filter_single(line@, pred);
            assert(views(r@) =~= views(before) + seq![line@].filter(pred));
        }
        match next {
            Some(tail) => {
                proof {
                    Seq::filter_distributes_over_add(seq![line@], lines_of(tail@), pred);
                }
                if tail.is_empty() {
                    proof {
                        reveal(Seq::filter);
                        assert(views(r@) =~= matching_lines(query@, contents@, ignore_case));
                    }
                    break;
                }
                rest = tail;
            },
            None => {
                break;
            },
        }
    }
    r
}

/// The lines of `contents` that contain `query`, in order, as slices of `contents`.
/// The empty query is in every line.
pub fn search<'a>(query: &str, contents: &'a str) -> (r: Vec<&'a str>)
    ensures
        views(r@) == matching_lines(query@, contents@, false),
{
    select_lines(query, contents, false)
}

/// The lines of `contents` whose lowercase form contains the lowercase form of `query`,
/// in order, as slices of `contents`.
pub fn search_case_insensitive<'a>(query: &str, contents: &'a str) -> (r: Vec<&'a str>)
    ensures
        views(r@) == matching_lines(query@, contents@, true),
{
    select_lines(query, contents, true)
}

} // verus!
