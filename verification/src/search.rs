//! The search: the lines of a text that hold a query, in their order.

use crate::config::{Config, ConfigView};
use crate::lines::{lines_of, next_line, pending, split_lines};
use crate::pattern::{
    contains, lemma_empty_occurs_everywhere, lowercase, matches_exactly, matches_ignoring_case,
    occurs_in, to_lowercase,
};
use crate::selection::{
    kept_positions, lemma_filter_keeps_all, lemma_filter_selects_the_accepted,
    lemma_filter_then_map, picks,
};
use vstd::prelude::*;

verus! {

/// The lines of `contents` in which `query` occurs as written, in the order
/// in which they stand in `contents`.
pub open spec fn exact_matches(query: Seq<char>, contents: Seq<char>) -> Seq<Seq<char>> {
    split_lines(contents).filter(|line: Seq<char>| matches_exactly(query, line))
}

/// The lines of `contents` in which `query` occurs when case is ignored, in
/// the order in which they stand in `contents`.
pub open spec fn caseless_matches(query: Seq<char>, contents: Seq<char>) -> Seq<Seq<char>> {
    split_lines(contents).filter(|line: Seq<char>| matches_ignoring_case(query, line))
}

/// Puts `line` behind the lines in `kept` where `query` occurs in
/// `compared`, and leaves `kept` as it is where it does not. `compared` is
/// the form of the line that the comparison is made on: the line itself,
/// or what it was folded to.
pub fn keep_matching_line<'a>(kept: &mut Vec<&'a str>, line: &'a str, compared: &str, query: &str)
    ensures
        final(kept)@ == if occurs_in(query@, compared@) {
            old(kept)@.push(line)
        } else {
            old(kept)@
        },
{
    if contains(compared, query) {
        kept.push(line);
    }
}

/// Returns every line of `contents` that contains `query`, upper and lower
/// case told apart. The lines come in the order of the text, each one whole.
pub fn search_case_sensitive<'a>(query: &str, contents: &'a str) -> (result: Vec<&'a str>)
    ensures
        result.deep_view() == exact_matches(query@, contents@),
        query@.len() == 0 ==> result.deep_view() == split_lines(contents@),
{
    let ghost keep = |line: Seq<char>| matches_exactly(query@, line);
    let ghost mut seen: Seq<Seq<char>> = Seq::empty();
    let mut result: Vec<&'a str> = Vec::new();
    let mut iter = lines_of(contents);
    proof {
        reveal(Seq::filter);
    }
    loop
        invariant
            keep == |line: Seq<char>| matches_exactly(query@, line),
            seen + pending(iter) == split_lines(contents@),
            result.deep_view() == seen.filter(keep),
        ensures
            result.deep_view() == split_lines(contents@).filter(keep),
        decreases pending(iter).len(),
    {
        match next_line(&mut iter) {
            Some(line) => {
                keep_matching_line(&mut result, line, line, query);
                proof {
                    seen.lemma_filter_push(line@, keep);
                    seen = seen.push(line@);
                }
            },
            None => {
                break ;
            },
        }
    }
    proof {
        if query@.len() == 0 {
            empty_query_matches_every_line(query@, contents@);
        }
    }
    result
}

/// Returns every line of `contents` that contains `query` when case is
/// ignored: the query is folded to lower case once, each line by itself, and
/// the folded line is searched for the folded query. The lines come in the
/// order of the text, each one whole and as it is written there.
pub fn search_case_insensitive<'a>(query: &str, contents: &'a str) -> (result: Vec<&'a str>)
    ensures
        result.deep_view() == caseless_matches(query@, contents@),
        query@.len() == 0 ==> result.deep_view() == split_lines(contents@),
{
    let ghost keep = |line: Seq<char>| matches_ignoring_case(query@, line);
    let ghost mut seen: Seq<Seq<char>> = Seq::empty();
    let mut result: Vec<&'a str> = Vec::new();
    let folded_query = to_lowercase(query);
    let mut iter = lines_of(contents);
    proof {
        reveal(Seq::filter);
    }
    loop
        invariant
            folded_query@ == lowercase(query@),
            query@.len() == 0 ==> folded_query@.len() == 0,
            keep == |line: Seq<char>| matches_ignoring_case(query@, line),
            seen + pending(iter) == split_lines(contents@),
            result.deep_view() == seen.filter(keep),
            query@.len() == 0 ==> result.deep_view() == seen,
        ensures
            result.deep_view() == split_lines(contents@).filter(keep),
            query@.len() == 0 ==> result.deep_view() == split_lines(contents@),
        decreases pending(iter).len(),
    {
        match next_line(&mut iter) {
            Some(line) => {
                let folded_line = to_lowercase(line);
                keep_matching_line(&mut result, line, folded_line.as_str(), folded_query.as_str());
                proof {
                    if query@.len() == 0 {
                        lemma_empty_occurs_everywhere(folded_query@, folded_line@);
                    }
                    seen.lemma_filter_push(line@, keep);
                    seen = seen.push(line@);
                }
            },
            None => {
                break ;
            },
        }
    }
    result
}

/// The lines that a run with `config` selects from `contents`: the policy
/// of comparison follows `ignore_case`, the query is the configured one.
pub open spec fn selected_lines(config: ConfigView, contents: Seq<char>) -> Seq<Seq<char>> {
    if config.ignore_case {
        caseless_matches(config.query, contents)
    } else {
        exact_matches(config.query, contents)
    }
}

/// Carries out the search that `config` asks for on `contents`, the text of
/// the configured file, and returns the lines to put out, one per line of
/// output, in this order and as they are.
pub fn run<'a>(config: Config, contents: &'a str) -> (output: Vec<&'a str>)
    ensures
        output.deep_view() == selected_lines(config@, contents@),
{
    if config.ignore_case {
        search_case_insensitive(config.query.as_str(), contents)
    } else {
        search_case_sensitive(config.query.as_str(), contents)
    }
}

/// The case-respecting search returns exactly the lines of the text that
/// hold the query, in the order of the text: there are strictly rising
/// positions among the lines, those and only those whose line holds the
/// query, and the result is the lines at these positions, one for one. So a
/// query that stands in some line is always found.
pub proof fn exact_matches_are_the_lines_that_hold_the_query(
    query: Seq<char>,
    contents: Seq<char>,
)
    ensures
        ({
            let lines = split_lines(contents);
            let found = exact_matches(query, contents);
            let at = kept_positions(lines, |line: Seq<char>| matches_exactly(query, line));
            &&& picks(at, lines, found)
            &&& forall|i: int|
                at.contains(i) <==> 0 <= i < lines.len() && matches_exactly(query, lines[i])
            &&& forall|k: int|
                0 <= k < found.len() ==> lines.contains(#[trigger] found[k]) && matches_exactly(
                    query,
                    found[k],
                )
            &&& forall|i: int|
                0 <= i < lines.len() && matches_exactly(query, #[trigger] lines[i])
                    ==> found.contains(lines[i])
        }),
{
    let lines = split_lines(contents);
    let keep = |line: Seq<char>| matches_exactly(query, line);
    lemma_filter_selects_the_accepted(lines, keep);
}

/// The search that ignores case returns exactly the lines of the text whose
/// lower-case form holds the lower-case form of the query, in the order of
/// the text and as they are written there.
pub proof fn caseless_matches_are_the_lines_that_hold_the_query(
    query: Seq<char>,
    contents: Seq<char>,
)
    ensures
        ({
            let lines = split_lines(contents);
            let found = caseless_matches(query, contents);
            let at = kept_positions(lines, |line: Seq<char>| matches_ignoring_case(query, line));
            &&& picks(at, lines, found)
            &&& forall|i: int|
                at.contains(i) <==> 0 <= i < lines.len() && matches_ignoring_case(query, lines[i])
            &&& forall|k: int|
                0 <= k < found.len() ==> lines.contains(#[trigger] found[k])
                    && matches_ignoring_case(query, found[k])
            &&& forall|i: int|
                0 <= i < lines.len() && matches_ignoring_case(query, #[trigger] lines[i])
                    ==> found.contains(lines[i])
        }),
{
    let lines = split_lines(contents);
    let keep = |line: Seq<char>| matches_ignoring_case(query, line);
    lemma_filter_selects_the_accepted(lines, keep);
}

/// To search without regard to case is to search with regard to it once
/// query and lines are in lower case, line by line: the lines found are
/// those whose lower-case form the case-respecting test accepts for the
/// lower-case query, and their lower-case forms are what that test selects
/// from the lower-case forms of all lines.
pub proof fn caseless_search_is_exact_search_in_lowercase(query: Seq<char>, contents: Seq<char>)
    ensures
        caseless_matches(query, contents) == split_lines(contents).filter(
            |line: Seq<char>| matches_exactly(lowercase(query), lowercase(line)),
        ),
        caseless_matches(query, contents).map_values(|line: Seq<char>| lowercase(line))
            == split_lines(contents).map_values(|line: Seq<char>| lowercase(line)).filter(
            |line: Seq<char>| matches_exactly(lowercase(query), line),
        ),
{
    let fold = |line: Seq<char>| lowercase(line);
    let keep = |line: Seq<char>| matches_exactly(lowercase(query), line);
    let keep_folded = |line: Seq<char>| keep(fold(line));
    assert(keep_folded =~= (|line: Seq<char>| matches_ignoring_case(query, line)));
    assert(keep_folded =~= (|line: Seq<char>|
        matches_exactly(lowercase(query), lowercase(line))));
    lemma_filter_then_map(split_lines(contents), fold, keep);
}

/// The empty query stands in every line, so the case-respecting search
/// for it returns every line of the text, unchanged.
pub proof fn empty_query_matches_every_line(query: Seq<char>, contents: Seq<char>)
    requires
        query.len() == 0,
    ensures
        exact_matches(query, contents) == split_lines(contents),
{
    let lines = split_lines(contents);
    let keep = |line: Seq<char>| matches_exactly(query, line);
    assert forall|i: int| 0 <= i < lines.len() implies keep(#[trigger] lines[i]) by {
        lemma_empty_occurs_everywhere(query, lines[i]);
    }
    lemma_filter_keeps_all(lines, keep);
}

/// A search has one answer: two results of the search that `config` asks
/// for on the same text hold the same lines in the same order.
pub proof fn repeated_search_returns_the_same_lines(
    first: Vec<&str>,
    second: Vec<&str>,
    config: ConfigView,
    contents: Seq<char>,
)
    requires
        first.deep_view() == selected_lines(config, contents),
        second.deep_view() == selected_lines(config, contents),
    ensures
        first.len() == second.len(),
        forall|k: int| 0 <= k < first.len() ==> first[k]@ == second[k]@,
{
    assert(first.deep_view().len() == first.len());
    assert(second.deep_view().len() == second.len());
    assert forall|k: int| 0 <= k < first.len() implies first[k]@ == second[k]@ by {
        assert(first.deep_view()[k] == first[k]@);
        assert(second.deep_view()[k] == second[k]@);
    }
}

} // verus!
