//! What it means for a line to hold a query.
//!
//! Containment is stated over sequences of characters. The two tests that
//! the search runs on each line, containment itself and the lower-case form
//! that it is tried on when case is ignored, are computed by the standard
//! library, behind the two trusted functions at the end of this file.

use vstd::prelude::*;

verus! {

/// `needle` stands in `hay` at position `at`, character for character.
pub open spec fn occurs_at(needle: Seq<char>, hay: Seq<char>, at: int) -> bool {
    &&& 0 <= at
    &&& at + needle.len() <= hay.len()
    &&& hay.subrange(at, at + needle.len()) == needle
}

/// `needle` stands somewhere in `hay` as a run of neighbouring characters.
pub open spec fn occurs_in(needle: Seq<char>, hay: Seq<char>) -> bool {
    exists|at: int| occurs_at(needle, hay, at)
}

/// The lower-case form of `text`: what `str::to_lowercase` returns for a
/// string with these characters. It follows the Unicode lower-case mapping
/// and depends on no locale.
pub uninterp spec fn lowercase(text: Seq<char>) -> Seq<char>;

/// A line matches a query where the query occurs in it as it is written.
pub open spec fn matches_exactly(query: Seq<char>, line: Seq<char>) -> bool {
    occurs_in(query, line)
}

/// A line matches a query without regard to case where the lower-case form
/// of the query occurs in the lower-case form of the line. Each of the two
/// is folded by itself.
pub open spec fn matches_ignoring_case(query: Seq<char>, line: Seq<char>) -> bool {
    matches_exactly(lowercase(query), lowercase(line))
}

/// The empty sequence occurs in every sequence.
pub proof fn lemma_empty_occurs_everywhere(needle: Seq<char>, hay: Seq<char>)
    requires
        needle.len() == 0,
    ensures
        occurs_in(needle, hay),
{
    assert(hay.subrange(0, 0) =~= needle);
    assert(occurs_at(needle, hay, 0));
}

/// Calls `str::contains` with a string slice as the pattern. The call
/// returns `true` exactly where `needle` occurs in `hay`.
#[verifier::external_body]
pub(crate) fn contains(hay: &str, needle: &str) -> (found: bool)
    ensures
        found == occurs_in(needle@, hay@),
{
    hay.contains(needle)
}

/// Calls `str::to_lowercase`. Its result is named [`lowercase`]; beyond
/// that, only that the empty string stays empty is claimed of it.
#[verifier::external_body]
pub(crate) fn to_lowercase(text: &str) -> (lower: String)
    ensures
        lower@ == lowercase(text@),
        text@.len() == 0 ==> lower@.len() == 0,
{
    text.to_lowercase()
}

} // verus!
