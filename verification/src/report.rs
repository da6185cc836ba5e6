//! The texts with which a failed run is reported.

use vstd::prelude::*;

verus! {

/// What is said when the argument list was refused, before `cause`.
pub open spec fn argument_prefix() -> Seq<char> {
    "Problem parsing arguments: "@
}

/// What is said when the run itself failed, before `cause`.
pub open spec fn application_prefix() -> Seq<char> {
    "Application error: "@
}

/// The report of an argument list that was refused for `cause`.
pub fn argument_problem(cause: &str) -> (report: String)
    ensures
        report@ == argument_prefix() + cause@,
{
    String::from_str("Problem parsing arguments: ").concat(cause)
}

/// The report of a run that failed for `cause`, such as a file that could
/// not be read or did not hold text.
pub fn application_error(cause: &str) -> (report: String)
    ensures
        report@ == application_prefix() + cause@,
{
    String::from_str("Application error: ").concat(cause)
}

} // verus!
