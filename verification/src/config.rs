//! The configuration of one run, resolved from the argument list.

use vstd::prelude::*;

verus! {

/// The name of the environment variable that, when it is set, makes a run
/// ignore case.
pub const IGNORE_CASE: &'static str = "IGNORE_CASE";

/// What one run searches for, where, and how it compares.
#[derive(Debug)]
pub struct Config {
    /// The text to look for.
    pub query: String,
    /// The name of the file whose lines are searched.
    pub filename: String,
    /// Whether upper and lower case count as the same.
    pub ignore_case: bool,
}

/// The mathematical value of a [`Config`].
pub ghost struct ConfigView {
    pub query: Seq<char>,
    pub filename: Seq<char>,
    pub ignore_case: bool,
}

impl View for Config {
    type V = ConfigView;

    open spec fn view(&self) -> ConfigView {
        ConfigView { query: self.query@, filename: self.filename@, ignore_case: self.ignore_case }
    }
}

/// The message that comes with every argument list of the wrong length,
/// whether it is too short or too long.
pub open spec fn wrong_argument_count() -> Seq<char> {
    "Not enough arguments"@
}

/// The configuration that an argument list stands for, if it stands for
/// one: the list has exactly three entries, the program's name, the query
/// and the file name, and case is ignored where the variable is set.
pub open spec fn resolve(args: Seq<Seq<char>>, variable_is_set: bool) -> Option<ConfigView> {
    if args.len() == 3 {
        Some(ConfigView { query: args[1], filename: args[2], ignore_case: variable_is_set })
    } else {
        None
    }
}

impl Config {
    /// Resolves the configuration from the argument list of the process,
    /// the program's name first, and from what a lookup of the environment
    /// variable [`IGNORE_CASE`] gave: `None` where it is not set, its value
    /// where it is. Only whether there is a value counts, not what it is.
    ///
    /// A list of any length but three is refused, with one message for all
    /// lengths. The entries themselves are not examined.
    pub fn new(args: &[String], ignore_case_var: Option<&str>) -> (outcome: Result<
        Config,
        &'static str,
    >)
        ensures
            outcome is Ok <==> args@.len() == 3,
            match outcome {
                Ok(config) => resolve(args.deep_view(), ignore_case_var is Some) == Some(config@),
                Err(message) => resolve(args.deep_view(), ignore_case_var is Some) is None
                    && message@ == wrong_argument_count(),
            },
    {
        if args.len() != 3 {
            return Err("Not enough arguments");
        }
        let query = args[1].clone();
        let filename = args[2].clone();
        let ignore_case = ignore_case_var.is_some();
        Ok(Config { query, filename, ignore_case })
    }
}

} // verus!
