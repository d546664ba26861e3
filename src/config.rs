//! The settings of one search, taken from the command line and the environment.

use vstd::prelude::*;

use crate::search::{matching_lines, search, search_case_insensitive, views};

verus! {

/// Why the command line does not describe a search.
#[derive(PartialEq, Eq, Structural, Debug, Clone, Copy)]
pub enum ArgumentError {
    /// No query follows the program's name.
    MissingQuery,
    /// No file path follows the query.
    MissingFilePath,
}

impl ArgumentError {
    /// A line for the user that says what is missing.
    pub fn message(&self) -> (r: &'static str)
        ensures
            *self == ArgumentError::MissingQuery ==> r@ == "missing query string"@,
            *self == ArgumentError::MissingFilePath ==> r@ == "missing file path"@,
    {
        match self {
            ArgumentError::MissingQuery => "missing query string",
            ArgumentError::MissingFilePath => "missing file path",
        }
    }
}

/// What to search for, where, and whether case counts.
pub struct Config {
    query: String,
    filepath: String,
    ignore_case: bool,
}

/// The contents of a [`Config`] as plain values.
pub struct ConfigView {
    pub query: Seq<char>,
    pub filepath: Seq<char>,
    pub ignore_case: bool,
}

impl View for Config {
    type V = ConfigView;

    closed spec fn view(&self) -> ConfigView {
        ConfigView { query: self.query@, filepath: self.filepath@, ignore_case: self.ignore_case }
    }
}

impl Config {
    /// The text to look for.
    pub fn query(&self) -> (r: &str)
        ensures
            r@ == self@.query,
    {
        self.query.as_str()
    }

    /// The path of the file to search.
    pub fn filepath(&self) -> (r: &str)
        ensures
            r@ == self@.filepath,
    {
        self.filepath.as_str()
    }

    /// Whether lines are compared after lowercasing.
    pub fn ignore_case(&self) -> (r: bool)
        ensures
            r == self@.ignore_case,
    {
        self.ignore_case
    }

    /// The settings described by the command line `args`, whose first item is the
    /// program's own name, and by `ignore_case_env`, the value of the variable that
    /// asks for case-insensitive search where it is set. The second and third items
    /// are taken as they stand as the query and the file path; any further items
    /// are ignored. Whether the variable is set decides, not what it holds.
    pub fn build(args: Vec<String>, ignore_case_env: Option<String>) -> (r: Result<
        Config,
        ArgumentError,
    >)
        ensures
            args@.len() < 2 ==> r == Err::<Config, ArgumentError>(ArgumentError::MissingQuery),
            args@.len() == 2 ==> r == Err::<Config, ArgumentError>(
                ArgumentError::MissingFilePath,
            ),
            args@.len() > 2 ==> r is Ok,
            r matches Ok(c) ==> c@.query == args@[1]@ && c@.filepath == args@[2]@
                && c@.ignore_case == ignore_case_env is Some,
    {
        let mut args = args;
        if args.len() < 2 {
            return Err(ArgumentError::MissingQuery);
        }
        if args.len() < 3 {
            return Err(ArgumentError::MissingFilePath);
        }
        let filepath = args.remove(2);
        let query = args.remove(1);
        let ignore_case = ignore_case_env.is_some();
        Ok(Config { query, filepath, ignore_case })
    }
}

/// The lines of `contents` that `config` asks for: those holding its query, compared
/// after lowercasing where it ignores case.
pub fn search_with_config<'a>(config: &Config, contents: &'a str) -> (r: Vec<&'a str>)
    ensures
        views(r@) == matching_lines(config@.query, contents@, config@.ignore_case),
{
    if config.ignore_case() {
        search_case_insensitive(config.query(), contents)
    } else {
        search(config.query(), contents)
    }
}

} // verus!
