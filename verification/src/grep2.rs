//! The search program's arguments, read one after the other: a request for
//! the help text or the version is answered, and what follows the pattern is
//! not looked at.

use crate::grep::{
    asks_for_help, asks_for_version, insensitive_hits, is_help_flag, is_switched_on,
    is_version_flag, search_case_insensitive, search_case_sensitive, sensitive_hits, switched_on,
};
use crate::matches::Matches;
use vstd::prelude::*;
use vstd::string::StringExecFns;
use vstd::string::StringSliceAdditionalSpecFns;
use vstd::utf8::encode_utf8;

verus! {

/// What a search is to do.
pub struct Config {
    pub file_path: String,
    pub pattern: String,
    pub case_insensitive: bool,
}

/// What the user is told in place of a search.
#[derive(Clone, Copy, Debug, PartialEq, Eq, Structural)]
pub enum Usage {
    /// The help text.
    Help,
    /// The program's name and version.
    Version,
}

/// The name under which the program gives its version.
pub const PROGRAM: &'static str = "mini-grep";

/// The text that gives the version of a program.
pub open spec fn version_line(program: Seq<char>, version: Seq<char>) -> Seq<char> {
    program + " v"@ + version
}

impl Usage {
    /// The text to show: the help text as it is, or the program's name and
    /// version.
    pub fn message(&self, help: &str, program: &str, version: &str) -> (text: String)
        ensures
            text@ == match *self {
                Usage::Help => help@,
                Usage::Version => version_line(program@, version@),
            },
    {
        match self {
            Usage::Help => help.to_owned(),
            Usage::Version => {
                let mut text = program.to_owned();
                text.append(" v");
                text.append(version);
                text
            },
        }
    }
}

/// What the arguments ask for in place of a search, if anything: the first
/// argument may ask for the help text or the version, and the help text is
/// due where the file or the pattern is missing.
pub open spec fn usage_for(args: Seq<String>) -> Option<Usage> {
    if args.len() < 2 {
        Some(Usage::Help)
    } else if asks_for_help(args[1]@) {
        Some(Usage::Help)
    } else if asks_for_version(args[1]@) {
        Some(Usage::Version)
    } else if args.len() < 3 {
        Some(Usage::Help)
    } else {
        None
    }
}

impl Config {
    /// Reads the program's arguments, the program's own name first: the
    /// file to search, then the pattern. `variable` is the value of the
    /// variable that switches case off, if it is set.
    pub fn new(args: &Vec<String>, variable: Option<&str>) -> (res: Result<Config, Usage>)
        ensures
            match res {
                Ok(config) => {
                    &&& usage_for(args@) is None
                    &&& config.file_path@ == args@[1]@
                    &&& config.pattern@ == args@[2]@
                    &&& config.case_insensitive == switched_on(variable)
                },
                Err(usage) => usage_for(args@) == Some(usage),
            },
    {
        if args.len() < 2 {
            return Err(Usage::Help);
        }
        let first = args[1].as_str();
        if is_help_flag(first) {
            return Err(Usage::Help);
        }
        if is_version_flag(first) {
            return Err(Usage::Version);
        }
        if args.len() < 3 {
            return Err(Usage::Help);
        }
        Ok(
            Config {
                file_path: args[1].clone(),
                pattern: args[2].clone(),
                case_insensitive: is_switched_on(variable),
            },
        )
    }
}

/// Searches `contents`, the text of the file that `config` names, for the
/// pattern of `config`, with or without regard to case as `config` says.
pub fn run_mini_grep(config: &Config, contents: &str) -> (res: Matches)
    ensures
        res.wf(),
        res@ == if config.case_insensitive {
            insensitive_hits(config.pattern@, contents.spec_bytes())
        } else {
            sensitive_hits(encode_utf8(config.pattern@), contents.spec_bytes())
        },
{
    if config.case_insensitive {
        search_case_insensitive(config.pattern.as_str(), contents)
    } else {
        search_case_sensitive(config.pattern.as_str(), contents)
    }
}

} // verus!
