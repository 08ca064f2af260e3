//! The web server's arguments: the address to listen on, the page to serve,
//! and the size of the worker pool.

use crate::grep::{asks_for_help, asks_for_version, is_help_flag, is_version_flag};
use crate::grep2::Usage;
use crate::numbers::{parse_usize, parsed_usize};
use vstd::prelude::*;
use vstd::string::StringSliceAdditionalSpecFns;
use vstd::utf8::encode_utf8;

verus! {

/// How the server is to run.
pub struct Config {
    pub server_address: String,
    pub html_page: String,
    pub error_page: String,
    pub pool_size: usize,
    pub program_name: String,
}

/// The number of workers where the arguments name none.
pub const DEFAULT_POOL_SIZE: usize = 5;

/// The page for requests that nothing answers, where the environment names
/// none.
pub const DEFAULT_ERROR_PAGE: &'static str = "./page/404.html";

/// What the arguments ask for in place of a server, if anything: the first
/// argument may ask for the help text or the version, and the help text is
/// due where there is no first argument.
pub open spec fn usage_for(args: Seq<String>) -> Option<Usage> {
    if args.len() < 2 {
        Some(Usage::Help)
    } else if asks_for_help(args[1]@) {
        Some(Usage::Help)
    } else if asks_for_version(args[1]@) {
        Some(Usage::Version)
    } else {
        None
    }
}

/// Whether arguments that ask for a server say enough: the page to serve is
/// named, and the pool size, where one is given, is a number.
pub open spec fn complete(args: Seq<String>) -> bool {
    &&& args.len() >= 3
    &&& (args.len() >= 4 ==> parsed_usize(encode_utf8(args[3]@)) is Some)
}

/// The pool size that the arguments ask for.
pub open spec fn pool_size_for(args: Seq<String>) -> usize {
    if args.len() >= 4 {
        parsed_usize(encode_utf8(args[3]@)).unwrap_or(DEFAULT_POOL_SIZE)
    } else {
        DEFAULT_POOL_SIZE
    }
}

/// The error page to serve: the one that the environment names, or the
/// default.
pub open spec fn error_page_for(page_404: Option<String>) -> Seq<char> {
    match page_404 {
        Some(page) => page@,
        None => DEFAULT_ERROR_PAGE@,
    }
}

impl Config {
    /// Whether [`Config::new`] can read `args`: they ask for the help text
    /// or the version, or they name the page to serve and, where they give
    /// a pool size, give a number.
    pub fn accepts(args: &Vec<String>) -> (res: bool)
        ensures
            res == (usage_for(args@) is Some || complete(args@)),
    {
        if args.len() < 2 {
            return true;
        }
        let first = args[1].as_str();
        if is_help_flag(first) || is_version_flag(first) {
            return true;
        }
        if args.len() < 3 {
            return false;
        }
        if args.len() >= 4 {
            return parse_usize(args[3].as_str()).is_some();
        }
        true
    }

    /// Reads the server's arguments, the program's own name first: the
    /// address to listen on, the page to serve, and the pool size, which may
    /// be left out. `page_404` is the error page that the environment
    /// names, if it names one.
    pub fn new(args: &Vec<String>, program_name: &str, page_404: Option<String>) -> (res: Result<
        Config,
        Usage,
    >)
        requires
            usage_for(args@) is None ==> complete(args@),
        ensures
            match res {
                Ok(config) => {
                    &&& usage_for(args@) is None
                    &&& config.server_address@ == args@[1]@
                    &&& config.html_page@ == args@[2]@
                    &&& config.pool_size == pool_size_for(args@)
                    &&& config.error_page@ == error_page_for(page_404)
                    &&& config.program_name@ == program_name@
                },
                Err(usage) => usage_for(args@) == Some(usage),
            },
    {
        if args.len() < 2 {
            return Err(Usage::Help);
        }
        let first = args[1].as_str();
        if is_help_flag(first) {
            return Err(Usage::Help);
        }
        if is_version_flag(first) {
            return Err(Usage::Version);
        }
        let pool_size = if args.len() >= 4 {
            match parse_usize(args[3].as_str()) {
                Some(size) => size,
                None => DEFAULT_POOL_SIZE,
            }
        } else {
            DEFAULT_POOL_SIZE
        };
        let error_page = match page_404 {
            Some(page) => page,
            None => DEFAULT_ERROR_PAGE.to_owned(),
        };
        Ok(
            Config {
                server_address: args[1].clone(),
                html_page: args[2].clone(),
                error_page,
                pool_size,
                program_name: program_name.to_owned(),
            },
        )
    }
}

} // verus!
