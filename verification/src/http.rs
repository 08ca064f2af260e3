//! What the server answers to a request: which page it serves under which
//! status, and how the response is written out.

use crate::numbers::{decimal, to_decimal};
use crate::parser::Config;
use crate::text::same_text;
use vstd::prelude::*;
use vstd::string::StringExecFns;
use vstd::string::StringSliceAdditionalSpecFns;

verus! {

/// What a request is answered with.
#[derive(Clone, Copy, Debug, PartialEq, Eq, Structural)]
pub enum Reply {
    /// The server's page.
    Page,
    /// Nothing, after a pause.
    Sleep,
    /// The error page.
    NotFound,
}

/// The request line that asks for the server's page.
pub const GET_ROOT: &'static str = "GET / HTTP/1.1";

/// The request line that asks for a pause.
pub const GET_SLEEP: &'static str = "GET /sleep HTTP/1.1";

/// The status line that goes with the server's page.
pub const STATUS_OK: &'static str = "HTTP/1.1 200 OK";

/// The status line that goes with the error page.
pub const STATUS_NOT_FOUND: &'static str = "HTTP/1.1 404 NOT FOUND";

/// How long a pause lasts, in seconds.
pub const SLEEP_SECONDS: u64 = 5;

/// The reply that a request line asks for.
pub open spec fn reply_to(request_line: Seq<char>) -> Reply {
    if request_line == GET_ROOT@ {
        Reply::Page
    } else if request_line == GET_SLEEP@ {
        Reply::Sleep
    } else {
        Reply::NotFound
    }
}

/// The reply that a request line asks for.
pub fn route(request_line: &str) -> (reply: Reply)
    ensures
        reply == reply_to(request_line@),
{
    if same_text(request_line, GET_ROOT) {
        Reply::Page
    } else if same_text(request_line, GET_SLEEP) {
        Reply::Sleep
    } else {
        Reply::NotFound
    }
}

impl Reply {
    /// The status line of the reply and the file whose contents it carries;
    /// a pause carries nothing.
    pub fn page<'a>(&self, config: &'a Config) -> (res: Option<(&'static str, &'a str)>)
        ensures
            match *self {
                Reply::Page => res matches Some(p) && p.0@ == STATUS_OK@ && p.1@
                    == config.html_page@,
                Reply::Sleep => res is None,
                Reply::NotFound => res matches Some(p) && p.0@ == STATUS_NOT_FOUND@ && p.1@
                    == config.error_page@,
            },
    {
        match self {
            Reply::Page => Some((STATUS_OK, config.html_page.as_str())),
            Reply::Sleep => None,
            Reply::NotFound => Some((STATUS_NOT_FOUND, config.error_page.as_str())),
        }
    }
}

/// A response as it goes over the wire: the status line, the length of the
/// contents in bytes, an empty line, and the contents.
pub open spec fn response_text(status_line: Seq<char>, contents: Seq<char>, length: nat) -> Seq<
    char,
> {
    status_line + "\r\nContent-Length: "@ + decimal(length) + "\r\n\r\n"@ + contents
}

/// Writes out the response that carries `contents` under `status_line`.
pub fn response(status_line: &str, contents: &str) -> (res: String)
    ensures
        res@ == response_text(status_line@, contents@, contents.spec_bytes().len()),
{
    let length = contents.as_bytes().len();
    let digits = to_decimal(length);
    let mut res = status_line.to_owned();
    res.append("\r\nContent-Length: ");
    res.append(digits.as_str());
    res.append("\r\n\r\n");
    res.append(contents);
    res
}

} // verus!
