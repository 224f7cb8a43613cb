//! The HTTP exchange with the monitor socket of a sandbox: what is sent and
//! how the answer is read. Connecting, writing and reading are the caller's
//! part.

use crate::config::{strip_unix_scheme, without_unix_scheme};
use crate::scan::{find_in, first_index};
use crate::text::{contains, contains_text, find_from, from_chars, occurs_at, to_chars};
use std::time::Duration;
use vstd::prelude::*;
use vstd::string::*;

verus! {

/// Seconds that a request may take where no other timeout is asked for.
pub const DEFAULT_TIMEOUT_SECONDS: u64 = 3;

/// The timeout of a request where no other is asked for.
pub fn default_timeout() -> (timeout: Duration)
    ensures
        crate::monitor::cri_client::duration_nanos(timeout) == DEFAULT_TIMEOUT_SECONDS
            * 1_000_000_000,
{
    Duration::from_secs(DEFAULT_TIMEOUT_SECONDS)
}

/// What is needed to perform a GET request: the path of the socket to
/// connect to, the URI that is asked for and the text to send.
#[derive(Debug)]
pub struct GetRequest {
    pub socket_path: String,
    pub uri: String,
    pub request: String,
}

/// The URI of `path` on the shim.
pub open spec fn uri_of(path: Seq<char>) -> Seq<char> {
    "http://shim"@ + path
}

/// The text of a GET request for `uri`.
pub open spec fn request_text(uri: Seq<char>) -> Seq<char> {
    "GET "@ + uri + " HTTP/1.1\r\nHost: shim\r\nConnection: close\r\n\r\n"@
}

/// Prepares an HTTP GET request for `path` to the shim monitor socket at
/// `socket_address`.
pub fn do_get(socket_address: &str, path: &str) -> (plan: GetRequest)
    ensures
        plan.socket_path@ == without_unix_scheme(socket_address@),
        plan.uri@ == uri_of(path@),
        plan.request@ == request_text(uri_of(path@)),
{
    do_get_with_timeout(socket_address, path)
}

/// Prepares an HTTP GET request; the timeout is the caller's to apply.
pub fn do_get_with_timeout(socket_address: &str, path: &str) -> (plan: GetRequest)
    ensures
        plan.socket_path@ == without_unix_scheme(socket_address@),
        plan.uri@ == uri_of(path@),
        plan.request@ == request_text(uri_of(path@)),
{
    let socket_path = strip_unix_scheme(socket_address);
    let mut uri = "http://shim".to_owned();
    uri.append(path);
    let mut request = "GET ".to_owned();
    request.append(uri.as_str());
    request.append(" HTTP/1.1\r\nHost: shim\r\nConnection: close\r\n\r\n");
    GetRequest { socket_path, uri, request }
}

/// The answer did not report success.
#[derive(Debug)]
pub struct UnexpectedStatus {
    /// The URI that was asked for.
    pub uri: String,
    /// The first line of the answer, or `Unknown` if the answer is empty.
    pub status_line: String,
}

impl UnexpectedStatus {
    /// The text of the error: the URI and the status line.
    pub open spec fn text(self) -> Seq<char> {
        "unexpected status from "@ + self.uri@ + ": "@ + self.status_line@
    }

    /// The text of the error.
    pub fn message(&self) -> (text: String)
        ensures
            text@ == self.text(),
    {
        let mut text = "unexpected status from ".to_owned();
        text.append(self.uri.as_str());
        text.append(": ");
        text.append(self.status_line.as_str());
        text
    }
}

/// The first line of `response`, or `Unknown` where the response is empty.
/// A line ends at a line feed; the line feed is not part of the line, nor is
/// a carriage return that stands right before it.
pub open spec fn status_line_of(response: Seq<char>) -> Seq<char> {
    if response.len() == 0 {
        "Unknown"@
    } else if 0 <= first_index(response, '\n') < response.len() {
        let line = response.take(first_index(response, '\n'));
        if line.len() > 0 && line.last() == '\r' {
            line.drop_last()
        } else {
            line
        }
    } else {
        response
    }
}

/// The four characters that end the head of an HTTP message.
pub open spec fn head_end() -> Seq<char> {
    seq!['\r', '\n', '\r', '\n']
}

/// Whether `at` is the first position of `response` where the head ends.
pub open spec fn head_ends_at(response: Seq<char>, at: int) -> bool {
    occurs_at(head_end(), response, at) && forall|k: int|
        0 <= k < at ==> !occurs_at(head_end(), response, k)
}

/// Reads the answer to a GET request. An answer that holds `200` nowhere is
/// refused. The body is what follows the first empty line; an answer without
/// an empty line has an empty body.
pub fn read_response(response: &str, uri: &str) -> (r: Result<String, UnexpectedStatus>)
    ensures
        match r {
            Err(e) => !contains_text(response@, "200"@) && e.uri@ == uri@ && e.status_line@
                == status_line_of(response@),
            Ok(body) => contains_text(response@, "200"@) && (if contains_text(
                response@,
                head_end(),
            ) {
                exists|at: int|
                    head_ends_at(response@, at) && body@ == response@.skip(at + 4)
            } else {
                body@.len() == 0
            }),
        },
{
    let text = to_chars(response);
    if !contains(&text, &to_chars("200")) {
        let status_line = if text.len() == 0 {
            "Unknown".to_owned()
        } else {
            proof {
                assert(text@.subrange(0, text@.len() as int) =~= text@);
            }
            let stop = match find_in(&text, '\n', 0, text.len()) {
                Some(end) => {
                    proof {
                        let line = response@.take(end as int);
                        assert(line =~= text@.subrange(0, end as int));
                        if end > 0 {
                            assert(line.last() == text@[end - 1]);
                            assert(line.drop_last() =~= text@.subrange(0, end - 1));
                        }
                    }
                    if end > 0 && text[end - 1] == '\r' {
                        end - 1
                    } else {
                        end
                    }
                },
                None => text.len(),
            };
            from_chars(&text, 0, stop)
        };
        return Err(UnexpectedStatus { uri: uri.to_owned(), status_line });
    }
    let marker: Vec<char> = vec!['\r', '\n', '\r', '\n'];
    proof {
        assert(marker@ =~= head_end());
    }
    let n = text.len();
    match find_from(&text, &marker, 0) {
        Some(at) => {
            proof {
                assert(marker@.len() == 4);
                assert(occurs_at(marker@, text@, at as int));
                assert(at + 4 <= text@.len());
            }
            proof {
                assert(head_ends_at(response@, at as int));
                assert(text@.subrange(at + 4, text@.len() as int) =~= response@.skip(at + 4));
            }
            Ok(from_chars(&text, at + 4, n))
        },
        None => {
            proof {
                assert forall|k: int| !occurs_at(head_end(), response@, k) by {
                    if k >= 0 {
                    } else {
                    }
                }
            }
            Ok(String::new())
        },
    }
}

} // verus!
