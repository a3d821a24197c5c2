//! The local listener that receives the OAuth redirect.
//!
//! The provider sends the user's browser to the local port with the
//! authorization code as a query parameter: `GET /?code=... HTTP/1.1`. This
//! module reads the request, decides what to answer, and decides what to do
//! when the port cannot be bound. Sockets are the caller's business.

use vstd::prelude::*;
use crate::text::{from_chars, lemma_scan, part, scan, scan_from, to_chars, Stop};

verus! {

/// How often binding the port is tried again before giving up.
pub const BIND_RETRIES: u32 = 5;

/// Seconds to wait before binding the port is tried again.
pub const BIND_RETRY_DELAY_SECS: u64 = 1;

/// The first line of a request: what stands before the first line feed.
pub open spec fn first_line(request: Seq<char>) -> Seq<char> {
    request.take(scan(request, 0, Stop::At('\n')))
}

/// The second of the words of a line, where words are what white space
/// separates.
pub open spec fn second_word(line: Seq<char>) -> Option<Seq<char>> {
    let first = scan(line, 0, Stop::NonSpace);
    let gap = scan(line, first, Stop::Space);
    let second = scan(line, gap, Stop::NonSpace);
    let end = scan(line, second, Stop::Space);
    if second < end {
        Some(line.subrange(second, end))
    } else {
        None
    }
}

/// The value of the first parameter named `code` that has a value, among the
/// parameters of `query` from `from` on. Parameters are separated by `&`; a
/// parameter's name ends at its first `=`, and its value at its second.
pub open spec fn code_in_query(query: Seq<char>, from: int) -> Option<Seq<char>>
    decreases query.len() - from,
    via code_in_query_decreases
{
    if from < 0 || from > query.len() {
        None
    } else {
        let name_end = scan(query, from, Stop::AtEither('=', '&'));
        if name_end < query.len() && query[name_end] == '=' && query.subrange(from, name_end)
            == "code"@ {
            Some(query.subrange(name_end + 1, scan(query, name_end + 1, Stop::AtEither('=', '&'))))
        } else {
            let end = scan(query, from, Stop::At('&'));
            if end < query.len() {
                code_in_query(query, end + 1)
            } else {
                None
            }
        }
    }
}

#[via_fn]
proof fn code_in_query_decreases(query: Seq<char>, from: int) {
    if 0 <= from <= query.len() {
        lemma_scan(query, from, Stop::At('&'));
    }
}

/// The authorization code that a request path carries: the path must be the
/// root path with a query, `/?...`, and the query, which ends at a second
/// `?`, must hold a parameter `code`.
pub open spec fn code_of_path(path: Seq<char>) -> Option<Seq<char>> {
    if path.len() >= 2 && path[0] == '/' && path[1] == '?' {
        code_in_query(path.subrange(2, scan(path, 2, Stop::At('?'))), 0)
    } else {
        None
    }
}

/// The authorization code that a request carries: that of the path, which is
/// the second word of the request's first line.
pub open spec fn code_of_request(request: Seq<char>) -> Option<Seq<char>> {
    match second_word(first_line(request)) {
        Some(path) => code_of_path(path),
        None => None,
    }
}

/// Decides whether the characters of `s` from `from` up to `to` spell
/// `code`.
pub fn spells_code(s: &Vec<char>, from: usize, to: usize) -> (r: bool)
    requires
        from <= to <= s.len(),
    ensures
        r == (s@.subrange(from as int, to as int) == "code"@),
{
    proof {
        reveal_strlit("code");
    }
    let ghost sub = s@.subrange(from as int, to as int);
    assert(sub.len() == to - from);
    assert("code"@.len() == 4);
    if to - from != 4 {
        return false;
    }
    let r = s[from] == 'c' && s[from + 1] == 'o' && s[from + 2] == 'd' && s[from + 3] == 'e';
    proof {
        assert(sub[0] == s@[from as int]);
        assert(sub[1] == s@[from + 1]);
        assert(sub[2] == s@[from + 2]);
        assert(sub[3] == s@[from + 3]);
        if r {
            assert(sub =~= "code"@);
        }
    }
    r
}

/// Finds the value of the parameter `code` in a query.
pub fn find_code(query: &Vec<char>) -> (r: Option<Vec<char>>)
    ensures
        match r {
            Some(code) => code_in_query(query@, 0) == Some(code@),
            None => code_in_query(query@, 0) is None,
        },
{
    let mut from: usize = 0;
    loop
        invariant
            from <= query.len(),
            code_in_query(query@, 0) == code_in_query(query@, from as int),
        decreases query.len() - from,
    {
        let name_end = scan_from(query, from, Stop::AtEither('=', '&'));
        if name_end < query.len() && query[name_end] == '=' && spells_code(query, from, name_end) {
            let value_end = scan_from(query, name_end + 1, Stop::AtEither('=', '&'));
            return Some(part(query, name_end + 1, value_end));
        }
        let end = scan_from(query, from, Stop::At('&'));
        if end < query.len() {
            from = end + 1;
        } else {
            return None;
        }
    }
}

/// Reads the authorization code from a request, if the request carries one.
pub fn extract_code(request: &str) -> (r: Option<String>)
    ensures
        match r {
            Some(code) => code_of_request(request@) == Some(code@),
            None => code_of_request(request@) is None,
        },
{
    let text = to_chars(request);
    let line_end = scan_from(&text, 0, Stop::At('\n'));
    let line = part(&text, 0, line_end);
    assert(line@ == first_line(request@));
    let first = scan_from(&line, 0, Stop::NonSpace);
    let gap = scan_from(&line, first, Stop::Space);
    let second = scan_from(&line, gap, Stop::NonSpace);
    let end = scan_from(&line, second, Stop::Space);
    if second >= end {
        return None;
    }
    let path = part(&line, second, end);
    if path.len() >= 2 && path[0] == '/' && path[1] == '?' {
        let query_end = scan_from(&path, 2, Stop::At('?'));
        let query = part(&path, 2, query_end);
        match find_code(&query) {
            Some(code) => Some(from_chars(&code)),
            None => None,
        }
    } else {
        None
    }
}

/// The answer to a request that carried the code: a page that tells the user
/// to return to the application.
pub const CODE_RECEIVED_REPLY: &'static str =
    "HTTP/1.1 200 OK\r\nContent-Type: text/html\r\nConnection: close\r\n\r\n<html><body><h1>Success!</h1><p>You can close this window and return to the app.</p><script>window.close();</script></body></html>";

/// The answer to any other request, such as a browser asking for an icon.
pub const NOT_FOUND_REPLY: &'static str = "HTTP/1.1 404 Not Found\r\nConnection: close\r\n\r\n";

/// What the listener does with a request: answer and go on waiting, or
/// answer and hand the code on.
#[derive(Debug)]
pub enum Reception {
    /// The request carried no code: answer "not found" and keep listening.
    KeepWaiting,
    /// The request carried the code: answer "success" and stop listening.
    CodeReceived(String),
}

impl Reception {
    /// The answer to send to the browser.
    pub fn reply(&self) -> (r: &'static str)
        ensures
            r@ == if self is CodeReceived {
                CODE_RECEIVED_REPLY@
            } else {
                NOT_FOUND_REPLY@
            },
    {
        match self {
            Reception::CodeReceived(_) => CODE_RECEIVED_REPLY,
            Reception::KeepWaiting => NOT_FOUND_REPLY,
        }
    }
}

/// Decides what the listener does with a request: only a request for the
/// root path that carries a `code` parameter ends the wait.
pub fn receive(request: &str) -> (r: Reception)
    ensures
        match r {
            Reception::CodeReceived(code) => code_of_request(request@) == Some(code@),
            Reception::KeepWaiting => code_of_request(request@) is None,
        },
{
    match extract_code(request) {
        Some(code) => Reception::CodeReceived(code),
        None => Reception::KeepWaiting,
    }
}

/// What to do when the port could not be bound.
#[derive(Debug, Clone, Copy, PartialEq, Eq, Structural)]
pub enum BindStep {
    /// Wait for the given number of seconds, then try again; the count of
    /// failed attempts is now the given one.
    RetryAfter(u64, u32),
    /// Give up.
    GiveUp,
}

/// Decides what to do when the port could not be bound after `attempts`
/// earlier failures: up to [`BIND_RETRIES`] failures are followed by another
/// try, one second later.
pub fn after_bind_failure(attempts: u32) -> (r: BindStep)
    ensures
        r == if attempts < BIND_RETRIES {
            BindStep::RetryAfter(BIND_RETRY_DELAY_SECS, (attempts + 1) as u32)
        } else {
            BindStep::GiveUp
        },
{
    if attempts < BIND_RETRIES {
        BindStep::RetryAfter(BIND_RETRY_DELAY_SECS, attempts + 1)
    } else {
        BindStep::GiveUp
    }
}

} // verus!
