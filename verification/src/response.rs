//! Responses: a head of header lines and a body of bytes.

use crate::static_files::FileError;
use vstd::prelude::*;
use vstd::string::*;

verus! {

/// A response as it goes out on the connection: the head, then the body.
#[derive(Debug, PartialEq, Eq)]
pub struct Response {
    /// The status line and the header lines, each ended by `\r\n`, and the
    /// empty line that ends the head.
    pub head: String,
    /// The bytes after the head.
    pub body: Vec<u8>,
}

/// A response as a value: the characters of its head and the bytes of its
/// body.
pub struct ResponseView {
    pub head: Seq<char>,
    pub body: Seq<u8>,
}

impl View for Response {
    type V = ResponseView;

    open spec fn view(&self) -> ResponseView {
        ResponseView { head: self.head@, body: self.body@ }
    }
}

/// The decimal digit for `d`, where `d` is below ten.
pub open spec fn digit(d: nat) -> char {
    "0123456789"@[d as int]
}

/// The decimal numeral of `n`: no sign, no leading zero but for zero itself.
pub open spec fn decimal_digits(n: nat) -> Seq<char>
    decreases n,
{
    if n < 10 {
        seq![digit(n)]
    } else {
        decimal_digits(n / 10).push(digit(n % 10))
    }
}

/// The head of a response: the status line, the length of the body, the
/// content type where there is one, and the notice that the connection is
/// closed after the response.
pub open spec fn head_of(status: Seq<char>, length: nat, content_type: Option<Seq<char>>) -> Seq<
    char,
> {
    let type_line = match content_type {
        Some(t) => "\r\nContent-Type: "@ + t,
        None => Seq::empty(),
    };
    "HTTP/1.1 "@ + status + "\r\nContent-Length: "@ + decimal_digits(length) + type_line
        + "\r\nConnection: close\r\n\r\n"@
}

/// The answer to a request whose method is not served: no body.
pub open spec fn method_not_allowed_view() -> ResponseView {
    ResponseView { head: head_of("405 METHOD NOT ALLOWED"@, 0, None), body: Seq::empty() }
}

/// The answer where nothing is found, or a file cannot be served.
pub open spec fn not_found_view() -> ResponseView {
    let body = "404 Not Found".spec_bytes();
    ResponseView { head: head_of("404 NOT FOUND"@, body.len(), None), body }
}

/// The greeting.
pub open spec fn hello_view() -> ResponseView {
    let body = "{\"message\": \"Hello, world!\"}\n".spec_bytes();
    ResponseView { head: head_of("200 OK"@, body.len(), Some("application/json"@)), body }
}

/// The answer that carries a file: its bytes, with their length and the
/// file's media type in the head.
pub open spec fn file_view(body: Seq<u8>, mime: Seq<char>) -> ResponseView {
    ResponseView { head: head_of("200 OK"@, body.len(), Some(mime)), body }
}

/// The answer to a request for a file, given what reading the file gave: the
/// file where it was read, else the answer that nothing is found, whatever
/// the failure.
pub open spec fn file_outcome_view(outcome: Result<(Vec<u8>, String), FileError>) -> ResponseView {
    match outcome {
        Ok((body, mime)) => file_view(body@, mime@),
        Err(_) => not_found_view(),
    }
}

/// Writes `n` in decimal.
pub fn decimal(n: usize) -> (s: String)
    ensures
        s@ == decimal_digits(n as nat),
    decreases n,
{
    proof {
        reveal_strlit("0123456789");
    }
    if n < 10 {
        let s = String::from_str("0123456789".substring_char(n, n + 1));
        assert(s@ =~= decimal_digits(n as nat));
        s
    } else {
        let mut s = decimal(n / 10);
        let d: usize = n % 10;
        s.append("0123456789".substring_char(d, d + 1));
        assert(s@ =~= decimal_digits(n as nat));
        s
    }
}

/// Builds the head of a response.
pub fn head(status: &str, length: usize, content_type: Option<&str>) -> (h: String)
    ensures
        h@ == head_of(
            status@,
            length as nat,
            match content_type {
                Some(t) => Some(t@),
                None => None,
            },
        ),
{
    let mut h = String::from_str("HTTP/1.1 ");
    h.append(status);
    h.append("\r\nContent-Length: ");
    let digits = decimal(length);
    h.append(digits.as_str());
    match content_type {
        Some(t) => {
            h.append("\r\nContent-Type: ");
            h.append(t);
        },
        None => {
            assert(h@ + Seq::<char>::empty() =~= h@);
        },
    }
    h.append("\r\nConnection: close\r\n\r\n");
    assert(h@ =~= head_of(
        status@,
        length as nat,
        match content_type {
            Some(t) => Some(t@),
            None => None,
        },
    ));
    h
}

impl Response {
    /// The answer to a request whose method is not served.
    pub fn method_not_allowed() -> (r: Response)
        ensures
            r@ == method_not_allowed_view(),
    {
        Response { head: head("405 METHOD NOT ALLOWED", 0, None), body: Vec::new() }
    }

    /// The answer where nothing is found, or a file cannot be served.
    pub fn not_found() -> (r: Response)
        ensures
            r@ == not_found_view(),
    {
        let body = "404 Not Found".as_bytes_vec();
        Response { head: head("404 NOT FOUND", body.len(), None), body }
    }

    /// The greeting.
    pub fn hello() -> (r: Response)
        ensures
            r@ == hello_view(),
    {
        let body = "{\"message\": \"Hello, world!\"}\n".as_bytes_vec();
        Response { head: head("200 OK", body.len(), Some("application/json")), body }
    }

    /// The answer that carries a file.
    pub fn file(body: Vec<u8>, mime: &str) -> (r: Response)
        ensures
            r@ == file_view(body@, mime@),
    {
        Response { head: head("200 OK", body.len(), Some(mime)), body }
    }

    /// The answer to a request for a file, given the file's bytes and media
    /// type, or why it could not be read.
    pub fn for_file(outcome: Result<(Vec<u8>, String), FileError>) -> (r: Response)
        ensures
            r@ == file_outcome_view(outcome),
    {
        match outcome {
            Ok((body, mime)) => Response::file(body, mime.as_str()),
            Err(_) => Response::not_found(),
        }
    }
}

} // verus!
