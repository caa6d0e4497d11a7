//! What the server answers: which page and status a request line gets, and the
//! bytes of the response that carries a page.

use vstd::prelude::*;
use vstd::string::StringSliceAdditionalSpecFns;
use vstd::utf8::{decode_utf8, encode_utf8_decode_utf8};

verus! {

/// The status of a response.
#[derive(Clone, Copy, Debug, PartialEq, Eq, Structural)]
pub enum Status {
    /// 200: the page exists.
    Success,
    /// 404: there is no such page.
    NotFound,
}

/// A page that the server can send.
#[derive(Clone, Copy, Debug, PartialEq, Eq, Structural)]
pub enum Page {
    /// The greeting.
    Hello,
    /// The page that says that nothing was found.
    NotFound,
}

/// How a request is answered.
#[derive(Clone, Copy, Debug, PartialEq, Eq, Structural)]
pub struct Route {
    /// The status of the response.
    pub status: Status,
    /// The page that the response carries.
    pub page: Page,
    /// For how many seconds the request is held before it is answered.
    pub delay_secs: u64,
}

/// The request line that asks for the greeting.
pub open spec fn root_line() -> Seq<char> {
    "GET / HTTP/1.1"@
}

/// The request line that asks for the greeting after a pause.
pub open spec fn sleep_line() -> Seq<char> {
    "GET /sleep HTTP/1.1"@
}

/// The answer to a request line: the greeting for the two lines above, after
/// five seconds for the second, and "not found" for every other line.
pub open spec fn route_spec(line: Seq<char>) -> Route {
    if line == root_line() {
        Route { status: Status::Success, page: Page::Hello, delay_secs: 0 }
    } else if line == sleep_line() {
        Route { status: Status::Success, page: Page::Hello, delay_secs: 5 }
    } else {
        Route { status: Status::NotFound, page: Page::NotFound, delay_secs: 0 }
    }
}

/// The decimal digits of `n`, in ASCII, without leading zeros.
pub open spec fn decimal(n: nat) -> Seq<u8>
    decreases n,
{
    if n < 10 {
        seq![(48 + n) as u8]
    } else {
        decimal(n / 10).push((48 + n % 10) as u8)
    }
}

impl Status {
    /// The status line.
    pub open spec fn line_spec(self) -> Seq<char> {
        match self {
            Status::Success => "HTTP/1.1 200 OK"@,
            Status::NotFound => "HTTP/1.1 404 NOT FOUND"@,
        }
    }

    /// The status line.
    pub fn line(self) -> (line: &'static str)
        ensures
            line@ == self.line_spec(),
    {
        match self {
            Status::Success => "HTTP/1.1 200 OK",
            Status::NotFound => "HTTP/1.1 404 NOT FOUND",
        }
    }
}

impl Page {
    /// Where the page is kept.
    pub open spec fn path_spec(self) -> Seq<char> {
        match self {
            Page::Hello => "static/hello.html"@,
            Page::NotFound => "static/404.html"@,
        }
    }

    /// Where the page is kept.
    pub fn path(self) -> (path: &'static str)
        ensures
            path@ == self.path_spec(),
    {
        match self {
            Page::Hello => "static/hello.html",
            Page::NotFound => "static/404.html",
        }
    }
}

/// The bytes of a response: the status line, the length of the contents in a
/// header of its own, an empty line, and the contents.
pub open spec fn response_spec(status_line: Seq<u8>, contents: Seq<u8>) -> Seq<u8> {
    status_line + "\r\nContent-Length: ".spec_bytes() + decimal(contents.len())
        + "\r\n\r\n".spec_bytes() + contents
}

/// Whether two strings are the same text.
fn same_text(a: &str, b: &str) -> (same: bool)
    ensures
        same == (a@ == b@),
{
    let left = a.as_bytes();
    let right = b.as_bytes();
    proof {
        encode_utf8_decode_utf8(a@);
        encode_utf8_decode_utf8(b@);
    }
    if left.len() != right.len() {
        return false;
    }
    let mut i: usize = 0;
    while i < left.len()
        invariant
            i <= left@.len(),
            left@.len() == right@.len(),
            left@ == a.spec_bytes(),
            right@ == b.spec_bytes(),
            decode_utf8(a.spec_bytes()) == a@,
            decode_utf8(b.spec_bytes()) == b@,
            forall|j: int| 0 <= j < i ==> left@[j] == right@[j],
        decreases left@.len() - i,
    {
        if left[i] != right[i] {
            return false;
        }
        i = i + 1;
    }
    assert(left@ =~= right@);
    true
}

/// Decides how a request line is answered.
pub fn route(request_line: &str) -> (route: Route)
    ensures
        route == route_spec(request_line@),
{
    if same_text(request_line, "GET / HTTP/1.1") {
        Route { status: Status::Success, page: Page::Hello, delay_secs: 0 }
    } else if same_text(request_line, "GET /sleep HTTP/1.1") {
        Route { status: Status::Success, page: Page::Hello, delay_secs: 5 }
    } else {
        Route { status: Status::NotFound, page: Page::NotFound, delay_secs: 0 }
    }
}

/// Appends the decimal digits of `n` to `out`.
fn push_decimal(out: &mut Vec<u8>, n: usize)
    ensures
        final(out)@ == old(out)@ + decimal(n as nat),
    decreases n,
{
    if n < 10 {
        out.push(48u8 + n as u8);
        assert(final(out)@ =~= old(out)@ + decimal(n as nat));
    } else {
        push_decimal(out, n / 10);
        out.push(48u8 + (n % 10) as u8);
        assert(final(out)@ =~= old(out)@ + decimal(n as nat));
    }
}

/// Builds the response that carries `contents` under `status_line`.
pub fn response(status_line: &str, contents: &str) -> (out: Vec<u8>)
    ensures
        out@ == response_spec(status_line.spec_bytes(), contents.spec_bytes()),
{
    let mut out: Vec<u8> = Vec::new();
    out.extend_from_slice(status_line.as_bytes());
    out.extend_from_slice("\r\nContent-Length: ".as_bytes());
    let body = contents.as_bytes();
    push_decimal(&mut out, body.len());
    out.extend_from_slice("\r\n\r\n".as_bytes());
    out.extend_from_slice(body);
    assert(out@ =~= response_spec(status_line.spec_bytes(), contents.spec_bytes()));
    out
}

} // verus!
