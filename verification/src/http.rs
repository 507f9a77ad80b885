//! The verified pure parts of the web server around the pool: mapping a
//! request line to a canned status/file pair, and formatting a response.
//! Reading the request from the socket, reading the file from disk and
//! writing the response back are I/O and stay with the caller.

use vstd::prelude::*;

verus! {

use vstd::string::StringSliceAdditionalSpecFns;

/// Where a request line is routed.
#[derive(Clone, Copy, Debug, PartialEq, Eq, Structural)]
pub enum Route {
    /// The home page.
    Home,
    /// The home page, after an artificial delay (used to demonstrate that
    /// slow requests do not block the whole pool).
    Sleep,
    /// Anything else.
    NotFound,
}

/// Relies on `<str as PartialEq>::eq`: two string slices compare equal
/// exactly when they hold the same characters.
#[verifier::external_body]
fn str_eq(a: &str, b: &str) -> (r: bool)
    ensures
        r == (a@ == b@),
{
    a == b
}

/// The routing decision, as a mathematical function of the request line.
pub open spec fn spec_route(line: Seq<char>) -> Route {
    if line == "GET / HTTP/1.1"@ || line == "GET /index HTTP/1.1"@ {
        Route::Home
    } else if line == "GET /sleep HTTP/1.1"@ {
        Route::Sleep
    } else {
        Route::NotFound
    }
}

/// Map a request line to its route: the two canned pages, or not found.
pub fn route(line: &str) -> (r: Route)
    ensures
        r == spec_route(line@),
{
    if str_eq(line, "GET / HTTP/1.1") || str_eq(line, "GET /index HTTP/1.1") {
        Route::Home
    } else if str_eq(line, "GET /sleep HTTP/1.1") {
        Route::Sleep
    } else {
        Route::NotFound
    }
}

/// The status line answered for a route.
pub open spec fn spec_status_line(r: Route) -> Seq<char> {
    match r {
        Route::Home => "HTTP/1.1 200 OK"@,
        Route::Sleep => "HTTP/1.1 200 OK"@,
        Route::NotFound => "HTTP/1.1 404 NOT FOUND"@,
    }
}

/// The file served for a route.
pub open spec fn spec_file_name(r: Route) -> Seq<char> {
    match r {
        Route::Home => "index.html"@,
        Route::Sleep => "index.html"@,
        Route::NotFound => "404.html"@,
    }
}

/// The status line for a route.
pub fn status_line(r: Route) -> (s: &'static str)
    ensures
        s@ == spec_status_line(r),
{
    match r {
        Route::Home => "HTTP/1.1 200 OK",
        Route::Sleep => "HTTP/1.1 200 OK",
        Route::NotFound => "HTTP/1.1 404 NOT FOUND",
    }
}

/// The file name for a route.
pub fn file_name(r: Route) -> (s: &'static str)
    ensures
        s@ == spec_file_name(r),
{
    match r {
        Route::Home => "index.html",
        Route::Sleep => "index.html",
        Route::NotFound => "404.html",
    }
}

/// The character for one decimal digit.
pub open spec fn digit_char(d: int) -> char {
    ((d + 48) as u8) as char
}

/// The decimal numeral of `n`, most significant digit first, no leading
/// zeros (except for zero itself).
pub open spec fn dec_chars(n: nat) -> Seq<char>
    decreases n,
{
    if n < 10 {
        seq![digit_char(n as int)]
    } else {
        dec_chars(n / 10) + seq![digit_char((n % 10) as int)]
    }
}

/// The one-character string for a decimal digit.
fn digit_str(d: usize) -> (s: &'static str)
    requires
        d < 10,
    ensures
        s@ == seq![digit_char(d as int)],
{
    let s = match d {
        0 => "0",
        1 => "1",
        2 => "2",
        3 => "3",
        4 => "4",
        5 => "5",
        6 => "6",
        7 => "7",
        8 => "8",
        _ => "9",
    };
    proof {
        reveal_strlit("0");
        reveal_strlit("1");
        reveal_strlit("2");
        reveal_strlit("3");
        reveal_strlit("4");
        reveal_strlit("5");
        reveal_strlit("6");
        reveal_strlit("7");
        reveal_strlit("8");
        reveal_strlit("9");
        assert(s@ =~= seq![digit_char(d as int)]);
    }
    s
}

/// Render `n` as its decimal numeral.
pub fn usize_to_string(n: usize) -> (r: String)
    ensures
        r@ == dec_chars(n as nat),
    decreases n,
{
    if n < 10 {
        digit_str(n).to_owned()
    } else {
        let mut r = usize_to_string(n / 10);
        r.append(digit_str(n % 10));
        r
    }
}

/// The full response for one request: the status line, a `Content-Length`
/// header carrying the byte length of the body, a blank line, and the body.
pub open spec fn spec_response(status: Seq<char>, contents: Seq<char>, content_len: nat) -> Seq<
    char,
> {
    status + "\r\nContent-Length: "@ + dec_chars(content_len) + "\r\n\r\n"@ + contents
}

/// Format the response for a served file.
pub fn response(status: &str, contents: &str) -> (r: String)
    ensures
        r@ == spec_response(status@, contents@, contents.spec_bytes().len()),
{
    let mut r = status.to_owned();
    r.append("\r\nContent-Length: ");
    let len: usize = contents.as_bytes().len();
    let digits = usize_to_string(len);
    r.append(digits.as_str());
    r.append("\r\n\r\n");
    r.append(contents);
    r
}

/// Which serving mode the binary was asked to run.
#[derive(Clone, Copy, Debug, PartialEq, Eq, Structural)]
pub enum RunMode {
    /// Serve over the fixed-size worker pool.
    MultiThreaded,
    /// A mode that is named but has no implementation.
    Async,
    /// Anything else: the binary does nothing for it.
    Unknown,
}

/// The mode-selection decision, as a mathematical function of the name.
pub open spec fn spec_run_mode(m: Seq<char>) -> RunMode {
    if m == "multi threaded"@ {
        RunMode::MultiThreaded
    } else if m == "async"@ {
        RunMode::Async
    } else {
        RunMode::Unknown
    }
}

/// Select the serving mode named by the caller.
pub fn run_mode(m: &str) -> (r: RunMode)
    ensures
        r == spec_run_mode(m@),
{
    if str_eq(m, "multi threaded") {
        RunMode::MultiThreaded
    } else if str_eq(m, "async") {
        RunMode::Async
    } else {
        RunMode::Unknown
    }
}

} // verus!
