//! What the server answers to a request: which page, under which status
//! line, after what delay, and the text of the response.

use crate::decimal::decimal;
use crate::decimal::to_decimal;
use vstd::prelude::*;
use vstd::string::StringExecFns;
use vstd::string::StringSliceAdditionalSpecFns;

verus! {

/// The answers that the server knows.
#[derive(Clone, Copy, Debug, PartialEq, Eq, Structural)]
pub enum Route {
    /// The greeting page, at once.
    Hello,
    /// The greeting page, after a pause.
    SlowHello,
    /// The page for everything else.
    NotFound,
}

/// The answer to a request that starts with the line `request_line`.
pub open spec fn route_of(request_line: Seq<char>) -> Route {
    if request_line == "GET / HTTP/1.1"@ {
        Route::Hello
    } else if request_line == "GET /sleep HTTP/1.1"@ {
        Route::SlowHello
    } else {
        Route::NotFound
    }
}

/// The text of a response: the status line, the length of the contents in
/// bytes, an empty line, the contents.
pub open spec fn response_text(status_line: Seq<char>, length: nat, contents: Seq<char>) -> Seq<
    char,
> {
    status_line + "\r\nContent-length: "@ + decimal(length) + "\r\n\r\n"@ + contents
}

impl Route {
    /// The status line of the response.
    pub open spec fn spec_status_line(self) -> Seq<char> {
        match self {
            Route::Hello | Route::SlowHello => "HTTP/1.1 200 OK"@,
            Route::NotFound => "HTTP/1.1 404 NOT FOUND"@,
        }
    }

    /// The name of the file that holds the page.
    pub open spec fn spec_filename(self) -> Seq<char> {
        match self {
            Route::Hello | Route::SlowHello => "hello.html"@,
            Route::NotFound => "404.html"@,
        }
    }

    /// The seconds to let pass before the page is read and sent.
    pub open spec fn spec_delay_secs(self) -> u64 {
        match self {
            Route::SlowHello => 5,
            _ => 0,
        }
    }

    /// The status line of the response.
    pub fn status_line(&self) -> (line: &'static str)
        ensures
            line@ == self.spec_status_line(),
    {
        match self {
            Route::Hello | Route::SlowHello => "HTTP/1.1 200 OK",
            Route::NotFound => "HTTP/1.1 404 NOT FOUND",
        }
    }

    /// The name of the file that holds the page.
    pub fn filename(&self) -> (name: &'static str)
        ensures
            name@ == self.spec_filename(),
    {
        match self {
            Route::Hello | Route::SlowHello => "hello.html",
            Route::NotFound => "404.html",
        }
    }

    /// The seconds to let pass before the page is read and sent.
    pub fn delay_secs(&self) -> (secs: u64)
        ensures
            secs == self.spec_delay_secs(),
    {
        match self {
            Route::SlowHello => 5,
            _ => 0,
        }
    }
}

/// The answer to a request that starts with the line `request_line`.
pub fn route(request_line: &str) -> (r: Route)
    ensures
        r == route_of(request_line@),
{
    let line = String::from_str(request_line);
    if line == String::from_str("GET / HTTP/1.1") {
        Route::Hello
    } else if line == String::from_str("GET /sleep HTTP/1.1") {
        Route::SlowHello
    } else {
        Route::NotFound
    }
}

/// The text of the response that carries `contents` under `status_line`.
pub fn response(status_line: &str, contents: &str) -> (text: String)
    ensures
        text@ == response_text(status_line@, contents.spec_bytes().len(), contents@),
{
    let mut text = String::from_str(status_line);
    text.append("\r\nContent-length: ");
    let length = to_decimal(contents.as_bytes().len());
    text.append(length.as_str());
    text.append("\r\n\r\n");
    text.append(contents);
    text
}

} // verus!
