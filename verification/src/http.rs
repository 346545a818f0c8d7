//! The two request lines that the server knows, and the response it writes.
use vstd::prelude::*;
use vstd::string::StringSliceAdditionalSpecFns;

verus! {

/// What a request is answered with.
#[derive(Clone, Copy, PartialEq, Eq, Debug, Structural)]
pub enum Route {
    /// The index page.
    Index,
    /// The index page, after a pause.
    SlowIndex,
    /// The page for everything else.
    NotFound,
}

/// The request line of the index page, as bytes.
pub open spec fn index_line() -> Seq<u8> {
    "GET / HTTP/1.1\r\n".spec_bytes()
}

/// The request line of the slow page, as bytes.
pub open spec fn sleep_line() -> Seq<u8> {
    "GET /sleep HTTP/1.1\r\n".spec_bytes()
}

/// The route of a request: decided by the bytes it starts with.
pub open spec fn route_of(request: Seq<u8>) -> Route {
    if index_line().is_prefix_of(request) {
        Route::Index
    } else if sleep_line().is_prefix_of(request) {
        Route::SlowIndex
    } else {
        Route::NotFound
    }
}

/// What stands between the status line and the length of the body.
pub open spec fn length_header() -> Seq<u8> {
    "\r\nContent-Lenght: ".spec_bytes()
}

/// What stands between the headers and the body.
pub open spec fn blank_line() -> Seq<u8> {
    "\r\n\r\n".spec_bytes()
}

/// `n` in decimal digits, without leading zeros.
pub open spec fn decimal(n: nat) -> Seq<u8>
    decreases n,
{
    if n < 10 {
        seq![(48 + n) as u8]
    } else {
        decimal(n / 10).push((48 + n % 10) as u8)
    }
}

/// The whole response: status line, the length of the body, an empty line,
/// the body.
pub open spec fn response_of(status_line: Seq<u8>, content: Seq<u8>) -> Seq<u8> {
    status_line + length_header() + decimal(content.len()) + blank_line() + content
}

/// Whether `bytes` begins with `prefix`.
pub fn starts_with(bytes: &[u8], prefix: &[u8]) -> (found: bool)
    ensures
        found == prefix@.is_prefix_of(bytes@),
{
    if prefix.len() > bytes.len() {
        return false;
    }
    let mut at: usize = 0;
    while at < prefix.len()
        invariant
            at <= prefix@.len() <= bytes@.len(),
            forall|k: int| 0 <= k < at ==> prefix@[k] == bytes@[k],
        decreases prefix@.len() - at,
    {
        if prefix[at] != bytes[at] {
            return false;
        }
        at = at + 1;
    }
    proof {
        assert(prefix@ =~= bytes@.subrange(0, prefix@.len() as int));
    }
    true
}

/// Decides how a request is answered.
pub fn route(request: &[u8]) -> (route: Route)
    ensures
        route == route_of(request@),
{
    if starts_with(request, "GET / HTTP/1.1\r\n".as_bytes()) {
        Route::Index
    } else if starts_with(request, "GET /sleep HTTP/1.1\r\n".as_bytes()) {
        Route::SlowIndex
    } else {
        Route::NotFound
    }
}

impl Route {
    /// The status line of the response.
    pub fn status_line(&self) -> (line: &'static str)
        ensures
            line@ == (match *self {
                Route::Index | Route::SlowIndex => "HTTP/1.1 200 OK"@,
                Route::NotFound => "HTTP/1.1 404 NOT FOUND"@,
            }),
    {
        match self {
            Route::Index | Route::SlowIndex => "HTTP/1.1 200 OK",
            Route::NotFound => "HTTP/1.1 404 NOT FOUND",
        }
    }

    /// The file that holds the body of the response.
    pub fn filename(&self) -> (name: &'static str)
        ensures
            name@ == (match *self {
                Route::Index | Route::SlowIndex => "index.html"@,
                Route::NotFound => "404.html"@,
            }),
    {
        match self {
            Route::Index | Route::SlowIndex => "index.html",
            Route::NotFound => "404.html",
        }
    }

    /// For how many seconds the answer is held back.
    pub fn delay_secs(&self) -> (secs: u64)
        ensures
            secs == (match *self {
                Route::SlowIndex => 5u64,
                Route::Index | Route::NotFound => 0u64,
            }),
    {
        match self {
            Route::SlowIndex => 5,
            Route::Index | Route::NotFound => 0,
        }
    }
}

/// Appends `n` in decimal digits.
pub fn push_decimal(out: &mut Vec<u8>, n: usize)
    ensures
        final(out)@ == old(out)@ + decimal(n as nat),
    decreases n,
{
    if n >= 10 {
        push_decimal(out, n / 10);
    }
    let digit: u8 = (n % 10) as u8;
    out.push(48 + digit);
    proof {
        assert(final(out)@ =~= old(out)@ + decimal(n as nat));
    }
}

/// Builds the response to write: the status line, the header with the length
/// of the body in bytes, an empty line and the body.
pub fn response(status_line: &str, content: &str) -> (bytes: Vec<u8>)
    ensures
        bytes@ == response_of(status_line.spec_bytes(), content.spec_bytes()),
{
    let body = content.as_bytes();
    let mut bytes: Vec<u8> = Vec::new();
    bytes.extend_from_slice(status_line.as_bytes());
    bytes.extend_from_slice("\r\nContent-Lenght: ".as_bytes());
    push_decimal(&mut bytes, body.len());
    bytes.extend_from_slice("\r\n\r\n".as_bytes());
    bytes.extend_from_slice(body);
    proof {
        assert(bytes@ =~= response_of(status_line.spec_bytes(), content.spec_bytes()));
    }
    bytes
}

} // verus!
