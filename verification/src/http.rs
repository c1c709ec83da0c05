//! Interface of the HTTP client used for future server synchronization.
//!
//! Only request construction is decided here: a request may be built for
//! `http` and `https` URLs alone. Opening native sessions and performing the
//! exchange are the caller's platform work.

use vstd::prelude::*;

verus! {

use vstd::string::StrSliceExecFns;

/// Whether `s` starts with `p`.
pub open spec fn spec_starts_with(s: Seq<char>, p: Seq<char>) -> bool {
    p.len() <= s.len() && s.subrange(0, p.len() as int) == p
}

/// Whether a URL, written with its scheme in lowercase, is an HTTP URL.
pub open spec fn spec_is_http_url(u: Seq<char>) -> bool {
    spec_starts_with(u, "http://"@) || spec_starts_with(u, "https://"@)
}

/// Whether `s` starts with `p`.
fn starts_with(s: &str, p: &str) -> (r: bool)
    ensures
        r == spec_starts_with(s@, p@),
{
    let n = p.unicode_len();
    if n > s.unicode_len() {
        return false;
    }
    let mut i: usize = 0;
    while i < n
        invariant
            0 <= i <= n,
            n == p@.len() <= s@.len(),
            forall|j: int| 0 <= j < i ==> s@[j] == p@[j],
        decreases n - i,
    {
        if s.get_char(i) != p.get_char(i) {
            return false;
        }
        i += 1;
    }
    proof {
        assert(s@.subrange(0, p@.len() as int) =~= p@);
    }
    true
}

/// Struct to construct request objects.
pub struct HttpClient {}

impl HttpClient {
    /// Sets up the client. The portable client holds no native session, so
    /// construction always succeeds; a platform shell that opens one reports
    /// its failure as [`NewError`].
    pub fn new() -> (r: Result<HttpClient, NewError>)
        ensures
            r is Ok,
    {
        Ok(HttpClient {})
    }

    /// Builds a request for `url`, which must be an HTTP URL (scheme `http`
    /// or `https`, written in lowercase).
    pub fn request(&self, url: &str) -> (r: Result<Request, RequestError>)
        ensures
            r matches Ok(q) ==> spec_is_http_url(url@) && q@ == url@,
            r matches Err(e) ==> !spec_is_http_url(url@) && e is NotHttp,
    {
        if starts_with(url, "http://") || starts_with(url, "https://") {
            Ok(Request { url: url.to_owned() })
        } else {
            Err(RequestError::NotHttp)
        }
    }
}

/// An HTTP request, not yet performed.
pub struct Request {
    url: String,
}

impl View for Request {
    type V = Seq<char>;

    closed spec fn view(&self) -> Seq<char> {
        self.url@
    }
}

impl Request {
    /// The URL the request will go to.
    pub fn url(&self) -> (r: &str)
        ensures
            r@ == self@,
    {
        self.url.as_str()
    }
}

/// An error when [`HttpClient::new`] fails.
#[derive(Debug)]
pub enum NewError {
    /// A native session could not be opened; holds the reported cause.
    CreateSessionFailed(String),
}

/// An error when [`HttpClient::request`] fails.
#[derive(Debug)]
pub enum RequestError {
    /// The URL is not an HTTP URL.
    NotHttp,
}

} // verus!
